//! The errors that building a metadata blob can end in.

use vstd::prelude::*;

verus! {

/// The stage at which a signing key was turned down.
#[derive(Debug, Clone, Copy, PartialEq, Eq, Structural)]
pub enum KeyFault {
    /// The text holds no PEM block, or its payload is not base64.
    Pem,
    /// The payload is not the DER structure of an RSA private key.
    Der,
    /// The numbers in the key do not belong together.
    Components,
    /// The key could not produce a signature.
    Signing,
}

/// Why a descriptor could not be turned into a blob.
#[derive(Debug, Clone)]
pub enum NpdmError {
    /// A field is outside the range or form that the format allows. The
    /// string names the field.
    InvalidValue(String),
    /// More than one of the three debug flags is set.
    InvalidDebugFlags,
    /// A field that the format needs is absent. The string names it.
    MissingField(String),
    /// The signing key is unusable.
    KeyError(KeyFault),
    /// The signature is not 256 bytes long.
    SignatureLength,
}

/// An [`NpdmError`] with its strings as sequences of characters.
pub enum ErrorModel {
    InvalidValue(Seq<char>),
    InvalidDebugFlags,
    MissingField(Seq<char>),
    KeyError(KeyFault),
    SignatureLength,
}

impl View for NpdmError {
    type V = ErrorModel;

    open spec fn view(&self) -> ErrorModel {
        match self {
            NpdmError::InvalidValue(field) => ErrorModel::InvalidValue(field@),
            NpdmError::InvalidDebugFlags => ErrorModel::InvalidDebugFlags,
            NpdmError::MissingField(field) => ErrorModel::MissingField(field@),
            NpdmError::KeyError(fault) => ErrorModel::KeyError(*fault),
            NpdmError::SignatureLength => ErrorModel::SignatureLength,
        }
    }
}

impl NpdmError {
    /// An `InvalidValue` that names `field`.
    pub fn invalid_value(field: &str) -> (e: NpdmError)
        ensures
            e@ == ErrorModel::InvalidValue(field@),
    {
        NpdmError::InvalidValue(field.to_owned())
    }

    /// A `MissingField` that names `field`.
    pub fn missing_field(field: &str) -> (e: NpdmError)
        ensures
            e@ == ErrorModel::MissingField(field@),
    {
        NpdmError::MissingField(field.to_owned())
    }
}

/// The outcome of producing bytes, over sequences.
pub open spec fn bytes_result(r: Result<Vec<u8>, NpdmError>) -> Result<Seq<u8>, ErrorModel> {
    match r {
        Ok(bytes) => Ok(bytes@),
        Err(e) => Err(e@),
    }
}

} // verus!
