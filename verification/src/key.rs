//! Loading the private key that signs a declaration container, and signing
//! with it.

use crate::der::{key_of_der, KeyModel, KeyNumbers, parse_private_key};
use crate::error::{bytes_result, ErrorModel, KeyFault, NpdmError};
use rsa::{BigUint, PaddingScheme, PublicKey, RSAPrivateKey, RSAPublicKey};
use sha2::Sha256;
use vstd::prelude::*;

verus! {

/// The error of the `pem` crate. It is carried, never looked into.
#[verifier::external_type_specification]
#[verifier::external_body]
pub struct ExPemError(pem::PemError);

/// The error of the `rsa` crate. It is carried, never looked into.
#[verifier::external_type_specification]
#[verifier::external_body]
pub struct ExRsaError(rsa::errors::Error);

/// The number that big-endian bytes spell.
pub open spec fn be_value(bytes: Seq<u8>) -> nat
    decreases bytes.len(),
{
    if bytes.len() == 0 {
        0
    } else {
        be_value(bytes.drop_last()) * 256 + bytes.last() as nat
    }
}

/// The least and the greatest public exponent that a key may have.
pub open spec fn public_exponent_ok(e: nat) -> bool {
    2 <= e <= 0x4000_0000
}

impl KeyModel {
    /// Whether both primes are at least 2.
    pub open spec fn primes_ok(self) -> bool {
        be_value(self.prime1) >= 2 && be_value(self.prime2) >= 2
    }

    /// Whether the numbers belong together: the public exponent is in
    /// range, the modulus is the product of the primes, and the product of
    /// the two exponents leaves 1 when divided by either prime less one.
    pub open spec fn consistent(self) -> bool {
        let n = be_value(self.modulus);
        let e = be_value(self.public_exponent);
        let d = be_value(self.private_exponent);
        let p = be_value(self.prime1);
        let q = be_value(self.prime2);
        &&& public_exponent_ok(e)
        &&& p * q == n
        &&& (e * d) % ((p - 1) as nat) == 1
        &&& (e * d) % ((q - 1) as nat) == 1
    }

    /// Whether the key can be used.
    pub open spec fn valid(self) -> bool {
        self.primes_ok() && self.consistent()
    }

    /// Whether the modulus takes at least 34 bytes, leading zero bytes not
    /// counted: some byte that has 33 bytes or more behind it is not zero.
    /// A signature needs that much room, for a digest of 32 bytes and the
    /// two bytes around it.
    pub open spec fn wide_enough(self) -> bool {
        exists|i: int| 0 <= i && i + 34 <= self.modulus.len() && #[trigger] self.modulus[i] != 0
    }

    /// Whether the first byte of the modulus that is not zero is at least
    /// 2: the modulus does not take just one bit more than a whole number
    /// of bytes. No signature can be made or checked under a modulus that
    /// does.
    pub open spec fn fills_its_bytes(self) -> bool {
        exists|i: int|
            0 <= i < self.modulus.len() && #[trigger] self.modulus[i] >= 2 && self.zero_before(i)
    }

    /// Whether every byte of the modulus before index `i` is zero.
    pub open spec fn zero_before(self, i: int) -> bool {
        forall|j: int| 0 <= j < i ==> self.modulus[j] == 0
    }

    /// Whether the modulus is held in fewer than 2^32 bytes.
    pub open spec fn short_enough(self) -> bool {
        self.modulus.len() <= 0xffff_ffff
    }
}

/// The payload of the first PEM block of a text, as the `pem` crate finds
/// and decodes it, or `None` where the crate reports an error.
pub uninterp spec fn pem_contents(text: Seq<char>) -> Option<Seq<u8>>;

/// Calls `pem::parse`, which looks for the first block between a `BEGIN`
/// and an `END` line with the same label and decodes its base64 payload.
/// The outcome depends on the text alone.
#[verifier::external_body]
fn pem_parse(text: &str) -> (r: Result<Vec<u8>, pem::PemError>)
    ensures
        match r {
            Ok(contents) => pem_contents(text@) == Some(contents@),
            Err(_) => pem_contents(text@) is None,
        },
{
    pem::parse(text).map(|block| block.contents)
}

/// Builds an `rsa::RSAPrivateKey` from the numbers with
/// `RSAPrivateKey::from_components` and calls its `validate`, which accepts
/// the key exactly if [`KeyModel::consistent`] holds of it. The crate
/// divides by each prime less one, so both primes must be at least 2.
#[verifier::external_body]
fn rsa_validate(key: &KeyNumbers) -> (r: Result<(), rsa::errors::Error>)
    requires
        key@.primes_ok(),
    ensures
        r is Ok <==> key@.consistent(),
{
    let primes = vec![BigUint::from_bytes_be(&key.prime1), BigUint::from_bytes_be(&key.prime2)];
    RSAPrivateKey::from_components(
        BigUint::from_bytes_be(&key.modulus),
        BigUint::from_bytes_be(&key.public_exponent),
        BigUint::from_bytes_be(&key.private_exponent),
        primes,
    ).validate()
}

/// Builds an `rsa::RSAPrivateKey` from the numbers and calls its `sign`
/// with the PSS padding over SHA-256 and a salt from `rand::thread_rng`.
/// The salt is random, so nothing is said of the signature. The crate
/// subtracts 34 from the number of bytes that the modulus takes, and its
/// mask generation refuses to fill more than 2^32 bytes.
#[verifier::external_body]
fn rsa_sign_pss(key: &KeyNumbers, digest: &[u8]) -> (r: Result<Vec<u8>, rsa::errors::Error>)
    requires
        key@.valid(),
        key@.wide_enough(),
        key@.short_enough(),
{
    let primes = vec![BigUint::from_bytes_be(&key.prime1), BigUint::from_bytes_be(&key.prime2)];
    RSAPrivateKey::from_components(
        BigUint::from_bytes_be(&key.modulus),
        BigUint::from_bytes_be(&key.public_exponent),
        BigUint::from_bytes_be(&key.private_exponent),
        primes,
    ).sign(PaddingScheme::new_pss::<Sha256, _>(rand::thread_rng()), digest)
}

/// Whether the `rsa` crate accepts `signature` as an RSA-PSS signature
/// over SHA-256 of `digest`, under the public key with this modulus and
/// this exponent, both as big-endian bytes.
pub uninterp spec fn pss_verdict(
    modulus: Seq<u8>,
    exponent: Seq<u8>,
    digest: Seq<u8>,
    signature: Seq<u8>,
) -> bool;

/// Builds an `rsa::RSAPublicKey` from the modulus and the public exponent
/// with `RSAPublicKey::new` and calls its `verify` with the PSS padding
/// over SHA-256. The verdict depends on the four byte strings alone: the
/// random generator that the padding carries is not used to verify, and a
/// key that the crate turns down verifies nothing.
///
/// The crate looks no further at a signature that is not as long as the
/// modulus. For one that is, it shifts a byte by 8 less the number of bits
/// that the modulus leaves free in its first byte, which must not be 8, so
/// that byte must be at least 2; and it generates a mask as long as the
/// modulus, which a signature of 256 bytes keeps small.
#[verifier::external_body]
fn rsa_verify_pss(key: &KeyNumbers, digest: &[u8], signature: &[u8]) -> (r: bool)
    requires
        key@.fills_its_bytes(),
        signature@.len() == 0x100,
    ensures
        r == pss_verdict(key@.modulus, key@.public_exponent, digest@, signature@),
{
    let n = BigUint::from_bytes_be(&key.modulus);
    match RSAPublicKey::new(n, BigUint::from_bytes_be(&key.public_exponent)) {
        Ok(public) => {
            public.verify(PaddingScheme::new_pss::<Sha256, _>(rand::thread_rng()), digest, signature).is_ok()
        },
        Err(_) => false,
    }
}

proof fn lemma_be_value_zero(bytes: Seq<u8>)
    requires
        forall|i: int| 0 <= i < bytes.len() ==> bytes[i] == 0,
    ensures
        be_value(bytes) == 0,
    decreases bytes.len(),
{
    if bytes.len() > 0 {
        lemma_be_value_zero(bytes.drop_last());
    }
}

proof fn lemma_be_value_positive(bytes: Seq<u8>, at: int)
    requires
        0 <= at < bytes.len(),
        bytes[at] != 0,
    ensures
        be_value(bytes) >= 1,
    decreases bytes.len(),
{
    if at < bytes.len() - 1 {
        lemma_be_value_positive(bytes.drop_last(), at);
    }
}

/// Whether the number that big-endian bytes spell is at least 2.
pub fn at_least_two(bytes: &[u8]) -> (r: bool)
    ensures
        r == (be_value(bytes@) >= 2),
{
    if bytes.len() == 0 {
        return false;
    }
    let last: usize = bytes.len() - 1;
    let mut i: usize = 0;
    while i < last
        invariant
            i <= last,
            last == bytes.len() - 1,
            forall|j: int| 0 <= j < i ==> bytes@[j] == 0,
        decreases last - i,
    {
        if bytes[i] != 0 {
            proof {
                lemma_be_value_positive(bytes@.drop_last(), i as int);
            }
            return true;
        }
        i = i + 1;
    }
    proof {
        lemma_be_value_zero(bytes@.drop_last());
    }
    bytes[last] >= 2
}

/// The key that a PEM text holds, or the stage at which it is turned down.
pub open spec fn key_of_pem(text: Seq<char>) -> Result<KeyModel, ErrorModel> {
    match pem_contents(text) {
        None => Err(ErrorModel::KeyError(KeyFault::Pem)),
        Some(der) => key_of_contents(der),
    }
}

/// The key that the payload of a PEM block holds, or the stage at which it
/// is turned down.
pub open spec fn key_of_contents(der: Seq<u8>) -> Result<KeyModel, ErrorModel> {
    match key_of_der(der) {
        None => Err(ErrorModel::KeyError(KeyFault::Der)),
        Some(key) => if key.valid() {
            Ok(key)
        } else {
            Err(ErrorModel::KeyError(KeyFault::Components))
        },
    }
}

/// The outcome of loading a key, over sequences.
pub open spec fn key_result(r: Result<KeyNumbers, NpdmError>) -> Result<KeyModel, ErrorModel> {
    match r {
        Ok(key) => Ok(key@),
        Err(e) => Err(e@),
    }
}

/// Reads the key out of the payload of a PEM block and checks that its
/// numbers belong together.
pub fn key_from_contents(der: &[u8]) -> (r: Result<KeyNumbers, NpdmError>)
    ensures
        key_result(r) == key_of_contents(der@),
{
    let key: KeyNumbers = match parse_private_key(der) {
        Some(key) => key,
        None => {
            return Err(NpdmError::KeyError(KeyFault::Der));
        },
    };
    if !at_least_two(key.prime1.as_slice()) || !at_least_two(key.prime2.as_slice()) {
        return Err(NpdmError::KeyError(KeyFault::Components));
    }
    match rsa_validate(&key) {
        Ok(_) => Ok(key),
        Err(_) => Err(NpdmError::KeyError(KeyFault::Components)),
    }
}

/// Loads the private key that a PEM text holds.
pub fn get_pkey_from_pem(pem: &str) -> (r: Result<KeyNumbers, NpdmError>)
    ensures
        key_result(r) == key_of_pem(pem@),
{
    match pem_parse(pem) {
        Ok(data) => key_from_contents(data.as_slice()),
        Err(_) => Err(NpdmError::KeyError(KeyFault::Pem)),
    }
}

/// What is made of the outcome of a signing: a signature of 256 bytes is
/// kept, one of another length is a `SignatureLength` error, and a failure
/// to sign is a `KeyError`.
pub open spec fn signature_checked(signature: Option<Seq<u8>>) -> Result<Seq<u8>, ErrorModel> {
    match signature {
        Some(sig) => if sig.len() == 0x100 {
            Ok(sig)
        } else {
            Err(ErrorModel::SignatureLength)
        },
        None => Err(ErrorModel::KeyError(KeyFault::Signing)),
    }
}

/// The bytes of an optional vector.
pub open spec fn optional_bytes(bytes: Option<Vec<u8>>) -> Option<Seq<u8>> {
    match bytes {
        Some(b) => Some(b@),
        None => None,
    }
}

/// Checks the outcome of a signing as [`signature_checked`] says.
pub fn check_signature(signature: Option<Vec<u8>>) -> (r: Result<Vec<u8>, NpdmError>)
    ensures
        bytes_result(r) == signature_checked(optional_bytes(signature)),
{
    match signature {
        Some(sig) => {
            if sig.len() == 0x100 {
                Ok(sig)
            } else {
                Err(NpdmError::SignatureLength)
            }
        },
        None => Err(NpdmError::KeyError(KeyFault::Signing)),
    }
}

/// Whether the modulus takes at least 34 bytes, leading zero bytes not
/// counted.
pub fn is_wide_enough(key: &KeyNumbers) -> (r: bool)
    ensures
        r == key@.wide_enough(),
{
    let len: usize = key.modulus.len();
    let mut i: usize = 0;
    while i < len && len - i >= 34
        invariant
            i <= len,
            len == key.modulus@.len(),
            forall|j: int| 0 <= j < i ==> key.modulus@[j] == 0,
        decreases len - i,
    {
        if key.modulus[i] != 0 {
            assert(i + 34 <= key@.modulus.len() && key@.modulus[i as int] != 0);
            return true;
        }
        i = i + 1;
    }
    assert forall|j: int| 0 <= j && j + 34 <= key@.modulus.len() implies key@.modulus[j] == 0 by {
        assert(j < i);
    }
    false
}

/// Whether the first byte of the modulus that is not zero is at least 2.
pub fn modulus_fills_its_bytes(key: &KeyNumbers) -> (r: bool)
    ensures
        r == key@.fills_its_bytes(),
{
    let len: usize = key.modulus.len();
    let mut i: usize = 0;
    while i < len
        invariant
            i <= len,
            len == key.modulus@.len(),
            key@.zero_before(i as int),
        decreases len - i,
    {
        if key.modulus[i] != 0 {
            let first: u8 = key.modulus[i];
            proof {
                if first >= 2 {
                    assert(0 <= i < key@.modulus.len() && key@.modulus[i as int] >= 2
                        && key@.zero_before(i as int));
                } else {
                    assert forall|w: int|
                        !(0 <= w < key@.modulus.len() && key@.modulus[w] >= 2 && key@.zero_before(
                            w,
                        )) by {
                        if 0 <= w < key@.modulus.len() && key@.modulus[w] >= 2 && key@.zero_before(w) {
                            if w < i {
                                assert(key@.modulus[w] == 0);
                            } else if w > i {
                                assert(key@.modulus[i as int] == 0);
                            }
                        }
                    }
                }
            }
            return first >= 2;
        }
        i = i + 1;
    }
    assert forall|w: int|
        !(0 <= w < key@.modulus.len() && key@.modulus[w] >= 2 && key@.zero_before(w)) by {
        if 0 <= w < key@.modulus.len() {
            assert(key@.modulus[w] == 0);
        }
    }
    false
}

/// Signs a digest with RSA-PSS over SHA-256, and checks the signature
/// before it hands it out: the signature has 256 bytes and verifies for
/// the digest under the public part of the key.
///
/// A key whose modulus is too short to sign at all gives a
/// `SignatureLength` error, as does a signature of another length and a
/// modulus that is held in 2^32 bytes or more. A signing that fails, and a
/// signature that does not verify, give a `KeyError`.
pub fn sign_digest(key: &KeyNumbers, digest: &[u8]) -> (r: Result<Vec<u8>, NpdmError>)
    requires
        key@.valid(),
    ensures
        match r {
            Ok(sig) => {
                &&& sig@.len() == 0x100
                &&& key@.wide_enough()
                &&& key@.fills_its_bytes()
                &&& pss_verdict(key@.modulus, key@.public_exponent, digest@, sig@)
            },
            Err(e) => if key@.wide_enough() {
                e@ == ErrorModel::SignatureLength || e@ == ErrorModel::KeyError(KeyFault::Signing)
            } else {
                e@ == ErrorModel::SignatureLength
            },
        },
{
    if !is_wide_enough(key) || key.modulus.len() as u64 > 0xffff_ffff {
        return Err(NpdmError::SignatureLength);
    }
    let signed: Option<Vec<u8>> = match rsa_sign_pss(key, digest) {
        Ok(sig) => Some(sig),
        Err(_) => None,
    };
    let sig: Vec<u8> = match check_signature(signed) {
        Ok(sig) => sig,
        Err(e) => {
            return Err(e);
        },
    };
    if !modulus_fills_its_bytes(key) {
        return Err(NpdmError::KeyError(KeyFault::Signing));
    }
    if !rsa_verify_pss(key, digest, sig.as_slice()) {
        return Err(NpdmError::KeyError(KeyFault::Signing));
    }
    Ok(sig)
}

} // verus!
