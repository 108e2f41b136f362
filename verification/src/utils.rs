//! Small helpers shared by the format code: alignment, padding, and numbers
//! that a descriptor may spell in hexadecimal.

use crate::text::{parse_unsigned, unsigned_number};
use sha2::{Digest, Sha256};
use vstd::prelude::*;
use vstd::string::StringSliceAdditionalSpecFns;
use vstd::utf8::{encode_utf8, is_char_boundary};

verus! {

/// `size + padding` with the bits of `padding` cleared. With `padding` one
/// less than a power of two this rounds `size` up to a multiple of that
/// power.
pub open spec fn aligned(size: usize, padding: usize) -> usize {
    ((size + padding) as usize) & !padding
}

/// Rounds `size` up as [`aligned`] says.
pub fn align(size: usize, padding: usize) -> (r: usize)
    requires
        size + padding <= usize::MAX,
    ensures
        r == aligned(size, padding),
{
    (size + padding) & !padding
}

/// [`aligned`] is not below `size`, adds at most `padding`, and has every
/// bit of `padding` clear. With `padding` of the form `2^k - 1`, whatever
/// `k` is, that makes it the one multiple of `2^k` among the `2^k` numbers
/// from `size` on: `size` rounded up.
pub proof fn lemma_aligned_rounds_up(size: usize, padding: usize)
    requires
        size + padding <= usize::MAX,
    ensures
        aligned(size, padding) >= size,
        aligned(size, padding) - size <= padding,
        aligned(size, padding) & padding == 0,
{
    let sum: usize = (size + padding) as usize;
    lemma_aligned_bounds(size, padding);
    assert((sum & !padding) & padding == 0) by (bit_vector);
}

/// [`aligned`] never gives less than `size`, and adds at most `padding`.
pub proof fn lemma_aligned_bounds(size: usize, padding: usize)
    requires
        size + padding <= usize::MAX,
    ensures
        size <= aligned(size, padding) <= size + padding,
{
    let sum: usize = (size + padding) as usize;
    let s: u64 = size as u64;
    let t: u64 = sum as u64;
    let p: u64 = padding as u64;
    assert(s <= (t & !p) && (t & !p) <= t) by (bit_vector)
        requires
            t == s + p,
            s <= 0xffff_ffff_ffff_ffff - p,
    ;
    assert((sum & !padding) as u64 == t & !p) by (bit_vector)
        requires
            t == sum as u64,
            p == padding as u64,
    ;
}

/// What [`add_padding`] leaves in a vector that held `bytes`: the bytes,
/// then zeros up to the aligned length.
pub open spec fn padded(bytes: Seq<u8>, padding: usize) -> Seq<u8> {
    bytes + Seq::new((aligned(bytes.len() as usize, padding) - bytes.len()) as nat, |i: int| 0u8)
}

/// Brings `vec` to the length `align(vec.len(), padding)`, filling with
/// zero bytes.
pub fn add_padding(vec: &mut Vec<u8>, padding: usize)
    requires
        old(vec).len() + padding <= usize::MAX,
    ensures
        final(vec)@ == padded(old(vec)@, padding),
        final(vec)@.len() == aligned(old(vec)@.len() as usize, padding),
{
    let real_size: usize = vec.len();
    let target: usize = align(real_size, padding);
    proof {
        lemma_aligned_bounds(real_size, padding);
    }
    vec.resize(target, 0);
    assert(vec@ =~= padded(old(vec)@, padding));
}

/// A number that a descriptor gives either as an integer or as a string
/// that starts with `0x`.
#[derive(Debug, Clone, Copy)]
pub struct HexOrNum(pub u64);

impl Default for HexOrNum {
    fn default() -> (r: HexOrNum)
        ensures
            r.0 == 0,
    {
        HexOrNum(0)
    }
}

/// The number that a string of the form `0x…` spells: after the prefix an
/// optional `+` and one or more hexadecimal digits, with a value that fits
/// in 64 bits.
pub open spec fn hex_text_value(text: Seq<u8>) -> Option<u64> {
    if text.len() >= 2 && text[0] == 0x30 && text[1] == 0x78 {
        match unsigned_number(text.skip(2), 16, u64::MAX as nat) {
            Some(v) => Some(v as u64),
            None => None,
        }
    } else {
        None
    }
}

/// What a field of a descriptor holds before it is given a meaning: a
/// number or a text.
#[derive(Debug, Clone)]
pub enum Scalar {
    Number(u64),
    Text(String),
}

/// [`Scalar`] with its text as a sequence of characters.
pub enum ScalarModel {
    Number(u64),
    Text(Seq<char>),
}

impl View for Scalar {
    type V = ScalarModel;

    open spec fn view(&self) -> ScalarModel {
        match self {
            Scalar::Number(n) => ScalarModel::Number(*n),
            Scalar::Text(t) => ScalarModel::Text(t@),
        }
    }
}

impl ScalarModel {
    /// The number that the field gives: a number stands for itself, a text
    /// is read as a string that starts with `0x`.
    pub open spec fn number(self) -> Option<u64> {
        match self {
            ScalarModel::Number(n) => Some(n),
            ScalarModel::Text(t) => hex_text_value(encode_utf8(t)),
        }
    }
}

impl HexOrNum {
    /// Reads the number that a field gives, first as a number, then as a
    /// string that starts with `0x`.
    pub fn from_scalar(scalar: &Scalar) -> (r: Option<HexOrNum>)
        ensures
            match r {
                Some(n) => scalar@.number() == Some(n.0),
                None => scalar@.number() is None,
            },
    {
        match scalar {
            Scalar::Number(n) => Some(HexOrNum(*n)),
            Scalar::Text(t) => HexOrNum::from_hex_str(t.as_str()),
        }
    }

    /// Reads the string form of the number.
    pub fn from_hex_str(v: &str) -> (r: Option<HexOrNum>)
        ensures
            match r {
                Some(n) => hex_text_value(v.spec_bytes()) == Some(n.0),
                None => hex_text_value(v.spec_bytes()) is None,
            },
    {
        let bytes: &[u8] = v.as_bytes();
        if bytes.len() < 2 || bytes[0] != 0x30 || bytes[1] != 0x78 {
            return None;
        }
        assert(bytes@.skip(2) =~= bytes@.subrange(2, bytes@.len() as int));
        match parse_unsigned(bytes, 2, bytes.len(), 16, u64::MAX) {
            Some(value) => Some(HexOrNum(value)),
            None => None,
        }
    }
}

/// The error of the standard library's input and output. It is carried,
/// never looked into.
#[verifier::external_type_specification]
#[verifier::external_body]
pub struct ExIoError(std::io::Error);

/// The SHA-256 digest of a sequence of bytes.
pub uninterp spec fn sha256_of(data: Seq<u8>) -> Seq<u8>;

/// Calls `Digest::digest` of `sha2::Sha256`, which hashes the data in one
/// go. The digest depends on the data alone and has 32 bytes.
#[verifier::external_body]
fn sha256_digest(data: &[u8]) -> (r: Vec<u8>)
    ensures
        r@ == sha256_of(data@),
        r@.len() == 32,
{
    Sha256::digest(data).to_vec()
}

/// The SHA-256 digest of `data`, which has 32 bytes. It never fails.
pub fn calculate_sha256(data: &[u8]) -> (r: Result<Vec<u8>, std::io::Error>)
    ensures
        r matches Ok(digest) && digest@ == sha256_of(data@) && digest@.len() == 32,
{
    Ok(sha256_digest(data))
}

/// Calls `String::truncate`, which keeps the first `new_len` bytes of the
/// text and panics unless the text can be cut there.
#[verifier::external_body]
fn truncate_text(string: &mut String, new_len: usize)
    requires
        new_len <= encode_utf8(old(string)@).len(),
        is_char_boundary(encode_utf8(old(string)@), new_len as int),
    ensures
        encode_utf8(final(string)@) == encode_utf8(old(string)@).take(new_len as int),
{
    string.truncate(new_len)
}

/// Makes a text fit a field of `size` bytes, which holds at most
/// `size - 1` bytes of content: a text that takes `size` bytes or more is
/// cut down to its first `size - 1` bytes, a shorter one stays as it is.
/// Tells whether the text was cut: the caller then owes a warning. A text
/// that is cut must have a character boundary at `size - 1`.
pub fn check_string_or_truncate(string: &mut String, size: usize) -> (warn: bool)
    requires
        size >= 1,
        encode_utf8(old(string)@).len() >= size ==> is_char_boundary(
            encode_utf8(old(string)@),
            size - 1,
        ),
    ensures
        warn == (encode_utf8(old(string)@).len() >= size),
        encode_utf8(old(string)@).len() < size ==> final(string)@ == old(string)@,
        encode_utf8(old(string)@).len() >= size ==> encode_utf8(final(string)@) == encode_utf8(
            old(string)@,
        ).take(size - 1),
        encode_utf8(final(string)@).len() <= size - 1,
{
    let bytes: &[u8] = string.as_str().as_bytes();
    let len: usize = bytes.len();
    if len >= size {
        truncate_text(string, size - 1);
        true
    } else {
        false
    }
}

/// The most bytes that an LZ4 block can be made of.
pub const LZ4_MAX_INPUT_SIZE: usize = 0x7e00_0000;

/// The most bytes that the LZ4 block of `len` bytes can take: the length
/// of the data, one byte more for each 255 of them, and 16.
pub open spec fn lz4_bound(len: nat) -> nat {
    len + len / 255 + 16
}

/// Calls `lz4::block::compress` in its default mode and without a size
/// before the data. The crate asks the LZ4 library that it builds for the
/// bound of the block, which that library gives as [`lz4_bound`] for up to
/// [`LZ4_MAX_INPUT_SIZE`] bytes and as 0 for more, and turns down the data
/// where the bound is 0. It then compresses into a buffer of that size,
/// for which the library's header promises success, and cuts the buffer to
/// the bytes that were written, of which there is at least one. Which
/// bytes they are is not said: they differ with the machine that the
/// library is built for.
#[verifier::external_body]
fn lz4_compress_block(data: &[u8]) -> (r: Result<Vec<u8>, std::io::Error>)
    ensures
        r is Ok <==> data@.len() <= LZ4_MAX_INPUT_SIZE,
        r matches Ok(block) ==> 1 <= block@.len() <= lz4_bound(data@.len()),
{
    lz4::block::compress(data, None, false)
}

/// Compresses a block with LZ4. The data stay as they are. Up to
/// [`LZ4_MAX_INPUT_SIZE`] bytes give a block of at least one byte and of
/// at most [`lz4_bound`] bytes; more are an error.
pub fn compress_lz4(uncompressed_data: &mut Vec<u8>) -> (r: Result<Vec<u8>, std::io::Error>)
    ensures
        final(uncompressed_data)@ == old(uncompressed_data)@,
        r is Ok <==> old(uncompressed_data)@.len() <= LZ4_MAX_INPUT_SIZE,
        r matches Ok(block) ==> 1 <= block@.len() <= lz4_bound(old(uncompressed_data)@.len()),
{
    lz4_compress_block(uncompressed_data.as_slice())
}

} // verus!
