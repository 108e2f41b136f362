//! Reading numbers out of text, and lower-casing it.
//!
//! Numbers are read from the UTF-8 bytes of a string. A digit is a single
//! ASCII byte, so nothing is lost by that.

use vstd::prelude::*;
use vstd::string::StringSliceAdditionalSpecFns;
use vstd::utf8::{encode_utf8, encode_utf8_decode_utf8};

verus! {

/// The value of an ASCII digit of the given radix (10 or 16), if `b` is one.
pub open spec fn digit_of(b: u8, radix: nat) -> Option<nat> {
    if 0x30 <= b <= 0x39 {
        Some((b - 0x30) as nat)
    } else if radix == 16 && 0x41 <= b <= 0x46 {
        Some((b - 0x41 + 10) as nat)
    } else if radix == 16 && 0x61 <= b <= 0x66 {
        Some((b - 0x61 + 10) as nat)
    } else {
        None
    }
}

/// Whether every byte of `s` is a digit of the radix.
pub open spec fn all_digits(s: Seq<u8>, radix: nat) -> bool {
    forall|i: int| 0 <= i < s.len() ==> (#[trigger] digit_of(s[i], radix)) is Some
}

/// The number that the digits `s` spell, most significant digit first.
pub open spec fn digits_value(s: Seq<u8>, radix: nat) -> nat
    decreases s.len(),
{
    if s.len() == 0 {
        0
    } else {
        digits_value(s.drop_last(), radix) * radix + digit_of(s.last(), radix).unwrap()
    }
}

/// `s` without the one `+` that may lead it.
pub open spec fn unsigned_digits(s: Seq<u8>) -> Seq<u8> {
    if s.len() > 0 && s[0] == 0x2b {
        s.skip(1)
    } else {
        s
    }
}

/// The number that `s` spells, if it is at most `limit`: an optional `+`,
/// then one or more digits and nothing else. This is what the standard
/// library's `from_str_radix` accepts for an unsigned type.
pub open spec fn unsigned_number(s: Seq<u8>, radix: nat, limit: nat) -> Option<nat> {
    let digits = unsigned_digits(s);
    if digits.len() > 0 && all_digits(digits, radix) && digits_value(digits, radix) <= limit {
        Some(digits_value(digits, radix))
    } else {
        None
    }
}

/// A longer run of digits spells no smaller a number than its beginning.
proof fn lemma_digits_value_grows(s: Seq<u8>, radix: nat, k: int)
    requires
        all_digits(s, radix),
        0 <= k <= s.len(),
        radix > 0,
    ensures
        digits_value(s.take(k), radix) <= digits_value(s, radix),
    decreases s.len() - k,
{
    if k == s.len() {
        assert(s.take(k) =~= s);
    } else {
        lemma_digits_value_grows(s, radix, k + 1);
        let longer = s.take(k + 1);
        assert(longer.drop_last() =~= s.take(k));
        assert(digit_of(s[k], radix) is Some);
        assert(longer.last() == s[k]);
        assert(digits_value(s.take(k), radix) <= digits_value(s.take(k), radix) * radix)
            by (nonlinear_arith)
            requires
                radix > 0,
        ;
    }
}

fn digit(b: u8, radix: u64) -> (r: Option<u64>)
    requires
        radix == 10 || radix == 16,
    ensures
        match r {
            Some(d) => digit_of(b, radix as nat) == Some(d as nat) && d < radix,
            None => digit_of(b, radix as nat) is None,
        },
{
    if 0x30 <= b && b <= 0x39 {
        Some((b - 0x30) as u64)
    } else if radix == 16 && 0x41 <= b && b <= 0x46 {
        Some((b - 0x41 + 10) as u64)
    } else if radix == 16 && 0x61 <= b && b <= 0x66 {
        Some((b - 0x61 + 10) as u64)
    } else {
        None
    }
}

/// Reads the bytes `from..to` of `s` as an unsigned number of radix 10 or
/// 16 that is at most `limit`.
pub fn parse_unsigned(s: &[u8], from: usize, to: usize, radix: u64, limit: u64) -> (r: Option<u64>)
    requires
        from <= to <= s.len(),
        radix == 10 || radix == 16,
    ensures
        match r {
            Some(v) => unsigned_number(s@.subrange(from as int, to as int), radix as nat, limit as nat)
                == Some(v as nat),
            None => unsigned_number(s@.subrange(from as int, to as int), radix as nat, limit as nat)
                is None,
        },
{
    let ghost text = s@.subrange(from as int, to as int);
    let first: usize = if from < to && s[from] == 0x2b {
        from + 1
    } else {
        from
    };
    let ghost digits = unsigned_digits(text);
    assert(digits =~= s@.subrange(first as int, to as int));
    if first == to {
        return None;
    }
    let mut acc: u64 = 0;
    let mut i: usize = first;
    while i < to
        invariant
            from <= first <= i <= to <= s.len(),
            first < to,
            radix == 10 || radix == 16,
            text == s@.subrange(from as int, to as int),
            digits == unsigned_digits(text),
            digits == s@.subrange(first as int, to as int),
            all_digits(digits.take(i - first), radix as nat),
            acc as nat == digits_value(digits.take(i - first), radix as nat),
            acc <= limit,
        decreases to - i,
    {
        let ghost seen = digits.take(i - first);
        let ghost next = digits.take(i - first + 1);
        proof {
            assert(next.drop_last() =~= seen);
            assert(next.last() == s@[i as int]);
        }
        match digit(s[i], radix) {
            None => {
                proof {
                    assert(digit_of(digits[i - first], radix as nat) is None);
                }
                return None;
            },
            Some(d) => {
                proof {
                    assert forall|j: int| 0 <= j < next.len() implies (#[trigger] digit_of(
                        next[j],
                        radix as nat,
                    )) is Some by {
                        if j < seen.len() {
                            assert(next[j] == seen[j]);
                        }
                    }
                }
                assert((acc as u128) * (radix as u128) <= 0xffff_ffff_ffff_ffff * 16)
                    by (nonlinear_arith)
                    requires
                        acc <= 0xffff_ffff_ffff_ffff,
                        radix <= 16,
                ;
                let wide: u128 = (acc as u128) * (radix as u128) + (d as u128);
                if wide > limit as u128 {
                    proof {
                        if all_digits(digits, radix as nat) {
                            lemma_digits_value_grows(digits, radix as nat, i - first + 1);
                        }
                    }
                    return None;
                }
                acc = wide as u64;
            },
        }
        i = i + 1;
    }
    proof {
        assert(digits.take(to - first) =~= digits);
    }
    Some(acc)
}

/// The lower-case form of a text, as the standard library's
/// `str::to_lowercase` gives it.
pub uninterp spec fn lowercase_of(s: Seq<char>) -> Seq<char>;

/// Calls `str::to_lowercase`, which maps each character by the Unicode
/// lower-case tables and depends on nothing but the text.
#[verifier::external_body]
pub(crate) fn to_lowercase(s: &str) -> (r: String)
    ensures
        r@ == lowercase_of(s@),
{
    s.to_lowercase()
}

/// Whether two texts are the same, character for character.
pub fn same_text(a: &str, b: &str) -> (r: bool)
    ensures
        r == (a@ == b@),
{
    let x: &[u8] = a.as_bytes();
    let y: &[u8] = b.as_bytes();
    proof {
        encode_utf8_decode_utf8(a@);
        encode_utf8_decode_utf8(b@);
    }
    if x.len() != y.len() {
        return false;
    }
    let mut i: usize = 0;
    while i < x.len()
        invariant
            i <= x.len(),
            x.len() == y.len(),
            x@ == encode_utf8(a@),
            y@ == encode_utf8(b@),
            forall|j: int| 0 <= j < i ==> x@[j] == y@[j],
        decreases x.len() - i,
    {
        if x[i] != y[i] {
            return false;
        }
        i = i + 1;
    }
    assert(x@ =~= y@);
    true
}

/// The error of the `hex` crate. It is carried, never looked into.
#[verifier::external_type_specification]
#[verifier::external_body]
pub struct ExFromHexError(hex::FromHexError);

/// The bytes that a text of hexadecimal digits spells, two digits to a
/// byte, the higher digit first. `None` unless the text is an even number
/// of digits.
pub open spec fn hex_decoded(text: Seq<u8>) -> Option<Seq<u8>> {
    if text.len() % 2 == 0 && all_digits(text, 16) {
        Some(
            Seq::new(
                text.len() / 2,
                |i: int|
                    (digit_of(text[2 * i], 16).unwrap() * 16 + digit_of(text[2 * i + 1], 16).unwrap()) as u8,
            ),
        )
    } else {
        None
    }
}

/// Calls `hex::decode`, which accepts an even number of the digits `0-9`,
/// `a-f` and `A-F` and gives one byte for each two.
#[verifier::external_body]
pub(crate) fn hex_decode(text: &str) -> (r: Result<Vec<u8>, hex::FromHexError>)
    ensures
        match r {
            Ok(bytes) => hex_decoded(text.spec_bytes()) == Some(bytes@),
            Err(_) => hex_decoded(text.spec_bytes()) is None,
        },
{
    hex::decode(text)
}

} // verus!
