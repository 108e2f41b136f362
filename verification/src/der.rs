//! Reading the DER structure of an RSA private key.
//!
//! The key comes as a `PrivateKeyInfo`: a sequence of a version, a sequence
//! that holds the object identifier of the algorithm, and an octet string.
//! The octet string holds an `RSAPrivateKey`: a sequence of a version and
//! eight unsigned integers, of which the first five are the modulus, the
//! public exponent, the private exponent and the two primes.
//!
//! Every element must be encoded as DER demands, must fill the place that
//! its parent leaves for it, and nothing may follow the last one.

use vstd::prelude::*;

verus! {

/// Tag number of an INTEGER.
pub const TAG_INTEGER: u8 = 2;

/// Tag number of an OCTET STRING.
pub const TAG_OCTET_STRING: u8 = 4;

/// Tag number of an OBJECT IDENTIFIER.
pub const TAG_OID: u8 = 6;

/// Tag number of a SEQUENCE.
pub const TAG_SEQUENCE: u8 = 16;

/// An element of a buffer: whether it is constructed, and the range of
/// indices that its contents take.
#[derive(Debug, Clone, Copy)]
pub struct Element {
    pub constructed: bool,
    pub start: usize,
    pub end: usize,
}

/// The number that the `count` bytes from `pos` on spell, most significant
/// byte first, or `None` if it outgrows a `usize` before the last byte is
/// added.
pub open spec fn long_length(buf: Seq<u8>, pos: int, count: nat) -> Option<nat>
    decreases count,
{
    if count == 0 {
        Some(0nat)
    } else {
        match long_length(buf, pos, (count - 1) as nat) {
            Some(v) => if v * 256 > usize::MAX {
                None
            } else {
                Some(v * 256 + buf[pos + count - 1] as nat)
            },
            None => None,
        }
    }
}

/// The length that is encoded at `pos`, and the index behind it. A length
/// below 128 takes one byte. A longer one takes a byte that holds 128 plus
/// the number of bytes that follow and spell the length. The indefinite
/// form, the byte 255, and a long form for a length below 128 are refused.
pub open spec fn length_at(buf: Seq<u8>, pos: int, limit: int) -> Option<(nat, int)> {
    if !(0 <= pos < limit <= buf.len()) {
        None
    } else if buf[pos] < 128 {
        Some((buf[pos] as nat, pos + 1))
    } else if buf[pos] == 128 || buf[pos] == 255 {
        None
    } else {
        let count = (buf[pos] - 128) as nat;
        if pos + 1 + count > limit {
            None
        } else {
            match long_length(buf, pos + 1, count) {
                Some(v) => if v < 128 {
                    None
                } else {
                    Some((v, pos + 1 + count))
                },
                None => None,
            }
        }
    }
}

/// The element with the universal tag number `tag` that starts at `pos` and
/// ends at or before `limit`.
pub open spec fn element_at(buf: Seq<u8>, pos: int, limit: int, tag: u8) -> Option<Element> {
    if !(0 <= pos < limit <= buf.len()) {
        None
    } else if buf[pos] != tag && buf[pos] != tag + 0x20 {
        None
    } else {
        match length_at(buf, pos + 1, limit) {
            Some((length, start)) => if length > limit - start {
                None
            } else {
                Some(
                    Element {
                        constructed: buf[pos] != tag,
                        start: start as usize,
                        end: (start + length) as usize,
                    },
                )
            },
            None => None,
        }
    }
}

/// The contents of an element.
pub open spec fn contents(buf: Seq<u8>, e: Element) -> Seq<u8> {
    buf.subrange(e.start as int, e.end as int)
}

/// Whether the first byte of the contents of an integer adds nothing: a
/// zero byte before a byte below 128, or a byte 255 before a byte from 128
/// on.
pub open spec fn redundant_lead(content: Seq<u8>) -> bool {
    (content[0] == 0 && content[1] < 128) || (content[0] == 255 && content[1] >= 128)
}

/// Whether the contents are those of an integer that fits in 64 bits.
pub open spec fn small_integer_ok(content: Seq<u8>) -> bool {
    content.len() == 1 || (2 <= content.len() <= 8 && !redundant_lead(content))
}

/// Whether the contents are those of an integer that is not negative.
pub open spec fn unsigned_ok(content: Seq<u8>) -> bool {
    &&& content.len() >= 1
    &&& content[0] < 128
    &&& (content.len() == 1 || !redundant_lead(content))
}

/// The value of an unsigned integer as big-endian bytes without a leading
/// zero byte; zero is one zero byte.
pub open spec fn magnitude(content: Seq<u8>) -> Seq<u8> {
    if content.len() >= 2 && content[0] == 0 {
        content.skip(1)
    } else {
        content
    }
}

/// The value of an unsigned integer comes without a leading zero byte,
/// unless it is the one byte of zero.
pub proof fn lemma_magnitude_is_short(content: Seq<u8>)
    requires
        unsigned_ok(content),
    ensures
        magnitude(content).len() >= 1,
        magnitude(content).len() >= 2 ==> magnitude(content)[0] != 0,
{
}

/// Whether the bytes from `from` on continue an object identifier whose
/// current arc has the value `arc` so far: no byte is 128, and no arc
/// outgrows 64 bits when it is shifted for its next byte.
pub open spec fn oid_arcs_ok(content: Seq<u8>, from: int, arc: nat) -> bool
    decreases content.len() - from,
{
    if from >= content.len() || from < 0 {
        true
    } else {
        &&& content[from] != 128
        &&& arc * 128 <= u64::MAX
        &&& oid_arcs_ok(
            content,
            from + 1,
            if content[from] < 128 {
                0
            } else {
                (arc * 128 + (content[from] - 128)) as nat
            },
        )
    }
}

/// Whether the contents are those of an object identifier.
pub open spec fn oid_ok(content: Seq<u8>) -> bool {
    &&& content.len() >= 1
    &&& content.last() < 128
    &&& oid_arcs_ok(content, 0, 0)
}

/// The primitive element with tag number `tag` at `pos`.
pub open spec fn primitive_at(buf: Seq<u8>, pos: int, limit: int, tag: u8) -> Option<Element> {
    match element_at(buf, pos, limit, tag) {
        Some(e) => if e.constructed {
            None
        } else {
            Some(e)
        },
        None => None,
    }
}

/// The sequence at `pos`.
pub open spec fn sequence_at(buf: Seq<u8>, pos: int, limit: int) -> Option<Element> {
    match element_at(buf, pos, limit, TAG_SEQUENCE) {
        Some(e) => if e.constructed {
            Some(e)
        } else {
            None
        },
        None => None,
    }
}

/// The integer at `pos`, if it fits in 64 bits.
pub open spec fn small_integer_at(buf: Seq<u8>, pos: int, limit: int) -> Option<Element> {
    match primitive_at(buf, pos, limit, TAG_INTEGER) {
        Some(e) => if small_integer_ok(contents(buf, e)) {
            Some(e)
        } else {
            None
        },
        None => None,
    }
}

/// The integer at `pos`, if it is not negative.
pub open spec fn unsigned_at(buf: Seq<u8>, pos: int, limit: int) -> Option<Element> {
    match primitive_at(buf, pos, limit, TAG_INTEGER) {
        Some(e) => if unsigned_ok(contents(buf, e)) {
            Some(e)
        } else {
            None
        },
        None => None,
    }
}

/// The object identifier at `pos`.
pub open spec fn oid_at(buf: Seq<u8>, pos: int, limit: int) -> Option<Element> {
    match primitive_at(buf, pos, limit, TAG_OID) {
        Some(e) => if oid_ok(contents(buf, e)) {
            Some(e)
        } else {
            None
        },
        None => None,
    }
}

/// The index behind the last of `found`, or `pos` if there is none.
pub open spec fn run_end(found: Seq<Element>, pos: int) -> int {
    if found.len() == 0 {
        pos
    } else {
        found.last().end as int
    }
}

/// `count` unsigned integers, one behind the other, from `pos` on.
pub open spec fn unsigned_run(buf: Seq<u8>, pos: int, limit: int, count: nat) -> Option<Seq<Element>>
    decreases count,
{
    if count == 0 {
        Some(Seq::empty())
    } else {
        match unsigned_run(buf, pos, limit, (count - 1) as nat) {
            Some(found) => match unsigned_at(buf, run_end(found, pos), limit) {
                Some(e) => Some(found.push(e)),
                None => None,
            },
            None => None,
        }
    }
}

proof fn lemma_long_length_stays_none(buf: Seq<u8>, pos: int, k: nat, count: nat)
    requires
        k <= count,
        long_length(buf, pos, k) is None,
    ensures
        long_length(buf, pos, count) is None,
    decreases count - k,
{
    if k < count {
        lemma_long_length_stays_none(buf, pos, k + 1, count);
    }
}

/// Reads the length at `pos`.
fn read_length(buf: &[u8], pos: usize, limit: usize) -> (r: Option<(usize, usize)>)
    requires
        limit <= buf.len(),
    ensures
        match r {
            Some((length, next)) => length_at(buf@, pos as int, limit as int) == Some(
                (length as nat, next as int),
            ) && pos < next <= limit,
            None => length_at(buf@, pos as int, limit as int) is None,
        },
{
    if pos >= limit {
        return None;
    }
    let first: u8 = buf[pos];
    if first < 128 {
        return Some((first as usize, pos + 1));
    }
    if first == 128 || first == 255 {
        return None;
    }
    let count: usize = (first - 128) as usize;
    if count > limit - pos - 1 {
        return None;
    }
    let mut length: usize = 0;
    let mut k: usize = 0;
    while k < count
        invariant
            k <= count,
            pos + 1 + count <= limit <= buf.len(),
            128 < buf@[pos as int] < 255,
            count == buf@[pos as int] - 128,
            long_length(buf@, pos + 1, k as nat) == Some(length as nat),
        decreases count - k,
    {
        if length > usize::MAX / 256 {
            proof {
                assert(long_length(buf@, pos + 1, (k + 1) as nat) is None);
                lemma_long_length_stays_none(buf@, pos + 1, (k + 1) as nat, count as nat);
            }
            return None;
        }
        length = length * 256 + buf[pos + 1 + k] as usize;
        k = k + 1;
    }
    if length < 128 {
        return None;
    }
    Some((length, pos + 1 + count))
}

/// Reads the element with tag number `tag` at `pos`.
fn read_element(buf: &[u8], pos: usize, limit: usize, tag: u8) -> (r: Option<Element>)
    requires
        limit <= buf.len(),
        tag < 31,
    ensures
        r == element_at(buf@, pos as int, limit as int, tag),
        r matches Some(e) ==> pos < e.start <= e.end <= limit,
{
    if pos >= limit {
        return None;
    }
    let first: u8 = buf[pos];
    if first != tag && first != tag + 0x20 {
        return None;
    }
    match read_length(buf, pos + 1, limit) {
        Some((length, start)) => {
            if length > limit - start {
                None
            } else {
                Some(Element { constructed: first != tag, start, end: start + length })
            }
        },
        None => None,
    }
}

/// Reads the sequence at `pos`.
fn read_sequence(buf: &[u8], pos: usize, limit: usize) -> (r: Option<Element>)
    requires
        limit <= buf.len(),
    ensures
        r == sequence_at(buf@, pos as int, limit as int),
        r matches Some(e) ==> pos < e.start <= e.end <= limit,
{
    match read_element(buf, pos, limit, TAG_SEQUENCE) {
        Some(e) => {
            if e.constructed {
                Some(e)
            } else {
                None
            }
        },
        None => None,
    }
}

/// Reads the primitive element with tag number `tag` at `pos`.
fn read_primitive(buf: &[u8], pos: usize, limit: usize, tag: u8) -> (r: Option<Element>)
    requires
        limit <= buf.len(),
        tag < 31,
    ensures
        r == primitive_at(buf@, pos as int, limit as int, tag),
        r matches Some(e) ==> pos < e.start <= e.end <= limit,
{
    match read_element(buf, pos, limit, tag) {
        Some(e) => {
            if e.constructed {
                None
            } else {
                Some(e)
            }
        },
        None => None,
    }
}

/// Reads the integer at `pos` and tells whether it fits in 64 bits.
fn read_small_integer(buf: &[u8], pos: usize, limit: usize) -> (r: Option<Element>)
    requires
        limit <= buf.len(),
    ensures
        r == small_integer_at(buf@, pos as int, limit as int),
        r matches Some(e) ==> pos < e.start <= e.end <= limit,
{
    match read_primitive(buf, pos, limit, TAG_INTEGER) {
        Some(e) => {
            let len: usize = e.end - e.start;
            let ghost content = contents(buf@, e);
            if len == 1 {
                return Some(e);
            }
            if len < 2 || len > 8 {
                return None;
            }
            let b0: u8 = buf[e.start];
            let b1: u8 = buf[e.start + 1];
            assert(content[0] == b0 && content[1] == b1);
            if (b0 == 0 && b1 < 128) || (b0 == 255 && b1 >= 128) {
                None
            } else {
                Some(e)
            }
        },
        None => None,
    }
}

/// Reads the integer at `pos` and tells whether it is not negative.
fn read_unsigned(buf: &[u8], pos: usize, limit: usize) -> (r: Option<Element>)
    requires
        limit <= buf.len(),
    ensures
        r == unsigned_at(buf@, pos as int, limit as int),
        r matches Some(e) ==> pos < e.start < e.end <= limit,
{
    match read_primitive(buf, pos, limit, TAG_INTEGER) {
        Some(e) => {
            let len: usize = e.end - e.start;
            let ghost content = contents(buf@, e);
            if len == 0 {
                return None;
            }
            let b0: u8 = buf[e.start];
            assert(content[0] == b0);
            if b0 >= 128 {
                return None;
            }
            if len == 1 {
                return Some(e);
            }
            let b1: u8 = buf[e.start + 1];
            assert(content[1] == b1);
            if b0 == 0 && b1 < 128 {
                None
            } else {
                Some(e)
            }
        },
        None => None,
    }
}

/// Reads the object identifier at `pos`.
fn read_oid(buf: &[u8], pos: usize, limit: usize) -> (r: Option<Element>)
    requires
        limit <= buf.len(),
    ensures
        r == oid_at(buf@, pos as int, limit as int),
        r matches Some(e) ==> pos < e.start <= e.end <= limit,
{
    match read_primitive(buf, pos, limit, TAG_OID) {
        Some(e) => {
            let ghost content = contents(buf@, e);
            if e.end == e.start {
                return None;
            }
            assert(content.last() == buf@[e.end - 1]);
            if buf[e.end - 1] >= 128 {
                return None;
            }
            let mut arc: u64 = 0;
            let mut i: usize = e.start;
            while i < e.end
                invariant
                    e.start <= i <= e.end <= buf.len(),
                    e.start < e.end,
                    content == contents(buf@, e),
                    content.last() < 128,
                    primitive_at(buf@, pos as int, limit as int, TAG_OID) == Some(e),
                    oid_arcs_ok(content, 0, 0) == oid_arcs_ok(content, i - e.start, arc as nat),
                decreases e.end - i,
            {
                let b: u8 = buf[i];
                assert(content[i - e.start] == b);
                if b == 128 {
                    return None;
                }
                if arc > u64::MAX / 128 {
                    return None;
                }
                if b < 128 {
                    arc = 0;
                } else {
                    arc = arc * 128 + (b - 128) as u64;
                }
                i = i + 1;
            }
            Some(e)
        },
        None => None,
    }
}

/// The big-endian bytes of the value of an unsigned integer.
fn copy_magnitude(buf: &[u8], e: Element) -> (r: Vec<u8>)
    requires
        e.start < e.end <= buf.len(),
    ensures
        r@ == magnitude(contents(buf@, e)),
{
    let ghost content = contents(buf@, e);
    let from: usize = if e.end - e.start >= 2 && buf[e.start] == 0 {
        e.start + 1
    } else {
        e.start
    };
    assert(content[0] == buf@[e.start as int]);
    let mut out: Vec<u8> = Vec::new();
    let mut i: usize = from;
    while i < e.end
        invariant
            from <= i <= e.end <= buf.len(),
            out@ == buf@.subrange(from as int, i as int),
        decreases e.end - i,
    {
        out.push(buf[i]);
        assert(out@ =~= buf@.subrange(from as int, i + 1));
        i = i + 1;
    }
    assert(out@ =~= magnitude(content));
    out
}

/// The numbers of an RSA private key, each as big-endian bytes without a
/// leading zero byte.
pub struct KeyModel {
    pub modulus: Seq<u8>,
    pub public_exponent: Seq<u8>,
    pub private_exponent: Seq<u8>,
    pub prime1: Seq<u8>,
    pub prime2: Seq<u8>,
}

/// The numbers of an RSA private key, each as big-endian bytes without a
/// leading zero byte.
#[derive(Debug, Clone)]
pub struct KeyNumbers {
    pub modulus: Vec<u8>,
    pub public_exponent: Vec<u8>,
    pub private_exponent: Vec<u8>,
    pub prime1: Vec<u8>,
    pub prime2: Vec<u8>,
}

impl View for KeyNumbers {
    type V = KeyModel;

    open spec fn view(&self) -> KeyModel {
        KeyModel {
            modulus: self.modulus@,
            public_exponent: self.public_exponent@,
            private_exponent: self.private_exponent@,
            prime1: self.prime1@,
            prime2: self.prime2@,
        }
    }
}

/// The key that the `RSAPrivateKey` in `buf[from..to]` holds: a sequence
/// that fills the range and holds a version and eight unsigned integers.
pub open spec fn rsa_private_key(buf: Seq<u8>, from: int, to: int) -> Option<KeyModel> {
    match sequence_at(buf, from, to) {
        Some(seq) => if seq.end != to {
            None
        } else {
            match small_integer_at(buf, seq.start as int, seq.end as int) {
                Some(version) => match unsigned_run(buf, version.end as int, seq.end as int, 8) {
                    Some(numbers) => if numbers[7].end != seq.end {
                        None
                    } else {
                        Some(
                            KeyModel {
                                modulus: magnitude(contents(buf, numbers[0])),
                                public_exponent: magnitude(contents(buf, numbers[1])),
                                private_exponent: magnitude(contents(buf, numbers[2])),
                                prime1: magnitude(contents(buf, numbers[3])),
                                prime2: magnitude(contents(buf, numbers[4])),
                            },
                        )
                    },
                    None => None,
                },
                None => None,
            }
        },
        None => None,
    }
}

/// The range of the octet string of the `PrivateKeyInfo` that fills `buf`:
/// a sequence of a version, of a sequence that holds one object identifier
/// and nothing else, and of the octet string.
pub open spec fn private_key_octets(buf: Seq<u8>) -> Option<Element> {
    match sequence_at(buf, 0, buf.len() as int) {
        Some(top) => if top.end != buf.len() {
            None
        } else {
            match small_integer_at(buf, top.start as int, top.end as int) {
                Some(version) => match sequence_at(buf, version.end as int, top.end as int) {
                    Some(algorithm) => match oid_at(buf, algorithm.start as int, algorithm.end as int) {
                        Some(oid) => if oid.end != algorithm.end {
                            None
                        } else {
                            match primitive_at(buf, algorithm.end as int, top.end as int, TAG_OCTET_STRING) {
                                Some(octets) => if octets.end != top.end {
                                    None
                                } else {
                                    Some(octets)
                                },
                                None => None,
                            }
                        },
                        None => None,
                    },
                    None => None,
                },
                None => None,
            }
        },
        None => None,
    }
}

/// The key that the DER bytes `buf` hold.
pub open spec fn key_of_der(buf: Seq<u8>) -> Option<KeyModel> {
    match private_key_octets(buf) {
        Some(octets) => rsa_private_key(buf, octets.start as int, octets.end as int),
        None => None,
    }
}

/// The outcome of reading a key, over sequences.
pub open spec fn key_option(r: Option<KeyNumbers>) -> Option<KeyModel> {
    match r {
        Some(key) => Some(key@),
        None => None,
    }
}

/// Reads eight unsigned integers from `pos` on.
fn read_unsigned_run(buf: &[u8], pos: usize, limit: usize) -> (r: Option<Vec<Element>>)
    requires
        limit <= buf.len(),
    ensures
        match r {
            Some(found) => unsigned_run(buf@, pos as int, limit as int, 8) == Some(found@)
                && found@.len() == 8 && forall|i: int|
                0 <= i < 8 ==> (#[trigger] found@[i]).start < found@[i].end <= limit,
            None => unsigned_run(buf@, pos as int, limit as int, 8) is None,
        },
{
    let mut found: Vec<Element> = Vec::new();
    let mut at: usize = pos;
    let mut k: usize = 0;
    while k < 8
        invariant
            k <= 8,
            limit <= buf.len(),
            found@.len() == k,
            unsigned_run(buf@, pos as int, limit as int, k as nat) == Some(found@),
            at == run_end(found@, pos as int),
            forall|i: int| 0 <= i < k ==> (#[trigger] found@[i]).start < found@[i].end <= limit,
        decreases 8 - k,
    {
        match read_unsigned(buf, at, limit) {
            Some(e) => {
                found.push(e);
                at = e.end;
            },
            None => {
                proof {
                    assert(unsigned_run(buf@, pos as int, limit as int, (k + 1) as nat) is None);
                    lemma_unsigned_run_stays_none(buf@, pos as int, limit as int, (k + 1) as nat, 8);
                }
                return None;
            },
        }
        k = k + 1;
    }
    Some(found)
}

proof fn lemma_unsigned_run_stays_none(buf: Seq<u8>, pos: int, limit: int, k: nat, count: nat)
    requires
        k <= count,
        unsigned_run(buf, pos, limit, k) is None,
    ensures
        unsigned_run(buf, pos, limit, count) is None,
    decreases count - k,
{
    if k < count {
        lemma_unsigned_run_stays_none(buf, pos, limit, k + 1, count);
    }
}

/// Reads the `RSAPrivateKey` that fills `buf[from..to]`.
fn read_rsa_private_key(buf: &[u8], from: usize, to: usize) -> (r: Option<KeyNumbers>)
    requires
        to <= buf.len(),
    ensures
        key_option(r) == rsa_private_key(buf@, from as int, to as int),
{
    let seq: Element = match read_sequence(buf, from, to) {
        Some(e) => e,
        None => {
            return None;
        },
    };
    if seq.end != to {
        return None;
    }
    let version: Element = match read_small_integer(buf, seq.start, seq.end) {
        Some(e) => e,
        None => {
            return None;
        },
    };
    let numbers: Vec<Element> = match read_unsigned_run(buf, version.end, seq.end) {
        Some(found) => found,
        None => {
            return None;
        },
    };
    if numbers[7].end != seq.end {
        return None;
    }
    Some(
        KeyNumbers {
            modulus: copy_magnitude(buf, numbers[0]),
            public_exponent: copy_magnitude(buf, numbers[1]),
            private_exponent: copy_magnitude(buf, numbers[2]),
            prime1: copy_magnitude(buf, numbers[3]),
            prime2: copy_magnitude(buf, numbers[4]),
        },
    )
}

/// Finds the octet string of the `PrivateKeyInfo` that fills `buf`.
fn read_private_key_octets(buf: &[u8]) -> (r: Option<Element>)
    ensures
        r == private_key_octets(buf@),
        r matches Some(e) ==> e.start <= e.end <= buf.len(),
{
    let top: Element = match read_sequence(buf, 0, buf.len()) {
        Some(e) => e,
        None => {
            return None;
        },
    };
    if top.end != buf.len() {
        return None;
    }
    let version: Element = match read_small_integer(buf, top.start, top.end) {
        Some(e) => e,
        None => {
            return None;
        },
    };
    let algorithm: Element = match read_sequence(buf, version.end, top.end) {
        Some(e) => e,
        None => {
            return None;
        },
    };
    let oid: Element = match read_oid(buf, algorithm.start, algorithm.end) {
        Some(e) => e,
        None => {
            return None;
        },
    };
    if oid.end != algorithm.end {
        return None;
    }
    let octets: Element = match read_primitive(buf, algorithm.end, top.end, TAG_OCTET_STRING) {
        Some(e) => e,
        None => {
            return None;
        },
    };
    if octets.end != top.end {
        return None;
    }
    Some(octets)
}

/// Reads the numbers of the RSA private key that the DER bytes hold.
pub fn parse_private_key(der: &[u8]) -> (r: Option<KeyNumbers>)
    ensures
        key_option(r) == key_of_der(der@),
{
    match read_private_key_octets(der) {
        Some(octets) => read_rsa_private_key(der, octets.start, octets.end),
        None => None,
    }
}

} // verus!
