//! Little-endian bytes of integers, and appending to a byte vector.

use vstd::prelude::*;

verus! {

/// The four bytes of `v`, least significant first.
pub open spec fn le_bytes_u32(v: u32) -> Seq<u8> {
    seq![
        (v & 0xff) as u8,
        ((v >> 8) & 0xff) as u8,
        ((v >> 16) & 0xff) as u8,
        ((v >> 24) & 0xff) as u8,
    ]
}

/// The eight bytes of `v`, least significant first.
pub open spec fn le_bytes_u64(v: u64) -> Seq<u8> {
    le_bytes_u32((v & 0xffff_ffff) as u32) + le_bytes_u32((v >> 32) as u32)
}

/// The number whose little-endian bytes are the four bytes of `bytes` from
/// index `at` on.
pub open spec fn le_u32_at(bytes: Seq<u8>, at: int) -> u32 {
    (bytes[at] as u32) | ((bytes[at + 1] as u32) << 8) | ((bytes[at + 2] as u32) << 16) | ((bytes[at
        + 3] as u32) << 24)
}

/// Reading back the bytes of a number gives the number.
pub proof fn lemma_le_u32_round_trip(v: u32)
    ensures
        le_bytes_u32(v).len() == 4,
        le_u32_at(le_bytes_u32(v), 0) == v,
{
    let b0: u8 = (v & 0xff) as u8;
    let b1: u8 = ((v >> 8) & 0xff) as u8;
    let b2: u8 = ((v >> 16) & 0xff) as u8;
    let b3: u8 = ((v >> 24) & 0xff) as u8;
    assert((b0 as u32) | ((b1 as u32) << 8) | ((b2 as u32) << 16) | ((b3 as u32) << 24) == v)
        by (bit_vector)
        requires
            b0 == (v & 0xff) as u8,
            b1 == ((v >> 8) & 0xff) as u8,
            b2 == ((v >> 16) & 0xff) as u8,
            b3 == ((v >> 24) & 0xff) as u8,
    ;
}

/// A number that stands at index `at` of `bytes` is read back from there.
pub proof fn lemma_le_u32_found(bytes: Seq<u8>, at: int, v: u32)
    requires
        0 <= at,
        at + 4 <= bytes.len(),
        bytes.subrange(at, at + 4) == le_bytes_u32(v),
    ensures
        le_u32_at(bytes, at) == v,
{
    lemma_le_u32_round_trip(v);
    let part = bytes.subrange(at, at + 4);
    assert(part[0] == bytes[at]);
    assert(part[1] == bytes[at + 1]);
    assert(part[2] == bytes[at + 2]);
    assert(part[3] == bytes[at + 3]);
}

/// `count` zero bytes.
pub open spec fn zeros(count: nat) -> Seq<u8> {
    Seq::new(count, |i: int| 0u8)
}

/// The bytes of a sequence of words, each little-endian, in order.
pub open spec fn le_bytes_words(words: Seq<u32>) -> Seq<u8>
    decreases words.len(),
{
    if words.len() == 0 {
        Seq::empty()
    } else {
        le_bytes_words(words.drop_last()) + le_bytes_u32(words.last())
    }
}

/// Each word takes four bytes.
pub proof fn lemma_le_bytes_words_len(words: Seq<u32>)
    ensures
        le_bytes_words(words).len() == 4 * words.len(),
    decreases words.len(),
{
    if words.len() > 0 {
        lemma_le_bytes_words_len(words.drop_last());
    }
}

/// Appends the little-endian bytes of `v`.
pub fn push_u32(out: &mut Vec<u8>, v: u32)
    ensures
        final(out)@ == old(out)@ + le_bytes_u32(v),
{
    let b0: u32 = v & 0xff;
    let b1: u32 = (v >> 8) & 0xff;
    let b2: u32 = (v >> 16) & 0xff;
    let b3: u32 = (v >> 24) & 0xff;
    assert(b0 < 256 && b1 < 256 && b2 < 256 && b3 < 256) by (bit_vector)
        requires
            b0 == v & 0xff,
            b1 == (v >> 8) & 0xff,
            b2 == (v >> 16) & 0xff,
            b3 == (v >> 24) & 0xff,
    ;
    out.push(b0 as u8);
    out.push(b1 as u8);
    out.push(b2 as u8);
    out.push(b3 as u8);
    assert(out@ =~= old(out)@ + le_bytes_u32(v));
}

/// Appends the little-endian bytes of `v`.
pub fn push_u64(out: &mut Vec<u8>, v: u64)
    ensures
        final(out)@ == old(out)@ + le_bytes_u64(v),
{
    let low: u64 = v & 0xffff_ffff;
    let high: u64 = v >> 32;
    assert(low <= 0xffff_ffff && high <= 0xffff_ffff) by (bit_vector)
        requires
            low == v & 0xffff_ffff,
            high == v >> 32,
    ;
    push_u32(out, low as u32);
    push_u32(out, high as u32);
    assert(out@ =~= old(out)@ + le_bytes_u64(v));
}

/// Appends `bytes`.
pub fn push_bytes(out: &mut Vec<u8>, bytes: &[u8])
    ensures
        final(out)@ == old(out)@ + bytes@,
{
    let mut i: usize = 0;
    while i < bytes.len()
        invariant
            i <= bytes.len(),
            out@ == old(out)@ + bytes@.take(i as int),
        decreases bytes.len() - i,
    {
        out.push(bytes[i]);
        assert(out@ =~= old(out)@ + bytes@.take(i + 1));
        i = i + 1;
    }
    assert(bytes@.take(bytes@.len() as int) =~= bytes@);
}

/// Appends `count` zero bytes.
pub fn push_zeros(out: &mut Vec<u8>, count: usize)
    ensures
        final(out)@ == old(out)@ + zeros(count as nat),
{
    let mut i: usize = 0;
    while i < count
        invariant
            i <= count,
            out@ == old(out)@ + zeros(i as nat),
        decreases count - i,
    {
        out.push(0);
        assert(out@ =~= old(out)@ + zeros((i + 1) as nat));
        i = i + 1;
    }
}

/// Appends the little-endian bytes of each word.
pub fn push_words(out: &mut Vec<u8>, words: &[u32])
    ensures
        final(out)@ == old(out)@ + le_bytes_words(words@),
{
    let mut i: usize = 0;
    assert(out@ =~= old(out)@ + le_bytes_words(words@.take(0)));
    while i < words.len()
        invariant
            i <= words.len(),
            out@ == old(out)@ + le_bytes_words(words@.take(i as int)),
        decreases words.len() - i,
    {
        push_u32(out, words[i]);
        proof {
            let longer = words@.take(i + 1);
            assert(longer.drop_last() =~= words@.take(i as int));
            assert(out@ =~= old(out)@ + le_bytes_words(longer));
        }
        i = i + 1;
    }
    assert(words@.take(words@.len() as int) =~= words@);
}

/// A number is read from a part of a sequence as it is read from the part
/// alone.
pub proof fn lemma_le_u32_at_part(whole: Seq<u8>, offset: int, part: Seq<u8>, at: int)
    requires
        0 <= offset,
        offset + part.len() <= whole.len(),
        whole.subrange(offset, offset + part.len()) == part,
        0 <= at,
        at + 4 <= part.len(),
    ensures
        le_u32_at(whole, offset + at) == le_u32_at(part, at),
{
    let cut = whole.subrange(offset, offset + part.len());
    assert(cut[at] == whole[offset + at]);
    assert(cut[at + 1] == whole[offset + at + 1]);
    assert(cut[at + 2] == whole[offset + at + 2]);
    assert(cut[at + 3] == whole[offset + at + 3]);
}

} // verus!
