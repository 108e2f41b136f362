//! The system-call mask: up to six words, one for each run of 24 system
//! calls of which at least one is enabled.

use crate::bits::{fits32, set_bit32, set_bits32, with_bit32, with_bits32};
use vstd::prelude::*;

verus! {

/// The word for the system calls `24 * word .. 24 * word + 24`. It starts
/// as the tag `0b1111` with `word` in its bits 29 to 31; each call `n` among
/// `numbers` that it covers sets its bit `n % 24 + 5`.
pub open spec fn syscall_mask(numbers: Seq<nat>, word: nat) -> u32
    decreases numbers.len(),
{
    if numbers.len() == 0 {
        0b1111u32 | ((word as u32) << 29)
    } else {
        let before = syscall_mask(numbers.drop_last(), word);
        let n = numbers.last();
        if n / 24 == word {
            before | (1u32 << ((n % 24 + 5) as u32))
        } else {
            before
        }
    }
}

/// Whether one of `numbers` falls into the given word.
pub open spec fn word_used(numbers: Seq<nat>, word: nat) -> bool {
    exists|i: int| 0 <= i < numbers.len() && (#[trigger] numbers[i]) / 24 == word
}

/// The masks of the used words among the first `count`, in rising order.
pub open spec fn syscall_words_below(numbers: Seq<nat>, count: nat) -> Seq<u32>
    decreases count,
{
    if count == 0 {
        Seq::empty()
    } else {
        let before = syscall_words_below(numbers, (count - 1) as nat);
        if word_used(numbers, (count - 1) as nat) {
            before.push(syscall_mask(numbers, (count - 1) as nat))
        } else {
            before
        }
    }
}

/// The words that enable the system calls `numbers`: the masks of the used
/// words, in rising order. A word that no call falls into is left out,
/// wherever it lies.
pub open spec fn syscall_words(numbers: Seq<nat>) -> Seq<u32> {
    syscall_words_below(numbers, 6)
}

/// Identifiers as natural numbers.
pub open spec fn numbers_of(ids: Seq<u32>) -> Seq<nat> {
    Seq::new(ids.len(), |i: int| ids[i] as nat)
}

proof fn lemma_word_used_step(numbers: Seq<nat>, k: int, word: nat)
    requires
        0 <= k < numbers.len(),
    ensures
        word_used(numbers.take(k + 1), word) <==> (word_used(numbers.take(k), word) || numbers[k]
            / 24 == word),
{
    let shorter = numbers.take(k);
    let longer = numbers.take(k + 1);
    if word_used(shorter, word) {
        let i = choose|i: int| 0 <= i < shorter.len() && (#[trigger] shorter[i]) / 24 == word;
        assert(longer[i] == shorter[i]);
    }
    if numbers[k] / 24 == word {
        assert(longer[k] == numbers[k]);
    }
    if word_used(longer, word) {
        let i = choose|i: int| 0 <= i < longer.len() && (#[trigger] longer[i]) / 24 == word;
        if i < k {
            assert(shorter[i] == longer[i]);
        }
    }
}

/// Encodes the enabled system calls as mask words.
pub fn encode_syscalls(syscalls: &[u32]) -> (r: Vec<u32>)
    requires
        forall|i: int| 0 <= i < syscalls@.len() ==> syscalls@[i] < 144,
    ensures
        r@ == syscall_words(numbers_of(syscalls@)),
{
    let ghost numbers = numbers_of(syscalls@);
    let mut masks: Vec<u32> = Vec::new();
    let mut used: Vec<bool> = Vec::new();
    let mut idx: u32 = 0;
    while idx < 6
        invariant
            idx <= 6,
            masks@.len() == idx,
            used@.len() == idx,
            forall|w: int| 0 <= w < idx ==> masks@[w] == syscall_mask(Seq::<nat>::empty(), w as nat),
            forall|w: int| 0 <= w < idx ==> !used@[w],
        decreases 6 - idx,
    {
        assert(fits32(idx, 3) && with_bits32(0b1111u32, 29, 32, idx) == 0b1111u32 | (idx << 29))
            by (bit_vector)
            requires
                idx < 6,
        ;
        masks.push(set_bits32(0b1111u32, 29, 32, idx));
        used.push(false);
        idx = idx + 1;
    }
    let mut k: usize = 0;
    assert(numbers.take(0) =~= Seq::<nat>::empty());
    while k < syscalls.len()
        invariant
            k <= syscalls.len(),
            numbers == numbers_of(syscalls@),
            forall|i: int| 0 <= i < syscalls@.len() ==> syscalls@[i] < 144,
            masks@.len() == 6,
            used@.len() == 6,
            forall|w: int| 0 <= w < 6 ==> masks@[w] == syscall_mask(numbers.take(k as int), w as nat),
            forall|w: int| 0 <= w < 6 ==> used@[w] == word_used(numbers.take(k as int), w as nat),
        decreases syscalls.len() - k,
    {
        let syscall_val: u32 = syscalls[k];
        let word: usize = (syscall_val / 24) as usize;
        let bit: u32 = syscall_val % 24 + 5;
        let old_mask: u32 = masks[word];
        let new_mask: u32 = set_bit32(old_mask, bit, true);
        masks.set(word, new_mask);
        used.set(word, true);
        proof {
            let longer = numbers.take(k + 1);
            assert(longer.drop_last() =~= numbers.take(k as int));
            assert(longer.last() == syscall_val as nat);
            assert forall|w: int| 0 <= w < 6 implies masks@[w] == syscall_mask(longer, w as nat)
                && used@[w] == word_used(longer, w as nat) by {
                lemma_word_used_step(numbers, k as int, w as nat);
            }
        }
        k = k + 1;
    }
    assert(numbers.take(syscalls@.len() as int) =~= numbers);
    let mut out: Vec<u32> = Vec::new();
    let mut w: usize = 0;
    while w < 6
        invariant
            w <= 6,
            masks@.len() == 6,
            used@.len() == 6,
            forall|v: int| 0 <= v < 6 ==> masks@[v] == syscall_mask(numbers, v as nat),
            forall|v: int| 0 <= v < 6 ==> used@[v] == word_used(numbers, v as nat),
            out@ == syscall_words_below(numbers, w as nat),
        decreases 6 - w,
    {
        if used[w] {
            out.push(masks[w]);
        }
        w = w + 1;
    }
    out
}

/// Whether a mask word has the bit set that stands for the `k`-th of the
/// 24 system calls that it covers: bit `5 + k`.
pub open spec fn call_enabled(mask: u32, k: nat) -> bool {
    (mask >> ((k + 5) as u32)) & 1 == 1
}

/// No enabled system call gives no word.
pub proof fn lemma_no_calls_no_words()
    ensures
        syscall_words(Seq::<nat>::empty()) == Seq::<u32>::empty(),
{
    let none = Seq::<nat>::empty();
    assert forall|word: nat| !word_used(none, word) by {}
    reveal_with_fuel(syscall_words_below, 7);
}

proof fn lemma_mask_step(before: u32, bit: u32, word: u32, probe: u32)
    requires
        5 <= bit < 29,
        5 <= probe < 29,
        word < 6,
        before & 0x1f == 0xf,
        before >> 29 == word,
    ensures
        (before | (1u32 << bit)) & 0x1f == 0xf,
        (before | (1u32 << bit)) >> 29 == word,
        ((before | (1u32 << bit)) >> probe) & 1 == 1 <==> (probe == bit || (before >> probe) & 1 == 1),
{
    assert((before | (1u32 << bit)) & 0x1f == 0xf && (before | (1u32 << bit)) >> 29 == word && (((
        before | (1u32 << bit)) >> probe) & 1 == 1 <==> (probe == bit || (before >> probe) & 1 == 1)))
        by (bit_vector)
        requires
            5 <= bit < 29,
            5 <= probe < 29,
            before & 0x1f == 0xf,
            before >> 29 == word,
    ;
}

/// What the bits of a mask word say. The low five bits are the tag: four
/// set bits and a clear one. The top three bits are the number of the word.
/// Bit `5 + k` is set exactly if the system call `24 * word + k` is among
/// those enabled.
pub proof fn lemma_syscall_mask_bits(numbers: Seq<nat>, word: nat, k: nat)
    requires
        word < 6,
        k < 24,
    ensures
        syscall_mask(numbers, word) & 0x1f == 0xf,
        syscall_mask(numbers, word) >> 29 == word,
        call_enabled(syscall_mask(numbers, word), k) <==> numbers.contains(24 * word + k),
    decreases numbers.len(),
{
    let w: u32 = word as u32;
    let probe: u32 = (k + 5) as u32;
    if numbers.len() == 0 {
        assert((0b1111u32 | (w << 29)) & 0x1f == 0xf && (0b1111u32 | (w << 29)) >> 29 == w && ((
            0b1111u32 | (w << 29)) >> probe) & 1 == 0) by (bit_vector)
            requires
                w < 6,
                5 <= probe < 29,
        ;
    } else {
        let shorter = numbers.drop_last();
        let n = numbers.last();
        lemma_syscall_mask_bits(shorter, word, k);
        assert(numbers.contains(24 * word + k) <==> (shorter.contains(24 * word + k) || n == 24 * word
            + k)) by {
            if shorter.contains(24 * word + k) {
                let i = choose|i: int| 0 <= i < shorter.len() && shorter[i] == 24 * word + k;
                assert(numbers[i] == 24 * word + k);
            }
            if n == 24 * word + k {
                assert(numbers[numbers.len() - 1] == n);
            }
            if numbers.contains(24 * word + k) {
                let i = choose|i: int| 0 <= i < numbers.len() && numbers[i] == 24 * word + k;
                if i < shorter.len() {
                    assert(shorter[i] == numbers[i]);
                }
            }
        }
        if n / 24 == word {
            let bit: u32 = (n % 24 + 5) as u32;
            lemma_mask_step(syscall_mask(shorter, word), bit, w, probe);
            assert(probe == bit <==> n == 24 * word + k);
        }
    }
}

/// What the list of mask words holds. Each word is the mask of a used
/// word number below `count`, the numbers rise from one word to the next,
/// and every used number below `count` has its word.
pub proof fn lemma_syscall_words_below(numbers: Seq<nat>, count: nat)
    requires
        count <= 6,
    ensures
        syscall_words_below(numbers, count).len() <= count,
        forall|i: int|
            0 <= i < syscall_words_below(numbers, count).len() ==> {
                let w = #[trigger] syscall_words_below(numbers, count)[i];
                &&& (w >> 29) < count
                &&& word_used(numbers, (w >> 29) as nat)
                &&& w == syscall_mask(numbers, (w >> 29) as nat)
            },
        forall|i: int, j: int|
            0 <= i < j < syscall_words_below(numbers, count).len() ==> (#[trigger] syscall_words_below(
                numbers,
                count,
            )[i]) >> 29 < (#[trigger] syscall_words_below(numbers, count)[j]) >> 29,
        forall|word: nat|
            word < count && word_used(numbers, word) ==> syscall_words_below(numbers, count).contains(
                #[trigger] syscall_mask(numbers, word),
            ),
    decreases count,
{
    if count > 0 {
        let below = (count - 1) as nat;
        let before = syscall_words_below(numbers, below);
        let now = syscall_words_below(numbers, count);
        lemma_syscall_words_below(numbers, below);
        lemma_syscall_mask_bits(numbers, below, 0);
        assert forall|word: nat| word < count && word_used(numbers, word) implies now.contains(
            #[trigger] syscall_mask(numbers, word),
        ) by {
            if word < below {
                let i = choose|i: int| 0 <= i < before.len() && before[i] == syscall_mask(numbers, word);
                assert(now[i] == before[i]);
            } else {
                assert(now[now.len() - 1] == syscall_mask(numbers, word));
            }
        }
        assert forall|i: int| 0 <= i < now.len() implies {
            let w = #[trigger] now[i];
            &&& (w >> 29) < count
            &&& word_used(numbers, (w >> 29) as nat)
            &&& w == syscall_mask(numbers, (w >> 29) as nat)
        } by {
            if i < before.len() {
                assert(now[i] == before[i]);
            }
        }
        assert forall|i: int, j: int| 0 <= i < j < now.len() implies (#[trigger] now[i]) >> 29 < (
        #[trigger] now[j]) >> 29 by {
            assert(now[i] == before[i]);
            if j < before.len() {
                assert(now[j] == before[j]);
            }
        }
    }
}

/// The words that enable system calls are at most six, one for each used
/// word number and in rising order of that number, which stands in the top
/// three bits.
pub proof fn lemma_syscall_words(numbers: Seq<nat>)
    ensures
        syscall_words(numbers).len() <= 6,
        forall|i: int|
            0 <= i < syscall_words(numbers).len() ==> {
                let w = #[trigger] syscall_words(numbers)[i];
                &&& (w >> 29) < 6
                &&& word_used(numbers, (w >> 29) as nat)
                &&& w == syscall_mask(numbers, (w >> 29) as nat)
            },
        forall|i: int, j: int|
            0 <= i < j < syscall_words(numbers).len() ==> (#[trigger] syscall_words(numbers)[i]) >> 29 < (
            #[trigger] syscall_words(numbers)[j]) >> 29,
        forall|word: nat|
            word < 6 && word_used(numbers, word) ==> syscall_words(numbers).contains(
                #[trigger] syscall_mask(numbers, word),
            ),
{
    lemma_syscall_words_below(numbers, 6);
}

proof fn lemma_same_bits_same_word(a: u32, b: u32)
    requires
        a & 0x1f == b & 0x1f,
        a >> 29 == b >> 29,
        forall|k: nat| k < 24 ==> (#[trigger] call_enabled(a, k) <==> call_enabled(b, k)),
    ensures
        a == b,
{
    assert(call_enabled(a, 0) <==> call_enabled(b, 0));
    assert(call_enabled(a, 1) <==> call_enabled(b, 1));
    assert(call_enabled(a, 2) <==> call_enabled(b, 2));
    assert(call_enabled(a, 3) <==> call_enabled(b, 3));
    assert(call_enabled(a, 4) <==> call_enabled(b, 4));
    assert(call_enabled(a, 5) <==> call_enabled(b, 5));
    assert(call_enabled(a, 6) <==> call_enabled(b, 6));
    assert(call_enabled(a, 7) <==> call_enabled(b, 7));
    assert(call_enabled(a, 8) <==> call_enabled(b, 8));
    assert(call_enabled(a, 9) <==> call_enabled(b, 9));
    assert(call_enabled(a, 10) <==> call_enabled(b, 10));
    assert(call_enabled(a, 11) <==> call_enabled(b, 11));
    assert(call_enabled(a, 12) <==> call_enabled(b, 12));
    assert(call_enabled(a, 13) <==> call_enabled(b, 13));
    assert(call_enabled(a, 14) <==> call_enabled(b, 14));
    assert(call_enabled(a, 15) <==> call_enabled(b, 15));
    assert(call_enabled(a, 16) <==> call_enabled(b, 16));
    assert(call_enabled(a, 17) <==> call_enabled(b, 17));
    assert(call_enabled(a, 18) <==> call_enabled(b, 18));
    assert(call_enabled(a, 19) <==> call_enabled(b, 19));
    assert(call_enabled(a, 20) <==> call_enabled(b, 20));
    assert(call_enabled(a, 21) <==> call_enabled(b, 21));
    assert(call_enabled(a, 22) <==> call_enabled(b, 22));
    assert(call_enabled(a, 23) <==> call_enabled(b, 23));
    assert(a == b) by (bit_vector)
        requires
            a & 0x1f == b & 0x1f,
            a >> 29 == b >> 29,
            (a >> 5) & 1 == 1 <==> (b >> 5) & 1 == 1,
            (a >> 6) & 1 == 1 <==> (b >> 6) & 1 == 1,
            (a >> 7) & 1 == 1 <==> (b >> 7) & 1 == 1,
            (a >> 8) & 1 == 1 <==> (b >> 8) & 1 == 1,
            (a >> 9) & 1 == 1 <==> (b >> 9) & 1 == 1,
            (a >> 10) & 1 == 1 <==> (b >> 10) & 1 == 1,
            (a >> 11) & 1 == 1 <==> (b >> 11) & 1 == 1,
            (a >> 12) & 1 == 1 <==> (b >> 12) & 1 == 1,
            (a >> 13) & 1 == 1 <==> (b >> 13) & 1 == 1,
            (a >> 14) & 1 == 1 <==> (b >> 14) & 1 == 1,
            (a >> 15) & 1 == 1 <==> (b >> 15) & 1 == 1,
            (a >> 16) & 1 == 1 <==> (b >> 16) & 1 == 1,
            (a >> 17) & 1 == 1 <==> (b >> 17) & 1 == 1,
            (a >> 18) & 1 == 1 <==> (b >> 18) & 1 == 1,
            (a >> 19) & 1 == 1 <==> (b >> 19) & 1 == 1,
            (a >> 20) & 1 == 1 <==> (b >> 20) & 1 == 1,
            (a >> 21) & 1 == 1 <==> (b >> 21) & 1 == 1,
            (a >> 22) & 1 == 1 <==> (b >> 22) & 1 == 1,
            (a >> 23) & 1 == 1 <==> (b >> 23) & 1 == 1,
            (a >> 24) & 1 == 1 <==> (b >> 24) & 1 == 1,
            (a >> 25) & 1 == 1 <==> (b >> 25) & 1 == 1,
            (a >> 26) & 1 == 1 <==> (b >> 26) & 1 == 1,
            (a >> 27) & 1 == 1 <==> (b >> 27) & 1 == 1,
            (a >> 28) & 1 == 1 <==> (b >> 28) & 1 == 1,
    ;
}

/// The words depend on which system calls are enabled, and on nothing
/// else: neither the order in which the calls are given nor a call that is
/// given twice changes them.
pub proof fn lemma_syscall_words_of_same_calls(a: Seq<nat>, b: Seq<nat>)
    requires
        forall|n: nat| a.contains(n) <==> b.contains(n),
    ensures
        syscall_words(a) == syscall_words(b),
{
    assert forall|word: nat| word < 6 implies syscall_mask(a, word) == syscall_mask(b, word)
        && word_used(a, word) == word_used(b, word) by {
        assert forall|k: nat| k < 24 implies (#[trigger] call_enabled(syscall_mask(a, word), k)
            <==> call_enabled(syscall_mask(b, word), k)) by {
            lemma_syscall_mask_bits(a, word, k);
            lemma_syscall_mask_bits(b, word, k);
        }
        lemma_syscall_mask_bits(a, word, 0);
        lemma_syscall_mask_bits(b, word, 0);
        lemma_same_bits_same_word(syscall_mask(a, word), syscall_mask(b, word));
        if word_used(a, word) {
            let i = choose|i: int| 0 <= i < a.len() && (#[trigger] a[i]) / 24 == word;
            assert(a.contains(a[i]));
            let j = choose|j: int| 0 <= j < b.len() && b[j] == a[i];
            assert(b[j] / 24 == word);
        }
        if word_used(b, word) {
            let i = choose|i: int| 0 <= i < b.len() && (#[trigger] b[i]) / 24 == word;
            assert(b.contains(b[i]));
            let j = choose|j: int| 0 <= j < a.len() && a[j] == b[i];
            assert(a[j] / 24 == word);
        }
    }
    reveal_with_fuel(syscall_words_below, 7);
}

} // verus!
