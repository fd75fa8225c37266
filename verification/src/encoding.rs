//! The mathematical model: how long an encoding is, what trimming does to a
//! drawn buffer, and how many bits a trimmed buffer stands for.

use vstd::prelude::*;

verus! {

/// The number of bytes that hold `capacity` bits, rounded up to whole bytes,
/// and one byte where there are no bits to hold.
pub open spec fn byte_len(capacity: nat) -> nat {
    if capacity == 0 {
        1
    } else {
        (capacity + 7) / 8
    }
}

/// `n` zero bytes.
pub open spec fn zeros(n: nat) -> Seq<u8> {
    Seq::new(n, |i: int| 0u8)
}

/// One more than the index of the last nonzero byte, or 0 if there is none.
pub open spec fn significant_len(bytes: Seq<u8>) -> nat
    decreases bytes.len(),
{
    if bytes.len() == 0 {
        0
    } else if bytes.last() != 0 {
        bytes.len()
    } else {
        significant_len(bytes.drop_last())
    }
}

/// `bytes` without its trailing zero bytes.
pub open spec fn trimmed(bytes: Seq<u8>) -> Seq<u8> {
    bytes.subrange(0, significant_len(bytes) as int)
}

/// An encoding is canonical when it is empty or ends in a nonzero byte.
pub open spec fn is_canonical(encoding: Seq<u8>) -> bool {
    encoding.len() == 0 || encoding.last() != 0
}

/// The position of the highest set bit of `byte`, counted from 0 at the low
/// end; 0 for a zero byte.
pub open spec fn top_bit(byte: u8) -> nat {
    if byte >= 128 {
        7
    } else if byte >= 64 {
        6
    } else if byte >= 32 {
        5
    } else if byte >= 16 {
        4
    } else if byte >= 8 {
        3
    } else if byte >= 4 {
        2
    } else if byte >= 2 {
        1
    } else {
        0
    }
}

/// The number of bits that a canonical bit-list encoding stands for: the
/// highest set bit of the last byte closes the list, and the bits below it
/// are the list. The empty encoding stands for no bits.
pub open spec fn list_bit_len(encoding: Seq<u8>) -> nat
    recommends
        is_canonical(encoding),
{
    if encoding.len() == 0 {
        0
    } else {
        (8 * (encoding.len() - 1) + top_bit(encoding.last())) as nat
    }
}

/// Whether the last drawn byte keeps a list within `capacity` bits: it is
/// zero, or its highest set bit lies at or below bit `capacity`, counted over
/// the whole buffer.
pub open spec fn last_byte_fits(capacity: nat, drawn: Seq<u8>) -> bool {
    drawn.len() == 0 || drawn.last() == 0 || 8 * (drawn.len() - 1) + top_bit(drawn.last())
        <= capacity
}

/// `byte_len(capacity)` is the least positive number of bytes that has room
/// for `capacity` bits.
pub proof fn lemma_byte_len_is_least(capacity: nat, k: nat)
    ensures
        byte_len(capacity) >= 1,
        8 * byte_len(capacity) >= capacity,
        k >= 1 && 8 * k >= capacity ==> byte_len(capacity) <= k,
{
}

/// What `significant_len` picks out: a length within the buffer, just behind
/// a nonzero byte unless it is 0, with nothing but zero bytes from there on.
pub proof fn lemma_significant_len(bytes: Seq<u8>)
    ensures
        significant_len(bytes) <= bytes.len(),
        significant_len(bytes) > 0 ==> bytes[significant_len(bytes) - 1] != 0,
        forall|i: int| significant_len(bytes) <= i < bytes.len() ==> bytes[i] == 0,
    decreases bytes.len(),
{
    if bytes.len() > 0 && bytes.last() == 0 {
        let shorter = bytes.drop_last();
        lemma_significant_len(shorter);
        assert forall|i: int| significant_len(bytes) <= i < bytes.len() implies bytes[i] == 0 by {
            if i < shorter.len() {
                assert(shorter[i] == bytes[i]);
            }
        }
        if significant_len(bytes) > 0 {
            assert(shorter[significant_len(bytes) - 1] == bytes[significant_len(bytes) - 1]);
        }
    }
}

/// Only one length has the three properties of `lemma_significant_len`.
pub proof fn lemma_significant_len_unique(bytes: Seq<u8>, n: nat)
    requires
        n <= bytes.len(),
        n > 0 ==> bytes[n - 1] != 0,
        forall|i: int| n <= i < bytes.len() ==> bytes[i] == 0,
    ensures
        significant_len(bytes) == n,
{
    lemma_significant_len(bytes);
    let m = significant_len(bytes);
    if m < n {
        assert(bytes[n - 1] == 0);
    } else if n < m {
        assert(bytes[m - 1] == 0);
    }
}

/// Trimming keeps a prefix, drops only zero bytes, and leaves a canonical
/// encoding, whatever was drawn.
pub proof fn lemma_trimmed_is_canonical(drawn: Seq<u8>)
    ensures
        is_canonical(trimmed(drawn)),
        trimmed(drawn).len() <= drawn.len(),
        trimmed(drawn).is_prefix_of(drawn),
        forall|i: int| trimmed(drawn).len() <= i < drawn.len() ==> drawn[i] == 0,
        is_canonical(drawn) ==> trimmed(drawn) == drawn,
{
    lemma_significant_len(drawn);
    if is_canonical(drawn) {
        assert(trimmed(drawn) =~= drawn);
    }
}

/// Trimming twice is trimming once.
pub proof fn lemma_trimmed_idempotent(drawn: Seq<u8>)
    ensures
        trimmed(trimmed(drawn)) == trimmed(drawn),
{
    lemma_trimmed_is_canonical(drawn);
    lemma_trimmed_is_canonical(trimmed(drawn));
}

/// The encoding depends on the drawn bytes alone: two draws that agree byte
/// for byte trim to the same encoding.
pub proof fn lemma_same_draw_same_encoding(first: Seq<u8>, second: Seq<u8>)
    requires
        first.len() == second.len(),
        forall|i: int| 0 <= i < first.len() ==> first[i] == second[i],
    ensures
        trimmed(first) == trimmed(second),
        significant_len(first) == significant_len(second),
{
    assert(first =~= second);
}

/// A buffer of `byte_len(capacity)` drawn bytes trims to a canonical
/// encoding of at most that many bytes. The list it stands for has at most
/// `capacity` bits exactly when the last drawn byte fits.
pub proof fn lemma_bit_list_encoding(capacity: nat, drawn: Seq<u8>)
    requires
        drawn.len() == byte_len(capacity),
    ensures
        is_canonical(trimmed(drawn)),
        trimmed(drawn).len() <= byte_len(capacity),
        list_bit_len(trimmed(drawn)) <= capacity <==> last_byte_fits(capacity, drawn),
{
    lemma_trimmed_is_canonical(drawn);
    let kept = trimmed(drawn);
    if drawn.last() != 0 {
        assert(kept == drawn);
    } else if kept.len() > 0 {
        assert(kept.len() < drawn.len());
        assert(top_bit(kept.last()) <= 7);
    }
}

/// Where the capacity is a positive multiple of 8, every draw of
/// `byte_len(capacity)` bytes stands for a list of fewer than `capacity`
/// bits.
pub proof fn lemma_bit_list_whole_bytes(capacity: nat, drawn: Seq<u8>)
    requires
        capacity > 0,
        capacity % 8 == 0,
        drawn.len() == byte_len(capacity),
    ensures
        list_bit_len(trimmed(drawn)) < capacity,
{
    lemma_trimmed_is_canonical(drawn);
    let kept = trimmed(drawn);
    if kept.len() > 0 {
        assert(top_bit(kept.last()) <= 7);
    }
}

/// The all-zero draw trims to the empty encoding.
pub proof fn lemma_zeros_trim_to_empty(n: nat)
    ensures
        trimmed(zeros(n)) == Seq::<u8>::empty(),
{
    lemma_significant_len_unique(zeros(n), 0);
    assert(trimmed(zeros(n)) =~= Seq::<u8>::empty());
}

} // verus!
