//! The executable side: sizing the buffer to draw into and trimming what
//! was drawn.
//!
//! Drawing itself is the caller's business. For a bit list the caller takes
//! a [`blank_buffer`], fills it through `bytes_mut` from its randomness
//! source, and calls [`trim_trailing_zeros`]; for a bit vector it fills the
//! blank buffer and is done.

use crate::buffer::{bytes_of, ByteBuffer};
use crate::encoding::{
    byte_len, is_canonical, lemma_significant_len, significant_len as spec_significant_len,
    trimmed, zeros,
};
use vstd::prelude::*;

verus! {

/// The length in bytes of the buffer to draw for `capacity` bits.
pub fn encoded_len(capacity: usize) -> (len: usize)
    ensures
        len == byte_len(capacity as nat),
{
    let whole: usize = capacity / 8;
    let len: usize = if capacity % 8 == 0 {
        whole
    } else {
        whole + 1
    };
    if len == 0 {
        1
    } else {
        len
    }
}

/// A buffer of `byte_len(capacity)` zero bytes, ready to be drawn into.
pub fn blank_buffer(capacity: usize) -> (buf: ByteBuffer)
    ensures
        bytes_of(buf) == zeros(byte_len(capacity as nat)),
{
    let initial_len: usize = encoded_len(capacity);
    ByteBuffer::repeated(0, initial_len)
}

/// Scans from the highest index downward for a nonzero byte and returns the
/// length up to and including it, or 0 if every byte is zero.
pub fn significant_len(bytes: &[u8]) -> (n: usize)
    ensures
        n == spec_significant_len(bytes@),
        n <= bytes@.len(),
        n > 0 ==> bytes@[n - 1] != 0,
        forall|i: int| n <= i < bytes@.len() ==> bytes@[i] == 0,
{
    let mut n: usize = bytes.len();
    assert(bytes@.subrange(0, n as int) =~= bytes@);
    while n > 0 && bytes[n - 1] == 0
        invariant
            n <= bytes@.len(),
            spec_significant_len(bytes@) == spec_significant_len(bytes@.subrange(0, n as int)),
        decreases n,
    {
        proof {
            let head = bytes@.subrange(0, n as int);
            assert(head.last() == bytes@[n - 1]);
            assert(head.drop_last() =~= bytes@.subrange(0, n - 1));
        }
        n = n - 1;
    }
    proof {
        let head = bytes@.subrange(0, n as int);
        if n > 0 {
            assert(head.last() == bytes@[n - 1]);
        }
        lemma_significant_len(bytes@);
    }
    n
}

/// Cuts the trailing zero bytes off a drawn buffer, which leaves the
/// canonical encoding of a bit list: empty, or ending in a nonzero byte.
pub fn trim_trailing_zeros(buf: &mut ByteBuffer)
    ensures
        bytes_of(*final(buf)) == trimmed(bytes_of(*old(buf))),
        is_canonical(bytes_of(*final(buf))),
{
    let kept: usize = significant_len(buf.bytes());
    proof {
        let drawn = bytes_of(*buf);
        if kept == drawn.len() {
            assert(trimmed(drawn) =~= drawn);
        }
    }
    buf.truncate(kept);
}

} // verus!
