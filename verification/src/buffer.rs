//! The byte buffer that the encodings are built in.
//!
//! The storage is a `SmallVec<[u8; 128]>` of the `smallvec` crate. Its
//! contents are known to the verifier only through [`bytes_of`]. The four
//! crate-private functions of this file each make one call into `smallvec`
//! and state its effect on `bytes_of` without proof; everything else is
//! proved from them.

use smallvec::SmallVec;
use vstd::prelude::*;

verus! {

/// A growable run of bytes that stays on the stack while it is short.
///
/// It holds a `smallvec::SmallVec<[u8; 128]>`. The verifier does not look
/// inside: what it knows of a buffer is what the functions below state of
/// [`bytes_of`].
#[verifier::external_body]
pub struct ByteBuffer {
    inner: SmallVec<[u8; 128]>,
}

/// The bytes that a buffer holds, first to last.
pub uninterp spec fn bytes_of(buf: ByteBuffer) -> Seq<u8>;

impl ByteBuffer {
    /// Calls `SmallVec::from_elem`, which builds a vector of `n` copies of
    /// its first argument. Stated: the buffer holds `n` bytes, each equal to
    /// `byte`.
    #[verifier::external_body]
    pub(crate) fn repeated(byte: u8, n: usize) -> (buf: ByteBuffer)
        ensures
            bytes_of(buf) == Seq::new(n as nat, |i: int| byte),
    {
        ByteBuffer { inner: SmallVec::from_elem(byte, n) }
    }

    /// Calls `SmallVec::as_slice`, which borrows the whole vector as a slice.
    /// Stated: the slice holds the buffer's bytes in the same order.
    #[verifier::external_body]
    pub(crate) fn as_bytes(&self) -> (bytes: &[u8])
        ensures
            bytes@ == bytes_of(*self),
    {
        self.inner.as_slice()
    }

    /// Calls `SmallVec::truncate`, which keeps the first `len` elements and
    /// drops the rest, and has no effect when `len` is not below the current
    /// length. Stated: exactly that, over the buffer's bytes.
    #[verifier::external_body]
    pub(crate) fn truncate(&mut self, len: usize)
        ensures
            len < bytes_of(*old(self)).len() ==> bytes_of(*final(self)) == bytes_of(
                *old(self),
            ).subrange(0, len as int),
            len >= bytes_of(*old(self)).len() ==> bytes_of(*final(self)) == bytes_of(*old(self)),
    {
        self.inner.truncate(len)
    }

    /// Calls `SmallVec::as_mut_slice`, which borrows the whole vector as a
    /// mutable slice. Stated: the slice starts out as the buffer's bytes, and
    /// the buffer ends up holding what the slice ends up holding.
    #[verifier::external_body]
    pub(crate) fn as_bytes_mut(&mut self) -> (bytes: &mut [u8])
        ensures
            bytes@ == bytes_of(*old(self)),
            bytes_of(*final(self)) == final(bytes)@,
    {
        self.inner.as_mut_slice()
    }

    /// The buffer's bytes, to read.
    pub fn bytes(&self) -> (bytes: &[u8])
        ensures
            bytes@ == bytes_of(*self),
    {
        self.as_bytes()
    }

    /// The buffer's bytes, to overwrite in place. The length stays.
    pub fn bytes_mut(&mut self) -> (bytes: &mut [u8])
        ensures
            bytes@ == bytes_of(*old(self)),
            bytes_of(*final(self)) == final(bytes)@,
    {
        self.as_bytes_mut()
    }
}

} // verus!
