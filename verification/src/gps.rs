//! Buffer handling for the line-oriented GPS receiver: finding the end of
//! a message and guarding the buffer prefix that holds it.

use vstd::prelude::*;
use vstd::slice::slice_subrange;

verus! {

/// The index of the first newline in `bytes`, if any: the end of one
/// complete line-oriented message.
pub fn find_newline(bytes: &[u8]) -> (r: Option<usize>)
    ensures
        match r {
            Some(i) => i < bytes@.len() && bytes@[i as int] == 0x0Au8 && forall|q: int|
                0 <= q < i ==> bytes@[q] != 0x0Au8,
            None => forall|q: int| 0 <= q < bytes@.len() ==> bytes@[q] != 0x0Au8,
        },
{
    let mut i: usize = 0;
    while i < bytes.len()
        invariant
            i <= bytes@.len(),
            forall|q: int| 0 <= q < i ==> bytes@[q] != 0x0Au8,
        decreases bytes@.len() - i,
    {
        if bytes[i] == 0x0A {
            return Some(i);
        }
        i += 1;
    }
    None
}

/// A guard that provides access to a portion of a receive buffer: the
/// prefix holding one complete message.
#[derive(Debug, PartialEq, Eq)]
pub struct BufferGuard<'a> {
    buffer: &'a [u8],
    end: usize,
}

impl<'a> BufferGuard<'a> {
    /// The guard covers a prefix of the buffer.
    pub closed spec fn wf(&self) -> bool {
        self.end <= self.buffer@.len()
    }

    /// The bytes the guard covers.
    pub closed spec fn spec_bytes(&self) -> Seq<u8> {
        self.buffer@.subrange(0, self.end as int)
    }

    /// Create a new [`BufferGuard`] over the first `end` bytes of
    /// `buffer`.
    pub fn new(buffer: &'a [u8], end: usize) -> (r: BufferGuard<'a>)
        requires
            end <= buffer@.len(),
        ensures
            r.wf(),
            r.spec_bytes() == buffer@.subrange(0, end as int),
    {
        BufferGuard { buffer, end }
    }

    /// Get the range of the buffer that this guard covers.
    pub fn as_slice(&self) -> (r: &[u8])
        requires
            self.wf(),
        ensures
            r@ == self.spec_bytes(),
    {
        slice_subrange(self.buffer, 0, self.end)
    }
}

} // verus!
