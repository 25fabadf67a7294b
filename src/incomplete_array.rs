//! The trailing, variable-length member of a wire structure.
use vstd::prelude::*;

verus! {

/// The elements that follow the fixed part of a structure in a frame. They
/// are found by their byte offset from the start of the frame, never through
/// a field of their own.
#[derive(Clone, Copy, Debug, PartialEq, Eq, Structural)]
pub struct IncompleteArray {
    pub offset: usize,
}

impl IncompleteArray {
    /// The trailing member of a structure whose fixed part ends at `offset`.
    pub fn new(offset: usize) -> (r: IncompleteArray)
        ensures
            r.offset == offset,
    {
        IncompleteArray { offset }
    }

    /// Where the elements begin, for reading.
    pub fn as_ptr(&self) -> (r: usize)
        ensures
            r == self.offset,
    {
        self.offset
    }

    /// Where the elements begin, for writing.
    pub fn as_mut_ptr(&mut self) -> (r: usize)
        ensures
            r == old(self).offset,
            *final(self) == *old(self),
    {
        self.offset
    }

    /// A copy of the first `len` elements.
    pub fn as_slice(&self, frame: &[u8], len: usize) -> (r: Vec<u8>)
        requires
            self.offset + len <= frame@.len(),
        ensures
            r@ == frame@.subrange(self.offset as int, self.offset + len),
    {
        let n = frame.len();
        let mut out: Vec<u8> = Vec::new();
        let mut i: usize = 0;
        while i < len
            invariant
                i <= len,
                n == frame@.len(),
                self.offset + len <= frame@.len(),
                out@ == frame@.subrange(self.offset as int, self.offset + i),
            decreases len - i,
        {
            out.push(frame[self.offset + i]);
            i += 1;
            assert(out@ =~= frame@.subrange(self.offset as int, self.offset + i));
        }
        out
    }

    /// Makes `data` the elements of the member: the frame keeps what comes
    /// before them and ends after them.
    pub fn as_mut_slice(&self, frame: &mut Vec<u8>, data: &[u8])
        requires
            self.offset <= old(frame)@.len(),
        ensures
            final(frame)@ == old(frame)@.subrange(0, self.offset as int) + data@,
    {
        frame.truncate(self.offset);
        let mut i: usize = 0;
        while i < data.len()
            invariant
                i <= data@.len(),
                frame@ == old(frame)@.subrange(0, self.offset as int) + data@.subrange(0, i as int),
            decreases data@.len() - i,
        {
            frame.push(data[i]);
            i += 1;
            assert(frame@ =~= old(frame)@.subrange(0, self.offset as int) + data@.subrange(0, i as int));
        }
        assert(data@.subrange(0, i as int) =~= data@);
    }
}

} // verus!
