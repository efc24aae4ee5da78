//! An in-memory byte source that is read front to back.

use vstd::prelude::*;
use vstd::slice::slice_subrange;

verus! {

/// A readable byte source: a buffer and a cursor into it.
///
/// Its view is the sequence of bytes that have not been read yet.
pub struct ByteSource {
    data: Vec<u8>,
    pos: usize,
}

impl View for ByteSource {
    type V = Seq<u8>;

    closed spec fn view(&self) -> Seq<u8> {
        self.data@.skip(self.pos as int)
    }
}

impl ByteSource {
    #[verifier::type_invariant]
    spec fn cursor_in_bounds(self) -> bool {
        self.pos <= self.data.len()
    }

    /// A source that will yield the bytes of `data` in order.
    pub fn new(data: Vec<u8>) -> (source: ByteSource)
        ensures
            source@ == data@,
    {
        ByteSource { data, pos: 0 }
    }

    /// The number of bytes that have not been read yet.
    pub fn remaining(&self) -> (n: usize)
        ensures
            n == self@.len(),
    {
        proof {
            use_type_invariant(self);
        }
        self.data.len() - self.pos
    }

    /// Reads up to `limit` bytes: as many as are left, if fewer.
    pub fn take(&mut self, limit: usize) -> (window: &[u8])
        ensures
            window@ == old(self)@.take(vstd::math::min(limit as int, old(self)@.len() as int)),
            final(self)@ == old(self)@.skip(vstd::math::min(limit as int, old(self)@.len() as int)),
    {
        proof {
            use_type_invariant(&*self);
        }
        let start: usize = self.pos;
        let left: usize = self.data.len() - start;
        let n: usize = if limit < left { limit } else { left };
        self.pos = start + n;
        let window = slice_subrange(self.data.as_slice(), start, start + n);
        assert(window@ =~= old(self)@.take(n as int));
        assert(self@ =~= old(self)@.skip(n as int));
        window
    }

    /// Reads all that is left and appends it to `output`.
    pub fn copy_rest(&mut self, output: &mut Vec<u8>)
        ensures
            final(output)@ == old(output)@ + old(self)@,
            final(self)@ == Seq::<u8>::empty(),
    {
        let left: usize = self.remaining();
        let rest = self.take(left);
        output.extend_from_slice(rest);
        assert(output@ =~= old(output)@ + old(self)@);
        assert(self@ =~= Seq::<u8>::empty());
    }
}

} // verus!
