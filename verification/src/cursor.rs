//! A read position over an immutable window of bytes.

use vstd::prelude::*;
use vstd::slice::slice_subrange;

verus! {

/// A window of bytes together with the position up to which it has been read.
#[derive(Clone, Copy, Debug)]
pub struct Cursor<'a> {
    data: &'a [u8],
    pos: usize,
}

impl<'a> Cursor<'a> {
    /// All bytes of the window.
    pub closed spec fn bytes(self) -> Seq<u8> {
        self.data@
    }

    /// Number of bytes already read.
    pub closed spec fn spec_position(self) -> nat {
        self.pos as nat
    }

    /// The position never lies behind the end of the window.
    #[verifier::type_invariant]
    pub open spec fn within(self) -> bool {
        self.spec_position() <= self.bytes().len()
    }

    /// The bytes that have not been read yet.
    pub open spec fn remaining(self) -> Seq<u8> {
        self.bytes().skip(self.spec_position() as int)
    }

    /// A cursor at the start of `data`.
    pub fn new(data: &'a [u8]) -> (c: Cursor<'a>)
        ensures
            c.bytes() == data@,
            c.spec_position() == 0,
    {
        Cursor { data, pos: 0 }
    }

    /// Number of bytes already read.
    pub fn position(&self) -> (p: usize)
        ensures
            p == self.spec_position(),
            p <= self.bytes().len(),
    {
        proof {
            use_type_invariant(self);
        }
        self.pos
    }

    /// Moves the read position to `pos`, or to the end of the window where
    /// `pos` lies behind it.
    pub fn set_position(&mut self, pos: usize)
        ensures
            final(self).bytes() == old(self).bytes(),
            final(self).spec_position() == if pos <= old(self).bytes().len() {
                pos as nat
            } else {
                old(self).bytes().len()
            },
    {
        if pos <= self.data.len() {
            self.pos = pos;
        } else {
            self.pos = self.data.len();
        }
    }

    /// Whether any byte is left to read.
    pub fn has_remaining(&self) -> (b: bool)
        ensures
            b == (self.remaining().len() > 0),
    {
        proof {
            use_type_invariant(self);
        }
        self.pos < self.data.len()
    }

    /// The unread bytes, without moving the position.
    pub fn rest(&self) -> (s: &'a [u8])
        ensures
            s@ == self.remaining(),
    {
        proof {
            use_type_invariant(self);
        }
        slice_subrange(self.data, self.pos, self.data.len())
    }

    /// Moves the read position forward by `n` bytes.
    pub fn advance(&mut self, n: usize)
        requires
            n <= old(self).remaining().len(),
        ensures
            final(self).bytes() == old(self).bytes(),
            final(self).spec_position() == old(self).spec_position() + n,
            final(self).remaining() == old(self).remaining().skip(n as int),
    {
        proof {
            use_type_invariant(&*self);
        }
        let len = self.data.len();
        assert(self.pos + n <= len);
        self.pos = self.pos + n;
    }
}

} // verus!
