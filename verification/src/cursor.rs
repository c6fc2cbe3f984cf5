//! An in-memory byte source with a position, read and seek as `std::io::Cursor` does.
use vstd::prelude::*;
use crate::error::IoErrorKind;

verus! {

/// Bytes held in memory, read from a position that seeking may move past the end.
pub struct ByteCursor {
    data: Vec<u8>,
    pos: u64,
}

impl ByteCursor {
    pub closed spec fn bytes(&self) -> Seq<u8> {
        self.data@
    }

    pub closed spec fn position(&self) -> u64 {
        self.pos
    }

    /// A cursor at the start of `data`.
    pub fn new(data: Vec<u8>) -> (r: Self)
        ensures
            r.bytes() == data@,
            r.position() == 0,
    {
        ByteCursor { data, pos: 0 }
    }

    /// The current position.
    pub fn stream_position(&self) -> (r: Result<u64, IoErrorKind>)
        ensures
            r == Ok::<u64, IoErrorKind>(self.position()),
    {
        Ok(self.pos)
    }

    /// The bytes the cursor reads.
    pub fn get_ref(&self) -> (r: &Vec<u8>)
        ensures
            r@ == self.bytes(),
    {
        &self.data
    }

    /// Moves the position to `pos`.
    pub fn set_position(&mut self, pos: u64)
        ensures
            final(self).bytes() == old(self).bytes(),
            final(self).position() == pos,
    {
        self.pos = pos;
    }
}

} // verus!
