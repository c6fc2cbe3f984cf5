//! The 16-byte header of D data files.
use vstd::prelude::*;
use crate::bytes::{le32, le64, read_le_u32, read_le_u64};

verus! {

/// The header of a D data file: magic bytes, version and the offset of the data.
#[derive(Debug, Clone, Copy, PartialEq, Eq)]
pub struct DHeader {
    magic: [u8; 4],
    version: u32,
    data_offset: u64,
}

impl DHeader {
    pub closed spec fn spec_magic(&self) -> Seq<u8> {
        self.magic@
    }

    pub closed spec fn spec_version(&self) -> u32 {
        self.version
    }

    pub closed spec fn spec_data_offset(&self) -> u64 {
        self.data_offset
    }

    /// The header held in `bytes`: magic in bytes 0 to 3, then the little-endian version and
    /// data offset.
    pub fn from_bytes(bytes: &[u8; 16]) -> (r: DHeader)
        ensures
            r.spec_magic() == bytes@.subrange(0, 4),
            r.spec_version() == le32(bytes@, 4),
            r.spec_data_offset() == le64(bytes@, 8),
    {
        let magic = [bytes[0], bytes[1], bytes[2], bytes[3]];
        assert(magic@ =~= bytes@.subrange(0, 4));
        let b = bytes.as_slice();
        DHeader { magic, version: read_le_u32(b, 4), data_offset: read_le_u64(b, 8) }
    }

    pub fn magic(&self) -> (r: &[u8; 4])
        ensures
            r@ == self.spec_magic(),
    {
        &self.magic
    }

    pub fn version(&self) -> (r: u32)
        ensures
            r == self.spec_version(),
    {
        self.version
    }

    pub fn data_offset(&self) -> (r: u64)
        ensures
            r == self.spec_data_offset(),
    {
        self.data_offset
    }
}

} // verus!
