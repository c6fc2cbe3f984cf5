//! C data files: a 10-byte header (magic number, version, data size) and the data.
use vstd::prelude::*;
use crate::bytes::{
    copy_range, le16, le16_bytes, le32, le32_bytes, lemma_le16_of_bytes, lemma_le32_of_bytes,
    push_all, push_le_u16, push_le_u32, read_le_u16, read_le_u32,
};
use crate::error::IoErrorKind;

verus! {

/// The header of a C data file.
#[derive(Debug, Clone, Copy, PartialEq, Eq, Structural)]
pub struct CHeader {
    pub magic_number: u32,
    pub version: u16,
    pub data_size: u32,
}

/// A C data file: its header and data.
#[derive(Debug)]
pub struct CFile {
    pub header: CHeader,
    pub data: Vec<u8>,
}

/// The bytes of a header: magic number, version and data size, little-endian.
pub open spec fn header_bytes(h: CHeader) -> Seq<u8> {
    le32_bytes(h.magic_number as int) + le16_bytes(h.version as int) + le32_bytes(h.data_size as int)
}

/// The header at the start of `d`.
pub open spec fn header_of(d: Seq<u8>) -> CHeader {
    CHeader {
        magic_number: le32(d, 0) as u32,
        version: le16(d, 4) as u16,
        data_size: le32(d, 6) as u32,
    }
}

impl CHeader {
    /// Reads the 10-byte header at the start of `d`.
    pub fn read_from_bytes(d: &[u8]) -> (r: Result<CHeader, IoErrorKind>)
        ensures
            d@.len() < 10 ==> r == Err::<CHeader, IoErrorKind>(IoErrorKind::UnexpectedEof),
            d@.len() >= 10 ==> r == Ok::<CHeader, IoErrorKind>(header_of(d@)),
    {
        if d.len() < 10 {
            return Err(IoErrorKind::UnexpectedEof);
        }
        Ok(CHeader {
            magic_number: read_le_u32(d, 0),
            version: read_le_u16(d, 4),
            data_size: read_le_u32(d, 6),
        })
    }

    /// The bytes of the header.
    pub fn write_to_bytes(&self, out: &mut Vec<u8>)
        ensures
            final(out)@ == old(out)@ + header_bytes(*self),
    {
        push_le_u32(out, self.magic_number);
        push_le_u16(out, self.version);
        push_le_u32(out, self.data_size);
        assert(final(out)@ =~= old(out)@ + header_bytes(*self));
    }
}

impl CFile {
    /// A file with the given header and data.
    pub fn new(header: CHeader, data: Vec<u8>) -> (r: Self)
        ensures
            r.header == header,
            r.data@ == data@,
    {
        CFile { header, data }
    }

    /// Reads a file from its bytes: the header, then as many data bytes as it gives.
    pub fn read_from_bytes(d: &[u8]) -> (r: Result<CFile, IoErrorKind>)
        ensures
            d@.len() < 10 || 10 + header_of(d@).data_size > d@.len() ==> r == Err::<
                CFile,
                IoErrorKind,
            >(IoErrorKind::UnexpectedEof),
            d@.len() >= 10 && 10 + header_of(d@).data_size <= d@.len() ==> (r matches Ok(f)
                && f.header == header_of(d@) && f.data@ == d@.subrange(
                10,
                10 + header_of(d@).data_size,
            )),
    {
        let header = match CHeader::read_from_bytes(d) {
            Ok(h) => h,
            Err(e) => return Err(e),
        };
        let size = header.data_size as usize;
        if d.len() - 10 < size {
            return Err(IoErrorKind::UnexpectedEof);
        }
        let data = copy_range(d, 10, 10 + size);
        Ok(CFile::new(header, data))
    }

    /// The bytes of the file: header, then data.
    pub fn write_to_bytes(&self) -> (r: Vec<u8>)
        ensures
            r@ == header_bytes(self.header) + self.data@,
    {
        let mut out: Vec<u8> = Vec::new();
        self.header.write_to_bytes(&mut out);
        push_all(&mut out, self.data.as_slice());
        out
    }
}

/// Writing a file whose header gives its data's size and reading the bytes back gives the same
/// header and data.
pub proof fn lemma_cfile_write_read(h: CHeader, data: Seq<u8>)
    requires
        h.data_size == data.len(),
    ensures
        header_of(header_bytes(h) + data) == h,
        (header_bytes(h) + data).subrange(10, 10 + h.data_size) == data,
{
    let d = header_bytes(h) + data;
    assert(d.subrange(0, 4) =~= le32_bytes(h.magic_number as int));
    assert(d.subrange(4, 6) =~= le16_bytes(h.version as int));
    assert(d.subrange(6, 10) =~= le32_bytes(h.data_size as int));
    lemma_le32_of_bytes(d, 0, h.magic_number as int);
    lemma_le16_of_bytes(d, 4, h.version as int);
    lemma_le32_of_bytes(d, 6, h.data_size as int);
    assert(d.subrange(10, 10 + h.data_size) =~= data);
}

} // verus!
