//! C++ data files: a header (version, creation date), metadata (file size and an author name
//! of at most 255 bytes) and the remaining data, all little-endian.
use vstd::prelude::*;
use crate::bytes::{byteorder_le_u32, byteorder_le_u64, copy_range, le32, le64};
use crate::error::IoErrorKind;
use crate::text::{utf8_lossy, utf8_lossy_string};

verus! {

/// The header of a C++ data file.
#[derive(Debug, Clone, Copy, PartialEq, Eq, Structural)]
pub struct Header {
    pub version: u32,
    pub creation_date: u64,
}

/// The metadata of a C++ data file.
#[derive(Debug)]
pub struct Metadata {
    pub file_size: u64,
    pub author: String,
}

/// Reads the 12-byte header at the start of `d`.
pub fn read_header(d: &[u8]) -> (r: Result<Header, IoErrorKind>)
    ensures
        d@.len() < 12 ==> r == Err::<Header, IoErrorKind>(IoErrorKind::UnexpectedEof),
        d@.len() >= 12 ==> r == Ok::<Header, IoErrorKind>(
            Header { version: le32(d@, 0) as u32, creation_date: le64(d@, 4) as u64 },
        ),
{
    if d.len() < 12 {
        return Err(IoErrorKind::UnexpectedEof);
    }
    let v = vstd::slice::slice_subrange(d, 0, 4);
    let c = vstd::slice::slice_subrange(d, 4, 12);
    let version = byteorder_le_u32(v);
    let creation_date = byteorder_le_u64(c);
    assert(le32(v@, 0) == le32(d@, 0));
    assert(le64(c@, 0) == le64(d@, 4));
    Ok(Header { version, creation_date })
}

/// The size of the metadata at the start of `d`: the file size, the author's length byte and
/// the author.
pub open spec fn metadata_len(d: Seq<u8>) -> int {
    9 + d[8]
}

/// Reads the metadata at the start of `d`, and how many bytes it takes.
pub fn read_metadata(d: &[u8]) -> (r: Result<(Metadata, usize), IoErrorKind>)
    ensures
        d@.len() < 9 || metadata_len(d@) > d@.len() ==> r == Err::<(Metadata, usize), IoErrorKind>(
            IoErrorKind::UnexpectedEof,
        ),
        d@.len() >= 9 && metadata_len(d@) <= d@.len() ==> (r matches Ok((m, n)) && n
            == metadata_len(d@) && m.file_size == le64(d@, 0) && m.author@ == utf8_lossy(
            d@.subrange(9, metadata_len(d@)),
        )),
{
    if d.len() < 9 {
        return Err(IoErrorKind::UnexpectedEof);
    }
    let s = vstd::slice::slice_subrange(d, 0, 8);
    let file_size = byteorder_le_u64(s);
    assert(le64(s@, 0) == le64(d@, 0));
    let author_length = d[8] as usize;
    if d.len() - 9 < author_length {
        return Err(IoErrorKind::UnexpectedEof);
    }
    let author_bytes = copy_range(d, 9, 9 + author_length);
    let author = utf8_lossy_string(author_bytes.as_slice());
    Ok((Metadata { file_size, author }, 9 + author_length))
}

/// Reads a C++ data file from its bytes: header, metadata, and the rest as data.
pub fn read_cpp_file(d: &[u8]) -> (r: Result<(Header, Metadata, Vec<u8>), IoErrorKind>)
    ensures
        match r {
            Ok((h, m, data)) => d@.len() >= 12 && h == (Header {
                version: le32(d@, 0) as u32,
                creation_date: le64(d@, 4) as u64,
            }) && d@.len() >= 21 && 12 + metadata_len(d@.subrange(12, d@.len() as int)) <= d@.len()
                && m.file_size == le64(d@, 12) && m.author@ == utf8_lossy(
                d@.subrange(21, 12 + metadata_len(d@.subrange(12, d@.len() as int))),
            ) && data@ == d@.subrange(
                12 + metadata_len(d@.subrange(12, d@.len() as int)),
                d@.len() as int,
            ),
            Err(e) => e == IoErrorKind::UnexpectedEof && (d@.len() < 21 || 12 + metadata_len(
                d@.subrange(12, d@.len() as int),
            ) > d@.len()),
        },
{
    let header = match read_header(d) {
        Ok(h) => h,
        Err(e) => return Err(e),
    };
    let rest = vstd::slice::slice_subrange(d, 12, d.len());
    let (metadata, used) = match read_metadata(rest) {
        Ok(p) => p,
        Err(e) => return Err(e),
    };
    assert(rest@.subrange(9, metadata_len(rest@)) =~= d@.subrange(21, 12 + metadata_len(rest@)));
    assert(le64(rest@, 0) == le64(d@, 12));
    let data = copy_range(d, 12 + used, d.len());
    Ok((header, metadata, data))
}

} // verus!
