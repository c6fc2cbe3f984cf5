//! Cangjie record files: a 12-byte header (magic, version, record count) and records of a
//! 4-byte id and 10 data bytes.
use vstd::prelude::*;
use crate::bytes::{copy_range, le32, read_le_u32};
use crate::error::IoErrorKind;

verus! {

/// The header of a Cangjie file.
#[derive(Debug, Clone, Copy, PartialEq, Eq)]
pub struct Header {
    pub magic_number: [u8; 4],
    pub version: u32,
    pub record_count: u32,
}

/// A record of a Cangjie file.
#[derive(Debug)]
pub struct Record {
    pub id: u32,
    pub data: Vec<u8>,
}

/// A Cangjie file: its header and records.
#[derive(Debug)]
pub struct FileCangjie {
    pub header: Header,
    pub records: Vec<Record>,
}

/// The size of a record: a 4-byte id and 10 bytes of data.
pub open spec fn record_size() -> int {
    14
}

/// `h` is the header at the start of `d`.
pub open spec fn header_fields(h: Header, d: Seq<u8>) -> bool {
    &&& h.magic_number@ == d.subrange(0, 4)
    &&& h.version == le32(d, 4)
    &&& h.record_count == le32(d, 8)
}

/// `r` is record number `i` of the records that start at `start` in `d`.
pub open spec fn record_fields(r: Record, d: Seq<u8>, start: int, i: int) -> bool {
    let at = start + record_size() * i;
    &&& r.id == le32(d, at)
    &&& r.data@ == d.subrange(at + 4, at + 14)
}

impl FileCangjie {
    /// Reads the 12-byte header at the start of `d`.
    pub fn read_header(d: &[u8]) -> (r: Result<Header, IoErrorKind>)
        ensures
            d@.len() < 12 ==> r == Err::<Header, IoErrorKind>(IoErrorKind::UnexpectedEof),
            d@.len() >= 12 ==> (r matches Ok(h) && header_fields(h, d@)),
    {
        if d.len() < 12 {
            return Err(IoErrorKind::UnexpectedEof);
        }
        let magic_number = [d[0], d[1], d[2], d[3]];
        assert(magic_number@ =~= d@.subrange(0, 4));
        Ok(Header { magic_number, version: read_le_u32(d, 4), record_count: read_le_u32(d, 8) })
    }

    /// Reads `record_count` records from `start` in `d`.
    pub fn read_records(d: &[u8], start: usize, record_count: u32) -> (r: Result<Vec<Record>, IoErrorKind>)
        requires
            start <= d@.len(),
        ensures
            start + record_size() * record_count > d@.len() ==> r == Err::<Vec<Record>, IoErrorKind>(
                IoErrorKind::UnexpectedEof,
            ),
            start + record_size() * record_count <= d@.len() ==> (r matches Ok(v) && v@.len()
                == record_count && forall|i: int|
                0 <= i < v@.len() ==> record_fields(#[trigger] v@[i], d@, start as int, i)),
    {
        let n = d.len();
        let mut records: Vec<Record> = Vec::new();
        let mut k: u32 = 0;
        while k < record_count
            invariant
                n == d@.len(),
                start <= n,
                k <= record_count,
                start + record_size() * k <= n,
                records@.len() == k,
                forall|i: int| 0 <= i < k ==> record_fields(#[trigger] records@[i], d@, start as int, i),
            decreases record_count - k,
        {
            let at = start + 14 * (k as usize);
            if n - at < 14 {
                assert(start + record_size() * record_count > d@.len()) by (nonlinear_arith)
                    requires
                        n - at < 14,
                        at == start + 14 * k,
                        k < record_count,
                        n == d@.len(),
                ;
                return Err(IoErrorKind::UnexpectedEof);
            }
            let id = read_le_u32(d, at);
            let data = copy_range(d, at + 4, at + 14);
            records.push(Record { id, data });
            k = k + 1;
        }
        Ok(records)
    }

    /// Reads a Cangjie file from its bytes: the header, then as many records as it counts.
    pub fn parse(d: &[u8]) -> (r: Result<FileCangjie, IoErrorKind>)
        ensures
            match r {
                Ok(f) => header_fields(f.header, d@) && 12 + record_size() * f.header.record_count
                    <= d@.len() && f.records@.len() == f.header.record_count && forall|i: int|
                    0 <= i < f.records@.len() ==> record_fields(#[trigger] f.records@[i], d@, 12, i),
                Err(e) => e == IoErrorKind::UnexpectedEof && (d@.len() < 12 || 12 + record_size()
                    * le32(d@, 8) > d@.len()),
            },
    {
        let header = match Self::read_header(d) {
            Ok(h) => h,
            Err(e) => return Err(e),
        };
        match Self::read_records(d, 12, header.record_count) {
            Ok(records) => Ok(FileCangjie { header, records }),
            Err(e) => Err(e),
        }
    }
}

} // verus!
