//! Blend files: a 12-byte header (`BLEN`, version, data offset) and the data from the offset on.
use vstd::prelude::*;
use crate::bytes::{le32, le32_bytes, lemma_le32_of_bytes, push_all, push_le_u32, push_zeros, read_le_u32, copy_range};
use crate::error::{FileSystemError, short_read_error, short_read_text};
use crate::text::{decimal, push_decimal};
use vstd::string::StringExecFns;

verus! {

/// The header of a Blend file.
#[derive(Debug, Clone, Copy, PartialEq, Eq)]
pub struct BlendHeader {
    pub magic: [u8; 4],
    pub version: u32,
    pub data_offset: u32,
}

/// A Blend file: its header and the data that follows the data offset.
#[derive(Debug)]
pub struct BlendFile {
    pub header: BlendHeader,
    pub data: Vec<u8>,
}

/// The magic bytes `BLEN`.
pub open spec fn blend_magic() -> Seq<u8> {
    seq![66u8, 76u8, 69u8, 78u8]
}

/// How `[u8; 4]` is printed for debugging: `[a, b, c, d]` in decimal.
pub open spec fn debug_bytes4(m: Seq<u8>) -> Seq<char> {
    "["@ + decimal(m[0] as nat) + ", "@ + decimal(m[1] as nat) + ", "@ + decimal(m[2] as nat) + ", "@
        + decimal(m[3] as nat) + "]"@
}

/// `r` is what reading `d` as a Blend file returns: a short read error below 12 bytes, an
/// error for a magic other than `BLEN`, and else the header and the bytes from the data offset
/// to the end (none if the offset lies past the end).
pub open spec fn blend_read_result(d: Seq<u8>, r: Result<BlendFile, FileSystemError>) -> bool {
    if d.len() < 12 {
        r matches Err(FileSystemError::IOError(m)) && m@ == short_read_text()
    } else if d.subrange(0, 4) != blend_magic() {
        r matches Err(FileSystemError::InvalidData(m)) && m@ == "Geçersiz sihirli sayı: "@
            + debug_bytes4(d.subrange(0, 4))
    } else {
        r matches Ok(f) && f.header.magic@ == blend_magic() && f.header.version == le32(d, 4)
            && f.header.data_offset == le32(d, 8) && f.data@ == (if le32(d, 8) < d.len() {
            d.subrange(le32(d, 8), d.len() as int)
        } else {
            Seq::empty()
        })
    }
}

/// The bytes of a Blend file with header `h` and data `data`, when the offset is at least 12.
pub open spec fn blend_bytes(h: BlendHeader, data: Seq<u8>) -> Seq<u8> {
    h.magic@ + le32_bytes(h.version as int) + le32_bytes(h.data_offset as int) + Seq::new(
        (h.data_offset - 12) as nat,
        |_i: int| 0u8,
    ) + data
}

/// Appends `[a, b, c, d]` (decimal) to `out`.
fn push_debug_bytes4(out: &mut String, m: &[u8; 4])
    ensures
        final(out)@ == old(out)@ + debug_bytes4(m@),
{
    out.append("[");
    push_decimal(out, m[0] as u64);
    out.append(", ");
    push_decimal(out, m[1] as u64);
    out.append(", ");
    push_decimal(out, m[2] as u64);
    out.append(", ");
    push_decimal(out, m[3] as u64);
    out.append("]");
    assert(final(out)@ =~= old(out)@ + debug_bytes4(m@));
}

/// Reads a Blend file from its bytes.
pub fn read_from_bytes(d: &[u8]) -> (r: Result<BlendFile, FileSystemError>)
    ensures
        blend_read_result(d@, r),
{
    let n = d.len();
    if n < 12 {
        return Err(short_read_error());
    }
    let magic = [d[0], d[1], d[2], d[3]];
    assert(magic@ =~= d@.subrange(0, 4));
    let version = read_le_u32(d, 4);
    let data_offset = read_le_u32(d, 8);
    if !(magic[0] == 66 && magic[1] == 76 && magic[2] == 69 && magic[3] == 78) {
        let mut m = "Geçersiz sihirli sayı: ".to_owned();
        push_debug_bytes4(&mut m, &magic);
        return Err(FileSystemError::InvalidData(m));
    }
    assert(d@.subrange(0, 4) =~= blend_magic());
    let data = if (data_offset as usize) < n {
        copy_range(d, data_offset as usize, n)
    } else {
        Vec::new()
    };
    Ok(BlendFile { header: BlendHeader { magic, version, data_offset }, data })
}

impl BlendFile {
    /// The bytes of the Blend file: header, zeros up to the data offset, then the data. An
    /// offset inside the 12-byte header is refused.
    pub fn write_to_bytes(&self) -> (r: Result<Vec<u8>, FileSystemError>)
        requires
            self.header.data_offset + self.data@.len() <= usize::MAX,
        ensures
            self.header.data_offset < 12 ==> (r matches Err(FileSystemError::InvalidData(m)) && m@
                == "BlendHeader data_offset header boyutundan (12) küçük."@),
            self.header.data_offset >= 12 ==> (r matches Ok(bytes) && bytes@ == blend_bytes(
                self.header,
                self.data@,
            )),
    {
        let h = self.header;
        if h.data_offset < 12 {
            return Err(FileSystemError::InvalidData("BlendHeader data_offset header boyutundan (12) küçük.".to_owned()));
        }
        let mut out: Vec<u8> = Vec::new();
        push_all(&mut out, &h.magic);
        push_le_u32(&mut out, h.version);
        push_le_u32(&mut out, h.data_offset);
        push_zeros(&mut out, (h.data_offset - 12) as usize);
        push_all(&mut out, self.data.as_slice());
        assert(out@ =~= blend_bytes(h, self.data@));
        Ok(out)
    }

}

/// Writing a Blend file with magic `BLEN` and a data offset past the header, and reading the
/// bytes back, gives the same header and data.
pub proof fn lemma_blend_write_read(h: BlendHeader, data: Seq<u8>, r: Result<BlendFile, FileSystemError>)
    requires
        h.magic@ == blend_magic(),
        h.data_offset >= 12,
        blend_read_result(blend_bytes(h, data), r),
    ensures
        r matches Ok(f) && f.header == h && f.data@ == data,
{
    let d = blend_bytes(h, data);
    let off = h.data_offset as int;
    assert(d.subrange(0, 4) =~= blend_magic());
    assert(d.subrange(4, 8) =~= le32_bytes(h.version as int));
    assert(d.subrange(8, 12) =~= le32_bytes(off));
    lemma_le32_of_bytes(d, 4, h.version as int);
    lemma_le32_of_bytes(d, 8, off);
    let f = r->Ok_0;
    assert(f.header.magic =~= h.magic) by {
        assert(f.header.magic@ =~= h.magic@);
    }
    if data.len() > 0 {
        assert(d.subrange(off, d.len() as int) =~= data);
    } else {
        assert(data =~= Seq::<u8>::empty());
    }
}

} // verus!
