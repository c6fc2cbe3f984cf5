//! Reading the ALAC stream description out of an MP4/M4A file held in memory.
//!
//! The file is a chain of atoms (4-byte big-endian size, 4-byte type). The metadata sits in
//! `moov/trak/mdia/minf/stbl/stsd`, in an `alac` (or `enca`) sample description.
use vstd::prelude::*;
use crate::bytes::{be32, be32_bytes, be64, has_tag, lemma_be32_of_bytes, read_be_u32, read_be_u64, tag_at};
use crate::error::{FileSystemError, IoErrorKind};
use crate::docx::{debug_string, str_debug};
use crate::text::{decimal, push_decimal};
use vstd::utf8::{decode_utf8, valid_utf8};
use vstd::string::StringExecFns;

verus! {

/// Sample rate, channel count and sample size of an ALAC track.
#[derive(Debug, Clone, Copy, PartialEq, Eq, Structural)]
pub struct AlacMetadata {
    pub sample_rate: u32,
    pub channels: u8,
    pub bits_per_sample: u8,
}

/// An error met while reading the atoms: its kind and its message.
#[derive(Debug, Clone, PartialEq)]
pub struct AtomError {
    pub kind: IoErrorKind,
    pub message: String,
}

impl AtomError {
    /// The kind of the error.
    pub fn kind(&self) -> (r: IoErrorKind)
        ensures
            r == self.kind,
    {
        self.kind
    }
}

/// The kind and message of an atom error, in specifications.
pub type AtomFail = (IoErrorKind, Seq<char>);

/// An outcome with the error taken by its kind and message.
pub open spec fn outcome<T>(r: Result<T, AtomError>) -> Result<T, AtomFail> {
    match r {
        Ok(v) => Ok(v),
        Err(e) => Err((e.kind, e.message@)),
    }
}

/// The error a read reports when the data ends before the bytes it must read.
pub open spec fn short_read() -> AtomFail {
    (IoErrorKind::UnexpectedEof, "failed to fill whole buffer"@)
}

/// Invalid data, with its message.
pub open spec fn bad(m: Seq<char>) -> AtomFail {
    (IoErrorKind::InvalidData, m)
}

/// Where `std::str::from_utf8` reports invalid bytes: the length of the valid prefix
/// (`valid_up_to`) and the length of the invalid sequence, if it is complete (`error_len`).
pub uninterp spec fn utf8_error_of(bytes: Seq<u8>) -> (usize, Option<usize>);

/// `std::str::from_utf8`: the text of valid UTF-8 bytes, or where the bytes are invalid.
#[verifier::external_body]
fn str_from_utf8(bytes: &[u8]) -> (r: Result<String, (usize, Option<usize>)>)
    ensures
        match r {
            Ok(t) => valid_utf8(bytes@) && t@ == decode_utf8(bytes@),
            Err(e) => !valid_utf8(bytes@) && e == utf8_error_of(bytes@),
        },
{
    match std::str::from_utf8(bytes) {
        Ok(t) => Ok(t.to_owned()),
        Err(e) => Err((e.valid_up_to(), e.error_len())),
    }
}

/// What `{:?}` prints for an `Option<usize>`.
pub open spec fn option_debug(o: Option<usize>) -> Seq<char> {
    match o {
        Some(k) => "Some("@ + decimal(k as nat) + ")"@,
        None => "None"@,
    }
}

/// What `{:?}` prints for the result of `std::str::from_utf8(bytes)`: `Ok` with the quoted
/// text, or `Err` with the fields of the `Utf8Error`.
pub open spec fn utf8_result_debug(bytes: Seq<u8>) -> Seq<char> {
    if valid_utf8(bytes) {
        "Ok("@ + str_debug(decode_utf8(bytes)) + ")"@
    } else {
        "Err(Utf8Error { valid_up_to: "@ + decimal(utf8_error_of(bytes).0 as nat) + ", error_len: "@
            + option_debug(utf8_error_of(bytes).1) + " })"@
    }
}

/// The text `{:?}` prints for the result of `std::str::from_utf8(bytes)`.
fn utf8_debug(bytes: &[u8]) -> (r: String)
    ensures
        r@ == utf8_result_debug(bytes@),
{
    match str_from_utf8(bytes) {
        Ok(t) => {
            let mut r = "Ok(".to_owned();
            let d = debug_string(t.as_str());
            r.append(d.as_str());
            r.append(")");
            r
        },
        Err((n, l)) => {
            let mut r = "Err(Utf8Error { valid_up_to: ".to_owned();
            push_decimal(&mut r, n as u64);
            r.append(", error_len: ");
            match l {
                Some(k) => {
                    r.append("Some(");
                    push_decimal(&mut r, k as u64);
                    r.append(")");
                },
                None => {
                    r.append("None");
                },
            }
            r.append(" })");
            r
        },
    }
}

fn short_read_err() -> (e: AtomError)
    ensures
        (e.kind, e.message@) == short_read(),
{
    AtomError { kind: IoErrorKind::UnexpectedEof, message: "failed to fill whole buffer".to_owned() }
}

fn bad_err(m: &str) -> (e: AtomError)
    ensures
        (e.kind, e.message@) == bad(m@),
{
    AtomError { kind: IoErrorKind::InvalidData, message: m.to_owned() }
}

/// The message of a child atom whose size does not move past it.
pub open spec fn bad_child_text(cur: int, size: int) -> Seq<char> {
    "Geçersiz atom boyutu veya taşma (current: "@ + decimal(cur as nat) + ", size: "@ + decimal(
        size as nat,
    ) + ")"@
}

fn bad_child_err(cur: u64, size: u64) -> (e: AtomError)
    ensures
        (e.kind, e.message@) == bad(bad_child_text(cur as int, size as int)),
{
    let mut m = "Geçersiz atom boyutu veya taşma (current: ".to_owned();
    push_decimal(&mut m, cur);
    m.append(", size: ");
    push_decimal(&mut m, size);
    m.append(")");
    AtomError { kind: IoErrorKind::InvalidData, message: m }
}

/// `ftyp`
pub open spec fn tag_ftyp() -> Seq<u8> { seq![102u8, 116u8, 121u8, 112u8] }
/// `moov`
pub open spec fn tag_moov() -> Seq<u8> { seq![109u8, 111u8, 111u8, 118u8] }
/// `M4A `
pub open spec fn brand_m4a() -> Seq<u8> { seq![77u8, 52u8, 65u8, 32u8] }
/// `mp42`
pub open spec fn brand_mp42() -> Seq<u8> { seq![109u8, 112u8, 52u8, 50u8] }
/// `isom`
pub open spec fn brand_isom() -> Seq<u8> { seq![105u8, 115u8, 111u8, 109u8] }
/// `alac`
pub open spec fn tag_alac() -> Seq<u8> { seq![97u8, 108u8, 97u8, 99u8] }
/// `enca`
pub open spec fn tag_enca() -> Seq<u8> { seq![101u8, 110u8, 99u8, 97u8] }

/// The child atom searched for inside the container of each level:
/// 0 = `moov` holds `trak`, 1 = `trak` holds `mdia`, 2 = `mdia` holds `minf`,
/// 3 = `minf` holds `stbl`, 4 = `stbl` holds `stsd`.
pub open spec fn child_tag(level: nat) -> Seq<u8> {
    if level == 0 {
        seq![116u8, 114u8, 97u8, 107u8]
    } else if level == 1 {
        seq![109u8, 100u8, 105u8, 97u8]
    } else if level == 2 {
        seq![109u8, 105u8, 110u8, 102u8]
    } else if level == 3 {
        seq![115u8, 116u8, 98u8, 108u8]
    } else {
        seq![115u8, 116u8, 115u8, 100u8]
    }
}

/// The outcome of checking the `ftyp` atom at the start of `d`.
pub open spec fn spec_check_ftyp(d: Seq<u8>) -> Result<(), AtomFail> {
    if d.len() < 8 {
        Err(short_read())
    } else if !has_tag(d, 4, tag_ftyp()) {
        Err(bad("Geçersiz MP4 dosyası: ftyp atomu bulunamadı"@))
    } else if be32(d, 0) < 12 {
        Err(bad("Geçersiz ftyp atom boyutu"@))
    } else if d.len() < 12 {
        Err(short_read())
    } else if !(has_tag(d, 8, brand_m4a()) || has_tag(d, 8, brand_mp42()) || has_tag(d, 8, brand_isom())) {
        Err(bad("Beklenmeyen major brand: "@ + utf8_result_debug(d.subrange(8, 12))))
    } else {
        Ok(())
    }
}

/// The offset of the first top-level `moov` atom, walking the atom chain from `pos`.
pub open spec fn spec_find_moov(d: Seq<u8>, pos: int) -> Result<u64, AtomFail>
    decreases (if 0 <= pos < d.len() { d.len() - pos } else { 0 }),
{
    if pos < 0 || pos >= d.len() {
        Err((IoErrorKind::NotFound, "moov atomu bulunamadı (dosya sonu)"@))
    } else if pos + 8 > d.len() {
        Err((IoErrorKind::UnexpectedEof, "Dosya sonuna beklenenden erken ulaşıldı atom başlığı okunurken"@))
    } else if has_tag(d, pos + 4, tag_moov()) {
        Ok(pos as u64)
    } else {
        let size = be32(d, pos);
        if size == 0 {
            Err(bad("Geçersiz atom boyutu (0)"@))
        } else if size == 1 {
            if pos + 16 > d.len() {
                Err(short_read())
            } else {
                let large = be64(d, pos + 8);
                if large < 16 {
                    Err(bad("Geçersiz 64-bit atom boyutu"@))
                } else if pos + large > u64::MAX {
                    Err(bad("Sonraki ofset hesaplanırken taşma"@))
                } else {
                    spec_find_moov(d, pos + large)
                }
            }
        } else if size < 8 {
            Err(bad("Geçersiz atom boyutu"@))
        } else {
            spec_find_moov(d, pos + size)
        }
    }
}

/// The metadata of the `alac`/`enca` sample description at `off`.
pub open spec fn spec_alac_desc(d: Seq<u8>, off: int) -> Result<Option<AlacMetadata>, AtomFail> {
    if off < 0 || off + 32 > d.len() {
        Err(short_read())
    } else {
        Ok(
            Some(
                AlacMetadata {
                    sample_rate: be32(d, off + 28) as u32,
                    channels: d[off + 23],
                    bits_per_sample: d[off + 20],
                },
            ),
        )
    }
}

/// The outcome of walking `n` sample descriptions starting at `cur`.
pub open spec fn spec_stsd_entries(d: Seq<u8>, cur: int, n: nat) -> Result<Option<AlacMetadata>, AtomFail>
    decreases n,
{
    if n == 0 || cur < 0 || cur + 8 > d.len() {
        Ok(None)
    } else if has_tag(d, cur + 4, tag_alac()) || has_tag(d, cur + 4, tag_enca()) {
        spec_alac_desc(d, cur)
    } else if be32(d, cur) < 8 {
        Err(bad("Geçersiz giriş boyutu"@))
    } else {
        spec_stsd_entries(d, cur + be32(d, cur), (n - 1) as nat)
    }
}

/// The outcome of reading the `stsd` atom at `off`.
pub open spec fn spec_stsd(d: Seq<u8>, off: int) -> Result<Option<AlacMetadata>, AtomFail> {
    if off < 0 || off + 16 > d.len() {
        Err(short_read())
    } else {
        spec_stsd_entries(d, off + 16, be32(d, off + 12) as nat)
    }
}

pub open spec fn level_measure(level: nat) -> int {
    if level <= 4 { 5 - level } else { 0 }
}

/// The outcome of reading the container atom of `level` at `off`.
pub open spec fn spec_container(d: Seq<u8>, level: nat, off: int) -> Result<Option<AlacMetadata>, AtomFail>
    decreases level_measure(level), 1int, 0int,
{
    if level > 4 {
        Ok(None)
    } else if off < 0 || off + 8 > d.len() {
        Err(short_read())
    } else {
        spec_children(d, level, off + 8, off + be32(d, off))
    }
}

/// The outcome of walking the children of a `level` container from `cur` up to `end`.
pub open spec fn spec_children(d: Seq<u8>, level: nat, cur: int, end: int) -> Result<Option<AlacMetadata>, AtomFail>
    decreases level_measure(level), 0int, (if cur < end { end - cur } else { 0 }),
{
    if level > 4 || cur >= end || cur < 0 || cur + 8 > d.len() {
        Ok(None)
    } else {
        let size = be32(d, cur);
        let found = has_tag(d, cur + 4, child_tag(level));
        if found && level == 4 {
            spec_stsd(d, cur)
        } else {
            let sub = if found { spec_container(d, level + 1, cur) } else { Ok(None) };
            match sub {
                Err(e) => Err(e),
                Ok(Some(m)) => Ok(Some(m)),
                Ok(None) => {
                    if size == 0 {
                        if level == 0 { Ok(None) } else { Err(bad(bad_child_text(cur, size))) }
                    } else {
                        spec_children(d, level, cur + size, end)
                    }
                },
            }
        }
    }
}

/// What reading the whole file gives: the metadata, or the first error met.
pub open spec fn spec_alac_metadata(d: Seq<u8>) -> Result<Option<AlacMetadata>, AtomFail> {
    match spec_check_ftyp(d) {
        Err(e) => Err(e),
        Ok(_) => match spec_find_moov(d, 0) {
            Err(e) => Err(e),
            Ok(moov) => spec_container(d, 0, moov as int),
        },
    }
}

/// Checks the `ftyp` atom at the start of the file and its major brand.
pub fn check_ftyp_atom(data: &[u8]) -> (r: Result<(), AtomError>)
    ensures
        outcome(r) == spec_check_ftyp(data@),
{
    if data.len() < 8 {
        return Err(short_read_err());
    }
    let ftyp_size = read_be_u32(data, 0);
    if !tag_at(data, 4, [102u8, 116u8, 121u8, 112u8]) {
        return Err(bad_err("Geçersiz MP4 dosyası: ftyp atomu bulunamadı"));
    }
    if ftyp_size < 12 {
        return Err(bad_err("Geçersiz ftyp atom boyutu"));
    }
    if data.len() < 12 {
        return Err(short_read_err());
    }
    if !tag_at(data, 8, [77u8, 52u8, 65u8, 32u8]) && !tag_at(data, 8, [109u8, 112u8, 52u8, 50u8])
        && !tag_at(data, 8, [105u8, 115u8, 111u8, 109u8]) {
        let brand = vstd::slice::slice_subrange(data, 8, 12);
        let mut m = "Beklenmeyen major brand: ".to_owned();
        let d = utf8_debug(brand);
        m.append(d.as_str());
        return Err(AtomError { kind: IoErrorKind::InvalidData, message: m });
    }
    Ok(())
}

/// Walks the top-level atoms and returns the offset of the `moov` atom.
pub fn find_moov_atom(data: &[u8]) -> (r: Result<u64, AtomError>)
    requires
        data@.len() <= 0x7fff_ffff_ffff_ffff,
    ensures
        outcome(r) == spec_find_moov(data@, 0),
{
    let len = data.len() as u64;
    let mut pos: u64 = 0;
    while pos < len
        invariant
            len == data@.len(),
            data@.len() <= usize::MAX,
            data@.len() <= 0x7fff_ffff_ffff_ffff,
            spec_find_moov(data@, pos as int) == spec_find_moov(data@, 0),
        decreases (if pos < len { len - pos } else { 0 }),
    {
        let p = pos as usize;
        if len - pos < 8 {
            return Err(AtomError {
                kind: IoErrorKind::UnexpectedEof,
                message: "Dosya sonuna beklenenden erken ulaşıldı atom başlığı okunurken".to_owned(),
            });
        }
        if tag_at(data, p + 4, [109u8, 111u8, 111u8, 118u8]) {
            return Ok(pos);
        }
        let atom_size = read_be_u32(data, p);
        if atom_size == 0 {
            return Err(bad_err("Geçersiz atom boyutu (0)"));
        }
        if atom_size == 1 {
            if len - pos < 16 {
                return Err(short_read_err());
            }
            let large = read_be_u64(data, p + 8);
            if large < 16 {
                return Err(bad_err("Geçersiz 64-bit atom boyutu"));
            }
            match pos.checked_add(large) {
                None => {
                    return Err(bad_err("Sonraki ofset hesaplanırken taşma"));
                },
                Some(next) => {
                    pos = next;
                },
            }
        } else {
            if atom_size < 8 {
                return Err(bad_err("Geçersiz atom boyutu"));
            }
            pos = pos + atom_size as u64;
        }
    }
    Err(AtomError { kind: IoErrorKind::NotFound, message: "moov atomu bulunamadı (dosya sonu)".to_owned() })
}

/// Reads the `alac`/`enca` sample description at `off`.
pub fn read_alac_desc_data(data: &[u8], off: u64) -> (r: Result<Option<AlacMetadata>, AtomError>)
    ensures
        outcome(r) == spec_alac_desc(data@, off as int),
{
    let len = data.len() as u64;
    if off > len || len - off < 32 {
        return Err(short_read_err());
    }
    let o = off as usize;
    let bits_per_sample = data[o + 20];
    let channels = data[o + 23];
    let sample_rate = read_be_u32(data, o + 28);
    Ok(Some(AlacMetadata { sample_rate, channels, bits_per_sample }))
}

/// The 32 bytes of an ALAC sample description that carries `m`: the bytes before the sample
/// size (`head`, 20 bytes), the sample size, the two bytes after it (`mid`), the channel count,
/// the four bytes after it (`pad`), and the sample rate, big-endian.
pub open spec fn alac_desc_bytes(m: AlacMetadata, head: Seq<u8>, mid: Seq<u8>, pad: Seq<u8>) -> Seq<u8> {
    head + seq![m.bits_per_sample] + mid + seq![m.channels] + pad + be32_bytes(m.sample_rate as int)
}

/// Reading a sample description written with `alac_desc_bytes`, wherever it stands in the
/// data, gives back the sample rate, channel count and sample size that were written: the
/// sample size is byte 20 of the description, the channel count byte 23, the rate bytes 28..32.
pub proof fn lemma_alac_desc_reads_written(
    pre: Seq<u8>,
    m: AlacMetadata,
    head: Seq<u8>,
    mid: Seq<u8>,
    pad: Seq<u8>,
    post: Seq<u8>,
)
    requires
        head.len() == 20,
        mid.len() == 2,
        pad.len() == 4,
    ensures
        spec_alac_desc(pre + alac_desc_bytes(m, head, mid, pad) + post, pre.len() as int) == Ok::<
            Option<AlacMetadata>,
            AtomFail,
        >(Some(m)),
{
    let w = alac_desc_bytes(m, head, mid, pad);
    let d = pre + w + post;
    let o = pre.len() as int;
    assert(w.len() == 32);
    assert(d[o + 20] == w[20]);
    assert(d[o + 23] == w[23]);
    assert(w[20] == m.bits_per_sample);
    assert(w[23] == m.channels);
    assert(d.subrange(o + 28, o + 32) =~= be32_bytes(m.sample_rate as int));
    lemma_be32_of_bytes(d, o + 28, m.sample_rate as int);
}

/// Reads the `stsd` atom at `off` and the ALAC description among its entries.
pub fn process_stsd_atom(data: &[u8], off: u64) -> (r: Result<Option<AlacMetadata>, AtomError>)
    requires
        data@.len() <= 0x7fff_ffff_ffff_ffff,
    ensures
        outcome(r) == spec_stsd(data@, off as int),
{
    let len = data.len() as u64;
    if off > len || len - off < 16 {
        return Err(short_read_err());
    }
    let entry_count = read_be_u32(data, off as usize + 12);
    let mut cur: u64 = off + 16;
    let mut i: u32 = 0;
    while i < entry_count
        invariant
            len == data@.len(),
            data@.len() <= usize::MAX,
            i <= entry_count,
            data@.len() <= 0x7fff_ffff_ffff_ffff,
            cur <= data@.len() + 0x1_0000_0000,
            spec_stsd_entries(data@, cur as int, (entry_count - i) as nat)
                == spec_stsd(data@, off as int),
        decreases entry_count - i,
    {
        if cur > len || len - cur < 8 {
            return Ok(None);
        }
        let c = cur as usize;
        if tag_at(data, c + 4, [97u8, 108u8, 97u8, 99u8]) || tag_at(data, c + 4, [101u8, 110u8, 99u8, 97u8]) {
            return read_alac_desc_data(data, cur);
        }
        let entry_size = read_be_u32(data, c);
        if entry_size < 8 {
            return Err(bad_err("Geçersiz giriş boyutu"));
        }
        cur = cur + entry_size as u64;
        i = i + 1;
    }
    Ok(None)
}

/// Reads the container atom of `level` at `off` and searches its children.
fn process_container(data: &[u8], level: u8, off: u64) -> (r: Result<Option<AlacMetadata>, AtomError>)
    requires
        level <= 4,
        data@.len() <= 0x7fff_ffff_ffff_ffff,
    ensures
        outcome(r) == spec_container(data@, level as nat, off as int),
    decreases level_measure(level as nat), 1int, 0int,
{
    let len = data.len() as u64;
    if off > len || len - off < 8 {
        return Err(short_read_err());
    }
    let size = read_be_u32(data, off as usize) as u64;
    scan_children(data, level, off + 8, off + size)
}

/// Walks the children of a `level` container from `cur` up to `end`.
fn scan_children(data: &[u8], level: u8, cur0: u64, end: u64) -> (r: Result<Option<AlacMetadata>, AtomError>)
    requires
        level <= 4,
        data@.len() <= 0x7fff_ffff_ffff_ffff,
        cur0 <= data@.len() + 8,
    ensures
        outcome(r) == spec_children(data@, level as nat, cur0 as int, end as int),
    decreases level_measure(level as nat), 0int, (if cur0 < end { end - cur0 } else { 0 }),
{
    let len = data.len() as u64;
    let mut cur = cur0;
    while cur < end
        invariant
            len == data@.len(),
            data@.len() <= usize::MAX,
            level <= 4,
            data@.len() <= 0x7fff_ffff_ffff_ffff,
            cur0 <= cur,
            cur <= data@.len() + 0x1_0000_0000,
            spec_children(data@, level as nat, cur as int, end as int)
                == spec_children(data@, level as nat, cur0 as int, end as int),
        decreases (if cur < end { end - cur } else { 0 }),
    {
        if cur > len || len - cur < 8 {
            return Ok(None);
        }
        let c = cur as usize;
        let size = read_be_u32(data, c) as u64;
        let target: [u8; 4] = if level == 0 {
            [116u8, 114u8, 97u8, 107u8]
        } else if level == 1 {
            [109u8, 100u8, 105u8, 97u8]
        } else if level == 2 {
            [109u8, 105u8, 110u8, 102u8]
        } else if level == 3 {
            [115u8, 116u8, 98u8, 108u8]
        } else {
            [115u8, 116u8, 115u8, 100u8]
        };
        assert(target@ == child_tag(level as nat));
        let found = tag_at(data, c + 4, target);
        if found && level == 4 {
            return process_stsd_atom(data, cur);
        }
        if found {
            match process_container(data, level + 1, cur) {
                Err(e) => {
                    return Err(e);
                },
                Ok(Some(m)) => {
                    return Ok(Some(m));
                },
                Ok(None) => {},
            }
        }
        if size == 0 {
            if level == 0 {
                return Ok(None);
            } else {
                return Err(bad_child_err(cur, size));
            }
        }
        cur = cur + size;
    }
    Ok(None)
}

/// Reads the `moov` atom at `off` and searches its `trak` atoms.
pub fn process_moov_atom(data: &[u8], off: u64) -> (r: Result<Option<AlacMetadata>, AtomError>)
    requires
        data@.len() <= 0x7fff_ffff_ffff_ffff,
    ensures
        outcome(r) == spec_container(data@, 0, off as int),
{
    process_container(data, 0, off)
}

/// Reads the `trak` atom at `off` and searches its `mdia` atoms.
pub fn process_trak_atom(data: &[u8], off: u64) -> (r: Result<Option<AlacMetadata>, AtomError>)
    requires
        data@.len() <= 0x7fff_ffff_ffff_ffff,
    ensures
        outcome(r) == spec_container(data@, 1, off as int),
{
    process_container(data, 1, off)
}

/// Reads the `mdia` atom at `off` and searches its `minf` atoms.
pub fn process_mdia_atom(data: &[u8], off: u64) -> (r: Result<Option<AlacMetadata>, AtomError>)
    requires
        data@.len() <= 0x7fff_ffff_ffff_ffff,
    ensures
        outcome(r) == spec_container(data@, 2, off as int),
{
    process_container(data, 2, off)
}

/// Reads the `minf` atom at `off` and searches its `stbl` atoms.
pub fn process_minf_atom(data: &[u8], off: u64) -> (r: Result<Option<AlacMetadata>, AtomError>)
    requires
        data@.len() <= 0x7fff_ffff_ffff_ffff,
    ensures
        outcome(r) == spec_container(data@, 3, off as int),
{
    process_container(data, 3, off)
}

/// Reads the `stbl` atom at `off` and the `stsd` atom inside it.
pub fn process_stbl_atom(data: &[u8], off: u64) -> (r: Result<Option<AlacMetadata>, AtomError>)
    requires
        data@.len() <= 0x7fff_ffff_ffff_ffff,
    ensures
        outcome(r) == spec_container(data@, 4, off as int),
{
    process_container(data, 4, off)
}

/// The error a failed read of the file reports: an I/O error with the atom error's message.
pub fn io_error_of(e: AtomError) -> (r: FileSystemError)
    ensures
        r matches FileSystemError::IOError(m) && m@ == "IO Error: "@ + e.message@,
{
    let mut m = "IO Error: ".to_owned();
    m.append(e.message.as_str());
    FileSystemError::IOError(m)
}

/// Reads the ALAC metadata of a file's bytes: the `ftyp` atom is checked, the `moov` atom
/// found, and the first ALAC sample description in its tracks read.
pub fn read_alac_metadata_from_bytes(data: &[u8]) -> (r: Result<AlacMetadata, FileSystemError>)
    requires
        data@.len() <= 0x7fff_ffff_ffff_ffff,
    ensures
        match spec_alac_metadata(data@) {
            Ok(Some(m)) => r == Ok::<AlacMetadata, FileSystemError>(m),
            Ok(None) => r matches Err(FileSystemError::Other(msg)) && msg@ == "ALAC meta verileri bulunamadı"@,
            Err(k) => r matches Err(FileSystemError::IOError(msg)) && msg@ == "IO Error: "@ + k.1,
        },
{
    match check_ftyp_atom(data) {
        Ok(_) => {},
        Err(k) => return Err(io_error_of(k)),
    }
    let moov = match find_moov_atom(data) {
        Ok(m) => m,
        Err(k) => return Err(io_error_of(k)),
    };
    match process_moov_atom(data, moov) {
        Ok(Some(m)) => Ok(m),
        Ok(None) => Err(FileSystemError::Other("ALAC meta verileri bulunamadı".to_owned())),
        Err(k) => Err(io_error_of(k)),
    }
}

} // verus!
