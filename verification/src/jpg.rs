//! Reading the image size out of a baseline JPEG: the segments after SOI are skipped up to
//! the SOF0 segment, whose header gives height and width.
use vstd::prelude::*;
use crate::bytes::{be16, be16_bytes, byteorder_be_u16, lemma_be16_of_bytes};
use crate::cursor::ByteCursor;
use crate::error::FileSystemError;
use crate::resource::Handle;
use crate::text::{decimal, hex_byte, push_decimal, push_hex_byte};
use vstd::string::StringExecFns;

verus! {

/// Width and height of a JPEG image.
#[derive(Debug, Clone, Copy, PartialEq, Eq, Structural)]
pub struct JpegImage {
    pub width: u32,
    pub height: u32,
}

/// What can go wrong while reading a JPEG header.
#[derive(Debug, Clone, PartialEq)]
pub enum JpegError {
    /// The data ended while reading the part named by the string.
    UnexpectedEof(String),
    /// A segment did not start with `0xFF`.
    InvalidMarker([u8; 2]),
    /// The data did not start with `FF D8`.
    InvalidSOIMarker([u8; 2]),
    /// A segment length below the minimum of its kind (named by the string).
    InvalidSegmentLength(u16, String),
    /// EOI came before any SOF0 segment.
    SOF0NotFound,
    /// SOF0 gave a width or height of 0.
    InvalidDimensions,
    /// Seeking to the position failed.
    SeekError(u64),
}

/// Where in the stream the data ran out.
pub enum EofPart {
    Soi,
    Marker,
    Length,
    Dimensions,
}

/// The outcome of reading a JPEG header, without the message texts.
pub enum JpegStep {
    /// Width, height, and the position just past the SOF0 segment.
    Done(u32, u32, int),
    Eof(EofPart),
    BadSoi(u8, u8),
    BadMarker(u8, u8),
    /// The length read, and whether it was the SOF0 segment's.
    BadLength(u16, bool),
    NoSof0,
    BadDims,
}

pub open spec fn eof_part_name(p: EofPart) -> Seq<char> {
    match p {
        EofPart::Soi => "SOI marker"@,
        EofPart::Marker => "segment marker"@,
        EofPart::Length => "segment length"@,
        EofPart::Dimensions => "SOF0 dimensions"@,
    }
}

/// The message a short read of the underlying reader gives (`read_exact` running out of
/// data), as the reader's error is passed on: its kind and message, printed with `{:?}`.
pub open spec fn reader_eof_text() -> Seq<char> {
    "CoreIOError: Error { kind: UnexpectedEof, message: \"failed to fill whole buffer\" }"@
}

/// Whether running out of data at `p` is the reader's own short read (reading SOI or a
/// segment length), rather than one the parser names.
pub open spec fn reader_eof(p: EofPart) -> bool {
    p is Soi || p is Length
}

/// The segments from `pos` on, up to SOF0 or the first error.
pub open spec fn jpeg_segments(d: Seq<u8>, pos: int) -> JpegStep
    decreases (if 0 <= pos < d.len() { d.len() - pos } else { 0 }),
{
    if pos < 0 || pos + 2 > d.len() {
        JpegStep::Eof(EofPart::Marker)
    } else if d[pos] != 0xFF {
        JpegStep::BadMarker(d[pos], d[pos + 1])
    } else if d[pos + 1] == 0xC0 {
        if pos + 4 > d.len() {
            JpegStep::Eof(EofPart::Length)
        } else if be16(d, pos + 2) < 8 {
            JpegStep::BadLength(be16(d, pos + 2) as u16, true)
        } else if pos + 9 > d.len() {
            JpegStep::Eof(EofPart::Dimensions)
        } else if be16(d, pos + 5) == 0 || be16(d, pos + 7) == 0 {
            JpegStep::BadDims
        } else {
            JpegStep::Done(be16(d, pos + 7) as u32, be16(d, pos + 5) as u32, pos + 2 + be16(d, pos + 2))
        }
    } else if d[pos + 1] == 0xD9 {
        JpegStep::NoSof0
    } else if pos + 4 > d.len() {
        JpegStep::Eof(EofPart::Length)
    } else if be16(d, pos + 2) < 2 {
        JpegStep::BadLength(be16(d, pos + 2) as u16, false)
    } else {
        jpeg_segments(d, pos + 2 + be16(d, pos + 2))
    }
}

/// The JPEG header read from `pos`: SOI, then the segments.
pub open spec fn jpeg_header(d: Seq<u8>, pos: int) -> JpegStep {
    if pos < 0 || pos + 2 > d.len() {
        JpegStep::Eof(EofPart::Soi)
    } else if d[pos] != 0xFF || d[pos + 1] != 0xD8 {
        JpegStep::BadSoi(d[pos], d[pos + 1])
    } else {
        jpeg_segments(d, pos + 2)
    }
}

/// A SOF0 segment: marker `FF C0`, its length, the sample precision, then the height and the
/// width, each big-endian.
pub open spec fn sof0_bytes(len: u16, precision: u8, height: u16, width: u16) -> Seq<u8> {
    seq![0xFFu8, 0xC0u8] + be16_bytes(len as int) + seq![precision] + be16_bytes(height as int)
        + be16_bytes(width as int)
}

/// In a JPEG whose first segment after SOI is SOF0, the height is read from the two bytes after
/// the precision and the width from the two after those; the header ends where the segment
/// length says.
pub proof fn lemma_sof0_dimensions_read(len: u16, precision: u8, height: u16, width: u16, rest: Seq<u8>)
    requires
        len >= 8,
        height > 0,
        width > 0,
    ensures
        jpeg_header(seq![0xFFu8, 0xD8u8] + sof0_bytes(len, precision, height, width) + rest, 0)
            == JpegStep::Done(width as u32, height as u32, 4 + len as int),
{
    let w = sof0_bytes(len, precision, height, width);
    let d = seq![0xFFu8, 0xD8u8] + w + rest;
    assert(w.len() == 9);
    assert(d[0] == 0xFF && d[1] == 0xD8 && d[2] == 0xFF && d[3] == 0xC0);
    assert(d.subrange(4, 6) =~= be16_bytes(len as int));
    assert(d.subrange(7, 9) =~= be16_bytes(height as int));
    assert(d.subrange(9, 11) =~= be16_bytes(width as int));
    lemma_be16_of_bytes(d, 4, len as int);
    lemma_be16_of_bytes(d, 7, height as int);
    lemma_be16_of_bytes(d, 9, width as int);
}

/// Where the reader stands after reading the segments from `pos`, on success or failure: a
/// read that runs out of data leaves it at the end of the data, as `read_exact` on a cursor
/// does; otherwise it is just past the bytes read, and past a skipped segment.
pub open spec fn segments_end(d: Seq<u8>, pos: int) -> int
    decreases (if 0 <= pos < d.len() { d.len() - pos } else { 0 }),
{
    if pos < 0 || pos + 2 > d.len() {
        d.len() as int
    } else if d[pos] != 0xFF {
        pos + 2
    } else if d[pos + 1] == 0xC0 {
        if pos + 4 > d.len() {
            d.len() as int
        } else if be16(d, pos + 2) < 8 {
            pos + 4
        } else if pos + 9 > d.len() {
            d.len() as int
        } else {
            pos + 2 + be16(d, pos + 2)
        }
    } else if d[pos + 1] == 0xD9 {
        pos + 2
    } else if pos + 4 > d.len() {
        d.len() as int
    } else if be16(d, pos + 2) < 2 {
        pos + 4
    } else {
        segments_end(d, pos + 2 + be16(d, pos + 2))
    }
}

/// Where the reader stands after reading a header from `pos`, on success or failure.
pub open spec fn header_end(d: Seq<u8>, pos: int) -> int {
    if pos < 0 || pos + 2 > d.len() {
        d.len() as int
    } else if d[pos] != 0xFF || d[pos + 1] != 0xD8 {
        pos + 2
    } else {
        segments_end(d, pos + 2)
    }
}

proof fn lemma_segments_end_done(d: Seq<u8>, pos: int)
    ensures
        jpeg_segments(d, pos) matches JpegStep::Done(_, _, e) ==> segments_end(d, pos) == e,
    decreases (if 0 <= pos < d.len() { d.len() - pos } else { 0 }),
{
    if 0 <= pos && pos + 2 <= d.len() && d[pos] == 0xFF && d[pos + 1] != 0xC0 && d[pos + 1] != 0xD9
        && pos + 4 <= d.len() && be16(d, pos + 2) >= 2 {
        lemma_segments_end_done(d, pos + 2 + be16(d, pos + 2));
    }
}

/// The `JpegError` that stands for a failed step.
pub open spec fn error_matches(e: JpegError, s: JpegStep) -> bool {
    match s {
        JpegStep::Done(_, _, _) => false,
        JpegStep::Eof(p) => !reader_eof(p) && (e matches JpegError::UnexpectedEof(m) && m@
            == eof_part_name(p)),
        JpegStep::BadSoi(a, b) => e matches JpegError::InvalidSOIMarker(m) && m@ == seq![a, b],
        JpegStep::BadMarker(a, b) => e matches JpegError::InvalidMarker(m) && m@ == seq![a, b],
        JpegStep::BadLength(l, sof0) => e matches JpegError::InvalidSegmentLength(n, name) && n == l
            && name@ == (if sof0 { "SOF0"@ } else { "unknown"@ }),
        JpegStep::NoSof0 => e == JpegError::SOF0NotFound,
        JpegStep::BadDims => e == JpegError::InvalidDimensions,
    }
}

/// The text of a `JpegError`.
pub open spec fn jpeg_error_text(e: JpegError) -> Seq<char> {
    match e {
        JpegError::UnexpectedEof(s) => "Beklenmeden erken dosya sonu ("@ + s@ + " okurken)"@,
        JpegError::InvalidMarker(m) => "Geçersiz JPEG marker: "@ + hex_byte(m@[0]) + hex_byte(m@[1]),
        JpegError::InvalidSOIMarker(m) => "Geçersiz SOI marker: "@ + hex_byte(m@[0]) + hex_byte(m@[1]),
        JpegError::InvalidSegmentLength(l, s) => "Geçersiz "@ + s@ + " segment uzunluğu: "@ + decimal(l as nat),
        JpegError::SOF0NotFound => "SOF0 markerı EOI'dan önce bulunamadı"@,
        JpegError::InvalidDimensions => "Resim boyutları ayrıştırılamadı (0 veya geçersiz)"@,
        JpegError::SeekError(p) => "Seek hatası pozisyon: "@ + decimal(p as nat),
    }
}

impl JpegError {
    /// The human-readable text of the error.
    pub fn message(&self) -> (r: String)
        ensures
            r@ == jpeg_error_text(*self),
    {
        match self {
            JpegError::UnexpectedEof(s) => {
                let mut m = "Beklenmeden erken dosya sonu (".to_owned();
                m.append(s.as_str());
                m.append(" okurken)");
                m
            },
            JpegError::InvalidMarker(b) => {
                let mut m = "Geçersiz JPEG marker: ".to_owned();
                push_hex_byte(&mut m, b[0]);
                push_hex_byte(&mut m, b[1]);
                m
            },
            JpegError::InvalidSOIMarker(b) => {
                let mut m = "Geçersiz SOI marker: ".to_owned();
                push_hex_byte(&mut m, b[0]);
                push_hex_byte(&mut m, b[1]);
                m
            },
            JpegError::InvalidSegmentLength(l, s) => {
                let mut m = "Geçersiz ".to_owned();
                m.append(s.as_str());
                m.append(" segment uzunluğu: ");
                push_decimal(&mut m, *l as u64);
                m
            },
            JpegError::SOF0NotFound => "SOF0 markerı EOI'dan önce bulunamadı".to_owned(),
            JpegError::InvalidDimensions => "Resim boyutları ayrıştırılamadı (0 veya geçersiz)".to_owned(),
            JpegError::SeekError(p) => {
                let mut m = "Seek hatası pozisyon: ".to_owned();
                push_decimal(&mut m, *p);
                m
            },
        }
    }
}

/// The `FileSystemError` a `JpegError` is reported as: stream errors as `IOError`,
/// the rest as `InvalidData`.
pub open spec fn jpeg_fs_error(e: JpegError) -> (bool, Seq<char>) {
    match e {
        JpegError::UnexpectedEof(_) => (true, "JPEG IO hatası: "@ + jpeg_error_text(e)),
        JpegError::SeekError(_) => (true, "JPEG IO hatası: "@ + jpeg_error_text(e)),
        _ => (false, "JPEG ayrıştırma hatası: "@ + jpeg_error_text(e)),
    }
}

/// Converts a `JpegError` to a `FileSystemError`.
pub fn map_jpeg_error_to_fs_error(e: JpegError) -> (r: FileSystemError)
    ensures
        jpeg_fs_error(e).0 ==> (r matches FileSystemError::IOError(m) && m@ == jpeg_fs_error(e).1),
        !jpeg_fs_error(e).0 ==> (r matches FileSystemError::InvalidData(m) && m@ == jpeg_fs_error(e).1),
{
    match e {
        JpegError::UnexpectedEof(_) | JpegError::SeekError(_) => {
            let mut m = "JPEG IO hatası: ".to_owned();
            m.append(e.message().as_str());
            FileSystemError::IOError(m)
        },
        _ => {
            let mut m = "JPEG ayrıştırma hatası: ".to_owned();
            m.append(e.message().as_str());
            FileSystemError::InvalidData(m)
        },
    }
}

/// A JPEG header reader over an in-memory byte source.
pub struct JpegParser {
    pub reader: ByteCursor,
    pub handle: Option<Handle>,
    pub file_size: u64,
}

impl JpegParser {
    /// A parser that reads `reader`; `handle` is the resource the bytes came from, if any.
    pub fn from_reader(reader: ByteCursor, handle: Option<Handle>, file_size: u64) -> (r: Self)
        ensures
            r.reader == reader,
            r.handle == handle,
            r.file_size == file_size,
    {
        JpegParser { reader, handle, file_size }
    }

    /// Reads SOI and the segments up to SOF0 and returns the image size. On success the
    /// reader stands just past the SOF0 segment.
    pub fn parse_header(&mut self) -> (r: Result<JpegImage, FileSystemError>)
        requires
            old(self).reader.bytes().len() <= 0x7fff_ffff_ffff_ffff,
        ensures
            final(self).reader.bytes() == old(self).reader.bytes(),
            final(self).handle == old(self).handle,
            final(self).file_size == old(self).file_size,
            header_outcome(
                jpeg_header(old(self).reader.bytes(), old(self).reader.position() as int),
                r,
            ),
            jpeg_header(old(self).reader.bytes(), old(self).reader.position() as int) matches JpegStep::Done(
                _,
                _,
                end,
            ) ==> final(self).reader.position() == end,
            final(self).reader.position() == header_end(
                old(self).reader.bytes(),
                old(self).reader.position() as int,
            ),
    {
        let start = match self.reader.stream_position() {
            Ok(p) => p,
            Err(_) => 0,
        };
        proof {
            if start + 2 <= self.reader.bytes().len() {
                lemma_segments_end_done(self.reader.bytes(), start + 2);
            }
        }
        match read_header(self.reader.get_ref(), start) {
            Ok((img, end)) => {
                self.reader.set_position(end);
                Ok(img)
            },
            Err((Some(e), end)) => {
                proof {
                    lemma_error_text(e, jpeg_header(self.reader.bytes(), start as int));
                }
                self.reader.set_position(end);
                Err(map_jpeg_error_to_fs_error(e))
            },
            Err((None, end)) => {
                self.reader.set_position(end);
                Err(FileSystemError::IOError(
                    "CoreIOError: Error { kind: UnexpectedEof, message: \"failed to fill whole buffer\" }".to_owned(),
                ))
            },
        }
    }
}

/// The message of the error that a failed step is reported with.
pub open spec fn step_text(s: JpegStep) -> Seq<char> {
    match s {
        JpegStep::Done(_, _, _) => Seq::empty(),
        JpegStep::Eof(p) => "Beklenmeden erken dosya sonu ("@ + eof_part_name(p) + " okurken)"@,
        JpegStep::BadSoi(a, b) => "Geçersiz SOI marker: "@ + hex_byte(a) + hex_byte(b),
        JpegStep::BadMarker(a, b) => "Geçersiz JPEG marker: "@ + hex_byte(a) + hex_byte(b),
        JpegStep::BadLength(l, sof0) => "Geçersiz "@ + (if sof0 {
            "SOF0"@
        } else {
            "unknown"@
        }) + " segment uzunluğu: "@ + decimal(l as nat),
        JpegStep::NoSof0 => "SOF0 markerı EOI'dan önce bulunamadı"@,
        JpegStep::BadDims => "Resim boyutları ayrıştırılamadı (0 veya geçersiz)"@,
    }
}

/// `r` is what reading a header with outcome `s` returns: the image size, or the error of
/// the failed step (a short read as `IOError`, any other failure as `InvalidData`). A short
/// read of SOI or of a segment length passes the reader's own error on.
pub open spec fn header_outcome(s: JpegStep, r: Result<JpegImage, FileSystemError>) -> bool {
    match s {
        JpegStep::Done(w, h, _) => r == Ok::<JpegImage, FileSystemError>(
            JpegImage { width: w, height: h },
        ),
        JpegStep::Eof(p) => r matches Err(FileSystemError::IOError(m)) && m@ == (if reader_eof(p) {
            reader_eof_text()
        } else {
            "JPEG IO hatası: "@ + step_text(s)
        }),
        _ => r matches Err(FileSystemError::InvalidData(m)) && m@ == "JPEG ayrıştırma hatası: "@
            + step_text(s),
    }
}

proof fn lemma_error_text(e: JpegError, s: JpegStep)
    requires
        error_matches(e, s),
    ensures
        jpeg_fs_error(e).0 == (s is Eof),
        jpeg_error_text(e) == step_text(s),
{
}

/// Reads the header from position `start` of `d`: the image and the position past SOF0.
/// `None` stands for the reader's own short read.
/// The second part of an error is where the reader stands after it.
fn read_header(d: &Vec<u8>, start: u64) -> (r: Result<(JpegImage, u64), (Option<JpegError>, u64)>)
    requires
        d@.len() <= 0x7fff_ffff_ffff_ffff,
    ensures
        match jpeg_header(d@, start as int) {
            JpegStep::Done(w, h, end) => r matches Ok((img, e)) && img == (JpegImage {
                width: w,
                height: h,
            }) && e == end,
            JpegStep::Eof(p) => if reader_eof(p) {
                r matches Err((None, _))
            } else {
                r matches Err((Some(e), _)) && error_matches(e, JpegStep::Eof(p))
            },
            step => r matches Err((Some(e), _)) && error_matches(e, step),
        },
        r matches Err((_, end)) ==> end == header_end(d@, start as int),
{
    let dlen: usize = d.len();
    let len = dlen as u64;
    if start > len || len - start < 2 {
        return Err((None, len));
    }
    let s = start as usize;
    if d[s] != 0xFF || d[s + 1] != 0xD8 {
        let m = [d[s], d[s + 1]];
        assert(m@ =~= seq![d@[s as int], d@[s + 1]]);
        return Err((Some(JpegError::InvalidSOIMarker(m)), start + 2));
    }
    let mut pos: u64 = start + 2;
    while pos < len
        invariant
            len == dlen,
            dlen == d@.len(),
            d@.len() <= 0x7fff_ffff_ffff_ffff,
            start + 2 <= pos <= len + 0x1_0002,
            jpeg_segments(d@, pos as int) == jpeg_header(d@, start as int),
            segments_end(d@, pos as int) == header_end(d@, start as int),
        decreases len + 0x1_0002 - pos,
    {
        if len - pos < 2 {
            return Err((Some(JpegError::UnexpectedEof("segment marker".to_owned())), len));
        }
        let p = pos as usize;
        let m0 = d[p];
        let m1 = d[p + 1];
        if m0 != 0xFF {
            let m = [m0, m1];
            assert(m@ =~= seq![m0, m1]);
            return Err((Some(JpegError::InvalidMarker(m)), pos + 2));
        }
        if m1 == 0xD9 {
            return Err((Some(JpegError::SOF0NotFound), pos + 2));
        }
        if len - pos < 4 {
            return Err((None, len));
        }
        let seg_len = byteorder_be_u16(&d.as_slice()[p + 2..p + 4]);
        assert(seg_len == be16(d@, p + 2)) by {
            assert(d@.subrange(p + 2, p + 4)[0] == d@[p + 2]);
            assert(d@.subrange(p + 2, p + 4)[1] == d@[p + 3]);
        }
        if m1 == 0xC0 {
            if seg_len < 8 {
                return Err((Some(JpegError::InvalidSegmentLength(seg_len, "SOF0".to_owned())), pos + 4));
            }
            if len - pos < 9 {
                return Err((Some(JpegError::UnexpectedEof("SOF0 dimensions".to_owned())), len));
            }
            let height = crate::bytes::read_be_u16(d.as_slice(), p + 5) as u32;
            let width = crate::bytes::read_be_u16(d.as_slice(), p + 7) as u32;
            if width == 0 || height == 0 {
                return Err((Some(JpegError::InvalidDimensions), pos + 2 + seg_len as u64));
            }
            let end = pos + 2 + seg_len as u64;
            return Ok((JpegImage { width, height }, end));
        }
        if seg_len < 2 {
            return Err((Some(JpegError::InvalidSegmentLength(seg_len, "unknown".to_owned())), pos + 4));
        }
        pos = pos + 2 + seg_len as u64;
    }
    Err((Some(JpegError::UnexpectedEof("segment marker".to_owned())), len))
}

/// Reads the image size of a JPEG file whose contents are `data`.
pub fn parse_jpeg_file(data: Vec<u8>) -> (r: Result<JpegImage, FileSystemError>)
    requires
        data@.len() <= 0x7fff_ffff_ffff_ffff,
    ensures
        header_outcome(jpeg_header(data@, 0), r),
{
    let file_size = data.len() as u64;
    let mut parser = JpegParser::from_reader(ByteCursor::new(data), None, file_size);
    parser.parse_header()
}

} // verus!
