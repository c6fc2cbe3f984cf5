//! A decoder of raw 16-bit little-endian samples, standing in for an AAC decoder, and the
//! reading of all samples of a file.
use vstd::prelude::*;
use crate::bytes::{le16, read_le_u16};
use crate::docx::{debug_string, str_debug};
use crate::error::FileSystemError;
use vstd::string::StringExecFns;

verus! {

/// What can go wrong while decoding.
#[derive(Debug, Clone, PartialEq, Eq)]
pub enum DecodeError {
    InvalidData,
    Other(String),
}

/// A decoded frame: its samples.
#[derive(Debug)]
pub enum Frame {
    Short(Vec<i16>),
}

/// A decoder over the bytes of a stream, with the position of the next frame.
pub struct Decoder<'a> {
    data: &'a [u8],
    position: usize,
}

/// The signed 16-bit value of the bits `u`.
pub open spec fn signed16(u: int) -> i16 {
    if u < 32768 {
        u as i16
    } else {
        (u - 65536) as i16
    }
}

/// The samples of `d`: a little-endian 16-bit value for each whole pair of bytes.
pub open spec fn samples_of(d: Seq<u8>) -> Seq<i16> {
    Seq::new(d.len() / 2, |i: int| signed16(le16(d, 2 * i)))
}

impl<'a> Decoder<'a> {
    pub closed spec fn bytes(&self) -> Seq<u8> {
        self.data@
    }

    pub closed spec fn position(&self) -> usize {
        self.position
    }

    /// A decoder at the start of `data`; an empty stream is invalid data.
    pub fn new(data: &'a [u8]) -> (r: Result<Self, DecodeError>)
        ensures
            data@.len() == 0 ==> r == Err::<Self, DecodeError>(DecodeError::InvalidData),
            data@.len() > 0 ==> (r matches Ok(d) && d.bytes() == data@ && d.position() == 0),
    {
        if data.len() == 0 {
            return Err(DecodeError::InvalidData);
        }
        Ok(Decoder { data, position: 0 })
    }

    /// The next frame: one sample from the next two bytes; none once fewer than two are left,
    /// and the decoder then stands at the end.
    pub fn decode_frame(&mut self) -> (r: Result<Option<Frame>, DecodeError>)
        ensures
            final(self).bytes() == old(self).bytes(),
            ({
                let p = old(self).position() as int;
                let d = old(self).bytes();
                &&& p + 1 < d.len() ==> (r matches Ok(Some(Frame::Short(v))) && v@ == seq![
                    signed16(le16(d, p)),
                ] && final(self).position() == p + 2)
                &&& p + 1 >= d.len() ==> (r matches Ok(None) && final(self).position() == (if p
                    >= d.len() {
                    p
                } else {
                    d.len() as int
                }))
            }),
    {
        let n = self.data.len();
        if self.position >= n {
            return Ok(None);
        }
        if self.position + 1 < n {
            let u = read_le_u16(self.data, self.position);
            let sample: i16 = if u < 32768 {
                u as i16
            } else {
                (u as i32 - 65536) as i16
            };
            self.position = self.position + 2;
            let mut v: Vec<i16> = Vec::new();
            v.push(sample);
            Ok(Some(Frame::Short(v)))
        } else {
            self.position = n;
            Ok(None)
        }
    }
}

/// What `{:?}` prints for a decoding error.
pub open spec fn decode_error_debug(e: DecodeError) -> Seq<char> {
    match e {
        DecodeError::InvalidData => "InvalidData"@,
        DecodeError::Other(m) => "Other("@ + str_debug(m@) + ")"@,
    }
}

/// A decoding error as a file system error that names it.
pub fn map_decode_error_to_fs_error(e: DecodeError) -> (r: FileSystemError)
    ensures
        r matches FileSystemError::Other(m) && m@ == "Decoding Error: "@ + decode_error_debug(e),
{
    let mut m = "Decoding Error: ".to_owned();
    match e {
        DecodeError::InvalidData => m.append("InvalidData"),
        DecodeError::Other(s) => {
            m.append("Other(");
            let d = debug_string(s.as_str());
            m.append(d.as_str());
            m.append(")");
        },
    }
    FileSystemError::Other(m)
}

/// The samples of a stream: every frame decoded until none is left. An empty stream cannot be
/// decoded.
pub fn decode_samples(data: &[u8]) -> (r: Result<Vec<i16>, FileSystemError>)
    ensures
        data@.len() == 0 ==> (r matches Err(FileSystemError::Other(m)) && m@
            == "Decoding Error: InvalidData"@),
        data@.len() > 0 ==> (r matches Ok(v) && v@ == samples_of(data@)),
{
    let mut decoder = match Decoder::new(data) {
        Ok(d) => d,
        Err(e) => {
            proof {
                reveal_strlit("Decoding Error: ");
                reveal_strlit("InvalidData");
                reveal_strlit("Decoding Error: InvalidData");
                assert("Decoding Error: "@ + "InvalidData"@ =~= "Decoding Error: InvalidData"@);
            }
            return Err(map_decode_error_to_fs_error(e));
        },
    };
    let mut samples: Vec<i16> = Vec::new();
    loop
        invariant
            decoder.bytes() == data@,
            decoder.position() % 2 == 0 || decoder.position() >= data@.len(),
            decoder.position() <= data@.len() + 1,
            decoder.position() < data@.len() ==> samples@ == samples_of(data@).take(
                decoder.position() as int / 2,
            ),
            decoder.position() >= data@.len() ==> samples@ == samples_of(data@),
        ensures
            samples@ == samples_of(data@),
        decreases data@.len() + 2 - decoder.position(),
    {
        let ghost before = samples@;
        let ghost p = decoder.position() as int;
        match decoder.decode_frame() {
            Ok(Some(Frame::Short(v))) => {
                samples.push(v[0]);
                proof {
                    assert(samples_of(data@)[p / 2] == signed16(le16(data@, p)));
                    assert(samples_of(data@).take(p / 2 + 1) =~= before.push(v@[0]));
                    if decoder.position() >= data@.len() {
                        assert(samples_of(data@).take(p / 2 + 1) =~= samples_of(data@));
                    }
                }
            },
            Ok(None) => {
                proof {
                    if p < data@.len() {
                        assert(samples_of(data@).take(p / 2) =~= samples_of(data@));
                    }
                }
                break;
            },
            Err(e) => {
                return Err(map_decode_error_to_fs_error(e));
            },
        }
    }
    Ok(samples)
}

} // verus!
