//! Handles of Sahne64 kernel resources, and the reader that tracks a position in a resource of
//! known size.
use vstd::prelude::*;
use crate::blockdevice::SeekFrom;
use crate::error::IoErrorKind;

verus! {

/// A Sahne64 resource handle, as the kernel hands it out.
#[derive(Debug, Clone, Copy, PartialEq, Eq, Structural)]
pub struct Handle(pub u64);

/// A reader over a kernel resource of `file_size` bytes. It keeps the read position itself;
/// the bytes are fetched from the kernel at the offsets it gives.
#[derive(Debug)]
pub struct SahneResourceReader {
    handle: Handle,
    position: u64,
    file_size: u64,
}

/// `x` read as a 64-bit signed number, as `x as isize` gives it on a 64-bit target.
pub open spec fn as_signed(x: u64) -> int {
    if x <= i64::MAX {
        x as int
    } else {
        x - 0x1_0000_0000_0000_0000
    }
}

/// The position a seek leads to, or `None` where it is refused: a sum beyond the signed range
/// or a position below zero.
pub open spec fn reader_seek_target(position: u64, file_size: u64, pos: SeekFrom) -> Option<u64> {
    let target = match pos {
        SeekFrom::Start(o) => as_signed(o),
        SeekFrom::End(o) => as_signed(file_size) + o,
        SeekFrom::Current(o) => as_signed(position) + o,
    };
    if target < 0 || target > i64::MAX {
        None
    } else {
        Some(target as u64)
    }
}

impl SahneResourceReader {
    pub closed spec fn handle(&self) -> Handle {
        self.handle
    }

    pub closed spec fn position(&self) -> u64 {
        self.position
    }

    pub closed spec fn file_size(&self) -> u64 {
        self.file_size
    }

    /// A reader at the start of the resource `handle` of `file_size` bytes.
    pub fn new(handle: Handle, file_size: u64) -> (r: Self)
        ensures
            r.handle() == handle,
            r.position() == 0,
            r.file_size() == file_size,
    {
        SahneResourceReader { handle, position: 0, file_size }
    }

    /// The offset and the number of bytes that a read into a buffer of `buf_len` bytes
    /// fetches: nothing at or past the end, else as many as fit.
    pub fn read_span(&self, buf_len: usize) -> (r: (u64, usize))
        ensures
            r.0 == self.position(),
            self.position() >= self.file_size() ==> r.1 == 0,
            self.position() < self.file_size() ==> r.1 == (if buf_len < self.file_size() - self.position() {
                buf_len as int
            } else {
                self.file_size() - self.position()
            }),
    {
        if self.position >= self.file_size {
            return (self.position, 0);
        }
        let available = self.file_size - self.position;
        if (buf_len as u64) < available {
            (self.position, buf_len)
        } else {
            (self.position, available as usize)
        }
    }

    /// Moves the position past `bytes_read` bytes that a read fetched.
    pub fn advance(&mut self, bytes_read: usize)
        requires
            old(self).position() + bytes_read <= old(self).file_size(),
        ensures
            final(self).position() == old(self).position() + bytes_read,
            final(self).file_size() == old(self).file_size(),
            final(self).handle() == old(self).handle(),
    {
        self.position = self.position + bytes_read as u64;
    }

    /// Moves the position; a position past the end is allowed, one below zero or beyond the
    /// signed range is refused.
    pub fn seek(&mut self, pos: SeekFrom) -> (r: Result<u64, IoErrorKind>)
        ensures
            final(self).file_size() == old(self).file_size(),
            final(self).handle() == old(self).handle(),
            match reader_seek_target(old(self).position(), old(self).file_size(), pos) {
                Some(t) => r == Ok::<u64, IoErrorKind>(t) && final(self).position() == t,
                None => r == Err::<u64, IoErrorKind>(IoErrorKind::InvalidInput)
                    && final(self).position() == old(self).position(),
            },
    {
        let signed = |x: u64| -> (s: i128)
            ensures
                s == as_signed(x),
            {
                if x <= i64::MAX as u64 {
                    x as i128
                } else {
                    x as i128 - 0x1_0000_0000_0000_0000
                }
            };
        let target: i128 = match pos {
            SeekFrom::Start(o) => signed(o),
            SeekFrom::End(o) => signed(self.file_size) + o as i128,
            SeekFrom::Current(o) => signed(self.position) + o as i128,
        };
        if target < 0 || target > i64::MAX as i128 {
            return Err(IoErrorKind::InvalidInput);
        }
        self.position = target as u64;
        Ok(self.position)
    }

    /// The position, as a seek by nothing from the current one reports it.
    pub fn stream_position(&self) -> (r: Result<u64, IoErrorKind>)
        ensures
            self.position() <= i64::MAX ==> r == Ok::<u64, IoErrorKind>(self.position()),
            self.position() > i64::MAX ==> r == Err::<u64, IoErrorKind>(IoErrorKind::InvalidInput),
    {
        if self.position <= i64::MAX as u64 {
            Ok(self.position)
        } else {
            Err(IoErrorKind::InvalidInput)
        }
    }
}

} // verus!
