//! Binary files on a kernel resource, read a value at a time at an offset: which reads are
//! inside the file, and what a read reports from the bytes the kernel returned.
use vstd::prelude::*;
use crate::bytes::{le16, le32, read_le_u16, read_le_u32};
use crate::error::{kernel_read_error, map_sahne_error_to_fs_error, FileSystemError, SahneError};
use crate::resource::Handle;

verus! {

/// A binary file on the resource `handle`, of `size` bytes.
pub struct BinFile {
    handle: Handle,
    size: usize,
}

impl BinFile {
    pub closed spec fn spec_handle(&self) -> Handle {
        self.handle
    }

    pub closed spec fn spec_size(&self) -> usize {
        self.size
    }

    /// The file on the resource `handle`, whose size the kernel reported as `size`.
    pub fn new(handle: Handle, size: usize) -> (r: Self)
        ensures
            r.spec_handle() == handle,
            r.spec_size() == size,
    {
        BinFile { handle, size }
    }

    pub fn handle(&self) -> (r: Handle)
        ensures
            r == self.spec_handle(),
    {
        self.handle
    }

    /// The size of the file in bytes.
    pub fn len(&self) -> (r: usize)
        ensures
            r == self.spec_size(),
    {
        self.size
    }

    pub fn is_empty(&self) -> (r: bool)
        ensures
            r == (self.spec_size() == 0),
    {
        self.size == 0
    }

    /// Whether `width` bytes at `offset` lie inside the file; a read that does not asks the
    /// kernel nothing and gives `None`.
    pub fn fits(&self, offset: usize, width: usize) -> (r: bool)
        ensures
            r == (offset + width <= self.spec_size()),
    {
        offset <= self.size && width <= self.size - offset
    }

    /// What reading a byte reports from the kernel's answer and the buffer it filled.
    pub fn u8_outcome(answer: Result<usize, SahneError>, buffer: [u8; 1]) -> (r: Result<Option<u8>, FileSystemError>)
        ensures
            match answer {
                Ok(n) => r == Ok::<Option<u8>, FileSystemError>(
                    if n == 1 { Some(buffer@[0]) } else { None },
                ),
                Err(e) => r matches Err(f) && kernel_read_error(e, f),
            },
    {
        match answer {
            Ok(n) => if n == 1 {
                Ok(Some(buffer[0]))
            } else {
                Ok(None)
            },
            Err(e) => Err(map_sahne_error_to_fs_error(e)),
        }
    }

    /// What reading a little-endian `u16` reports from the kernel's answer and the buffer it
    /// filled.
    pub fn u16_outcome(answer: Result<usize, SahneError>, buffer: [u8; 2]) -> (r: Result<Option<u16>, FileSystemError>)
        ensures
            match answer {
                Ok(n) => r == Ok::<Option<u16>, FileSystemError>(
                    if n == 2 { Some(le16(buffer@, 0) as u16) } else { None },
                ),
                Err(e) => r matches Err(f) && kernel_read_error(e, f),
            },
    {
        match answer {
            Ok(n) => if n == 2 {
                Ok(Some(read_le_u16(&buffer, 0)))
            } else {
                Ok(None)
            },
            Err(e) => Err(map_sahne_error_to_fs_error(e)),
        }
    }

    /// What reading a little-endian `u32` reports from the kernel's answer and the buffer it
    /// filled.
    pub fn u32_outcome(answer: Result<usize, SahneError>, buffer: [u8; 4]) -> (r: Result<Option<u32>, FileSystemError>)
        ensures
            match answer {
                Ok(n) => r == Ok::<Option<u32>, FileSystemError>(
                    if n == 4 { Some(le32(buffer@, 0) as u32) } else { None },
                ),
                Err(e) => r matches Err(f) && kernel_read_error(e, f),
            },
    {
        match answer {
            Ok(n) => if n == 4 {
                Ok(Some(read_le_u32(&buffer, 0)))
            } else {
                Ok(None)
            },
            Err(e) => Err(map_sahne_error_to_fs_error(e)),
        }
    }
}

} // verus!
