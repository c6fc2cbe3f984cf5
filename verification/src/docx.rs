//! The virtual file system interface (errors, nodes, file systems) and DOCX files as nodes over
//! a kernel resource: which bytes a read fetches, and how the kernel's answer is reported.
use vstd::prelude::*;
use crate::error::{map_sahne_error_to_fs_error, sahne_error_debug, FileSystemError, SahneError};
use crate::resource::Handle;
use vstd::string::StringExecFns;

verus! {

/// The errors of the virtual file system.
#[derive(Debug, Clone, PartialEq, Eq)]
pub enum VfsError {
    NotFound,
    PermissionDenied,
    InvalidDescriptor,
    IOError(String),
    InvalidData(String),
    NotSupported,
    AlreadyExists,
    IsDirectory,
    NotDirectory,
    NotEmpty,
}

/// The text of a VFS error.
pub open spec fn vfs_error_text(e: VfsError) -> Seq<char> {
    match e {
        VfsError::NotFound => "Entity not found"@,
        VfsError::PermissionDenied => "Permission denied"@,
        VfsError::InvalidDescriptor => "Invalid descriptor"@,
        VfsError::IOError(m) => "IO error: "@ + m@,
        VfsError::InvalidData(m) => "Invalid data: "@ + m@,
        VfsError::NotSupported => "Operation not supported"@,
        VfsError::AlreadyExists => "Entity already exists"@,
        VfsError::IsDirectory => "Is a directory"@,
        VfsError::NotDirectory => "Not a directory"@,
        VfsError::NotEmpty => "Directory not empty"@,
    }
}

impl VfsError {
    /// The text of the error, as it is shown to a user.
    pub fn to_text(&self) -> (r: String)
        ensures
            r@ == vfs_error_text(*self),
    {
        match self {
            VfsError::NotFound => "Entity not found".to_owned(),
            VfsError::PermissionDenied => "Permission denied".to_owned(),
            VfsError::InvalidDescriptor => "Invalid descriptor".to_owned(),
            VfsError::IOError(m) => {
                let mut r = "IO error: ".to_owned();
                r.append(m.as_str());
                r
            },
            VfsError::InvalidData(m) => {
                let mut r = "Invalid data: ".to_owned();
                r.append(m.as_str());
                r
            },
            VfsError::NotSupported => "Operation not supported".to_owned(),
            VfsError::AlreadyExists => "Entity already exists".to_owned(),
            VfsError::IsDirectory => "Is a directory".to_owned(),
            VfsError::NotDirectory => "Not a directory".to_owned(),
            VfsError::NotEmpty => "Directory not empty".to_owned(),
        }
    }
}

/// What `{:?}` prints for a string: the string quoted, with its special characters escaped.
pub uninterp spec fn str_debug(s: Seq<char>) -> Seq<char>;

/// Formats `s` with `{:?}` (std's `Debug` for `str`).
#[verifier::external_body]
pub(crate) fn debug_string(s: &str) -> (r: String)
    ensures
        r@ == str_debug(s@),
{
    format!("{:?}", s)
}

/// Converts a file system error to a VFS error, keeping its message; an error without a
/// counterpart becomes an I/O error that names it.
pub fn map_fs_error_to_vfs_error(e: FileSystemError) -> (r: VfsError)
    ensures
        match e {
            FileSystemError::NotFound => r == VfsError::NotFound,
            FileSystemError::PermissionDenied => r == VfsError::PermissionDenied,
            FileSystemError::InvalidData(m) => r == VfsError::InvalidData(m),
            FileSystemError::IOError(m) => r == VfsError::IOError(m),
            FileSystemError::NotSupported => r == VfsError::NotSupported,
            FileSystemError::Other(m) => r matches VfsError::IOError(t) && t@
                == "Unknown FileSystemError: Other("@ + str_debug(m@) + ")"@,
        },
{
    match e {
        FileSystemError::NotFound => VfsError::NotFound,
        FileSystemError::PermissionDenied => VfsError::PermissionDenied,
        FileSystemError::InvalidData(msg) => VfsError::InvalidData(msg),
        FileSystemError::IOError(msg) => VfsError::IOError(msg),
        FileSystemError::NotSupported => VfsError::NotSupported,
        FileSystemError::Other(msg) => {
            let mut t = "Unknown FileSystemError: Other(".to_owned();
            let d = debug_string(msg.as_str());
            t.append(d.as_str());
            t.append(")");
            VfsError::IOError(t)
        },
    }
}

/// The size and kind of a node.
pub struct Metadata {
    pub file_size: usize,
    pub is_directory: bool,
}

/// A node of the virtual file system that can be read at an offset.
pub trait VfsNode {
    fn read(&self, buffer: &mut [u8], offset: usize) -> Result<usize, VfsError>;

    fn size(&self) -> Result<usize, VfsError>;
}

/// A virtual file system: opening, creating and managing its nodes by path.
pub trait FileSystem {
    fn open(&self, path: &str, flags: u32) -> Result<Box<dyn VfsNode>, VfsError>;

    fn create(&self, path: &str, flags: u32) -> Result<Box<dyn VfsNode>, VfsError>;

    fn mkdir(&self, path: &str) -> Result<(), VfsError>;

    fn remove(&self, path: &str) -> Result<(), VfsError>;

    fn rename(&self, old_path: &str, new_path: &str) -> Result<(), VfsError>;

    fn metadata(&self, path: &str) -> Result<Metadata, VfsError>;
}

/// A DOCX file on a kernel resource of `file_size` bytes.
pub struct DocxFile {
    handle: Handle,
    file_size: usize,
}

/// The number of bytes a read of `buf_len` bytes at `offset` fetches from a file of `size`
/// bytes: nothing at or past the end, else as many as fit.
pub open spec fn docx_read_len(size: int, buf_len: int, offset: int) -> int {
    if offset >= size {
        0
    } else if buf_len < size - offset {
        buf_len
    } else {
        size - offset
    }
}

impl DocxFile {
    pub closed spec fn spec_handle(&self) -> Handle {
        self.handle
    }

    pub closed spec fn spec_file_size(&self) -> usize {
        self.file_size
    }

    /// The file on the resource `handle`, of `file_size` bytes.
    pub fn new(handle: Handle, file_size: usize) -> (r: Self)
        ensures
            r.spec_handle() == handle,
            r.spec_file_size() == file_size,
    {
        DocxFile { handle, file_size }
    }

    /// The resource the file is read from.
    pub fn handle(&self) -> (r: Handle)
        ensures
            r == self.spec_handle(),
    {
        self.handle
    }

    /// The size of the file.
    pub fn size(&self) -> (r: Result<usize, VfsError>)
        ensures
            r == Ok::<usize, VfsError>(self.spec_file_size()),
    {
        Ok(self.file_size)
    }

    /// How many bytes a read into a buffer of `buf_len` bytes at `offset` asks the kernel
    /// for; none means the read returns 0 without asking.
    pub fn read_len(&self, buf_len: usize, offset: usize) -> (r: usize)
        ensures
            r == docx_read_len(self.spec_file_size() as int, buf_len as int, offset as int),
    {
        if offset >= self.file_size {
            return 0;
        }
        let available = self.file_size - offset;
        if buf_len < available {
            buf_len
        } else {
            available
        }
    }

    /// What a read reports from the kernel's answer: the bytes read, or the kernel's error as
    /// an I/O error that names it.
    pub fn read_outcome(answer: Result<usize, SahneError>) -> (r: Result<usize, VfsError>)
        ensures
            match answer {
                Ok(n) => r == Ok::<usize, VfsError>(n),
                Err(e) => r matches Err(VfsError::IOError(m)) && m@ == "SahneError: "@
                    + sahne_error_debug(e),
            },
    {
        match answer {
            Ok(n) => Ok(n),
            Err(e) => Err(map_fs_error_to_vfs_error(map_sahne_error_to_fs_error(e))),
        }
    }
}

} // verus!
