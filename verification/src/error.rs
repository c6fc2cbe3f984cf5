use vstd::prelude::*;
use crate::text::{decimal, push_decimal};
use vstd::string::StringExecFns;

verus! {

/// Errors that Sahne64 system calls and SADAK file-system operations report.
#[derive(Debug, Clone, Copy, PartialEq, Eq, Structural)]
pub enum SahneError {
    OutOfMemory,
    InvalidAddress,
    InvalidParameter,
    ResourceNotFound,
    PermissionDenied,
    ResourceBusy,
    Interrupted,
    NoMessage,
    InvalidOperation,
    NotSupported,
    UnknownSystemCall,
    TaskCreationFailed,
    InvalidHandle,
    HandleLimitExceeded,
    NamingError,
    CommunicationError,
    Io,
    CorruptedFileSystem,
    InodeNotFound(u64),
    DirectoryNotEmpty,
    AlreadyExists,
}

/// C-compatible error codes of the Sahne64 API.
#[allow(non_camel_case_types)]
#[derive(Debug, Clone, Copy, PartialEq, Eq, Structural)]
pub enum sahne_error_t {
    SAHNE_SUCCESS,
    SAHNE_ERROR_OUT_OF_MEMORY,
    SAHNE_ERROR_INVALID_ADDRESS,
    SAHNE_ERROR_INVALID_PARAMETER,
    SAHNE_ERROR_RESOURCE_NOT_FOUND,
    SAHNE_ERROR_PERMISSION_DENIED,
    SAHNE_ERROR_RESOURCE_BUSY,
    SAHNE_ERROR_INTERRUPTED,
    SAHNE_ERROR_NO_MESSAGE,
    SAHNE_ERROR_INVALID_OPERATION,
    SAHNE_ERROR_NOT_SUPPORTED,
    SAHNE_ERROR_UNKNOWN_SYSCALL,
    SAHNE_ERROR_TASK_CREATION_FAILED,
    SAHNE_ERROR_INVALID_HANDLE,
    SAHNE_ERROR_HANDLE_LIMIT_EXCEEDED,
    SAHNE_ERROR_NAMING_ERROR,
    SAHNE_ERROR_COMMUNICATION_ERROR,
    SAHNE_ERROR_IO,
    SAHNE_ERROR_FS_CORRUPTED,
    SAHNE_ERROR_INODE_NOT_FOUND,
    SAHNE_ERROR_DIR_NOT_EMPTY,
    SAHNE_ERROR_ALREADY_EXISTS,
    SAHNE_ERROR_OTHER,
}

/// What went wrong while reading a byte stream: the kinds that the format readers report.
#[derive(Debug, Clone, Copy, PartialEq, Eq, Structural)]
pub enum IoErrorKind {
    NotFound,
    InvalidData,
    UnexpectedEof,
    InvalidInput,
}

/// Errors of the file-format readers and writers.
#[derive(Debug, Clone, PartialEq)]
pub enum FileSystemError {
    NotFound,
    PermissionDenied,
    NotSupported,
    IOError(String),
    InvalidData(String),
    Other(String),
}

/// The message of the error a reader reports when the data ends before a field it must read.
pub open spec fn short_read_text() -> Seq<char> {
    "IO Error: failed to fill whole buffer"@
}

/// The error a reader reports when the data ends before a field it must read.
pub fn short_read_error() -> (r: FileSystemError)
    ensures
        r matches FileSystemError::IOError(m) && m@ == short_read_text(),
{
    FileSystemError::IOError("IO Error: failed to fill whole buffer".to_owned())
}

/// The numeric value of a C error code, as the C headers define it.
pub open spec fn c_error_code(e: sahne_error_t) -> i32 {
    match e {
        sahne_error_t::SAHNE_SUCCESS => 0,
        sahne_error_t::SAHNE_ERROR_OUT_OF_MEMORY => 1,
        sahne_error_t::SAHNE_ERROR_INVALID_ADDRESS => 2,
        sahne_error_t::SAHNE_ERROR_INVALID_PARAMETER => 3,
        sahne_error_t::SAHNE_ERROR_RESOURCE_NOT_FOUND => 4,
        sahne_error_t::SAHNE_ERROR_PERMISSION_DENIED => 5,
        sahne_error_t::SAHNE_ERROR_RESOURCE_BUSY => 6,
        sahne_error_t::SAHNE_ERROR_INTERRUPTED => 7,
        sahne_error_t::SAHNE_ERROR_NO_MESSAGE => 8,
        sahne_error_t::SAHNE_ERROR_INVALID_OPERATION => 9,
        sahne_error_t::SAHNE_ERROR_NOT_SUPPORTED => 10,
        sahne_error_t::SAHNE_ERROR_UNKNOWN_SYSCALL => 11,
        sahne_error_t::SAHNE_ERROR_TASK_CREATION_FAILED => 12,
        sahne_error_t::SAHNE_ERROR_INVALID_HANDLE => 13,
        sahne_error_t::SAHNE_ERROR_HANDLE_LIMIT_EXCEEDED => 14,
        sahne_error_t::SAHNE_ERROR_NAMING_ERROR => 15,
        sahne_error_t::SAHNE_ERROR_COMMUNICATION_ERROR => 16,
        sahne_error_t::SAHNE_ERROR_IO => 17,
        sahne_error_t::SAHNE_ERROR_FS_CORRUPTED => 50,
        sahne_error_t::SAHNE_ERROR_INODE_NOT_FOUND => 51,
        sahne_error_t::SAHNE_ERROR_DIR_NOT_EMPTY => 52,
        sahne_error_t::SAHNE_ERROR_ALREADY_EXISTS => 53,
        sahne_error_t::SAHNE_ERROR_OTHER => 255,
    }
}

impl sahne_error_t {
    /// The `i32` value that C callers receive for this code.
    pub fn code(&self) -> (r: i32)
        ensures
            r == c_error_code(*self),
    {
        match self {
            sahne_error_t::SAHNE_SUCCESS => 0,
            sahne_error_t::SAHNE_ERROR_OUT_OF_MEMORY => 1,
            sahne_error_t::SAHNE_ERROR_INVALID_ADDRESS => 2,
            sahne_error_t::SAHNE_ERROR_INVALID_PARAMETER => 3,
            sahne_error_t::SAHNE_ERROR_RESOURCE_NOT_FOUND => 4,
            sahne_error_t::SAHNE_ERROR_PERMISSION_DENIED => 5,
            sahne_error_t::SAHNE_ERROR_RESOURCE_BUSY => 6,
            sahne_error_t::SAHNE_ERROR_INTERRUPTED => 7,
            sahne_error_t::SAHNE_ERROR_NO_MESSAGE => 8,
            sahne_error_t::SAHNE_ERROR_INVALID_OPERATION => 9,
            sahne_error_t::SAHNE_ERROR_NOT_SUPPORTED => 10,
            sahne_error_t::SAHNE_ERROR_UNKNOWN_SYSCALL => 11,
            sahne_error_t::SAHNE_ERROR_TASK_CREATION_FAILED => 12,
            sahne_error_t::SAHNE_ERROR_INVALID_HANDLE => 13,
            sahne_error_t::SAHNE_ERROR_HANDLE_LIMIT_EXCEEDED => 14,
            sahne_error_t::SAHNE_ERROR_NAMING_ERROR => 15,
            sahne_error_t::SAHNE_ERROR_COMMUNICATION_ERROR => 16,
            sahne_error_t::SAHNE_ERROR_IO => 17,
            sahne_error_t::SAHNE_ERROR_FS_CORRUPTED => 50,
            sahne_error_t::SAHNE_ERROR_INODE_NOT_FOUND => 51,
            sahne_error_t::SAHNE_ERROR_DIR_NOT_EMPTY => 52,
            sahne_error_t::SAHNE_ERROR_ALREADY_EXISTS => 53,
            sahne_error_t::SAHNE_ERROR_OTHER => 255,
        }
    }
}

/// The C code that stands for each `SahneError`.
pub open spec fn spec_error_to_c(err: SahneError) -> sahne_error_t {
    match err {
        SahneError::OutOfMemory => sahne_error_t::SAHNE_ERROR_OUT_OF_MEMORY,
        SahneError::InvalidAddress => sahne_error_t::SAHNE_ERROR_INVALID_ADDRESS,
        SahneError::InvalidParameter => sahne_error_t::SAHNE_ERROR_INVALID_PARAMETER,
        SahneError::ResourceNotFound => sahne_error_t::SAHNE_ERROR_RESOURCE_NOT_FOUND,
        SahneError::PermissionDenied => sahne_error_t::SAHNE_ERROR_PERMISSION_DENIED,
        SahneError::ResourceBusy => sahne_error_t::SAHNE_ERROR_RESOURCE_BUSY,
        SahneError::Interrupted => sahne_error_t::SAHNE_ERROR_INTERRUPTED,
        SahneError::NoMessage => sahne_error_t::SAHNE_ERROR_NO_MESSAGE,
        SahneError::InvalidOperation => sahne_error_t::SAHNE_ERROR_INVALID_OPERATION,
        SahneError::NotSupported => sahne_error_t::SAHNE_ERROR_NOT_SUPPORTED,
        SahneError::UnknownSystemCall => sahne_error_t::SAHNE_ERROR_UNKNOWN_SYSCALL,
        SahneError::TaskCreationFailed => sahne_error_t::SAHNE_ERROR_TASK_CREATION_FAILED,
        SahneError::InvalidHandle => sahne_error_t::SAHNE_ERROR_INVALID_HANDLE,
        SahneError::HandleLimitExceeded => sahne_error_t::SAHNE_ERROR_HANDLE_LIMIT_EXCEEDED,
        SahneError::NamingError => sahne_error_t::SAHNE_ERROR_NAMING_ERROR,
        SahneError::CommunicationError => sahne_error_t::SAHNE_ERROR_COMMUNICATION_ERROR,
        SahneError::Io => sahne_error_t::SAHNE_ERROR_IO,
        SahneError::CorruptedFileSystem => sahne_error_t::SAHNE_ERROR_FS_CORRUPTED,
        SahneError::InodeNotFound(_) => sahne_error_t::SAHNE_ERROR_INODE_NOT_FOUND,
        SahneError::DirectoryNotEmpty => sahne_error_t::SAHNE_ERROR_DIR_NOT_EMPTY,
        SahneError::AlreadyExists => sahne_error_t::SAHNE_ERROR_ALREADY_EXISTS,
    }
}

/// Converts a `SahneError` to its C error code.
pub fn map_sahne_error_to_c(err: SahneError) -> (r: sahne_error_t)
    ensures
        r == spec_error_to_c(err),
{
    match err {
        SahneError::OutOfMemory => sahne_error_t::SAHNE_ERROR_OUT_OF_MEMORY,
        SahneError::InvalidAddress => sahne_error_t::SAHNE_ERROR_INVALID_ADDRESS,
        SahneError::InvalidParameter => sahne_error_t::SAHNE_ERROR_INVALID_PARAMETER,
        SahneError::ResourceNotFound => sahne_error_t::SAHNE_ERROR_RESOURCE_NOT_FOUND,
        SahneError::PermissionDenied => sahne_error_t::SAHNE_ERROR_PERMISSION_DENIED,
        SahneError::ResourceBusy => sahne_error_t::SAHNE_ERROR_RESOURCE_BUSY,
        SahneError::Interrupted => sahne_error_t::SAHNE_ERROR_INTERRUPTED,
        SahneError::NoMessage => sahne_error_t::SAHNE_ERROR_NO_MESSAGE,
        SahneError::InvalidOperation => sahne_error_t::SAHNE_ERROR_INVALID_OPERATION,
        SahneError::NotSupported => sahne_error_t::SAHNE_ERROR_NOT_SUPPORTED,
        SahneError::UnknownSystemCall => sahne_error_t::SAHNE_ERROR_UNKNOWN_SYSCALL,
        SahneError::TaskCreationFailed => sahne_error_t::SAHNE_ERROR_TASK_CREATION_FAILED,
        SahneError::InvalidHandle => sahne_error_t::SAHNE_ERROR_INVALID_HANDLE,
        SahneError::HandleLimitExceeded => sahne_error_t::SAHNE_ERROR_HANDLE_LIMIT_EXCEEDED,
        SahneError::NamingError => sahne_error_t::SAHNE_ERROR_NAMING_ERROR,
        SahneError::CommunicationError => sahne_error_t::SAHNE_ERROR_COMMUNICATION_ERROR,
        SahneError::Io => sahne_error_t::SAHNE_ERROR_IO,
        SahneError::CorruptedFileSystem => sahne_error_t::SAHNE_ERROR_FS_CORRUPTED,
        SahneError::InodeNotFound(_) => sahne_error_t::SAHNE_ERROR_INODE_NOT_FOUND,
        SahneError::DirectoryNotEmpty => sahne_error_t::SAHNE_ERROR_DIR_NOT_EMPTY,
        SahneError::AlreadyExists => sahne_error_t::SAHNE_ERROR_ALREADY_EXISTS,
    }
}

/// The `SahneError` that a raw negative kernel code stands for (POSIX-like numbering).
pub open spec fn spec_kernel_error(code: i64) -> SahneError {
    if code == -1 {
        SahneError::PermissionDenied
    } else if code == -2 {
        SahneError::ResourceNotFound
    } else if code == -3 {
        SahneError::TaskCreationFailed
    } else if code == -4 {
        SahneError::Interrupted
    } else if code == -5 {
        SahneError::Io
    } else if code == -6 {
        SahneError::InvalidAddress
    } else if code == -9 {
        SahneError::InvalidHandle
    } else if code == -11 {
        SahneError::ResourceBusy
    } else if code == -12 {
        SahneError::OutOfMemory
    } else if code == -13 {
        SahneError::PermissionDenied
    } else if code == -14 {
        SahneError::InvalidAddress
    } else if code == -16 {
        SahneError::ResourceBusy
    } else if code == -17 {
        SahneError::NamingError
    } else if code == -19 {
        SahneError::NotSupported
    } else if code == -22 {
        SahneError::InvalidParameter
    } else if code == -28 {
        SahneError::Io
    } else if code == -30 {
        SahneError::Io
    } else if code == -38 {
        SahneError::NotSupported
    } else if code == -61 {
        SahneError::NoMessage
    } else {
        SahneError::UnknownSystemCall
    }
}

/// Converts a raw kernel error code to a `SahneError`; codes without a mapping give
/// `UnknownSystemCall`.
pub fn map_kernel_error(code: i64) -> (r: SahneError)
    ensures
        r == spec_kernel_error(code),
{
    match code {
        -1 => SahneError::PermissionDenied,
        -2 => SahneError::ResourceNotFound,
        -3 => SahneError::TaskCreationFailed,
        -4 => SahneError::Interrupted,
        -5 => SahneError::Io,
        -6 => SahneError::InvalidAddress,
        -9 => SahneError::InvalidHandle,
        -11 => SahneError::ResourceBusy,
        -12 => SahneError::OutOfMemory,
        -13 => SahneError::PermissionDenied,
        -14 => SahneError::InvalidAddress,
        -16 => SahneError::ResourceBusy,
        -17 => SahneError::NamingError,
        -19 => SahneError::NotSupported,
        -22 => SahneError::InvalidParameter,
        -28 => SahneError::Io,
        -30 => SahneError::Io,
        -38 => SahneError::NotSupported,
        -61 => SahneError::NoMessage,
        _ => SahneError::UnknownSystemCall,
    }
}

/// The C code for a raw kernel result.
pub open spec fn spec_raw_result_to_c(result: i64) -> sahne_error_t {
    if result >= 0 {
        sahne_error_t::SAHNE_SUCCESS
    } else {
        spec_error_to_c(spec_kernel_error(result))
    }
}

/// Converts a raw kernel result to a C error code: success for non-negative results,
/// otherwise the code of the kernel error.
pub fn map_raw_result_to_c_error(result: i64) -> (r: sahne_error_t)
    ensures
        r == spec_raw_result_to_c(result),
{
    if result >= 0 {
        sahne_error_t::SAHNE_SUCCESS
    } else {
        let sahne_err = map_kernel_error(result);
        map_sahne_error_to_c(sahne_err)
    }
}

/// No `SahneError` is ever reported to C callers as success: its code is never 0.
pub proof fn lemma_error_code_never_success(err: SahneError)
    ensures
        spec_error_to_c(err) != sahne_error_t::SAHNE_SUCCESS,
        c_error_code(spec_error_to_c(err)) != 0,
{
}

/// A raw kernel result is reported as success exactly when it is non-negative.
pub proof fn lemma_raw_result_success_iff_nonnegative(result: i64)
    ensures
        (spec_raw_result_to_c(result) == sahne_error_t::SAHNE_SUCCESS) <==> result >= 0,
        (c_error_code(spec_raw_result_to_c(result)) == 0) <==> result >= 0,
{
    if result < 0 {
        lemma_error_code_never_success(spec_kernel_error(result));
    }
}

/// What `{:?}` prints for a `SahneError`: the variant's name, and the inode number in
/// brackets for `InodeNotFound`.
pub open spec fn sahne_error_debug(e: SahneError) -> Seq<char> {
    match e {
        SahneError::OutOfMemory => "OutOfMemory"@,
        SahneError::InvalidAddress => "InvalidAddress"@,
        SahneError::InvalidParameter => "InvalidParameter"@,
        SahneError::ResourceNotFound => "ResourceNotFound"@,
        SahneError::PermissionDenied => "PermissionDenied"@,
        SahneError::ResourceBusy => "ResourceBusy"@,
        SahneError::Interrupted => "Interrupted"@,
        SahneError::NoMessage => "NoMessage"@,
        SahneError::InvalidOperation => "InvalidOperation"@,
        SahneError::NotSupported => "NotSupported"@,
        SahneError::UnknownSystemCall => "UnknownSystemCall"@,
        SahneError::TaskCreationFailed => "TaskCreationFailed"@,
        SahneError::InvalidHandle => "InvalidHandle"@,
        SahneError::HandleLimitExceeded => "HandleLimitExceeded"@,
        SahneError::NamingError => "NamingError"@,
        SahneError::CommunicationError => "CommunicationError"@,
        SahneError::Io => "Io"@,
        SahneError::CorruptedFileSystem => "CorruptedFileSystem"@,
        SahneError::InodeNotFound(n) => "InodeNotFound("@ + decimal(n as nat) + ")"@,
        SahneError::DirectoryNotEmpty => "DirectoryNotEmpty"@,
        SahneError::AlreadyExists => "AlreadyExists"@,
    }
}

/// The text `{:?}` prints for `e`.
pub fn sahne_error_debug_text(e: SahneError) -> (r: String)
    ensures
        r@ == sahne_error_debug(e),
{
    match e {
        SahneError::OutOfMemory => "OutOfMemory".to_owned(),
        SahneError::InvalidAddress => "InvalidAddress".to_owned(),
        SahneError::InvalidParameter => "InvalidParameter".to_owned(),
        SahneError::ResourceNotFound => "ResourceNotFound".to_owned(),
        SahneError::PermissionDenied => "PermissionDenied".to_owned(),
        SahneError::ResourceBusy => "ResourceBusy".to_owned(),
        SahneError::Interrupted => "Interrupted".to_owned(),
        SahneError::NoMessage => "NoMessage".to_owned(),
        SahneError::InvalidOperation => "InvalidOperation".to_owned(),
        SahneError::NotSupported => "NotSupported".to_owned(),
        SahneError::UnknownSystemCall => "UnknownSystemCall".to_owned(),
        SahneError::TaskCreationFailed => "TaskCreationFailed".to_owned(),
        SahneError::InvalidHandle => "InvalidHandle".to_owned(),
        SahneError::HandleLimitExceeded => "HandleLimitExceeded".to_owned(),
        SahneError::NamingError => "NamingError".to_owned(),
        SahneError::CommunicationError => "CommunicationError".to_owned(),
        SahneError::Io => "Io".to_owned(),
        SahneError::CorruptedFileSystem => "CorruptedFileSystem".to_owned(),
        SahneError::InodeNotFound(n) => {
            let mut r = "InodeNotFound(".to_owned();
            push_decimal(&mut r, n);
            r.append(")");
            r
        },
        SahneError::DirectoryNotEmpty => "DirectoryNotEmpty".to_owned(),
        SahneError::AlreadyExists => "AlreadyExists".to_owned(),
    }
}

/// The error a read reports for a kernel error: an I/O error that names it.
pub open spec fn kernel_read_error(e: SahneError, r: FileSystemError) -> bool {
    r matches FileSystemError::IOError(m) && m@ == "SahneError: "@ + sahne_error_debug(e)
}

/// Reports a kernel error as a file system error.
pub fn map_sahne_error_to_fs_error(e: SahneError) -> (r: FileSystemError)
    ensures
        kernel_read_error(e, r),
{
    let mut m = "SahneError: ".to_owned();
    let d = sahne_error_debug_text(e);
    m.append(d.as_str());
    FileSystemError::IOError(m)
}

} // verus!
