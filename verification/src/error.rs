//! Filesystem errors, classified by the operating system's error code or,
//! without one, by the kind of the I/O error. The codes are Linux's, the
//! system whose directory records this library reads.
use vstd::prelude::*;
use std::io;

verus! {

/// Permission denied.
pub const EPERM: i32 = 1;
/// No such file or directory.
pub const ENOENT: i32 = 2;
/// Interrupted system call.
pub const EINTR: i32 = 4;
/// Input/output error.
pub const EIO: i32 = 5;
/// Bad file descriptor.
pub const EBADF: i32 = 9;
/// Resource temporarily unavailable.
pub const EAGAIN: i32 = 11;
/// Cannot allocate memory.
pub const ENOMEM: i32 = 12;
/// Permission denied by file access rules.
pub const EACCES: i32 = 13;
/// Bad address.
pub const EFAULT: i32 = 14;
/// Device or resource busy.
pub const EBUSY: i32 = 16;
/// File exists.
pub const EEXIST: i32 = 17;
/// Not a directory.
pub const ENOTDIR: i32 = 20;
/// Is a directory.
pub const EISDIR: i32 = 21;
/// Invalid argument.
pub const EINVAL: i32 = 22;
/// Too many open files in the system.
pub const ENFILE: i32 = 23;
/// Too many open files in the process.
pub const EMFILE: i32 = 24;
/// Text file busy.
pub const ETXTBSY: i32 = 26;
/// File too large.
pub const EFBIG: i32 = 27;
/// File name too long.
pub const ENAMETOOLONG: i32 = 36;
/// Too many levels of symbolic links.
pub const ELOOP: i32 = 40;
/// Value too large for defined data type.
pub const EOVERFLOW: i32 = 75;

/// `std::io::Error`, held opaque: its code and kind are asked for through
/// the functions below.
#[verifier::external_type_specification]
#[verifier::external_body]
pub struct ExIoError(std::io::Error);

/// The kinds of I/O error that classification tells apart; every other kind
/// is `Other`.
#[derive(Debug, Clone, Copy, PartialEq, Eq)]
pub enum IoErrorKind {
    BrokenPipe,
    NotFound,
    PermissionDenied,
    NotADirectory,
    AlreadyExists,
    IsADirectory,
    NotSeekable,
    ResourceBusy,
    InvalidFilename,
    Unsupported,
    UnexpectedEof,
    OutOfMemory,
    Other,
}

/// The class of a filesystem error.
#[derive(Debug, Clone, Copy, PartialEq, Eq)]
pub enum ErrorClass {
    AccessDenied,
    TemporarilyUnavailable,
    InvalidPath,
    FilesystemIO,
    TooManySymbolicLinks,
    NameTooLong,
    FileNotFound,
    OutOfMemory,
    NotADirectory,
    BrokenPipe,
    FileExists,
    IsDirectory,
    FileTooLarge,
    ResourceBusy,
    InvalidFileDescriptor,
    ProcessFileLimitReached,
    SystemFileLimitReached,
    UnsupportedOperation,
    Other,
}

/// The class of an operating system error code.
pub open spec fn code_class(code: i32) -> ErrorClass {
    if code == EACCES || code == EPERM {
        ErrorClass::AccessDenied
    } else if code == EAGAIN || code == EINTR {
        ErrorClass::TemporarilyUnavailable
    } else if code == EINVAL || code == EFAULT {
        ErrorClass::InvalidPath
    } else if code == ENOENT {
        ErrorClass::FileNotFound
    } else if code == EEXIST {
        ErrorClass::FileExists
    } else if code == EISDIR {
        ErrorClass::IsDirectory
    } else if code == ENOTDIR {
        ErrorClass::NotADirectory
    } else if code == ELOOP {
        ErrorClass::TooManySymbolicLinks
    } else if code == ENAMETOOLONG {
        ErrorClass::NameTooLong
    } else if code == EIO {
        ErrorClass::FilesystemIO
    } else if code == EBADF {
        ErrorClass::InvalidFileDescriptor
    } else if code == ENOMEM {
        ErrorClass::OutOfMemory
    } else if code == EFBIG || code == EOVERFLOW {
        ErrorClass::FileTooLarge
    } else if code == EBUSY || code == ETXTBSY {
        ErrorClass::ResourceBusy
    } else if code == EMFILE {
        ErrorClass::ProcessFileLimitReached
    } else if code == ENFILE {
        ErrorClass::SystemFileLimitReached
    } else {
        ErrorClass::Other
    }
}

/// The class of an I/O error kind.
pub open spec fn kind_class(kind: IoErrorKind) -> ErrorClass {
    match kind {
        IoErrorKind::BrokenPipe => ErrorClass::BrokenPipe,
        IoErrorKind::NotFound => ErrorClass::FileNotFound,
        IoErrorKind::PermissionDenied => ErrorClass::AccessDenied,
        IoErrorKind::NotADirectory => ErrorClass::NotADirectory,
        IoErrorKind::AlreadyExists => ErrorClass::FileExists,
        IoErrorKind::IsADirectory => ErrorClass::IsDirectory,
        IoErrorKind::NotSeekable => ErrorClass::InvalidFileDescriptor,
        IoErrorKind::ResourceBusy => ErrorClass::ResourceBusy,
        IoErrorKind::InvalidFilename => ErrorClass::InvalidPath,
        IoErrorKind::Unsupported => ErrorClass::UnsupportedOperation,
        IoErrorKind::UnexpectedEof => ErrorClass::FilesystemIO,
        IoErrorKind::OutOfMemory => ErrorClass::OutOfMemory,
        IoErrorKind::Other => ErrorClass::Other,
    }
}

/// The class of an error: by its operating system code when it has one,
/// else by its kind.
pub open spec fn error_class_of(code: Option<i32>, kind: IoErrorKind) -> ErrorClass {
    match code {
        Some(c) => code_class(c),
        None => kind_class(kind),
    }
}

/// A filesystem error, classified; the classes that call for the details
/// keep the underlying I/O error.
#[derive(Debug)]
pub enum FilesystemIOError {
    /// Permission denied for file system access (EACCES, EPERM)
    AccessDenied(io::Error),
    /// Operation temporarily blocked (EAGAIN, EINTR)
    TemporarilyUnavailable,
    /// Invalid path or null pointer (EINVAL, EFAULT)
    InvalidPath,
    /// I/O error occurred while reading from filesystem (EIO)
    FilesystemIO(io::Error),
    /// Symbolic link recursion limit exceeded (ELOOP)
    TooManySymbolicLinks,
    /// Pathname component exceeds system limits (ENAMETOOLONG)
    NameTooLong,
    /// The named file does not exist (ENOENT)
    FileNotFound,
    /// Out of memory for filesystem operations (ENOMEM)
    OutOfMemory,
    /// Path exists but is not a directory (ENOTDIR)
    NotADirectory,
    /// Broken pipe error during output operations
    BrokenPipe(io::Error),
    /// File already exists (EEXIST)
    FileExists(io::Error),
    /// Path refers to a directory but operation requires file (EISDIR)
    IsDirectory(io::Error),
    /// File too large (EFBIG, EOVERFLOW)
    FileTooLarge(io::Error),
    /// Resource busy or locked (EBUSY, ETXTBSY)
    ResourceBusy(io::Error),
    /// Invalid file descriptor (EBADF)
    InvalidFileDescriptor(io::Error),
    /// Process file descriptor limit reached (EMFILE)
    ProcessFileLimitReached(io::Error),
    /// System-wide file descriptor limit reached (ENFILE)
    SystemFileLimitReached(io::Error),
    /// Unsupported operation
    UnsupportedOperation(io::Error),
    /// Unhandled OS error
    Other(io::Error),
}

/// The class of a filesystem error.
pub open spec fn class_of(e: FilesystemIOError) -> ErrorClass {
    match e {
        FilesystemIOError::AccessDenied(_) => ErrorClass::AccessDenied,
        FilesystemIOError::TemporarilyUnavailable => ErrorClass::TemporarilyUnavailable,
        FilesystemIOError::InvalidPath => ErrorClass::InvalidPath,
        FilesystemIOError::FilesystemIO(_) => ErrorClass::FilesystemIO,
        FilesystemIOError::TooManySymbolicLinks => ErrorClass::TooManySymbolicLinks,
        FilesystemIOError::NameTooLong => ErrorClass::NameTooLong,
        FilesystemIOError::FileNotFound => ErrorClass::FileNotFound,
        FilesystemIOError::OutOfMemory => ErrorClass::OutOfMemory,
        FilesystemIOError::NotADirectory => ErrorClass::NotADirectory,
        FilesystemIOError::BrokenPipe(_) => ErrorClass::BrokenPipe,
        FilesystemIOError::FileExists(_) => ErrorClass::FileExists,
        FilesystemIOError::IsDirectory(_) => ErrorClass::IsDirectory,
        FilesystemIOError::FileTooLarge(_) => ErrorClass::FileTooLarge,
        FilesystemIOError::ResourceBusy(_) => ErrorClass::ResourceBusy,
        FilesystemIOError::InvalidFileDescriptor(_) => ErrorClass::InvalidFileDescriptor,
        FilesystemIOError::ProcessFileLimitReached(_) => ErrorClass::ProcessFileLimitReached,
        FilesystemIOError::SystemFileLimitReached(_) => ErrorClass::SystemFileLimitReached,
        FilesystemIOError::UnsupportedOperation(_) => ErrorClass::UnsupportedOperation,
        FilesystemIOError::Other(_) => ErrorClass::Other,
    }
}

/// What `io::Error::raw_os_error` gives for an error: the operating
/// system's code of the error, if it came from one.
pub uninterp spec fn os_code_of(error: io::Error) -> Option<i32>;

/// What `io::Error::kind` gives for an error, as the kinds that
/// classification tells apart.
pub uninterp spec fn io_kind_of(error: io::Error) -> IoErrorKind;

/// `io::Error::raw_os_error`: the operating system's code of the error, if
/// it came from one. The contract names the result as a function of the
/// error; which code an error carries is not spelled out.
#[verifier::external_body]
fn raw_os_error(error: &io::Error) -> (res: Option<i32>)
    ensures
        res == os_code_of(*error),
{
    error.raw_os_error()
}

/// `io::Error::kind`, one arm per kind that classification tells apart. The
/// contract names the result as a function of the error; which kind an error
/// has is not spelled out.
#[verifier::external_body]
fn error_kind(error: &io::Error) -> (res: IoErrorKind)
    ensures
        res == io_kind_of(*error),
{
    match error.kind() {
        io::ErrorKind::BrokenPipe => IoErrorKind::BrokenPipe,
        io::ErrorKind::NotFound => IoErrorKind::NotFound,
        io::ErrorKind::PermissionDenied => IoErrorKind::PermissionDenied,
        io::ErrorKind::NotADirectory => IoErrorKind::NotADirectory,
        io::ErrorKind::AlreadyExists => IoErrorKind::AlreadyExists,
        io::ErrorKind::IsADirectory => IoErrorKind::IsADirectory,
        io::ErrorKind::NotSeekable => IoErrorKind::NotSeekable,
        io::ErrorKind::ResourceBusy => IoErrorKind::ResourceBusy,
        io::ErrorKind::InvalidFilename => IoErrorKind::InvalidFilename,
        io::ErrorKind::Unsupported => IoErrorKind::Unsupported,
        io::ErrorKind::UnexpectedEof => IoErrorKind::UnexpectedEof,
        io::ErrorKind::OutOfMemory => IoErrorKind::OutOfMemory,
        _ => IoErrorKind::Other,
    }
}

/// Whether the errors of a class carry the underlying I/O error.
pub open spec fn keeps_error(c: ErrorClass) -> bool {
    !(c == ErrorClass::TemporarilyUnavailable || c == ErrorClass::InvalidPath || c
        == ErrorClass::TooManySymbolicLinks || c == ErrorClass::NameTooLong || c
        == ErrorClass::FileNotFound || c == ErrorClass::OutOfMemory || c == ErrorClass::NotADirectory)
}

/// The message of a class: the whole message where the error carries no
/// details, else the text that precedes them.
pub open spec fn class_message(c: ErrorClass) -> Seq<char> {
    match c {
        ErrorClass::AccessDenied => "Permission denied: "@,
        ErrorClass::TemporarilyUnavailable => "Operation temporarily unavailable, retry later"@,
        ErrorClass::InvalidPath => "Invalid path or null pointer"@,
        ErrorClass::FilesystemIO => "Filesystem I/O error: "@,
        ErrorClass::TooManySymbolicLinks => "Too many symbolic links (recursion limit exceeded)"@,
        ErrorClass::NameTooLong => "Pathname component exceeds system limits"@,
        ErrorClass::FileNotFound => "File or directory not found"@,
        ErrorClass::OutOfMemory => "Out of memory for filesystem operation"@,
        ErrorClass::NotADirectory => "Path exists but is not a directory"@,
        ErrorClass::BrokenPipe => "Broken pipe: "@,
        ErrorClass::FileExists => "File already exists: "@,
        ErrorClass::IsDirectory => "Path refers to a directory: "@,
        ErrorClass::FileTooLarge => "File too large: "@,
        ErrorClass::ResourceBusy => "Resource busy or locked: "@,
        ErrorClass::InvalidFileDescriptor => "Invalid file descriptor: "@,
        ErrorClass::ProcessFileLimitReached => "Process file descriptor limit reached: "@,
        ErrorClass::SystemFileLimitReached => "System-wide file descriptor limit reached: "@,
        ErrorClass::UnsupportedOperation => "Unsupported operation: "@,
        ErrorClass::Other => "OS error: "@,
    }
}

/// The text of an I/O error (its `Display` form), which comes from the
/// operating system. Nothing is stated of it.
#[verifier::external_body]
fn io_error_text(error: &io::Error) -> String {
    error.to_string()
}

/// A message: `head` followed by the error's text.
fn prefixed(head: &str, error: &io::Error) -> (res: String)
    ensures
        res@.len() >= head@.len(),
        res@.take(head@.len() as int) == head@,
{
    let text = io_error_text(error);
    let r = crate::text::concat_text(head, text.as_str());
    assert(r@.take(head@.len() as int) =~= head@);
    r
}

impl FilesystemIOError {
    /// The human-readable message: the class's message, followed by the
    /// underlying error's text where the error carries it.
    pub fn to_string(&self) -> (res: String)
        ensures
            !keeps_error(class_of(*self)) ==> res@ == class_message(class_of(*self)),
            keeps_error(class_of(*self)) ==> res@.len() >= class_message(class_of(*self)).len()
                && res@.take(class_message(class_of(*self)).len() as int) == class_message(
                class_of(*self),
            ),
    {
        match self {
            FilesystemIOError::AccessDenied(e) => prefixed("Permission denied: ", e),
            FilesystemIOError::TemporarilyUnavailable => String::from_str(
                "Operation temporarily unavailable, retry later",
            ),
            FilesystemIOError::InvalidPath => String::from_str("Invalid path or null pointer"),
            FilesystemIOError::FilesystemIO(e) => prefixed("Filesystem I/O error: ", e),
            FilesystemIOError::TooManySymbolicLinks => String::from_str(
                "Too many symbolic links (recursion limit exceeded)",
            ),
            FilesystemIOError::NameTooLong => String::from_str(
                "Pathname component exceeds system limits",
            ),
            FilesystemIOError::FileNotFound => String::from_str("File or directory not found"),
            FilesystemIOError::OutOfMemory => String::from_str(
                "Out of memory for filesystem operation",
            ),
            FilesystemIOError::NotADirectory => String::from_str(
                "Path exists but is not a directory",
            ),
            FilesystemIOError::BrokenPipe(e) => prefixed("Broken pipe: ", e),
            FilesystemIOError::FileExists(e) => prefixed("File already exists: ", e),
            FilesystemIOError::IsDirectory(e) => prefixed("Path refers to a directory: ", e),
            FilesystemIOError::FileTooLarge(e) => prefixed("File too large: ", e),
            FilesystemIOError::ResourceBusy(e) => prefixed("Resource busy or locked: ", e),
            FilesystemIOError::InvalidFileDescriptor(e) => prefixed("Invalid file descriptor: ", e),
            FilesystemIOError::ProcessFileLimitReached(e) => prefixed(
                "Process file descriptor limit reached: ",
                e,
            ),
            FilesystemIOError::SystemFileLimitReached(e) => prefixed(
                "System-wide file descriptor limit reached: ",
                e,
            ),
            FilesystemIOError::UnsupportedOperation(e) => prefixed("Unsupported operation: ", e),
            FilesystemIOError::Other(e) => prefixed("OS error: ", e),
        }
    }

    /// The class of an operating system error code.
    pub fn class_of_code(code: i32) -> (res: ErrorClass)
        ensures
            res == code_class(code),
    {
        if code == EACCES || code == EPERM {
            ErrorClass::AccessDenied
        } else if code == EAGAIN || code == EINTR {
            ErrorClass::TemporarilyUnavailable
        } else if code == EINVAL || code == EFAULT {
            ErrorClass::InvalidPath
        } else if code == ENOENT {
            ErrorClass::FileNotFound
        } else if code == EEXIST {
            ErrorClass::FileExists
        } else if code == EISDIR {
            ErrorClass::IsDirectory
        } else if code == ENOTDIR {
            ErrorClass::NotADirectory
        } else if code == ELOOP {
            ErrorClass::TooManySymbolicLinks
        } else if code == ENAMETOOLONG {
            ErrorClass::NameTooLong
        } else if code == EIO {
            ErrorClass::FilesystemIO
        } else if code == EBADF {
            ErrorClass::InvalidFileDescriptor
        } else if code == ENOMEM {
            ErrorClass::OutOfMemory
        } else if code == EFBIG || code == EOVERFLOW {
            ErrorClass::FileTooLarge
        } else if code == EBUSY || code == ETXTBSY {
            ErrorClass::ResourceBusy
        } else if code == EMFILE {
            ErrorClass::ProcessFileLimitReached
        } else if code == ENFILE {
            ErrorClass::SystemFileLimitReached
        } else {
            ErrorClass::Other
        }
    }

    /// The class of an I/O error kind.
    pub fn class_of_kind(kind: IoErrorKind) -> (res: ErrorClass)
        ensures
            res == kind_class(kind),
    {
        match kind {
            IoErrorKind::BrokenPipe => ErrorClass::BrokenPipe,
            IoErrorKind::NotFound => ErrorClass::FileNotFound,
            IoErrorKind::PermissionDenied => ErrorClass::AccessDenied,
            IoErrorKind::NotADirectory => ErrorClass::NotADirectory,
            IoErrorKind::AlreadyExists => ErrorClass::FileExists,
            IoErrorKind::IsADirectory => ErrorClass::IsDirectory,
            IoErrorKind::NotSeekable => ErrorClass::InvalidFileDescriptor,
            IoErrorKind::ResourceBusy => ErrorClass::ResourceBusy,
            IoErrorKind::InvalidFilename => ErrorClass::InvalidPath,
            IoErrorKind::Unsupported => ErrorClass::UnsupportedOperation,
            IoErrorKind::UnexpectedEof => ErrorClass::FilesystemIO,
            IoErrorKind::OutOfMemory => ErrorClass::OutOfMemory,
            IoErrorKind::Other => ErrorClass::Other,
        }
    }

    /// Classifies an I/O error whose operating system code (if any) and kind
    /// are given: by the code when there is one, else by the kind. The error
    /// is kept in the classes that keep it.
    pub fn from_parts(code: Option<i32>, kind: IoErrorKind, error: io::Error) -> (res: FilesystemIOError)
        ensures
            class_of(res) == error_class_of(code, kind),
    {
        let class = match code {
            Some(c) => Self::class_of_code(c),
            None => Self::class_of_kind(kind),
        };
        match class {
            ErrorClass::AccessDenied => FilesystemIOError::AccessDenied(error),
            ErrorClass::TemporarilyUnavailable => FilesystemIOError::TemporarilyUnavailable,
            ErrorClass::InvalidPath => FilesystemIOError::InvalidPath,
            ErrorClass::FilesystemIO => FilesystemIOError::FilesystemIO(error),
            ErrorClass::TooManySymbolicLinks => FilesystemIOError::TooManySymbolicLinks,
            ErrorClass::NameTooLong => FilesystemIOError::NameTooLong,
            ErrorClass::FileNotFound => FilesystemIOError::FileNotFound,
            ErrorClass::OutOfMemory => FilesystemIOError::OutOfMemory,
            ErrorClass::NotADirectory => FilesystemIOError::NotADirectory,
            ErrorClass::BrokenPipe => FilesystemIOError::BrokenPipe(error),
            ErrorClass::FileExists => FilesystemIOError::FileExists(error),
            ErrorClass::IsDirectory => FilesystemIOError::IsDirectory(error),
            ErrorClass::FileTooLarge => FilesystemIOError::FileTooLarge(error),
            ErrorClass::ResourceBusy => FilesystemIOError::ResourceBusy(error),
            ErrorClass::InvalidFileDescriptor => FilesystemIOError::InvalidFileDescriptor(error),
            ErrorClass::ProcessFileLimitReached => FilesystemIOError::ProcessFileLimitReached(error),
            ErrorClass::SystemFileLimitReached => FilesystemIOError::SystemFileLimitReached(error),
            ErrorClass::UnsupportedOperation => FilesystemIOError::UnsupportedOperation(error),
            ErrorClass::Other => FilesystemIOError::Other(error),
        }
    }

    /// Creates a `FilesystemIOError` from an I/O error, by its operating
    /// system code when it has one, else by its kind.
    pub fn from_io_error(error: io::Error) -> (res: FilesystemIOError)
        ensures
            class_of(res) == error_class_of(os_code_of(error), io_kind_of(error)),
    {
        let code = raw_os_error(&error);
        let kind = error_kind(&error);
        Self::from_parts(code, kind, error)
    }
}

} // verus!
