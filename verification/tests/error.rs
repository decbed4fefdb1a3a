use fdf::error::{ErrorClass, FilesystemIOError, IoErrorKind, ENOENT};
use std::io;

fn class(e: &FilesystemIOError) -> ErrorClass {
    match e {
        FilesystemIOError::AccessDenied(_) => ErrorClass::AccessDenied,
        FilesystemIOError::TemporarilyUnavailable => ErrorClass::TemporarilyUnavailable,
        FilesystemIOError::InvalidPath => ErrorClass::InvalidPath,
        FilesystemIOError::FilesystemIO(_) => ErrorClass::FilesystemIO,
        FilesystemIOError::TooManySymbolicLinks => ErrorClass::TooManySymbolicLinks,
        FilesystemIOError::NameTooLong => ErrorClass::NameTooLong,
        FilesystemIOError::FileNotFound => ErrorClass::FileNotFound,
        FilesystemIOError::OutOfMemory => ErrorClass::OutOfMemory,
        FilesystemIOError::NotADirectory => ErrorClass::NotADirectory,
        FilesystemIOError::BrokenPipe(_) => ErrorClass::BrokenPipe,
        FilesystemIOError::FileExists(_) => ErrorClass::FileExists,
        FilesystemIOError::IsDirectory(_) => ErrorClass::IsDirectory,
        FilesystemIOError::FileTooLarge(_) => ErrorClass::FileTooLarge,
        FilesystemIOError::ResourceBusy(_) => ErrorClass::ResourceBusy,
        FilesystemIOError::InvalidFileDescriptor(_) => ErrorClass::InvalidFileDescriptor,
        FilesystemIOError::ProcessFileLimitReached(_) => ErrorClass::ProcessFileLimitReached,
        FilesystemIOError::SystemFileLimitReached(_) => ErrorClass::SystemFileLimitReached,
        FilesystemIOError::UnsupportedOperation(_) => ErrorClass::UnsupportedOperation,
        FilesystemIOError::Other(_) => ErrorClass::Other,
    }
}

#[test]
fn os_codes_are_classified() {
    let cases = [
        (libc::EACCES, ErrorClass::AccessDenied),
        (libc::EPERM, ErrorClass::AccessDenied),
        (libc::EAGAIN, ErrorClass::TemporarilyUnavailable),
        (libc::EINTR, ErrorClass::TemporarilyUnavailable),
        (libc::EINVAL, ErrorClass::InvalidPath),
        (libc::EFAULT, ErrorClass::InvalidPath),
        (libc::ENOENT, ErrorClass::FileNotFound),
        (libc::EEXIST, ErrorClass::FileExists),
        (libc::EISDIR, ErrorClass::IsDirectory),
        (libc::ENOTDIR, ErrorClass::NotADirectory),
        (libc::ELOOP, ErrorClass::TooManySymbolicLinks),
        (libc::ENAMETOOLONG, ErrorClass::NameTooLong),
        (libc::EIO, ErrorClass::FilesystemIO),
        (libc::EBADF, ErrorClass::InvalidFileDescriptor),
        (libc::ENOMEM, ErrorClass::OutOfMemory),
        (libc::EFBIG, ErrorClass::FileTooLarge),
        (libc::EOVERFLOW, ErrorClass::FileTooLarge),
        (libc::EBUSY, ErrorClass::ResourceBusy),
        (libc::ETXTBSY, ErrorClass::ResourceBusy),
        (libc::EMFILE, ErrorClass::ProcessFileLimitReached),
        (libc::ENFILE, ErrorClass::SystemFileLimitReached),
        (libc::EXDEV, ErrorClass::Other),
    ];
    for (code, expected) in cases {
        assert_eq!(FilesystemIOError::class_of_code(code), expected, "code {code}");
        let e = FilesystemIOError::from_io_error(io::Error::from_raw_os_error(code));
        assert_eq!(class(&e), expected, "code {code}");
    }
}

#[test]
fn kinds_classify_errors_without_a_code() {
    let cases = [
        (io::ErrorKind::BrokenPipe, ErrorClass::BrokenPipe),
        (io::ErrorKind::NotFound, ErrorClass::FileNotFound),
        (io::ErrorKind::PermissionDenied, ErrorClass::AccessDenied),
        (io::ErrorKind::AlreadyExists, ErrorClass::FileExists),
        (io::ErrorKind::Unsupported, ErrorClass::UnsupportedOperation),
        (io::ErrorKind::UnexpectedEof, ErrorClass::FilesystemIO),
        (io::ErrorKind::OutOfMemory, ErrorClass::OutOfMemory),
        (io::ErrorKind::InvalidData, ErrorClass::Other),
    ];
    for (kind, expected) in cases {
        let e = FilesystemIOError::from_io_error(io::Error::new(kind, "synthetic"));
        assert_eq!(class(&e), expected);
    }
    assert_eq!(FilesystemIOError::class_of_kind(IoErrorKind::NotSeekable), ErrorClass::InvalidFileDescriptor);
    assert_eq!(FilesystemIOError::class_of_kind(IoErrorKind::InvalidFilename), ErrorClass::InvalidPath);
}

#[test]
fn a_code_takes_precedence_over_the_kind() {
    let e = FilesystemIOError::from_parts(Some(ENOENT), IoErrorKind::BrokenPipe, io::Error::other("x"));
    assert_eq!(class(&e), ErrorClass::FileNotFound);
    let e = FilesystemIOError::from_parts(None, IoErrorKind::BrokenPipe, io::Error::other("x"));
    assert_eq!(class(&e), ErrorClass::BrokenPipe);
}

#[test]
fn messages_name_the_class_and_the_details() {
    let e = FilesystemIOError::from_io_error(io::Error::from_raw_os_error(libc::ENOENT));
    assert_eq!(e.to_string(), "File or directory not found");
    let e = FilesystemIOError::from_io_error(io::Error::new(io::ErrorKind::BrokenPipe, "pipe closed"));
    assert_eq!(e.to_string(), "Broken pipe: pipe closed");
    let e = FilesystemIOError::from_io_error(io::Error::from_raw_os_error(libc::EACCES));
    assert!(e.to_string().starts_with("Permission denied: "));
    assert!(e.to_string().len() > "Permission denied: ".len());
}
