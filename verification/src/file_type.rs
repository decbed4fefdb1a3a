use vstd::prelude::*;

verus! {

/// `d_type` value of a FIFO in a directory record.
pub const DT_FIFO: u8 = 1;
/// `d_type` value of a character device.
pub const DT_CHR: u8 = 2;
/// `d_type` value of a directory.
pub const DT_DIR: u8 = 4;
/// `d_type` value of a block device.
pub const DT_BLK: u8 = 6;
/// `d_type` value of a regular file.
pub const DT_REG: u8 = 8;
/// `d_type` value of a symbolic link.
pub const DT_LNK: u8 = 10;
/// `d_type` value of a socket.
pub const DT_SOCK: u8 = 12;

/// Mask of the file-type bits of `st_mode`.
pub const S_IFMT: u32 = 0o170000;
/// `st_mode` type bits of a FIFO.
pub const S_IFIFO: u32 = 0o010000;
/// `st_mode` type bits of a character device.
pub const S_IFCHR: u32 = 0o020000;
/// `st_mode` type bits of a directory.
pub const S_IFDIR: u32 = 0o040000;
/// `st_mode` type bits of a block device.
pub const S_IFBLK: u32 = 0o060000;
/// `st_mode` type bits of a regular file.
pub const S_IFREG: u32 = 0o100000;
/// `st_mode` type bits of a symbolic link.
pub const S_IFLNK: u32 = 0o120000;
/// `st_mode` type bits of a socket.
pub const S_IFSOCK: u32 = 0o140000;

/// The type of a file in the filesystem, as reported by a directory record
/// (`d_type`) or by the mode bits of `stat`.
#[derive(Debug, Clone, Copy, PartialEq, Eq, Hash)]
pub enum FileType {
    /// Block special device file (e.g. /dev/sda)
    BlockDevice,
    /// Character special device file (e.g. /dev/tty)
    CharDevice,
    /// Directory
    Directory,
    /// FIFO (named pipe)
    Pipe,
    /// Symbolic link
    Symlink,
    /// Regular file
    RegularFile,
    /// Socket file
    Socket,
    /// Unknown file type
    Unknown,
}

/// The file type that a `d_type` byte denotes.
pub open spec fn dtype_to_file_type(d_type: u8) -> FileType {
    if d_type == DT_REG {
        FileType::RegularFile
    } else if d_type == DT_DIR {
        FileType::Directory
    } else if d_type == DT_BLK {
        FileType::BlockDevice
    } else if d_type == DT_CHR {
        FileType::CharDevice
    } else if d_type == DT_FIFO {
        FileType::Pipe
    } else if d_type == DT_LNK {
        FileType::Symlink
    } else if d_type == DT_SOCK {
        FileType::Socket
    } else {
        FileType::Unknown
    }
}

/// The file type that the type bits of a `st_mode` value denote.
pub open spec fn mode_to_file_type(mode: u32) -> FileType {
    let bits = mode & S_IFMT;
    if bits == S_IFREG {
        FileType::RegularFile
    } else if bits == S_IFDIR {
        FileType::Directory
    } else if bits == S_IFBLK {
        FileType::BlockDevice
    } else if bits == S_IFCHR {
        FileType::CharDevice
    } else if bits == S_IFIFO {
        FileType::Pipe
    } else if bits == S_IFLNK {
        FileType::Symlink
    } else if bits == S_IFSOCK {
        FileType::Socket
    } else {
        FileType::Unknown
    }
}

impl FileType {
    /// Converts a directory record's `d_type` value to a `FileType`;
    /// any value other than the seven known ones (e.g. `DT_UNKNOWN`) gives `Unknown`.
    pub fn from_dtype(d_type: u8) -> (res: FileType)
        ensures
            res == dtype_to_file_type(d_type),
    {
        if d_type == DT_REG {
            FileType::RegularFile
        } else if d_type == DT_DIR {
            FileType::Directory
        } else if d_type == DT_BLK {
            FileType::BlockDevice
        } else if d_type == DT_CHR {
            FileType::CharDevice
        } else if d_type == DT_FIFO {
            FileType::Pipe
        } else if d_type == DT_LNK {
            FileType::Symlink
        } else if d_type == DT_SOCK {
            FileType::Socket
        } else {
            FileType::Unknown
        }
    }

    /// The type that a directory record's `d_type` states, or, where it
    /// states none that is known, the type that a lookup of the entry found
    /// (`None` when the lookup failed, which leaves the type unknown).
    pub fn from_dtype_fallback(d_type: u8, lookup: Option<FileType>) -> (res: FileType)
        ensures
            res == if dtype_to_file_type(d_type) != FileType::Unknown {
                dtype_to_file_type(d_type)
            } else {
                match lookup {
                    Some(t) => t,
                    None => FileType::Unknown,
                }
            },
    {
        let stated = Self::from_dtype(d_type);
        if !stated.is_unknown() {
            stated
        } else {
            match lookup {
                Some(t) => t,
                None => FileType::Unknown,
            }
        }
    }

    /// Converts a `st_mode` value to a `FileType` by its type bits.
    pub fn from_mode(mode: u32) -> (res: FileType)
        ensures
            res == mode_to_file_type(mode),
    {
        let bits = mode & S_IFMT;
        if bits == S_IFREG {
            FileType::RegularFile
        } else if bits == S_IFDIR {
            FileType::Directory
        } else if bits == S_IFBLK {
            FileType::BlockDevice
        } else if bits == S_IFCHR {
            FileType::CharDevice
        } else if bits == S_IFIFO {
            FileType::Pipe
        } else if bits == S_IFLNK {
            FileType::Symlink
        } else if bits == S_IFSOCK {
            FileType::Socket
        } else {
            FileType::Unknown
        }
    }

    /// Returns true if this represents a directory.
    pub fn is_dir(&self) -> (res: bool)
        ensures
            res == (*self == FileType::Directory),
    {
        matches!(*self, FileType::Directory)
    }

    /// Returns true if this represents a regular file.
    pub fn is_regular_file(&self) -> (res: bool)
        ensures
            res == (*self == FileType::RegularFile),
    {
        matches!(*self, FileType::RegularFile)
    }

    /// Returns true if this represents a symbolic link.
    pub fn is_symlink(&self) -> (res: bool)
        ensures
            res == (*self == FileType::Symlink),
    {
        matches!(*self, FileType::Symlink)
    }

    /// Returns true if this represents a block device.
    pub fn is_block_device(&self) -> (res: bool)
        ensures
            res == (*self == FileType::BlockDevice),
    {
        matches!(*self, FileType::BlockDevice)
    }

    /// Returns true if this represents a character device.
    pub fn is_char_device(&self) -> (res: bool)
        ensures
            res == (*self == FileType::CharDevice),
    {
        matches!(*self, FileType::CharDevice)
    }

    /// Returns true if this represents a FIFO (named pipe).
    pub fn is_pipe(&self) -> (res: bool)
        ensures
            res == (*self == FileType::Pipe),
    {
        matches!(*self, FileType::Pipe)
    }

    /// Returns true if this represents a socket.
    pub fn is_socket(&self) -> (res: bool)
        ensures
            res == (*self == FileType::Socket),
    {
        matches!(*self, FileType::Socket)
    }

    /// Returns true if this represents an unknown file type.
    pub fn is_unknown(&self) -> (res: bool)
        ensures
            res == (*self == FileType::Unknown),
    {
        matches!(*self, FileType::Unknown)
    }

    /// Returns true for the types that a traversal may descend into without
    /// a further lookup: directories and symbolic links.
    pub fn is_traversible(&self) -> (res: bool)
        ensures
            res == (*self == FileType::Directory || *self == FileType::Symlink),
    {
        matches!(*self, FileType::Directory | FileType::Symlink)
    }

    /// A human-readable name of the file type.
    pub fn to_string(&self) -> (res: String)
        ensures
            res@ == file_type_name(*self),
    {
        let s = match *self {
            FileType::BlockDevice => "Block device",
            FileType::CharDevice => "Character device",
            FileType::Directory => "Directory",
            FileType::Pipe => "FIFO",
            FileType::Symlink => "Symlink",
            FileType::RegularFile => "Regular file",
            FileType::Socket => "Socket",
            FileType::Unknown => "Unknown",
        };
        proof {
            broadcast use vstd::string::to_string_from_display_ensures_for_str;
        }
        s.to_string()
    }
}

/// The display name of each file type.
pub open spec fn file_type_name(t: FileType) -> Seq<char> {
    match t {
        FileType::BlockDevice => "Block device"@,
        FileType::CharDevice => "Character device"@,
        FileType::Directory => "Directory"@,
        FileType::Pipe => "FIFO"@,
        FileType::Symlink => "Symlink"@,
        FileType::RegularFile => "Regular file"@,
        FileType::Socket => "Socket"@,
        FileType::Unknown => "Unknown"@,
    }
}

/// File type filter for directory traversal.
#[derive(Debug, Clone, Copy, PartialEq, Eq)]
pub enum FileTypeFilter {
    /// Regular file
    File,
    /// Directory
    Directory,
    /// Symbolic link
    Symlink,
    /// Named pipe (FIFO)
    Pipe,
    /// Character device
    CharDevice,
    /// Block device
    BlockDevice,
    /// Socket
    Socket,
    /// Unknown file type
    Unknown,
    /// Executable file
    Executable,
    /// Empty file
    Empty,
}

/// The single-byte code of each filter.
pub open spec fn filter_byte(f: FileTypeFilter) -> u8 {
    match f {
        FileTypeFilter::File => 102u8,
        FileTypeFilter::Directory => 100u8,
        FileTypeFilter::Symlink => 108u8,
        FileTypeFilter::Pipe => 112u8,
        FileTypeFilter::CharDevice => 99u8,
        FileTypeFilter::BlockDevice => 98u8,
        FileTypeFilter::Socket => 115u8,
        FileTypeFilter::Unknown => 117u8,
        FileTypeFilter::Executable => 120u8,
        FileTypeFilter::Empty => 101u8,
    }
}

/// The filter that a single character names, if any.
pub open spec fn char_to_filter(c: char) -> Option<FileTypeFilter> {
    if c == 'd' {
        Some(FileTypeFilter::Directory)
    } else if c == 'u' {
        Some(FileTypeFilter::Unknown)
    } else if c == 'l' {
        Some(FileTypeFilter::Symlink)
    } else if c == 'f' {
        Some(FileTypeFilter::File)
    } else if c == 'p' {
        Some(FileTypeFilter::Pipe)
    } else if c == 'c' {
        Some(FileTypeFilter::CharDevice)
    } else if c == 'b' {
        Some(FileTypeFilter::BlockDevice)
    } else if c == 's' {
        Some(FileTypeFilter::Socket)
    } else if c == 'e' {
        Some(FileTypeFilter::Empty)
    } else if c == 'x' {
        Some(FileTypeFilter::Executable)
    } else {
        None
    }
}

impl FileTypeFilter {
    /// The single-byte code of the filter: `f`, `d`, `l`, `p`, `c`, `b`, `s`,
    /// `u`, `x` or `e`.
    pub fn as_byte(self) -> (res: u8)
        ensures
            res == filter_byte(self),
    {
        match self {
            FileTypeFilter::File => 102u8,
            FileTypeFilter::Directory => 100u8,
            FileTypeFilter::Symlink => 108u8,
            FileTypeFilter::Pipe => 112u8,
            FileTypeFilter::CharDevice => 99u8,
            FileTypeFilter::BlockDevice => 98u8,
            FileTypeFilter::Socket => 115u8,
            FileTypeFilter::Unknown => 117u8,
            FileTypeFilter::Executable => 120u8,
            FileTypeFilter::Empty => 101u8,
        }
    }

    /// Parses a single character into a filter; any other character is refused
    /// with a message that names it.
    pub fn from_char(c: char) -> (res: Result<FileTypeFilter, String>)
        ensures
            char_to_filter(c) matches Some(f) ==> res == Ok::<FileTypeFilter, String>(f),
            char_to_filter(c) is None ==> (res matches Err(msg) && msg@ == invalid_type_message(c)),
    {
        if c == 'd' {
            Ok(FileTypeFilter::Directory)
        } else if c == 'u' {
            Ok(FileTypeFilter::Unknown)
        } else if c == 'l' {
            Ok(FileTypeFilter::Symlink)
        } else if c == 'f' {
            Ok(FileTypeFilter::File)
        } else if c == 'p' {
            Ok(FileTypeFilter::Pipe)
        } else if c == 'c' {
            Ok(FileTypeFilter::CharDevice)
        } else if c == 'b' {
            Ok(FileTypeFilter::BlockDevice)
        } else if c == 's' {
            Ok(FileTypeFilter::Socket)
        } else if c == 'e' {
            Ok(FileTypeFilter::Empty)
        } else if c == 'x' {
            Ok(FileTypeFilter::Executable)
        } else {
            Err(invalid_type_text(c))
        }
    }
}

/// The message that refuses a character that names no file type.
pub open spec fn invalid_type_message(c: char) -> Seq<char> {
    "Invalid file type: '"@ + seq![c] + "'. See --help for valid types."@
}

fn invalid_type_text(c: char) -> (res: String)
    ensures
        res@ == invalid_type_message(c),
{
    let mut s = String::from_str("Invalid file type: '");
    s.push(c);
    s.append("'. See --help for valid types.");
    s
}

/// Every filter's single-byte code is the character that `from_char` reads
/// back as the same filter.
pub proof fn lemma_filter_byte_round_trip(f: FileTypeFilter)
    ensures
        char_to_filter(filter_byte(f) as char) == Some(f),
{
}

} // verus!
