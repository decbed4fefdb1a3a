//! A directory entry that borrows its path, so that entries can be filtered
//! before anything is allocated for them.
use vstd::prelude::*;
use crate::file_type::{dtype_to_file_type, FileType};
use crate::path::{file_name_start, DOT};
use crate::config::{regex_matches, SearchConfig};
use crate::dir_entry::DirEntry;
use crate::path::{equal_ignoring_ascii_case, extension_of, matches_extension};

verus! {

/// A directory entry over a borrowed path: its depth, its type, where its
/// file name starts in the path, and its inode.
pub struct TempDirent<'a> {
    path: &'a [u8],
    depth: u8,
    file_type: FileType,
    file_name_index: u16,
    inode: u64,
}

impl<'a> TempDirent<'a> {
    /// The file name starts within the path.
    #[verifier::type_invariant]
    spec fn name_within_path(self) -> bool {
        &&& self.file_name_index as int <= self.path@.len()
        &&& self.file_name_index as int == file_name_start(self.path@)
    }

    /// The entry's full path.
    pub closed spec fn full_path(self) -> Seq<u8> {
        self.path@
    }

    /// The entry's depth below the traversal's root.
    pub closed spec fn entry_depth(self) -> u8 {
        self.depth
    }

    /// The entry's type.
    pub closed spec fn kind(self) -> FileType {
        self.file_type
    }

    /// Where the file name starts in the path.
    pub closed spec fn name_start(self) -> u16 {
        self.file_name_index
    }

    /// The entry's inode.
    pub closed spec fn inode_number(self) -> u64 {
        self.inode
    }

    /// The entry's file name: the path from where the name starts.
    pub open spec fn name_bytes(self) -> Seq<u8> {
        self.full_path().skip(self.name_start() as int)
    }

    /// An entry for `path`, whose file name starts at `base_len` (after its
    /// last `/`), at the given
    /// depth, with the record's inode and the type that the record's `d_type`
    /// byte states, or where it states no known type, the type that a lookup
    /// of the path found (`lookup`; the lookup is the caller's to make).
    pub fn new(path: &'a [u8], depth: u8, base_len: u16, d_type: u8, lookup: Option<FileType>, inode: u64) -> (res: Self)
        requires
            base_len as int <= path@.len(),
            base_len as int == file_name_start(path@),
        ensures
            res.full_path() == path@,
            res.entry_depth() == depth,
            res.name_start() == base_len,
            res.kind() == if dtype_to_file_type(d_type) != FileType::Unknown {
                dtype_to_file_type(d_type)
            } else {
                match lookup {
                    Some(t) => t,
                    None => FileType::Unknown,
                }
            },
            res.inode_number() == inode,
    {
        TempDirent {
            path,
            depth,
            file_type: FileType::from_dtype_fallback(d_type, lookup),
            file_name_index: base_len,
            inode,
        }
    }

    /// Returns the entry's type.
    pub fn file_type(&self) -> (res: FileType)
        ensures
            res == self.kind(),
    {
        self.file_type
    }

    /// Whether the file name starts with a `.`.
    pub fn is_hidden(&self) -> (res: bool)
        ensures
            res == (self.name_bytes().len() > 0 && self.name_bytes()[0] == DOT),
    {
        proof {
            use_type_invariant(self);
        }
        (self.file_name_index as usize) < self.path.len() && self.path[self.file_name_index as usize] == DOT
    }

    /// The owned entry with the same path, type, inode, depth and file name
    /// start.
    pub fn to_direntry(&self) -> (res: DirEntry)
        ensures
            res.full_path() == self.full_path(),
            res.kind() == self.kind(),
            res.inode_number() == self.inode_number(),
            res.entry_depth() == self.entry_depth(),
            res.name_start() == self.name_start(),
    {
        proof {
            use_type_invariant(self);
        }
        let path = crate::bytes::to_vec(self.path);
        DirEntry::from_parts(path, self.file_type, self.inode, self.depth as u32, self.file_name_index as usize)
    }

    /// Returns the inode of the entry.
    pub fn inode(&self) -> (res: u64)
        ensures
            res == self.inode_number(),
    {
        self.inode
    }

    /// Returns the depth of the entry.
    pub fn depth(&self) -> (res: usize)
        ensures
            res == self.entry_depth(),
    {
        self.depth as usize
    }

    /// Returns the path of the entry.
    pub fn path(&self) -> (res: &'a [u8])
        ensures
            res@ == self.full_path(),
    {
        self.path
    }

    /// Returns the index at which the file name starts in the path.
    pub fn file_name_index(&self) -> (res: usize)
        ensures
            res == self.name_start(),
    {
        self.file_name_index as usize
    }

    /// Returns the file name of the entry.
    pub fn file_name(&self) -> (res: &'a [u8])
        ensures
            res@ == self.name_bytes(),
    {
        proof {
            use_type_invariant(self);
        }
        let start = self.file_name_index as usize;
        &self.path[start..self.path.len()]
    }

    /// Whether the file name has an extension equal to `ext` without regard
    /// to ASCII case.
    pub fn matches_extension(&self, ext: &[u8]) -> (res: bool)
        ensures
            res == match extension_of(self.name_bytes()) {
                Some(e) => equal_ignoring_ascii_case(e, ext@),
                None => false,
            },
    {
        matches_extension(self.file_name(), ext)
    }

    /// Whether the entry's path (or only its file name) matches the search's
    /// name regex; everything matches without one.
    pub fn matches_path(&self, file_name_only: bool, cfg: &SearchConfig) -> (res: bool)
        ensures
            res == match cfg.regex_match {
                None => true,
                Some(re) => regex_matches(
                    re@,
                    if file_name_only {
                        self.name_bytes()
                    } else {
                        self.full_path()
                    },
                ),
            },
    {
        proof {
            use_type_invariant(self);
        }
        cfg.matches_path(self.path, self.file_name_index as usize, !file_name_only)
    }

    /// Whether a traversal may descend into the entry without a further
    /// lookup: a directory or a symbolic link.
    pub fn is_traversible(&self) -> (res: bool)
        ensures
            res == (self.kind() == FileType::Directory || self.kind() == FileType::Symlink),
    {
        self.file_type.is_traversible()
    }

    /// Whether the entry is a block device.
    pub fn is_block_device(&self) -> (res: bool)
        ensures
            res == (self.kind() == FileType::BlockDevice),
    {
        self.file_type.is_block_device()
    }

    /// Whether the entry is a character device.
    pub fn is_char_device(&self) -> (res: bool)
        ensures
            res == (self.kind() == FileType::CharDevice),
    {
        self.file_type.is_char_device()
    }

    /// Whether the entry is a pipe (FIFO).
    pub fn is_pipe(&self) -> (res: bool)
        ensures
            res == (self.kind() == FileType::Pipe),
    {
        self.file_type.is_pipe()
    }

    /// Whether the entry is a socket.
    pub fn is_socket(&self) -> (res: bool)
        ensures
            res == (self.kind() == FileType::Socket),
    {
        self.file_type.is_socket()
    }

    /// Whether the entry is a regular file.
    pub fn is_regular_file(&self) -> (res: bool)
        ensures
            res == (self.kind() == FileType::RegularFile),
    {
        self.file_type.is_regular_file()
    }

    /// Whether the entry is a directory.
    pub fn is_dir(&self) -> (res: bool)
        ensures
            res == (self.kind() == FileType::Directory),
    {
        self.file_type.is_dir()
    }

    /// Whether the entry's type is unknown.
    pub fn is_unknown(&self) -> (res: bool)
        ensures
            res == (self.kind() == FileType::Unknown),
    {
        self.file_type.is_unknown()
    }

    /// Whether the entry is a symbolic link.
    pub fn is_symlink(&self) -> (res: bool)
        ensures
            res == (self.kind() == FileType::Symlink),
    {
        self.file_type.is_symlink()
    }
}

} // verus!
