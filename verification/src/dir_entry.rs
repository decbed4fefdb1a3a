//! A directory entry that owns its path: the path, its type, inode and depth,
//! and where its file name starts.
use vstd::prelude::*;
use crate::bytes::to_vec;
use crate::file_type::{mode_to_file_type, FileType};
use crate::memchr::is_last_index;
use crate::path::{extension, extension_of, file_name_index, file_name_start, SLASH, DOT};

verus! {

/// A path without one trailing `/`, unless the path is the root `/` itself.
pub open spec fn without_trailing_slash(p: Seq<u8>) -> Seq<u8> {
    if p != seq![SLASH] && p.len() > 0 && p.last() == SLASH {
        p.drop_last()
    } else {
        p
    }
}

/// What follows the last `/` of `p`, or all of `p` when it has none.
pub open spec fn last_piece(p: Seq<u8>) -> Seq<u8> {
    if exists|i: int| is_last_index(p, SLASH, i) {
        p.skip((choose|i: int| is_last_index(p, SLASH, i)) + 1)
    } else {
        p
    }
}

/// The path of an entry's entry as given to `lstat`: without one trailing
/// `/`, unless it is the root.
pub fn strip_trailing_slash(path: &[u8]) -> (res: &[u8])
    ensures
        res@ == without_trailing_slash(path@),
{
    let is_root = path.len() == 1 && path[0] == SLASH;
    assert(is_root == (path@ == seq![SLASH])) by {
        if path@ == seq![SLASH] {
            assert(path@[0] == SLASH);
        }
        if is_root {
            assert(path@ =~= seq![SLASH]);
        }
    }
    if !is_root && path.len() > 0 && path[path.len() - 1] == SLASH {
        &path[0..path.len() - 1]
    } else {
        path
    }
}

/// Whether the bytes hold a NUL.
fn has_nul(bytes: &[u8]) -> (res: bool)
    ensures
        res == exists|i: int| 0 <= i < bytes@.len() && bytes@[i] == 0,
{
    let mut i: usize = 0;
    while i < bytes.len()
        invariant
            i <= bytes.len(),
            forall|j: int| 0 <= j < i ==> bytes@[j] != 0,
        decreases bytes.len() - i,
    {
        if bytes[i] == 0 {
            return true;
        }
        i = i + 1;
    }
    false
}

/// A directory entry: its path, type, inode, depth below the traversal's
/// root, and where its file name starts in the path.
pub struct DirEntry {
    path: Vec<u8>,
    file_type: FileType,
    inode: u64,
    depth: u32,
    file_name_index: usize,
}

/// The position of the last `/` in `p.take(n)`, or -1 when it has none.
pub open spec fn last_slash_before(p: Seq<u8>, n: int) -> int
    decreases n,
{
    if n <= 0 {
        -1
    } else if p[n - 1] == SLASH {
        n - 1
    } else {
        last_slash_before(p, n - 1)
    }
}

/// The last `/` before `n` lies before `n`.
pub proof fn lemma_last_slash_bounds(p: Seq<u8>, n: int)
    requires
        0 <= n <= p.len(),
    ensures
        -1 <= last_slash_before(p, n) < n,
    decreases n,
{
    if n > 0 && p[n - 1] != SLASH {
        lemma_last_slash_bounds(p, n - 1);
    }
}

/// How long the part of a path before its components is: the root `/`, or
/// a leading `.` component (`.` alone or followed by `/`); 0 otherwise.
pub open spec fn path_start_len(p: Seq<u8>) -> int {
    if p.len() > 0 && p[0] == SLASH {
        1
    } else if p.len() > 0 && p[0] == DOT && (p.len() == 1 || p[1] == SLASH) {
        1
    } else {
        0
    }
}

/// Where the components of `p.take(e)` after its start (of length `s`) end
/// once the trailing empty and `.` components are dropped with their `/`:
/// `a/./` ends after `a`.
pub open spec fn trim_back(p: Seq<u8>, s: int, e: int) -> int
    decreases e,
{
    if e <= s || e > p.len() || s < 0 {
        e
    } else {
        proof {
            lemma_last_slash_bounds(p, e);
        }
        let k = last_slash_before(p, e);
        let a = if k >= s {
            k + 1
        } else {
            s
        };
        if e == a || (e == a + 1 && p[a] == DOT) {
            trim_back(
                p,
                s,
                if k >= s {
                    k
                } else {
                    s
                },
            )
        } else {
            e
        }
    }
}

/// The length of the parent of a path, the prefix that it is, as
/// `std::path::Path::parent` gives it on Unix: the path without its last
/// component, and without the `/` and the `.` components that then end it.
/// Empty and `.` components do not count, except a leading `.`. `None` for
/// the empty path and for the root; the parent of `.` or of a single
/// component is empty, that of a component right under the root is `/`.
pub open spec fn parent_len(p: Seq<u8>) -> Option<int> {
    let s = path_start_len(p);
    let e = trim_back(p, s, p.len() as int);
    if e <= s {
        if s == 1 && p[0] == DOT {
            Some(0)
        } else {
            None
        }
    } else {
        let k = last_slash_before(p, e);
        Some(
            trim_back(
                p,
                s,
                if k >= s {
                    k
                } else {
                    s
                },
            ),
        )
    }
}

proof fn lemma_trim_back_bounds(p: Seq<u8>, s: int, e: int)
    requires
        0 <= s <= e <= p.len(),
    ensures
        s <= trim_back(p, s, e) <= e,
    decreases e,
{
    if e > s {
        lemma_last_slash_bounds(p, e);
        let k = last_slash_before(p, e);
        lemma_trim_back_bounds(p, s, if k >= s { k } else { s });
    }
}

/// The position of the last `/` in `path[..e]`.
fn last_slash(path: &[u8], e: usize) -> (res: Option<usize>)
    requires
        e <= path.len(),
    ensures
        match res {
            Some(k) => k as int == last_slash_before(path@, e as int),
            None => last_slash_before(path@, e as int) == -1,
        },
{
    let mut k: usize = e;
    while k > 0 && path[k - 1] != SLASH
        invariant
            k <= e <= path.len(),
            last_slash_before(path@, e as int) == last_slash_before(path@, k as int),
        decreases k,
    {
        k = k - 1;
    }
    if k == 0 {
        None
    } else {
        Some(k - 1)
    }
}

/// Where the components of `path[..e]` after a start of length `s` end, once
/// trailing empty and `.` components are dropped.
fn trim_components_back(path: &[u8], s: usize, e: usize) -> (res: usize)
    requires
        s <= e <= path.len(),
    ensures
        res as int == trim_back(path@, s as int, e as int),
        s <= res <= e,
    decreases e,
{
    proof {
        lemma_trim_back_bounds(path@, s as int, e as int);
    }
    if e <= s {
        return e;
    }
    proof {
        lemma_last_slash_bounds(path@, e as int);
    }
    let (a, next) = match last_slash(path, e) {
        Some(k) => if k >= s {
            (k + 1, k)
        } else {
            (s, s)
        },
        None => (s, s),
    };
    if e == a || (e == a + 1 && path[a] == DOT) {
        trim_components_back(path, s, next)
    } else {
        e
    }
}

impl DirEntry {
    /// The file name starts within the path.
    #[verifier::type_invariant]
    spec fn name_within_path(self) -> bool {
        &&& self.file_name_index <= self.path@.len()
        &&& self.file_name_index == file_name_start(self.path@)
    }

    /// The entry's path.
    pub closed spec fn full_path(self) -> Seq<u8> {
        self.path@
    }

    /// The entry's type.
    pub closed spec fn kind(self) -> FileType {
        self.file_type
    }

    /// The entry's inode.
    pub closed spec fn inode_number(self) -> u64 {
        self.inode
    }

    /// The entry's depth.
    pub closed spec fn entry_depth(self) -> u32 {
        self.depth
    }

    /// Where the file name starts in the path.
    pub closed spec fn name_start(self) -> int {
        self.file_name_index as int
    }

    /// The entry's file name.
    pub open spec fn name_bytes(self) -> Seq<u8> {
        self.full_path().skip(self.name_start())
    }

    /// The entry for a path at the root of a search, from what `lstat` found
    /// for it (its mode and inode): the path loses one trailing `/` (unless it
    /// is `/`), and its file name starts after its last `/`, or at its start
    /// when it has none. `None` when the path holds a NUL byte, which no path
    /// can.
    pub fn new(path: &[u8], mode: u32, inode: u64) -> (res: Option<DirEntry>)
        ensures
            match res {
                None => exists|i: int|
                    0 <= i < without_trailing_slash(path@).len() && without_trailing_slash(path@)[i]
                        == 0,
                Some(e) => {
                    &&& forall|i: int|
                        0 <= i < without_trailing_slash(path@).len()
                            ==> without_trailing_slash(path@)[i] != 0
                    &&& e.full_path() == without_trailing_slash(path@)
                    &&& e.kind() == mode_to_file_type(mode)
                    &&& e.inode_number() == inode
                    &&& e.entry_depth() == 0
                    &&& e.name_start() == file_name_start(without_trailing_slash(path@))
                },
            },
    {
        let stripped = strip_trailing_slash(path);
        if has_nul(stripped) {
            return None;
        }
        let file_name_index = file_name_index(stripped);
        proof {
            if path@.len() == 1 && path@[0] == SLASH {
                assert(path@ =~= seq![SLASH]);
            }
            if stripped@.len() != 1 && exists|i: int| is_last_index(stripped@, SLASH, i) {
                let i = choose|i: int| is_last_index(stripped@, SLASH, i);
                assert(i < stripped@.len());
            }
        }
        Some(
            DirEntry {
                path: to_vec(stripped),
                file_type: FileType::from_mode(mode),
                inode,
                depth: 0,
                file_name_index,
            },
        )
    }

    /// An entry from its parts, as a directory reader finds them: the file
    /// name of `path` starts at `file_name_index`, after its last `/`.
    pub fn from_parts(path: Vec<u8>, file_type: FileType, inode: u64, depth: u32, file_name_index: usize) -> (res: DirEntry)
        requires
            file_name_index <= path@.len(),
            file_name_index == file_name_start(path@),
        ensures
            res.full_path() == path@,
            res.kind() == file_type,
            res.inode_number() == inode,
            res.entry_depth() == depth,
            res.name_start() == file_name_index,
    {
        DirEntry { path, file_type, inode, depth, file_name_index }
    }

    /// Returns the path as bytes.
    pub fn as_bytes(&self) -> (res: &[u8])
        ensures
            res@ == self.full_path(),
    {
        self.path.as_slice()
    }

    /// Returns the length of the path.
    pub fn len(&self) -> (res: usize)
        ensures
            res == self.full_path().len(),
    {
        self.path.len()
    }

    /// Returns the entry's type.
    pub fn file_type(&self) -> (res: FileType)
        ensures
            res == self.kind(),
    {
        self.file_type
    }

    /// Returns the entry's depth.
    pub fn depth(&self) -> (res: usize)
        ensures
            res == self.entry_depth(),
    {
        self.depth as usize
    }

    /// Returns the entry's inode.
    pub fn ino(&self) -> (res: u64)
        ensures
            res == self.inode_number(),
    {
        self.inode
    }

    /// Returns where the file name starts in the path.
    pub fn file_name_index(&self) -> (res: usize)
        ensures
            res == self.name_start(),
            res == file_name_start(self.full_path()),
    {
        proof {
            use_type_invariant(self);
        }
        self.file_name_index
    }

    /// Returns the file name: the path from where the name starts.
    pub fn file_name(&self) -> (res: &[u8])
        ensures
            res@ == self.name_bytes(),
            res@ == self.full_path().skip(file_name_start(self.full_path())),
    {
        proof {
            use_type_invariant(self);
        }
        &self.path[self.file_name_index..self.path.len()]
    }

    /// Whether the file name starts with a `.`.
    pub fn is_hidden(&self) -> (res: bool)
        ensures
            res == (self.name_bytes().len() > 0 && self.name_bytes()[0] == DOT),
    {
        proof {
            use_type_invariant(self);
        }
        self.file_name_index < self.path.len() && self.path[self.file_name_index] == DOT
    }

    /// The parent of the entry's path, a prefix of it, as
    /// `std::path::Path::parent` gives it: the path without its last
    /// component; empty for a single component such as `.`, `/` for a
    /// component right under the root, and `None` for the root itself.
    pub fn parent(&self) -> (res: Option<&[u8]>)
        ensures
            match parent_len(self.full_path()) {
                None => res is None,
                Some(n) => res matches Some(s) && s@ == self.full_path().take(n),
            },
    {
        let path = self.path.as_slice();
        let n = path.len();
        let s: usize = if n > 0 && path[0] == SLASH {
            1
        } else if n > 0 && path[0] == DOT && (n == 1 || path[1] == SLASH) {
            1
        } else {
            0
        };
        let e = trim_components_back(path, s, n);
        if e <= s {
            if s == 1 && path[0] == DOT {
                return Some(&path[0..0]);
            } else {
                return None;
            }
        }
        proof {
            lemma_last_slash_bounds(path@, e as int);
        }
        let rem = match last_slash(path, e) {
            Some(k) => if k >= s {
                k
            } else {
                s
            },
            None => s,
        };
        let end = trim_components_back(path, s, rem);
        Some(&path[0..end])
    }

    /// The name of the directory the entry is in: the last component of the
    /// path before the file name; `/` for the root itself.
    pub fn dirname(&self) -> (res: &[u8])
        ensures
            self.full_path() == seq![SLASH] ==> res@ == seq![SLASH],
            self.full_path() != seq![SLASH] ==> res@ == last_piece(
                self.full_path().take(
                    if self.name_start() > 0 {
                        self.name_start() - 1
                    } else {
                        0
                    },
                ),
            ),
    {
        proof {
            use_type_invariant(self);
        }
        let is_root = self.path.len() == 1 && self.path[0] == SLASH;
        assert(is_root == (self.path@ == seq![SLASH])) by {
            if self.path@ == seq![SLASH] {
                assert(self.path@[0] == SLASH);
            }
            if is_root {
                assert(self.path@ =~= seq![SLASH]);
            }
        }
        if is_root {
            return &self.path[0..1];
        }
        let end = if self.file_name_index > 0 {
            self.file_name_index - 1
        } else {
            0
        };
        let before = &self.path[0..end];
        match crate::memchr::memrchr(SLASH, before) {
            Some(pos) => {
                proof {
                    let i = choose|i: int| is_last_index(before@, SLASH, i);
                    if i < pos {
                        assert(before@[pos as int] == SLASH);
                    } else if pos < i {
                        assert(before@[i] == SLASH);
                    }
                }
                &before[pos + 1..before.len()]
            },
            None => {
                proof {
                    if exists|i: int| is_last_index(before@, SLASH, i) {
                        let i = choose|i: int| is_last_index(before@, SLASH, i);
                        assert(before@[i] == SLASH);
                    }
                }
                before
            },
        }
    }

    /// The extension of the file name: what follows its last `.`, unless that
    /// `.` is the name's final byte.
    pub fn extension(&self) -> (res: Option<&[u8]>)
        ensures
            match extension_of(self.name_bytes()) {
                Some(e) => res matches Some(r) && r@ == e,
                None => res is None,
            },
    {
        extension(self.file_name())
    }

    /// Whether a traversal may descend into the entry: a directory, or a
    /// symbolic link whose target is one. `link_target` is what a `stat` of a
    /// link's target found (`None` when it failed); it is not looked at for
    /// other entries.
    pub fn is_traversible(&self, link_target: Option<FileType>) -> (res: bool)
        ensures
            res == (self.kind() == FileType::Directory || (self.kind() == FileType::Symlink
                && link_target == Some(FileType::Directory))),
    {
        match self.file_type {
            FileType::Directory => true,
            FileType::Symlink => match link_target {
                Some(t) => t.is_dir(),
                None => false,
            },
            _ => false,
        }
    }

    /// Whether the entry is a block device.
    pub fn is_block_device(&self) -> (res: bool)
        ensures
            res == (self.kind() == FileType::BlockDevice),
    {
        self.file_type.is_block_device()
    }

    /// Whether the entry is a character device.
    pub fn is_char_device(&self) -> (res: bool)
        ensures
            res == (self.kind() == FileType::CharDevice),
    {
        self.file_type.is_char_device()
    }

    /// Whether the entry is a pipe (FIFO).
    pub fn is_pipe(&self) -> (res: bool)
        ensures
            res == (self.kind() == FileType::Pipe),
    {
        self.file_type.is_pipe()
    }

    /// Whether the entry is a socket.
    pub fn is_socket(&self) -> (res: bool)
        ensures
            res == (self.kind() == FileType::Socket),
    {
        self.file_type.is_socket()
    }

    /// Whether the entry is a regular file.
    pub fn is_regular_file(&self) -> (res: bool)
        ensures
            res == (self.kind() == FileType::RegularFile),
    {
        self.file_type.is_regular_file()
    }

    /// Whether the entry is a directory.
    pub fn is_dir(&self) -> (res: bool)
        ensures
            res == (self.kind() == FileType::Directory),
    {
        self.file_type.is_dir()
    }

    /// Whether the entry's type is unknown.
    pub fn is_unknown(&self) -> (res: bool)
        ensures
            res == (self.kind() == FileType::Unknown),
    {
        self.file_type.is_unknown()
    }

    /// Whether the entry is a symbolic link.
    pub fn is_symlink(&self) -> (res: bool)
        ensures
            res == (self.kind() == FileType::Symlink),
    {
        self.file_type.is_symlink()
    }
}

} // verus!
