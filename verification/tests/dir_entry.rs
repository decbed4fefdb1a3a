use fdf::dir_entry::{strip_trailing_slash, DirEntry};
use fdf::dirent::{FileDes, GetDents};
use fdf::file_type::{FileType, DT_REG, S_IFDIR, S_IFLNK, S_IFREG};
use fdf::temp_dirent::TempDirent;

#[test]
fn root_paths_lose_a_trailing_slash() {
    assert_eq!(strip_trailing_slash(b"/tmp/dir/"), b"/tmp/dir");
    assert_eq!(strip_trailing_slash(b"/"), b"/");
    assert_eq!(strip_trailing_slash(b"dir//"), b"dir/");
    assert_eq!(strip_trailing_slash(b"file"), b"file");
}

#[test]
fn entries_for_search_roots() {
    let e = DirEntry::new(b"/tmp/test_dir/", S_IFDIR | 0o755, 77).unwrap();
    assert_eq!(e.as_bytes(), b"/tmp/test_dir");
    assert_eq!(e.len(), 13);
    assert_eq!(e.file_name(), b"test_dir");
    assert_eq!(e.file_name_index(), 5);
    assert_eq!(e.dirname(), b"tmp");
    assert_eq!(e.file_type(), FileType::Directory);
    assert!(e.is_dir() && !e.is_regular_file());
    assert_eq!(e.ino(), 77);
    assert_eq!(e.depth(), 0);
    assert!(!e.is_hidden());
    assert_eq!(e.extension(), None);
}

#[test]
fn the_root_entry() {
    let root = DirEntry::new(b"/", S_IFDIR, 2).unwrap();
    assert_eq!(root.file_name(), b"/");
    assert_eq!(root.dirname(), b"/");
    assert_eq!(root.extension(), None);
}

#[test]
fn names_extensions_and_hidden_files() {
    let f = DirEntry::new(b"test_dir/file.txt", S_IFREG, 3).unwrap();
    assert_eq!(f.dirname(), b"test_dir");
    assert_eq!(f.extension(), Some(&b"txt"[..]));
    assert!(f.is_regular_file());
    let h = DirEntry::new(b"/home/u/.helo", S_IFREG, 4).unwrap();
    assert!(h.is_hidden());
    assert_eq!(h.extension(), Some(&b"helo"[..]));
    let top = DirEntry::new(b"/file", S_IFREG, 5).unwrap();
    assert_eq!(top.dirname(), b"");
    let dot = DirEntry::new(b".", S_IFDIR, 6).unwrap();
    assert_eq!(dot.file_name(), b".");
    assert!(dot.is_hidden());
}

#[test]
fn paths_with_nul_bytes_are_refused() {
    assert!(DirEntry::new(b"/tmp/a\0b", S_IFREG, 1).is_none());
}

#[test]
fn owned_entries_from_borrowed_ones() {
    let t = TempDirent::new(b"/srv/www/index.html", 2, 9, DT_REG, None, 9);
    let e = t.to_direntry();
    assert_eq!(e.as_bytes(), b"/srv/www/index.html");
    assert_eq!(e.file_name(), b"index.html");
    assert_eq!(e.depth(), 2);
    assert_eq!(e.ino(), 9);
    assert!(e.is_regular_file());
}

#[test]
fn entries_that_a_reader_constructs() {
    let mut reader = GetDents::from_fd(FileDes(3), b"/srv", 4);
    let len = 24usize;
    let mut rec = Vec::new();
    rec.extend_from_slice(&11u64.to_ne_bytes());
    rec.extend_from_slice(&0u64.to_ne_bytes());
    rec.extend_from_slice(&(len as u16).to_ne_bytes());
    rec.push(DT_REG);
    rec.extend_from_slice(b"a.md\0");
    reader.syscall_buffer()[..len].copy_from_slice(&rec);
    assert!(reader.are_more_entries_remaining(len as isize));
    let record = reader.get_next_entry().unwrap();
    let entry = reader.construct_entry(&record);
    assert_eq!(entry.as_bytes(), b"/srv/a.md");
    assert_eq!(entry.file_name(), b"a.md");
    assert_eq!(entry.depth(), 5);
    assert_eq!(entry.ino(), 11);
    assert!(entry.is_regular_file());
    assert_eq!(entry.dirname(), b"srv");
}

#[test]
fn traversible_entries() {
    let dir = DirEntry::new(b"/d", S_IFDIR, 1).unwrap();
    assert!(dir.is_traversible(None));
    let link = DirEntry::new(b"/l", S_IFLNK, 2).unwrap();
    assert!(link.is_traversible(Some(FileType::Directory)));
    assert!(!link.is_traversible(Some(FileType::RegularFile)));
    assert!(!link.is_traversible(None));
    let file = DirEntry::new(b"/f", S_IFREG, 3).unwrap();
    assert!(!file.is_traversible(Some(FileType::Directory)));
}

#[test]
fn file_names_dirnames_and_base_lengths_of_entries() {
    let path = std::path::Path::new("/tmp/testdir_filename/parent/testfile.txt");
    let bytes = path.as_os_str().as_encoded_bytes();
    let entry = DirEntry::new(bytes, S_IFREG, 1).unwrap();
    assert_eq!(entry.file_name(), b"testfile.txt");
    assert_eq!(entry.dirname(), b"parent");
    let parent_len = path.parent().unwrap().as_os_str().len();
    assert_eq!(entry.file_name_index(), parent_len + 1);
}

#[test]
fn a_relative_name_without_a_slash_is_its_own_file_name() {
    let e = DirEntry::new(b"src", S_IFDIR, 8).unwrap();
    assert_eq!(e.file_name_index(), 0);
    assert_eq!(e.file_name(), b"src");
    assert_eq!(e.dirname(), b"");
    let hidden = DirEntry::new(b".config", S_IFDIR, 9).unwrap();
    assert!(hidden.is_hidden());
    assert_eq!(hidden.file_name(), b".config");
}

#[test]
fn parents_of_paths() {
    let file = DirEntry::new(b"/tmp/fdf_parent_test_dir/file.txt", S_IFREG, 10).unwrap();
    assert_eq!(file.parent(), Some(&b"/tmp/fdf_parent_test_dir"[..]));
    assert_eq!(DirEntry::new(b"/", S_IFDIR, 2).unwrap().parent(), None);
    assert_eq!(DirEntry::new(b".", S_IFDIR, 3).unwrap().parent(), Some(&b""[..]));
    assert_eq!(DirEntry::new(b"/usr", S_IFDIR, 4).unwrap().parent(), Some(&b"/"[..]));
    assert_eq!(DirEntry::new(b"a/b", S_IFREG, 5).unwrap().parent(), Some(&b"a"[..]));
    assert_eq!(DirEntry::new(b"a//b", S_IFREG, 6).unwrap().parent(), Some(&b"a"[..]));
    assert_eq!(DirEntry::new(b"name", S_IFREG, 7).unwrap().parent(), Some(&b""[..]));
}

#[test]
fn parents_agree_with_std_paths() {
    let cases = [
        "/", ".", "..", "a", "a/b", "a/b/", "a/.", "a/./b", "./a", "./.", "./", "/a", "//a",
        "/a/b/c", "a//b", "a/b/.", "a/b/./", "../x", "x/..", ".a", ".a/b", "/./a", "a/././b/",
        "name", "/usr/lib", "./a/./", "dir/sub/file.txt",
    ];
    for case in cases {
        let entry = DirEntry::new(case.as_bytes(), S_IFREG, 1).unwrap();
        let stripped = String::from_utf8(entry.as_bytes().to_vec()).unwrap();
        let expected = std::path::Path::new(stripped.as_str())
            .parent()
            .map(|p| p.to_str().unwrap().as_bytes().to_vec());
        assert_eq!(entry.parent().map(|p| p.to_vec()), expected, "parent of {case:?}");
    }
    assert_eq!(DirEntry::new(b"a/.", S_IFDIR, 1).unwrap().parent(), Some(&b""[..]));
    assert_eq!(DirEntry::new(b"a/./b", S_IFREG, 1).unwrap().parent(), Some(&b"a"[..]));
}
