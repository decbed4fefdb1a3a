use fdf::file_type::{FileType, DT_DIR, DT_LNK, DT_REG};
use fdf::path::{components, eq_ignore_ascii_case, extension, file_name_index, matches_extension};
use fdf::temp_dirent::TempDirent;

#[test]
fn extension_is_what_follows_the_last_dot() {
    assert_eq!(extension(b"file.txt"), Some(&b"txt"[..]));
    assert_eq!(extension(b"archive.tar.gz"), Some(&b"gz"[..]));
    assert_eq!(extension(b".bashrc"), Some(&b"bashrc"[..]));
    assert_eq!(extension(b"Makefile"), None);
    assert_eq!(extension(b""), None);
}

#[test]
fn a_final_dot_is_no_extension() {
    assert_eq!(extension(b"file."), None);
    assert_eq!(extension(b"a.b."), Some(&b"b."[..]));
}

#[test]
fn extensions_match_without_ascii_case() {
    assert!(matches_extension(b"main.RS", b"rs"));
    assert!(matches_extension(b"photo.Jpg", b"JPG"));
    assert!(!matches_extension(b"main.rs", b"r"));
    assert!(!matches_extension(b"README", b""));
    assert!(eq_ignore_ascii_case(b"HeLLo", b"hello"));
    assert!(!eq_ignore_ascii_case(b"hello", b"hellO!"));
    assert!(!eq_ignore_ascii_case(b"\xc3\x84", b"\xc3\xa4"));
}

#[test]
fn file_names_start_after_the_last_slash() {
    assert_eq!(file_name_index(b"/usr/bin/ls"), 9);
    assert_eq!(file_name_index(b"dir/"), 4);
    assert_eq!(file_name_index(b"/"), 0);
    assert_eq!(file_name_index(b"x"), 0);
    assert_eq!(file_name_index(b"name"), 0);
}

#[test]
fn temp_dirent_reports_its_record() {
    let path = b"/tmp/src/main.RS";
    let e = TempDirent::new(path, 2, 9, DT_REG, None, 42);
    assert_eq!(e.file_name(), b"main.RS");
    assert_eq!(e.path(), &path[..]);
    assert_eq!(e.inode(), 42);
    assert_eq!(e.depth(), 2);
    assert_eq!(e.file_name_index(), 9);
    assert!(e.matches_extension(b"rs"));
    assert!(!e.matches_extension(b"c"));
    assert!(e.is_regular_file());
    assert!(!e.is_dir());
    assert!(!e.is_traversible());
    assert!(!e.is_symlink());
    assert!(!e.is_unknown());
    assert!(!e.is_pipe() && !e.is_socket() && !e.is_block_device() && !e.is_char_device());
}

#[test]
fn directories_and_links_are_traversible() {
    let d = TempDirent::new(b"/tmp/sub", 1, 5, DT_DIR, None, 1);
    assert!(d.is_dir() && d.is_traversible());
    let l = TempDirent::new(b"/tmp/link", 1, 5, DT_LNK, None, 2);
    assert!(l.is_symlink() && l.is_traversible());
    let u = TempDirent::new(b"/tmp/what", 1, 5, 0, None, 3);
    assert!(u.is_unknown() && !u.is_traversible());
    let found = TempDirent::new(b"/tmp/what", 1, 5, 0, Some(FileType::Directory), 3);
    assert!(found.is_dir() && found.is_traversible());
    let stated = TempDirent::new(b"/tmp/file", 1, 5, DT_REG, Some(FileType::Directory), 4);
    assert_eq!(stated.file_type(), FileType::RegularFile);
}

#[test]
fn hidden_entries() {
    assert!(TempDirent::new(b"/home/u/.config", 1, 8, DT_DIR, None, 1).is_hidden());
    assert!(!TempDirent::new(b"/home/u/notes", 1, 8, DT_REG, None, 2).is_hidden());
    assert!(!TempDirent::new(b"/home/u/", 1, 8, DT_DIR, None, 3).is_hidden());
}

#[test]
fn path_components_skip_empty_pieces() {
    assert_eq!(components(b"/usr//lib/"), vec![&b"usr"[..], b"lib"]);
    assert_eq!(components(b"a/b"), vec![&b"a"[..], b"b"]);
    assert!(components(b"///").is_empty());
    assert!(components(b"").is_empty());
}
