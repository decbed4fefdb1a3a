use fdf::file_type::FileType;
use fdf::printer::{
    bytes_less, colour_disabled, colour_from_lookup, colour_key_of, entry_colour, format_coloured_entry,
    format_entry, print_limit, sort_entries,
};

#[test]
fn plain_entries() {
    assert_eq!(format_entry(b"./src/main.rs", false, false, false, false), b"./src/main.rs\n".to_vec());
    assert_eq!(format_entry(b"./src", true, false, true, false), b"src/\n".to_vec());
    assert_eq!(format_entry(b"/tmp/x", false, true, false, false), b"/tmp/x\0".to_vec());
    assert_eq!(format_entry(b"/tmp/x", false, false, false, true), b"\"/tmp/x\"\n".to_vec());
    assert_eq!(format_entry(b"/tmp", true, true, false, true), b"\"/tmp/\"\0".to_vec());
}

#[test]
fn coloured_entries() {
    assert_eq!(
        format_coloured_entry(b"./a.rs", b"\x1b[1;31m", false, true, false),
        b"\x1b[1;31ma.rs\x1b[0m\n".to_vec()
    );
    assert_eq!(
        format_coloured_entry(b"/d", b"\x1b[34m", true, false, true),
        b"\"\x1b[34m/d/\x1b[0m\"\n".to_vec()
    );
}

#[test]
fn colour_can_be_turned_off() {
    assert!(colour_disabled(true, None, None));
    assert!(colour_disabled(false, Some("TRUE"), None));
    assert!(colour_disabled(false, None, Some("true")));
    assert!(colour_disabled(false, Some("tRuE"), Some("no")));
    assert!(!colour_disabled(false, Some("1"), Some("yes")));
    assert!(!colour_disabled(false, None, None));
    assert!(!colour_disabled(false, Some("TRUE!"), None));
}

#[test]
fn limits() {
    assert_eq!(print_limit(Some(10)), 10);
    assert_eq!(print_limit(None), usize::MAX);
}

#[test]
fn byte_order_is_lexicographic() {
    assert!(bytes_less(b"a", b"b"));
    assert!(bytes_less(b"ab", b"abc"));
    assert!(!bytes_less(b"abc", b"ab"));
    assert!(!bytes_less(b"same", b"same"));
    assert!(bytes_less(b"Z", b"a"));
    assert!(bytes_less(b"", b"\0"));
}

#[test]
fn entries_sort_by_path() {
    let entries = vec![
        (b"./b".to_vec(), false),
        (b"./a/z".to_vec(), false),
        (b"./a".to_vec(), true),
        (b"./C".to_vec(), false),
    ];
    let sorted = sort_entries(entries);
    let paths: Vec<&[u8]> = sorted.iter().map(|(p, _)| p.as_slice()).collect();
    assert_eq!(paths, vec![&b"./C"[..], b"./a", b"./a/z", b"./b"]);
    assert!(sorted[1].1);
    assert!(sort_entries(Vec::new()).is_empty());
}

#[test]
fn colour_keys_of_entries() {
    assert_eq!(colour_key_of(FileType::Directory, None, false), Some(b"directory".to_vec()));
    assert_eq!(colour_key_of(FileType::Symlink, None, false), Some(b"symlink".to_vec()));
    assert_eq!(colour_key_of(FileType::Symlink, None, true), Some(b"directory".to_vec()));
    assert_eq!(colour_key_of(FileType::RegularFile, Some(b"rs"), false), Some(b"rs".to_vec()));
    assert_eq!(colour_key_of(FileType::RegularFile, None, false), None);
    assert_eq!(colour_key_of(FileType::BlockDevice, None, false), Some(b"block_device".to_vec()));
    assert_eq!(colour_key_of(FileType::CharDevice, None, false), Some(b"character_device".to_vec()));
    assert_eq!(colour_key_of(FileType::Socket, None, false), Some(b"socket".to_vec()));
    assert_eq!(colour_key_of(FileType::Pipe, None, false), Some(b"pipe".to_vec()));
    assert_eq!(colour_from_lookup(None), b"\x1b[0m".to_vec());
    assert_eq!(colour_from_lookup(Some(b"\x1b[1;34m".to_vec())), b"\x1b[1;34m".to_vec());
    assert_eq!(entry_colour(FileType::RegularFile, None, false), b"\x1b[0m".to_vec());
    assert_eq!(
        entry_colour(FileType::Directory, None, false),
        compile_time_ls_colours::colour_path_or_reset(b"directory").to_vec()
    );
}
