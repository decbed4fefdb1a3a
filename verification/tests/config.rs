use fdf::config::{build_type_filter, SearchConfig, SearchConfigError};
use fdf::file_type::{FileType, FileTypeFilter};
use fdf::size_filter::SizeFilter;
use fdf::time_filter::{TimeFilter, Timestamp};

fn config(pattern: Option<&str>, use_glob: bool) -> Result<SearchConfig, SearchConfigError> {
    SearchConfig::new(
        pattern, true, false, true, None, None, false, None, None, None, use_glob, true, Vec::new(),
        Vec::new(),
    )
}

#[test]
fn a_pattern_matches_file_names() {
    let c = config(Some("^main"), false).unwrap();
    assert!(c.file_name_only);
    assert!(c.matches_path(b"/src/main.rs", 5, false));
    assert!(!c.matches_path(b"/src/lib.rs", 5, false));
    assert!(!c.matches_path(b"/main/lib.rs", 6, false));
    assert!(!c.matches_path(b"/src/main.rs", 5, true));
}

#[test]
fn a_pattern_with_a_slash_matches_paths() {
    let c = config(Some("src/"), false).unwrap();
    assert!(!c.file_name_only);
    let c = config(Some("src"), false).unwrap();
    assert!(c.file_name_only);
}

#[test]
fn patterns_that_match_everything_build_no_regex() {
    for p in [None, Some("."), Some(".*"), Some("")] {
        let c = config(p, false).unwrap();
        assert!(c.regex_match.is_none());
        assert!(c.matches_path(b"/any/thing", 5, false));
    }
    let c = config(Some("*"), true).unwrap();
    assert!(c.regex_match.is_some());
}

#[test]
fn glob_patterns_become_regexes() {
    let c = config(Some("*.rs"), true).unwrap();
    assert!(c.matches_path(b"/src/lib.rs", 5, false));
    assert!(!c.matches_path(b"/src/lib.rsx", 5, false));
}

#[test]
fn errors_for_bad_patterns() {
    assert!(matches!(config(Some("(unclosed"), false), Err(SearchConfigError::RegexError(_))));
    assert!(matches!(config(Some("[abc"), true), Err(SearchConfigError::GlobToRegexError(_))));
    let bad_ignore = SearchConfig::new(
        None, true, false, true, None, None, false, None, None, None, false, true,
        Vec::new(), vec!["{a,b".to_string()],
    );
    assert!(matches!(bad_ignore, Err(SearchConfigError::GlobToRegexError(_))));
    let bad_regex = SearchConfig::new(
        None, true, false, true, None, None, false, None, None, None, false, true,
        vec!["(".to_string()], Vec::new(),
    );
    assert!(matches!(bad_regex, Err(SearchConfigError::RegexError(_))));
}

#[test]
fn test_ignore_invalid_regex_returns_error() {
    let result = SearchConfig::new(
        None, true, false, true, None, None, false, None, None, None, false, true,
        vec![String::from("(")], Vec::new(),
    );
    assert!(matches!(result, Err(SearchConfigError::RegexError(_))));
}

#[test]
fn test_ignore_invalid_glob_returns_error() {
    let result = SearchConfig::new(
        None, true, false, true, None, None, false, None, None, None, false, true,
        Vec::new(), vec![String::from("[")],
    );
    assert!(matches!(result, Err(SearchConfigError::GlobToRegexError(_))));
}

#[test]
fn ignore_patterns_combine_plain_and_glob() {
    let c = SearchConfig::new(
        None, true, true, true, None, None, false, None, None, None, false, true,
        vec!["^/tmp/cache".to_string()], vec!["*.o".to_string()],
    )
    .unwrap();
    assert!(c.matches_ignore_path(b"/tmp/cache/x"));
    assert!(c.matches_ignore_path(b"main.O"));
    assert!(!c.matches_ignore_path(b"/src/main.c"));
    let none = config(None, false).unwrap();
    assert!(!none.matches_ignore_path(b"/tmp/cache/x"));
}

#[test]
fn case_insensitive_patterns() {
    let c = SearchConfig::new(
        Some("readme"), true, true, true, None, None, false, None, None, None, false, true,
        Vec::new(), Vec::new(),
    )
    .unwrap();
    assert!(c.matches_path(b"/x/README.md", 3, false));
}

#[test]
fn filters_by_extension_size_type_and_time() {
    let c = SearchConfig::new(
        None, true, false, true, Some(b"txt".to_vec()), Some(3), false,
        Some(SizeFilter::Min(10)), Some(FileTypeFilter::File),
        Some(TimeFilter::After(Timestamp { secs: 100, nanos: 0 })), false, true,
        Vec::new(), Vec::new(),
    )
    .unwrap();
    assert_eq!(c.depth, Some(3));
    assert!(c.matches_extension(b"notes.TXT"));
    assert!(!c.matches_extension(b"notes.md"));
    assert!(c.matches_size(FileType::RegularFile, Some((FileType::RegularFile, 10))));
    assert!(!c.matches_size(FileType::RegularFile, Some((FileType::RegularFile, 9))));
    assert!(!c.matches_size(FileType::RegularFile, None));
    assert!(c.matches_size(FileType::Symlink, Some((FileType::RegularFile, 20))));
    assert!(!c.matches_size(FileType::Symlink, Some((FileType::Directory, 20))));
    assert!(!c.matches_size(FileType::Directory, Some((FileType::Directory, 4096))));
    assert!(c.matches_type(FileType::RegularFile, false, false));
    assert!(!c.matches_type(FileType::Directory, false, false));
    assert!(c.matches_time(Some(Timestamp { secs: 101, nanos: 0 })));
    assert!(!c.matches_time(Some(Timestamp { secs: 100, nanos: 0 })));
    assert!(!c.matches_time(None));
    let open = config(None, false).unwrap();
    assert!(open.matches_extension(b"x"));
    assert!(open.matches_size(FileType::Directory, None));
    assert!(open.matches_type(FileType::Socket, false, false));
    assert!(open.matches_time(None));
}

#[test]
fn type_filter_for_executables_and_empty_files() {
    let x = SearchConfig::new(
        None, true, false, true, None, None, false, None, Some(FileTypeFilter::Executable), None,
        false, true, Vec::new(), Vec::new(),
    )
    .unwrap();
    assert!(x.matches_type(FileType::RegularFile, true, false));
    assert!(!x.matches_type(FileType::RegularFile, false, true));
}

#[test]
fn type_letters_select_entries() {
    let set = build_type_filter(&vec!["D".to_string(), "fx".to_string()]);
    assert!(set.filter_by_type(FileType::Directory, false, false));
    assert!(set.filter_by_type(FileType::RegularFile, false, false));
    assert!(set.filter_by_type(FileType::Socket, false, true));
    assert!(!set.filter_by_type(FileType::Socket, true, false));
    assert!(!set.filter_by_type(FileType::Symlink, false, false));
    let empty = build_type_filter(&Vec::new());
    assert!(!empty.filter_by_type(FileType::Directory, true, true));
}

#[test]
fn error_messages() {
    let Err(e) = config(Some("[abc"), true) else { panic!("expected an error") };
    assert_eq!(e.to_string(), "Glob to regex conversion error: Unclosed character class");
    let Err(e) = config(Some("(x"), false) else { panic!("expected an error") };
    assert!(e.to_string().starts_with("Regex error: "));
    assert!(e.to_string().len() > "Regex error: ".len());
    assert_eq!(SearchConfigError::NotADirectory.to_string(), "Path is not a directory");
}
