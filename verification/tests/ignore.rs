use fdf::ignore::{
    append_filtered_ignore_lines, expand_config_path, global_gitconfig_candidates,
    parse_excludes_files_from_config, split_once_byte, strip_trailing_cr, trim_ascii_whitespace,
    IgnoreMatcher,
};

fn v(s: &str) -> Vec<u8> {
    s.as_bytes().to_vec()
}

#[test]
fn trimming_and_splitting_bytes() {
    assert_eq!(trim_ascii_whitespace(b" \t a b \r\n"), b"a b");
    assert_eq!(trim_ascii_whitespace(b"   "), b"");
    assert_eq!(trim_ascii_whitespace(b"\x0bx\x0b"), b"\x0bx\x0b");
    assert_eq!(strip_trailing_cr(b"line\r"), b"line");
    assert_eq!(strip_trailing_cr(b"line\r\r"), b"line\r");
    assert_eq!(strip_trailing_cr(b"line"), b"line");
    assert_eq!(split_once_byte(b"key = value = x", b'='), Some((&b"key "[..], &b" value = x"[..])));
    assert_eq!(split_once_byte(b"novalue", b'='), None);
}

#[test]
fn ignore_files_give_their_rule_lines() {
    let mut out = Vec::new();
    let raw = b"# build output\n\ntarget/ \r\n  *.o\n#*.c\n";
    assert!(append_filtered_ignore_lines(raw, &mut out));
    assert_eq!(out, b"target/\n*.o\n".to_vec());
    assert!(append_filtered_ignore_lines(b"last", &mut out));
    assert_eq!(out, b"target/\n*.o\nlast\n".to_vec());
}

#[test]
fn an_ignore_file_of_comments_gives_nothing() {
    let mut out = b"kept\n".to_vec();
    assert!(!append_filtered_ignore_lines(b"# only\n   \n#comments\n", &mut out));
    assert!(!append_filtered_ignore_lines(b"", &mut out));
    assert_eq!(out, b"kept\n".to_vec());
}

#[test]
fn config_paths_expand_home_and_relative_names() {
    let home = Some(v("/home/u"));
    let dir = Some(v("/etc/git"));
    assert_eq!(expand_config_path(b"~", &home, &dir), Some(v("/home/u")));
    assert_eq!(expand_config_path(b"~/.gitignore", &home, &dir), Some(v("/home/u/.gitignore")));
    assert_eq!(expand_config_path(b"~/.gitignore", &None, &dir), None);
    assert_eq!(expand_config_path(b"/abs/ignore", &home, &dir), Some(v("/abs/ignore")));
    assert_eq!(expand_config_path(b"rel/ignore", &home, &dir), Some(v("/etc/git/rel/ignore")));
    assert_eq!(expand_config_path(b"rel", &home, &None), Some(v("rel")));
    assert_eq!(expand_config_path(b"rel", &home, &Some(v("/"))), Some(v("/rel")));
    assert_eq!(expand_config_path(b"~//x", &home, &dir), Some(v("/x")));
}

#[test]
fn excludes_files_come_from_core_sections_only() {
    let raw = b"[user]\n\tname = someone\n\texcludesFile = /not/this\n[Core]\r\n\texcludesfile = ~/.global_ignore # personal\n\tautocrlf = false\n[alias]\n\texcludesFile = /nor/this\n[core]\nEXCLUDESFILE = first second\n";
    let home = Some(v("/home/u"));
    let dir = Some(v("/home/u"));
    let files = parse_excludes_files_from_config(raw, &home, &dir);
    assert_eq!(
        files,
        vec![v("/home/u/.global_ignore"), v("/home/u/first"), v("/home/u/second")]
    );
}

#[test]
fn a_config_without_core_names_nothing() {
    let files = parse_excludes_files_from_config(b"[user]\nname = x\n", &None, &None);
    assert!(files.is_empty());
    let files = parse_excludes_files_from_config(b"excludesFile = /x\n", &None, &None);
    assert!(files.is_empty());
    let files = parse_excludes_files_from_config(b"[core]\nexcludesFile\n", &None, &None);
    assert!(files.is_empty());
}

#[test]
fn gitconfig_candidates_follow_xdg_rules() {
    let home = Some(v("/home/u"));
    assert_eq!(
        global_gitconfig_candidates(&home, &None),
        vec![v("/home/u/.gitconfig"), v("/home/u/.config/git/config")]
    );
    assert_eq!(
        global_gitconfig_candidates(&home, &Some(v("/xdg"))),
        vec![v("/home/u/.gitconfig"), v("/xdg/git/config")]
    );
    assert_eq!(global_gitconfig_candidates(&home, &Some(Vec::new())), vec![v("/home/u/.gitconfig")]);
    assert_eq!(global_gitconfig_candidates(&None, &None), Vec::<Vec<u8>>::new());
    assert_eq!(global_gitconfig_candidates(&None, &Some(v("/xdg/"))), vec![v("/xdg/git/config")]);
}

#[test]
fn gitignore_of_the_start_directory_applies_only_there() {
    let matcher = IgnoreMatcher::new(Some(v("/work/repo")));
    let global = vec![Some(v("*.swp\n")), None, Some(v("# nothing\n"))];
    let local = Some(v("target\n"));
    assert!(matcher.should_read_current_dir_gitignore(&Some(v("/work/repo"))));
    assert!(!matcher.should_read_current_dir_gitignore(&Some(v("/work"))));
    assert!(!matcher.should_read_current_dir_gitignore(&None));
    assert_eq!(
        matcher.gitconfig_contents(&global, &Some(v("/work/repo")), &local),
        Some(v("*.swp\ntarget\n"))
    );
    assert_eq!(matcher.gitconfig_contents(&global, &Some(v("/elsewhere")), &local), Some(v("*.swp\n")));
    assert_eq!(matcher.gitconfig_contents(&vec![None], &Some(v("/elsewhere")), &local), None);
    let unresolved = IgnoreMatcher::new(None);
    assert_eq!(unresolved.gitconfig_contents(&Vec::new(), &None, &local), None);
}
