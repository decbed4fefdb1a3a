use fdf::glob::{glob_to_regex, glob_to_regex_pattern, Error};

fn pat(p: &str) -> String {
    glob_to_regex_pattern(p).unwrap()
}

#[test]
fn glob_module_doc_example() {
    let re_name = glob_to_regex("linux-[0-9]*-{generic,aws}").unwrap();
    for name in &[
        "linux-5.2.27b1-generic",
        "linux-4.0.12-aws",
        "linux-unsigned-5.2.27b1-generic",
    ] {
        let okay = re_name.is_match(name);
        assert!(okay == !name.contains("unsigned"));
    }
}

#[test]
fn glob_literals_and_wildcards() {
    assert_eq!(pat("abc.txt"), r"^abc\.txt$");
    assert_eq!(pat("foo/test?.txt"), r"^foo/test[^/]\.txt$");
    assert_eq!(pat("*.rs"), r"^.*\.rs$");
    assert_eq!(pat(""), "^$");
    assert_eq!(pat("a]b}c"), r"^a\]b\}c$");
}

#[test]
fn glob_doc_examples_match() {
    let re = glob_to_regex("foo/test?.txt").unwrap();
    assert!(re.is_match("foo/test1.txt"));
    assert!(re.is_match("foo/test\".txt"));
    assert!(!re.is_match("foo/test/.txt"));
    let re = glob_to_regex("/etc/c[--9].conf").unwrap();
    assert!(re.is_match("/etc/c-.conf"));
    assert!(re.is_match("/etc/c..conf"));
    assert!(re.is_match("/etc/c7.conf"));
    assert!(!re.is_match("/etc/c/.conf"));
}

#[test]
fn glob_classes() {
    assert_eq!(pat("[abc]"), "^[abc]$");
    assert_eq!(pat("[cba]"), "^[abc]$");
    assert_eq!(pat("[aab]"), "^[ab]$");
    assert_eq!(pat("[!a]"), "^[^/a]$");
    assert_eq!(pat("[!/]"), "^[^/]$");
    assert_eq!(pat("[a/]"), "^[a]$");
    assert_eq!(pat("[-a]"), "^[a-]$");
    assert_eq!(pat("[a-]"), "^[a-]$");
    assert_eq!(pat("[]]"), r"^[\]]$");
    assert_eq!(pat("[a-c]"), "^[a-c]$");
    assert_eq!(pat("[a-a]"), "^[a]$");
    assert_eq!(pat("[--9]"), "^[--.0-9]$");
    assert_eq!(pat("[.-/]"), "^[.]$");
    assert_eq!(pat("[/-0]"), "^[0]$");
    assert_eq!(pat("[a-c-]"), "^[a-c-]$");
    assert_eq!(pat(r"[\n]"), "^[\n]$");
    assert_eq!(pat(r"[\]]"), r"^[\]]$");
}

#[test]
fn glob_escapes() {
    assert_eq!(pat(r"\*"), r"^\*$");
    assert_eq!(pat(r"\t"), "^\t$");
    assert_eq!(pat(r"\q"), "^q$");
    assert_eq!(pat(r"\."), r"^\.$");
}

#[test]
fn glob_alternations() {
    assert_eq!(pat("{b,a}"), "^(a|b)$");
    assert_eq!(pat("{a,a}"), "^(a)$");
    assert_eq!(pat("{}"), r"^\{\}$");
    assert_eq!(pat("{a.b,c}"), r"^(a\.b|c)$");
    assert_eq!(pat(r"{a\,b}"), "^(a,b)$");
    assert_eq!(pat("{,x}"), "^(|x)$");
}

#[test]
fn glob_errors() {
    assert!(matches!(glob_to_regex_pattern("a\\"), Err(Error::BareEscape)));
    assert!(matches!(glob_to_regex_pattern("[ab"), Err(Error::UnclosedClass)));
    assert!(matches!(glob_to_regex_pattern("["), Err(Error::UnclosedClass)));
    assert!(matches!(glob_to_regex_pattern("[b-a]"), Err(Error::ReversedRange('b', 'a'))));
    assert!(matches!(
        glob_to_regex_pattern("[a-c-e]"),
        Err(Error::RangeAfterRange('a', 'c'))
    ));
    assert!(matches!(glob_to_regex_pattern("{a,b"), Err(Error::UnclosedAlternation)));
    match glob_to_regex_pattern("{a,[b]}") {
        Err(Error::NotImplemented(msg)) => assert_eq!(msg, "FIXME: alternate character class"),
        other => panic!("unexpected {other:?}"),
    }
    match glob_to_regex_pattern(r"[a-\b]") {
        Err(Error::NotImplemented(msg)) => assert_eq!(
            msg,
            "FIXME: handle class range end escape with ClassAccumulator { negated: false, items: [] } start 'a'"
        ),
        other => panic!("unexpected {other:?}"),
    }
    match glob_to_regex_pattern(r"[!x0-9a-\b]") {
        Err(Error::NotImplemented(msg)) => assert_eq!(
            msg,
            "FIXME: handle class range end escape with ClassAccumulator { negated: true, items: [Char('x'), Range('0', '9')] } start 'a'"
        ),
        other => panic!("unexpected {other:?}"),
    }
}

#[test]
fn glob_invalid_regex_reports_pattern() {
    match glob_to_regex("a(b") {
        Err(Error::InvalidRegex(p, _)) => assert_eq!(p, "^a(b$"),
        other => panic!("unexpected {other:?}"),
    }
}

#[test]
fn glob_error_messages() {
    assert_eq!(Error::BareEscape.to_string(), "Bare escape at the end of the pattern");
    assert_eq!(Error::UnclosedClass.to_string(), "Unclosed character class");
    assert_eq!(Error::ReversedRange('z', 'a').to_string(), "Reversed range: z > a");
    assert_eq!(Error::RangeAfterRange('a', 'c').to_string(), "Range after range: a-c");
    assert_eq!(Error::UnclosedAlternation.to_string(), "Unclosed alternation");
    assert_eq!(Error::NotImplemented("x".to_string()).to_string(), "Not implemented: x");
    assert_eq!(
        Error::InvalidRegex("(".to_string(), "unclosed group".to_string()).to_string(),
        "Invalid regex pattern '(': unclosed group"
    );
}
