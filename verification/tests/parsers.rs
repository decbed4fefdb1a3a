use fdf::file_type::FileTypeFilter;
use fdf::parsers::{FileTypeFilterParser, FileTypeParser, SizeFilterParser, TimeFilterParser};
use fdf::size_filter::SizeFilter;
use fdf::time_filter::TimeFilter;

#[test]
fn time_parser_accepts_specifications() {
    assert!(matches!(TimeFilterParser.parse_ref("-1h"), Ok(TimeFilter::After(_))));
    assert!(matches!(TimeFilterParser.parse_ref("+2d"), Ok(TimeFilter::Before(_))));
    assert!(matches!(TimeFilterParser.parse_ref("1d..2h"), Ok(TimeFilter::Between(_, _))));
}

#[test]
fn time_parser_explains_a_refusal() {
    let Err(fail) = TimeFilterParser.parse_ref("soon") else {
        panic!("accepted an invalid time");
    };
    assert_eq!(fail.message, "invalid format");
    assert_eq!(fail.suggested, vec!["-1h", "-30m", "+2d", "+1w", "1d..2h"]);
    assert_eq!(fail.usage[0], "Prefixes:");
    assert_eq!(fail.usage.len(), 5);
    assert_eq!(fail.valid.len(), 6);
    assert_eq!(fail.valid[5], "y, year, years");
}

#[test]
fn time_parser_offers_examples() {
    let values = TimeFilterParser.possible_values();
    let names: Vec<&str> = values.iter().map(|v| v.name.as_str()).collect();
    assert_eq!(names, vec!["-1h", "-30m", "-1d", "+2d", "+1w", "1d..2h"]);
    assert_eq!(values[0].help, "modified within the last hour");
    assert!(values.iter().all(|v| v.aliases.is_empty()));
}

#[test]
fn size_parser_accepts_and_refuses() {
    assert_eq!(SizeFilterParser.parse_ref("+1k").ok(), Some(SizeFilter::Min(1000)));
    assert_eq!(SizeFilterParser.parse_ref("-2gib").ok(), Some(SizeFilter::Max(2 * 1024 * 1024 * 1024)));
    let Err(fail) = SizeFilterParser.parse_ref("big") else {
        panic!("accepted an invalid size");
    };
    assert_eq!(fail.message, "invalid number");
    assert_eq!(fail.suggested, vec!["100", "1k", "+1m", "-500k", "+10mb", "-2gib"]);
    assert_eq!(fail.usage.len(), 4);
    assert_eq!(fail.valid, vec!["b", "k, kb", "ki, kib", "m, mb", "mi, mib", "g, gb", "gi, gib", "t, tb", "ti, tib"]);
    let values = SizeFilterParser.possible_values();
    assert_eq!(values.len(), 11);
    assert_eq!(values[1].name, "1k");
    assert_eq!(values[1].help, "exactly 1 kilobyte (1000 bytes)");
}

#[test]
fn file_type_parser_reads_names_in_any_case() {
    assert_eq!(FileTypeParser.parse_ref("d").ok(), Some(FileTypeFilter::Directory));
    assert_eq!(FileTypeParser.parse_ref("DIR").ok(), Some(FileTypeFilter::Directory));
    assert_eq!(FileTypeParser.parse_ref("HardLink").ok(), Some(FileTypeFilter::Directory));
    assert_eq!(FileTypeParser.parse_ref("fifo").ok(), Some(FileTypeFilter::Pipe));
    assert_eq!(FileTypeParser.parse_ref("chardevice").ok(), Some(FileTypeFilter::CharDevice));
    assert_eq!(FileTypeParser.parse_ref("BlockDev").ok(), Some(FileTypeFilter::BlockDevice));
    assert_eq!(FileTypeParser.parse_ref("sock").ok(), Some(FileTypeFilter::Socket));
    assert_eq!(FileTypeParser.parse_ref("e").ok(), Some(FileTypeFilter::Empty));
    assert_eq!(FileTypeParser.parse_ref("Executable").ok(), Some(FileTypeFilter::Executable));
    assert_eq!(FileTypeParser.parse_ref("u").ok(), Some(FileTypeFilter::Unknown));
    assert_eq!(FileTypeParser.parse_ref("link").ok(), Some(FileTypeFilter::Symlink));
    assert_eq!(FileTypeParser.parse_ref("regular").ok(), Some(FileTypeFilter::File));
}

#[test]
fn single_letters_agree_with_from_char() {
    for c in "dulfpcbsexq".chars() {
        let by_name = FileTypeFilterParser.parse_ref(&c.to_string()).ok();
        assert_eq!(by_name, FileTypeFilter::from_char(c).ok(), "letter {c}");
    }
}

#[test]
fn file_type_parser_explains_a_refusal() {
    let Err(fail) = FileTypeFilterParser.parse_ref("Folder") else {
        panic!("accepted an invalid type");
    };
    assert_eq!(fail.message, "invalid file type: 'Folder'");
    assert_eq!(fail.suggested, vec!["d", "f", "l", "s", "p"]);
    assert!(fail.usage.is_empty());
    assert_eq!(fail.valid.len(), 10);
    assert_eq!(fail.valid[0], "d, dir, directory, hardlink");
    let values = FileTypeParser.possible_values();
    assert_eq!(values.len(), 10);
    assert_eq!(values[0].name, "d");
    assert_eq!(values[0].aliases, vec!["dir", "directory", "hardlink"]);
    assert_eq!(values[6].aliases, vec!["block", "blockdev", "block-device"]);
    assert_eq!(values[9].help, "Executable file");
}

#[test]
fn every_advertised_alias_parses() {
    for value in FileTypeFilterParser.possible_values() {
        let expected = FileTypeFilterParser.parse_ref(&value.name).ok();
        assert!(expected.is_some());
        for alias in &value.aliases {
            assert_eq!(FileTypeFilterParser.parse_ref(alias).ok(), expected);
            assert_eq!(FileTypeParser.parse_ref(&alias.to_uppercase()).ok(), expected);
        }
    }
    assert_eq!(FileTypeParser.parse_ref("exe").ok(), Some(FileTypeFilter::Executable));
    assert_eq!(FileTypeParser.parse_ref("Block-Device").ok(), Some(FileTypeFilter::BlockDevice));
}

#[test]
fn checked_parsers_refuse_overflowing_values() {
    assert!(SizeFilterParser.checked_parse_ref("20000000t").is_none());
    assert_eq!(SizeFilterParser.checked_parse_ref("+1k").unwrap().ok(), Some(SizeFilter::Min(1000)));
    assert!(SizeFilterParser.checked_parse_ref("big").unwrap().is_err());
    assert!(TimeFilterParser.checked_parse_ref("9999999999999999y").is_none());
    assert!(matches!(TimeFilterParser.checked_parse_ref("-1h"), Some(Ok(TimeFilter::After(_)))));
    assert!(TimeFilterParser.checked_parse_ref("soon").unwrap().is_err());
    assert!(TimeFilter::checked_from_string("9999999999999999w").is_none());
    assert!(matches!(TimeFilter::checked_from_string("2d..1d"), Some(Ok(TimeFilter::Between(_, _)))));
    assert!(SizeFilter::fits("1k") && !SizeFilter::fits("20000000t"));
    assert!(TimeFilter::spans_fit("1w") && !TimeFilter::spans_fit("9999999999999999y"));
}
