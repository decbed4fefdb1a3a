use fdf::config::SearchConfig;
use fdf::file_type::{FileType, DT_DIR, DT_REG};
use fdf::search::{
    count_result, emptiness_needs_listing, entry_passes, entry_step, is_empty_file, lookup_needed, resolved_type,
};
use fdf::size_filter::SizeFilter;
use fdf::temp_dirent::TempDirent;

fn config(hide_hidden: bool, follow: bool, depth: Option<u32>, pattern: Option<&str>) -> SearchConfig {
    let mut c = SearchConfig::new(
        pattern, hide_hidden, false, true, None, depth, follow, None, None, None, false, true,
        Vec::new(), Vec::new(),
    )
    .unwrap();
    c.hide_hidden = hide_hidden;
    c.follow_symlinks = follow;
    c.depth = depth;
    c
}

#[test]
fn hidden_and_ignored_entries_are_left_out() {
    let c = config(true, false, None, None);
    let step = entry_step(&c, true, false, FileType::Directory, None, false, 1);
    assert!(!step.consider && !step.descend);
    let step = entry_step(&c, false, true, FileType::Directory, None, false, 1);
    assert!(!step.consider && !step.descend);
    let shown = config(false, false, None, None);
    let step = entry_step(&shown, true, false, FileType::Directory, None, false, 1);
    assert!(step.consider && step.descend);
}

#[test]
fn descent_follows_links_once_and_stops_at_the_depth_limit() {
    let c = config(false, true, Some(3), None);
    assert!(entry_step(&c, false, false, FileType::Symlink, Some(FileType::Directory), true, 1).descend);
    assert!(!entry_step(&c, false, false, FileType::Symlink, Some(FileType::Directory), false, 1).descend);
    assert!(!entry_step(&c, false, false, FileType::Symlink, Some(FileType::RegularFile), true, 1).descend);
    assert!(entry_step(&c, false, false, FileType::Directory, None, false, 2).descend);
    assert!(!entry_step(&c, false, false, FileType::Directory, None, false, 3).descend);
    assert!(!entry_step(&c, false, false, FileType::RegularFile, None, false, 1).descend);
    let unfollowed = config(false, false, None, None);
    assert!(!entry_step(&unfollowed, false, false, FileType::Symlink, Some(FileType::Directory), true, 1).descend);
}

#[test]
fn results_pass_every_filter() {
    let mut c = config(false, false, None, Some("^main"));
    c.size_filter = Some(SizeFilter::Min(10));
    let path = b"/src/main.rs";
    let entry = TempDirent::new(path, 1, 5, DT_REG, None, 1);
    let stat = Some((FileType::RegularFile, 20));
    assert!(entry_passes(&c, &entry, FileType::RegularFile, false, false, stat, None));
    assert!(!entry_passes(&c, &entry, FileType::RegularFile, false, false, Some((FileType::RegularFile, 5)), None));
    let other = TempDirent::new(b"/src/lib.rs", 1, 5, DT_REG, None, 2);
    assert!(!entry_passes(&c, &other, FileType::RegularFile, false, false, stat, None));
    let dir = TempDirent::new(b"/src/main", 1, 5, DT_DIR, None, 3);
    assert!(!entry_passes(&c, &dir, FileType::Directory, false, false, Some((FileType::Directory, 4096)), None));
}

#[test]
fn emptiness_of_files_and_directories() {
    assert!(is_empty_file(Some((FileType::RegularFile, 0)), None));
    assert!(!is_empty_file(Some((FileType::RegularFile, 1)), None));
    assert!(is_empty_file(Some((FileType::Directory, 4096)), Some(false)));
    assert!(!is_empty_file(Some((FileType::Directory, 4096)), Some(true)));
    assert!(!is_empty_file(Some((FileType::Directory, 4096)), None));
    assert!(!is_empty_file(Some((FileType::Socket, 0)), None));
    assert!(!is_empty_file(None, None));
    assert!(emptiness_needs_listing(Some((FileType::Directory, 0))));
    assert!(!emptiness_needs_listing(Some((FileType::RegularFile, 0))));
}

#[test]
fn the_result_limit() {
    assert_eq!(count_result(0, 1), (1, true));
    assert_eq!(count_result(1, 5), (2, false));
    assert_eq!(count_result(4, 5), (5, true));
}

#[test]
fn lookups_and_resolved_types() {
    let plain = config(false, false, None, None);
    assert!(!lookup_needed(&plain, false));
    let mut sized = config(false, false, None, None);
    sized.size_filter = Some(SizeFilter::Max(1));
    assert!(lookup_needed(&sized, false));
    assert!(!lookup_needed(&sized, true));
    assert_eq!(resolved_type(FileType::Unknown, Some(FileType::Pipe)), FileType::Pipe);
    assert_eq!(resolved_type(FileType::Unknown, None), FileType::Unknown);
    assert_eq!(resolved_type(FileType::Socket, Some(FileType::Pipe)), FileType::Socket);
}
