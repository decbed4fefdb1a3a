//! The decisions that a traversal makes for each entry it meets: whether to
//! leave it out, whether to descend into it, whether it is a result, when a
//! file counts as empty, and when enough results have been found. The
//! traversal itself (reading directories, `stat` calls, printing) performs
//! what these decide.
use vstd::prelude::*;
use crate::config::{size_within, type_selected, SearchConfig};
use crate::file_type::FileType;
use crate::path::{equal_ignoring_ascii_case, extension_of};
use crate::temp_dirent::TempDirent;
use crate::time_filter::{time_matches, Timestamp};

verus! {

/// What the traversal does with one entry of a directory.
#[derive(Clone, Copy, Debug)]
pub struct EntryStep {
    /// Queue the entry's directory to be read.
    pub descend: bool,
    /// Hold the entry against the filters, as a possible result.
    pub consider: bool,
}

/// Whether the search leaves an entry out altogether: a hidden entry when
/// hidden files are hidden, or an ignored one.
pub open spec fn left_out(cfg: SearchConfig, is_hidden: bool, ignored: bool) -> bool {
    (cfg.hide_hidden && is_hidden) || ignored
}

/// Whether the traversal may enter the entry: a directory; or, when links
/// are followed, a link whose target is a directory not entered through a
/// link before (`first_visit`), so that a cycle of links ends; and only
/// above the depth limit.
pub open spec fn may_descend(
    cfg: SearchConfig,
    entry_type: FileType,
    target_type: Option<FileType>,
    first_visit: bool,
    entry_depth: u32,
) -> bool {
    &&& if cfg.follow_symlinks && entry_type == FileType::Symlink {
        target_type == Some(FileType::Directory) && first_visit
    } else {
        entry_type == FileType::Directory
    }
    &&& match cfg.depth {
        None => true,
        Some(d) => entry_depth < d,
    }
}

/// The step for an entry at `entry_depth`: left out entries are neither
/// entered nor considered; the others are considered, and entered when
/// [`may_descend`] allows. `target_type` is the type of a link's target (for
/// a link), and `first_visit` whether that target directory is met through a
/// link for the first time.
pub fn entry_step(
    cfg: &SearchConfig,
    is_hidden: bool,
    ignored: bool,
    entry_type: FileType,
    target_type: Option<FileType>,
    first_visit: bool,
    entry_depth: u32,
) -> (res: EntryStep)
    ensures
        res.consider == !left_out(*cfg, is_hidden, ignored),
        res.descend == (!left_out(*cfg, is_hidden, ignored) && may_descend(
            *cfg,
            entry_type,
            target_type,
            first_visit,
            entry_depth,
        )),
{
    if (cfg.hide_hidden && is_hidden) || ignored {
        return EntryStep { descend: false, consider: false };
    }
    let traversible = if cfg.follow_symlinks && entry_type.is_symlink() {
        match target_type {
            Some(t) => t.is_dir() && first_visit,
            None => false,
        }
    } else {
        entry_type.is_dir()
    };
    let within_depth = match cfg.depth {
        None => true,
        Some(d) => entry_depth < d,
    };
    EntryStep { descend: traversible && within_depth, consider: true }
}

/// Whether an entry passes every filter of the search: the name regex, the
/// extension, the type, the size and the modification time, with what the
/// traversal found of it (its type, whether it is executable or empty, what
/// a lookup gave, its modification time).
pub open spec fn entry_selected(
    cfg: SearchConfig,
    entry: TempDirent,
    entry_type: FileType,
    is_executable: bool,
    is_empty: bool,
    stat: Option<(FileType, u64)>,
    modified: Option<Timestamp>,
) -> bool {
    &&& match cfg.regex_match {
        None => true,
        Some(re) => crate::config::regex_matches(
            re@,
            if cfg.file_name_only {
                entry.name_bytes()
            } else {
                entry.full_path()
            },
        ),
    }
    &&& match cfg.extension_match {
        None => true,
        Some(ext) => match extension_of(entry.name_bytes()) {
            Some(e) => equal_ignoring_ascii_case(e, ext@),
            None => false,
        },
    }
    &&& match cfg.type_filter {
        None => true,
        Some(f) => type_selected(f, entry_type, is_executable, is_empty),
    }
    &&& match cfg.size_filter {
        None => true,
        Some(f) => match stat {
            None => false,
            Some((t, size)) => (entry_type == FileType::RegularFile || (entry_type == FileType::Symlink
                && t == FileType::RegularFile)) && size_within(f, size),
        },
    }
    &&& match cfg.time_filter {
        None => true,
        Some(f) => match modified {
            Some(t) => time_matches(f, t),
            None => false,
        },
    }
}

/// Whether an entry is a result of the search: it passes the filters in
/// order, name first and time last.
pub fn entry_passes(
    cfg: &SearchConfig,
    entry: &TempDirent,
    entry_type: FileType,
    is_executable: bool,
    is_empty: bool,
    stat: Option<(FileType, u64)>,
    modified: Option<Timestamp>,
) -> (res: bool)
    ensures
        res == entry_selected(*cfg, *entry, entry_type, is_executable, is_empty, stat, modified),
{
    entry.matches_path(cfg.file_name_only, cfg) && cfg.matches_extension(entry.file_name())
        && cfg.matches_type(entry_type, is_executable, is_empty) && cfg.matches_size(entry_type, stat)
        && cfg.matches_time(modified)
}

/// Whether a file counts as empty, from what a lookup found (its type and
/// size) and, for a directory, whether a read of it found a named entry
/// (`None` when it could not be read): a regular file of no bytes, or a
/// directory that was read and holds nothing but `.` and `..`. Nothing else
/// is empty.
pub fn is_empty_file(stat: Option<(FileType, u64)>, has_named_entry: Option<bool>) -> (res: bool)
    ensures
        res == match stat {
            Some((FileType::RegularFile, size)) => size == 0,
            Some((FileType::Directory, _)) => has_named_entry == Some(false),
            _ => false,
        },
{
    match stat {
        Some((FileType::RegularFile, size)) => size == 0,
        Some((FileType::Directory, _)) => match has_named_entry {
            Some(found) => !found,
            None => false,
        },
        _ => false,
    }
}

/// Whether deciding emptiness needs a read of the directory: only for a
/// directory.
pub fn emptiness_needs_listing(stat: Option<(FileType, u64)>) -> (res: bool)
    ensures
        res == (stat matches Some((FileType::Directory, _))),
{
    match stat {
        Some((FileType::Directory, _)) => true,
        _ => false,
    }
}

/// The count of results after one more, and whether it has reached the
/// limit, at which the search stops.
pub fn count_result(matched: usize, limit: usize) -> (res: (usize, bool))
    requires
        matched < usize::MAX,
    ensures
        res.0 == matched + 1,
        res.1 == (matched + 1 >= limit),
{
    let count = matched + 1;
    (count, count >= limit)
}


/// Whether an entry must be looked up (`stat`) before the filters: when a
/// size, time or type filter is set and no lookup was made yet.
pub fn lookup_needed(cfg: &SearchConfig, looked_up: bool) -> (res: bool)
    ensures
        res == (!looked_up && (cfg.size_filter is Some || cfg.time_filter is Some
            || cfg.type_filter is Some)),
{
    !looked_up && (cfg.size_filter.is_some() || cfg.time_filter.is_some() || cfg.type_filter.is_some())
}

/// The type that the filters see for an entry: the one its record states,
/// or, where the record states none, the one a lookup found (unknown without
/// a lookup).
pub fn resolved_type(stated: FileType, looked_up: Option<FileType>) -> (res: FileType)
    ensures
        res == if stated == FileType::Unknown {
            match looked_up {
                Some(t) => t,
                None => FileType::Unknown,
            }
        } else {
            stated
        },
{
    match stated {
        FileType::Unknown => match looked_up {
            Some(t) => t,
            None => FileType::Unknown,
        },
        _ => stated,
    }
}

} // verus!
