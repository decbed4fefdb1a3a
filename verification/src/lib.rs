//! A file-finding library: reading directory records in batches, entries
//! and their paths, glob-to-regex conversion, the size, time and type filters and
//! their command-line parsers, the decisions of a search, git ignore
//! configuration, the output of results and the classification of
//! filesystem errors.

pub mod bytes;
pub mod config;
pub mod dir_entry;
pub mod dirent;
pub mod error;
pub mod file_type;
pub mod glob;
pub mod ignore;
pub mod memchr;
pub mod parsers;
pub mod path;
pub mod printer;
pub mod search;
pub mod size_filter;
pub mod sorted;
pub mod temp_dirent;
pub mod text;
pub mod time_filter;

pub use file_type::{FileType, FileTypeFilter};
