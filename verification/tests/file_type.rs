use fdf::file_type::{
    FileType, FileTypeFilter, DT_BLK, DT_CHR, DT_DIR, DT_FIFO, DT_LNK, DT_REG, DT_SOCK, S_IFBLK,
    S_IFCHR, S_IFDIR, S_IFIFO, S_IFLNK, S_IFREG, S_IFSOCK,
};

#[test]
fn record_types_match_libc() {
    assert_eq!(DT_FIFO, libc::DT_FIFO);
    assert_eq!(DT_CHR, libc::DT_CHR);
    assert_eq!(DT_DIR, libc::DT_DIR);
    assert_eq!(DT_BLK, libc::DT_BLK);
    assert_eq!(DT_REG, libc::DT_REG);
    assert_eq!(DT_LNK, libc::DT_LNK);
    assert_eq!(DT_SOCK, libc::DT_SOCK);
    assert_eq!(S_IFDIR, libc::S_IFDIR);
    assert_eq!(S_IFREG, libc::S_IFREG);
    assert_eq!(S_IFLNK, libc::S_IFLNK);
}

#[test]
fn types_from_records_and_modes() {
    assert_eq!(FileType::from_dtype(DT_REG), FileType::RegularFile);
    assert_eq!(FileType::from_dtype(DT_DIR), FileType::Directory);
    assert_eq!(FileType::from_dtype(DT_LNK), FileType::Symlink);
    assert_eq!(FileType::from_dtype(DT_FIFO), FileType::Pipe);
    assert_eq!(FileType::from_dtype(DT_SOCK), FileType::Socket);
    assert_eq!(FileType::from_dtype(DT_CHR), FileType::CharDevice);
    assert_eq!(FileType::from_dtype(DT_BLK), FileType::BlockDevice);
    assert_eq!(FileType::from_dtype(0), FileType::Unknown);
    assert_eq!(FileType::from_mode(S_IFREG | 0o644), FileType::RegularFile);
    assert_eq!(FileType::from_mode(S_IFDIR | 0o755), FileType::Directory);
    assert_eq!(FileType::from_mode(S_IFLNK | 0o777), FileType::Symlink);
    assert_eq!(FileType::from_mode(S_IFIFO), FileType::Pipe);
    assert_eq!(FileType::from_mode(S_IFSOCK), FileType::Socket);
    assert_eq!(FileType::from_mode(S_IFCHR), FileType::CharDevice);
    assert_eq!(FileType::from_mode(S_IFBLK), FileType::BlockDevice);
    assert_eq!(FileType::from_mode(0o644), FileType::Unknown);
}

#[test]
fn unknown_record_types_fall_back_to_a_lookup() {
    assert_eq!(FileType::from_dtype_fallback(DT_REG, Some(FileType::Directory)), FileType::RegularFile);
    assert_eq!(FileType::from_dtype_fallback(0, Some(FileType::Socket)), FileType::Socket);
    assert_eq!(FileType::from_dtype_fallback(0, None), FileType::Unknown);
}

#[test]
fn type_predicates_and_names() {
    assert!(FileType::Directory.is_dir() && FileType::Directory.is_traversible());
    assert!(FileType::Symlink.is_symlink() && FileType::Symlink.is_traversible());
    assert!(!FileType::RegularFile.is_traversible() && FileType::RegularFile.is_regular_file());
    assert!(FileType::Pipe.is_pipe() && FileType::Socket.is_socket());
    assert!(FileType::CharDevice.is_char_device() && FileType::BlockDevice.is_block_device());
    assert!(FileType::Unknown.is_unknown());
    assert_eq!(FileType::Directory.to_string(), "Directory");
    assert_eq!(FileType::Unknown.to_string(), "Unknown");
}

#[test]
fn filter_bytes_round_trip() {
    let all = [
        FileTypeFilter::File,
        FileTypeFilter::Directory,
        FileTypeFilter::Symlink,
        FileTypeFilter::Pipe,
        FileTypeFilter::CharDevice,
        FileTypeFilter::BlockDevice,
        FileTypeFilter::Socket,
        FileTypeFilter::Unknown,
        FileTypeFilter::Executable,
        FileTypeFilter::Empty,
    ];
    for f in all {
        assert_eq!(FileTypeFilter::from_char(f.as_byte() as char), Ok(f));
    }
    assert_eq!(FileTypeFilter::File.as_byte(), b'f');
    assert_eq!(FileTypeFilter::Empty.as_byte(), b'e');
    assert_eq!(
        FileTypeFilter::from_char('z'),
        Err("Invalid file type: 'z'. See --help for valid types.".to_string())
    );
}
