use fdf::dirent::{
    dirent_const_time_strlen, dirent_name_length, init_from_path, read_record, FileDes, GetDents, NAME_ROOM,
    BUFFER_SIZE,
};
use fdf::file_type::{DT_DIR, DT_REG};

/// A record as the kernel lays it out, with the record length in the
/// machine's byte order.
fn record(inode: u64, d_type: u8, name: &[u8]) -> Vec<u8> {
    let len = (19 + name.len() + 1 + 7) / 8 * 8;
    let mut r = Vec::new();
    r.extend_from_slice(&inode.to_ne_bytes());
    r.extend_from_slice(&0u64.to_ne_bytes());
    r.extend_from_slice(&(len as u16).to_ne_bytes());
    r.push(d_type);
    r.extend_from_slice(name);
    while r.len() < len {
        r.push(0);
    }
    r
}

#[test]
fn strlen_of_names_of_every_length_up_to_a_few_words() {
    for n in 0..40usize {
        let name: Vec<u8> = (0..n).map(|i| b'a' + (i % 26) as u8).collect();
        let r = record(7, DT_REG, &name);
        assert_eq!(dirent_const_time_strlen(&r), n, "name of length {n}");
        assert_eq!(dirent_name_length(&r), n);
    }
}

#[test]
fn strlen_ignores_the_header_of_the_shortest_record() {
    // The shortest record is 24 bytes; its length field (24, 0) and a zero
    // type byte share the last word with the name.
    let r = record(1, 0, b"abcd");
    assert_eq!(r.len(), 24);
    assert_eq!(dirent_const_time_strlen(&r), 4);
    let r = record(1, 0, b"a");
    assert_eq!(r.len(), 24);
    assert_eq!(dirent_const_time_strlen(&r), 1);
}

#[test]
fn strlen_matches_a_byte_scan() {
    for name in [&b"."[..], b"..", b"hello.txt", b"a-much-longer-file-name.tar.gz", b"\x01\x01\x01"] {
        let r = record(3, DT_REG, name);
        let scanned = r[19..].iter().position(|b| *b == 0).unwrap();
        assert_eq!(dirent_const_time_strlen(&r), scanned);
    }
}

#[test]
fn read_record_decodes_fields() {
    let little = u16::from_ne_bytes([1, 0]) == 1;
    let r = record(0x0102_0304_0506_0708, DT_DIR, b"src");
    let rec = read_record(&r, 0, r.len(), little).unwrap();
    assert_eq!(rec.inode, 0x0102_0304_0506_0708);
    assert_eq!(rec.reclen as usize, r.len());
    assert_eq!(rec.d_type, DT_DIR);
    assert_eq!(rec.name, b"src".to_vec());
}

#[test]
fn read_record_refuses_malformed_records() {
    let little = u16::from_ne_bytes([1, 0]) == 1;
    let r = record(1, DT_REG, b"abc");
    // Too short to hold a record.
    assert!(read_record(&r, 0, 16, little).is_none());
    // A record that runs past the end of the batch.
    assert!(read_record(&r, 0, r.len() - 8, little).is_none());
    // A record length that is not a multiple of eight.
    let mut bad = r.clone();
    bad[16..18].copy_from_slice(&23u16.to_ne_bytes());
    assert!(read_record(&bad, 0, bad.len(), little).is_none());
    // A name without its terminator.
    let mut open = r.clone();
    for b in &mut open[19..] {
        *b = b'x';
    }
    assert!(read_record(&open, 0, open.len(), little).is_none());
}

#[test]
fn base_paths_end_with_one_slash() {
    let (base, index) = init_from_path(b"/tmp");
    assert_eq!(&base[..index], b"/tmp/");
    assert_eq!(index, 5);
    assert_eq!(base.len(), index + NAME_ROOM);
    assert!(base[index..].iter().all(|&b| b == 0));
    let (base, index) = init_from_path(b"/");
    assert_eq!(&base[..index], b"/");
    assert_eq!(index, 1);
    assert_eq!(base.len(), 1 + NAME_ROOM);
}

#[test]
fn get_dents_reads_a_batch_and_skips_dot_entries() {
    let mut reader = GetDents::from_fd(FileDes(3), b"/tmp", 2);
    assert_eq!(*reader.dirfd().as_borrowed_fd(), 3);
    assert_eq!(reader.borrow_syscall_buffer().len(), BUFFER_SIZE);
    assert_eq!(reader.offset(), 0);
    assert_eq!(reader.remaining_bytes(), 0);
    assert!(!reader.is_end_of_stream());
    assert_eq!(reader.file_name_index(), 5);
    assert_eq!(reader.parent_depth(), 2);

    let mut batch = record(10, DT_DIR, b".");
    batch.extend(record(11, DT_DIR, b".."));
    batch.extend(record(12, DT_REG, b"notes.txt"));
    batch.extend(record(13, DT_DIR, b"sub"));
    let n = batch.len();
    reader.syscall_buffer()[..n].copy_from_slice(&batch);

    assert!(reader.are_more_entries_remaining(n as isize));
    assert_eq!(reader.remaining_bytes(), n);
    assert_eq!(reader.offset(), 0);

    let first = reader.next_entry().unwrap();
    assert_eq!(first.name, b"notes.txt".to_vec());
    assert_eq!(first.inode, 12);
    assert_eq!(reader.construct_path(&first.name), b"/tmp/notes.txt".to_vec());
    let second = reader.next_entry().unwrap();
    assert_eq!(second.name, b"sub".to_vec());
    assert_eq!(second.d_type, DT_DIR);
    assert_eq!(reader.offset(), n);
    assert!(reader.next_entry().is_none());
    assert!(!reader.is_end_of_stream());

    // The directory has nothing more to give.
    assert!(!reader.are_more_entries_remaining(0));
    assert!(reader.is_end_of_stream());
    assert_eq!(reader.remaining_bytes(), 0);
    // Once ended, the stream stays ended.
    assert!(!reader.are_more_entries_remaining(24));
    assert!(reader.is_end_of_stream());
}

#[test]
fn get_dents_returns_dot_entries_from_get_next_entry() {
    let mut reader = GetDents::from_fd(FileDes(4), b"/", 0);
    let batch = record(1, DT_DIR, b".");
    let n = batch.len();
    reader.syscall_buffer()[..n].copy_from_slice(&batch);
    assert!(reader.are_more_entries_remaining(n as isize));
    let dot = reader.get_next_entry().unwrap();
    assert_eq!(dot.name, b".".to_vec());
    assert_eq!(reader.construct_path(b"etc"), b"/etc".to_vec());
    assert!(reader.get_next_entry().is_none());
}

#[test]
fn get_dents_skips_the_rest_of_a_malformed_batch() {
    let mut reader = GetDents::from_fd(FileDes(5), b"/tmp", 0);
    let mut batch = record(1, DT_REG, b"good");
    let mut broken = record(2, DT_REG, b"bad");
    broken[16..18].copy_from_slice(&0u16.to_ne_bytes());
    batch.extend(broken);
    let n = batch.len();
    reader.syscall_buffer()[..n].copy_from_slice(&batch);
    assert!(reader.are_more_entries_remaining(n as isize));
    assert_eq!(reader.get_next_entry().unwrap().name, b"good".to_vec());
    assert!(reader.get_next_entry().is_none());
    assert_eq!(reader.offset(), n);
}

#[test]
fn a_failed_read_ends_the_stream() {
    let mut reader = GetDents::from_fd(FileDes(6), b"/tmp", 0);
    assert!(!reader.are_more_entries_remaining(-1));
    assert!(reader.is_end_of_stream());
    assert_eq!(reader.remaining_bytes(), 0);
}

#[test]
fn the_step_after_a_used_up_batch_refills_and_reads_on() {
    let mut reader = GetDents::from_fd(FileDes(7), b"/data", 1);
    let mut batch = record(1, DT_DIR, b".");
    batch.extend(record(2, DT_REG, b"first"));
    let n = batch.len();
    reader.syscall_buffer()[..n].copy_from_slice(&batch);
    let first = reader.next_after_refill(n as isize).unwrap();
    assert_eq!(first.name, b"first".to_vec());
    assert_eq!(reader.offset(), n);
    assert!(reader.next_entry().is_none());

    let second_batch = record(3, DT_REG, b"second");
    let m = second_batch.len();
    reader.syscall_buffer()[..m].copy_from_slice(&second_batch);
    let second = reader.next_after_refill(m as isize).unwrap();
    assert_eq!(second.name, b"second".to_vec());
    assert_eq!(second.inode, 3);
    assert_eq!(reader.offset(), m);
    assert_eq!(reader.offset() % 8, 0);

    assert!(reader.next_after_refill(0).is_none());
    assert!(reader.is_end_of_stream());
    assert!(reader.next_after_refill(m as isize).is_none());
    assert!(reader.is_end_of_stream());
}
