use fdf::dirent::dirent_const_time_strlen;
use fdf::memchr::{
    contains_zero_byte, find_char_in_word, find_last_char_in_word, find_zero_byte_u64, memrchr,
};
use rand::rngs::StdRng;
use rand::{Rng, RngExt, SeedableRng};

const RANDOM_SEED: u64 = 4269;

fn generate_random_byte_strings(count: usize, string_size: usize) -> Vec<Vec<u8>> {
    let mut rng = StdRng::seed_from_u64(RANDOM_SEED);
    let mut strings = Vec::with_capacity(count);
    for _ in 0..count {
        let length = rng.random_range(0..=string_size);
        let bytes: Vec<u8> = (0..length).map(|_| rng.random()).collect();
        strings.push(bytes);
    }
    strings
}

fn generate_random_u64_arrays(count: usize) -> Vec<[u8; 8]> {
    let mut rng = StdRng::seed_from_u64(RANDOM_SEED);
    let mut arrays = Vec::with_capacity(count);
    for _ in 0..count {
        let mut bytes = [0u8; 8];
        rng.fill_bytes(&mut bytes);
        arrays.push(bytes);
    }
    arrays
}

fn check_memrchr(search: u8, sl: &[u8]) {
    let realans = sl.iter().rposition(|b| *b == search);
    let memrchrtest = memrchr(search, sl);
    assert!(
        memrchrtest == realans,
        "memrchr: expected {realans:?}, got {memrchrtest:?} for byte {search:#04x}"
    );
}

#[test]
fn tmemrchr() {
    let byte_strings = generate_random_byte_strings(1000, 1000);
    for byte in 0..=u8::MAX {
        for string in &byte_strings {
            check_memrchr(byte, string);
        }
    }
}

#[test]
fn test_reversed() {
    let arrays = generate_random_u64_arrays(1000);
    for bytes in arrays.iter() {
        for i in 0..=u8::MAX {
            let expected_pos = bytes.iter().rposition(|&b| b == i);
            let detected_pos = find_last_char_in_word(i, *bytes);
            assert_eq!(detected_pos, expected_pos, "bytes={bytes:?}");
        }
    }
}

#[test]
fn test_forward() {
    let arrays = generate_random_u64_arrays(1000);
    for bytes in arrays.iter() {
        for i in 0..=u8::MAX {
            let expected_pos = bytes.iter().position(|&b| b == i);
            let detected_pos = find_char_in_word(i, *bytes);
            assert_eq!(detected_pos, expected_pos, "bytes={bytes:?}");
        }
    }
}

/// The record length for a name of `name_len` bytes: header, name and
/// terminator, rounded up to a multiple of eight.
fn dirent_reclen_for_name_len(name_len: usize) -> usize {
    (19 + name_len + 1).next_multiple_of(8)
}

#[test]
fn test_dirent_const_time_strlen_randomised_dirents() {
    let names = generate_random_byte_strings(2_000, 255);
    for raw in names {
        let name_len = raw.len().min(255);
        let reclen = dirent_reclen_for_name_len(name_len);
        let mut record = vec![0u8; reclen];
        record[16..18].copy_from_slice(&(reclen as u16).to_ne_bytes());
        for (i, &b) in raw.iter().take(name_len).enumerate() {
            record[19 + i] = if b == 0 { 1 } else { b };
        }
        let expected = record[19..].iter().position(|&b| b == 0).unwrap();
        let got = dirent_const_time_strlen(&record);
        assert_eq!(got, expected, "got {got}, expected {expected}");
    }
}

#[test]
fn zero_bytes_in_words() {
    assert_eq!(find_zero_byte_u64(u64::from_le_bytes([1, 2, 0, 4, 0, 6, 7, 8])), 2);
    assert_eq!(find_zero_byte_u64(0), 0);
    assert_eq!(find_zero_byte_u64(0x00ff_ffff_ffff_ffff), 7);
    assert!(contains_zero_byte(usize::from_le_bytes([9; core::mem::size_of::<usize>()]) & !0xff));
    assert!(!contains_zero_byte(usize::MAX));
    assert!(!contains_zero_byte(usize::from_le_bytes([0x01; core::mem::size_of::<usize>()])));
    assert!(contains_zero_byte(0x0100));
}
