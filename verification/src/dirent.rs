//! Directory records as `getdents64` writes them, and the length of the name
//! that a record carries, found without a byte-by-byte scan.
//!
//! A record is laid out as: inode (8 bytes), offset (8 bytes), record length
//! (2 bytes), type (1 byte), then the name and its NUL terminator, padded with
//! zero bytes to a multiple of eight.
use vstd::prelude::*;
use vstd::std_specs::bits::u64_trailing_zeros;
use crate::memchr::{
    byte_of, classic_mask, first_zero_byte, lemma_first_zero, lemma_positions, load_word,
    word_from_bytes, word_of, zero_byte_mask,
};

verus! {

/// Where the record length starts in a record.
pub const RECLEN_OFFSET: usize = 16;
/// Where the type byte stands in a record.
pub const TYPE_OFFSET: usize = 18;
/// Where the name starts in a record.
pub const NAME_OFFSET: usize = 19;
/// The shortest record: the header rounded up to a multiple of eight.
pub const MIN_RECORD_LEN: usize = 24;

/// A record whose length is a multiple of eight between the minimum and the
/// largest length a record can state, whose name holds no NUL before the last
/// word and is terminated within that word.
pub open spec fn name_is_terminated(record: Seq<u8>) -> bool {
    let len = record.len() as int;
    &&& len % 8 == 0
    &&& MIN_RECORD_LEN <= len <= 0xffff
    &&& forall|j: int| NAME_OFFSET <= j < len - 8 ==> #[trigger] record[j] != 0
    &&& exists|j: int| NAME_OFFSET <= j < len && len - 8 <= j && #[trigger] record[j] == 0
}

/// `n` is the length of the record's name: the first NUL from the name's start
/// stands `n` bytes in.
pub open spec fn is_name_length(record: Seq<u8>, n: int) -> bool {
    &&& 0 <= n
    &&& NAME_OFFSET + n < record.len()
    &&& record[NAME_OFFSET + n] == 0
    &&& forall|j: int| NAME_OFFSET <= j < NAME_OFFSET + n ==> #[trigger] record[j] != 0
}

/// The bytes of a word built from eight bytes with a mask over its three low
/// bytes or none.
proof fn lemma_masked_word(b0: u8, b1: u8, b2: u8, b3: u8, b4: u8, b5: u8, b6: u8, b7: u8, m: u64)
    by (bit_vector)
    requires
        m == 0 || m == 0xff_ffff,
    ensures
        ({
            let w = ((b0 as u64) | (b1 as u64) << 8 | (b2 as u64) << 16 | (b3 as u64) << 24 | (
            b4 as u64) << 32 | (b5 as u64) << 40 | (b6 as u64) << 48 | (b7 as u64) << 56) | m;
            &&& (byte_of(w, 0) == 0) == (m == 0 && b0 == 0)
            &&& (byte_of(w, 1) == 0) == (m == 0 && b1 == 0)
            &&& (byte_of(w, 2) == 0) == (m == 0 && b2 == 0)
            &&& (byte_of(w, 3) == 0) == (b3 == 0)
            &&& (byte_of(w, 4) == 0) == (b4 == 0)
            &&& (byte_of(w, 5) == 0) == (b5 == 0)
            &&& (byte_of(w, 6) == 0) == (b6 == 0)
            &&& (byte_of(w, 7) == 0) == (b7 == 0)
        }),
{
}

/// The mask that the record length selects: the three low bytes for the
/// shortest record, nothing for a longer one.
proof fn lemma_length_mask(r: u64)
    by (bit_vector)
    requires
        24 <= r <= 0xffff,
    ensures
        r == 24 ==> vstd::wrapping::u64_specs::wrapping_sub(r, 25) >> 40 == 0xff_ffff,
        r != 24 ==> vstd::wrapping::u64_specs::wrapping_sub(r, 25) >> 40 == 0,
{
}

/// Returns the length of the name in a directory record, not counting its
/// terminator, in constant time: the record's last eight bytes are read as a
/// word (least significant byte first), the header bytes that a shortest
/// record shares with that word are masked out, and the first zero byte is
/// found with the classic zero-byte test.
pub fn dirent_const_time_strlen(record: &[u8]) -> (res: usize)
    requires
        name_is_terminated(record@),
    ensures
        is_name_length(record@, res as int),
{
    let reclen = record.len();
    let start = reclen - 8;
    let bytes = load_word(record, start);
    let mask = (reclen as u64).wrapping_sub(25) >> 40;
    let last_word = word_from_bytes(bytes) | mask;
    let masked = classic_mask(last_word);
    proof {
        let b = bytes@;
        lemma_length_mask(reclen as u64);
        lemma_masked_word(b[0], b[1], b[2], b[3], b[4], b[5], b[6], b[7], mask);
        assert(b[0] == record@[start as int] && b[1] == record@[start + 1] && b[2] == record@[start
            + 2] && b[3] == record@[start + 3] && b[4] == record@[start + 4] && b[5] == record@[start
            + 5] && b[6] == record@[start + 6] && b[7] == record@[start + 7]);
        let z = choose|j: int|
            NAME_OFFSET <= j < reclen && reclen - 8 <= j && #[trigger] record@[j] == 0;
        let k = (z - start) as u64;
        assert(byte_of(last_word, k) == 0);
        assert(zero_byte_mask(last_word) != 0) by {
            crate::memchr::lemma_mask_empty(last_word);
        }
        lemma_first_zero(last_word);
        lemma_positions(first_zero_byte(last_word) as u32);
        let f = first_zero_byte(last_word);
        assert(u64_trailing_zeros(masked) == 8 * f + 7);
        assert(record@[start + f] == 0);
        assert forall|j: int| NAME_OFFSET <= j < start + f implies #[trigger] record@[j] != 0 by {
            if j >= start {
                let i = (j - start) as u64;
                assert(byte_of(last_word, i) != 0);
            }
        }
    }
    let byte_pos = (masked.trailing_zeros() >> 3) as usize;
    start + byte_pos - NAME_OFFSET
}

/// The length of the name in a directory record, not counting its
/// terminator; the record carries no separate length of its name, so the
/// constant-time search of its last word is used.
pub fn dirent_name_length(record: &[u8]) -> (res: usize)
    requires
        name_is_terminated(record@),
    ensures
        is_name_length(record@, res as int),
{
    dirent_const_time_strlen(record)
}

/// Two bytes read as a number, least significant first or most significant
/// first.
pub open spec fn decode_u16(b0: u8, b1: u8, little: bool) -> u16 {
    if little {
        (b0 as int + 256 * b1 as int) as u16
    } else {
        (b1 as int + 256 * b0 as int) as u16
    }
}

/// Eight bytes read as a number, least significant first or most significant
/// first.
pub open spec fn decode_u64(b: Seq<u8>, little: bool) -> u64 {
    if little {
        word_of(b)
    } else {
        word_of(b.reverse())
    }
}

/// `u16::from_ne_bytes`: the two bytes read in the machine's own byte order,
/// which is one of the two.
#[verifier::external_body]
fn native_u16(bytes: [u8; 2]) -> (res: u16)
    ensures
        res == decode_u16(bytes[0], bytes[1], true) || res == decode_u16(bytes[0], bytes[1], false),
{
    u16::from_ne_bytes(bytes)
}

/// Whether the machine stores numbers least significant byte first, as one
/// native read of the bytes `[1, 0]` shows.
fn machine_is_little_endian() -> bool {
    native_u16([1u8, 0u8]) == 1
}

/// The number that two bytes of `buf` from `at` encode.
fn read_u16(buf: &[u8], at: usize, little: bool) -> (res: u16)
    requires
        at + 2 <= buf.len(),
    ensures
        res == decode_u16(buf@[at as int], buf@[at + 1], little),
{
    let b0 = buf[at] as u16;
    let b1 = buf[at + 1] as u16;
    if little {
        b0 + 256 * b1
    } else {
        b1 + 256 * b0
    }
}

/// The number that eight bytes of `buf` from `at` encode.
fn read_u64(buf: &[u8], at: usize, little: bool) -> (res: u64)
    requires
        at + 8 <= buf.len(),
    ensures
        res == decode_u64(buf@.subrange(at as int, at + 8), little),
{
    let b = load_word(buf, at);
    if little {
        word_from_bytes(b)
    } else {
        let r = [b[7], b[6], b[5], b[4], b[3], b[2], b[1], b[0]];
        assert(r@ =~= b@.reverse());
        word_from_bytes(r)
    }
}

/// The record length that the record at `at` states.
pub open spec fn stated_len(buf: Seq<u8>, at: int, little: bool) -> int {
    decode_u16(buf[at + RECLEN_OFFSET], buf[at + RECLEN_OFFSET + 1], little) as int
}

/// The bytes of the record at `at`, as long as it states.
pub open spec fn record_bytes(buf: Seq<u8>, at: int, little: bool) -> Seq<u8> {
    buf.subrange(at, at + stated_len(buf, at, little))
}

/// A well-formed record starts at `at` and ends by `end`.
pub open spec fn record_is_valid(buf: Seq<u8>, at: int, end: int, little: bool) -> bool {
    &&& 0 <= at
    &&& at + MIN_RECORD_LEN <= end <= buf.len()
    &&& at + stated_len(buf, at, little) <= end
    &&& name_is_terminated(record_bytes(buf, at, little))
}

/// A directory record: its inode, its length, its type byte and its name.
#[derive(Debug)]
pub struct DirentRecord {
    /// The inode number.
    pub inode: u64,
    /// The record's length in bytes, which is where the next record starts.
    pub reclen: u16,
    /// The type byte (`DT_*`).
    pub d_type: u8,
    /// The entry's name, without its terminator.
    pub name: Vec<u8>,
}

/// `rec` holds what the valid record at `at` says.
pub open spec fn record_matches(rec: DirentRecord, buf: Seq<u8>, at: int, little: bool) -> bool {
    &&& rec.inode == decode_u64(buf.subrange(at, at + 8), little)
    &&& rec.reclen as int == stated_len(buf, at, little)
    &&& rec.d_type == buf[at + TYPE_OFFSET]
    &&& is_name_length(record_bytes(buf, at, little), rec.name@.len() as int)
    &&& rec.name@ == buf.subrange(at + NAME_OFFSET, at + NAME_OFFSET + rec.name@.len())
}

/// Whether the record's name is terminated as `name_is_terminated` asks, for
/// a record whose length is already known to be sound.
fn name_terminated(record: &[u8]) -> (res: bool)
    requires
        record.len() % 8 == 0,
        MIN_RECORD_LEN <= record.len() <= 0xffff,
    ensures
        res == name_is_terminated(record@),
{
    let len = record.len();
    let mut i: usize = NAME_OFFSET;
    while i < len - 8
        invariant
            NAME_OFFSET <= i,
            len == record.len(),
            MIN_RECORD_LEN <= len,
            forall|j: int| NAME_OFFSET <= j < i ==> #[trigger] record@[j] != 0,
        decreases len - i,
    {
        if record[i] == 0 {
            return false;
        }
        i = i + 1;
    }
    let mut k: usize = if len - 8 > NAME_OFFSET {
        len - 8
    } else {
        NAME_OFFSET
    };
    let ghost first = k;
    while k < len
        invariant
            first <= k <= len,
            len == record.len(),
            len % 8 == 0,
            MIN_RECORD_LEN <= len <= 0xffff,
            forall|j: int| NAME_OFFSET <= j < len - 8 ==> #[trigger] record@[j] != 0,
            first == if len - 8 > NAME_OFFSET {
                len - 8
            } else {
                NAME_OFFSET as int
            },
            forall|j: int| first <= j < k ==> #[trigger] record@[j] != 0,
        decreases len - k,
    {
        if record[k] == 0 {
            return true;
        }
        k = k + 1;
    }
    false
}

/// Reads the record at `at`, if a well-formed one starts there and ends by
/// `end`.
pub fn read_record(buf: &[u8], at: usize, end: usize, little: bool) -> (res: Option<DirentRecord>)
    requires
        at <= end <= buf.len(),
    ensures
        match res {
            Some(rec) => record_is_valid(buf@, at as int, end as int, little) && record_matches(
                rec,
                buf@,
                at as int,
                little,
            ),
            None => !record_is_valid(buf@, at as int, end as int, little),
        },
{
    if end - at < MIN_RECORD_LEN {
        return None;
    }
    let reclen = read_u16(buf, at + RECLEN_OFFSET, little) as usize;
    if reclen < MIN_RECORD_LEN || reclen % 8 != 0 || reclen > end - at {
        proof {
            if reclen >= MIN_RECORD_LEN && reclen <= end - at {
                assert(record_bytes(buf@, at as int, little).len() == reclen);
            }
        }
        return None;
    }
    let record = &buf[at..at + reclen];
    assert(record@ == record_bytes(buf@, at as int, little));
    if !name_terminated(record) {
        return None;
    }
    let n = dirent_const_time_strlen(record);
    let name = crate::bytes::to_vec(&buf[at + NAME_OFFSET..at + NAME_OFFSET + n]);
    let inode = read_u64(buf, at, little);
    proof {
        assert(name@ =~= buf@.subrange(at + NAME_OFFSET, at + NAME_OFFSET + n));
    }
    Some(DirentRecord { inode, reclen: reclen as u16, d_type: buf[at + TYPE_OFFSET], name })
}

/// The record at `at` names the directory itself (`.`) or its parent (`..`).
pub open spec fn is_dot_record(buf: Seq<u8>, at: int) -> bool {
    let n = at + NAME_OFFSET;
    ||| buf[n] == 46 && buf[n + 1] == 0
    ||| buf[n] == 46 && buf[n + 1] == 46 && buf[n + 2] == 0
}

/// Where the first record from `at` that is not `.` or `..` starts, walking
/// well-formed records up to `end`; `None` when the walk meets `end` or a
/// malformed record first.
pub open spec fn next_named(buf: Seq<u8>, at: int, end: int, little: bool) -> Option<int>
    decreases end - at,
{
    if at < end && record_is_valid(buf, at, end, little) {
        if is_dot_record(buf, at) {
            next_named(buf, at + stated_len(buf, at, little), end, little)
        } else {
            Some(at)
        }
    } else {
        None
    }
}

/// A file descriptor: a small integer that names an open file of the process.
#[derive(Debug)]
pub struct FileDes(pub i32);

impl FileDes {
    /// Returns a borrowed reference to the underlying file descriptor.
    pub fn as_borrowed_fd(&self) -> (res: &i32)
        ensures
            *res == self.0,
    {
        &self.0
    }
}

/// The same buffer, lent on: what the borrower leaves in it is what the
/// buffer holds afterwards.
fn lend(v: &mut Vec<u8>) -> (res: &mut Vec<u8>)
    ensures
        *res == *old(v),
        *final(v) == *final(res),
    no_unwind
{
    v
}

/// The size of the buffer that a batch of directory records is read into.
pub const BUFFER_SIZE: usize = 32768;

/// The prefix of every entry's path in a directory: the directory's path and
/// a `/`, unless the path is the root `/` itself.
pub open spec fn base_path_of(path: Seq<u8>) -> Seq<u8> {
    if path == seq![47u8] {
        path
    } else {
        path.push(47u8)
    }
}

/// The room that a path buffer keeps after its base path for an entry's
/// name, so that most names fit without growing it.
pub const NAME_ROOM: usize = 256;

/// A directory's path buffer for its entries and the length of its base
/// path, where every entry's name will start: the base path, then
/// [`NAME_ROOM`] bytes of room for a name (zero bytes until a name is put
/// there).
pub fn init_from_path(path: &[u8]) -> (res: (Vec<u8>, usize))
    requires
        path.len() + 1 + NAME_ROOM <= usize::MAX,
    ensures
        res.1 == base_path_of(path@).len(),
        res.0@.len() == res.1 + NAME_ROOM,
        res.0@.take(res.1 as int) == base_path_of(path@),
        res.0@.skip(res.1 as int) == Seq::new(NAME_ROOM as nat, |i: int| 0u8),
        res.1 > 0,
        res.0@[res.1 - 1] == 47u8,
{
    let mut buffer = crate::bytes::to_vec(path);
    let is_root = path.len() == 1 && path[0] == 47u8;
    assert(is_root == (path@ == seq![47u8])) by {
        if path@ == seq![47u8] {
            assert(path@[0] == 47u8);
        }
        if is_root {
            assert(path@ =~= seq![47u8]);
        }
    }
    if !is_root {
        buffer.push(47u8);
    }
    let len = buffer.len();
    let ghost base = buffer@;
    assert(base == base_path_of(path@));
    let mut i: usize = 0;
    while i < NAME_ROOM
        invariant
            i <= NAME_ROOM,
            len == base.len(),
            len <= path.len() + 1,
            path.len() + 1 + NAME_ROOM <= usize::MAX,
            buffer@ == base + Seq::new(i as nat, |k: int| 0u8),
        decreases NAME_ROOM - i,
    {
        buffer.push(0u8);
        i = i + 1;
        assert(buffer@ =~= base + Seq::new(i as nat, |k: int| 0u8));
    }
    assert(buffer@.take(len as int) =~= base);
    assert(base.len() > 0 && base.last() == 47u8);
    assert(buffer@[len - 1] == base[len - 1]);
    assert(buffer@.skip(len as int) =~= Seq::new(NAME_ROOM as nat, |k: int| 0u8));
    (buffer, len)
}

/// A buffer of `n` zero bytes.
fn zeroed(n: usize) -> (res: Vec<u8>)
    ensures
        res@ == Seq::new(n as nat, |i: int| 0u8),
{
    let mut v: Vec<u8> = Vec::new();
    let mut i: usize = 0;
    while i < n
        invariant
            i <= n,
            v@ == Seq::new(i as nat, |j: int| 0u8),
        decreases n - i,
    {
        v.push(0u8);
        i = i + 1;
        assert(v@ =~= Seq::new(i as nat, |j: int| 0u8));
    }
    v
}

/// Reads a directory in batches of records: the caller fills the buffer
/// with `getdents64` on the descriptor and reports how many bytes came back;
/// the records are then taken one by one from the buffer.
pub struct GetDents {
    fd: FileDes,
    syscall_buffer: Vec<u8>,
    path_buffer: Vec<u8>,
    file_index: usize,
    parent_depth: u32,
    offset: usize,
    remaining_bytes: usize,
    end_of_stream: bool,
    little_endian: bool,
}

impl GetDents {
    /// The reading position never passes the filled part of the batch, which
    /// never exceeds the buffer size the directory is read with; and the
    /// position is a multiple of eight (each record's length is) unless a
    /// malformed record sent it to the end of the batch.
    #[verifier::type_invariant]
    spec fn position_in_batch(self) -> bool {
        &&& self.offset <= self.remaining_bytes <= BUFFER_SIZE
        &&& (self.offset % 8 == 0 || self.offset == self.remaining_bytes)
        &&& 0 < self.file_index <= self.path_buffer.len()
        &&& self.path_buffer@[self.file_index - 1] == 47u8
    }

    /// The bytes of the batch buffer.
    pub closed spec fn buffer(&self) -> Seq<u8> {
        self.syscall_buffer@
    }

    /// Where the next record starts in the buffer.
    pub closed spec fn position(&self) -> int {
        self.offset as int
    }

    /// How many bytes the last read put in the buffer.
    pub closed spec fn filled(&self) -> int {
        self.remaining_bytes as int
    }

    /// Whether the directory has no more records to give.
    pub closed spec fn exhausted(&self) -> bool {
        self.end_of_stream
    }

    /// The prefix of every entry's path.
    pub closed spec fn base_path(&self) -> Seq<u8> {
        self.path_buffer@.take(self.file_index as int)
    }

    /// The depth of the directory being read.
    pub closed spec fn depth_of_parent(&self) -> u32 {
        self.parent_depth
    }

    /// The descriptor of the directory.
    pub closed spec fn descriptor(&self) -> i32 {
        self.fd.0
    }

    /// Whether the buffer's numbers are read least significant byte first.
    pub closed spec fn reads_little_endian(&self) -> bool {
        self.little_endian
    }

    /// Where the unread part of the batch ends: at the filled length, and never
    /// past the buffer.
    pub open spec fn batch_end(&self) -> int {
        if self.filled() <= self.buffer().len() {
            self.filled()
        } else {
            self.buffer().len() as int
        }
    }

    /// The reading position lies within the filled part of the batch, which
    /// is at most the buffer size; it is a multiple of eight (every record's
    /// length is) unless a malformed record sent it to the end of the batch.
    /// The kernel fills the buffer with whole records, a multiple of eight
    /// bytes, and then the position is always a multiple of eight.
    pub open spec fn in_batch(&self) -> bool {
        &&& 0 <= self.position() <= self.filled() <= BUFFER_SIZE
        &&& (self.position() % 8 == 0 || self.position() == self.filled())
        &&& self.filled() % 8 == 0 ==> self.position() % 8 == 0
    }

    /// What every step of reading keeps once the stream has ended: `next`
    /// has ended too, with the same filled length, and a position that had
    /// reached that length has not moved.
    pub open spec fn keeps_end_of_stream(&self, next: &GetDents) -> bool {
        self.exhausted() ==> {
            &&& next.exhausted()
            &&& next.filled() == self.filled()
            &&& self.position() >= self.filled() ==> next.position() == self.position()
        }
    }

    /// Everything but the reading position and the batch is as in `other`.
    pub open spec fn same_directory(&self, other: &GetDents) -> bool {
        &&& self.base_path() == other.base_path()
        &&& self.depth_of_parent() == other.depth_of_parent()
        &&& self.descriptor() == other.descriptor()
        &&& self.reads_little_endian() == other.reads_little_endian()
    }

    /// A reader of the open directory `fd` at `dir_path` and depth
    /// `parent_depth`, with an empty batch.
    pub fn from_fd(fd: FileDes, dir_path: &[u8], parent_depth: u32) -> (res: GetDents)
        requires
            dir_path.len() + 1 + NAME_ROOM <= usize::MAX,
        ensures
            res.descriptor() == fd.0,
            res.base_path() == base_path_of(dir_path@),
            res.depth_of_parent() == parent_depth,
            res.buffer().len() == BUFFER_SIZE,
            res.position() == 0,
            res.filled() == 0,
            !res.exhausted(),
            res.in_batch(),
    {
        let (path_buffer, file_index) = init_from_path(dir_path);
        GetDents {
            fd,
            syscall_buffer: zeroed(BUFFER_SIZE),
            path_buffer,
            file_index,
            parent_depth,
            offset: 0,
            remaining_bytes: 0,
            end_of_stream: false,
            little_endian: machine_is_little_endian(),
        }
    }

    /// Returns the current offset into the batch buffer.
    pub fn offset(&self) -> (res: usize)
        ensures
            res == self.position(),
            self.in_batch(),
    {
        proof {
            use_type_invariant(self);
        }
        self.offset
    }

    /// Returns the amount of bytes that the last read left in the buffer.
    pub fn remaining_bytes(&self) -> (res: usize)
        ensures
            res == self.filled(),
            self.in_batch(),
    {
        proof {
            use_type_invariant(self);
        }
        self.remaining_bytes
    }

    /// Returns whether the stream is exhausted.
    pub fn is_end_of_stream(&self) -> (res: bool)
        ensures
            res == self.exhausted(),
    {
        self.end_of_stream
    }

    /// Returns the descriptor of the directory.
    pub fn dirfd(&self) -> (res: &FileDes)
        ensures
            res.0 == self.descriptor(),
    {
        &self.fd
    }

    /// Returns the length of the base path, where entry names start.
    pub fn file_name_index(&self) -> (res: usize)
        ensures
            res == self.base_path().len(),
    {
        proof {
            use_type_invariant(self);
        }
        self.file_index
    }

    /// Returns the depth of the directory being read.
    pub fn parent_depth(&self) -> (res: u32)
        ensures
            res == self.depth_of_parent(),
    {
        self.parent_depth
    }

    /// Returns the batch buffer, for the caller to read records into.
    pub fn syscall_buffer(&mut self) -> (res: &mut Vec<u8>)
        ensures
            final(self).in_batch(),
            old(self).keeps_end_of_stream(&*final(self)),
            res@ == old(self).buffer(),
            final(self).buffer() == final(res)@,
            final(self).position() == old(self).position(),
            final(self).filled() == old(self).filled(),
            final(self).exhausted() == old(self).exhausted(),
            final(self).same_directory(old(self)),
    {
        proof {
            use_type_invariant(&*self);
        }
        lend(&mut self.syscall_buffer)
    }

    /// Returns the batch buffer for reading.
    pub fn borrow_syscall_buffer(&self) -> (res: &Vec<u8>)
        ensures
            res@ == self.buffer(),
    {
        &self.syscall_buffer
    }

    /// Takes in the result of refilling the buffer (`getdents64` on the
    /// descriptor): a positive count of bytes read starts a new batch at
    /// offset zero; zero or a negative result marks the end of the stream.
    /// Once the stream has ended, nothing changes and `false` is returned.
    /// Returns whether a batch with records is now in the buffer.
    pub fn are_more_entries_remaining(&mut self, bytes_read: isize) -> (res: bool)
        requires
            bytes_read <= old(self).buffer().len(),
            bytes_read <= BUFFER_SIZE,
        ensures
            final(self).in_batch(),
            old(self).keeps_end_of_stream(&*final(self)),
            old(self).exhausted() ==> !res && *final(self) == *old(self),
            !old(self).exhausted() ==> {
                &&& res == (bytes_read > 0)
                &&& final(self).exhausted() == (bytes_read <= 0)
                &&& final(self).filled() == (if bytes_read > 0 { bytes_read as int } else { 0 })
                &&& final(self).position() == 0
                &&& final(self).buffer() == old(self).buffer()
                &&& final(self).same_directory(old(self))
            },
    {
        proof {
            use_type_invariant(&*self);
        }
        if self.end_of_stream {
            return false;
        }
        let is_more_remaining = bytes_read > 0;
        self.end_of_stream = !is_more_remaining;
        self.offset = 0;
        self.remaining_bytes = if is_more_remaining {
            bytes_read as usize
        } else {
            0
        };
        is_more_remaining
    }

    /// Takes the next record of the batch and moves past it. `None` when the
    /// batch is used up, or when the record at the offset is malformed, in
    /// which case the rest of the batch is skipped: the position moves to the
    /// end of what the last read filled. Records are returned as
    /// the buffer holds them, `.` and `..` included.
    pub fn get_next_entry(&mut self) -> (res: Option<DirentRecord>)
        ensures
            final(self).in_batch(),
            old(self).keeps_end_of_stream(&*final(self)),
            final(self).buffer() == old(self).buffer(),
            final(self).filled() == old(self).filled(),
            final(self).exhausted() == old(self).exhausted(),
            final(self).same_directory(old(self)),
            ({
                let buf = old(self).buffer();
                let at = old(self).position();
                let end = old(self).batch_end();
                let little = old(self).reads_little_endian();
                if at >= end {
                    res is None && final(self).position() == at
                } else if record_is_valid(buf, at, end, little) {
                    res matches Some(rec) && record_matches(rec, buf, at, little)
                        && final(self).position() == at + rec.reclen
                } else {
                    res is None && final(self).position() == old(self).filled()
                }
            }),
    {
        proof {
            use_type_invariant(&*self);
        }
        let end = if self.remaining_bytes <= self.syscall_buffer.len() {
            self.remaining_bytes
        } else {
            self.syscall_buffer.len()
        };
        if self.offset >= end {
            return None;
        }
        match read_record(self.syscall_buffer.as_slice(), self.offset, end, self.little_endian) {
            Some(rec) => {
                self.offset = self.offset + rec.reclen as usize;
                Some(rec)
            },
            None => {
                self.offset = self.remaining_bytes;
                None
            },
        }
    }

    /// The step that follows a used-up batch: takes in the result of
    /// refilling the buffer (`getdents64` on the descriptor, `bytes_read`)
    /// and returns the first record of the new batch that is neither `.` nor
    /// `..`. Once the stream has ended nothing changes and `None` comes back;
    /// a result of zero or less ends the stream.
    pub fn next_after_refill(&mut self, bytes_read: isize) -> (res: Option<DirentRecord>)
        requires
            bytes_read <= old(self).buffer().len(),
            bytes_read <= BUFFER_SIZE,
        ensures
            final(self).in_batch(),
            old(self).keeps_end_of_stream(&*final(self)),
            final(self).buffer() == old(self).buffer(),
            final(self).same_directory(old(self)),
            old(self).exhausted() ==> res is None && *final(self) == *old(self),
            !old(self).exhausted() && bytes_read <= 0 ==> {
                &&& res is None
                &&& final(self).exhausted()
                &&& final(self).filled() == 0
                &&& final(self).position() == 0
            },
            !old(self).exhausted() && bytes_read > 0 ==> ({
                let buf = old(self).buffer();
                let end = if bytes_read <= buf.len() {
                    bytes_read as int
                } else {
                    buf.len() as int
                };
                let little = old(self).reads_little_endian();
                &&& !final(self).exhausted()
                &&& final(self).filled() == bytes_read
                &&& match next_named(buf, 0, end, little) {
                    Some(p) => res matches Some(rec) && record_matches(rec, buf, p, little)
                        && final(self).position() == p + rec.reclen,
                    None => res is None && (final(self).position() == end || final(self).position()
                        == bytes_read),
                }
            }),
    {
        if !self.are_more_entries_remaining(bytes_read) {
            return None;
        }
        self.next_entry()
    }

    /// Takes the next record of the batch that is neither `.` nor `..`,
    /// skipping those two.
    pub fn next_entry(&mut self) -> (res: Option<DirentRecord>)
        ensures
            final(self).in_batch(),
            old(self).keeps_end_of_stream(&*final(self)),
            final(self).buffer() == old(self).buffer(),
            final(self).filled() == old(self).filled(),
            final(self).exhausted() == old(self).exhausted(),
            final(self).same_directory(old(self)),
            ({
                let buf = old(self).buffer();
                let end = old(self).batch_end();
                let little = old(self).reads_little_endian();
                match next_named(buf, old(self).position(), end, little) {
                    Some(p) => res matches Some(rec) && record_matches(rec, buf, p, little)
                        && final(self).position() == p + rec.reclen,
                    None => res is None && if old(self).position() >= end {
                        final(self).position() == old(self).position()
                    } else {
                        final(self).position() == end || final(self).position() == old(self).filled()
                    },
                }
            }),
        decreases old(self).batch_end() - old(self).position(),
    {
        let ghost start = *self;
        let next = self.get_next_entry();
        match next {
            None => None,
            Some(rec) => {
                let dot = rec.name.len() == 1 && rec.name[0] == 46u8 || rec.name.len() == 2
                    && rec.name[0] == 46u8 && rec.name[1] == 46u8;
                proof {
                    let buf = start.buffer();
                    let at = start.position();
                    let little = start.reads_little_endian();
                    let r = record_bytes(buf, at, little);
                    assert(r[NAME_OFFSET as int] == buf[at + NAME_OFFSET]);
                    assert(r[NAME_OFFSET + 1] == buf[at + NAME_OFFSET + 1]);
                    assert(r[NAME_OFFSET + 2] == buf[at + NAME_OFFSET + 2]);
                    if rec.name@.len() >= 1 {
                        assert(rec.name@[0] == buf[at + NAME_OFFSET]);
                    }
                    if rec.name@.len() >= 2 {
                        assert(rec.name@[1] == buf[at + NAME_OFFSET + 1]);
                    }
                    assert(dot == is_dot_record(buf, at));
                }
                if dot {
                    self.next_entry()
                } else {
                    Some(rec)
                }
            },
        }
    }

    /// The entry that a record of this directory stands for: its full path,
    /// the type its record states (an unknown type stays unknown; finding it
    /// takes a `stat`, which is the caller's), its inode, one level below the
    /// directory, with its file name after the base path.
    pub fn construct_entry(&self, record: &DirentRecord) -> (res: crate::dir_entry::DirEntry)
        requires
            self.depth_of_parent() < u32::MAX,
            record.name@.len() > 0,
            forall|i: int| 0 <= i < record.name@.len() ==> #[trigger] record.name@[i] != 47u8,
        ensures
            res.full_path() == self.base_path() + record.name@,
            res.kind() == crate::file_type::dtype_to_file_type(record.d_type),
            res.inode_number() == record.inode,
            res.entry_depth() == self.depth_of_parent() + 1,
            res.name_start() == self.base_path().len(),
    {
        proof {
            use_type_invariant(self);
        }
        let path = self.construct_path(record.name.as_slice());
        proof {
            lemma_name_after_slash(self.base_path(), record.name@);
        }
        crate::dir_entry::DirEntry::from_parts(
            path,
            crate::file_type::FileType::from_dtype(record.d_type),
            record.inode,
            self.parent_depth + 1,
            self.file_name_index(),
        )
    }

    /// The full path of an entry of this directory: the base path followed
    /// by the entry's name.
    pub fn construct_path(&self, name: &[u8]) -> (res: Vec<u8>)
        ensures
            res@ == self.base_path() + name@,
    {
        proof {
            use_type_invariant(self);
        }
        let mut path: Vec<u8> = Vec::new();
        let mut k: usize = 0;
        while k < self.file_index
            invariant
                k <= self.file_index <= self.path_buffer.len(),
                path@ == self.path_buffer@.take(k as int),
            decreases self.file_index - k,
        {
            path.push(self.path_buffer[k]);
            k = k + 1;
            assert(path@ =~= self.path_buffer@.take(k as int));
        }
        let mut i: usize = 0;
        while i < name.len()
            invariant
                i <= name.len(),
                path@ == self.base_path() + name@.take(i as int),
            decreases name.len() - i,
        {
            path.push(name[i]);
            i = i + 1;
            assert(path@ =~= self.base_path() + name@.take(i as int));
        }
        assert(name@.take(name.len() as int) =~= name@);
        path
    }
}

/// The length of the record that the kernel makes for a name of `n` bytes:
/// the header, the name and its terminator, rounded up to a multiple of eight.
pub open spec fn record_len_for(n: nat) -> nat {
    ((n + 27) / 8 * 8) as nat
}

/// A record as the kernel makes it: a header of 19 bytes, the name, then
/// zero bytes up to the record's length.
pub open spec fn made_record(header: Seq<u8>, name: Seq<u8>) -> Seq<u8> {
    header + name + Seq::new((record_len_for(name.len()) - NAME_OFFSET - name.len()) as nat, |i: int| 0u8)
}

/// The rounded length is a multiple of eight that leaves room for the
/// terminator and pads by less than a word.
proof fn lemma_record_len(n: nat)
    ensures
        record_len_for(n) % 8 == 0,
        n + 20 <= record_len_for(n) <= n + 27,
        record_len_for(n) >= MIN_RECORD_LEN,
{
    assert((n + 27) / 8 * 8 <= n + 27 && (n + 27) / 8 * 8 > n + 19 && ((n + 27) / 8 * 8) % 8 == 0)
        by (nonlinear_arith);
}

/// Every record that the kernel makes for a name without NUL bytes meets
/// what the constant-time length needs, and its name length is the name's:
/// the result agrees with `strlen` on the name.
pub proof fn lemma_made_record_length(header: Seq<u8>, name: Seq<u8>)
    requires
        header.len() == NAME_OFFSET,
        name.len() + 27 <= 0xffff,
        forall|i: int| 0 <= i < name.len() ==> #[trigger] name[i] != 0,
    ensures
        name_is_terminated(made_record(header, name)),
        is_name_length(made_record(header, name), name.len() as int),
{
    lemma_record_len(name.len());
    let r = made_record(header, name);
    let n = name.len() as int;
    assert(r.len() == record_len_for(name.len()));
    assert forall|j: int| NAME_OFFSET <= j < NAME_OFFSET + n implies #[trigger] r[j] != 0 by {
        assert(r[j] == name[j - NAME_OFFSET]);
    }
    assert(r[NAME_OFFSET + n] == 0);
    assert(r.len() - 8 <= NAME_OFFSET + n);
}

/// Where an entry's name starts in the path that a directory reader makes
/// for it: right after the base path, for a name that is not empty and holds
/// no `/`. So the reader's `file_name_index` is where the path's file name
/// starts.
pub proof fn lemma_entry_name_start(dir: Seq<u8>, name: Seq<u8>)
    requires
        name.len() > 0,
        forall|i: int| 0 <= i < name.len() ==> #[trigger] name[i] != crate::path::SLASH,
    ensures
        crate::path::file_name_start(base_path_of(dir) + name) == base_path_of(dir).len(),
{
    lemma_name_after_slash(base_path_of(dir), name);
}

/// A name without `/` after a base that ends with `/` starts right after
/// the base.
proof fn lemma_name_after_slash(base: Seq<u8>, name: Seq<u8>)
    requires
        base.len() > 0,
        base.last() == crate::path::SLASH,
        name.len() > 0,
        forall|i: int| 0 <= i < name.len() ==> #[trigger] name[i] != crate::path::SLASH,
    ensures
        crate::path::file_name_start(base + name) == base.len(),
{
    let p = base + name;
    let k = base.len() - 1;
    assert(base[k] == crate::path::SLASH);
    assert(p[k] == crate::path::SLASH);
    assert forall|j: int| k < j < p.len() implies #[trigger] p[j] != crate::path::SLASH by {
        assert(p[j] == name[j - base.len()]);
    }
    assert(crate::memchr::is_last_index(p, crate::path::SLASH, k));
    let c = choose|i: int| crate::memchr::is_last_index(p, crate::path::SLASH, i);
    if c < k {
        assert(p[k] != crate::path::SLASH);
    } else if c > k {
        assert(p[c] != crate::path::SLASH);
    }
}

/// A record holds one name length: the first NUL from the name's start.
proof fn lemma_name_length_unique(record: Seq<u8>, n: int, m: int)
    requires
        is_name_length(record, n),
        is_name_length(record, m),
    ensures
        n == m,
{
    if n < m {
        assert(record[NAME_OFFSET + n] != 0);
    } else if m < n {
        assert(record[NAME_OFFSET + m] != 0);
    }
}

/// A record that the kernel made, and whose length field states its length
/// in the reader's byte order, is well formed where it stands, and what is
/// read from it is its name, with the reader moved past it.
pub proof fn lemma_made_record_is_read(
    buf: Seq<u8>,
    at: int,
    end: int,
    little: bool,
    header: Seq<u8>,
    name: Seq<u8>,
    rec: DirentRecord,
)
    requires
        header.len() == NAME_OFFSET,
        name.len() + 27 <= 0xffff,
        forall|i: int| 0 <= i < name.len() ==> #[trigger] name[i] != 0,
        decode_u16(header[RECLEN_OFFSET as int], header[RECLEN_OFFSET + 1], little)
            == record_len_for(name.len()),
        0 <= at,
        at + record_len_for(name.len()) <= end <= buf.len(),
        buf.subrange(at, at + record_len_for(name.len())) == made_record(header, name),
    ensures
        record_is_valid(buf, at, end, little),
        record_matches(rec, buf, at, little) ==> rec.name@ == name && rec.reclen
            == record_len_for(name.len()) && rec.d_type == header[TYPE_OFFSET as int],
{
    lemma_record_len(name.len());
    lemma_made_record_length(header, name);
    let len = record_len_for(name.len()) as int;
    let made = made_record(header, name);
    assert(buf[at + RECLEN_OFFSET] == made[RECLEN_OFFSET as int]);
    assert(buf[at + RECLEN_OFFSET + 1] == made[RECLEN_OFFSET + 1]);
    assert(stated_len(buf, at, little) == len);
    assert(record_bytes(buf, at, little) == made);
    if record_matches(rec, buf, at, little) {
        lemma_name_length_unique(made, rec.name@.len() as int, name.len() as int);
        assert(rec.name@ =~= name) by {
            assert forall|i: int| 0 <= i < name.len() implies rec.name@[i] == name[i] by {
                assert(rec.name@[i] == buf[at + NAME_OFFSET + i]);
                assert(buf[at + NAME_OFFSET + i] == made[NAME_OFFSET + i]);
            }
        }
        assert(buf[at + TYPE_OFFSET] == made[TYPE_OFFSET as int]);
    }
}

/// The name that the valid record at `at` carries.
pub open spec fn record_name(buf: Seq<u8>, at: int, little: bool) -> Seq<u8> {
    let n = choose|n: int| is_name_length(record_bytes(buf, at, little), n);
    buf.subrange(at + NAME_OFFSET, at + NAME_OFFSET + n)
}

/// A NUL at or after the name's start gives the record a name length.
pub proof fn lemma_has_name_length(r: Seq<u8>, k: int)
    requires
        NAME_OFFSET <= k < r.len(),
        r[k] == 0,
    ensures
        exists|n: int| is_name_length(r, n),
    decreases k,
{
    if exists|j: int| NAME_OFFSET <= j < k && #[trigger] r[j] == 0 {
        let j = choose|j: int| NAME_OFFSET <= j < k && #[trigger] r[j] == 0;
        lemma_has_name_length(r, j);
    } else {
        assert(is_name_length(r, k - NAME_OFFSET));
    }
}

/// A terminated name has a length.
pub proof fn lemma_terminated_has_length(r: Seq<u8>)
    requires
        name_is_terminated(r),
    ensures
        exists|n: int| is_name_length(r, n),
{
    let j = choose|j: int| NAME_OFFSET <= j < r.len() && r.len() - 8 <= j && #[trigger] r[j] == 0;
    lemma_has_name_length(r, j);
}

/// A valid record is at least as long as the shortest record.
pub proof fn lemma_valid_record_len(buf: Seq<u8>, at: int, end: int, little: bool)
    requires
        record_is_valid(buf, at, end, little),
    ensures
        stated_len(buf, at, little) >= MIN_RECORD_LEN,
{
    assert(record_bytes(buf, at, little).len() == stated_len(buf, at, little));
}

/// The names that a walk from `at` over well-formed records up to `end`
/// meets, `.` and `..` left out, in order; the walk stops at `end` or at a
/// malformed record.
pub open spec fn names_from(buf: Seq<u8>, at: int, end: int, little: bool) -> Seq<Seq<u8>>
    decreases end - at,
{
    if at < end && record_is_valid(buf, at, end, little) {
        proof {
            lemma_valid_record_len(buf, at, end, little);
        }
        let rest = names_from(buf, at + stated_len(buf, at, little), end, little);
        if is_dot_record(buf, at) {
            rest
        } else {
            seq![record_name(buf, at, little)] + rest
        }
    } else {
        Seq::empty()
    }
}

/// What is read from a valid record is its name.
pub proof fn lemma_read_name_is_record_name(rec: DirentRecord, buf: Seq<u8>, at: int, end: int, little: bool)
    requires
        record_is_valid(buf, at, end, little),
        record_matches(rec, buf, at, little),
    ensures
        rec.name@ == record_name(buf, at, little),
{
    let r = record_bytes(buf, at, little);
    let n = choose|n: int| is_name_length(r, n);
    lemma_name_length_unique(r, n, rec.name@.len() as int);
}

/// Each call of `next_entry` takes the first of the names that are left:
/// where `next_named` finds a record, the names from there on are its name
/// followed by the names after it; where it finds none, no names are left.
pub proof fn lemma_next_entry_takes_first_name(buf: Seq<u8>, at: int, end: int, little: bool)
    ensures
        match next_named(buf, at, end, little) {
            Some(p) => names_from(buf, at, end, little) == seq![record_name(buf, p, little)]
                + names_from(buf, p + stated_len(buf, p, little), end, little),
            None => names_from(buf, at, end, little) == Seq::<Seq<u8>>::empty(),
        },
    decreases end - at,
{
    if at < end && record_is_valid(buf, at, end, little) {
        lemma_valid_record_len(buf, at, end, little);
        if is_dot_record(buf, at) {
            lemma_next_entry_takes_first_name(buf, at + stated_len(buf, at, little), end, little);
        }
    }
}

/// The records that the kernel makes for a list of names, one after another.
pub open spec fn made_batch(headers: Seq<Seq<u8>>, names: Seq<Seq<u8>>) -> Seq<u8>
    decreases names.len(),
{
    if names.len() == 0 || headers.len() == 0 {
        Seq::empty()
    } else {
        made_record(headers[0], names[0]) + made_batch(headers.drop_first(), names.drop_first())
    }
}

/// The names other than `.` and `..`, in order.
pub open spec fn without_dots(names: Seq<Seq<u8>>) -> Seq<Seq<u8>>
    decreases names.len(),
{
    if names.len() == 0 {
        Seq::empty()
    } else if names[0] == seq![46u8] || names[0] == seq![46u8, 46u8] {
        without_dots(names.drop_first())
    } else {
        seq![names[0]] + without_dots(names.drop_first())
    }
}

/// A walk over records that stand after other bytes meets what a walk over
/// those records alone meets.
proof fn lemma_names_shift(prefix: Seq<u8>, rest: Seq<u8>, a: int, e: int, little: bool)
    requires
        0 <= a,
        e <= rest.len(),
    ensures
        names_from(prefix + rest, prefix.len() + a, prefix.len() + e, little) == names_from(
            rest,
            a,
            e,
            little,
        ),
    decreases e - a,
{
    let buf = prefix + rest;
    let p = prefix.len() as int;
    if a < e && a + MIN_RECORD_LEN <= e {
        assert(buf[p + a + RECLEN_OFFSET] == rest[a + RECLEN_OFFSET]);
        assert(buf[p + a + RECLEN_OFFSET + 1] == rest[a + RECLEN_OFFSET + 1]);
        assert(stated_len(buf, p + a, little) == stated_len(rest, a, little));
        let len = stated_len(rest, a, little);
        if a + len <= e {
            assert(record_bytes(buf, p + a, little) =~= record_bytes(rest, a, little));
        }
        assert(record_is_valid(buf, p + a, p + e, little) == record_is_valid(rest, a, e, little));
        if record_is_valid(rest, a, e, little) {
            lemma_valid_record_len(rest, a, e, little);
            assert(buf[p + a + NAME_OFFSET] == rest[a + NAME_OFFSET]);
            assert(buf[p + a + NAME_OFFSET + 1] == rest[a + NAME_OFFSET + 1]);
            assert(buf[p + a + NAME_OFFSET + 2] == rest[a + NAME_OFFSET + 2]);
            assert(is_dot_record(buf, p + a) == is_dot_record(rest, a));
            lemma_terminated_has_length(record_bytes(rest, a, little));
            let n = choose|n: int| is_name_length(record_bytes(rest, a, little), n);
            assert(record_name(buf, p + a, little) =~= record_name(rest, a, little)) by {
                assert forall|i: int| 0 <= i < n implies #[trigger] buf[p + a + NAME_OFFSET + i]
                    == rest[a + NAME_OFFSET + i] by {}
            }
            lemma_names_shift(prefix, rest, a + len, e, little);
        }
    }
}

/// What the walk meets on a made record is its name unless it is `.` or
/// `..`.
proof fn lemma_made_record_dot(header: Seq<u8>, name: Seq<u8>, buf: Seq<u8>, little: bool)
    requires
        header.len() == NAME_OFFSET,
        name.len() + 27 <= 0xffff,
        forall|i: int| 0 <= i < name.len() ==> #[trigger] name[i] != 0,
        buf.len() >= record_len_for(name.len()),
        buf.subrange(0, record_len_for(name.len()) as int) == made_record(header, name),
    ensures
        is_dot_record(buf, 0) == (name == seq![46u8] || name == seq![46u8, 46u8]),
{
    lemma_record_len(name.len());
    let made = made_record(header, name);
    assert(buf[NAME_OFFSET as int] == made[NAME_OFFSET as int]);
    assert(buf[NAME_OFFSET + 1] == made[NAME_OFFSET + 1]);
    assert(buf[NAME_OFFSET + 2] == made[NAME_OFFSET + 2]);
    if name.len() >= 1 {
        assert(made[NAME_OFFSET as int] == name[0]);
    }
    if name.len() >= 2 {
        assert(made[NAME_OFFSET + 1] == name[1]);
    }
    if name.len() >= 3 {
        assert(made[NAME_OFFSET + 2] == name[2]);
    }
    if name.len() == 0 {
        assert(made[NAME_OFFSET as int] == 0);
    }
    if name.len() == 1 {
        assert(made[NAME_OFFSET + 1] == 0);
        if name[0] == 46u8 {
            assert(name =~= seq![46u8]);
        }
    }
    if name.len() == 2 {
        assert(made[NAME_OFFSET + 2] == 0);
        if name[0] == 46u8 && name[1] == 46u8 {
            assert(name =~= seq![46u8, 46u8]);
        }
    }
}

/// The records of a batch that the kernel made, each with its length field
/// in the reader's byte order, for names without NUL bytes.
pub open spec fn batch_is_made(headers: Seq<Seq<u8>>, names: Seq<Seq<u8>>, little: bool) -> bool {
    &&& headers.len() == names.len()
    &&& forall|k: int| 0 <= k < names.len() ==> #[trigger] headers[k].len() == NAME_OFFSET
    &&& forall|k: int| 0 <= k < names.len() ==> #[trigger] names[k].len() + 27 <= 0xffff
    &&& forall|k: int, i: int| 0 <= k < names.len() && 0 <= i < names[k].len() ==> #[trigger] names[k][i] != 0
    &&& forall|k: int|
        0 <= k < names.len() ==> decode_u16(
            #[trigger] headers[k][RECLEN_OFFSET as int],
            headers[k][RECLEN_OFFSET + 1],
            little,
        ) == record_len_for(names[k].len())
}

/// A directory reader meets, in a batch that the kernel made, exactly the
/// names of the batch other than `.` and `..`, in order.
pub proof fn lemma_reader_meets_every_name(headers: Seq<Seq<u8>>, names: Seq<Seq<u8>>, little: bool)
    requires
        batch_is_made(headers, names, little),
    ensures
        names_from(made_batch(headers, names), 0, made_batch(headers, names).len() as int, little)
            == without_dots(names),
    decreases names.len(),
{
    let batch = made_batch(headers, names);
    if names.len() > 0 {
        let h = headers[0];
        let n = names[0];
        let first = made_record(h, n);
        let hs = headers.drop_first();
        let ns = names.drop_first();
        let tail = made_batch(hs, ns);
        assert(batch == first + tail);
        assert(batch_is_made(hs, ns, little)) by {
            assert forall|k: int, i: int| 0 <= k < ns.len() && 0 <= i < ns[k].len() implies #[trigger] ns[k][i] != 0 by {
                assert(ns[k] == names[k + 1]);
            }
            assert forall|k: int| 0 <= k < ns.len() implies decode_u16(
                #[trigger] hs[k][RECLEN_OFFSET as int],
                hs[k][RECLEN_OFFSET + 1],
                little,
            ) == record_len_for(ns[k].len()) by {
                assert(hs[k] == headers[k + 1] && ns[k] == names[k + 1]);
            }
            assert forall|k: int| 0 <= k < ns.len() implies #[trigger] hs[k].len() == NAME_OFFSET by {
                assert(hs[k] == headers[k + 1]);
            }
            assert forall|k: int| 0 <= k < ns.len() implies #[trigger] ns[k].len() + 27 <= 0xffff by {
                assert(ns[k] == names[k + 1]);
            }
        }
        lemma_reader_meets_every_name(hs, ns, little);
        lemma_record_len(n.len());
        assert(h.len() == NAME_OFFSET);
        assert(n.len() + 27 <= 0xffff);
        assert(forall|i: int| 0 <= i < n.len() ==> #[trigger] n[i] != 0) by {
            assert forall|i: int| 0 <= i < n.len() implies #[trigger] n[i] != 0 by {
                assert(names[0][i] != 0);
            }
        }
        assert(decode_u16(h[RECLEN_OFFSET as int], h[RECLEN_OFFSET + 1], little) == record_len_for(n.len()));
        let len = record_len_for(n.len()) as int;
        assert(first.len() == len);
        assert(batch.subrange(0, len) =~= first);
        let rec: DirentRecord = vstd::pervasive::arbitrary();
        lemma_made_record_is_read(batch, 0, batch.len() as int, little, h, n, rec);
        lemma_made_record_dot(h, n, batch, little);
        assert(stated_len(batch, 0, little) == len) by {
            assert(batch[RECLEN_OFFSET as int] == first[RECLEN_OFFSET as int]);
            assert(batch[RECLEN_OFFSET + 1] == first[RECLEN_OFFSET + 1]);
        }
        lemma_names_shift(first, tail, 0, tail.len() as int, little);
        assert(names_from(batch, len, batch.len() as int, little) == without_dots(ns));
        if !(n == seq![46u8] || n == seq![46u8, 46u8]) {
            let r = record_bytes(batch, 0, little);
            assert(r == first);
            lemma_made_record_length(h, n);
            let m = choose|m: int| is_name_length(r, m);
            lemma_name_length_unique(r, m, n.len() as int);
            assert(record_name(batch, 0, little) =~= n) by {
                assert forall|i: int| 0 <= i < n.len() implies record_name(batch, 0, little)[i] == n[i] by {
                    assert(batch[NAME_OFFSET + i] == first[NAME_OFFSET + i]);
                }
            }
        }
    } else {
        assert(batch.len() == 0);
    }
}


/// Once a reader's stream has ended it stays ended through any run of
/// reading steps, with the same filled length; and once its position has
/// also reached that length, it stays there, past the end of every batch, so
/// every later `get_next_entry` answers `None` without reading.
pub proof fn lemma_end_of_stream_stays(states: Seq<GetDents>)
    requires
        states.len() > 0,
        states[0].exhausted(),
        forall|i: int| 0 <= i < states.len() - 1 ==> #[trigger] states[i].keeps_end_of_stream(&states[i + 1]),
    ensures
        forall|j: int| 0 <= j < states.len() ==> {
            &&& #[trigger] states[j].exhausted()
            &&& states[j].filled() == states[0].filled()
            &&& states[0].position() >= states[0].filled() ==> {
                &&& states[j].position() == states[0].position()
                &&& states[j].position() >= states[j].batch_end()
            }
        },
    decreases states.len(),
{
    if states.len() > 1 {
        let rest = states.drop_last();
        assert forall|i: int| 0 <= i < rest.len() - 1 implies #[trigger] rest[i].keeps_end_of_stream(&rest[i + 1]) by {
            assert(rest[i] == states[i] && rest[i + 1] == states[i + 1]);
            assert(states[i].keeps_end_of_stream(&states[i + 1]));
        }
        lemma_end_of_stream_stays(rest);
        let n = states.len() - 1;
        let m = n - 1;
        assert(0 <= m < states.len() - 1);
        assert(states[m].keeps_end_of_stream(&states[m + 1]));
        assert(m + 1 == n);
        assert(rest[m] == states[m]);
        assert(rest[0] == states[0]);
        assert(rest[m].exhausted());
        assert forall|j: int| 0 <= j < states.len() implies {
            &&& #[trigger] states[j].exhausted()
            &&& states[j].filled() == states[0].filled()
            &&& states[0].position() >= states[0].filled() ==> {
                &&& states[j].position() == states[0].position()
                &&& states[j].position() >= states[j].batch_end()
            }
        } by {
            if j < n {
                assert(rest[j] == states[j]);
                assert(rest[j].exhausted());
            }
        }
    }
}

} // verus!
