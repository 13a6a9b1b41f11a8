//! Directory entries as `getdents64` lays them out in a user buffer.
//!
//! An entry is a 19-byte header — inode number, offset of the next entry,
//! the entry's length, its file type, each least significant byte first —
//! followed by the entry's name and a NUL.
use vstd::prelude::*;
use crate::bytes::{le_bytes, le_value, lemma_byte_cap_values, lemma_le_roundtrip, lemma_le_value_bound, push_le, read_le};
use crate::errno::SysError;

verus! {

/// The size of an entry's header.
pub const FIXED_SIZE: usize = 19;

/// The kind of a file, as a directory entry tells it.
#[derive(Debug, Clone, Copy, PartialEq, Eq, Structural)]
pub enum FileType {
    Unknown,
    Fifo,
    Chr,
    Dir,
    Blk,
    Reg,
    Lnk,
    Socket,
    Wht,
}

/// The number of a file type in a directory entry.
pub open spec fn file_type_code(t: FileType) -> u8 {
    match t {
        FileType::Unknown => 0,
        FileType::Fifo => 1,
        FileType::Chr => 2,
        FileType::Dir => 4,
        FileType::Blk => 6,
        FileType::Reg => 8,
        FileType::Lnk => 10,
        FileType::Socket => 12,
        FileType::Wht => 14,
    }
}

impl FileType {
    /// The number of this file type in a directory entry.
    pub fn code(&self) -> (c: u8)
        ensures
            c == file_type_code(*self),
    {
        match self {
            FileType::Unknown => 0,
            FileType::Fifo => 1,
            FileType::Chr => 2,
            FileType::Dir => 4,
            FileType::Blk => 6,
            FileType::Reg => 8,
            FileType::Lnk => 10,
            FileType::Socket => 12,
            FileType::Wht => 14,
        }
    }

    /// The type a directory entry gives a file: a directory, a regular file,
    /// or unknown for anything else.
    pub fn from_kind(is_dir: bool, is_file: bool) -> (t: FileType)
        ensures
            t == if is_dir { FileType::Dir } else if is_file { FileType::Reg } else { FileType::Unknown },
    {
        if is_dir {
            FileType::Dir
        } else if is_file {
            FileType::Reg
        } else {
            FileType::Unknown
        }
    }
}

/// The header of a directory entry.
#[derive(Debug, Clone, Copy, PartialEq, Eq, Structural)]
pub struct DirEnt {
    pub d_ino: u64,
    pub d_off: i64,
    pub d_reclen: u16,
    pub d_type: u8,
}

/// The bytes of an entry's header.
pub open spec fn header_bytes(d: DirEnt) -> Seq<u8> {
    le_bytes(d.d_ino as nat, 8) + le_bytes((d.d_off as u64) as nat, 8) + le_bytes(d.d_reclen as nat, 2) + seq![
        d.d_type,
    ]
}

/// The header with these fields; the length is cut to 16 bits as a cast
/// does.
pub open spec fn dirent_of(ino: u64, off: i64, reclen: int, file_type: FileType) -> DirEnt {
    DirEnt { d_ino: ino, d_off: off, d_reclen: reclen as u16, d_type: file_type_code(file_type) }
}

impl DirEnt {
    /// The header with these fields; the length is cut to 16 bits as a cast
    /// does.
    pub fn new(ino: u64, off: i64, reclen: usize, file_type: FileType) -> (d: Self)
        ensures
            d == dirent_of(ino, off, reclen as int, file_type),
    {
        DirEnt { d_ino: ino, d_off: off, d_reclen: reclen as u16, d_type: file_type.code() }
    }

    /// The bytes of this header.
    pub fn to_bytes(&self) -> (b: Vec<u8>)
        ensures
            b@ == header_bytes(*self),
            b@.len() == FIXED_SIZE,
    {
        let mut b: Vec<u8> = Vec::new();
        push_le(&mut b, self.d_ino as u128, 8);
        push_le(&mut b, (self.d_off as u64) as u128, 8);
        push_le(&mut b, self.d_reclen as u128, 2);
        b.push(self.d_type);
        proof {
            lemma_byte_cap_values();
            lemma_le_roundtrip(self.d_ino as nat, 8);
            lemma_le_roundtrip((self.d_off as u64) as nat, 8);
            lemma_le_roundtrip(self.d_reclen as nat, 2);
        }
        assert(b@ =~= header_bytes(*self));
        b
    }
}

/// `bytes` written over `buf` from `pos` on.
pub open spec fn splice(buf: Seq<u8>, pos: int, bytes: Seq<u8>) -> Seq<u8> {
    buf.take(pos) + bytes + buf.skip(pos + bytes.len())
}

/// A user buffer that directory entries are written into, one after the
/// other from its start.
pub struct DirBuffer {
    buf: Vec<u8>,
    offset: usize,
}

impl DirBuffer {
    pub closed spec fn bytes(&self) -> Seq<u8> {
        self.buf@
    }

    pub closed spec fn pos(&self) -> nat {
        self.offset as nat
    }

    /// A buffer to be filled from its start.
    pub fn new(buf: Vec<u8>) -> (d: Self)
        ensures
            d.bytes() == buf@,
            d.pos() == 0,
    {
        Self { buf, offset: 0 }
    }

    /// The bytes it holds.
    pub fn into_bytes(self) -> (b: Vec<u8>)
        ensures
            b@ == self.bytes(),
    {
        self.buf
    }

    /// The room left after the entries written.
    pub fn remaining_space(&self) -> (n: usize)
        ensures
            n == if self.bytes().len() >= self.pos() { self.bytes().len() - self.pos() } else { 0 },
    {
        if self.buf.len() >= self.offset {
            self.buf.len() - self.offset
        } else {
            0
        }
    }

    /// Whether an entry of `entry_size` bytes fits in the room left.
    pub fn can_fit_entry(&self, entry_size: usize) -> (r: bool)
        ensures
            r == (entry_size <= if self.bytes().len() >= self.pos() {
                self.bytes().len() - self.pos()
            } else {
                0
            }),
    {
        self.remaining_space() >= entry_size
    }

    /// Writes an entry — its header, then `name` — where the last one ended,
    /// and moves on by the header's length; refuses, changing nothing, when
    /// that length does not fit in the room left. The length is the header's
    /// and the name's, or 0 for the closing entry, which has no name and must
    /// fit a header.
    pub fn write_entry(&mut self, dirent: DirEnt, name: &[u8]) -> (r: Result<(), ()>)
        requires
            old(self).pos() <= old(self).bytes().len(),
            dirent.d_reclen == FIXED_SIZE + name@.len() || (dirent.d_reclen == 0 && name@.len() == 0
                && old(self).pos() + FIXED_SIZE <= old(self).bytes().len()),
        ensures
            old(self).pos() + dirent.d_reclen > old(self).bytes().len() ==> r is Err && final(self).bytes()
                == old(self).bytes() && final(self).pos() == old(self).pos(),
            old(self).pos() + dirent.d_reclen <= old(self).bytes().len() ==> r is Ok && final(self).bytes()
                == splice(old(self).bytes(), old(self).pos() as int, header_bytes(dirent) + name@)
                && final(self).pos() == old(self).pos() + dirent.d_reclen,
            final(self).bytes().len() == old(self).bytes().len(),
    {
        let buf_len = self.buf.len();
        if !self.can_fit_entry(dirent.d_reclen as usize) {
            return Err(());
        }
        let mut bytes = dirent.to_bytes();
        let mut k: usize = 0;
        let ghost header = bytes@;
        while k < name.len()
            invariant
                k <= name@.len(),
                bytes@ == header + name@.take(k as int),
            decreases name@.len() - k,
        {
            bytes.push(name[k]);
            k = k + 1;
            assert(bytes@ =~= header + name@.take(k as int));
        }
        assert(name@.take(name@.len() as int) =~= name@);
        let start = self.offset;
        let ghost old_buf = self.buf@;
        assert(start + bytes@.len() <= old_buf.len());
        let mut i: usize = 0;
        while i < bytes.len()
            invariant
                buf_len == old_buf.len(),
                self.offset == start,
                start == old(self).pos(),
                old_buf == old(self).bytes(),
                i <= bytes@.len(),
                start + bytes@.len() <= old_buf.len(),
                self.buf@.len() == old_buf.len(),
                forall|j: int| 0 <= j < start ==> self.buf@[j] == old_buf[j],
                forall|j: int| start <= j < start + i ==> self.buf@[j] == bytes@[j - start],
                forall|j: int| start + i <= j < old_buf.len() ==> self.buf@[j] == old_buf[j],
            decreases bytes@.len() - i,
        {
            self.buf.set(start + i, bytes[i]);
            i = i + 1;
        }
        assert(self.buf@ =~= splice(old_buf, start as int, bytes@));
        self.offset = self.offset + dirent.d_reclen as usize;
        Ok(())
    }
}

} // verus!

verus! {

/// The length field of the header at `off`.
pub open spec fn reclen_at(b: Seq<u8>, off: int) -> nat {
    le_value(b.subrange(off + 16, off + 18))
}

/// The next-entry offset field of the header at `off`, as a signed number.
pub open spec fn d_off_at(b: Seq<u8>, off: int) -> i64 {
    le_value(b.subrange(off + 8, off + 16)) as i64
}

/// Walks the entries a buffer already holds, from `off`, having passed
/// `count`: the walk stops where no header fits or at a header of length 0,
/// and yields where it stopped and how many entries it passed. It fails
/// (`None`) at an entry whose next-entry offset is not where the next entry
/// starts.
pub open spec fn scan_from(b: Seq<u8>, off: nat, count: nat) -> Option<(nat, nat)>
    decreases b.len() - off,
{
    if off + FIXED_SIZE > b.len() {
        Some((off, count))
    } else {
        let reclen = reclen_at(b, off as int);
        let next = off + reclen;
        if reclen == 0 {
            Some((off, count))
        } else if d_off_at(b, off as int) != next as i64 {
            None
        } else if next + FIXED_SIZE > b.len() {
            Some((next, count + 1))
        } else {
            scan_from(b, next, count + 1)
        }
    }
}

/// Walks the entries a user buffer already holds, as `getdents64` does
/// before it writes: where they end and how many there are. `None` when an
/// entry's next-entry offset is not where the next entry starts, which the
/// kernel treats as a broken invariant.
pub fn scan_dirents(buf: &[u8]) -> (r: Option<(usize, usize)>)
    requires
        buf@.len() + 0x10000 <= usize::MAX,
    ensures
        r == match scan_from(buf@, 0, 0) {
            Some((o, c)) => Some((o as usize, c as usize)),
            None => None::<(usize, usize)>,
        },
{
    let len = buf.len();
    let mut buf_offset: usize = 0;
    let mut count: usize = 0;
    while buf_offset + FIXED_SIZE <= len
        invariant
            len == buf@.len(),
            len + 0x10000 <= usize::MAX,
            count <= buf_offset,
            buf_offset <= len,
            scan_from(buf@, buf_offset as nat, count as nat) == scan_from(buf@, 0, 0),
        decreases len - buf_offset,
    {
        proof {
            lemma_byte_cap_values();
            lemma_le_value_bound(buf@.subrange(buf_offset + 16, buf_offset + 18));
            lemma_le_value_bound(buf@.subrange(buf_offset + 8, buf_offset + 16));
        }
        let reclen = read_le(buf, buf_offset + 16, 2) as usize;
        if reclen == 0 {
            return Some((buf_offset, count));
        }
        let d_off = read_le(buf, buf_offset + 8, 8) as u64 as i64;
        let next = buf_offset + reclen;
        if d_off != next as i64 {
            return None;
        }
        if next + FIXED_SIZE > len {
            return Some((next, count + 1));
        }
        buf_offset = next;
        count = count + 1;
    }
    Some((buf_offset, count))
}

/// A directory entry to report: its name, without the NUL, and its type.
#[derive(Debug, Clone)]
pub struct DirEntryInfo {
    pub name: Vec<u8>,
    pub file_type: FileType,
}

/// The entries to report, as names and types.
pub open spec fn entries_view(v: Seq<DirEntryInfo>) -> Seq<(Seq<u8>, FileType)> {
    Seq::new(v.len(), |i: int| (v[i].name@, v[i].file_type))
}

/// Writes entries one after the other from `pos`, the next-entry offsets
/// counted on from `cur_off`, until one does not fit: that one's length is
/// still counted into the offset. Yields the buffer, where the writing
/// ended, and the offset reached.
pub open spec fn fill_from(buf: Seq<u8>, pos: nat, entries: Seq<(Seq<u8>, FileType)>, cur_off: int) -> (Seq<u8>, nat, int)
    decreases entries.len(),
{
    if entries.len() == 0 {
        (buf, pos, cur_off)
    } else {
        let name = entries[0].0.push(0u8);
        let size = (FIXED_SIZE + name.len()) as nat;
        let off = cur_off + size;
        if pos + size > buf.len() {
            (buf, pos, off)
        } else {
            let d = dirent_of(1, off as i64, size as int, entries[0].1);
            fill_from(splice(buf, pos as int, header_bytes(d) + name), pos + size, entries.drop_first(), off)
        }
    }
}

/// The entries after the first `count`.
pub open spec fn after(entries: Seq<(Seq<u8>, FileType)>, count: nat) -> Seq<(Seq<u8>, FileType)> {
    if count <= entries.len() {
        entries.skip(count as int)
    } else {
        Seq::empty()
    }
}

/// What `getdents64` leaves in the buffer and reports: the entries after the
/// `count` already reported, written from the buffer's start; then, when the
/// report is not empty and a header fits, a closing entry of length 0. The
/// report is `initial_offset` plus the bytes of the entries written.
pub open spec fn getdents_result(buf: Seq<u8>, initial_offset: nat, count: nat, entries: Seq<(Seq<u8>, FileType)>) -> (Seq<u8>, nat) {
    let filled = fill_from(buf, 0, after(entries, count), initial_offset as int);
    let total = initial_offset + filled.1;
    let closed = if total > 0 && filled.1 + FIXED_SIZE <= filled.0.len() {
        splice(
            filled.0,
            filled.1 as int,
            header_bytes(dirent_of(1, filled.2 as i64, 0, FileType::Reg)),
        )
    } else {
        filled.0
    };
    (closed, total)
}

proof fn lemma_fill_from_len(buf: Seq<u8>, pos: nat, entries: Seq<(Seq<u8>, FileType)>, cur_off: int)
    requires
        pos <= buf.len(),
        forall|i: int| 0 <= i < entries.len() ==> (#[trigger] entries[i]).0.len() + FIXED_SIZE + 1 <= u16::MAX,
    ensures
        fill_from(buf, pos, entries, cur_off).0.len() == buf.len(),
        pos <= fill_from(buf, pos, entries, cur_off).1 <= buf.len(),
        cur_off <= fill_from(buf, pos, entries, cur_off).2,
        fill_from(buf, pos, entries, cur_off).2 <= cur_off + (fill_from(buf, pos, entries, cur_off).1 - pos)
            + (if entries.len() > 0 { FIXED_SIZE + 0x10000 } else { 0 }),
    decreases entries.len(),
{
    if entries.len() > 0 {
        let name = entries[0].0.push(0u8);
        let size = (FIXED_SIZE + name.len()) as nat;
        let off = cur_off + size;
        if pos + size <= buf.len() {
            let d = dirent_of(1, off as i64, size as int, entries[0].1);
            let nb = splice(buf, pos as int, header_bytes(d) + name);
            assert(header_bytes(d).len() == FIXED_SIZE) by {
                lemma_byte_cap_values();
                lemma_le_roundtrip(d.d_ino as nat, 8);
                lemma_le_roundtrip((d.d_off as u64) as nat, 8);
                lemma_le_roundtrip(d.d_reclen as nat, 2);
            }
            assert forall|i: int| 0 <= i < entries.drop_first().len() implies (#[trigger] entries.drop_first()[i]).0.len()
                + FIXED_SIZE + 1 <= u16::MAX by {
                assert(entries.drop_first()[i] == entries[i + 1]);
            }
            lemma_fill_from_len(nb, pos + size, entries.drop_first(), off);
        }
    }
}

/// The `getdents64` check on the buffer's size: too small for a header is
/// `EINVAL`.
pub fn getdents_len_check(len: usize) -> (r: Result<(), SysError>)
    ensures
        r == if len < FIXED_SIZE { Err(SysError::EINVAL) } else { Ok::<(), SysError>(()) },
{
    if len < FIXED_SIZE {
        Err(SysError::EINVAL)
    } else {
        Ok(())
    }
}

/// Fills a `getdents64` buffer: the directory's entries after the `count`
/// already reported are written from the buffer's start, each with its
/// name and a NUL, until one does not fit; a closing entry of length 0
/// follows when anything is reported and a header fits. Returns the buffer
/// and the number of bytes reported, which counts `initial_offset` in.
pub fn fill_dirents(buf: Vec<u8>, initial_offset: usize, count: usize, entries: &Vec<DirEntryInfo>) -> (r: (Vec<u8>, usize))
    requires
        buf@.len() <= 0x1_0000_0000_0000,
        initial_offset <= buf@.len() + 0x10000,
        initial_offset + buf@.len() <= usize::MAX,
        forall|i: int| 0 <= i < entries@.len() ==> (#[trigger] entries@[i]).name@.len() + FIXED_SIZE + 1 <= u16::MAX,
    ensures
        (r.0@, r.1 as nat) == getdents_result(buf@, initial_offset as nat, count as nat, entries_view(entries@)),
        r.1 <= initial_offset + buf@.len(),
{
    let ghost ev = entries_view(entries@);
    let ghost rest = after(ev, count as nat);
    let ghost target = fill_from(buf@, 0, rest, initial_offset as int);
    proof {
        assert forall|i: int| 0 <= i < rest.len() implies (#[trigger] rest[i]).0.len() + FIXED_SIZE + 1 <= u16::MAX by {
            assert(rest[i] == ev[i + count]);
        }
        lemma_fill_from_len(buf@, 0, rest, initial_offset as int);
    }
    let mut buffer = DirBuffer::new(buf);
    let mut total_size: usize = initial_offset;
    let mut current_offset: i64 = initial_offset as i64;
    let mut i: usize = count;
    if i > entries.len() {
        i = entries.len();
        assert(ev.skip(i as int) =~= Seq::<(Seq<u8>, FileType)>::empty());
    }
    assert(rest =~= ev.skip(i as int));
    while i < entries.len()
        invariant_except_break
            fill_from(buffer.bytes(), buffer.pos(), ev.skip(i as int), current_offset as int) == target,
            current_offset <= initial_offset + buffer.pos(),
        invariant
            i <= entries@.len(),
            ev == entries_view(entries@),
            forall|j: int| 0 <= j < entries@.len() ==> (#[trigger] entries@[j]).name@.len() + FIXED_SIZE + 1 <= u16::MAX,
            buffer.pos() <= buffer.bytes().len(),
            buffer.bytes().len() <= 0x1_0000_0000_0000,
            total_size == initial_offset + buffer.pos(),
            initial_offset <= buffer.bytes().len() + 0x10000,
            initial_offset + buffer.bytes().len() <= usize::MAX,
            initial_offset <= current_offset,
        ensures
            buffer.bytes() == target.0,
            buffer.pos() == target.1,
            current_offset == target.2,
            total_size == initial_offset + buffer.pos(),
        decreases entries@.len() - i,
    {
        let ghost es = ev.skip(i as int);
        assert(es[0] == (entries@[i as int].name@, entries@[i as int].file_type));
        let mut name = entries[i].name.clone();
        name.push(0u8);
        assert(name@ =~= es[0].0.push(0u8));
        assert(entries@[i as int].name@.len() + FIXED_SIZE + 1 <= u16::MAX);
        let entry_size = FIXED_SIZE + name.len();
        current_offset = current_offset + entry_size as i64;
        let dirent = DirEnt::new(1, current_offset, entry_size, entries[i].file_type);
        assert(dirent.d_reclen == entry_size);
        let ghost old_pos = buffer.pos();
        if buffer.write_entry(dirent, name.as_slice()).is_err() {
            break;
        }
        assert(buffer.pos() == old_pos + entry_size);
        total_size = total_size + entry_size;
        i = i + 1;
        assert(es.drop_first() =~= ev.skip(i as int));
    }
    if total_size > 0 && buffer.can_fit_entry(FIXED_SIZE) {
        let terminal = DirEnt::new(1, current_offset, 0, FileType::Reg);
        let empty: Vec<u8> = Vec::new();
        let _ = buffer.write_entry(terminal, empty.as_slice());
        assert(empty@ =~= Seq::<u8>::empty());
        assert(header_bytes(terminal) + empty@ =~= header_bytes(terminal));
    }
    (buffer.into_bytes(), total_size)
}

} // verus!

verus! {

/// `getdents64` on a user buffer: `EINVAL` when it cannot hold a header,
/// `EBADF` when the descriptor is not a directory, the directory's read
/// error if reading it failed; otherwise the buffer refilled and the number
/// of bytes reported. The entries the buffer already holds must be
/// consistent: the kernel stops on a broken one.
pub fn sys_getdents64(buf: Vec<u8>, is_dir: bool, entries: Result<Vec<DirEntryInfo>, SysError>) -> (r: Result<(Vec<u8>, isize), SysError>)
    requires
        buf@.len() <= 0x1_0000_0000_0000,
        2 * buf@.len() + 0x10000 <= isize::MAX,
        buf@.len() >= FIXED_SIZE && is_dir ==> scan_from(buf@, 0, 0) is Some,
        buf@.len() >= FIXED_SIZE && is_dir && entries is Ok ==> forall|i: int|
            0 <= i < entries->Ok_0@.len() ==> (#[trigger] entries->Ok_0@[i]).name@.len() + FIXED_SIZE + 1 <= u16::MAX,
    ensures
        buf@.len() < FIXED_SIZE ==> r == Err::<(Vec<u8>, isize), SysError>(SysError::EINVAL),
        buf@.len() >= FIXED_SIZE && !is_dir ==> r == Err::<(Vec<u8>, isize), SysError>(SysError::EBADF),
        buf@.len() >= FIXED_SIZE && is_dir && entries is Err ==> r == Err::<(Vec<u8>, isize), SysError>(
            entries->Err_0,
        ),
        buf@.len() >= FIXED_SIZE && is_dir && entries is Ok ==> r is Ok && ({
            let (off, count) = scan_from(buf@, 0, 0)->Some_0;
            let expected = getdents_result(buf@, off, count, entries_view(entries->Ok_0@));
            &&& r->Ok_0.0@ == expected.0
            &&& r->Ok_0.1 == expected.1
        }),
{
    getdents_len_check(buf.len())?;
    if !is_dir {
        return Err(SysError::EBADF);
    }
    let scanned = scan_dirents(buf.as_slice());
    let (initial_offset, count) = match scanned {
        Some(s) => s,
        None => {
            assert(false);
            return Err(SysError::EINVAL);
        },
    };
    proof { lemma_scan_bounds(buf@, 0, 0); }
    let entries = entries?;
    let (bytes, total) = fill_dirents(buf, initial_offset, count, &entries);
    Ok((bytes, total as isize))
}

proof fn lemma_scan_bounds(b: Seq<u8>, off: nat, count: nat)
    requires
        off <= b.len(),
        count <= off,
    ensures
        scan_from(b, off, count) matches Some((o, c)) ==> o <= b.len() + 0x10000 && c <= o,
    decreases b.len() - off,
{
    if off + FIXED_SIZE <= b.len() {
        let reclen = reclen_at(b, off as int);
        let next = off + reclen;
        lemma_byte_cap_values();
        lemma_le_value_bound(b.subrange(off as int + 16, off as int + 18));
        if reclen != 0 && d_off_at(b, off as int) == next as i64 && next + FIXED_SIZE <= b.len() {
            lemma_scan_bounds(b, next, count + 1);
        }
    }
}

} // verus!

verus! {

/// How many entries `fill_from` writes from `pos` into a buffer of
/// `buf_len` bytes: those before the first that does not fit.
pub open spec fn fill_count(buf_len: nat, pos: nat, entries: Seq<(Seq<u8>, FileType)>) -> nat
    decreases entries.len(),
{
    if entries.len() == 0 {
        0
    } else {
        let size = (FIXED_SIZE + entries[0].0.len() + 1) as nat;
        if pos + size > buf_len {
            0
        } else {
            1 + fill_count(buf_len, pos + size, entries.drop_first())
        }
    }
}

proof fn lemma_header_len(d: DirEnt)
    ensures
        header_bytes(d).len() == FIXED_SIZE,
{
    lemma_byte_cap_values();
    lemma_le_roundtrip(d.d_ino as nat, 8);
    lemma_le_roundtrip((d.d_off as u64) as nat, 8);
    lemma_le_roundtrip(d.d_reclen as nat, 2);
}

/// A header written at `q` reads back: its length and its next-entry offset.
proof fn lemma_header_read(b: Seq<u8>, q: int, d: DirEnt)
    requires
        0 <= q,
        q + FIXED_SIZE <= b.len(),
        forall|j: int| 0 <= j < FIXED_SIZE ==> b[q + j] == #[trigger] header_bytes(d)[j],
    ensures
        reclen_at(b, q) == d.d_reclen,
        d_off_at(b, q) == d.d_off,
{
    lemma_byte_cap_values();
    lemma_le_roundtrip(d.d_ino as nat, 8);
    lemma_le_roundtrip((d.d_off as u64) as nat, 8);
    lemma_le_roundtrip(d.d_reclen as nat, 2);
    let h = header_bytes(d);
    let lo = le_bytes(d.d_ino as nat, 8);
    let mid = le_bytes((d.d_off as u64) as nat, 8);
    let rl = le_bytes(d.d_reclen as nat, 2);
    assert forall|j: int| 0 <= j < 2 implies b.subrange(q + 16, q + 18)[j] == rl[j] by {
        assert(h[16 + j] == rl[j]);
        assert(b[q + (16 + j)] == h[16 + j]);
    }
    assert(b.subrange(q + 16, q + 18) =~= rl);
    assert forall|j: int| 0 <= j < 8 implies b.subrange(q + 8, q + 16)[j] == mid[j] by {
        assert(h[8 + j] == mid[j]);
        assert(b[q + (8 + j)] == h[8 + j]);
    }
    assert(b.subrange(q + 8, q + 16) =~= mid);
    let x = d.d_off;
    assert(((x as u64) as i64) == x) by (bit_vector);
}

proof fn lemma_fill_keeps_prefix(buf: Seq<u8>, pos: nat, entries: Seq<(Seq<u8>, FileType)>, cur_off: int)
    requires
        pos <= buf.len(),
    ensures
        fill_from(buf, pos, entries, cur_off).0.len() == buf.len(),
        forall|j: int| 0 <= j < pos ==> fill_from(buf, pos, entries, cur_off).0[j] == buf[j],
        fill_count(buf.len(), pos, entries) == 0 ==> fill_from(buf, pos, entries, cur_off).0 == buf
            && fill_from(buf, pos, entries, cur_off).1 == pos,
        fill_from(buf, pos, entries, cur_off).1 >= pos + fill_count(buf.len(), pos, entries),
    decreases entries.len(),
{
    if entries.len() > 0 {
        let name = entries[0].0.push(0u8);
        let size = (FIXED_SIZE + name.len()) as nat;
        let off = cur_off + size;
        if pos + size <= buf.len() {
            let d = dirent_of(1, off as i64, size as int, entries[0].1);
            lemma_header_len(d);
            let nb = splice(buf, pos as int, header_bytes(d) + name);
            assert forall|j: int| 0 <= j < pos implies nb[j] == buf[j] by {}
            lemma_fill_keeps_prefix(nb, pos + size, entries.drop_first(), off);
        }
    }
}

/// The entries `fill_from` writes from `pos`, with next-entry offsets that
/// start at `pos`, are walked one by one by a later scan of any buffer that
/// holds what was written.
proof fn lemma_fill_scan(buf: Seq<u8>, pos: nat, entries: Seq<(Seq<u8>, FileType)>, fin: Seq<u8>, count: nat)
    requires
        pos <= buf.len(),
        buf.len() <= 0x1_0000_0000_0000,
        forall|i: int| 0 <= i < entries.len() ==> (#[trigger] entries[i]).0.len() + FIXED_SIZE + 1 <= u16::MAX,
        fin.len() == buf.len(),
        forall|j: int|
            pos <= j < fill_from(buf, pos, entries, pos as int).1 ==> fin[j] == #[trigger] fill_from(
                buf,
                pos,
                entries,
                pos as int,
            ).0[j],
    ensures
        scan_from(fin, pos, count) == scan_from(
            fin,
            fill_from(buf, pos, entries, pos as int).1,
            count + fill_count(buf.len(), pos, entries),
        ),
    decreases entries.len(),
{
    if entries.len() > 0 {
        let name = entries[0].0.push(0u8);
        let size = (FIXED_SIZE + name.len()) as nat;
        let next = pos + size;
        if next <= buf.len() {
            let d = dirent_of(1, next as i64, size as int, entries[0].1);
            lemma_header_len(d);
            let bytes = header_bytes(d) + name;
            let nb = splice(buf, pos as int, bytes);
            let rest = entries.drop_first();
            assert forall|i: int| 0 <= i < rest.len() implies (#[trigger] rest[i]).0.len() + FIXED_SIZE + 1
                <= u16::MAX by {
                assert(rest[i] == entries[i + 1]);
            }
            lemma_fill_keeps_prefix(nb, next, rest, next as int);
            lemma_fill_from_len(nb, next, rest, next as int);
            let filled = fill_from(nb, next, rest, next as int);
            assert(fill_from(buf, pos, entries, pos as int) == filled);
            assert forall|j: int| 0 <= j < FIXED_SIZE implies fin[pos + j] == #[trigger] header_bytes(d)[j] by {
                assert(filled.0[pos + j] == nb[pos + j]);
                assert(nb[pos + j] == bytes[j]);
            }
            lemma_header_read(fin, pos as int, d);
            assert(d.d_reclen == size);
            lemma_fill_scan(nb, next, rest, fin, count + 1);
        }
    }
}

/// What a `getdents64` call writes into a fresh buffer — one whose first
/// header has length 0, or that cannot hold a header — the next call reads
/// back: its walk ends where this call's report ends, having counted the
/// entries this call wrote, so the next call goes on with the entries after
/// them.
pub proof fn lemma_getdents_resumes(buf: Seq<u8>, entries: Seq<(Seq<u8>, FileType)>)
    requires
        scan_from(buf, 0, 0) == Some((0nat, 0nat)),
        buf.len() <= 0x1_0000_0000_0000,
        forall|i: int| 0 <= i < entries.len() ==> (#[trigger] entries[i]).0.len() + FIXED_SIZE + 1 <= u16::MAX,
    ensures
        scan_from(getdents_result(buf, 0, 0, entries).0, 0, 0) == Some(
            (getdents_result(buf, 0, 0, entries).1, fill_count(buf.len(), 0, entries)),
        ),
{
    let es = after(entries, 0);
    assert(es =~= entries);
    let filled = fill_from(buf, 0, entries, 0);
    lemma_fill_from_len(buf, 0, entries, 0);
    lemma_fill_keeps_prefix(buf, 0, entries, 0);
    let r = getdents_result(buf, 0, 0, entries);
    let n = fill_count(buf.len(), 0, entries);
    if filled.1 > 0 && filled.1 + FIXED_SIZE <= filled.0.len() {
        let term = dirent_of(1, filled.2 as i64, 0, FileType::Reg);
        lemma_header_len(term);
        let fin = splice(filled.0, filled.1 as int, header_bytes(term));
        assert(r.0 == fin);
        assert forall|j: int| 0 <= j < filled.1 implies fin[j] == #[trigger] filled.0[j] by {}
        lemma_fill_scan(buf, 0, entries, fin, 0);
        assert forall|j: int| 0 <= j < FIXED_SIZE implies fin[filled.1 + j] == #[trigger] header_bytes(term)[j] by {
        }
        lemma_header_read(fin, filled.1 as int, term);
        assert(scan_from(fin, filled.1, n) == Some((filled.1, n)));
    } else {
        lemma_fill_scan(buf, 0, entries, r.0, 0);
        if filled.1 == 0 {
            if n > 0 {
                assert(entries.len() > 0);
            }
        }
    }
}

} // verus!

verus! {

/// Each file type has its own number in a directory entry, the `DT_*` number
/// of Linux: distinct types never share a number, a type not known is 0,
/// and a directory, a regular file and a symbolic link are 4, 8 and 10. The
/// number is the entry header's last byte.
pub proof fn lemma_file_type_codes(t: FileType, u: FileType, ino: u64, off: i64, reclen: int)
    ensures
        t != u ==> file_type_code(t) != file_type_code(u),
        file_type_code(FileType::Unknown) == 0,
        file_type_code(FileType::Dir) == 4,
        file_type_code(FileType::Reg) == 8,
        file_type_code(FileType::Lnk) == 10,
        header_bytes(dirent_of(ino, off, reclen, t))[18] == file_type_code(t),
{
    lemma_header_len(dirent_of(ino, off, reclen, t));
    lemma_byte_cap_values();
    lemma_le_roundtrip(ino as nat, 8);
    lemma_le_roundtrip((off as u64) as nat, 8);
    lemma_le_roundtrip((reclen as u16) as nat, 2);
}

} // verus!
