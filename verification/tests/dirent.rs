use starry::dirent::{
    fill_dirents, getdents_len_check, scan_dirents, sys_getdents64, DirBuffer, DirEnt, DirEntryInfo, FileType,
    FIXED_SIZE,
};
use starry::errno::SysError;

fn entry(name: &str, file_type: FileType) -> DirEntryInfo {
    DirEntryInfo { name: name.as_bytes().to_vec(), file_type }
}

fn header(ino: u64, off: i64, reclen: u16, ty: u8) -> Vec<u8> {
    let mut v = ino.to_le_bytes().to_vec();
    v.extend(off.to_le_bytes());
    v.extend(reclen.to_le_bytes());
    v.push(ty);
    v
}

#[test]
fn file_types() {
    assert_eq!(FileType::from_kind(true, false), FileType::Dir);
    assert_eq!(FileType::from_kind(false, true), FileType::Reg);
    assert_eq!(FileType::from_kind(false, false), FileType::Unknown);
    assert_eq!(FileType::Dir.code(), 4);
    assert_eq!(FileType::Reg.code(), 8);
    assert_eq!(FileType::Wht.code(), 14);
}

#[test]
fn header_layout() {
    let d = DirEnt::new(1, 24, 24, FileType::Reg);
    assert_eq!(d.to_bytes(), header(1, 24, 24, 8));
    assert_eq!(d.to_bytes().len(), FIXED_SIZE);
    assert_eq!(DirEnt::new(1, 0, 0x1_0005, FileType::Dir).d_reclen, 5);
}

#[test]
fn dir_buffer_space() {
    let mut b = DirBuffer::new(vec![0u8; 30]);
    assert_eq!(b.remaining_space(), 30);
    assert!(b.can_fit_entry(30));
    assert!(!b.can_fit_entry(31));
    let d = DirEnt::new(1, 21, 21, FileType::Reg);
    assert_eq!(b.write_entry(d, b"a\0"), Ok(()));
    assert_eq!(b.remaining_space(), 9);
    assert_eq!(b.write_entry(d, b"a\0"), Err(()));
    let bytes = b.into_bytes();
    assert_eq!(&bytes[..19], header(1, 21, 21, 8).as_slice());
    assert_eq!(&bytes[19..21], b"a\0");
}

#[test]
fn fill_writes_entries_and_a_closing_header() {
    let entries = vec![entry("a", FileType::Reg), entry("dir", FileType::Dir)];
    let (bytes, total) = fill_dirents(vec![0xffu8; 100], 0, 0, &entries);
    assert_eq!(total, 21 + 23);
    let mut expected = header(1, 21, 21, 8);
    expected.extend(b"a\0");
    expected.extend(header(1, 44, 23, 4));
    expected.extend(b"dir\0");
    expected.extend(header(1, 44, 0, 8));
    assert_eq!(&bytes[..expected.len()], expected.as_slice());
    assert!(bytes[expected.len()..].iter().all(|&b| b == 0xff));
}

#[test]
fn fill_stops_at_the_first_entry_that_does_not_fit() {
    let entries = vec![entry("a", FileType::Reg), entry("longer-name", FileType::Reg), entry("b", FileType::Reg)];
    let (bytes, total) = fill_dirents(vec![0u8; 45], 0, 0, &entries);
    assert_eq!(total, 21);
    // The closing header counts the entry that did not fit into its offset.
    assert_eq!(&bytes[21..40], header(1, 21 + 31, 0, 8).as_slice());
}

#[test]
fn scan_and_resume() {
    let entries = vec![entry("a", FileType::Reg), entry("b", FileType::Reg), entry("c", FileType::Reg)];
    let (bytes, total) = fill_dirents(vec![0u8; 50], 0, 0, &entries);
    assert_eq!(total, 42);
    assert_eq!(scan_dirents(&bytes), Some((42, 2)));
    let (bytes2, total2) = fill_dirents(bytes, 42, 2, &entries);
    assert_eq!(total2, 42 + 21);
    assert_eq!(&bytes2[..19], header(1, 42 + 21, 21, 8).as_slice());
    assert_eq!(&bytes2[19..21], b"c\0");
}

#[test]
fn a_fresh_call_is_resumed_after_its_entries() {
    let entries = vec![entry("a", FileType::Reg), entry("dir", FileType::Dir), entry("zz", FileType::Reg)];
    // Room for the first two entries and the closing header, not for the third.
    let (bytes, n) = sys_getdents64(vec![0u8; 64], true, Ok(entries.clone())).unwrap();
    assert_eq!(n, 44);
    assert_eq!(scan_dirents(&bytes), Some((44, 2)));
}

#[test]
fn scan_rejects_a_broken_offset() {
    let mut buf = header(1, 99, 21, 8);
    buf.extend(b"a\0");
    buf.extend(vec![0u8; 20]);
    assert_eq!(scan_dirents(&buf), None);
    assert_eq!(scan_dirents(&[0u8; 10]), Some((0, 0)));
}

#[test]
fn getdents_errors() {
    assert_eq!(getdents_len_check(18), Err(SysError::EINVAL));
    assert_eq!(getdents_len_check(19), Ok(()));
    assert_eq!(sys_getdents64(vec![0u8; 10], true, Ok(vec![])).unwrap_err(), SysError::EINVAL);
    assert_eq!(sys_getdents64(vec![0u8; 64], false, Ok(vec![])).unwrap_err(), SysError::EBADF);
    assert_eq!(sys_getdents64(vec![0u8; 64], true, Err(SysError::ENOENT)).unwrap_err(), SysError::ENOENT);
    let (bytes, n) = sys_getdents64(vec![0u8; 64], true, Ok(vec![entry("x", FileType::Dir)])).unwrap();
    assert_eq!(n, 21);
    assert_eq!(&bytes[..19], header(1, 21, 21, 4).as_slice());
    let (_, n) = sys_getdents64(vec![0u8; 64], true, Ok(vec![])).unwrap();
    assert_eq!(n, 0);
}
