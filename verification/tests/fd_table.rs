use starry::errno::SysError;
use starry::file::{sys_pipe2, FD_TABLE, Kstat, AX_FILE_LIMIT};

#[test]
fn stdio_takes_the_first_three_descriptors() {
    let t = FD_TABLE::init_stdio(10, 11, 12);
    assert_eq!(t.get_file_like(0), Ok(10));
    assert_eq!(t.get_file_like(1), Ok(11));
    assert_eq!(t.get_file_like(2), Ok(12));
    assert_eq!(t.get_file_like(3), Err(SysError::EBADF));
}

#[test]
fn add_takes_the_lowest_free_descriptor() {
    let mut t = FD_TABLE::init_stdio(10, 11, 12);
    assert_eq!(t.add_file_like(20), Ok(3));
    assert_eq!(t.add_file_like(21), Ok(4));
    assert_eq!(t.close_file_like(1), Ok(()));
    assert_eq!(t.add_file_like(22), Ok(1));
    assert_eq!(t.get_file_like(1), Ok(22));
}

#[test]
fn bad_descriptors() {
    let mut t = FD_TABLE::init_stdio(10, 11, 12);
    assert_eq!(t.get_file_like(-1), Err(SysError::EBADF));
    assert_eq!(t.get_file_like(5000), Err(SysError::EBADF));
    assert_eq!(t.close_file_like(7), Err(SysError::EBADF));
    assert_eq!(t.close_file_like(-3), Err(SysError::EBADF));
    assert_eq!(t.close_file_like(2), Ok(()));
    assert_eq!(t.close_file_like(2), Err(SysError::EBADF));
}

#[test]
fn full_table_is_emfile() {
    let mut t = FD_TABLE::new();
    for i in 0..AX_FILE_LIMIT {
        assert_eq!(t.add_file_like(i as u64), Ok(i as i32));
    }
    assert_eq!(t.add_file_like(99), Err(SysError::EMFILE));
}

#[test]
fn clear_and_copy() {
    let mut t = FD_TABLE::init_stdio(10, 11, 12);
    t.add_file_like(30).unwrap();
    let copy = t.copy_inner();
    t.clear();
    for fd in 0..5 {
        assert_eq!(t.get_file_like(fd), Err(SysError::EBADF));
    }
    assert_eq!(copy.get_file_like(0), Ok(10));
    assert_eq!(copy.get_file_like(3), Ok(30));
    assert_eq!(copy.get_file_like(4), Err(SysError::EBADF));
}

#[test]
fn pipe2_takes_two_descriptors() {
    let mut t = FD_TABLE::init_stdio(10, 11, 12);
    assert_eq!(sys_pipe2(&mut t, 40, 41), Ok((3, 4)));
    assert_eq!(t.get_file_like(3), Ok(40));
    assert_eq!(t.get_file_like(4), Ok(41));
}

#[test]
fn pipe2_failure_leaves_the_table() {
    let mut t = FD_TABLE::new();
    for i in 0..AX_FILE_LIMIT - 1 {
        t.add_file_like(i as u64).unwrap();
    }
    assert_eq!(sys_pipe2(&mut t, 40, 41), Err(SysError::EMFILE));
    assert_eq!(t.get_file_like((AX_FILE_LIMIT - 1) as i32), Err(SysError::EBADF));
    assert_eq!(t.add_file_like(5), Ok((AX_FILE_LIMIT - 1) as i32));
    assert_eq!(sys_pipe2(&mut t, 40, 41), Err(SysError::EMFILE));
}

#[test]
fn default_kstat() {
    let k = Kstat::default();
    assert_eq!((k.ino, k.nlink, k.uid, k.gid, k.mode, k.size, k.blocks, k.blksize), (1, 1, 1, 1, 0, 0, 0, 4096));
}
