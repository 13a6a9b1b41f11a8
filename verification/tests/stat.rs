use starry::errno::SysError;
use starry::stat::{stat_outcome, statx_by_fd, statx_error, Kstat, PosixStat, StatX, AT_EMPTY_PATH};
use starry::time::Timespec;

fn status() -> PosixStat {
    PosixStat {
        st_dev: 3,
        st_ino: 77,
        st_nlink: 2,
        st_mode: 0o100644,
        st_uid: 1000,
        st_gid: 100,
        st_rdev: 0,
        st_size: 5000,
        st_blksize: 512,
        st_blocks: 10,
        st_atime: Timespec { tv_sec: 10, tv_nsec: 20 },
        st_mtime: Timespec { tv_sec: 30, tv_nsec: 40 },
        st_ctime: Timespec { tv_sec: 50, tv_nsec: 60 },
    }
}

#[test]
fn kstat_from_status() {
    let k = Kstat::from_posix(status());
    assert_eq!((k.st_dev, k.st_ino, k.st_nlink, k.st_mode), (3, 77, 2, 0o100644));
    assert_eq!((k.st_size, k.st_blksize, k.st_blocks), (5000, 512, 10));
    assert_eq!((k.st_atime_sec, k.st_atime_nsec, k.st_ctime_sec, k.st_ctime_nsec), (10, 20, 50, 60));
    assert_eq!(k.__unused, [0; 3]);
}

#[test]
fn negative_result_is_passed_on() {
    let (r, k) = stat_outcome(-9, status());
    assert_eq!(r, -9);
    assert!(k.is_none());
    let (r, k) = stat_outcome(0, status());
    assert_eq!(r, 0);
    assert_eq!(k.unwrap().st_ino, 77);
}

#[test]
fn statx_rules() {
    assert_eq!(statx_by_fd(0, AT_EMPTY_PATH), Ok(()));
    assert_eq!(statx_by_fd(0, 0), Err(SysError::EINVAL));
    assert_eq!(statx_by_fd(4, AT_EMPTY_PATH), Err(SysError::ENOSYS));
    assert_eq!(statx_error(-2), SysError::Raw(2));
    assert_eq!(statx_error(-2).code(), 2);
}

#[test]
fn statx_fill_keeps_other_fields() {
    let mut sx = StatX::default();
    sx.stx_mnt_id = 5;
    sx.fill_from(&status());
    assert_eq!(sx.stx_ino, 77);
    assert_eq!(sx.stx_mode, 0o100644u32 as u16);
    assert_eq!(sx.stx_attributes, 0o100644);
    assert_eq!(sx.stx_attributes_mask, 0x7ff);
    assert_eq!((sx.stx_mtime.tv_sec, sx.stx_mtime.tv_nsec), (30, 40));
    assert_eq!(sx.stx_mnt_id, 5);
    assert_eq!(sx.stx_btime.tv_sec, 0);
}
