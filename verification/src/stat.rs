//! File status in the layouts user space reads: `stat` (x86_64 layout) and
//! `statx`, filled from the status the file system reports.
use vstd::prelude::*;
use crate::errno::SysError;
use crate::time::Timespec;

verus! {

/// The status of a file as the file-system layer reports it.
#[derive(Debug, Clone, Copy, PartialEq, Eq, Structural)]
pub struct PosixStat {
    pub st_dev: u64,
    pub st_ino: u64,
    pub st_nlink: u32,
    pub st_mode: u32,
    pub st_uid: u32,
    pub st_gid: u32,
    pub st_rdev: u64,
    pub st_size: i64,
    pub st_blksize: i64,
    pub st_blocks: i64,
    pub st_atime: Timespec,
    pub st_mtime: Timespec,
    pub st_ctime: Timespec,
}

/// `struct stat` as user space reads it on x86_64.
#[derive(Debug, Clone, Copy)]
pub struct Kstat {
    /// device
    pub st_dev: u64,
    /// inode number
    pub st_ino: u64,
    /// number of hard links
    pub st_nlink: u64,
    /// file type and mode
    pub st_mode: u32,
    /// owner's user id
    pub st_uid: u32,
    /// owner's group id
    pub st_gid: u32,
    /// padding
    pub __pad0: u32,
    /// device number, for a device file
    pub st_rdev: u64,
    /// size in bytes
    pub st_size: i64,
    /// block size
    pub st_blksize: i64,
    /// number of blocks
    pub st_blocks: i64,
    /// last access, seconds
    pub st_atime_sec: u64,
    /// last access, nanoseconds
    pub st_atime_nsec: u64,
    /// last modification, seconds
    pub st_mtime_sec: u64,
    /// last modification, nanoseconds
    pub st_mtime_nsec: u64,
    /// last status change, seconds
    pub st_ctime_sec: u64,
    /// last status change, nanoseconds
    pub st_ctime_nsec: u64,
    pub __unused: [i64; 3],
}

/// Whether `k` is the `stat` record of the status `stat`: the fields carried
/// over, times split into seconds and nanoseconds taken as unsigned as a cast
/// does, padding zero.
pub open spec fn kstat_matches(k: Kstat, stat: PosixStat) -> bool {
    &&& k.st_dev == stat.st_dev
    &&& k.st_ino == stat.st_ino
    &&& k.st_nlink == stat.st_nlink
    &&& k.st_mode == stat.st_mode
    &&& k.st_uid == stat.st_uid
    &&& k.st_gid == stat.st_gid
    &&& k.__pad0 == 0
    &&& k.st_rdev == stat.st_rdev
    &&& k.st_size == stat.st_size
    &&& k.st_blksize == stat.st_blksize
    &&& k.st_blocks == stat.st_blocks
    &&& k.st_atime_sec == stat.st_atime.tv_sec as u64
    &&& k.st_atime_nsec == stat.st_atime.tv_nsec as u64
    &&& k.st_mtime_sec == stat.st_mtime.tv_sec as u64
    &&& k.st_mtime_nsec == stat.st_mtime.tv_nsec as u64
    &&& k.st_ctime_sec == stat.st_ctime.tv_sec as u64
    &&& k.st_ctime_nsec == stat.st_ctime.tv_nsec as u64
    &&& k.__unused@ == seq![0i64, 0i64, 0i64]
}

impl Kstat {
    /// The `stat` record of a file's status: the fields carried over, times
    /// split into seconds and nanoseconds taken as unsigned as a cast does,
    /// padding zero.
    pub fn from_posix(stat: PosixStat) -> (k: Kstat)
        ensures
            kstat_matches(k, stat),
            k.st_atime_sec == stat.st_atime.tv_sec as u64,
            k.st_atime_nsec == stat.st_atime.tv_nsec as u64,
            k.st_mtime_sec == stat.st_mtime.tv_sec as u64,
            k.st_mtime_nsec == stat.st_mtime.tv_nsec as u64,
            k.st_ctime_sec == stat.st_ctime.tv_sec as u64,
            k.st_ctime_nsec == stat.st_ctime.tv_nsec as u64,
            k.st_ino == stat.st_ino,
            k.st_mode == stat.st_mode,
            k.st_size == stat.st_size,
    {
        let k = Kstat {
            st_dev: stat.st_dev,
            st_ino: stat.st_ino,
            st_nlink: stat.st_nlink as u64,
            st_mode: stat.st_mode,
            st_uid: stat.st_uid,
            st_gid: stat.st_gid,
            __pad0: 0u32,
            st_rdev: stat.st_rdev,
            st_size: stat.st_size,
            st_blksize: stat.st_blksize,
            st_blocks: stat.st_blocks,
            st_atime_sec: stat.st_atime.tv_sec as u64,
            st_atime_nsec: stat.st_atime.tv_nsec as u64,
            st_mtime_sec: stat.st_mtime.tv_sec as u64,
            st_mtime_nsec: stat.st_mtime.tv_nsec as u64,
            st_ctime_sec: stat.st_ctime.tv_sec as u64,
            st_ctime_nsec: stat.st_ctime.tv_nsec as u64,
            __unused: [0i64; 3],
        };
        assert(k.__unused@ =~= seq![0i64, 0i64, 0i64]);
        k
    }
}

/// What `fstat` and `fstatat` do with the file-system layer's answer: a
/// negative result is handed back as it is, with nothing written; otherwise
/// 0, with the `stat` record to write.
pub fn stat_outcome(result: i32, stat: PosixStat) -> (r: (isize, Option<Kstat>))
    ensures
        result < 0 ==> r.0 == result && r.1 is None,
        result >= 0 ==> r.0 == 0 && r.1 is Some && kstat_matches(r.1->Some_0, stat),
        result >= 0 ==> r.1->Some_0.st_mtime_sec == stat.st_mtime.tv_sec as u64 && r.1->Some_0.st_mtime_nsec
            == stat.st_mtime.tv_nsec as u64 && r.1->Some_0.st_atime_sec == stat.st_atime.tv_sec as u64
            && r.1->Some_0.st_atime_nsec == stat.st_atime.tv_nsec as u64 && r.1->Some_0.st_ctime_sec
            == stat.st_ctime.tv_sec as u64 && r.1->Some_0.st_ctime_nsec == stat.st_ctime.tv_nsec as u64,
{
    if result < 0 {
        return (result as isize, None);
    }
    (0, Some(Kstat::from_posix(stat)))
}

/// A time in a `statx` record.
#[derive(Debug, Clone, Copy, PartialEq, Eq, Structural)]
pub struct FsStatxTimestamp {
    pub tv_sec: i64,
    pub tv_nsec: u32,
}

impl Default for FsStatxTimestamp {
    fn default() -> (t: Self)
        ensures
            t.tv_sec == 0 && t.tv_nsec == 0,
    {
        FsStatxTimestamp { tv_sec: 0, tv_nsec: 0 }
    }
}

/// `struct statx`, the extended file status.
#[derive(Debug, Clone, Copy, PartialEq, Eq, Structural)]
pub struct StatX {
    /// Bitmask of what information to get.
    pub stx_mask: u32,
    /// Block size for filesystem I/O.
    pub stx_blksize: u32,
    /// File attributes.
    pub stx_attributes: u64,
    /// Number of hard links.
    pub stx_nlink: u32,
    /// User ID of owner.
    pub stx_uid: u32,
    /// Group ID of owner.
    pub stx_gid: u32,
    /// File mode (permissions).
    pub stx_mode: u16,
    /// Inode number.
    pub stx_ino: u64,
    /// Total size, in bytes.
    pub stx_size: u64,
    /// Number of 512B blocks allocated.
    pub stx_blocks: u64,
    /// Mask to show what's supported in stx_attributes.
    pub stx_attributes_mask: u64,
    /// Last access timestamp.
    pub stx_atime: FsStatxTimestamp,
    /// Birth (creation) timestamp.
    pub stx_btime: FsStatxTimestamp,
    /// Last status change timestamp.
    pub stx_ctime: FsStatxTimestamp,
    /// Last modification timestamp.
    pub stx_mtime: FsStatxTimestamp,
    /// Major device ID (if special file).
    pub stx_rdev_major: u32,
    /// Minor device ID (if special file).
    pub stx_rdev_minor: u32,
    /// Major device ID of file system.
    pub stx_dev_major: u32,
    /// Minor device ID of file system.
    pub stx_dev_minor: u32,
    /// Mount ID.
    pub stx_mnt_id: u64,
    /// Memory alignment for direct I/O.
    pub stx_dio_mem_align: u32,
    /// Offset alignment for direct I/O.
    pub stx_dio_offset_align: u32,
}

/// Look the file up by the descriptor when the path is empty.
pub const AT_EMPTY_PATH: u32 = 0x1000;

/// The attribute bits `statx` says it fills.
pub const STATX_ATTRIBUTES_MASK: u64 = 0x7FF;

/// `statx`'s decision on how to find the file: only by descriptor, which
/// takes an empty path and `AT_EMPTY_PATH`. An empty path without the flag
/// is `EINVAL`; a path is `ENOSYS`.
pub fn statx_by_fd(path_len: usize, flags: u32) -> (r: Result<(), SysError>)
    ensures
        r == if path_len != 0 {
            Err(SysError::ENOSYS)
        } else if flags & AT_EMPTY_PATH == 0 {
            Err(SysError::EINVAL)
        } else {
            Ok::<(), SysError>(())
        },
{
    if path_len == 0 {
        if flags & AT_EMPTY_PATH == 0 {
            return Err(SysError::EINVAL);
        }
        Ok(())
    } else {
        Err(SysError::ENOSYS)
    }
}

/// The error `statx` reports when the file-system layer answers with the
/// negative number `result`: its negation.
pub fn statx_error(result: i32) -> (e: SysError)
    requires
        result < 0,
        result > i32::MIN,
    ensures
        e == SysError::Raw(-result as i32),
{
    SysError::Raw(-result)
}

impl StatX {
    /// Fills the fields `statx` reports from a file's status; the other
    /// fields keep what they held.
    pub fn fill_from(&mut self, status: &PosixStat)
        ensures
            final(self).stx_blksize == status.st_blksize as u32,
            final(self).stx_attributes == status.st_mode as u64,
            final(self).stx_nlink == status.st_nlink,
            final(self).stx_uid == status.st_uid,
            final(self).stx_gid == status.st_gid,
            final(self).stx_mode == status.st_mode as u16,
            final(self).stx_ino == status.st_ino,
            final(self).stx_size == status.st_size as u64,
            final(self).stx_blocks == status.st_blocks as u64,
            final(self).stx_attributes_mask == STATX_ATTRIBUTES_MASK,
            final(self).stx_atime == (FsStatxTimestamp {
                tv_sec: status.st_atime.tv_sec,
                tv_nsec: status.st_atime.tv_nsec as u32,
            }),
            final(self).stx_ctime == (FsStatxTimestamp {
                tv_sec: status.st_ctime.tv_sec,
                tv_nsec: status.st_ctime.tv_nsec as u32,
            }),
            final(self).stx_mtime == (FsStatxTimestamp {
                tv_sec: status.st_mtime.tv_sec,
                tv_nsec: status.st_mtime.tv_nsec as u32,
            }),
            final(self).stx_mask == old(self).stx_mask,
            final(self).stx_btime == old(self).stx_btime,
            final(self).stx_rdev_major == old(self).stx_rdev_major,
            final(self).stx_rdev_minor == old(self).stx_rdev_minor,
            final(self).stx_dev_major == old(self).stx_dev_major,
            final(self).stx_dev_minor == old(self).stx_dev_minor,
            final(self).stx_mnt_id == old(self).stx_mnt_id,
            final(self).stx_dio_mem_align == old(self).stx_dio_mem_align,
            final(self).stx_dio_offset_align == old(self).stx_dio_offset_align,
    {
        self.stx_blksize = status.st_blksize as u32;
        self.stx_attributes = status.st_mode as u64;
        self.stx_nlink = status.st_nlink;
        self.stx_uid = status.st_uid;
        self.stx_gid = status.st_gid;
        self.stx_mode = status.st_mode as u16;
        self.stx_ino = status.st_ino;
        self.stx_size = status.st_size as u64;
        self.stx_blocks = status.st_blocks as u64;
        self.stx_attributes_mask = STATX_ATTRIBUTES_MASK;
        self.stx_atime.tv_sec = status.st_atime.tv_sec;
        self.stx_atime.tv_nsec = status.st_atime.tv_nsec as u32;
        self.stx_ctime.tv_sec = status.st_ctime.tv_sec;
        self.stx_ctime.tv_nsec = status.st_ctime.tv_nsec as u32;
        self.stx_mtime.tv_sec = status.st_mtime.tv_sec;
        self.stx_mtime.tv_nsec = status.st_mtime.tv_nsec as u32;
    }
}

impl Default for StatX {
    fn default() -> (s: Self)
        ensures
            s == (StatX {
                stx_mask: 0,
                stx_blksize: 0,
                stx_attributes: 0,
                stx_nlink: 0,
                stx_uid: 0,
                stx_gid: 0,
                stx_mode: 0,
                stx_ino: 0,
                stx_size: 0,
                stx_blocks: 0,
                stx_attributes_mask: 0,
                stx_atime: FsStatxTimestamp { tv_sec: 0, tv_nsec: 0 },
                stx_btime: FsStatxTimestamp { tv_sec: 0, tv_nsec: 0 },
                stx_ctime: FsStatxTimestamp { tv_sec: 0, tv_nsec: 0 },
                stx_mtime: FsStatxTimestamp { tv_sec: 0, tv_nsec: 0 },
                stx_rdev_major: 0,
                stx_rdev_minor: 0,
                stx_dev_major: 0,
                stx_dev_minor: 0,
                stx_mnt_id: 0,
                stx_dio_mem_align: 0,
                stx_dio_offset_align: 0,
            }),
    {
        StatX {
            stx_mask: 0,
            stx_blksize: 0,
            stx_attributes: 0,
            stx_nlink: 0,
            stx_uid: 0,
            stx_gid: 0,
            stx_mode: 0,
            stx_ino: 0,
            stx_size: 0,
            stx_blocks: 0,
            stx_attributes_mask: 0,
            stx_atime: FsStatxTimestamp::default(),
            stx_btime: FsStatxTimestamp::default(),
            stx_ctime: FsStatxTimestamp::default(),
            stx_mtime: FsStatxTimestamp::default(),
            stx_rdev_major: 0,
            stx_rdev_minor: 0,
            stx_dev_major: 0,
            stx_dev_minor: 0,
            stx_mnt_id: 0,
            stx_dio_mem_align: 0,
            stx_dio_offset_align: 0,
        }
    }
}

} // verus!

verus! {

/// A `stat` record keeps each of a file's times in its own fields: the
/// access, modification and status-change times each come from the time of
/// the same name, seconds and nanoseconds; the identity, mode, owner and
/// size fields are carried over as they are.
pub proof fn lemma_stat_times_keep_their_names(k: Kstat, stat: PosixStat)
    requires
        kstat_matches(k, stat),
    ensures
        k.st_atime_sec == stat.st_atime.tv_sec as u64,
        k.st_atime_nsec == stat.st_atime.tv_nsec as u64,
        k.st_mtime_sec == stat.st_mtime.tv_sec as u64,
        k.st_mtime_nsec == stat.st_mtime.tv_nsec as u64,
        k.st_ctime_sec == stat.st_ctime.tv_sec as u64,
        k.st_ctime_nsec == stat.st_ctime.tv_nsec as u64,
        k.st_dev == stat.st_dev,
        k.st_ino == stat.st_ino,
        k.st_mode == stat.st_mode,
        k.st_uid == stat.st_uid,
        k.st_gid == stat.st_gid,
        k.st_size == stat.st_size,
        k.st_blocks == stat.st_blocks,
{
}

} // verus!
