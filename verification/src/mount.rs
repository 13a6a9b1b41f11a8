//! The table of mounted file systems, and the decisions of `mount` and
//! `umount2`.
use vstd::prelude::*;
use crate::errno::SysError;

verus! {

/// A file path, as its bytes.
#[derive(Debug)]
pub struct FilePath {
    bytes: Vec<u8>,
}

impl View for FilePath {
    type V = Seq<u8>;

    closed spec fn view(&self) -> Seq<u8> {
        self.bytes@
    }
}

impl Clone for FilePath {
    fn clone(&self) -> (p: Self)
        ensures
            p@ == self@,
    {
        FilePath { bytes: self.bytes.clone() }
    }
}

/// Whether `prefix` is the beginning of `s`.
pub open spec fn is_prefix_of(prefix: Seq<u8>, s: Seq<u8>) -> bool {
    prefix.len() <= s.len() && s.take(prefix.len() as int) == prefix
}

impl FilePath {
    /// The path with these bytes.
    pub fn new(bytes: Vec<u8>) -> (p: Self)
        ensures
            p@ == bytes@,
    {
        FilePath { bytes }
    }

    /// The bytes of the path.
    pub fn as_bytes(&self) -> (b: &[u8])
        ensures
            b@ == self@,
    {
        self.bytes.as_slice()
    }

    /// Whether the two paths are the same.
    pub fn same_as(&self, other: &FilePath) -> (r: bool)
        ensures
            r == (self@ == other@),
    {
        if self.bytes.len() != other.bytes.len() {
            return false;
        }
        let mut i: usize = 0;
        while i < self.bytes.len()
            invariant
                i <= self@.len(),
                self@.len() == other@.len(),
                self@.take(i as int) == other@.take(i as int),
            decreases self@.len() - i,
        {
            if self.bytes[i] != other.bytes[i] {
                assert(self@[i as int] != other@[i as int]);
                return false;
            }
            i = i + 1;
            assert(self@.take(i as int) =~= other@.take(i as int));
        }
        assert(self@.take(self@.len() as int) =~= self@);
        assert(other@.take(other@.len() as int) =~= other@);
        true
    }

    /// Whether `prefix` is the beginning of this path.
    pub fn starts_with(&self, prefix: &FilePath) -> (r: bool)
        ensures
            r == is_prefix_of(prefix@, self@),
    {
        if prefix.bytes.len() > self.bytes.len() {
            return false;
        }
        let mut i: usize = 0;
        while i < prefix.bytes.len()
            invariant
                i <= prefix@.len(),
                prefix@.len() <= self@.len(),
                self@.take(i as int) == prefix@.take(i as int),
            decreases prefix@.len() - i,
        {
            if self.bytes[i] != prefix.bytes[i] {
                assert(self@.take(prefix@.len() as int)[i as int] != prefix@[i as int]);
                return false;
            }
            i = i + 1;
            assert(self@.take(i as int) =~= prefix@.take(i as int));
        }
        assert(prefix@.take(prefix@.len() as int) =~= prefix@);
        true
    }
}

/// A mounted file system: the device it is read from and the directory it
/// is mounted on.
#[derive(Debug)]
pub struct MountedFs {
    pub device: FilePath,
    pub mnt_dir: FilePath,
}

impl Clone for MountedFs {
    fn clone(&self) -> (m: Self)
        ensures
            m.device@ == self.device@,
            m.mnt_dir@ == self.mnt_dir@,
    {
        MountedFs { device: self.device.clone(), mnt_dir: self.mnt_dir.clone() }
    }
}

impl MountedFs {
    /// The mount of `device` on `mnt_dir`.
    pub fn new(device: &FilePath, mnt_dir: &FilePath) -> (m: Self)
        ensures
            m.device@ == device@,
            m.mnt_dir@ == mnt_dir@,
    {
        Self { device: device.clone(), mnt_dir: mnt_dir.clone() }
    }

    /// The device.
    pub fn device(&self) -> (p: FilePath)
        ensures
            p@ == self.device@,
    {
        self.device.clone()
    }

    /// The directory mounted on.
    pub fn mnt_dir(&self) -> (p: FilePath)
        ensures
            p@ == self.mnt_dir@,
    {
        self.mnt_dir.clone()
    }
}

/// A mount, as the paths of its device and its directory.
pub type MountView = (Seq<u8>, Seq<u8>);

/// The file systems mounted besides the one the system started on.
pub struct MountTable {
    mounted: Vec<MountedFs>,
}

/// Whether a mount is not on `dir`.
pub open spec fn not_on(dir: Seq<u8>) -> spec_fn(MountView) -> bool {
    |m: MountView| m.1 != dir
}

/// Whether a path lies under some mounted directory, or is one.
pub open spec fn mounted_under(mounts: Seq<MountView>, path: Seq<u8>) -> bool {
    exists|i: int| 0 <= i < mounts.len() && is_prefix_of(#[trigger] mounts[i].1, path)
}

/// Whether some mount is on `dir`.
pub open spec fn mounted_on(mounts: Seq<MountView>, dir: Seq<u8>) -> bool {
    exists|i: int| 0 <= i < mounts.len() && #[trigger] mounts[i].1 == dir
}

/// The mounts of a list of mounted file systems.
pub open spec fn mounts_view(v: Seq<MountedFs>) -> Seq<MountView> {
    Seq::new(v.len(), |i: int| (v[i].device@, v[i].mnt_dir@))
}

impl View for MountTable {
    type V = Seq<MountView>;

    closed spec fn view(&self) -> Seq<MountView> {
        mounts_view(self.mounted@)
    }
}

impl MountTable {
    /// A table with nothing mounted.
    pub fn new() -> (t: Self)
        ensures
            t@ == Seq::<MountView>::empty(),
    {
        let t = MountTable { mounted: Vec::new() };
        assert(t@ =~= Seq::<MountView>::empty());
        t
    }
}

/// Mounts `device_path` on `mount_path`, which must exist; tells whether it
/// was mounted.
pub fn mount_fat_fs(table: &mut MountTable, device_path: &FilePath, mount_path: &FilePath, mount_path_exists: bool) -> (r: bool)
    ensures
        r == mount_path_exists,
        final(table)@ == if mount_path_exists {
            old(table)@.push((device_path@, mount_path@))
        } else {
            old(table)@
        },
{
    if mount_path_exists {
        let m = MountedFs::new(device_path, mount_path);
        table.mounted.push(m);
        assert(table@ =~= old(table)@.push((device_path@, mount_path@)));
        return true;
    }
    false
}

/// Unmounts every file system mounted on `mount_path`; tells whether there
/// was one.
pub fn umount_fat_fs(table: &mut MountTable, mount_path: &FilePath) -> (r: bool)
    ensures
        final(table)@ == old(table)@.filter(not_on(mount_path@)),
        r == mounted_on(old(table)@, mount_path@),
{
    broadcast use Seq::lemma_filter_push;

    let ghost old_view = table@;
    let mut kept: Vec<MountedFs> = Vec::new();
    let length_before_deletion = table.mounted.len();
    let mut i: usize = 0;
    while i < table.mounted.len()
        invariant
            i <= table.mounted@.len(),
            table@ == old_view,
            length_before_deletion == old_view.len(),
            mounts_view(kept@) == old_view.take(i as int).filter(not_on(mount_path@)),
            kept@.len() <= i,
            kept@.len() == i ==> !mounted_on(old_view.take(i as int), mount_path@),
            kept@.len() < i ==> mounted_on(old_view.take(i as int), mount_path@),
        decreases table.mounted@.len() - i,
    {
        let ghost prev = old_view.take(i as int);
        let ghost cur = old_view.take(i + 1);
        assert(cur =~= prev.push(old_view[i as int]));
        let m = &table.mounted[i];
        let dir = m.mnt_dir();
        let ghost before = kept@;
        assert(old_view[i as int] == (m.device@, m.mnt_dir@));
        let ghost x = old_view[i as int];
        let ghost p = not_on(mount_path@);
        proof { prev.lemma_filter_push(x, p); }
        assert(cur.filter(p) == prev.push(x).filter(p));
        if !dir.same_as(mount_path) {
            kept.push(m.clone());
            assert(mounts_view(kept@) =~= mounts_view(before).push(x));
            assert(p(x));
            assert(cur.filter(p) == prev.filter(p).push(x));
        } else {
            assert(cur[i as int].1 == mount_path@);
            assert(!p(x));
            assert(cur.filter(p) == prev.filter(p));
        }
        proof {
            if kept@.len() == i + 1 {
                assert(!mounted_on(cur, mount_path@)) by {
                    if mounted_on(cur, mount_path@) {
                        let k = choose|k: int| 0 <= k < cur.len() && #[trigger] cur[k].1 == mount_path@;
                        if k < i {
                            assert(prev[k].1 == mount_path@);
                        }
                    }
                }
            } else if before.len() == i {
                assert(cur[i as int].1 == mount_path@);
            } else {
                let k = choose|k: int| 0 <= k < prev.len() && #[trigger] prev[k].1 == mount_path@;
                assert(cur[k].1 == mount_path@);
            }
        }
        i = i + 1;
    }
    assert(old_view.take(old_view.len() as int) =~= old_view);
    table.mounted = kept;
    length_before_deletion > table.mounted.len()
}

/// Whether `path` lies under a mounted directory, or is one.
pub fn check_mounted(table: &MountTable, path: &FilePath) -> (r: bool)
    ensures
        r == mounted_under(table@, path@),
{
    let mut i: usize = 0;
    while i < table.mounted.len()
        invariant
            i <= table.mounted@.len(),
            !mounted_under(table@.take(i as int), path@),
        decreases table.mounted@.len() - i,
    {
        let dir = table.mounted[i].mnt_dir();
        if path.starts_with(&dir) {
            assert(table@[i as int].1 == dir@);
            return true;
        }
        i = i + 1;
        assert(!mounted_under(table@.take(i as int), path@)) by {
            if mounted_under(table@.take(i as int), path@) {
                let k = choose|k: int| 0 <= k < i && is_prefix_of(#[trigger] table@.take(i as int)[k].1, path@);
                if k < i - 1 {
                    assert(table@.take(i - 1)[k] == table@.take(i as int)[k]);
                }
            }
        }
    }
    assert(table@.take(table@.len() as int) =~= table@);
    false
}

/// The file-system type `mount` accepts.
pub open spec fn vfat() -> Seq<u8> {
    seq![0x76u8, 0x66u8, 0x61u8, 0x74u8]
}

/// `mount`: mounts `device_path` on `mount_path`, which must exist and must
/// not lie under a mounted directory, for a file system of type `vfat`
/// only; every refusal is `EPERM`.
pub fn sys_mount(table: &mut MountTable, device_path: &FilePath, mount_path: &FilePath, fs_type: &[u8], mount_path_exists: bool) -> (r: Result<isize, SysError>)
    ensures
        ({
            let ok = fs_type@ == vfat() && mount_path_exists && !mounted_under(old(table)@, mount_path@);
            &&& r == if ok { Ok::<isize, SysError>(0) } else { Err(SysError::EPERM) }
            &&& final(table)@ == if ok { old(table)@.push((device_path@, mount_path@)) } else { old(table)@ }
        }),
{
    let is_vfat = fs_type.len() == 4 && fs_type[0] == 0x76u8 && fs_type[1] == 0x66u8 && fs_type[2] == 0x61u8
        && fs_type[3] == 0x74u8;
    assert(is_vfat == (fs_type@ == vfat())) by {
        if fs_type@.len() == 4 {
            if is_vfat {
                assert(fs_type@ =~= vfat());
            } else if fs_type@ == vfat() {
                assert(fs_type@[0] == 0x76u8);
            }
        }
    }
    if !is_vfat {
        return Err(SysError::EPERM);
    }
    if !mount_path_exists {
        return Err(SysError::EPERM);
    }
    if check_mounted(table, mount_path) {
        return Err(SysError::EPERM);
    }
    if !mount_fat_fs(table, device_path, mount_path, mount_path_exists) {
        return Err(SysError::EPERM);
    }
    Ok(0)
}

/// `umount2`: unmounts what is mounted on `mount_path`, which must exist;
/// flags are not supported. Every refusal is `EPERM`.
pub fn sys_umount2(table: &mut MountTable, mount_path: &FilePath, flags: i32, mount_path_exists: bool) -> (r: Result<isize, SysError>)
    ensures
        ({
            let ok = flags == 0 && mount_path_exists && mounted_on(old(table)@, mount_path@);
            &&& r == if ok { Ok::<isize, SysError>(0) } else { Err(SysError::EPERM) }
            &&& final(table)@ == if flags == 0 && mount_path_exists {
                old(table)@.filter(not_on(mount_path@))
            } else {
                old(table)@
            }
        }),
{
    if flags != 0 {
        return Err(SysError::EPERM);
    }
    if !mount_path_exists {
        return Err(SysError::EPERM);
    }
    if !umount_fat_fs(table, mount_path) {
        return Err(SysError::EPERM);
    }
    Ok(0)
}

/// Mounting a directory that nothing is mounted on and unmounting it again
/// leaves the table as it was; and while it is mounted, the directory counts
/// as mounted.
pub proof fn lemma_mount_then_umount(mounts: Seq<MountView>, device: Seq<u8>, dir: Seq<u8>)
    requires
        !mounted_on(mounts, dir),
    ensures
        mounted_under(mounts.push((device, dir)), dir),
        mounted_on(mounts.push((device, dir)), dir),
        mounts.push((device, dir)).filter(not_on(dir)) == mounts,
{
    broadcast use Seq::lemma_filter_push;

    let m = mounts.push((device, dir));
    assert(m[mounts.len() as int].1 == dir);
    assert(dir.take(dir.len() as int) =~= dir);
    assert(is_prefix_of(m[mounts.len() as int].1, dir));
    lemma_filter_keeps_all(mounts, dir);
}

/// Filtering out the mounts on a directory that nothing is mounted on
/// changes nothing.
proof fn lemma_filter_keeps_all(mounts: Seq<MountView>, dir: Seq<u8>)
    requires
        !mounted_on(mounts, dir),
    ensures
        mounts.filter(not_on(dir)) == mounts,
    decreases mounts.len(),
{
    broadcast use Seq::lemma_filter_push;

    if mounts.len() > 0 {
        let init = mounts.drop_last();
        assert(!mounted_on(init, dir)) by {
            if mounted_on(init, dir) {
                let k = choose|k: int| 0 <= k < init.len() && #[trigger] init[k].1 == dir;
                assert(mounts[k].1 == dir);
            }
        }
        lemma_filter_keeps_all(init, dir);
        assert(mounts =~= init.push(mounts.last()));
        assert(mounts.last().1 != dir) by {
            assert(mounts[mounts.len() - 1].1 != dir);
        }
    } else {
        reveal(Seq::filter);
    }
}

} // verus!
