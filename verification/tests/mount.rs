use starry::errno::SysError;
use starry::mount::{check_mounted, mount_fat_fs, sys_mount, sys_umount2, umount_fat_fs, FilePath, MountTable, MountedFs};

fn p(s: &str) -> FilePath {
    FilePath::new(s.as_bytes().to_vec())
}

#[test]
fn mounted_fs_keeps_its_paths() {
    let m = MountedFs::new(&p("/dev/sda"), &p("/mnt"));
    assert_eq!(m.device().as_bytes(), b"/dev/sda");
    assert_eq!(m.mnt_dir().as_bytes(), b"/mnt");
}

#[test]
fn path_prefix() {
    assert!(p("/mnt/a").starts_with(&p("/mnt")));
    assert!(p("/mnt").starts_with(&p("/mnt")));
    assert!(p("/mntx").starts_with(&p("/mnt")));
    assert!(!p("/mn").starts_with(&p("/mnt")));
    assert!(p("/a").same_as(&p("/a")));
    assert!(!p("/a").same_as(&p("/b")));
}

#[test]
fn mount_check_umount() {
    let mut t = MountTable::new();
    assert!(!mount_fat_fs(&mut t, &p("/dev/sda"), &p("/mnt"), false));
    assert!(!check_mounted(&t, &p("/mnt")));
    assert!(mount_fat_fs(&mut t, &p("/dev/sda"), &p("/mnt"), true));
    assert!(check_mounted(&t, &p("/mnt")));
    assert!(check_mounted(&t, &p("/mnt/x/y")));
    assert!(!check_mounted(&t, &p("/home")));
    assert!(umount_fat_fs(&mut t, &p("/mnt")));
    assert!(!check_mounted(&t, &p("/mnt")));
    assert!(!umount_fat_fs(&mut t, &p("/mnt")));
}

#[test]
fn umount_removes_every_mount_on_the_directory() {
    let mut t = MountTable::new();
    assert!(mount_fat_fs(&mut t, &p("/dev/a"), &p("/mnt"), true));
    assert!(mount_fat_fs(&mut t, &p("/dev/b"), &p("/other"), true));
    assert!(mount_fat_fs(&mut t, &p("/dev/c"), &p("/mnt"), true));
    assert!(umount_fat_fs(&mut t, &p("/mnt")));
    assert!(!check_mounted(&t, &p("/mnt")));
    assert!(check_mounted(&t, &p("/other")));
}

#[test]
fn sys_mount_rules() {
    let mut t = MountTable::new();
    assert_eq!(sys_mount(&mut t, &p("/dev/sda"), &p("/mnt"), b"ext4", true), Err(SysError::EPERM));
    assert_eq!(sys_mount(&mut t, &p("/dev/sda"), &p("/mnt"), b"vfat", false), Err(SysError::EPERM));
    assert_eq!(sys_mount(&mut t, &p("/dev/sda"), &p("/mnt"), b"vfat", true), Ok(0));
    assert_eq!(sys_mount(&mut t, &p("/dev/sdb"), &p("/mnt/sub"), b"vfat", true), Err(SysError::EPERM));
    assert!(check_mounted(&t, &p("/mnt")));
}

#[test]
fn sys_umount2_rules() {
    let mut t = MountTable::new();
    assert_eq!(sys_mount(&mut t, &p("/dev/sda"), &p("/mnt"), b"vfat", true), Ok(0));
    assert_eq!(sys_umount2(&mut t, &p("/mnt"), 1, true), Err(SysError::EPERM));
    assert_eq!(sys_umount2(&mut t, &p("/mnt"), 0, false), Err(SysError::EPERM));
    assert_eq!(sys_umount2(&mut t, &p("/home"), 0, true), Err(SysError::EPERM));
    assert_eq!(sys_umount2(&mut t, &p("/mnt"), 0, true), Ok(0));
    assert!(!check_mounted(&t, &p("/mnt")));
    assert_eq!(sys_mount(&mut t, &p("/dev/sda"), &p("/mnt"), b"vfat", true), Ok(0));
}
