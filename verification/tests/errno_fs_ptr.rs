use starry::errno::{syscall_return, SysError};
use starry::fs::{mkdirat_check, unlink_action, unlink_result, UnlinkAction, AT_FDCWD, AT_REMOVEDIR};
use starry::mm::MappingFlags;
use starry::ptr::{check_page, check_region, region_pages, CstrStep, CstrWalk, UserConstPtr, UserPtr};

#[test]
fn errno_codes() {
    assert_eq!(SysError::EPERM.code(), 1);
    assert_eq!(SysError::ENOENT.code(), 2);
    assert_eq!(SysError::EBADF.code(), 9);
    assert_eq!(SysError::EAGAIN.code(), 11);
    assert_eq!(SysError::EINVAL.code(), 22);
    assert_eq!(SysError::EISDIR.code(), 21);
    assert_eq!(SysError::ENOSYS.code(), 38);
    assert_eq!(SysError::EAFNOSUPPORT.code(), 97);
    assert_eq!(syscall_return(Ok(5)), 5);
    assert_eq!(syscall_return(Err(SysError::EFAULT)), -14);
}

#[test]
fn mkdirat_rules() {
    assert_eq!(mkdirat_check(b"/tmp/x", 3), Ok(()));
    assert_eq!(mkdirat_check(b"x", AT_FDCWD), Ok(()));
    assert_eq!(mkdirat_check(b"x", 3), Err(SysError::EINVAL));
    assert_eq!(mkdirat_check(b"", 3), Err(SysError::EINVAL));
}

#[test]
fn unlinkat_rules() {
    assert_eq!(unlink_action(AT_REMOVEDIR, Err(SysError::ENOENT)), Ok(UnlinkAction::RemoveDir));
    assert_eq!(unlink_action(0, Ok(true)), Err(SysError::EISDIR));
    assert_eq!(unlink_action(0, Ok(false)), Ok(UnlinkAction::RemoveLink));
    assert_eq!(unlink_action(0, Err(SysError::ENOENT)), Err(SysError::ENOENT));
    assert_eq!(unlink_result(true), Ok(0));
    assert_eq!(unlink_result(false), Err(SysError::ENOENT));
}

#[test]
fn user_pointers() {
    let p: UserPtr<u32> = UserPtr::from_addr(0x1000);
    assert_eq!(p.address(), 0x1000);
    assert!(!p.is_null());
    assert!(UserConstPtr::<u8>::from_addr(0).is_null());
    assert_eq!(UserPtr::<u8>::access_flags(), MappingFlags { bits: 3 });
    assert_eq!(UserConstPtr::<u8>::access_flags(), MappingFlags { bits: 1 });
}

#[test]
fn region_checks() {
    assert_eq!(region_pages(0x1ff8, 16), (0x1000, 2));
    assert_eq!(region_pages(0x1000, 0x1000), (0x1000, 1));
    let rw = MappingFlags { bits: 3 };
    let ro = MappingFlags { bits: 1 };
    assert_eq!(check_page(Some(rw), ro), Ok(()));
    assert_eq!(check_page(Some(ro), rw), Err(SysError::EFAULT));
    assert_eq!(check_page(None, ro), Err(SysError::EFAULT));
    assert_eq!(check_region(0x1004, 4, ro, &vec![Some(rw)]), Ok(()));
    assert_eq!(check_region(0x1002, 4, ro, &vec![Some(rw)]), Err(SysError::EFAULT));
    assert_eq!(check_region(0x1000, 1, rw, &vec![Some(rw), Some(ro)]), Err(SysError::EFAULT));
}

#[test]
fn c_string_walk_checks_each_page_before_reading_it() {
    // "ab" and its NUL at 0x1ffe..=0x2000: the NUL is in the next page.
    let start = 0x1ffe;
    assert_eq!(CstrWalk::first_page(start), 0x1000);
    let mut walk = CstrWalk::new(start);
    let mut checked = vec![0x1000];
    let memory = [b'a', b'b', 0u8];
    let len = loop {
        let step = walk.step();
        if let Some(page) = step.check {
            checked.push(page);
            walk.page_checked();
        }
        if let Some(len) = walk.advance(memory[step.addr - start]) {
            break len;
        }
    };
    assert_eq!(len, 2);
    assert_eq!(checked, vec![0x1000, 0x2000]);
    let w = CstrWalk::new(0x3000);
    assert_eq!(w.step(), CstrStep { check: None, addr: 0x3000 });
}
