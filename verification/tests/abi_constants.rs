use linux_raw_sys::general as g;
use linux_raw_sys::net as n;
use axerrno::LinuxError as L;
use starry::errno::SysError as S;

#[test]
fn memory_constants_match_linux() {
    assert_eq!(starry::mm::PROT_READ, g::PROT_READ);
    assert_eq!(starry::mm::PROT_WRITE, g::PROT_WRITE);
    assert_eq!(starry::mm::PROT_EXEC, g::PROT_EXEC);
    assert_eq!(starry::mm::PROT_GROWSDOWN, g::PROT_GROWSDOWN);
    assert_eq!(starry::mm::PROT_GROWSUP, g::PROT_GROWSUP);
    assert_eq!(starry::mm::MAP_SHARED, g::MAP_SHARED);
    assert_eq!(starry::mm::MAP_PRIVATE, g::MAP_PRIVATE);
    assert_eq!(starry::mm::MAP_FIXED, g::MAP_FIXED);
    assert_eq!(starry::mm::MAP_ANONYMOUS, g::MAP_ANONYMOUS);
    assert_eq!(starry::mm::MAP_NORESERVE, g::MAP_NORESERVE);
    assert_eq!(starry::mm::MAP_STACK, g::MAP_STACK);
    assert_eq!(starry::mm::PAGE_SIZE_4K, memory_addr::PAGE_SIZE_4K);
}

#[test]
fn task_and_time_constants_match_linux() {
    assert_eq!(starry::futex::FUTEX_WAIT, g::FUTEX_WAIT);
    assert_eq!(starry::futex::FUTEX_WAKE, g::FUTEX_WAKE);
    assert_eq!(starry::futex::FUTEX_REQUEUE, g::FUTEX_REQUEUE);
    assert_eq!(starry::futex::FUTEX_CMP_REQUEUE, g::FUTEX_CMP_REQUEUE);
    assert_eq!(starry::futex::FUTEX_CMD_MASK, g::FUTEX_CMD_MASK as u32);
    assert_eq!(starry::task::WNOHANG, g::WNOHANG);
    assert_eq!(starry::task::WUNTRACED, g::WUNTRACED);
    assert_eq!(starry::task::WEXITED, g::WEXITED);
    assert_eq!(starry::task::WCONTINUED, g::WCONTINUED);
    assert_eq!(starry::task::WNOWAIT, g::WNOWAIT);
    assert_eq!(starry::task::WNOTHREAD, g::__WNOTHREAD);
    assert_eq!(starry::task::WALL, g::__WALL);
    assert_eq!(starry::task::WCLONE, g::__WCLONE);
    assert_eq!(starry::time::CLOCK_REALTIME, g::CLOCK_REALTIME);
    assert_eq!(starry::time::CLOCK_MONOTONIC, g::CLOCK_MONOTONIC);
    assert_eq!(starry::file::S_IFIFO, g::S_IFIFO);
    assert_eq!(starry::fs::AT_FDCWD, g::AT_FDCWD);
}

#[test]
fn socket_constants_match_linux() {
    assert_eq!(starry::sockaddr::AF_INET, n::AF_INET);
    assert_eq!(starry::sockaddr::AF_INET6, n::AF_INET6);
    assert_eq!(starry::sockaddr::SOCKADDR_SIZE as usize, core::mem::size_of::<n::sockaddr>());
    assert_eq!(starry::sockaddr::SOCKADDR_IN_SIZE as usize, core::mem::size_of::<n::sockaddr_in>());
    assert_eq!(starry::sockaddr::SOCKADDR_IN6_SIZE as usize, core::mem::size_of::<n::sockaddr_in6>());
    assert_eq!(starry::sockaddr::SA_FAMILY_SIZE as usize, core::mem::size_of::<n::__kernel_sa_family_t>());
}

#[test]
fn error_numbers_match_linux() {
    let pairs = [
        (S::EPERM, L::EPERM),
        (S::ENOENT, L::ENOENT),
        (S::EAGAIN, L::EAGAIN),
        (S::ENOMEM, L::ENOMEM),
        (S::EFAULT, L::EFAULT),
        (S::EINVAL, L::EINVAL),
        (S::EBADF, L::EBADF),
        (S::ECHILD, L::ECHILD),
        (S::ENODEV, L::ENODEV),
        (S::EISDIR, L::EISDIR),
        (S::EMFILE, L::EMFILE),
        (S::EPIPE, L::EPIPE),
        (S::ENOSYS, L::ENOSYS),
        (S::EAFNOSUPPORT, L::EAFNOSUPPORT),
    ];
    for (s, l) in pairs {
        assert_eq!(s.code(), l.code());
    }
}
