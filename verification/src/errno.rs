use vstd::prelude::*;

verus! {

/// The Linux error numbers that the system calls of this crate report.
///
/// `Raw` carries an error number reported by a lower layer unchanged.
#[allow(non_camel_case_types)]
#[derive(Debug, Clone, Copy, PartialEq, Eq, Structural)]
pub enum SysError {
    EPERM,
    ENOENT,
    EAGAIN,
    ENOMEM,
    EFAULT,
    EINVAL,
    EBADF,
    ECHILD,
    ENODEV,
    EISDIR,
    EMFILE,
    EPIPE,
    ENOSYS,
    EAFNOSUPPORT,
    Raw(i32),
}

/// The number that Linux gives to an error.
pub open spec fn errno_code(e: SysError) -> i32 {
    match e {
        SysError::EPERM => 1,
        SysError::ENOENT => 2,
        SysError::EBADF => 9,
        SysError::ECHILD => 10,
        SysError::EAGAIN => 11,
        SysError::ENOMEM => 12,
        SysError::EFAULT => 14,
        SysError::ENODEV => 19,
        SysError::EISDIR => 21,
        SysError::EINVAL => 22,
        SysError::EMFILE => 24,
        SysError::EPIPE => 32,
        SysError::ENOSYS => 38,
        SysError::EAFNOSUPPORT => 97,
        SysError::Raw(c) => c,
    }
}

impl SysError {
    /// The Linux error number of this error.
    pub fn code(&self) -> (c: i32)
        ensures
            c == errno_code(*self),
    {
        match self {
            SysError::EPERM => 1,
            SysError::ENOENT => 2,
            SysError::EBADF => 9,
            SysError::ECHILD => 10,
            SysError::EAGAIN => 11,
            SysError::ENOMEM => 12,
            SysError::EFAULT => 14,
            SysError::ENODEV => 19,
            SysError::EISDIR => 21,
            SysError::EINVAL => 22,
            SysError::EMFILE => 24,
            SysError::EPIPE => 32,
            SysError::ENOSYS => 38,
            SysError::EAFNOSUPPORT => 97,
            SysError::Raw(c) => *c,
        }
    }
}

/// What a system call hands back to user space: its value on success, and the
/// negated error number on failure.
pub open spec fn syscall_return_spec(r: Result<isize, SysError>) -> int {
    match r {
        Ok(v) => v as int,
        Err(e) => -(errno_code(e) as int),
    }
}

/// Folds a system call's result into the register value that user space sees.
pub fn syscall_return(r: Result<isize, SysError>) -> (v: isize)
    requires
        r is Err ==> errno_code(r->Err_0) > i32::MIN,
    ensures
        v == syscall_return_spec(r),
{
    match r {
        Ok(v) => v,
        Err(e) => {
            let c = e.code();
            -(c as isize)
        },
    }
}

} // verus!
