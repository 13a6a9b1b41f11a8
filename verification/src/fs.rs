//! The decisions of the path-based file system calls `mkdirat` and
//! `unlinkat`.
use vstd::prelude::*;
use crate::errno::SysError;

verus! {

/// The directory descriptor that stands for the current directory.
pub const AT_FDCWD: i32 = -100;

/// `unlinkat`'s flag to remove a directory.
pub const AT_REMOVEDIR: usize = 0x200;

/// `mkdirat` takes an absolute path, or a path relative to the current
/// directory: a relative path with another directory descriptor is
/// `EINVAL`.
pub fn mkdirat_check(path: &[u8], dirfd: i32) -> (r: Result<(), SysError>)
    ensures
        r == if !(path@.len() > 0 && path@[0] == 0x2fu8) && dirfd != AT_FDCWD {
            Err(SysError::EINVAL)
        } else {
            Ok::<(), SysError>(())
        },
{
    let absolute = path.len() > 0 && path[0] == 0x2fu8;
    if !absolute && dirfd != AT_FDCWD {
        return Err(SysError::EINVAL);
    }
    Ok(())
}

/// What `unlinkat` removes.
#[derive(Debug, Clone, Copy, PartialEq, Eq, Structural)]
pub enum UnlinkAction {
    /// Remove the directory.
    RemoveDir,
    /// Remove the link.
    RemoveLink,
}

/// `unlinkat`'s decision: with exactly `AT_REMOVEDIR` the directory is
/// removed; otherwise the link is, which refuses a directory with `EISDIR`.
/// `is_dir` is what the file's metadata tells, or the error of looking it
/// up, and is only needed in the second case.
pub fn unlink_action(flags: usize, is_dir: Result<bool, SysError>) -> (r: Result<UnlinkAction, SysError>)
    ensures
        flags == AT_REMOVEDIR ==> r == Ok::<UnlinkAction, SysError>(UnlinkAction::RemoveDir),
        flags != AT_REMOVEDIR ==> r == match is_dir {
            Ok(true) => Err(SysError::EISDIR),
            Ok(false) => Ok(UnlinkAction::RemoveLink),
            Err(e) => Err(e),
        },
{
    if flags == AT_REMOVEDIR {
        return Ok(UnlinkAction::RemoveDir);
    }
    match is_dir {
        Ok(true) => Err(SysError::EISDIR),
        Ok(false) => Ok(UnlinkAction::RemoveLink),
        Err(e) => Err(e),
    }
}

/// The outcome of removing a link: `ENOENT` when there was no such link.
pub fn unlink_result(removed: bool) -> (r: Result<isize, SysError>)
    ensures
        r == if removed { Ok::<isize, SysError>(0) } else { Err(SysError::ENOENT) },
{
    if removed {
        Ok(0)
    } else {
        Err(SysError::ENOENT)
    }
}

} // verus!
