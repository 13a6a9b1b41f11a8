//! The system-call logic of a small monolithic kernel: pipes, the file
//! descriptor table, mounts, memory-mapping requests, futex commands, task
//! bookkeeping, time conversions, socket addresses and directory entries.
//!
//! Every module holds the decisions and computations of its system calls; the
//! parts that touch hardware, the scheduler or user memory are performed by
//! the caller, which hands the results in as plain values.

pub mod bytes;
pub mod errno;
pub mod file;
pub mod pipe;
pub mod time_stat;
pub mod sockaddr;
pub mod time;
pub mod mount;
pub mod mm;
pub mod futex;
pub mod task;
pub mod stat;
pub mod dirent;
pub mod ptr;
pub mod fs;
