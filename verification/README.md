# starry

The system-call logic of a small monolithic kernel that runs Linux user
programs, written in Verus and proved against its contracts.

- `src/` is the verified library: the file descriptor table, pipes and their
  ring buffer, mounting, directory entries for `getdents64`, file status
  records, socket addresses, time values and per-task time accounting, the
  argument checks of the memory calls, futex commands, waiting for children,
  exit, `arch_prctl`, and the checks made on user pointers. Each public
  function states in its `ensures` what it returns or changes; the laws that
  tie several calls together are public proof functions (`lemma_*`).
- `tests/` runs the library on concrete values.
- `app/` is the kernel around it: the system call entry, user memory, the
  scheduler, the address space and the file system. It needs the kernel's
  platform crates to build.
