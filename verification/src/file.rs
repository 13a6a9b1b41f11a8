use vstd::prelude::*;
use crate::errno::SysError;

verus! {

/// The most file descriptors a process can hold.
pub const AX_FILE_LIMIT: usize = 1024;

/// The file-type bits of a FIFO in a mode word.
pub const S_IFIFO: u32 = 0o010000;

/// The status of an open file, as the kernel keeps it.
#[derive(Debug, Clone, Copy, PartialEq, Eq, Structural)]
pub struct Kstat {
    pub ino: u64,
    pub nlink: u32,
    pub uid: u32,
    pub gid: u32,
    pub mode: u32,
    pub size: u64,
    pub blocks: u64,
    pub blksize: u32,
}

/// The status reported for a file that says nothing more of itself.
pub open spec fn default_kstat() -> Kstat {
    Kstat { ino: 1, nlink: 1, uid: 1, gid: 1, mode: 0, size: 0, blocks: 0, blksize: 4096 }
}

impl Default for Kstat {
    fn default() -> (s: Self)
        ensures
            s == default_kstat(),
    {
        Kstat { ino: 1, nlink: 1, uid: 1, gid: 1, mode: 0, size: 0, blocks: 0, blksize: 4096 }
    }
}

} // verus!

verus! {

/// A file descriptor table: it maps each descriptor in use to the number by
/// which the caller finds the open file again.
#[allow(non_camel_case_types)]
#[verifier::external_body]
pub struct FD_TABLE {
    objects: flatten_objects::FlattenObjects<u64, AX_FILE_LIMIT>,
}

/// The descriptors in use in a table, each with the open file it refers to.
pub uninterp spec fn fd_table_contents(t: FD_TABLE) -> Map<usize, u64>;

/// The contents of a table with no descriptor in use.
pub open spec fn no_files() -> Map<usize, u64> {
    Map::empty()
}

/// Whether `id` is the lowest descriptor that a table with these contents
/// leaves free.
pub open spec fn lowest_free(m: Map<usize, u64>, id: usize) -> bool {
    &&& id < AX_FILE_LIMIT
    &&& !m.dom().contains(id)
    &&& forall|j: usize| j < id ==> #[trigger] m.dom().contains(j)
}

/// Whether a table with these contents has no descriptor free.
pub open spec fn fd_table_full(m: Map<usize, u64>) -> bool {
    forall|j: usize| j < AX_FILE_LIMIT ==> #[trigger] m.dom().contains(j)
}

impl View for FD_TABLE {
    type V = Map<usize, u64>;

    open spec fn view(&self) -> Map<usize, u64> {
        fd_table_contents(*self)
    }
}

impl FD_TABLE {
    /// Descriptors are below the table's capacity, and finitely many.
    pub open spec fn wf(&self) -> bool {
        &&& self@.dom().finite()
        &&& forall|id: usize| #[trigger] self@.dom().contains(id) ==> id < AX_FILE_LIMIT
    }

    /// An empty table (`FlattenObjects::new`).
    #[verifier::external_body]
    pub fn new() -> (table: Self)
        ensures
            fd_table_contents(table) == no_files(),
    {
        FD_TABLE { objects: flatten_objects::FlattenObjects::new() }
    }

    /// The file at descriptor `id`, if it is in use (`FlattenObjects::get`).
    #[verifier::external_body]
    fn get(&self, id: usize) -> (r: Option<u64>)
        ensures
            r == if fd_table_contents(*self).dom().contains(id) { Some(fd_table_contents(*self)[id]) } else { None::<u64> },
    {
        self.objects.get(id).copied()
    }

    /// Puts `value` at the lowest free descriptor (`FlattenObjects::add`);
    /// hands `value` back when none is free.
    #[verifier::external_body]
    fn add(&mut self, value: u64) -> (r: Result<usize, u64>)
        ensures
            match r {
                Ok(id) => lowest_free(fd_table_contents(*old(self)), id) && fd_table_contents(*final(self)) == fd_table_contents(*old(self)).insert(id, value),
                Err(v) => v == value && fd_table_full(fd_table_contents(*old(self))) && fd_table_contents(*final(self)) == fd_table_contents(*old(self)),
            },
    {
        self.objects.add(value)
    }

    /// Puts `value` at descriptor `id` if that is below the capacity and free
    /// (`FlattenObjects::add_at`); hands `value` back otherwise.
    #[verifier::external_body]
    fn add_at(&mut self, id: usize, value: u64) -> (r: Result<usize, u64>)
        ensures
            r == if id < AX_FILE_LIMIT && !fd_table_contents(*old(self)).dom().contains(id) {
                Ok::<usize, u64>(id)
            } else {
                Err::<usize, u64>(value)
            },
            fd_table_contents(*final(self)) == if r is Ok {
                fd_table_contents(*old(self)).insert(id, value)
            } else {
                fd_table_contents(*old(self))
            },
    {
        self.objects.add_at(id, value)
    }

    /// Takes the file out of descriptor `id`, if it is in use
    /// (`FlattenObjects::remove`).
    #[verifier::external_body]
    fn remove(&mut self, id: usize) -> (r: Option<u64>)
        ensures
            r == if fd_table_contents(*old(self)).dom().contains(id) { Some(fd_table_contents(*old(self))[id]) } else { None::<u64> },
            fd_table_contents(*final(self)) == fd_table_contents(*old(self)).remove(id),
    {
        self.objects.remove(id)
    }

    /// The descriptors in use, in increasing order (`FlattenObjects::ids`).
    #[verifier::external_body]
    fn ids(&self) -> (v: Vec<usize>)
        ensures
            forall|i: int, j: int| 0 <= i < j < v@.len() ==> v@[i] < v@[j],
            forall|i: int| 0 <= i < v@.len() ==> fd_table_contents(*self).dom().contains(#[trigger] v@[i]),
            forall|id: usize| #[trigger] fd_table_contents(*self).dom().contains(id) ==> v@.contains(id),
    {
        self.objects.ids().collect()
    }

    /// A table holding the same descriptors, each referring to the same file.
    pub fn copy_inner(&self) -> (t: Self)
        requires
            self.wf(),
        ensures
            t.wf(),
            t@ == self@,
    {
        let ids = self.ids();
        let mut new_table = FD_TABLE::new();
        let mut i: usize = 0;
        while i < ids.len()
            invariant
                i <= ids@.len(),
                self.wf(),
                forall|a: int, b: int| 0 <= a < b < ids@.len() ==> ids@[a] < ids@[b],
                forall|a: int| 0 <= a < ids@.len() ==> self@.dom().contains(#[trigger] ids@[a]),
                forall|id: usize| #[trigger] self@.dom().contains(id) ==> ids@.contains(id),
                forall|id: usize| #[trigger] new_table@.dom().contains(id) <==> ids@.take(i as int).contains(id),
                forall|id: usize| #[trigger] new_table@.dom().contains(id) ==> new_table@[id] == self@[id],
            decreases ids@.len() - i,
        {
            let id = ids[i];
            assert(self@.dom().contains(id));
            let value = self.get(id).unwrap();
            assert(!ids@.take(i as int).contains(id)) by {
                if ids@.take(i as int).contains(id) {
                    let k = choose|k: int| 0 <= k < i && ids@.take(i as int)[k] == id;
                    assert(ids@[k] < ids@[i as int]);
                }
            }
            assert(!new_table@.dom().contains(id));
            let _ = new_table.add_at(id, value);
            i = i + 1;
            let ghost prev = ids@.take(i - 1);
            let ghost cur = ids@.take(i as int);
            assert(cur =~= prev.push(id));
            assert forall|x: usize| #[trigger] new_table@.dom().contains(x) <==> cur.contains(x) by {
                if x == id {
                    assert(cur[i - 1] == x);
                } else if cur.contains(x) {
                    let k = choose|k: int| 0 <= k < cur.len() && cur[k] == x;
                    assert(prev[k] == x);
                } else if prev.contains(x) {
                    let k = choose|k: int| 0 <= k < prev.len() && prev[k] == x;
                    assert(cur[k] == x);
                }
            }
        }
        assert(ids@.take(ids@.len() as int) =~= ids@);
        assert(new_table@.dom() =~= self@.dom());
        assert(new_table@ =~= self@);
        new_table
    }

    /// Closes every descriptor.
    pub fn clear(&mut self)
        requires
            old(self).wf(),
        ensures
            final(self).wf(),
            final(self)@ == Map::<usize, u64>::empty(),
    {
        let ids = self.ids();
        let ghost old_dom = self@.dom();
        let mut i: usize = 0;
        while i < ids.len()
            invariant
                i <= ids@.len(),
                forall|id: usize| #[trigger] old_dom.contains(id) ==> ids@.contains(id),
                forall|id: usize| #[trigger] self@.dom().contains(id) ==> old_dom.contains(id)
                    && !ids@.take(i as int).contains(id),
            decreases ids@.len() - i,
        {
            let id = ids[i];
            let ghost before = self@;
            let _ = self.remove(id);
            i = i + 1;
            assert forall|x: usize| #[trigger] self@.dom().contains(x) implies old_dom.contains(x)
                && !ids@.take(i as int).contains(x) by {
                assert(before.dom().contains(x));
                assert(x != id);
                let prev = ids@.take(i - 1);
                let cur = ids@.take(i as int);
                assert(!prev.contains(x));
                if cur.contains(x) {
                    let k = choose|k: int| 0 <= k < cur.len() && cur[k] == x;
                    if k < i - 1 {
                        assert(prev[k] == x);
                    } else {
                        assert(ids@[i - 1] == id);
                    }
                }
            }
        }
        assert(ids@.take(ids@.len() as int) =~= ids@);
        assert(self@.dom() =~= Set::<usize>::empty());
        assert(self@ =~= Map::<usize, u64>::empty());
    }

    /// The file that descriptor `fd` refers to; `EBADF` when `fd` is not in
    /// use.
    pub fn get_file_like(&self, fd: i32) -> (r: Result<u64, SysError>)
        requires
            self.wf(),
        ensures
            fd >= 0 && self@.dom().contains(fd as usize) ==> r == Ok::<u64, SysError>(self@[fd as usize]),
            !(fd >= 0 && self@.dom().contains(fd as usize)) ==> r == Err::<u64, SysError>(SysError::EBADF),
    {
        proof { lemma_negative_fd_out_of_range(fd); }
        match self.get(fd as usize) {
            Some(f) => Ok(f),
            None => Err(SysError::EBADF),
        }
    }

    /// Gives `f` the lowest free descriptor; `EMFILE` when none is free.
    pub fn add_file_like(&mut self, f: u64) -> (r: Result<i32, SysError>)
        requires
            old(self).wf(),
        ensures
            final(self).wf(),
            match r {
                Ok(fd) => fd >= 0 && lowest_free(old(self)@, fd as usize) && final(self)@ == old(self)@.insert(
                    fd as usize,
                    f,
                ),
                Err(e) => e == SysError::EMFILE && fd_table_full(old(self)@) && final(self)@ == old(self)@,
            },
    {
        match self.add(f) {
            Ok(id) => Ok(id as i32),
            Err(_) => Err(SysError::EMFILE),
        }
    }

    /// Closes descriptor `fd`; `EBADF` when it is not in use.
    pub fn close_file_like(&mut self, fd: i32) -> (r: Result<(), SysError>)
        requires
            old(self).wf(),
        ensures
            final(self).wf(),
            fd >= 0 && old(self)@.dom().contains(fd as usize) ==> r is Ok && final(self)@ == old(self)@.remove(
                fd as usize,
            ),
            !(fd >= 0 && old(self)@.dom().contains(fd as usize)) ==> r == Err::<(), SysError>(SysError::EBADF)
                && final(self)@ == old(self)@,
    {
        proof { lemma_negative_fd_out_of_range(fd); }
        match self.remove(fd as usize) {
            Some(_) => Ok(()),
            None => {
                assert(old(self)@.remove(fd as usize) =~= old(self)@);
                Err(SysError::EBADF)
            },
        }
    }

    /// A new table whose descriptors 0, 1 and 2 are standard input, output
    /// and error.
    pub fn init_stdio(stdin: u64, stdout: u64, stderr: u64) -> (t: Self)
        ensures
            t.wf(),
            t@ == map![0usize => stdin, 1usize => stdout, 2usize => stderr],
    {
        let mut t = FD_TABLE::new();
        let _ = t.add_at(0, stdin);
        let _ = t.add_at(1, stdout);
        let _ = t.add_at(2, stderr);
        assert(t@ =~= map![0usize => stdin, 1usize => stdout, 2usize => stderr]);
        t
    }
}

/// A negative descriptor, taken as an index, lies beyond every table.
proof fn lemma_negative_fd_out_of_range(fd: i32)
    ensures
        fd < 0 ==> fd as usize >= AX_FILE_LIMIT,
{
    assert(fd < 0 ==> fd as usize >= 1024usize) by (bit_vector);
}

} // verus!

verus! {

/// `pipe2`: gives the read end and then the write end of a new pipe the
/// lowest free descriptors. When the write end finds no descriptor, the read
/// end's is closed again and the table is as it was; either failure is
/// `EMFILE`.
pub fn sys_pipe2(table: &mut FD_TABLE, read_end: u64, write_end: u64) -> (r: Result<(i32, i32), SysError>)
    requires
        old(table).wf(),
    ensures
        final(table).wf(),
        match r {
            Ok((rfd, wfd)) => {
                &&& rfd >= 0 && wfd >= 0
                &&& lowest_free(old(table)@, rfd as usize)
                &&& lowest_free(old(table)@.insert(rfd as usize, read_end), wfd as usize)
                &&& final(table)@ == old(table)@.insert(rfd as usize, read_end).insert(wfd as usize, write_end)
            },
            Err(e) => {
                &&& e == SysError::EMFILE
                &&& final(table)@ == old(table)@
                &&& (fd_table_full(old(table)@) || exists|id: usize| lowest_free(old(table)@, id) && fd_table_full(
                    #[trigger] old(table)@.insert(id, read_end),
                ))
            },
        },
{
    let read_fd = table.add_file_like(read_end)?;
    let ghost after_read = table@;
    match table.add_file_like(write_end) {
        Ok(write_fd) => Ok((read_fd, write_fd)),
        Err(e) => {
            let _ = table.close_file_like(read_fd);
            assert(after_read.remove(read_fd as usize) =~= old(table)@);
            Err(e)
        },
    }
}

} // verus!

verus! {

/// Closing the descriptor that was just given out leaves the table as it
/// was, and while it is open it refers to the file it was given for.
pub proof fn lemma_add_then_close(m: Map<usize, u64>, fd: usize, f: u64)
    requires
        !m.dom().contains(fd),
    ensures
        m.insert(fd, f).dom().contains(fd),
        m.insert(fd, f)[fd] == f,
        m.insert(fd, f).remove(fd) == m,
{
    assert(m.insert(fd, f).remove(fd) =~= m);
}

} // verus!
