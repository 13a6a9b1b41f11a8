//! Pointers into user memory, and the checks made before the kernel uses
//! one: alignment, and that every page the access touches is mapped with
//! the rights it needs.
use vstd::prelude::*;
use core::marker::PhantomData;
use crate::errno::SysError;
use crate::mm::{align_down_4k, align_up_4k, page_ceil, page_floor, MappingFlags, MAPPING_READ, MAPPING_WRITE, PAGE_SIZE_4K};

verus! {

/// A pointer to user memory that the kernel may write through.
pub struct UserPtr<T> {
    addr: usize,
    marker: PhantomData<T>,
}

/// A pointer to user memory that the kernel only reads through.
pub struct UserConstPtr<T> {
    addr: usize,
    marker: PhantomData<T>,
}

impl<T> UserPtr<T> {
    pub closed spec fn spec_address(&self) -> usize {
        self.addr
    }

    /// The pointer to `addr`.
    pub fn from_addr(addr: usize) -> (p: Self)
        ensures
            p.spec_address() == addr,
    {
        UserPtr { addr, marker: PhantomData }
    }

    /// The address pointed to.
    pub fn address(&self) -> (a: usize)
        ensures
            a == self.spec_address(),
    {
        self.addr
    }

    /// Whether this is the null pointer, which stands for "none".
    pub fn is_null(&self) -> (r: bool)
        ensures
            r == (self.spec_address() == 0),
    {
        self.addr == 0
    }

    /// The rights an access through this pointer needs: read and write.
    pub fn access_flags() -> (f: MappingFlags)
        ensures
            f.bits == MAPPING_READ | MAPPING_WRITE,
    {
        MappingFlags { bits: MAPPING_READ | MAPPING_WRITE }
    }
}

impl<T> UserConstPtr<T> {
    pub closed spec fn spec_address(&self) -> usize {
        self.addr
    }

    /// The pointer to `addr`.
    pub fn from_addr(addr: usize) -> (p: Self)
        ensures
            p.spec_address() == addr,
    {
        UserConstPtr { addr, marker: PhantomData }
    }

    /// The address pointed to.
    pub fn address(&self) -> (a: usize)
        ensures
            a == self.spec_address(),
    {
        self.addr
    }

    /// Whether this is the null pointer, which stands for "none".
    pub fn is_null(&self) -> (r: bool)
        ensures
            r == (self.spec_address() == 0),
    {
        self.addr == 0
    }

    /// The rights an access through this pointer needs: read.
    pub fn access_flags() -> (f: MappingFlags)
        ensures
            f.bits == MAPPING_READ,
    {
        MappingFlags { bits: MAPPING_READ }
    }
}

/// The pages an access of `size` bytes from `start` touches: the first
/// page's address and how many pages.
pub fn region_pages(start: usize, size: usize) -> (r: (usize, usize))
    requires
        start + size + (PAGE_SIZE_4K - 1) <= usize::MAX,
    ensures
        r.0 == page_floor(start as int),
        r.1 == (page_ceil(start + size) - page_floor(start as int)) / (PAGE_SIZE_4K as int),
{
    let page_start = align_down_4k(start);
    let page_end = align_up_4k(start + size);
    (page_start, (page_end - page_start) / PAGE_SIZE_4K)
}

/// Whether a page mapped with `flags` (`None` when it is not mapped) allows
/// an access that needs `access`.
pub open spec fn page_allows(flags: Option<MappingFlags>, access: MappingFlags) -> bool {
    match flags {
        Some(f) => f.bits & access.bits == access.bits,
        None => false,
    }
}

/// The check of one page: `EFAULT` when it is not mapped or lacks a right
/// the access needs.
pub fn check_page(flags: Option<MappingFlags>, access: MappingFlags) -> (r: Result<(), SysError>)
    ensures
        r == if page_allows(flags, access) { Ok::<(), SysError>(()) } else { Err(SysError::EFAULT) },
{
    match flags {
        Some(f) => if f.bits & access.bits == access.bits {
            Ok(())
        } else {
            Err(SysError::EFAULT)
        },
        None => Err(SysError::EFAULT),
    }
}

/// The check of a region of user memory before an access that needs
/// `access`: `EFAULT` when `start` is not aligned to `align` (a power of
/// two), or when one of the pages it touches, whose mappings are
/// `page_flags` in order, does not allow the access.
pub fn check_region(start: usize, align: usize, access: MappingFlags, page_flags: &Vec<Option<MappingFlags>>) -> (r: Result<(), SysError>)
    requires
        align >= 1,
    ensures
        r == if start & ((align - 1) as usize) != 0 {
            Err(SysError::EFAULT)
        } else if forall|i: int| 0 <= i < page_flags@.len() ==> page_allows(#[trigger] page_flags@[i], access) {
            Ok::<(), SysError>(())
        } else {
            Err(SysError::EFAULT)
        },
{
    if start & (align - 1) != 0 {
        return Err(SysError::EFAULT);
    }
    let mut i: usize = 0;
    while i < page_flags.len()
        invariant
            i <= page_flags@.len(),
            forall|j: int| 0 <= j < i ==> page_allows(#[trigger] page_flags@[j], access),
        decreases page_flags@.len() - i,
    {
        if check_page(page_flags[i], access).is_err() {
            return Err(SysError::EFAULT);
        }
        i = i + 1;
    }
    Ok(())
}

} // verus!

verus! {

/// The walk over a NUL-terminated string in user memory: it checks the
/// string's first page before anything is read, then each next page as the
/// walk reaches it, and reads one byte at a time until the NUL.
pub struct CstrWalk {
    start: usize,
    len: usize,
    next_page: usize,
}

/// One step of the walk: the page to check first, if the byte to read is
/// the first of a page not checked yet, and the address of the byte to read.
#[derive(Debug, Clone, Copy, PartialEq, Eq, Structural)]
pub struct CstrStep {
    pub check: Option<usize>,
    pub addr: usize,
}

impl CstrWalk {
    pub closed spec fn spec_start(&self) -> usize {
        self.start
    }

    pub closed spec fn spec_len(&self) -> usize {
        self.len
    }

    /// The first page not checked yet; every page from the string's first up
    /// to this one is checked.
    pub closed spec fn spec_next_page(&self) -> usize {
        self.next_page
    }

    /// The walk stands in the last page checked, or at the start of the next.
    pub open spec fn wf(&self) -> bool {
        &&& self.spec_next_page() % PAGE_SIZE_4K == 0
        &&& self.spec_next_page() - PAGE_SIZE_4K <= self.spec_start() + self.spec_len() <= self.spec_next_page()
    }

    /// The page the string at `start` begins in: the first to check.
    pub fn first_page(start: usize) -> (p: usize)
        ensures
            p == page_floor(start as int),
    {
        align_down_4k(start)
    }

    /// A walk over the string at `start`, once its first page is checked.
    pub fn new(start: usize) -> (w: CstrWalk)
        requires
            page_floor(start as int) + PAGE_SIZE_4K <= usize::MAX,
        ensures
            w.wf(),
            w.spec_start() == start,
            w.spec_len() == 0,
            w.spec_next_page() == page_floor(start as int) + PAGE_SIZE_4K,
    {
        let page = align_down_4k(start);
        assert((page + PAGE_SIZE_4K) % (PAGE_SIZE_4K as int) == 0) by {
            assert(page == start - start % 4096);
        }
        CstrWalk { start, len: 0, next_page: page + PAGE_SIZE_4K }
    }

    /// The next step: the byte after those read so far, and, when it is the
    /// first byte of a page not checked yet, that page. Without a page to
    /// check, the byte lies in the last page checked.
    pub fn step(&self) -> (s: CstrStep)
        requires
            self.wf(),
        ensures
            s.addr == self.spec_start() + self.spec_len(),
            s.check == if s.addr == self.spec_next_page() {
                Some(self.spec_next_page())
            } else {
                None::<usize>
            },
            s.check is None ==> page_floor(s.addr as int) == self.spec_next_page() - PAGE_SIZE_4K && s.addr
                < self.spec_next_page(),
    {
        let addr = self.start + self.len;
        if addr == self.next_page {
            CstrStep { check: Some(addr), addr }
        } else {
            let ghost p = self.next_page;
            assert(page_floor(addr as int) == p - 4096) by {
                assert(p % 4096 == 0);
                assert(p - 4096 <= addr < p);
                assert((p - 4096) % 4096 == 0);
            }
            CstrStep { check: None, addr }
        }
    }

    /// The page the step asked for is checked: the byte to read is the first
    /// of the last page checked.
    pub fn page_checked(&mut self)
        requires
            old(self).wf(),
            old(self).spec_start() + old(self).spec_len() == old(self).spec_next_page(),
            old(self).spec_next_page() + PAGE_SIZE_4K <= usize::MAX,
        ensures
            final(self).wf(),
            final(self).spec_start() == old(self).spec_start(),
            final(self).spec_len() == old(self).spec_len(),
            final(self).spec_next_page() == old(self).spec_next_page() + PAGE_SIZE_4K,
            page_floor(final(self).spec_start() + final(self).spec_len()) == old(self).spec_next_page(),
    {
        let ghost p = self.next_page;
        self.next_page = self.next_page + PAGE_SIZE_4K;
        assert(page_floor(p as int) == p) by {
            assert(p % 4096 == 0);
        }
    }

    /// The byte just read: at a NUL the walk is over and the string's length
    /// comes back; otherwise the walk goes on past the byte.
    pub fn advance(&mut self, byte: u8) -> (done: Option<usize>)
        requires
            old(self).wf(),
            old(self).spec_start() + old(self).spec_len() < old(self).spec_next_page(),
        ensures
            final(self).wf(),
            final(self).spec_start() == old(self).spec_start(),
            final(self).spec_next_page() == old(self).spec_next_page(),
            byte == 0 ==> done == Some(old(self).spec_len()) && final(self).spec_len() == old(self).spec_len(),
            byte != 0 ==> done is None && final(self).spec_len() == old(self).spec_len() + 1,
    {
        if byte == 0 {
            Some(self.len)
        } else {
            self.len = self.len + 1;
            None
        }
    }
}

} // verus!
