//! The decisions of `brk`, `mmap`, `munmap` and `mprotect`: the arithmetic
//! of addresses and lengths, and the translation of protection bits.
use vstd::prelude::*;
use crate::errno::SysError;

verus! {

/// The size of a 4K page.
pub const PAGE_SIZE_4K: usize = 0x1000;

/// `addr` rounded down to a page boundary.
pub open spec fn page_floor(addr: int) -> int {
    addr - addr % (PAGE_SIZE_4K as int)
}

/// `addr` rounded up to a page boundary.
pub open spec fn page_ceil(addr: int) -> int {
    if addr % (PAGE_SIZE_4K as int) == 0 {
        addr
    } else {
        page_floor(addr) + PAGE_SIZE_4K
    }
}

/// Rounds `addr` down to a 4K boundary (`memory_addr::align_down_4k`): the
/// greatest multiple of 4096 not above `addr`.
#[verifier::external_body]
pub(crate) fn align_down_4k(addr: usize) -> (r: usize)
    ensures
        r == page_floor(addr as int),
{
    memory_addr::align_down_4k(addr)
}

/// Rounds `addr` up to a 4K boundary (`memory_addr::align_up_4k`): the
/// least multiple of 4096 not below `addr`. It adds 4095 first, so the sum
/// must not overflow.
#[verifier::external_body]
pub(crate) fn align_up_4k(addr: usize) -> (r: usize)
    requires
        addr + (PAGE_SIZE_4K - 1) <= usize::MAX,
    ensures
        r == page_ceil(addr as int),
{
    memory_addr::align_up_4k(addr)
}

/// The bits of a mapping's access rights, as the page tables keep them.
#[derive(Debug, Clone, Copy, PartialEq, Eq, Structural)]
pub struct MappingFlags {
    pub bits: usize,
}

/// Readable.
pub const MAPPING_READ: usize = 1 << 0;

/// Writable.
pub const MAPPING_WRITE: usize = 1 << 1;

/// Executable.
pub const MAPPING_EXECUTE: usize = 1 << 2;

/// Accessible from user mode.
pub const MAPPING_USER: usize = 1 << 3;

/// Page can be read.
pub const PROT_READ: u32 = 1;

/// Page can be written.
pub const PROT_WRITE: u32 = 2;

/// Page can be executed.
pub const PROT_EXEC: u32 = 4;

/// Extend a change to the start of a grows-down area (`mprotect` only).
pub const PROT_GROWSDOWN: u32 = 0x0100_0000;

/// Extend a change to the end of a grows-up area (`mprotect` only).
pub const PROT_GROWSUP: u32 = 0x0200_0000;

/// Every protection bit known.
pub const PROT_ALL: u32 = PROT_READ | PROT_WRITE | PROT_EXEC | PROT_GROWSDOWN | PROT_GROWSUP;

/// Share changes.
pub const MAP_SHARED: u32 = 1;

/// Changes are private; pages are copied on write.
pub const MAP_PRIVATE: u32 = 2;

/// Map at exactly the address asked for.
pub const MAP_FIXED: u32 = 0x10;

/// Not backed by a file.
pub const MAP_ANONYMOUS: u32 = 0x20;

/// Do not check for reservations.
pub const MAP_NORESERVE: u32 = 0x4000;

/// The mapping is for a stack.
pub const MAP_STACK: u32 = 0x2_0000;

/// Every mapping flag known.
pub const MAP_ALL: u32 = MAP_SHARED | MAP_PRIVATE | MAP_FIXED | MAP_ANONYMOUS | MAP_NORESERVE | MAP_STACK;

/// The page-table rights that protection bits grant: always user access,
/// and read, write and execute as the bits ask.
pub open spec fn mapping_flags_of(prot: u32) -> usize {
    MAPPING_USER | (if prot & PROT_READ != 0 { MAPPING_READ } else { 0 }) | (if prot & PROT_WRITE != 0 {
        MAPPING_WRITE
    } else {
        0
    }) | (if prot & PROT_EXEC != 0 { MAPPING_EXECUTE } else { 0 })
}

/// The page-table rights that protection bits grant.
pub fn mapping_flags_from_prot(prot: u32) -> (f: MappingFlags)
    ensures
        f.bits == mapping_flags_of(prot),
{
    let read = if prot & PROT_READ != 0 { MAPPING_READ } else { 0 };
    let write = if prot & PROT_WRITE != 0 { MAPPING_WRITE } else { 0 };
    let exec = if prot & PROT_EXEC != 0 { MAPPING_EXECUTE } else { 0 };
    MappingFlags { bits: MAPPING_USER | read | write | exec }
}

/// The user heap of a process: it starts at `heap_bottom` and ends at
/// `heap_top`.
#[derive(Debug, Clone, Copy, PartialEq, Eq, Structural)]
pub struct UserHeap {
    heap_bottom: usize,
    heap_top: usize,
}

impl UserHeap {
    pub closed spec fn bottom(&self) -> usize {
        self.heap_bottom
    }

    pub closed spec fn top(&self) -> usize {
        self.heap_top
    }

    /// An empty heap at `base`.
    pub fn new(base: usize) -> (h: Self)
        ensures
            h.bottom() == base,
            h.top() == base,
    {
        UserHeap { heap_bottom: base, heap_top: base }
    }

    /// Where the heap starts.
    pub fn get_heap_bottom(&self) -> (b: usize)
        ensures
            b == self.bottom(),
    {
        self.heap_bottom
    }

    /// Moves the start of the heap.
    pub fn set_heap_bottom(&mut self, bottom: usize)
        ensures
            final(self).bottom() == bottom,
            final(self).top() == old(self).top(),
    {
        self.heap_bottom = bottom;
    }

    /// Where the heap ends.
    pub fn get_heap_top(&self) -> (t: usize)
        ensures
            t == self.top(),
    {
        self.heap_top
    }

    /// Moves the end of the heap.
    pub fn set_heap_top(&mut self, top: usize)
        ensures
            final(self).top() == top,
            final(self).bottom() == old(self).bottom(),
    {
        self.heap_top = top;
    }
}

/// `brk`: moves the end of the heap to `addr` when that lies between the
/// heap's start and `heap_size` bytes past it, and `addr` is not 0;
/// returns where the heap ends afterwards.
pub fn sys_brk(heap: &mut UserHeap, addr: usize, heap_size: usize) -> (r: isize)
    requires
        addr != 0 && addr >= old(heap).bottom() ==> old(heap).bottom() + heap_size <= usize::MAX,
    ensures
        ({
            let moved = addr != 0 && old(heap).bottom() <= addr <= old(heap).bottom() + heap_size;
            &&& final(heap).top() == if moved { addr } else { old(heap).top() }
            &&& r == final(heap).top() as isize
            &&& final(heap).bottom() == old(heap).bottom()
        }),
{
    let mut return_val: isize = heap.get_heap_top() as isize;
    let heap_bottom = heap.get_heap_bottom();
    if addr != 0 && addr >= heap_bottom && addr <= heap_bottom + heap_size {
        heap.set_heap_top(addr);
        return_val = addr as isize;
    }
    return_val
}

/// What `mmap` is to map: the page-aligned range, whether the address is
/// fixed, the rights, and whether the pages are filled from a file.
#[derive(Debug, Clone, Copy, PartialEq, Eq, Structural)]
pub struct MmapRequest {
    /// The first page: the address asked for, rounded down.
    pub start: usize,
    /// The length from `start` to the end of the range asked for, rounded up.
    pub aligned_length: usize,
    /// Whether the mapping must be at `start`, replacing what is there.
    pub fixed: bool,
    /// The rights of the pages.
    pub flags: MappingFlags,
    /// Whether the pages are filled from the file `fd`.
    pub populate: bool,
}

/// `mmap`'s reading of its arguments: the page-aligned range, the rights
/// from the known protection bits, fixed placement, and filling from the
/// file unless `fd` is -1 or the mapping is anonymous. A fixed mapping at
/// page 0 is refused with `EINVAL`.
pub fn mmap_request(addr: usize, length: usize, prot: u32, flags: u32, fd: i32) -> (r: Result<MmapRequest, SysError>)
    requires
        addr + length + (PAGE_SIZE_4K - 1) <= usize::MAX,
    ensures
        ({
            let start = page_floor(addr as int);
            let fixed = flags & MAP_ALL & MAP_FIXED != 0;
            if fixed && start == 0 {
                r == Err::<MmapRequest, SysError>(SysError::EINVAL)
            } else {
                &&& r is Ok
                &&& r->Ok_0.start == start
                &&& r->Ok_0.aligned_length == page_ceil(addr + length) - start
                &&& r->Ok_0.fixed == fixed
                &&& r->Ok_0.flags.bits == mapping_flags_of(prot & PROT_ALL)
                &&& r->Ok_0.populate == (fd != -1 && flags & MAP_ALL & MAP_ANONYMOUS == 0)
            }
        }),
{
    let permission_flags = prot & PROT_ALL;
    let map_flags = flags & MAP_ALL;
    let start = align_down_4k(addr);
    let end = align_up_4k(addr + length);
    let aligned_length = end - start;
    let fixed = map_flags & MAP_FIXED != 0;
    if fixed && start == 0 {
        return Err(SysError::EINVAL);
    }
    let populate = if fd == -1 {
        false
    } else {
        map_flags & MAP_ANONYMOUS == 0
    };
    Ok(MmapRequest { start, aligned_length, fixed, flags: mapping_flags_from_prot(permission_flags), populate })
}

/// The part of a file that fills a file-backed mapping: from `offset`, at
/// most `length` bytes and no further than the file's end. `EINVAL` when
/// `offset` is negative or not inside the file.
pub fn mmap_file_range(offset: isize, length: usize, file_size: usize) -> (r: Result<(usize, usize), SysError>)
    ensures
        offset < 0 || offset >= file_size ==> r == Err::<(usize, usize), SysError>(SysError::EINVAL),
        0 <= offset < file_size ==> r == Ok::<(usize, usize), SysError>(
            (
                offset as usize,
                if length < file_size - offset {
                    length
                } else {
                    (file_size - offset) as usize
                },
            ),
        ),
{
    if offset < 0 || offset as usize >= file_size {
        return Err(SysError::EINVAL);
    }
    let offset = offset as usize;
    let rest = file_size - offset;
    let length = if length < rest { length } else { rest };
    Ok((offset, length))
}

/// `munmap`'s length: rounded up to whole pages.
pub fn munmap_length(length: usize) -> (l: usize)
    requires
        length + (PAGE_SIZE_4K - 1) <= usize::MAX,
    ensures
        l == page_ceil(length as int),
{
    align_up_4k(length)
}

/// `mprotect`'s reading of its arguments: the length rounded up to whole
/// pages and the rights that `prot` grants. `EINVAL` when `prot` holds an
/// unknown bit, or asks to grow both down and up.
pub fn mprotect_request(length: usize, prot: u32) -> (r: Result<(usize, MappingFlags), SysError>)
    requires
        prot & !PROT_ALL == 0 && prot & (PROT_GROWSDOWN | PROT_GROWSUP) != (PROT_GROWSDOWN | PROT_GROWSUP) ==> length
            + (PAGE_SIZE_4K - 1) <= usize::MAX,
    ensures
        prot & !PROT_ALL != 0 ==> r == Err::<(usize, MappingFlags), SysError>(SysError::EINVAL),
        prot & !PROT_ALL == 0 && prot & (PROT_GROWSDOWN | PROT_GROWSUP) == (PROT_GROWSDOWN | PROT_GROWSUP) ==> r
            == Err::<(usize, MappingFlags), SysError>(SysError::EINVAL),
        prot & !PROT_ALL == 0 && prot & (PROT_GROWSDOWN | PROT_GROWSUP) != (PROT_GROWSDOWN | PROT_GROWSUP) ==> r
            == Ok::<(usize, MappingFlags), SysError>(
            (page_ceil(length as int) as usize, MappingFlags { bits: mapping_flags_of(prot) }),
        ),
{
    if prot & !PROT_ALL != 0 {
        return Err(SysError::EINVAL);
    }
    if prot & (PROT_GROWSDOWN | PROT_GROWSUP) == (PROT_GROWSDOWN | PROT_GROWSUP) {
        return Err(SysError::EINVAL);
    }
    let length = align_up_4k(length);
    Ok((length, mapping_flags_from_prot(prot)))
}

} // verus!

verus! {

/// Where a loadable ELF segment goes: the page its first byte lands in, the
/// whole pages from there to the page end of its last byte, and where in
/// the first page it starts. The segment's addresses are moved by
/// `elf_offset`.
pub fn elf_segment_layout(vaddr: usize, mem_size: usize, elf_offset: usize) -> (r: (usize, usize, usize))
    requires
        vaddr + mem_size + (PAGE_SIZE_4K - 1) + elf_offset <= usize::MAX,
    ensures
        r.0 == page_floor(vaddr + elf_offset),
        r.1 == page_ceil(vaddr + mem_size) + elf_offset - page_floor(vaddr + elf_offset),
        r.2 == (vaddr + elf_offset) % (PAGE_SIZE_4K as int),
{
    let st_vaddr = vaddr + elf_offset;
    let st_vaddr_align = align_down_4k(st_vaddr);
    let ed_vaddr_align = align_up_4k(vaddr + mem_size) + elf_offset;
    (st_vaddr_align, ed_vaddr_align - st_vaddr_align, st_vaddr % PAGE_SIZE_4K)
}

/// The page-table rights of an ELF segment: always user access, and read,
/// write and execute as its flags ask.
pub fn elf_mapping_flags(read: bool, write: bool, execute: bool) -> (f: MappingFlags)
    ensures
        f.bits == MAPPING_USER | (if read { MAPPING_READ } else { 0 }) | (if write { MAPPING_WRITE } else { 0 }) | (
        if execute { MAPPING_EXECUTE } else { 0 }),
{
    let r = if read { MAPPING_READ } else { 0 };
    let w = if write { MAPPING_WRITE } else { 0 };
    let x = if execute { MAPPING_EXECUTE } else { 0 };
    MappingFlags { bits: MAPPING_USER | r | w | x }
}

} // verus!

verus! {

/// A program header of an ELF file, as far as loading needs it: whether it
/// is a loadable segment, where it goes, how large it is in memory, its
/// rights, and where its bytes are in the file.
#[derive(Debug, Clone, Copy, PartialEq, Eq, Structural)]
pub struct ProgramHeader {
    pub loadable: bool,
    pub vaddr: usize,
    pub mem_size: usize,
    pub read: bool,
    pub write: bool,
    pub execute: bool,
    pub file_offset: usize,
    pub file_size: usize,
}

/// A segment to map: its first page, its length in whole pages, its rights,
/// where in the first page its bytes start, and where they are in the file.
#[derive(Debug, Clone, Copy, PartialEq, Eq, Structural)]
pub struct ElfSegment {
    pub start_vaddr: usize,
    pub size: usize,
    pub flags: MappingFlags,
    pub offset: usize,
    pub file_offset: usize,
    pub file_size: usize,
}

/// The rights of a segment: user access, and read, write and execute as
/// asked.
pub open spec fn elf_flags_of(read: bool, write: bool, execute: bool) -> usize {
    MAPPING_USER | (if read { MAPPING_READ } else { 0 }) | (if write { MAPPING_WRITE } else { 0 }) | (if execute {
        MAPPING_EXECUTE
    } else {
        0
    })
}

/// The segment a loadable header is mapped as, its addresses moved by
/// `elf_offset`.
pub open spec fn segment_of(h: ProgramHeader, elf_offset: usize) -> ElfSegment {
    ElfSegment {
        start_vaddr: page_floor(h.vaddr + elf_offset) as usize,
        size: (page_ceil(h.vaddr + h.mem_size) + elf_offset - page_floor(h.vaddr + elf_offset)) as usize,
        flags: MappingFlags { bits: elf_flags_of(h.read, h.write, h.execute) },
        offset: ((h.vaddr + elf_offset) % (PAGE_SIZE_4K as int)) as usize,
        file_offset: h.file_offset,
        file_size: h.file_size,
    }
}

/// Whether a header's segment fits the address space once moved.
pub open spec fn header_fits(h: ProgramHeader, elf_offset: usize) -> bool {
    h.loadable ==> h.vaddr + h.mem_size + (PAGE_SIZE_4K - 1) + elf_offset <= usize::MAX
}

/// The segments an ELF file is mapped as: one for each loadable header, in
/// order.
pub open spec fn elf_segments_of(headers: Seq<ProgramHeader>, elf_offset: usize) -> Seq<ElfSegment> {
    headers.filter(|h: ProgramHeader| h.loadable).map_values(|h: ProgramHeader| segment_of(h, elf_offset))
}

/// The segments to map for an ELF file's program headers: the loadable ones
/// in order, each laid out on whole pages with its rights.
pub fn elf_segments(headers: &Vec<ProgramHeader>, elf_offset: usize) -> (segs: Vec<ElfSegment>)
    requires
        forall|i: int| 0 <= i < headers@.len() ==> header_fits(#[trigger] headers@[i], elf_offset),
    ensures
        segs@ == elf_segments_of(headers@, elf_offset),
{
    let mut segs: Vec<ElfSegment> = Vec::new();
    let mut i: usize = 0;
    while i < headers.len()
        invariant
            i <= headers@.len(),
            forall|k: int| 0 <= k < headers@.len() ==> header_fits(#[trigger] headers@[k], elf_offset),
            segs@ == elf_segments_of(headers@.take(i as int), elf_offset),
        decreases headers@.len() - i,
    {
        let h = headers[i];
        let ghost prev = headers@.take(i as int);
        proof {
            prev.lemma_filter_push(h, |h: ProgramHeader| h.loadable);
            assert(headers@.take(i + 1) =~= prev.push(h));
        }
        if h.loadable {
            assert(header_fits(headers@[i as int], elf_offset));
            let (start_vaddr, size, offset) = elf_segment_layout(h.vaddr, h.mem_size, elf_offset);
            let flags = elf_mapping_flags(h.read, h.write, h.execute);
            let seg = ElfSegment {
                start_vaddr,
                size,
                flags,
                offset,
                file_offset: h.file_offset,
                file_size: h.file_size,
            };
            let ghost before = segs@;
            segs.push(seg);
            proof {
                let f = prev.filter(|h: ProgramHeader| h.loadable);
                assert(f.push(h).map_values(|h: ProgramHeader| segment_of(h, elf_offset)) =~= f.map_values(
                    |h: ProgramHeader| segment_of(h, elf_offset),
                ).push(segment_of(h, elf_offset)));
                assert(seg == segment_of(h, elf_offset));
            }
        }
        i = i + 1;
    }
    assert(headers@.take(headers@.len() as int) =~= headers@);
    segs
}

} // verus!

verus! {

/// Where an ELF file is loaded: its entry point and its segments, its
/// addresses moved by the load offset.
#[derive(Debug, Clone, PartialEq, Eq)]
pub struct ElfInfo {
    pub entry: usize,
    pub segments: Vec<ElfSegment>,
}

/// The load of an ELF file whose entry point is `entry_point` and whose
/// program headers are `headers`, every address moved by `elf_offset`: the
/// entry point moved, and one segment for each loadable header, in order.
pub fn elf_info(entry_point: usize, headers: &Vec<ProgramHeader>, elf_offset: usize) -> (info: ElfInfo)
    requires
        entry_point + elf_offset <= usize::MAX,
        forall|i: int| 0 <= i < headers@.len() ==> header_fits(#[trigger] headers@[i], elf_offset),
    ensures
        info.entry == entry_point + elf_offset,
        info.segments@ == elf_segments_of(headers@, elf_offset),
{
    ElfInfo { entry: entry_point + elf_offset, segments: elf_segments(headers, elf_offset) }
}

} // verus!

verus! {

/// Each protection bit grants its own right, whatever the other bits are:
/// the rights are readable exactly when `PROT_READ` is given, writable
/// exactly when `PROT_WRITE` is, executable exactly when `PROT_EXEC` is, and
/// always accessible from user mode; no other right is granted. So read,
/// write and execute together grant all four rights.
pub proof fn lemma_prot_bits_grant_rights(prot: u32)
    ensures
        mapping_flags_of(prot) & MAPPING_READ != 0 <==> prot & PROT_READ != 0,
        mapping_flags_of(prot) & MAPPING_WRITE != 0 <==> prot & PROT_WRITE != 0,
        mapping_flags_of(prot) & MAPPING_EXECUTE != 0 <==> prot & PROT_EXEC != 0,
        mapping_flags_of(prot) & MAPPING_USER != 0,
        mapping_flags_of(prot) & !(MAPPING_READ | MAPPING_WRITE | MAPPING_EXECUTE | MAPPING_USER) == 0,
        mapping_flags_of(PROT_READ | PROT_WRITE | PROT_EXEC) == 15,
{
    assert(MAPPING_READ == 1usize && MAPPING_WRITE == 2usize && MAPPING_EXECUTE == 4usize && MAPPING_USER == 8usize)
        by (bit_vector);
    let r: usize = if prot & 1u32 != 0 { 1usize } else { 0usize };
    let w: usize = if prot & 2u32 != 0 { 2usize } else { 0usize };
    let x: usize = if prot & 4u32 != 0 { 4usize } else { 0usize };
    assert(mapping_flags_of(prot) == 8usize | r | w | x);
    assert(r == 0 || r == 1);
    assert(w == 0 || w == 2);
    assert(x == 0 || x == 4);
    assert((r == 0 || r == 1) && (w == 0 || w == 2) && (x == 0 || x == 4) ==> {
        let f = 8usize | r | w | x;
        &&& (f & 1 != 0 <==> r == 1)
        &&& (f & 2 != 0 <==> w == 2)
        &&& (f & 4 != 0 <==> x == 4)
        &&& f & 8 != 0
        &&& f & !15usize == 0
    }) by (bit_vector);
    assert(MAPPING_READ | MAPPING_WRITE | MAPPING_EXECUTE | MAPPING_USER == 15usize) by (bit_vector);
    assert(PROT_READ | PROT_WRITE | PROT_EXEC == 7u32) by (bit_vector);
    assert((7u32 & 1u32 != 0) && (7u32 & 2u32 != 0) && (7u32 & 4u32 != 0)) by (bit_vector);
    assert(8usize | 1usize | 2usize | 4usize == 15usize) by (bit_vector);
}

} // verus!
