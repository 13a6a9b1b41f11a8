use starry::errno::SysError;
use starry::mm::{
    elf_mapping_flags, elf_segment_layout, elf_info, elf_segments, ElfSegment, ProgramHeader, mapping_flags_from_prot, mmap_file_range, mmap_request, mprotect_request,
    munmap_length, sys_brk, MmapRequest, MappingFlags, UserHeap, MAP_ANONYMOUS, MAP_FIXED, MAP_PRIVATE, PROT_EXEC,
    PROT_GROWSDOWN, PROT_GROWSUP, PROT_READ, PROT_WRITE,
};

#[test]
fn brk_moves_within_the_heap() {
    let mut h = UserHeap::new(0x1000);
    assert_eq!(sys_brk(&mut h, 0, 0x10000), 0x1000);
    assert_eq!(sys_brk(&mut h, 0x5000, 0x10000), 0x5000);
    assert_eq!(h.get_heap_top(), 0x5000);
    assert_eq!(sys_brk(&mut h, 0x20000, 0x10000), 0x5000);
    assert_eq!(sys_brk(&mut h, 0x800, 0x10000), 0x5000);
    assert_eq!(sys_brk(&mut h, 0x11000, 0x10000), 0x11000);
    assert_eq!(h.get_heap_bottom(), 0x1000);
    h.set_heap_bottom(0x2000);
    h.set_heap_top(0x3000);
    assert_eq!((h.get_heap_bottom(), h.get_heap_top()), (0x2000, 0x3000));
}

#[test]
fn prot_to_mapping_flags() {
    assert_eq!(mapping_flags_from_prot(0), MappingFlags { bits: 8 });
    assert_eq!(mapping_flags_from_prot(PROT_READ | PROT_WRITE), MappingFlags { bits: 8 | 1 | 2 });
    assert_eq!(mapping_flags_from_prot(PROT_READ | PROT_EXEC), MappingFlags { bits: 8 | 1 | 4 });
    assert_eq!(elf_mapping_flags(true, false, true), MappingFlags { bits: 8 | 1 | 4 });
}

#[test]
fn mmap_aligns_the_range() {
    let r = mmap_request(0x1234, 0x100, PROT_READ, MAP_PRIVATE | MAP_ANONYMOUS, -1).unwrap();
    assert_eq!(
        r,
        MmapRequest { start: 0x1000, aligned_length: 0x1000, fixed: false, flags: MappingFlags { bits: 9 }, populate: false }
    );
    let r = mmap_request(0x1ff0, 0x20, PROT_READ | PROT_WRITE, MAP_PRIVATE, 3).unwrap();
    assert_eq!((r.start, r.aligned_length, r.populate), (0x1000, 0x2000, true));
}

#[test]
fn mmap_fixed_at_zero_is_einval() {
    assert_eq!(mmap_request(0x10, 0x1000, PROT_READ, MAP_FIXED | MAP_ANONYMOUS, -1), Err(SysError::EINVAL));
    let r = mmap_request(0x2000, 0x1000, PROT_READ, MAP_FIXED | MAP_ANONYMOUS, -1).unwrap();
    assert!(r.fixed);
}

#[test]
fn mmap_file_range_rules() {
    assert_eq!(mmap_file_range(-1, 10, 100), Err(SysError::EINVAL));
    assert_eq!(mmap_file_range(100, 10, 100), Err(SysError::EINVAL));
    assert_eq!(mmap_file_range(10, 10, 100), Ok((10, 10)));
    assert_eq!(mmap_file_range(90, 4096, 100), Ok((90, 10)));
}

#[test]
fn munmap_and_mprotect_lengths() {
    assert_eq!(munmap_length(0), 0);
    assert_eq!(munmap_length(1), 0x1000);
    assert_eq!(munmap_length(0x1000), 0x1000);
    assert_eq!(mprotect_request(0x1001, PROT_READ), Ok((0x2000, MappingFlags { bits: 9 })));
    assert_eq!(mprotect_request(0x10, 0x8), Err(SysError::EINVAL));
    assert_eq!(mprotect_request(0x10, PROT_GROWSDOWN | PROT_GROWSUP), Err(SysError::EINVAL));
    // A bad `prot` is refused before the length is rounded.
    assert_eq!(mprotect_request(usize::MAX, 0x8), Err(SysError::EINVAL));
    assert_eq!(mprotect_request(0x10, PROT_GROWSDOWN | PROT_READ), Ok((0x1000, MappingFlags { bits: 9 })));
}

#[test]
fn elf_segment_arithmetic() {
    assert_eq!(elf_segment_layout(0x401234, 0x2000, 0), (0x401000, 0x3000, 0x234));
    assert_eq!(elf_segment_layout(0x1000, 0x10, 0x10000), (0x11000, 0x1000, 0));
}

#[test]
fn elf_segments_of_the_loadable_headers() {
    let text = ProgramHeader {
        loadable: true,
        vaddr: 0x401234,
        mem_size: 0x2000,
        read: true,
        write: false,
        execute: true,
        file_offset: 0x1234,
        file_size: 0x1800,
    };
    let note = ProgramHeader { loadable: false, vaddr: 0x400000, mem_size: 0x10, ..text };
    let data = ProgramHeader {
        loadable: true,
        vaddr: 0x404000,
        mem_size: 0x10,
        read: true,
        write: true,
        execute: false,
        file_offset: 0x4000,
        file_size: 0x8,
    };
    let segs = elf_segments(&vec![note, text, data], 0x1000);
    assert_eq!(
        segs,
        vec![
            ElfSegment {
                start_vaddr: 0x402000,
                size: 0x3000,
                flags: MappingFlags { bits: 8 | 1 | 4 },
                offset: 0x234,
                file_offset: 0x1234,
                file_size: 0x1800,
            },
            ElfSegment {
                start_vaddr: 0x405000,
                size: 0x1000,
                flags: MappingFlags { bits: 8 | 1 | 2 },
                offset: 0,
                file_offset: 0x4000,
                file_size: 0x8,
            },
        ]
    );
    assert!(elf_segments(&vec![note], 0).is_empty());
}

#[test]
fn elf_info_moves_the_entry_point() {
    let text = ProgramHeader {
        loadable: true,
        vaddr: 0x1000,
        mem_size: 0x10,
        read: true,
        write: false,
        execute: true,
        file_offset: 0,
        file_size: 0x10,
    };
    let info = elf_info(0x1004, &vec![text], 0x40_0000);
    assert_eq!(info.entry, 0x40_1004);
    assert_eq!(info.segments, elf_segments(&vec![text], 0x40_0000));
    assert_eq!(info.segments[0].start_vaddr, 0x40_1000);
}
