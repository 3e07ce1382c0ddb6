use sunrise_core::elf_loader::get_kip_header;
use sunrise_core::elf_loader::load_builtin;
use sunrise_core::elf_loader::load_segment;
use sunrise_core::elf_loader::map_grub_module;
use sunrise_core::elf_loader::KipHeader;
use sunrise_core::elf_loader::ModuleMapping;
use sunrise_core::elf_loader::ProgramSegment;
use sunrise_core::elf_loader::SegmentImage;
use sunrise_core::error::KernelError;
use sunrise_core::error::MemoryType;
use sunrise_core::memory::MappingAccessRights;
use sunrise_core::memory::ProcessMemory;

fn segment(virtual_addr: usize, mem_size: usize, file_size: usize, writable: bool) -> ProgramSegment {
    ProgramSegment { virtual_addr, mem_size, file_size, readable: true, writable, executable: !writable }
}

#[test]
fn kip_header_is_read_field_by_field() {
    let mut data = b"KIP1test\0\0\0\0\0\0\0\0".to_vec();
    data.extend(0x0200000000001000u64.to_le_bytes());
    data.extend(1u32.to_le_bytes());
    data.extend([44, 3, 0, 9]);
    data.extend(16u32.to_le_bytes());
    data.extend([0xEE; 4]);
    assert_eq!(data.len(), 40);
    assert_eq!(
        get_kip_header(&data),
        Some(KipHeader {
            magic: *b"KIP1",
            name: *b"test\0\0\0\0\0\0\0\0",
            title_id: 0x0200000000001000,
            process_category: 1,
            main_thread_priority: 44,
            default_cpu_core: 3,
            reserved: 0,
            flags: 9,
            stack_page_count: 16,
        })
    );
    assert_eq!(get_kip_header(&data[..39]), None);
    assert_eq!(get_kip_header(&[]), None);
}

#[test]
fn module_mapping_covers_every_page_touched() {
    assert_eq!(
        map_grub_module(0x10_1234, 0x10_3001),
        ModuleMapping { phys_start: 0x10_1000, mapping_len: 0x3000, offset: 0x234, len: 0x1DCD }
    );
    assert_eq!(
        map_grub_module(0x10_0000, 0x10_1000),
        ModuleMapping { phys_start: 0x10_0000, mapping_len: 0x1000, offset: 0, len: 0x1000 }
    );
    assert_eq!(map_grub_module(0x5000, 0x5000), ModuleMapping { phys_start: 0x5000, mapping_len: 0, offset: 0, len: 0 });
}

#[test]
fn segments_are_mapped_by_their_flags() {
    let mut mem = ProcessMemory::new();
    let code = load_segment(&mut mem, &segment(0x1000, 0x1234, 0x1200, false), 0x40_0000).unwrap();
    assert_eq!(code, SegmentImage { address: 0x40_1000, file_size: 0x1200, zero_size: 0xE00 });
    let data = load_segment(&mut mem, &segment(0x4000, 0x10, 0, true), 0x40_0000).unwrap();
    assert_eq!(data, SegmentImage { address: 0x40_4000, file_size: 0, zero_size: 0x1000 });
    assert_eq!(mem.mapping_count(), 2);
    let m = mem.mapping_at(0);
    assert_eq!((m.address, m.length, m.ty), (0x40_1000, 0x2000, MemoryType::CodeStatic));
    assert_eq!(m.flags, MappingAccessRights { readable: true, writable: false, executable: true, user_accessible: true });
    let m = mem.mapping_at(1);
    assert_eq!((m.address, m.length, m.ty), (0x40_4000, 0x1000, MemoryType::CodeMutable));
    assert_eq!(m.flags, MappingAccessRights { readable: true, writable: true, executable: false, user_accessible: true });
}

#[test]
fn segment_errors() {
    let mut mem = ProcessMemory::new();
    assert_eq!(
        load_segment(&mut mem, &segment(0x1000, 0x1000, 0x1001, false), 0x40_0000),
        Err(KernelError::InvalidSize { size: 0x1001 })
    );
    assert_eq!(
        load_segment(&mut mem, &segment(0x1001, 0x1000, 0, false), 0x40_0000),
        Err(KernelError::InvalidAddress { address: 0x40_1001 })
    );
    assert_eq!(load_segment(&mut mem, &segment(0x1000, 0, 0, false), 0x40_0000), Err(KernelError::InvalidSize { size: 0 }));
    assert_eq!(
        load_segment(&mut mem, &segment(usize::MAX, 0x1000, 0, false), 0x40_0000),
        Err(KernelError::InvalidAddress { address: usize::MAX })
    );
    assert_eq!(
        load_segment(&mut mem, &segment(0x1000, usize::MAX, 0, false), 0x40_0000),
        Err(KernelError::InvalidSize { size: usize::MAX })
    );
    assert_eq!(mem.mapping_count(), 0);
}

#[test]
fn builtin_is_loaded_segment_by_segment() {
    let mut mem = ProcessMemory::new();
    let segments = vec![segment(0, 0x1000, 0x800, false), segment(0x2000, 0x1800, 0x100, true)];
    let (images, entry) = load_builtin(&mut mem, &segments, 0, 0x40_0000).unwrap();
    assert_eq!(entry, 0x40_0000);
    assert_eq!(
        images,
        vec![
            SegmentImage { address: 0x40_0000, file_size: 0x800, zero_size: 0x800 },
            SegmentImage { address: 0x40_2000, file_size: 0x100, zero_size: 0x1F00 }
        ]
    );
    // a segment in the way of another stops the loading
    let mut mem = ProcessMemory::new();
    let segments = vec![segment(0, 0x2000, 0, false), segment(0x1000, 0x1000, 0, true), segment(0x8000, 0x1000, 0, true)];
    assert_eq!(
        load_builtin(&mut mem, &segments, 0, 0x40_0000),
        Err(KernelError::InvalidMemState { address: 0x40_0000, ty: MemoryType::CodeStatic })
    );
    assert_eq!(mem.mapping_count(), 1);
}
