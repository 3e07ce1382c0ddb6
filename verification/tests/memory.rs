use sunrise_core::bits::set_bits_area;
use sunrise_core::error::KernelError;
use sunrise_core::error::MemoryType;
use sunrise_core::handle::SharedMemoryRef;
use sunrise_core::mem::align_down;
use sunrise_core::mem::align_up;
use sunrise_core::mem::check_nonzero_length;
use sunrise_core::mem::check_size_aligned;
use sunrise_core::mem::round_to_page;
use sunrise_core::mem::round_to_page_upper;
use sunrise_core::mem::PhysicalAddress;
use sunrise_core::mem::VirtualAddress;
use sunrise_core::mem::PAGE_SIZE;
use sunrise_core::memory::Mapping;
use sunrise_core::memory::MappingAccessRights;
use sunrise_core::memory::MappingFrames;
use sunrise_core::memory::ProcessMemory;
use sunrise_core::memory::QueryMemory;
use sunrise_core::memory::USER_LAND_END;
use sunrise_core::memory::USER_LAND_START;

fn mapped(ranges: &[(usize, usize)]) -> ProcessMemory {
    let mut mem = ProcessMemory::new();
    for (address, length) in ranges {
        mem.create_regular_mapping(VirtualAddress(*address), *length, MemoryType::Heap, MappingAccessRights::u_rw())
            .unwrap();
    }
    mem
}

fn addresses(mem: &ProcessMemory) -> Vec<usize> {
    (0..mem.mapping_count()).map(|i| mem.mapping_at(i).address).collect()
}

#[test]
fn rounding_to_pages() {
    assert_eq!(round_to_page(0), 0);
    assert_eq!(round_to_page(4095), 0);
    assert_eq!(round_to_page(4096), 4096);
    assert_eq!(round_to_page(0xccccc567), 0xccccc000);
    assert_eq!(round_to_page_upper(0), 0);
    assert_eq!(round_to_page_upper(1), 4096);
    assert_eq!(round_to_page_upper(4096), 4096);
    assert_eq!(round_to_page_upper(4097), 8192);
    assert_eq!(align_down(13, 4), 12);
    assert_eq!(align_up(13, 4), 16);
    assert_eq!(align_up(16, 4), 16);
    assert_eq!(PhysicalAddress(0x1234).floor(), PhysicalAddress(0x1000));
    assert_eq!(VirtualAddress(0x1fff).floor(), VirtualAddress(0x1000));
    assert_eq!(VirtualAddress(0x1fff).addr(), 0x1fff);
}

#[test]
fn size_checks() {
    assert_eq!(check_nonzero_length(1), Ok(()));
    assert_eq!(check_nonzero_length(0), Err(KernelError::InvalidSize { size: 0 }));
    assert_eq!(check_size_aligned(8192, PAGE_SIZE), Ok(()));
    assert_eq!(check_size_aligned(8193, PAGE_SIZE), Err(KernelError::InvalidSize { size: 8193 }));
}

#[test]
fn set_bits_area_sets_exactly_the_range() {
    let mut bitmap = vec![0u8; 4];
    set_bits_area(&mut bitmap, 3, 13, true);
    assert_eq!(bitmap, vec![0b1111_1000, 0b0001_1111, 0, 0]);
    set_bits_area(&mut bitmap, 4, 12, false);
    assert_eq!(bitmap, vec![0b0000_1000, 0b0001_0000, 0, 0]);
    // an empty range changes nothing
    set_bits_area(&mut bitmap, 20, 20, true);
    set_bits_area(&mut bitmap, 9, 2, true);
    assert_eq!(bitmap, vec![0b0000_1000, 0b0001_0000, 0, 0]);
}

#[test]
fn find_available_space_returns_the_lowest_hole() {
    let mem = ProcessMemory::new();
    assert_eq!(mem.find_available_space(PAGE_SIZE), Ok(VirtualAddress(USER_LAND_START)));
    let mem = mapped(&[(0x1000, 0x2000), (0x4000, 0x1000), (0x9000, 0x1000)]);
    assert_eq!(mem.find_available_space(0x1000), Ok(VirtualAddress(0x3000)));
    assert_eq!(mem.find_available_space(0x2000), Ok(VirtualAddress(0x5000)));
    assert_eq!(mem.find_available_space(0x4000), Ok(VirtualAddress(0x5000)));
    assert_eq!(mem.find_available_space(0x5000), Ok(VirtualAddress(0xa000)));
}

#[test]
fn find_available_space_errors() {
    let mem = ProcessMemory::new();
    assert_eq!(mem.find_available_space(0), Err(KernelError::InvalidSize { size: 0 }));
    assert_eq!(mem.find_available_space(100), Err(KernelError::InvalidSize { size: 100 }));
    assert_eq!(mem.find_available_space(USER_LAND_END), Err(KernelError::VirtualMemoryExhaustion));
    assert_eq!(
        mem.find_available_space(USER_LAND_END - USER_LAND_START),
        Ok(VirtualAddress(USER_LAND_START))
    );
    let full = mapped(&[(USER_LAND_START, USER_LAND_END - USER_LAND_START)]);
    assert_eq!(full.find_available_space(PAGE_SIZE), Err(KernelError::VirtualMemoryExhaustion));
}

#[test]
fn mappings_are_kept_in_ascending_order() {
    let mem = mapped(&[(0x9000, 0x1000), (0x1000, 0x2000), (0x4000, 0x1000)]);
    assert_eq!(addresses(&mem), vec![0x1000, 0x4000, 0x9000]);
    assert_eq!(
        mem.mapping_at(1),
        Mapping {
            address: 0x4000,
            length: 0x1000,
            ty: MemoryType::Heap,
            flags: MappingAccessRights::u_rw(),
            frames: MappingFrames::Owned,
            phys_offset: 0,
        }
    );
}

#[test]
fn mapping_errors() {
    let mut mem = mapped(&[(0x4000, 0x2000)]);
    let rw = MappingAccessRights::u_rw();
    let map = |mem: &mut ProcessMemory, a: usize, l: usize| mem.create_regular_mapping(VirtualAddress(a), l, MemoryType::Stack, rw);
    assert_eq!(map(&mut mem, 0x1001, 0x1000), Err(KernelError::InvalidAddress { address: 0x1001 }));
    assert_eq!(map(&mut mem, 0x1000, 0), Err(KernelError::InvalidSize { size: 0 }));
    assert_eq!(map(&mut mem, 0x1000, 0x1001), Err(KernelError::InvalidSize { size: 0x1001 }));
    assert_eq!(map(&mut mem, 0, 0x1000), Err(KernelError::InvalidAddress { address: 0 }));
    assert_eq!(map(&mut mem, USER_LAND_END, 0x1000), Err(KernelError::InvalidAddress { address: USER_LAND_END }));
    assert_eq!(
        map(&mut mem, USER_LAND_END - 0x1000, 0x2000),
        Err(KernelError::InvalidAddress { address: USER_LAND_END - 0x1000 })
    );
    let busy = Err(KernelError::InvalidMemState { address: 0x4000, ty: MemoryType::Heap });
    assert_eq!(map(&mut mem, 0x3000, 0x2000), busy);
    assert_eq!(map(&mut mem, 0x5000, 0x1000), busy);
    assert_eq!(map(&mut mem, 0x4000, 0x2000), busy);
    assert_eq!(addresses(&mem), vec![0x4000]);
    assert_eq!(map(&mut mem, 0x3000, 0x1000), Ok(()));
    assert_eq!(map(&mut mem, 0x6000, 0x1000), Ok(()));
    assert_eq!(addresses(&mem), vec![0x3000, 0x4000, 0x6000]);
}

#[test]
fn shared_mappings_record_their_backing() {
    let mut mem = ProcessMemory::new();
    let shared = SharedMemoryRef { region: 3 };
    mem.map_partial_shared_mapping(shared, VirtualAddress(0x8000), 0x3000, 0x2000, MemoryType::SharedMemory, MappingAccessRights::u_rw())
        .unwrap();
    let m = mem.mapping_at(0);
    assert_eq!(m.frames, MappingFrames::Shared(shared));
    assert_eq!(m.phys_offset, 0x3000);
    assert_eq!((m.address, m.length), (0x8000, 0x2000));
}

#[test]
fn unmap_takes_exact_mappings_only() {
    let mut mem = mapped(&[(0x1000, 0x2000), (0x4000, 0x1000)]);
    assert_eq!(mem.unmap(VirtualAddress(0x2000), 0x1000), Err(KernelError::InvalidAddress { address: 0x2000 }));
    assert_eq!(mem.unmap(VirtualAddress(0x1000), 0x1000), Err(KernelError::InvalidSize { size: 0x1000 }));
    assert_eq!(addresses(&mem), vec![0x1000, 0x4000]);
    let gone = mem.unmap(VirtualAddress(0x1000), 0x2000).unwrap();
    assert_eq!((gone.address, gone.length), (0x1000, 0x2000));
    assert_eq!(addresses(&mem), vec![0x4000]);
    assert_eq!(mem.unmap(VirtualAddress(0x1000), 0x2000), Err(KernelError::InvalidAddress { address: 0x1000 }));
}

#[test]
fn query_memory_tells_mappings_from_holes() {
    let mem = mapped(&[(0x2000, 0x2000), (0x8000, 0x1000)]);
    match mem.query_memory(VirtualAddress(0x3fff)) {
        QueryMemory::Used(m) => assert_eq!((m.address, m.length), (0x2000, 0x2000)),
        other => panic!("{:?}", other),
    }
    let hole = |a: usize| match mem.query_memory(VirtualAddress(a)) {
        QueryMemory::Available(m) => (m.address, m.length, m.ty),
        other => panic!("{:?}", other),
    };
    assert_eq!(hole(0), (0, 0x2000, MemoryType::Unmapped));
    assert_eq!(hole(0x1fff), (0, 0x2000, MemoryType::Unmapped));
    assert_eq!(hole(0x4000), (0x4000, 0x4000, MemoryType::Unmapped));
    assert_eq!(hole(0x9000), (0x9000, USER_LAND_END - 0x9000, MemoryType::Unmapped));
    assert_eq!(hole(USER_LAND_END), (0x9000, 0, MemoryType::Unmapped));
}

#[test]
fn mirror_needs_the_range_inside_one_mapping() {
    let mem = mapped(&[(0x2000, 0x2000), (0x4000, 0x1000)]);
    assert_eq!(mem.mirror_mapping(VirtualAddress(0x2000), 0), Err(KernelError::InvalidSize { size: 0 }));
    assert_eq!(mem.mirror_mapping(VirtualAddress(0x2010), 0x1ff0).map(|m| m.address), Ok(0x2000));
    assert_eq!(mem.mirror_mapping(VirtualAddress(0x2010), 0x1ff1), Err(KernelError::InvalidAddress { address: 0x2010 }));
    assert_eq!(mem.mirror_mapping(VirtualAddress(0x1000), 0x10), Err(KernelError::InvalidAddress { address: 0x1000 }));
}
