//! Loading the programs that are built into the kernel.
//!
//! The boot loader hands the built-in programs to the kernel as modules.
//! Reading the ELF file of a module is left to the caller; this module
//! decides where a module is mapped, how each of its segments is mapped into
//! the new process, and reads the header that tells how to start it.

use crate::bytes::le_u32;
use crate::bytes::le_u64;
use crate::bytes::read_u32_le;
use crate::bytes::read_u64_le;
use crate::error::KernelError;
use crate::error::MemoryType;
use crate::mem::align_down;
use crate::mem::align_up;
use crate::mem::spec_align_down;
use crate::mem::spec_align_up;
use crate::mem::VirtualAddress;
use crate::mem::PAGE_SIZE;
use crate::memory::mapping_verdict;
use crate::memory::with_mapping;
use crate::memory::Mapping;
use crate::memory::MappingAccessRights;
use crate::memory::MappingFrames;
use crate::memory::ProcessMemory;
use vstd::prelude::*;

verus! {

/// The number of bytes the header of a built-in program takes.
pub const KIP_HEADER_SIZE: usize = 40;

/// The header of a built-in program: how the kernel is to start it.
#[derive(Clone, Copy, Debug, PartialEq, Eq)]
pub struct KipHeader {
    /// The magic bytes at the start of the header.
    pub magic: [u8; 4],
    /// The name of the program, padded with zeros.
    pub name: [u8; 12],
    /// The title id of the program.
    pub title_id: u64,
    /// The category of the program.
    pub process_category: u32,
    /// The priority of the main thread.
    pub main_thread_priority: u8,
    /// The CPU the main thread runs on by default.
    pub default_cpu_core: u8,
    /// Not used.
    pub reserved: u8,
    /// Flags.
    pub flags: u8,
    /// The size of the stack of the main thread, in pages.
    pub stack_page_count: u32,
}

/// Reads the header of a built-in program from the bytes of its section:
/// the magic at offset 0, the name at 4, the title id at 16, the category at
/// 24, the priority, the CPU, a reserved byte and the flags at 28 to 31, and
/// the stack page count at 32, all little-endian. Returns nothing when the
/// section is shorter than a header.
pub fn get_kip_header(data: &[u8]) -> (r: Option<KipHeader>)
    ensures
        r is Some <==> data@.len() >= KIP_HEADER_SIZE,
        r is Some ==> {
            let h = r->Some_0;
            &&& h.magic@ == data@.subrange(0, 4)
            &&& h.name@ == data@.subrange(4, 16)
            &&& h.title_id == le_u64(data@, 16)
            &&& h.process_category == le_u32(data@, 24)
            &&& h.main_thread_priority == data@[28]
            &&& h.default_cpu_core == data@[29]
            &&& h.reserved == data@[30]
            &&& h.flags == data@[31]
            &&& h.stack_page_count == le_u32(data@, 32)
        },
{
    if data.len() < KIP_HEADER_SIZE {
        return None;
    }
    let magic: [u8; 4] = [data[0], data[1], data[2], data[3]];
    let name: [u8; 12] = [
        data[4],
        data[5],
        data[6],
        data[7],
        data[8],
        data[9],
        data[10],
        data[11],
        data[12],
        data[13],
        data[14],
        data[15],
    ];
    assert(magic@ =~= data@.subrange(0, 4));
    assert(name@ =~= data@.subrange(4, 16));
    Some(
        KipHeader {
            magic,
            name,
            title_id: read_u64_le(data, 16),
            process_category: read_u32_le(data, 24),
            main_thread_priority: data[28],
            default_cpu_core: data[29],
            reserved: data[30],
            flags: data[31],
            stack_page_count: read_u32_le(data, 32),
        },
    )
}

/// Where a module of the boot loader is mapped.
#[derive(Clone, Copy, Debug, PartialEq, Eq, Structural)]
pub struct ModuleMapping {
    /// The physical address of the first page that holds the module.
    pub phys_start: usize,
    /// The length of the mapping: every page the module touches.
    pub mapping_len: usize,
    /// The offset of the module in the mapping.
    pub offset: usize,
    /// The length of the module.
    pub len: usize,
}

/// Decides what to map for a module that lies at `start..end` in physical
/// memory: the pages from the one that holds its first byte to the one that
/// holds its last.
pub fn map_grub_module(start: u32, end: u32) -> (r: ModuleMapping)
    requires
        start <= end,
        spec_align_up(end as int, PAGE_SIZE as int) <= usize::MAX,
    ensures
        r.phys_start == spec_align_down(start as int, PAGE_SIZE as int),
        r.mapping_len == spec_align_up(end - r.phys_start, PAGE_SIZE as int),
        r.offset == start as int % PAGE_SIZE as int,
        r.len == end - start,
{
    let start_address_aligned: usize = align_down(start as usize, PAGE_SIZE);
    // the aligned start is used to count the pages, to avoid an off-by-one
    let module_len_aligned: usize = align_up(end as usize - start_address_aligned, PAGE_SIZE);
    ModuleMapping {
        phys_start: start_address_aligned,
        mapping_len: module_len_aligned,
        offset: start as usize % PAGE_SIZE,
        len: (end - start) as usize,
    }
}

/// A loadable segment of a program.
#[derive(Clone, Copy, Debug, PartialEq, Eq, Structural)]
pub struct ProgramSegment {
    /// The address of the segment, relative to where the program is loaded.
    pub virtual_addr: usize,
    /// The size of the segment in memory.
    pub mem_size: usize,
    /// The size of the segment in the file; the rest is filled with zeros.
    pub file_size: usize,
    /// The segment may be read.
    pub readable: bool,
    /// The segment may be written.
    pub writable: bool,
    /// The segment may be executed.
    pub executable: bool,
}

/// What to put into a segment that was mapped.
#[derive(Clone, Copy, Debug, PartialEq, Eq, Structural)]
pub struct SegmentImage {
    /// The address of the segment in the process.
    pub address: usize,
    /// The number of bytes to copy from the file.
    pub file_size: usize,
    /// The number of bytes to fill with zeros after them.
    pub zero_size: usize,
}

/// The mapping a segment gets at `base`: userspace may access it as the
/// segment says, and a segment that may be written is mutable code.
pub open spec fn segment_mapping(segment: ProgramSegment, base: usize) -> Mapping {
    Mapping {
        address: (base + segment.virtual_addr) as usize,
        length: spec_align_up(segment.mem_size as int, PAGE_SIZE as int) as usize,
        ty: if segment.writable {
            MemoryType::CodeMutable
        } else {
            MemoryType::CodeStatic
        },
        flags: MappingAccessRights {
            readable: segment.readable,
            writable: segment.writable,
            executable: segment.executable,
            user_accessible: true,
        },
        frames: MappingFrames::Owned,
        phys_offset: 0,
    }
}

/// What loading a segment at `base` comes to: it fails with
/// `InvalidAddress` when its address does not fit the address space, with
/// `InvalidSize` when its size does not, or when the file holds more than
/// the segment takes in memory, and as mapping the segment does.
pub open spec fn segment_verdict(mappings: Seq<Mapping>, segment: ProgramSegment, base: usize) -> Result<
    (),
    KernelError,
> {
    if base + segment.virtual_addr > usize::MAX {
        Err(KernelError::InvalidAddress { address: segment.virtual_addr })
    } else if spec_align_up(segment.mem_size as int, PAGE_SIZE as int) > usize::MAX {
        Err(KernelError::InvalidSize { size: segment.mem_size })
    } else if segment.file_size > spec_align_up(segment.mem_size as int, PAGE_SIZE as int) {
        Err(KernelError::InvalidSize { size: segment.file_size })
    } else {
        mapping_verdict(
            mappings,
            base + segment.virtual_addr,
            spec_align_up(segment.mem_size as int, PAGE_SIZE as int),
        )
    }
}

/// What to put into a segment once it is mapped at `base`.
pub open spec fn segment_image(segment: ProgramSegment, base: usize) -> SegmentImage {
    SegmentImage {
        address: (base + segment.virtual_addr) as usize,
        file_size: segment.file_size,
        zero_size: (spec_align_up(segment.mem_size as int, PAGE_SIZE as int) - segment.file_size) as usize,
    }
}

/// Maps a segment of a program into a process, and tells what to put into
/// it: the bytes of the file first, zeros in what is left of its pages.
pub fn load_segment(process_memory: &mut ProcessMemory, segment: &ProgramSegment, base: usize) -> (r:
    Result<SegmentImage, KernelError>)
    requires
        old(process_memory).wf(),
    ensures
        final(process_memory).wf(),
        r is Ok <==> segment_verdict(old(process_memory)@, *segment, base) is Ok,
        r is Err ==> r->Err_0 == segment_verdict(old(process_memory)@, *segment, base)->Err_0
            && final(process_memory)@ == old(process_memory)@,
        r is Ok ==> final(process_memory)@ == with_mapping(
            old(process_memory)@,
            segment_mapping(*segment, base),
        ) && r->Ok_0 == segment_image(*segment, base),
{
    if segment.virtual_addr > usize::MAX - base {
        return Err(KernelError::InvalidAddress { address: segment.virtual_addr });
    }
    if segment.mem_size > usize::MAX - (PAGE_SIZE - 1) {
        return Err(KernelError::InvalidSize { size: segment.mem_size });
    }
    let mem_size_total: usize = align_up(segment.mem_size, PAGE_SIZE);
    if segment.file_size > mem_size_total {
        return Err(KernelError::InvalidSize { size: segment.file_size });
    }
    // a segment that may be written is mutable code
    let ty = if segment.writable {
        MemoryType::CodeMutable
    } else {
        MemoryType::CodeStatic
    };
    let flags = MappingAccessRights {
        readable: segment.readable,
        writable: segment.writable,
        executable: segment.executable,
        user_accessible: true,
    };
    let virtual_addr: usize = base + segment.virtual_addr;
    match process_memory.create_regular_mapping(VirtualAddress(virtual_addr), mem_size_total, ty, flags) {
        Ok(()) => {},
        Err(err) => {
            return Err(err);
        },
    }
    Ok(
        SegmentImage {
            address: virtual_addr,
            file_size: segment.file_size,
            zero_size: mem_size_total - segment.file_size,
        },
    )
}

/// A process while the segments of a program are loaded into it.
pub struct BuiltinLoad {
    /// The address space of the process.
    pub mem: Seq<Mapping>,
    /// What to put into the segments loaded so far.
    pub images: Seq<SegmentImage>,
    /// The error that stopped the loading, if any.
    pub error: Option<KernelError>,
}

/// The process after the first `n` segments were loaded at `base`, or as
/// many as could be before an error.
pub open spec fn segments_loaded(
    mappings: Seq<Mapping>,
    segments: Seq<ProgramSegment>,
    base: usize,
    n: int,
) -> BuiltinLoad
    decreases n,
{
    if n <= 0 {
        BuiltinLoad { mem: mappings, images: Seq::<SegmentImage>::empty(), error: None }
    } else {
        let before = segments_loaded(mappings, segments, base, n - 1);
        if before.error is Some {
            before
        } else if segment_verdict(before.mem, segments[n - 1], base) is Err {
            BuiltinLoad {
                error: Some(segment_verdict(before.mem, segments[n - 1], base)->Err_0),
                ..before
            }
        } else {
            BuiltinLoad {
                mem: with_mapping(before.mem, segment_mapping(segments[n - 1], base)),
                images: before.images.push(segment_image(segments[n - 1], base)),
                error: None,
            }
        }
    }
}

/// Loads the segments of a built-in program into a process at `base`, one
/// after the other, and returns what to put into each of them together
/// with the entry point, which is `base`: the program must start at the
/// beginning of its image.
///
/// Fails with the error of the first segment that cannot be loaded; the
/// segments before it stay mapped.
pub fn load_builtin(
    process_memory: &mut ProcessMemory,
    segments: &Vec<ProgramSegment>,
    entry_point: usize,
    base: usize,
) -> (r: Result<(Vec<SegmentImage>, usize), KernelError>)
    requires
        old(process_memory).wf(),
        entry_point == 0,
    ensures
        final(process_memory).wf(),
        ({
            let end = segments_loaded(old(process_memory)@, segments@, base, segments@.len() as int);
            &&& final(process_memory)@ == end.mem
            &&& r is Err <==> end.error is Some
            &&& r is Err ==> r->Err_0 == end.error->Some_0
            &&& r is Ok ==> r->Ok_0.0@ == end.images && r->Ok_0.1 == base
        }),
{
    let mut images: Vec<SegmentImage> = Vec::new();
    let mut i: usize = 0;
    while i < segments.len()
        invariant
            i <= segments@.len(),
            process_memory.wf(),
            segments_loaded(old(process_memory)@, segments@, base, i as int) == (BuiltinLoad {
                mem: process_memory@,
                images: images@,
                error: None,
            }),
        decreases segments@.len() - i,
    {
        match load_segment(process_memory, &segments[i], base) {
            Ok(image) => {
                images.push(image);
            },
            Err(err) => {
                proof {
                    lemma_load_stops(old(process_memory)@, segments@, base, i + 1, segments@.len() as int);
                }
                return Err(err);
            },
        }
        i = i + 1;
    }
    // the entry point
    Ok((images, base + entry_point))
}

/// Once a segment could not be loaded, nothing more is.
proof fn lemma_load_stops(
    mappings: Seq<Mapping>,
    segments: Seq<ProgramSegment>,
    base: usize,
    failed: int,
    n: int,
)
    requires
        0 <= failed <= n,
        segments_loaded(mappings, segments, base, failed).error is Some,
    ensures
        segments_loaded(mappings, segments, base, n) == segments_loaded(mappings, segments, base, failed),
    decreases n,
{
    if failed < n {
        lemma_load_stops(mappings, segments, base, failed, n - 1);
    }
}

} // verus!
