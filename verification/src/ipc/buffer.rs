//! Buffers that travel with a message by being mapped into the receiver.
//!
//! An A, B or W descriptor names a range of the sender's memory. When the
//! message is received the range is made available to the receiver; when the
//! reply is sent it is taken away again. Whole pages in the middle of the
//! range are shared with the receiver; a partial page at the head or at the
//! tail of the range is copied into a page of the receiver's own.

use crate::bits::bit_range;
use crate::bits::get_bits_u64;
use crate::bits::lemma_bit_range_bound;
use crate::bits::set_bits_u64;
use crate::bits::with_bit_range;
use crate::bytes::le_u32;
use crate::bytes::patched;
use crate::bytes::read_u32_le;
use crate::bytes::u32_le_bytes;
use crate::bytes::write_u32_le;
use crate::error::userspace_code;
use crate::error::KernelError;
use crate::error::MemoryType;
use crate::error::UserspaceError;
use crate::handle::SharedMemoryRef;
use crate::mem::spec_align_down;
use crate::mem::spec_align_up;
use crate::mem::VirtualAddress;
use crate::mem::MAX_ADDRESS;
use crate::mem::PAGE_SIZE;
use crate::memory::after_unmap;
use crate::memory::has_space;
use crate::memory::is_lowest_space;
use crate::memory::lemma_free_after_mapping;
use crate::memory::lemma_verdict_ok;
use crate::memory::lemma_with_mapping;
use crate::memory::lowest_space;
use crate::memory::mapping_verdict;
use crate::memory::mappings_wf;
use crate::memory::mirror_verdict;
use crate::memory::query_result;
use crate::memory::range_available;
use crate::memory::range_free;
use crate::memory::with_mapping;
use crate::memory::Mapping;
use crate::memory::MappingAccessRights;
use crate::memory::MappingFrames;
use crate::memory::ProcessMemory;
use crate::memory::QueryMemory;
use crate::memory::USER_LAND_END;
use crate::memory::USER_LAND_START;
use vstd::arithmetic::power2::lemma2_to64;
use vstd::arithmetic::power2::lemma2_to64_rest;
use vstd::prelude::*;

verus! {

/// A buffer that was mapped into the receiver of a request, kept so that
/// the reply can take it away again.
#[derive(Clone, Copy, Debug, PartialEq, Eq, Structural)]
pub struct Buffer {
    /// Whether the receiver may write to the buffer.
    pub writable: bool,
    /// The address of the buffer in the sender.
    pub source_addr: VirtualAddress,
    /// The address of the buffer in the receiver.
    pub dest_addr: VirtualAddress,
    /// The size of the buffer in bytes.
    pub size: usize,
}

/// Bytes to copy from the address space a message comes from to the address
/// space it goes to.
#[derive(Clone, Copy, Debug, PartialEq, Eq, Structural)]
pub struct CopyRequest {
    /// Where the bytes are, in the address space the message comes from.
    pub from_addr: usize,
    /// Where the bytes go, in the address space the message goes to.
    pub to_addr: usize,
    /// How many bytes to copy.
    pub len: usize,
}

impl Buffer {
    /// Both ends of the buffer lie in the address space, at the same place
    /// within their pages.
    pub open spec fn wf(&self) -> bool {
        &&& self.source_addr.0 + self.size <= MAX_ADDRESS
        &&& self.dest_addr.0 + self.size <= MAX_ADDRESS
        &&& self.source_addr.0 as int % PAGE_SIZE as int == self.dest_addr.0 as int % PAGE_SIZE as int
    }
}

/// The start of the page that holds an address.
pub open spec fn page_floor(addr: int) -> int {
    spec_align_down(addr, PAGE_SIZE as int)
}

/// The next page boundary at or above an address.
pub open spec fn page_ceil(addr: int) -> int {
    spec_align_up(addr, PAGE_SIZE as int)
}

/// The bytes at the head of a buffer that are copied: up to the first page
/// boundary when the buffer does not start on one, the whole buffer when it
/// is smaller than a page.
pub open spec fn head_len(addr: int, size: int) -> int {
    if addr % PAGE_SIZE as int != 0 || size < PAGE_SIZE {
        if PAGE_SIZE - addr % PAGE_SIZE as int <= size {
            PAGE_SIZE - addr % PAGE_SIZE as int
        } else {
            size
        }
    } else {
        0
    }
}

/// The bytes at the tail of a buffer that are copied: what lies past the
/// last page boundary, unless that is in the page the buffer starts in.
pub open spec fn tail_len(addr: int, size: int) -> int {
    if (addr + size) % PAGE_SIZE as int != 0 && page_floor(addr + size) != page_floor(addr) {
        (addr + size) % PAGE_SIZE as int
    } else {
        0
    }
}

/// The bytes in the middle of a buffer, which are shared: whole pages.
pub open spec fn middle_len(addr: int, size: int) -> int {
    size - head_len(addr, size) - tail_len(addr, size)
}

/// The head, the middle and the tail of a buffer add up to the buffer, and
/// the middle is made of whole pages that start on a page boundary.
pub proof fn lemma_buffer_parts(addr: int, size: int)
    requires
        0 <= addr,
        0 <= size,
    ensures
        0 <= head_len(addr, size) <= size,
        0 <= tail_len(addr, size) <= size,
        0 <= middle_len(addr, size),
        middle_len(addr, size) % PAGE_SIZE as int == 0,
        middle_len(addr, size) > 0 ==> page_ceil(addr) == addr + head_len(addr, size),
        middle_len(addr, size) > 0 ==> page_ceil(addr) + middle_len(addr, size) == page_floor(
            addr + size,
        ),
        page_ceil(size + addr % PAGE_SIZE as int) == page_ceil(addr + size) - page_floor(addr),
        head_len(addr, size) > 0 && tail_len(addr, size) > 0 ==> page_floor(addr) + PAGE_SIZE
            <= page_floor(addr + size),
        head_len(addr, size) > 0 && middle_len(addr, size) > 0 ==> page_floor(addr) + PAGE_SIZE
            == page_ceil(addr),
        tail_len(addr, size) > 0 ==> page_floor(addr + size) + PAGE_SIZE == page_ceil(addr + size),
        head_len(addr, size) > 0 ==> page_floor(addr) + PAGE_SIZE <= page_ceil(addr + size),
{
}

/// The mapping of the page that takes the copy of a partial page.
pub open spec fn copy_page(address: int) -> Mapping {
    Mapping {
        address: address as usize,
        length: PAGE_SIZE,
        ty: MemoryType::Ipc,
        flags: MappingAccessRights {
            readable: true,
            writable: true,
            executable: false,
            user_accessible: true,
        },
        frames: MappingFrames::Owned,
        phys_offset: 0,
    }
}

/// The mapping that shares the whole pages of a buffer.
pub open spec fn shared_pages(
    address: int,
    length: int,
    shared: SharedMemoryRef,
    phys_offset: int,
) -> Mapping {
    Mapping {
        address: address as usize,
        length: length as usize,
        ty: MemoryType::Ipc,
        flags: MappingAccessRights {
            readable: true,
            writable: true,
            executable: false,
            user_accessible: true,
        },
        frames: MappingFrames::Shared(shared),
        phys_offset: phys_offset as usize,
    }
}

/// Whether memory of the sender may be passed on as a buffer: it must be
/// readable, and writable too when the receiver is to write to the buffer.
pub open spec fn may_pass(m: Mapping, writable: bool) -> bool {
    m.flags.readable && (writable ==> m.flags.writable)
}

/// Whether a part of a buffer that is copied can be taken from the sender:
/// the sender must have it mapped, with the rights the buffer needs.
pub open spec fn source_verdict(from: Seq<Mapping>, addr: int, len: int, writable: bool) -> Result<
    (),
    UserspaceError,
> {
    match mirror_verdict(from, addr, len) {
        Ok(m) => if may_pass(m, writable) {
            Ok(())
        } else {
            Err(UserspaceError::InvalidMemState)
        },
        Err(e) => Err(userspace_code(e)),
    }
}

/// Whether the whole pages of a buffer can be shared: they start in a
/// mapping of the sender that is backed by shared memory and has the rights
/// the buffer needs.
pub open spec fn can_share(from: Seq<Mapping>, addr: int, writable: bool) -> bool {
    match query_result(from, page_ceil(addr)) {
        QueryMemory::Used(m) => m.frames is Shared && may_pass(m, writable) && m.phys_offset + (
        page_ceil(addr) - m.address) <= usize::MAX,
        QueryMemory::Available(_) => false,
    }
}

/// The mapping that shares the whole pages of a buffer from the sender.
pub open spec fn shared_from(from: Seq<Mapping>, addr: int, to_addr: int, size: int) -> Mapping {
    let m = query_result(from, page_ceil(addr))->Used_0;
    shared_pages(
        page_ceil(to_addr),
        middle_len(addr, size),
        m.frames->Shared_0,
        m.phys_offset + (page_ceil(addr) - m.address),
    )
}

/// What came of mapping a buffer into the receiver.
pub struct BufferMapping {
    /// The receiver's address space with the buffer mapped.
    pub to_mem: Seq<Mapping>,
    /// The address of the buffer in the receiver.
    pub to_addr: int,
    /// The partial pages to copy from the sender to the receiver.
    pub copies: Seq<CopyRequest>,
}

/// The receiver's address space with the parts of a buffer mapped at
/// `to_addr`: the page for the head, the page for the tail, the shared
/// pages.
pub open spec fn with_buffer(
    from: Seq<Mapping>,
    to: Seq<Mapping>,
    addr: int,
    to_addr: int,
    size: int,
) -> Seq<Mapping> {
    let with_head = if head_len(addr, size) > 0 {
        with_mapping(to, copy_page(page_floor(to_addr)))
    } else {
        to
    };
    let with_tail = if tail_len(addr, size) > 0 {
        with_mapping(with_head, copy_page(page_floor(to_addr + size)))
    } else {
        with_head
    };
    if middle_len(addr, size) > 0 {
        with_mapping(with_tail, shared_from(from, addr, to_addr, size))
    } else {
        with_tail
    }
}

/// The partial pages of a buffer to copy.
pub open spec fn buffer_copies(addr: int, to_addr: int, size: int) -> Seq<CopyRequest> {
    let head = if head_len(addr, size) > 0 {
        seq![
            CopyRequest {
                from_addr: addr as usize,
                to_addr: to_addr as usize,
                len: head_len(addr, size) as usize,
            },
        ]
    } else {
        Seq::<CopyRequest>::empty()
    };
    if tail_len(addr, size) > 0 {
        head.push(
            CopyRequest {
                from_addr: page_floor(addr + size) as usize,
                to_addr: page_floor(to_addr + size) as usize,
                len: tail_len(addr, size) as usize,
            },
        )
    } else {
        head
    }
}

/// What mapping a buffer of the sender into the receiver comes to.
///
/// A null buffer is not mapped. Any other gets the lowest free range of the
/// receiver that holds all pages the buffer touches, and keeps its place
/// within the page. The sender must have the head and the tail of the
/// buffer mapped, and its whole pages backed by shared memory, all of it
/// readable, and writable too when the buffer is.
pub open spec fn mapped_buffer(
    from: Seq<Mapping>,
    to: Seq<Mapping>,
    addr: int,
    size: int,
    writable: bool,
) -> Result<BufferMapping, UserspaceError> {
    let offset = addr % PAGE_SIZE as int;
    let span = page_ceil(size + offset);
    let to_addr = lowest_space(to, span) + offset;
    let head = source_verdict(from, addr, head_len(addr, size), writable);
    let tail = source_verdict(from, page_floor(addr + size), tail_len(addr, size), writable);
    if addr == 0 {
        Ok(BufferMapping { to_mem: to, to_addr: 0, copies: Seq::<CopyRequest>::empty() })
    } else if span == 0 {
        Err(UserspaceError::InvalidSize)
    } else if !has_space(to, span) {
        Err(UserspaceError::MemoryFull)
    } else if head_len(addr, size) > 0 && head is Err {
        Err(head->Err_0)
    } else if tail_len(addr, size) > 0 && tail is Err {
        Err(tail->Err_0)
    } else if middle_len(addr, size) > 0 && !can_share(from, addr, writable) {
        Err(UserspaceError::InvalidMemState)
    } else {
        Ok(
            BufferMapping {
                to_mem: with_buffer(from, to, addr, to_addr, size),
                to_addr,
                copies: buffer_copies(addr, to_addr, size),
            },
        )
    }
}

/// The address space after the parts of a buffer at `addr` were unmapped,
/// as far as they are mapped: the shared pages, the page of the tail, the
/// page of the head. A null buffer has no parts.
pub open spec fn without_buffer(mem: Seq<Mapping>, addr: int, size: int) -> Seq<Mapping> {
    if addr == 0 {
        mem
    } else {
        let without_middle = if middle_len(addr, size) > 0 {
            after_unmap(mem, page_ceil(addr), middle_len(addr, size))
        } else {
            mem
        };
        let without_tail = if tail_len(addr, size) > 0 {
            after_unmap(without_middle, page_floor(addr + size), PAGE_SIZE as int)
        } else {
            without_middle
        };
        if head_len(addr, size) > 0 {
            after_unmap(without_tail, page_floor(addr), PAGE_SIZE as int)
        } else {
            without_tail
        }
    }
}

/// The parts of a buffer depend on its place within the page alone, so they
/// are the same at both ends.
pub proof fn lemma_same_parts(addr: int, to_addr: int, size: int)
    requires
        0 <= addr,
        0 <= to_addr,
        0 <= size,
        addr % PAGE_SIZE as int == to_addr % PAGE_SIZE as int,
    ensures
        head_len(to_addr, size) == head_len(addr, size),
        tail_len(to_addr, size) == tail_len(addr, size),
        middle_len(to_addr, size) == middle_len(addr, size),
{
}

/// No range of userland is larger than userland.
proof fn lemma_no_space(mappings: Seq<Mapping>, len: int)
    requires
        len > USER_LAND_END - USER_LAND_START,
    ensures
        !has_space(mappings, len),
{
    assert forall|addr: int| !#[trigger] range_available(mappings, addr, len) by {}
}

/// A range that is free holds only free ranges.
proof fn lemma_free_within(mappings: Seq<Mapping>, addr: int, len: int, inner: int, inner_len: int)
    requires
        range_free(mappings, addr, len),
        addr <= inner,
        inner + inner_len <= addr + len,
    ensures
        range_free(mappings, inner, inner_len),
{
    assert forall|i: int| 0 <= i < mappings.len() implies !(#[trigger] mappings[i]).overlaps(
        inner,
        inner_len,
    ) by {
        assert(!mappings[i].overlaps(addr, len));
    }
}

/// Unmaps the pages that took the copies of partial pages, the one of the
/// tail first.
fn unmap_copy_pages(to_mem: &mut ProcessMemory, tail: Option<usize>, head: Option<usize>)
    requires
        old(to_mem).wf(),
    ensures
        final(to_mem).wf(),
        final(to_mem)@ == ({
            let without_tail = if tail is Some {
                after_unmap(old(to_mem)@, tail->Some_0 as int, PAGE_SIZE as int)
            } else {
                old(to_mem)@
            };
            if head is Some {
                after_unmap(without_tail, head->Some_0 as int, PAGE_SIZE as int)
            } else {
                without_tail
            }
        }),
{
    match tail {
        Some(page) => {
            let _ = to_mem.unmap(VirtualAddress(page), PAGE_SIZE);
        },
        None => {},
    }
    match head {
        Some(page) => {
            let _ = to_mem.unmap(VirtualAddress(page), PAGE_SIZE);
        },
        None => {},
    }
}

/// Checks that a part of a buffer that is copied can be taken from the
/// sender.
fn check_source(from_mem: &ProcessMemory, addr: usize, len: usize, writable: bool) -> (r: Result<
    (),
    UserspaceError,
>)
    requires
        from_mem.wf(),
    ensures
        r == source_verdict(from_mem@, addr as int, len as int, writable),
{
    match from_mem.mirror_mapping(VirtualAddress(addr), len) {
        Ok(m) => {
            if m.flags.readable && (!writable || m.flags.writable) {
                Ok(())
            } else {
                Err(UserspaceError::InvalidMemState)
            }
        },
        Err(err) => Err(UserspaceError::from(err)),
    }
}

/// Copies the head of a buffer: the receiver gets a page of its own at
/// `to_addr_full`, and the bytes of the head are to be copied into it.
fn copy_head(
    addr: usize,
    size: usize,
    writable: bool,
    to_addr_full: usize,
    from_mem: &ProcessMemory,
    to_mem: &mut ProcessMemory,
    local: &mut Vec<CopyRequest>,
) -> (r: Result<(), UserspaceError>)
    requires
        from_mem.wf(),
        old(to_mem).wf(),
        addr + size <= MAX_ADDRESS,
        head_len(addr as int, size as int) > 0,
        mapping_verdict(old(to_mem)@, to_addr_full as int, PAGE_SIZE as int) is Ok,
        to_addr_full + PAGE_SIZE <= USER_LAND_END,
    ensures
        final(to_mem).wf(),
        r == source_verdict(from_mem@, addr as int, head_len(addr as int, size as int), writable),
        r is Err ==> final(to_mem)@ == old(to_mem)@ && final(local)@ == old(local)@,
        r is Ok ==> final(to_mem)@ == with_mapping(old(to_mem)@, copy_page(to_addr_full as int))
            && final(local)@ == old(local)@.push(
            CopyRequest {
                from_addr: addr,
                to_addr: (to_addr_full + addr % PAGE_SIZE) as usize,
                len: head_len(addr as int, size as int) as usize,
            },
        ),
{
    let offset: usize = addr % PAGE_SIZE;
    let first_page_size: usize = if PAGE_SIZE - offset <= size {
        PAGE_SIZE - offset
    } else {
        size
    };
    match check_source(from_mem, addr, first_page_size, writable) {
        Ok(()) => {},
        Err(err) => {
            return Err(err);
        },
    }
    match to_mem.create_regular_mapping(
        VirtualAddress(to_addr_full),
        PAGE_SIZE,
        MemoryType::Ipc,
        MappingAccessRights::u_rw(),
    ) {
        Ok(()) => {},
        Err(err) => {
            return Err(UserspaceError::from(err));
        },
    }
    local.push(CopyRequest { from_addr: addr, to_addr: to_addr_full + offset, len: first_page_size });
    Ok(())
}

/// Copies the tail of a buffer: the receiver gets a page of its own at
/// `to_last_page`, and the bytes of the tail are to be copied into it.
fn copy_tail(
    addr: usize,
    size: usize,
    writable: bool,
    to_last_page: usize,
    from_mem: &ProcessMemory,
    to_mem: &mut ProcessMemory,
    local: &mut Vec<CopyRequest>,
) -> (r: Result<(), UserspaceError>)
    requires
        from_mem.wf(),
        old(to_mem).wf(),
        addr + size <= MAX_ADDRESS,
        tail_len(addr as int, size as int) > 0,
        mapping_verdict(old(to_mem)@, to_last_page as int, PAGE_SIZE as int) is Ok,
    ensures
        final(to_mem).wf(),
        r == source_verdict(
            from_mem@,
            page_floor(addr + size),
            tail_len(addr as int, size as int),
            writable,
        ),
        r is Err ==> final(to_mem)@ == old(to_mem)@ && final(local)@ == old(local)@,
        r is Ok ==> final(to_mem)@ == with_mapping(old(to_mem)@, copy_page(to_last_page as int))
            && final(local)@ == old(local)@.push(
            CopyRequest {
                from_addr: page_floor(addr + size) as usize,
                to_addr: to_last_page,
                len: tail_len(addr as int, size as int) as usize,
            },
        ),
{
    let end: usize = addr + size;
    let last_page: usize = crate::mem::round_to_page(end);
    let last_page_size: usize = end % PAGE_SIZE;
    match check_source(from_mem, last_page, last_page_size, writable) {
        Ok(()) => {},
        Err(err) => {
            return Err(err);
        },
    }
    match to_mem.create_regular_mapping(
        VirtualAddress(to_last_page),
        PAGE_SIZE,
        MemoryType::Ipc,
        MappingAccessRights::u_rw(),
    ) {
        Ok(()) => {},
        Err(err) => {
            return Err(UserspaceError::from(err));
        },
    }
    local.push(CopyRequest { from_addr: last_page, to_addr: to_last_page, len: last_page_size });
    Ok(())
}

/// Shares the whole pages of a buffer with the receiver at `dest`.
fn share_middle(
    addr: usize,
    size: usize,
    writable: bool,
    to_addr: usize,
    from_mem: &ProcessMemory,
    to_mem: &mut ProcessMemory,
) -> (r: Result<(), UserspaceError>)
    requires
        from_mem.wf(),
        old(to_mem).wf(),
        addr + size <= MAX_ADDRESS,
        to_addr + size <= MAX_ADDRESS,
        middle_len(addr as int, size as int) > 0,
        can_share(from_mem@, addr as int, writable) ==> mapping_verdict(
            old(to_mem)@,
            page_ceil(to_addr as int),
            middle_len(addr as int, size as int),
        ) is Ok,
    ensures
        final(to_mem).wf(),
        r == (if can_share(from_mem@, addr as int, writable) {
            Ok::<(), UserspaceError>(())
        } else {
            Err::<(), UserspaceError>(UserspaceError::InvalidMemState)
        }),
        r is Err ==> final(to_mem)@ == old(to_mem)@,
        r is Ok ==> final(to_mem)@ == with_mapping(
            old(to_mem)@,
            shared_from(from_mem@, addr as int, to_addr as int, size as int),
        ),
{
    proof {
        lemma_buffer_parts(addr as int, size as int);
        lemma_buffer_parts(to_addr as int, size as int);
    }
    let length: usize = size - head_size(addr, size) - tail_size(addr, size);
    let source: usize = crate::mem::align_up(addr, PAGE_SIZE);
    let dest: usize = crate::mem::align_up(to_addr, PAGE_SIZE);
    let mapping: Mapping = match from_mem.query_memory(VirtualAddress(source)) {
        QueryMemory::Used(mapping) => mapping,
        QueryMemory::Available(_) => {
            return Err(UserspaceError::InvalidMemState);
        },
    };
    let frames: SharedMemoryRef = match mapping.frames {
        MappingFrames::Shared(shared) => shared,
        _ => {
            return Err(UserspaceError::InvalidMemState);
        },
    };
    if !(mapping.flags.readable && (!writable || mapping.flags.writable)) {
        return Err(UserspaceError::InvalidMemState);
    }
    let offset: usize = source - mapping.address;
    if mapping.phys_offset > usize::MAX - offset {
        return Err(UserspaceError::InvalidMemState);
    }
    match to_mem.map_partial_shared_mapping(
        frames,
        VirtualAddress(dest),
        mapping.phys_offset + offset,
        length,
        MemoryType::Ipc,
        MappingAccessRights::u_rw(),
    ) {
        Ok(()) => Ok(()),
        Err(err) => Err(UserspaceError::from(err)),
    }
}

/// The number of bytes at the head of a buffer that are copied.
pub fn head_size(addr: usize, size: usize) -> (r: usize)
    ensures
        r == head_len(addr as int, size as int),
{
    let offset: usize = addr % PAGE_SIZE;
    if offset != 0 || size < PAGE_SIZE {
        if PAGE_SIZE - offset <= size {
            PAGE_SIZE - offset
        } else {
            size
        }
    } else {
        0
    }
}

/// The number of bytes at the tail of a buffer that are copied.
pub fn tail_size(addr: usize, size: usize) -> (r: usize)
    requires
        addr + size <= usize::MAX,
    ensures
        r == tail_len(addr as int, size as int),
{
    let end: usize = addr + size;
    if end % PAGE_SIZE != 0 && crate::mem::round_to_page(end) != crate::mem::round_to_page(addr) {
        end % PAGE_SIZE
    } else {
        0
    }
}

/// Where the parts of a buffer lie in the receiver when the pages it
/// touches start at `base`.
proof fn lemma_buffer_layout(addr: int, size: int, base: int)
    requires
        0 < addr,
        0 <= size,
        0 <= base,
        base % PAGE_SIZE as int == 0,
        page_ceil(size + addr % PAGE_SIZE as int) > 0,
    ensures
        ({
            let to_addr = base + addr % PAGE_SIZE as int;
            let span = page_ceil(size + addr % PAGE_SIZE as int);
            &&& page_floor(to_addr) == base
            &&& to_addr + size <= base + span
            &&& span % PAGE_SIZE as int == 0
            &&& PAGE_SIZE <= span
            &&& head_len(to_addr, size) == head_len(addr, size)
            &&& tail_len(to_addr, size) == tail_len(addr, size)
            &&& middle_len(to_addr, size) == middle_len(addr, size)
            &&& middle_len(addr, size) % PAGE_SIZE as int == 0
            &&& page_floor(to_addr + size) % PAGE_SIZE as int == 0
            &&& page_ceil(to_addr) % PAGE_SIZE as int == 0
            &&& tail_len(addr, size) > 0 ==> base <= page_floor(to_addr + size) && page_floor(
                to_addr + size,
            ) + PAGE_SIZE <= base + span
            &&& tail_len(addr, size) > 0 && head_len(addr, size) > 0 ==> base + PAGE_SIZE
                <= page_floor(to_addr + size)
            &&& middle_len(addr, size) > 0 ==> base <= page_ceil(to_addr) && page_ceil(to_addr)
                + middle_len(addr, size) <= base + span
            &&& middle_len(addr, size) > 0 && head_len(addr, size) > 0 ==> base + PAGE_SIZE
                <= page_ceil(to_addr)
            &&& middle_len(addr, size) > 0 && tail_len(addr, size) > 0 ==> page_ceil(to_addr)
                + middle_len(addr, size) <= page_floor(to_addr + size)
        }),
{
}

/// There is room in the receiver for the page that takes the head of a
/// buffer, and taking the page away leaves the receiver as it was.
proof fn lemma_room_for_head(to: Seq<Mapping>, base: int, span: int)
    requires
        mappings_wf(to),
        range_available(to, base, span),
        PAGE_SIZE <= span,
    ensures
        mapping_verdict(to, base, PAGE_SIZE as int) is Ok,
        mappings_wf(with_mapping(to, copy_page(base))),
        after_unmap(with_mapping(to, copy_page(base)), base, PAGE_SIZE as int) == to,
{
    lemma_free_within(to, base, span, base, PAGE_SIZE as int);
    lemma_verdict_ok(to, base, PAGE_SIZE as int);
    lemma_with_mapping(to, copy_page(base));
}

/// There is room in the receiver for a part of a buffer that lies in the
/// range found for the buffer and apart from the parts mapped before.
proof fn lemma_room_for_part(
    to: Seq<Mapping>,
    now: Seq<Mapping>,
    base: int,
    span: int,
    part: Mapping,
)
    requires
        mappings_wf(now),
        range_available(to, base, span),
        base <= part.address,
        part.end() <= base + span,
        part.length > 0,
        part.length as int % PAGE_SIZE as int == 0,
        part.address as int % PAGE_SIZE as int == 0,
        part.frames != MappingFrames::Absent,
        range_free(to, part.address as int, part.length as int) ==> range_free(
            now,
            part.address as int,
            part.length as int,
        ),
    ensures
        mapping_verdict(now, part.address as int, part.length as int) is Ok,
        mappings_wf(with_mapping(now, part)),
        after_unmap(with_mapping(now, part), part.address as int, part.length as int) == now,
{
    lemma_free_within(to, base, span, part.address as int, part.length as int);
    lemma_verdict_ok(now, part.address as int, part.length as int);
    lemma_with_mapping(now, part);
}

/// Makes a buffer of the sender available to the receiver and returns its
/// address there. The partial pages to copy are added to `copies`. The
/// sender must be able to read the buffer, and to write to it when the
/// receiver is to write to it.
///
/// When anything fails, what was mapped by then is unmapped again: the
/// receiver's address space is left as it was.
#[verifier::rlimit(80)]
pub fn map_buffer(
    addr: usize,
    size: usize,
    writable: bool,
    from_mem: &ProcessMemory,
    to_mem: &mut ProcessMemory,
    copies: &mut Vec<CopyRequest>,
) -> (r: Result<usize, UserspaceError>)
    requires
        from_mem.wf(),
        old(to_mem).wf(),
        addr + size <= MAX_ADDRESS,
    ensures
        final(to_mem).wf(),
        match mapped_buffer(from_mem@, old(to_mem)@, addr as int, size as int, writable) {
            Ok(m) => r == Ok::<usize, UserspaceError>(m.to_addr as usize) && final(to_mem)@
                == m.to_mem && final(copies)@ == old(copies)@ + m.copies && m.to_addr + size
                <= MAX_ADDRESS && m.to_addr % PAGE_SIZE as int == addr % PAGE_SIZE && 0
                <= m.to_addr,
            Err(e) => r == Err::<usize, UserspaceError>(e) && final(to_mem)@ == old(to_mem)@
                && final(copies)@ == old(copies)@,
        },
{
    if addr == 0 {
        // null pointers are not mapped
        assert(copies@ + Seq::<CopyRequest>::empty() =~= copies@);
        return Ok(0);
    }
    let offset: usize = addr % PAGE_SIZE;
    proof {
        lemma_buffer_parts(addr as int, size as int);
    }
    if size + offset > USER_LAND_END {
        // no hole of userland is that large
        proof {
            lemma_no_space(to_mem@, page_ceil(size + offset));
        }
        return Err(UserspaceError::MemoryFull);
    }
    let span: usize = crate::mem::align_up(size + offset, PAGE_SIZE);
    let to_addr_full: usize = match to_mem.find_available_space(span) {
        Ok(found) => found.0,
        Err(err) => {
            return Err(UserspaceError::from(err));
        },
    };
    let to_addr: usize = to_addr_full + offset;
    let ghost to0 = to_mem@;
    proof {
        lemma_buffer_layout(addr as int, size as int, to_addr_full as int);
    }
    let mut local: Vec<CopyRequest> = Vec::new();
    let head: usize = head_size(addr, size);
    let tail: usize = tail_size(addr, size);
    let mut head_page: Option<usize> = None;
    let mut tail_page: Option<usize> = None;
    if head > 0 {
        // the first page is copied
        proof {
            lemma_room_for_head(to0, to_addr_full as int, span as int);
        }
        match copy_head(addr, size, writable, to_addr_full, from_mem, to_mem, &mut local) {
            Ok(()) => {},
            Err(err) => {
                return Err(err);
            },
        }
        head_page = Some(to_addr_full);
    }
    let ghost to1 = to_mem@;
    if tail > 0 {
        // the last page is copied
        let to_last_page: usize = crate::mem::round_to_page(to_addr + size);
        proof {
            let part = copy_page(to_last_page as int);
            if head > 0 {
                if range_free(to0, to_last_page as int, PAGE_SIZE as int) {
                    lemma_free_after_mapping(
                        to0,
                        copy_page(to_addr_full as int),
                        to_last_page as int,
                        PAGE_SIZE as int,
                    );
                }
            }
            lemma_room_for_part(to0, to1, to_addr_full as int, span as int, part);
        }
        match copy_tail(addr, size, writable, to_last_page, from_mem, to_mem, &mut local) {
            Ok(()) => {},
            Err(err) => {
                unmap_copy_pages(to_mem, None, head_page);
                return Err(err);
            },
        }
        tail_page = Some(to_last_page);
    }
    let ghost to2 = to_mem@;
    assert(local@ =~= buffer_copies(addr as int, to_addr as int, size as int));
    if size - head - tail != 0 {
        // the pages in the middle are shared
        proof {
            if can_share(from_mem@, addr as int, writable) {
                let part = shared_from(from_mem@, addr as int, to_addr as int, size as int);
                let dest = page_ceil(to_addr as int);
                let length = middle_len(addr as int, size as int);
                if range_free(to0, dest, length) {
                    if head > 0 {
                        lemma_free_after_mapping(to0, copy_page(to_addr_full as int), dest, length);
                    }
                    if tail > 0 {
                        lemma_free_after_mapping(
                            to1,
                            copy_page(page_floor(to_addr + size)),
                            dest,
                            length,
                        );
                    }
                }
                lemma_room_for_part(to0, to2, to_addr_full as int, span as int, part);
            }
        }
        match share_middle(addr, size, writable, to_addr, from_mem, to_mem) {
            Ok(()) => {},
            Err(err) => {
                unmap_copy_pages(to_mem, tail_page, head_page);
                return Err(err);
            },
        }
    }
    copies.append(&mut local);
    Ok(to_addr)
}

/// What a reply has to copy back and what it reports for a buffer: the
/// partial pages of a writable buffer go back to the sender, as far as the
/// sender still has them mapped. The report is that of the tail when the
/// buffer has one, that of the head otherwise.
pub open spec fn copied_back(to: Seq<Mapping>, buffer: Buffer) -> (Seq<CopyRequest>, Result<
    (),
    UserspaceError,
>) {
    let addr = buffer.dest_addr.0 as int;
    let source = buffer.source_addr.0 as int;
    let size = buffer.size as int;
    let head = head_len(addr, size);
    let tail = tail_len(addr, size);
    let head_verdict = mirror_verdict(to, source, head);
    let tail_verdict = mirror_verdict(to, page_floor(source + size), tail);
    let head_copy = if head > 0 && buffer.writable && head_verdict is Ok {
        seq![CopyRequest { from_addr: addr as usize, to_addr: source as usize, len: head as usize }]
    } else {
        Seq::<CopyRequest>::empty()
    };
    let copies = if tail > 0 && buffer.writable && tail_verdict is Ok {
        head_copy.push(
            CopyRequest {
                from_addr: page_floor(addr + size) as usize,
                to_addr: page_floor(source + size) as usize,
                len: tail as usize,
            },
        )
    } else {
        head_copy
    };
    let report = if addr == 0 || !buffer.writable {
        Ok(())
    } else if tail > 0 {
        if tail_verdict is Ok {
            Ok(())
        } else {
            Err(userspace_code(tail_verdict->Err_0))
        }
    } else if head > 0 && head_verdict is Err {
        Err(userspace_code(head_verdict->Err_0))
    } else {
        Ok(())
    };
    (if addr == 0 {
        Seq::<CopyRequest>::empty()
    } else {
        copies
    }, report)
}

/// Takes a buffer away from the receiver of a request, when the reply is
/// sent.
///
/// `from_mem` is the address space the buffer was mapped into, `to_mem` the
/// one it came from. The partial pages of a writable buffer are to be
/// copied back first; then every part that was mapped for the buffer is
/// unmapped. A part that is not mapped any more is passed over.
///
/// Fails with the error of the last copy that could not be made because
/// the sender has unmapped its end of the buffer; the parts are unmapped
/// all the same.
pub fn buf_unmap(
    buffer: &Buffer,
    from_mem: &mut ProcessMemory,
    to_mem: &ProcessMemory,
    copies: &mut Vec<CopyRequest>,
) -> (r: Result<(), UserspaceError>)
    requires
        buffer.wf(),
        old(from_mem).wf(),
        to_mem.wf(),
    ensures
        final(from_mem).wf(),
        final(from_mem)@ == without_buffer(
            old(from_mem)@,
            buffer.dest_addr.0 as int,
            buffer.size as int,
        ),
        final(copies)@ == old(copies)@ + copied_back(to_mem@, *buffer).0,
        r == copied_back(to_mem@, *buffer).1,
{
    let addr: usize = buffer.dest_addr.0;
    let size: usize = buffer.size;
    let to_addr: usize = buffer.source_addr.0;
    if addr == 0 {
        // a null buffer was never mapped
        assert(copies@ + Seq::<CopyRequest>::empty() =~= copies@);
        return Ok(());
    }
    proof {
        lemma_buffer_parts(addr as int, size as int);
        lemma_buffer_parts(to_addr as int, size as int);
        lemma_same_parts(addr as int, to_addr as int, size as int);
    }
    let head: usize = head_size(addr, size);
    let tail: usize = tail_size(addr, size);
    let mut result: Result<(), UserspaceError> = Ok(());
    let ghost before = copies@;
    if head > 0 && buffer.writable {
        // the first page is copied back, if the sender still has it
        result = match to_mem.mirror_mapping(VirtualAddress(to_addr), head) {
            Ok(_) => {
                copies.push(CopyRequest { from_addr: addr, to_addr, len: head });
                Ok(())
            },
            Err(err) => Err(UserspaceError::from(err)),
        };
    }
    if tail > 0 && buffer.writable {
        // the last page is copied back, if the sender still has it
        let last_page: usize = crate::mem::round_to_page(addr + size);
        let to_last_page: usize = crate::mem::round_to_page(to_addr + size);
        result = match to_mem.mirror_mapping(VirtualAddress(to_last_page), tail) {
            Ok(_) => {
                copies.push(CopyRequest { from_addr: last_page, to_addr: to_last_page, len: tail });
                Ok(())
            },
            Err(err) => Err(UserspaceError::from(err)),
        };
    }
    assert(copies@ =~= before + copied_back(to_mem@, *buffer).0);
    buf_release(buffer, from_mem);
    result
}

/// Unmaps every part that was mapped for a buffer: the shared pages, the
/// page of the tail, the page of the head. A part that is not mapped any
/// more is passed over; a null buffer has no parts.
pub fn buf_release(buffer: &Buffer, from_mem: &mut ProcessMemory)
    requires
        buffer.wf(),
        old(from_mem).wf(),
    ensures
        final(from_mem).wf(),
        final(from_mem)@ == without_buffer(
            old(from_mem)@,
            buffer.dest_addr.0 as int,
            buffer.size as int,
        ),
{
    let addr: usize = buffer.dest_addr.0;
    let size: usize = buffer.size;
    if addr == 0 {
        return ;
    }
    proof {
        lemma_buffer_parts(addr as int, size as int);
    }
    let head: usize = head_size(addr, size);
    let tail: usize = tail_size(addr, size);
    if size - head - tail > 0 {
        let _ = from_mem.unmap(
            VirtualAddress(crate::mem::align_up(addr, PAGE_SIZE)),
            size - head - tail,
        );
    }
    if tail > 0 {
        let _ = from_mem.unmap(VirtualAddress(crate::mem::round_to_page(addr + size)), PAGE_SIZE);
    }
    if head > 0 {
        let _ = from_mem.unmap(VirtualAddress(crate::mem::round_to_page(addr)), PAGE_SIZE);
    }
}

/// What was mapped for a buffer when the request was received is unmapped
/// when the reply is sent: if nothing else touched the receiver's address
/// space in between, it is left exactly as it was before the request.
pub proof fn law_reply_unmaps_what_receive_mapped(
    from: Seq<Mapping>,
    to: Seq<Mapping>,
    addr: int,
    size: int,
    writable: bool,
)
    requires
        mappings_wf(to),
        0 <= addr,
        0 <= size,
        addr + size <= MAX_ADDRESS,
        mapped_buffer(from, to, addr, size, writable) is Ok,
    ensures
        without_buffer(
            mapped_buffer(from, to, addr, size, writable)->Ok_0.to_mem,
            mapped_buffer(from, to, addr, size, writable)->Ok_0.to_addr,
            size,
        ) == to,
{
    if addr != 0 {
        let offset = addr % PAGE_SIZE as int;
        let span = page_ceil(size + offset);
        let base = lowest_space(to, span);
        let to_addr = base + offset;
        assert(has_space(to, span));
        lemma_lowest_exists(to, span);
        lemma_buffer_layout(addr, size, base);
        let head = copy_page(page_floor(to_addr));
        let tail = copy_page(page_floor(to_addr + size));
        let to1 = if head_len(addr, size) > 0 {
            with_mapping(to, head)
        } else {
            to
        };
        if head_len(addr, size) > 0 {
            lemma_room_for_head(to, base, span);
        }
        let to2 = if tail_len(addr, size) > 0 {
            with_mapping(to1, tail)
        } else {
            to1
        };
        if tail_len(addr, size) > 0 {
            if head_len(addr, size) > 0 {
                lemma_free_within(to, base, span, tail.address as int, PAGE_SIZE as int);
                lemma_free_after_mapping(to, head, tail.address as int, PAGE_SIZE as int);
            }
            lemma_room_for_part(to, to1, base, span, tail);
        }
        if middle_len(addr, size) > 0 {
            let part = shared_from(from, addr, to_addr, size);
            lemma_free_within(to, base, span, part.address as int, part.length as int);
            if head_len(addr, size) > 0 {
                lemma_free_after_mapping(to, head, part.address as int, part.length as int);
            }
            if tail_len(addr, size) > 0 {
                lemma_free_after_mapping(to1, tail, part.address as int, part.length as int);
            }
            lemma_room_for_part(to, to2, base, span, part);
        }
    }
}

/// Where there is room for a range there is a lowest place for it.
pub proof fn lemma_lowest_exists(mappings: Seq<Mapping>, len: int)
    requires
        has_space(mappings, len),
    ensures
        is_lowest_space(mappings, lowest_space(mappings, len), len),
{
    let some = choose|a: int| #[trigger] range_available(mappings, a, len);
    lemma_lowest_below(mappings, len, some, some - USER_LAND_START);
}

/// Among the addresses up to one that has room, one is the lowest with
/// room.
proof fn lemma_lowest_below(mappings: Seq<Mapping>, len: int, upto: int, steps: int)
    requires
        range_available(mappings, upto, len),
        steps == upto - USER_LAND_START,
    ensures
        is_lowest_space(mappings, lowest_space(mappings, len), len),
    decreases steps,
{
    if exists|lower: int| lower < upto && #[trigger] range_available(mappings, lower, len) {
        let lower = choose|lower: int| lower < upto && #[trigger] range_available(mappings, lower, len);
        lemma_lowest_below(mappings, len, lower, lower - USER_LAND_START);
    } else {
        assert(is_lowest_space(mappings, upto, len));
    }
}

/// The address an A, B or W descriptor at `off` names: the second word
/// holds its low 32 bits, bits 28 to 31 of the third word its bits 32 to
/// 35, bits 2 to 4 of the third word its bits 36 to 38.
pub open spec fn descriptor_addr(bytes: Seq<u8>, off: int) -> int {
    with_bit_range(
        with_bit_range(le_u32(bytes, off + 4), 32, 36, bit_range(le_u32(bytes, off + 8), 28, 32)),
        36,
        39,
        bit_range(le_u32(bytes, off + 8), 2, 5),
    )
}

/// The size an A, B or W descriptor at `off` names: the first word holds
/// its low 32 bits, bits 24 to 27 of the third word its bits 32 to 35.
pub open spec fn descriptor_size(bytes: Seq<u8>, off: int) -> int {
    with_bit_range(le_u32(bytes, off), 32, 36, bit_range(le_u32(bytes, off + 8), 24, 28))
}

/// The type bits of an A, B or W descriptor at `off`: bits 0 and 1 of the
/// third word.
pub open spec fn descriptor_flags(bytes: Seq<u8>, off: int) -> int {
    bit_range(le_u32(bytes, off + 8), 0, 2)
}

/// The third word of the descriptor the receiver gets: the type bits of the
/// sender, and the high bits of the address and size in the receiver.
pub open spec fn descriptor_rest(flags: int, to_addr: int, size: int) -> int {
    with_bit_range(
        with_bit_range(
            with_bit_range(with_bit_range(0, 0, 2, flags), 2, 5, bit_range(to_addr, 36, 39)),
            24,
            28,
            bit_range(size, 32, 36),
        ),
        28,
        32,
        bit_range(to_addr, 32, 36),
    )
}

/// What the check of the address and size of a descriptor comes to: both
/// must lie in the 32-bit address space, and so must the end of the range.
pub open spec fn range_verdict(addr: int, size: int) -> Result<(), UserspaceError> {
    if addr > MAX_ADDRESS {
        Err(UserspaceError::InvalidAddress)
    } else if size > MAX_ADDRESS {
        Err(UserspaceError::InvalidSize)
    } else if addr + size > MAX_ADDRESS {
        Err(UserspaceError::InvalidSize)
    } else {
        Ok(())
    }
}

/// What passing the A, B or W descriptor at `off` comes to: the error, or
/// the buffer as it is mapped into the receiver.
pub open spec fn buffer_passed(
    from_buf: Seq<u8>,
    off: int,
    from: Seq<Mapping>,
    to: Seq<Mapping>,
    writable: bool,
) -> Result<BufferMapping, UserspaceError> {
    let addr = descriptor_addr(from_buf, off);
    let size = descriptor_size(from_buf, off);
    if range_verdict(addr, size) is Err {
        Err(range_verdict(addr, size)->Err_0)
    } else {
        mapped_buffer(from, to, addr, size, writable)
    }
}

/// The message of the receiver with the descriptor at `off` rewritten for a
/// buffer mapped at `to_addr`: the size is kept, the address is the one in
/// the receiver, the type bits are kept.
pub open spec fn descriptor_written(to_buf: Seq<u8>, from_buf: Seq<u8>, off: int, to_addr: int) -> Seq<
    u8,
> {
    patched(
        patched(
            patched(to_buf, off, u32_le_bytes(le_u32(from_buf, off))),
            off + 4,
            u32_le_bytes(to_addr % 0x1_0000_0000),
        ),
        off + 8,
        u32_le_bytes(
            descriptor_rest(
                descriptor_flags(from_buf, off),
                to_addr,
                descriptor_size(from_buf, off),
            ),
        ),
    )
}

/// Checks that a 64-bit value from a message lies in the 32-bit address
/// space.
pub fn check_lower_than_usize(val: u64, err: UserspaceError) -> (r: Result<(), UserspaceError>)
    ensures
        r == (if val <= MAX_ADDRESS {
            Ok::<(), UserspaceError>(())
        } else {
            Err::<(), UserspaceError>(err)
        }),
{
    if val <= MAX_ADDRESS {
        Ok(())
    } else {
        Err(err)
    }
}

/// Passes one A, B or W descriptor: the buffer it names in the sender is
/// mapped into the receiver, the descriptor is rewritten for the receiver,
/// and the buffer is recorded so that the reply can take it away again.
///
/// The descriptor is read from `from_buf` at `curoff` and written to
/// `to_buf` at the same place; `curoff` then moves past it. Fails with
/// `InvalidAddress` or `InvalidSize` when the range does not lie in the
/// 32-bit address space, and as mapping the buffer does. On failure nothing
/// is changed.
pub fn buf_map(
    from_buf: &[u8],
    to_buf: &mut Vec<u8>,
    curoff: &mut usize,
    from_mem: &ProcessMemory,
    to_mem: &mut ProcessMemory,
    flags: MappingAccessRights,
    buffers: &mut Vec<Buffer>,
    copies: &mut Vec<CopyRequest>,
) -> (r: Result<(), UserspaceError>)
    requires
        from_mem.wf(),
        old(to_mem).wf(),
        *old(curoff) + 12 <= from_buf@.len(),
        *old(curoff) + 12 <= old(to_buf)@.len(),
    ensures
        final(to_mem).wf(),
        final(to_buf)@.len() == old(to_buf)@.len(),
        match buffer_passed(
            from_buf@,
            *old(curoff) as int,
            from_mem@,
            old(to_mem)@,
            flags.writable,
        ) {
            Ok(m) => {
                &&& r == Ok::<(), UserspaceError>(())
                &&& *final(curoff) == *old(curoff) + 12
                &&& final(to_mem)@ == m.to_mem
                &&& final(copies)@ == old(copies)@ + m.copies
                &&& final(to_buf)@ == descriptor_written(
                    old(to_buf)@,
                    from_buf@,
                    *old(curoff) as int,
                    m.to_addr,
                )
                &&& final(buffers)@ == old(buffers)@.push(
                    Buffer {
                        writable: flags.writable,
                        source_addr: VirtualAddress(
                            descriptor_addr(from_buf@, *old(curoff) as int) as usize,
                        ),
                        dest_addr: VirtualAddress(m.to_addr as usize),
                        size: descriptor_size(from_buf@, *old(curoff) as int) as usize,
                    },
                )
                &&& final(buffers)@.last().wf()
            },
            Err(e) => {
                &&& r == Err::<(), UserspaceError>(e)
                &&& *final(curoff) == *old(curoff)
                &&& final(to_mem)@ == old(to_mem)@
                &&& final(copies)@ == old(copies)@
                &&& final(to_buf)@ == old(to_buf)@
                &&& final(buffers)@ == old(buffers)@
            },
        },
{
    let off: usize = *curoff;
    let len: usize = from_buf.len();
    assert(off + 12 <= len);
    let (addr, size, bufflags) = match read_descriptor(from_buf, off) {
        Ok(read) => read,
        Err(err) => {
            return Err(err);
        },
    };
    let to_addr: usize = match map_buffer(addr, size, flags.writable, from_mem, to_mem, copies) {
        Ok(to_addr) => to_addr,
        Err(err) => {
            return Err(err);
        },
    };
    write_descriptor(from_buf, to_buf, off, to_addr, size, bufflags);
    buffers.push(
        Buffer {
            writable: flags.writable,
            source_addr: VirtualAddress(addr),
            dest_addr: VirtualAddress(to_addr),
            size,
        },
    );
    *curoff = off + 12;
    Ok(())
}

/// Reads the address, the size and the type bits of the A, B or W
/// descriptor at `off`, and checks that the range it names lies in the
/// 32-bit address space.
fn read_descriptor(from_buf: &[u8], off: usize) -> (r: Result<(usize, usize, u64), UserspaceError>)
    requires
        off + 12 <= from_buf@.len(),
    ensures
        r is Ok <==> range_verdict(descriptor_addr(from_buf@, off as int), descriptor_size(from_buf@, off as int)) is Ok,
        r is Err ==> r->Err_0 == range_verdict(
            descriptor_addr(from_buf@, off as int),
            descriptor_size(from_buf@, off as int),
        )->Err_0,
        r is Ok ==> {
            &&& r->Ok_0.0 == descriptor_addr(from_buf@, off as int)
            &&& r->Ok_0.1 == descriptor_size(from_buf@, off as int)
            &&& r->Ok_0.2 == descriptor_flags(from_buf@, off as int)
            &&& r->Ok_0.0 + r->Ok_0.1 <= MAX_ADDRESS
            &&& r->Ok_0.2 < 4
        },
{
    let len: usize = from_buf.len();
    assert(off + 12 <= len);
    let lowersize: u32 = read_u32_le(from_buf, off);
    let loweraddr: u32 = read_u32_le(from_buf, off + 4);
    let rest: u32 = read_u32_le(from_buf, off + 8);
    proof {
        lemma2_to64();
        lemma2_to64_rest();
        lemma_bit_range_bound(rest as int, 0, 2);
        lemma_bit_range_bound(rest as int, 28, 32);
        lemma_bit_range_bound(rest as int, 2, 5);
        lemma_bit_range_bound(rest as int, 24, 28);
    }
    let bufflags: u64 = get_bits_u64(rest as u64, 0, 2);
    let addr_low: u64 = set_bits_u64(loweraddr as u64, 32, 36, get_bits_u64(rest as u64, 28, 32));
    let addr: u64 = set_bits_u64(addr_low, 36, 39, get_bits_u64(rest as u64, 2, 5));
    let size: u64 = set_bits_u64(lowersize as u64, 32, 36, get_bits_u64(rest as u64, 24, 28));
    // a 64-bit address on a 32-bit kernel
    match check_lower_than_usize(addr, UserspaceError::InvalidAddress) {
        Ok(()) => {},
        Err(err) => {
            return Err(err);
        },
    }
    match check_lower_than_usize(size, UserspaceError::InvalidSize) {
        Ok(()) => {},
        Err(err) => {
            return Err(err);
        },
    }
    match check_lower_than_usize(addr.saturating_add(size), UserspaceError::InvalidSize) {
        Ok(()) => {},
        Err(err) => {
            return Err(err);
        },
    }
    Ok((addr as usize, size as usize, bufflags))
}

/// Writes the descriptor the receiver gets for a buffer mapped at
/// `to_addr`: the size as the sender gave it, the address in the receiver,
/// and the type bits of the sender.
fn write_descriptor(
    from_buf: &[u8],
    to_buf: &mut Vec<u8>,
    off: usize,
    to_addr: usize,
    size: usize,
    bufflags: u64,
)
    requires
        off + 12 <= from_buf@.len(),
        off + 12 <= old(to_buf)@.len(),
        to_addr + size <= MAX_ADDRESS,
        size == descriptor_size(from_buf@, off as int),
        bufflags == descriptor_flags(from_buf@, off as int),
        bufflags < 4,
    ensures
        final(to_buf)@.len() == old(to_buf)@.len(),
        final(to_buf)@ == descriptor_written(old(to_buf)@, from_buf@, off as int, to_addr as int),
{
    let len: usize = from_buf.len();
    assert(off + 12 <= len);
    let lowersize: u32 = read_u32_le(from_buf, off);
    proof {
        lemma2_to64();
        lemma2_to64_rest();
        lemma_bit_range_bound(to_addr as int, 36, 39);
        lemma_bit_range_bound(to_addr as int, 32, 36);
        lemma_bit_range_bound(size as int, 32, 36);
    }
    let loweraddr: u32 = to_addr as u32;
    let rest0: u64 = set_bits_u64(0, 0, 2, bufflags);
    let rest1: u64 = set_bits_u64(rest0, 2, 5, get_bits_u64(to_addr as u64, 36, 39));
    let rest2: u64 = set_bits_u64(rest1, 24, 28, get_bits_u64(size as u64, 32, 36));
    let rest3: u64 = set_bits_u64(rest2, 28, 32, get_bits_u64(to_addr as u64, 32, 36));
    let rest: u32 = rest3 as u32;
    write_u32_le(to_buf, off, lowersize);
    write_u32_le(to_buf, off + 4, loweraddr);
    write_u32_le(to_buf, off + 8, rest);
}

} // verus!
