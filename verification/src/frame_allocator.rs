//! The physical frame allocator.
//!
//! One bit per physical frame records whether the frame is free. Allocation
//! hands out [`PhysicalMemRegion`]s, runs of adjacent frames; giving a region
//! back marks its frames free again. Reserved and allocated frames are not
//! told apart: both are simply not free.

use crate::bits::bit_at;
use crate::bits::bit_length;
use crate::bits::get_bit;
use crate::bits::lemma_zero_byte_clear;
use crate::bits::set_bit;
use crate::bits::set_bits_area;
use crate::bits::lemma_set_bit_at;
use crate::error::KernelError;
use crate::mem::check_nonzero_length;
use crate::mem::check_size_aligned;
use crate::mem::round_to_page;
use crate::mem::round_to_page_upper;
use crate::mem::spec_align_down;
use crate::mem::spec_align_up;
use crate::mem::PhysicalAddress;
use crate::mem::PAGE_SIZE;
use vstd::prelude::*;

verus! {

/// In the bitmap, a set bit means the frame is free.
pub const FRAME_FREE: bool = true;

/// In the bitmap, a clear bit means the frame is occupied or reserved.
pub const FRAME_OCCUPIED: bool = false;

/// The number of bitmap bytes that cover a 32-bit physical address space.
pub const FRAMES_BITMAP_SIZE: usize = 131072;

/// The frame that holds a physical address.
pub fn addr_to_frame(addr: usize) -> (frame: usize)
    ensures
        frame == addr / PAGE_SIZE,
{
    addr / PAGE_SIZE
}

/// The physical address at which a frame starts.
pub fn frame_to_addr(frame: usize) -> (addr: usize)
    requires
        frame * PAGE_SIZE <= usize::MAX,
    ensures
        addr == frame * PAGE_SIZE,
{
    frame * PAGE_SIZE
}

/// Whether the `n` frames from `start` on all lie inside the map and are free.
pub open spec fn is_hole(free: Seq<bool>, start: int, n: int) -> bool {
    &&& 0 <= start
    &&& start + n <= free.len()
    &&& forall|f: int| start <= f < start + n ==> free[f]
}

/// Whether some run of `n` free frames exists.
pub open spec fn has_hole(free: Seq<bool>, n: int) -> bool {
    exists|s: int| #[trigger] is_hole(free, s, n)
}

/// Whether `start` begins the lowest run of `n` free frames.
pub open spec fn is_lowest_hole(free: Seq<bool>, start: int, n: int) -> bool {
    &&& is_hole(free, start, n)
    &&& forall|s: int| 0 <= s < start ==> !#[trigger] is_hole(free, s, n)
}

/// The map `free` with the frames of `start..end` set to `value`.
pub open spec fn with_range(free: Seq<bool>, start: int, end: int, value: bool) -> Seq<bool> {
    Seq::new(
        free.len(),
        |f: int|
            if start <= f < end {
                value
            } else {
                free[f]
            },
    )
}

/// The number of free frames among the first `upto` frames.
pub open spec fn free_below(free: Seq<bool>, upto: int) -> nat
    decreases upto,
{
    if upto <= 0 {
        0
    } else {
        free_below(free, upto - 1) + if free[upto - 1] {
            1nat
        } else {
            0nat
        }
    }
}

/// The number of occupied frames in the whole map.
pub open spec fn occupied_frames(free: Seq<bool>) -> int {
    free.len() - free_below(free, free.len() as int)
}

/// Counting free frames up to a later frame adds at most one per frame.
pub proof fn lemma_free_below_step(free: Seq<bool>, a: int, b: int)
    requires
        0 <= a <= b,
    ensures
        free_below(free, a) <= free_below(free, b) <= free_below(free, a) + (b - a),
    decreases b - a,
{
    if a < b {
        lemma_free_below_step(free, a, b - 1);
    }
}

/// Setting a range of frames that all had the opposite state moves the
/// number of free frames by the length of the range.
pub proof fn lemma_free_below_with_range(
    free: Seq<bool>,
    start: int,
    end: int,
    value: bool,
    upto: int,
)
    requires
        0 <= start <= end <= free.len(),
        0 <= upto <= free.len(),
        forall|f: int| start <= f < end ==> free[f] == !value,
    ensures
        free_below(with_range(free, start, end, value), upto) == free_below(free, upto) + (if upto
            <= start {
            0
        } else if upto <= end {
            if value {
                upto - start
            } else {
                start - upto
            }
        } else {
            if value {
                end - start
            } else {
                start - end
            }
        }),
    decreases upto,
{
    if upto > 0 {
        lemma_free_below_with_range(free, start, end, value, upto - 1);
    }
}

/// A run of physically adjacent frames.
///
/// An owning region stands for frames that are marked occupied on its behalf;
/// they are marked free again when the region is given back.
#[derive(Debug)]
pub struct PhysicalMemRegion {
    start_addr: usize,
    frames: usize,
    should_free_on_drop: bool,
}

impl PhysicalMemRegion {
    /// The frame at which the region starts.
    pub closed spec fn base_frame(&self) -> int {
        self.start_addr as int / PAGE_SIZE as int
    }

    /// The number of frames in the region.
    pub closed spec fn frame_count(&self) -> int {
        self.frames as int
    }

    /// The frame just past the region.
    pub open spec fn end_frame(&self) -> int {
        self.base_frame() + self.frame_count()
    }

    /// Whether giving the region back frees its frames.
    pub closed spec fn owning(&self) -> bool {
        self.should_free_on_drop
    }

    /// The region starts on a frame boundary and its size in bytes fits a
    /// machine word.
    pub closed spec fn wf(&self) -> bool {
        &&& self.start_addr as int % PAGE_SIZE as int == 0
        &&& self.frames * PAGE_SIZE <= usize::MAX
    }

    /// Whether frame `f` belongs to the region.
    pub open spec fn contains(&self, f: int) -> bool {
        self.base_frame() <= f < self.end_frame()
    }

    /// The physical address of the first byte.
    pub fn address(&self) -> (r: PhysicalAddress)
        requires
            self.wf(),
        ensures
            r.0 == self.base_frame() * PAGE_SIZE,
    {
        PhysicalAddress(self.start_addr)
    }

    /// The size in bytes.
    pub fn size(&self) -> (r: usize)
        requires
            self.wf(),
        ensures
            r == self.frame_count() * PAGE_SIZE,
    {
        self.frames * PAGE_SIZE
    }

    /// The number of frames.
    pub fn frames(&self) -> (r: usize)
        ensures
            r == self.frame_count(),
    {
        self.frames
    }

    /// Ends the life of the region. An owning region gives its frames back
    /// to the allocator; one that does not own its frames changes nothing.
    pub fn release(self, allocator: &mut FrameAllocatori386)
        requires
            old(allocator).is_initialized(),
            self.wf(),
            self.owning() && self.frame_count() > 0 ==> self.end_frame() <= old(allocator)@.len(),
            self.owning() ==> forall|f: int| self.contains(f) ==> !old(allocator)@[f],
        ensures
            final(allocator)@ == (if self.owning() {
                with_range(old(allocator)@, self.base_frame(), self.end_frame(), FRAME_FREE)
            } else {
                old(allocator)@
            }),
            final(allocator).wf() == old(allocator).wf(),
            final(allocator).is_initialized(),
    {
        if self.should_free_on_drop {
            FrameAllocator::free_region(allocator, &self);
        }
    }
}

/// The frames held by a list of regions, taken together.
pub open spec fn total_frames(regions: Seq<PhysicalMemRegion>) -> int
    decreases regions.len(),
{
    if regions.len() == 0 {
        0
    } else {
        total_frames(regions.drop_last()) + regions.last().frame_count()
    }
}

/// Whether frame `f` lies in one of the first `k` regions.
pub open spec fn covered(regions: Seq<PhysicalMemRegion>, k: int, f: int) -> bool {
    exists|i: int| 0 <= i < k && i < regions.len() && #[trigger] regions[i].contains(f)
}

/// Whether the regions are exactly the runs of frames that are free in
/// `free` below frame `upto`: each is a non-empty owning run of free frames,
/// they come in ascending order with at least one frame between two of
/// them, and no free frame below `upto` is left out.
pub open spec fn claims_free_below(
    regions: Seq<PhysicalMemRegion>,
    free: Seq<bool>,
    upto: int,
) -> bool {
    &&& upto <= free.len()
    &&& forall|i: int|
        0 <= i < regions.len() ==> {
            let r = #[trigger] regions[i];
            &&& r.wf()
            &&& r.owning()
            &&& r.frame_count() > 0
            &&& 0 <= r.base_frame()
            &&& r.end_frame() <= upto
            &&& forall|f: int| r.contains(f) ==> free[f]
        }
    &&& forall|i: int, j: int|
        0 <= i < j < regions.len() ==> (#[trigger] regions[i]).end_frame() < (
        #[trigger] regions[j]).base_frame()
    &&& forall|f: int| 0 <= f < upto && free[f] ==> #[trigger] covered(regions, regions.len() as int, f)
}

/// The frames of `free` that stay free once every frame below `upto` is
/// taken.
pub open spec fn taken_below(free: Seq<bool>, upto: int) -> Seq<bool> {
    Seq::new(free.len(), |f: int| free[f] && f >= upto)
}

/// The allocator's state: the frame bitmap and whether it was set up.
pub struct FrameAllocatori386 {
    /// One bit per frame: 1 is free, 0 is allocated or reserved, so that a
    /// zeroed bitmap reserves everything.
    memory_bitmap: Vec<u8>,
    /// Set once the memory map was applied.
    initialized: bool,
}

impl View for FrameAllocatori386 {
    type V = Seq<bool>;

    /// For every frame, whether it is free.
    closed spec fn view(&self) -> Seq<bool> {
        Seq::new((self.memory_bitmap@.len() * 8) as nat, |f: int| bit_at(self.memory_bitmap@, f))
    }
}

impl FrameAllocatori386 {
    /// Whether the allocator was set up and may serve requests.
    pub closed spec fn is_initialized(&self) -> bool {
        self.initialized
    }

    /// The address of every frame fits a machine word.
    pub closed spec fn wf(&self) -> bool {
        self.memory_bitmap@.len() * 8 * PAGE_SIZE <= usize::MAX + 1
    }

    /// An allocator for a 32-bit physical address space, every frame
    /// reserved, not yet initialized.
    pub fn new() -> (r: Self)
        ensures
            r.wf(),
            !r.is_initialized(),
            r@.len() == FRAMES_BITMAP_SIZE * 8,
            forall|f: int| 0 <= f < r@.len() ==> !r@[f],
    {
        Self::with_bitmap_size(FRAMES_BITMAP_SIZE)
    }

    /// An allocator whose bitmap has `bytes` bytes, every frame reserved, not
    /// yet initialized.
    pub fn with_bitmap_size(bytes: usize) -> (r: Self)
        requires
            bytes * 8 * PAGE_SIZE <= usize::MAX + 1,
        ensures
            r.wf(),
            !r.is_initialized(),
            r@.len() == bytes * 8,
            forall|f: int| 0 <= f < r@.len() ==> !r@[f],
    {
        let mut memory_bitmap: Vec<u8> = Vec::new();
        let mut i: usize = 0;
        while i < bytes
            invariant
                i <= bytes,
                memory_bitmap@.len() == i,
                forall|k: int| 0 <= k < i ==> memory_bitmap@[k] == 0u8,
            decreases bytes - i,
        {
            memory_bitmap.push(0x00);
            i = i + 1;
        }
        let r = FrameAllocatori386 { memory_bitmap, initialized: false };
        proof {
            assert forall|f: int| 0 <= f < r@.len() implies !r@[f] by {
                lemma_zero_byte_clear((f % 8) as u8);
            }
        }
        r
    }

    /// The number of frames the bitmap covers.
    pub fn frame_count(&self) -> (r: usize)
        requires
            self.wf(),
        ensures
            r == self@.len(),
    {
        bit_length(&self.memory_bitmap)
    }

    /// Whether a frame is free.
    pub fn frame_is_free(&self, frame: usize) -> (r: bool)
        requires
            frame < self@.len(),
        ensures
            r == self@[frame as int],
    {
        get_bit(&self.memory_bitmap, frame) == FRAME_FREE
    }

    /// Whether the allocator was initialized.
    pub fn initialized(&self) -> (r: bool)
        ensures
            r == self.is_initialized(),
    {
        self.initialized
    }

    /// Declares the memory map applied: from now on the allocator serves
    /// requests.
    pub fn mark_initialized(&mut self)
        ensures
            final(self)@ == old(self)@,
            final(self).wf() == old(self).wf(),
            final(self).is_initialized(),
    {
        self.initialized = true;
    }

    /// Marks one frame free or occupied.
    fn set_frame(&mut self, frame: usize, value: bool)
        requires
            frame < old(self)@.len(),
        ensures
            final(self)@ == old(self)@.update(frame as int, value),
            final(self).wf() == old(self).wf(),
            final(self).is_initialized() == old(self).is_initialized(),
    {
        let ghost before = self.memory_bitmap@;
        set_bit(&mut self.memory_bitmap, frame, value);
        proof {
            assert forall|f: int| 0 <= f < old(self)@.len() implies self@[f] == old(self)@.update(
                frame as int,
                value,
            )[f] by {
                lemma_set_bit_at(before, frame as int, value, f);
            }
            assert(self@ =~= old(self)@.update(frame as int, value));
        }
    }

    /// Marks every frame of `start..end` free or occupied.
    fn set_frames(&mut self, start: usize, end: usize, value: bool)
        requires
            end <= old(self)@.len(),
        ensures
            final(self)@ == with_range(old(self)@, start as int, end as int, value),
            final(self).wf() == old(self).wf(),
            final(self).is_initialized() == old(self).is_initialized(),
    {
        set_bits_area(&mut self.memory_bitmap, start, end, value);
        assert(self@ =~= with_range(old(self)@, start as int, end as int, value));
    }
}

/// Marks a physical memory area as reserved, so that no frame of it is ever
/// handed out. The area is widened to whole frames. Frames that were
/// reserved already stay so.
pub fn mark_area_reserved(allocator: &mut FrameAllocatori386, start_addr: usize, end_addr: usize)
    requires
        spec_align_up(end_addr as int, PAGE_SIZE as int) / (PAGE_SIZE as int) <= old(allocator)@.len(),
        spec_align_up(end_addr as int, PAGE_SIZE as int) <= usize::MAX,
    ensures
        final(allocator)@ == with_range(
            old(allocator)@,
            spec_align_down(start_addr as int, PAGE_SIZE as int) / (PAGE_SIZE as int),
            spec_align_up(end_addr as int, PAGE_SIZE as int) / (PAGE_SIZE as int),
            FRAME_OCCUPIED,
        ),
        final(allocator).wf() == old(allocator).wf(),
        final(allocator).is_initialized() == old(allocator).is_initialized(),
{
    let start: usize = addr_to_frame(round_to_page(start_addr));
    let end: usize = addr_to_frame(round_to_page_upper(end_addr));
    allocator.set_frames(start, end, FRAME_OCCUPIED);
}

/// Marks a physical memory area as free for allocation. The area is narrowed
/// to the whole frames inside it.
pub fn mark_area_free(allocator: &mut FrameAllocatori386, start_addr: usize, end_addr: usize)
    requires
        end_addr as int / (PAGE_SIZE as int) <= old(allocator)@.len(),
        spec_align_up(start_addr as int, PAGE_SIZE as int) <= usize::MAX,
    ensures
        final(allocator)@ == with_range(
            old(allocator)@,
            spec_align_up(start_addr as int, PAGE_SIZE as int) / (PAGE_SIZE as int),
            spec_align_down(end_addr as int, PAGE_SIZE as int) / (PAGE_SIZE as int),
            FRAME_FREE,
        ),
        final(allocator).wf() == old(allocator).wf(),
        final(allocator).is_initialized() == old(allocator).is_initialized(),
{
    let start: usize = addr_to_frame(round_to_page_upper(start_addr));
    let end: usize = addr_to_frame(round_to_page(end_addr));
    allocator.set_frames(start, end, FRAME_FREE);
}

/// Marks one free frame as allocated by the bootstrap. Used while the
/// allocator is being set up, for the frames the kernel already sits in.
pub fn mark_frame_bootstrap_allocated(allocator: &mut FrameAllocatori386, addr: PhysicalAddress)
    requires
        addr.0 % PAGE_SIZE == 0,
        frame_of(addr) < old(allocator)@.len(),
        old(allocator)@[frame_of(addr)],
    ensures
        final(allocator)@ == old(allocator)@.update(frame_of(addr), FRAME_OCCUPIED),
        final(allocator).wf() == old(allocator).wf(),
        final(allocator).is_initialized() == old(allocator).is_initialized(),
{
    let bit: usize = addr_to_frame(addr.addr());
    allocator.set_frame(bit, FRAME_OCCUPIED);
}

/// An entry of the memory map the boot loader hands over.
#[derive(Clone, Copy, Debug)]
pub struct MemoryArea {
    /// The address of the first byte.
    pub start_address: u64,
    /// The address just past the last byte.
    pub end_address: u64,
    /// The kind of memory; [`MEMORY_AVAILABLE`] is usable RAM.
    pub memory_type: u32,
}

/// A module the boot loader placed in memory.
#[derive(Clone, Copy, Debug)]
pub struct BootModule {
    /// The address of the first byte.
    pub start_address: u32,
    /// The address just past the last byte.
    pub end_address: u32,
}

/// The memory type of usable RAM in the boot memory map.
pub const MEMORY_AVAILABLE: u32 = 1;

/// Whether an area of the memory map is looked at: areas that reach beyond
/// the 32-bit address space are skipped.
pub open spec fn area_considered(area: MemoryArea) -> bool {
    area.start_address <= 0xFFFF_FFFF && area.end_address <= 0xFFFF_FFFF
}

/// The first frame of the range `mark_area_reserved` marks.
pub open spec fn reserved_start(start_addr: int) -> int {
    spec_align_down(start_addr, PAGE_SIZE as int) / (PAGE_SIZE as int)
}

/// The frame just past the range `mark_area_reserved` marks.
pub open spec fn reserved_end(end_addr: int) -> int {
    spec_align_up(end_addr, PAGE_SIZE as int) / (PAGE_SIZE as int)
}

/// The map after one area of the memory map was applied: usable RAM frees
/// the whole frames inside the area, anything else reserves every frame the
/// area touches.
pub open spec fn apply_area(free: Seq<bool>, area: MemoryArea) -> Seq<bool> {
    if !area_considered(area) {
        free
    } else if area.memory_type == MEMORY_AVAILABLE {
        with_range(
            free,
            reserved_end(area.start_address as int),
            reserved_start(area.end_address as int),
            FRAME_FREE,
        )
    } else {
        with_range(
            free,
            reserved_start(area.start_address as int),
            reserved_end(area.end_address as int),
            FRAME_OCCUPIED,
        )
    }
}

/// The map after the areas were applied in order.
pub open spec fn apply_areas(free: Seq<bool>, areas: Seq<MemoryArea>) -> Seq<bool>
    decreases areas.len(),
{
    if areas.len() == 0 {
        free
    } else {
        apply_area(apply_areas(free, areas.drop_last()), areas.last())
    }
}

/// The frame that holds a physical address.
pub open spec fn frame_of(addr: PhysicalAddress) -> int {
    (addr.0 as int) / (PAGE_SIZE as int)
}

/// The map after the frames at the given addresses were taken.
pub open spec fn apply_bootstrap_frames(free: Seq<bool>, frames: Seq<PhysicalAddress>) -> Seq<bool>
    decreases frames.len(),
{
    if frames.len() == 0 {
        free
    } else {
        apply_bootstrap_frames(free, frames.drop_last()).update(
            frame_of(frames.last()),
            FRAME_OCCUPIED,
        )
    }
}

/// Whether each of the addresses names a frame of the map that is still free
/// when its turn comes.
pub open spec fn bootstrap_frames_free(free: Seq<bool>, frames: Seq<PhysicalAddress>) -> bool
    decreases frames.len(),
{
    if frames.len() == 0 {
        true
    } else {
        &&& bootstrap_frames_free(free, frames.drop_last())
        &&& (frames.last().0 as int) % (PAGE_SIZE as int) == 0
        &&& frame_of(frames.last()) < free.len()
        &&& apply_bootstrap_frames(free, frames.drop_last())[frame_of(frames.last())]
    }
}

/// The map after every frame touched by one of the modules was reserved.
pub open spec fn apply_modules(free: Seq<bool>, modules: Seq<BootModule>) -> Seq<bool>
    decreases modules.len(),
{
    if modules.len() == 0 {
        free
    } else {
        with_range(
            apply_modules(free, modules.drop_last()),
            reserved_start(modules.last().start_address as int),
            reserved_end(modules.last().end_address as int),
            FRAME_OCCUPIED,
        )
    }
}

/// Whether the range `start_addr..end_addr`, widened to whole frames, lies
/// inside a map of `frames` frames and below the top of the address space.
pub open spec fn range_in_map(start_addr: int, end_addr: int, frames: int) -> bool {
    &&& spec_align_up(start_addr, PAGE_SIZE as int) <= usize::MAX
    &&& spec_align_up(end_addr, PAGE_SIZE as int) <= usize::MAX
    &&& reserved_end(end_addr) <= frames
}

/// Whether the allocator can be set up from what the boot loader reports:
/// the map has a frame, every area that is looked at and every module lies
/// inside the map, and each frame the kernel is mapped on is a frame of the
/// map that is still free when its turn comes.
pub open spec fn init_possible(
    free: Seq<bool>,
    memory_areas: Seq<MemoryArea>,
    kernel_frames: Seq<PhysicalAddress>,
    modules: Seq<BootModule>,
) -> bool {
    &&& free.len() >= 1
    &&& forall|i: int|
        0 <= i < memory_areas.len() && area_considered(#[trigger] memory_areas[i]) ==> range_in_map(
            memory_areas[i].start_address as int,
            memory_areas[i].end_address as int,
            free.len() as int,
        )
    &&& forall|i: int|
        0 <= i < modules.len() ==> range_in_map(
            (#[trigger] modules[i]).start_address as int,
            modules[i].end_address as int,
            free.len() as int,
        )
    &&& bootstrap_frames_free(apply_areas(free, memory_areas), kernel_frames)
}

/// The map once the allocator was set up: the areas applied, the frames of
/// the kernel taken, the modules reserved, and the very first frame
/// reserved.
pub open spec fn initialized_map(
    free: Seq<bool>,
    memory_areas: Seq<MemoryArea>,
    kernel_frames: Seq<PhysicalAddress>,
    modules: Seq<BootModule>,
) -> Seq<bool> {
    with_range(
        apply_modules(
            apply_bootstrap_frames(apply_areas(free, memory_areas), kernel_frames),
            modules,
        ),
        0,
        1,
        FRAME_OCCUPIED,
    )
}

/// Whether the range `start_addr..end_addr`, widened to whole frames, lies
/// inside a map of `frames` frames.
fn range_fits(start_addr: usize, end_addr: usize, frames: usize) -> (r: bool)
    requires
        frames * PAGE_SIZE <= usize::MAX + 1,
    ensures
        r == range_in_map(start_addr as int, end_addr as int, frames as int),
{
    if start_addr % PAGE_SIZE != 0 && start_addr > usize::MAX - PAGE_SIZE {
        return false;
    }
    if end_addr % PAGE_SIZE != 0 && end_addr > usize::MAX - PAGE_SIZE {
        return false;
    }
    addr_to_frame(round_to_page_upper(end_addr)) <= frames
}

/// Applies the areas of the memory map in order.
fn mark_memory_areas(allocator: &mut FrameAllocatori386, memory_areas: &Vec<MemoryArea>)
    requires
        old(allocator).wf(),
        forall|i: int|
            0 <= i < memory_areas@.len() && area_considered(#[trigger] memory_areas@[i])
                ==> range_in_map(
                memory_areas@[i].start_address as int,
                memory_areas@[i].end_address as int,
                old(allocator)@.len() as int,
            ),
    ensures
        final(allocator).wf(),
        final(allocator).is_initialized() == old(allocator).is_initialized(),
        final(allocator)@.len() == old(allocator)@.len(),
        final(allocator)@ == apply_areas(old(allocator)@, memory_areas@),
{
    let ghost total = allocator@.len();
    let mut i: usize = 0;
    while i < memory_areas.len()
        invariant
            i <= memory_areas@.len(),
            allocator.wf(),
            allocator.is_initialized() == old(allocator).is_initialized(),
            allocator@.len() == total,
            total == old(allocator)@.len(),
            forall|i: int|
                0 <= i < memory_areas@.len() && area_considered(#[trigger] memory_areas@[i])
                    ==> range_in_map(
                    memory_areas@[i].start_address as int,
                    memory_areas@[i].end_address as int,
                    total as int,
                ),
            allocator@ == apply_areas(old(allocator)@, memory_areas@.take(i as int)),
        decreases memory_areas@.len() - i,
    {
        let memarea = memory_areas[i];
        proof {
            assert(memory_areas@.take(i + 1).drop_last() =~= memory_areas@.take(i as int));
        }
        if !(memarea.start_address > 0xFFFF_FFFF || memarea.end_address > 0xFFFF_FFFF) {
            if memarea.memory_type == MEMORY_AVAILABLE {
                mark_area_free(
                    allocator,
                    memarea.start_address as usize,
                    memarea.end_address as usize,
                );
            } else {
                mark_area_reserved(
                    allocator,
                    memarea.start_address as usize,
                    memarea.end_address as usize,
                );
            }
        }
        i = i + 1;
    }
    proof {
        assert(memory_areas@.take(memory_areas@.len() as int) =~= memory_areas@);
    }
}

/// Tells whether [`init`] can be called with what the boot loader reports:
/// whether the areas and modules lie inside the bitmap, and whether every
/// frame the kernel is mapped on is free when its turn comes. The allocator
/// is left as it is.
pub fn can_init(
    allocator: &FrameAllocatori386,
    memory_areas: &Vec<MemoryArea>,
    kernel_frames: &Vec<PhysicalAddress>,
    modules: &Vec<BootModule>,
) -> (r: bool)
    requires
        allocator.wf(),
    ensures
        r == init_possible(allocator@, memory_areas@, kernel_frames@, modules@),
{
    let total: usize = allocator.frame_count();
    if total < 1 {
        return false;
    }
    let mut i: usize = 0;
    while i < memory_areas.len()
        invariant
            i <= memory_areas@.len(),
            allocator.wf(),
            total == allocator@.len(),
            forall|j: int|
                0 <= j < i && area_considered(#[trigger] memory_areas@[j]) ==> range_in_map(
                    memory_areas@[j].start_address as int,
                    memory_areas@[j].end_address as int,
                    total as int,
                ),
        decreases memory_areas@.len() - i,
    {
        let memarea = memory_areas[i];
        if !(memarea.start_address > 0xFFFF_FFFF || memarea.end_address > 0xFFFF_FFFF) {
            if !range_fits(memarea.start_address as usize, memarea.end_address as usize, total) {
                assert(area_considered(memory_areas@[i as int]));
                return false;
            }
        }
        i = i + 1;
    }
    let mut m: usize = 0;
    while m < modules.len()
        invariant
            m <= modules@.len(),
            allocator.wf(),
            total == allocator@.len(),
            forall|j: int|
                0 <= j < m ==> range_in_map(
                    (#[trigger] modules@[j]).start_address as int,
                    modules@[j].end_address as int,
                    total as int,
                ),
        decreases modules@.len() - m,
    {
        let module = modules[m];
        if !range_fits(module.start_address as usize, module.end_address as usize, total) {
            return false;
        }
        m = m + 1;
    }
    // the frames of the kernel are tried on a copy of the bitmap
    let mut scratch = FrameAllocatori386 {
        memory_bitmap: allocator.memory_bitmap.clone(),
        initialized: allocator.initialized,
    };
    assert(scratch@ =~= allocator@);
    mark_memory_areas(&mut scratch, memory_areas);
    let ghost mapped = scratch@;
    let mut k: usize = 0;
    while k < kernel_frames.len()
        invariant
            k <= kernel_frames@.len(),
            scratch.wf(),
            scratch@.len() == total,
            mapped.len() == total,
            mapped == apply_areas(allocator@, memory_areas@),
            bootstrap_frames_free(mapped, kernel_frames@.take(k as int)),
            scratch@ == apply_bootstrap_frames(mapped, kernel_frames@.take(k as int)),
        decreases kernel_frames@.len() - k,
    {
        let frame: PhysicalAddress = kernel_frames[k];
        proof {
            assert(kernel_frames@.take(k + 1).drop_last() =~= kernel_frames@.take(k as int));
            assert(kernel_frames@.take(k + 1).last() == frame);
            if bootstrap_frames_free(mapped, kernel_frames@) {
                lemma_bootstrap_frames_prefix(mapped, kernel_frames@, k + 1);
            }
        }
        let bit: usize = addr_to_frame(frame.addr());
        if frame.addr() % PAGE_SIZE != 0 || bit >= total || !scratch.frame_is_free(bit) {
            return false;
        }
        mark_frame_bootstrap_allocated(&mut scratch, frame);
        k = k + 1;
    }
    proof {
        assert(kernel_frames@.take(kernel_frames@.len() as int) =~= kernel_frames@);
    }
    true
}

/// Sets the allocator up from what the boot loader reports.
///
/// The memory map is applied area by area: usable RAM becomes free, anything
/// else reserved, areas beyond the 32-bit address space are skipped. Then the
/// frames the kernel is already mapped on are taken, the boot modules and the
/// very first frame are reserved, and the allocator is declared initialized.
/// Whether the report allows this is told by [`can_init`].
pub fn init(
    allocator: &mut FrameAllocatori386,
    memory_areas: &Vec<MemoryArea>,
    kernel_frames: &Vec<PhysicalAddress>,
    modules: &Vec<BootModule>,
)
    requires
        old(allocator).wf(),
        init_possible(old(allocator)@, memory_areas@, kernel_frames@, modules@),
    ensures
        final(allocator).wf(),
        final(allocator).is_initialized(),
        final(allocator)@ == initialized_map(
            old(allocator)@,
            memory_areas@,
            kernel_frames@,
            modules@,
        ),
{
    let ghost total = allocator@.len();
    mark_memory_areas(allocator, memory_areas);
    // everything the kernel is mapped on was put there by the bootstrap
    let ghost mapped = allocator@;
    let mut k: usize = 0;
    while k < kernel_frames.len()
        invariant
            k <= kernel_frames@.len(),
            allocator.wf(),
            allocator@.len() == total,
            mapped.len() == total,
            bootstrap_frames_free(mapped, kernel_frames@),
            allocator@ == apply_bootstrap_frames(mapped, kernel_frames@.take(k as int)),
        decreases kernel_frames@.len() - k,
    {
        proof {
            assert(kernel_frames@.take(k + 1).drop_last() =~= kernel_frames@.take(k as int));
            lemma_bootstrap_frames_prefix(mapped, kernel_frames@, k + 1);
        }
        mark_frame_bootstrap_allocated(allocator, kernel_frames[k]);
        k = k + 1;
    }
    proof {
        assert(kernel_frames@.take(kernel_frames@.len() as int) =~= kernel_frames@);
    }
    // the modules stay: the kernel image is needed for symbols later on
    let ghost taken = allocator@;
    let mut m: usize = 0;
    while m < modules.len()
        invariant
            m <= modules@.len(),
            allocator.wf(),
            allocator@.len() == total,
            forall|i: int|
                0 <= i < modules@.len() ==> range_in_map(
                    (#[trigger] modules@[i]).start_address as int,
                    modules@[i].end_address as int,
                    total as int,
                ),
            allocator@ == apply_modules(taken, modules@.take(m as int)),
        decreases modules@.len() - m,
    {
        let module = modules[m];
        proof {
            assert(modules@.take(m + 1).drop_last() =~= modules@.take(m as int));
        }
        mark_area_reserved(allocator, module.start_address as usize, module.end_address as usize);
        m = m + 1;
    }
    proof {
        assert(modules@.take(modules@.len() as int) =~= modules@);
    }
    // the very first frame is kept for null pointers while paging is off
    mark_area_reserved(allocator, 0x00000000, 0x00000001);
    allocator.mark_initialized();
}

/// If every frame of a list is free when its turn comes, so is every frame
/// of a prefix of the list.
proof fn lemma_bootstrap_frames_prefix(free: Seq<bool>, frames: Seq<PhysicalAddress>, n: int)
    requires
        bootstrap_frames_free(free, frames),
        0 <= n <= frames.len(),
    ensures
        bootstrap_frames_free(free, frames.take(n)),
    decreases frames.len(),
{
    if n == frames.len() {
        assert(frames.take(n) =~= frames);
    } else {
        lemma_bootstrap_frames_prefix(free, frames.drop_last(), n);
        assert(frames.drop_last().take(n) =~= frames.take(n));
    }
}

/// The physical memory manager: serves memory in frames of [`PAGE_SIZE`]
/// bytes out of a [`FrameAllocatori386`].
#[derive(Debug)]
pub struct FrameAllocator;

impl FrameAllocator {
    /// Whether every frame touched by `length` bytes from `address` on is
    /// occupied. The range is widened to whole frames.
    pub fn check_is_allocated(
        allocator: &FrameAllocatori386,
        address: PhysicalAddress,
        length: usize,
    ) -> (r: bool)
        requires
            allocator.is_initialized(),
            spec_align_up(address.0 + length, PAGE_SIZE as int) <= usize::MAX,
            spec_align_up(address.0 + length, PAGE_SIZE as int) / (PAGE_SIZE as int) <= allocator@.len(),
        ensures
            r == (forall|f: int|
                spec_align_down(address.0 as int, PAGE_SIZE as int) / (PAGE_SIZE as int) <= f
                    < spec_align_up(address.0 + length, PAGE_SIZE as int) / (PAGE_SIZE as int)
                    ==> !allocator@[f]),
    {
        let start: usize = addr_to_frame(round_to_page(address.addr()));
        let end: usize = addr_to_frame(round_to_page_upper(address.addr() + length));
        let mut frame: usize = start;
        while frame < end
            invariant
                end <= allocator@.len(),
                start <= frame,
                start == spec_align_down(address.0 as int, PAGE_SIZE as int) / (PAGE_SIZE as int),
                end == spec_align_up(address.0 + length, PAGE_SIZE as int) / (PAGE_SIZE as int),
                forall|f: int| start <= f < frame ==> !allocator@[f],
            decreases end - frame,
        {
            if allocator.frame_is_free(frame) {
                assert(start <= frame < end && allocator@[frame as int]);
                return false;
            }
            frame = frame + 1;
        }
        true
    }

    /// Whether every frame of the range is reserved. Reserved and allocated
    /// frames are not told apart, so this is [`Self::check_is_allocated`].
    pub fn check_is_reserved(
        allocator: &FrameAllocatori386,
        address: PhysicalAddress,
        length: usize,
    ) -> (r: bool)
        requires
            allocator.is_initialized(),
            spec_align_up(address.0 + length, PAGE_SIZE as int) <= usize::MAX,
            spec_align_up(address.0 + length, PAGE_SIZE as int) / (PAGE_SIZE as int) <= allocator@.len(),
        ensures
            r == (forall|f: int|
                spec_align_down(address.0 as int, PAGE_SIZE as int) / (PAGE_SIZE as int) <= f
                    < spec_align_up(address.0 + length, PAGE_SIZE as int) / (PAGE_SIZE as int)
                    ==> !allocator@[f]),
    {
        Self::check_is_allocated(allocator, address, length)
    }

    /// Gives the frames of a region back: they become free. A region without
    /// frames changes nothing.
    pub fn free_region(allocator: &mut FrameAllocatori386, region: &PhysicalMemRegion)
        requires
            old(allocator).is_initialized(),
            region.wf(),
            region.frame_count() > 0 ==> region.end_frame() <= old(allocator)@.len(),
            forall|f: int| region.contains(f) ==> !old(allocator)@[f],
        ensures
            final(allocator)@ == with_range(
                old(allocator)@,
                region.base_frame(),
                region.end_frame(),
                FRAME_FREE,
            ),
            final(allocator).wf() == old(allocator).wf(),
            final(allocator).is_initialized(),
    {
        if region.frames > 0 {
            let start: usize = addr_to_frame(region.start_addr);
            allocator.set_frames(start, start + region.frames, FRAME_FREE);
        } else {
            assert(allocator@ =~= with_range(
                old(allocator)@,
                region.base_frame(),
                region.end_frame(),
                FRAME_FREE,
            ));
        }
    }

    /// Allocates a single frame: the lowest free one.
    pub fn allocate_frame(allocator: &mut FrameAllocatori386) -> (r: Result<
        PhysicalMemRegion,
        KernelError,
    >)
        requires
            old(allocator).wf(),
            old(allocator).is_initialized(),
        ensures
            final(allocator).wf(),
            final(allocator).is_initialized(),
            r is Ok <==> has_hole(old(allocator)@, 1),
            r is Err ==> r->Err_0 == KernelError::PhysicalMemoryExhaustion && final(allocator)@ == old(
                allocator,
            )@,
            r is Ok ==> {
                let region = r->Ok_0;
                &&& region.wf()
                &&& region.owning()
                &&& region.frame_count() == 1
                &&& is_lowest_hole(old(allocator)@, region.base_frame(), 1)
                &&& final(allocator)@ == old(allocator)@.update(region.base_frame(), FRAME_OCCUPIED)
            },
    {
        let r = Self::allocate_region(allocator, PAGE_SIZE);
        proof {
            if r is Ok {
                assert(is_hole(old(allocator)@, r->Ok_0.base_frame(), 1));
                assert(allocator@ =~= old(allocator)@.update(
                    r->Ok_0.base_frame(),
                    FRAME_OCCUPIED,
                ));
            }
        }
        r
    }

    /// Allocates one region of physically consecutive frames, `length` bytes
    /// long: the lowest run of free frames that is long enough.
    ///
    /// Fails with `InvalidSize` when `length` is zero or not a multiple of
    /// the page size, and with `PhysicalMemoryExhaustion` when no run of
    /// free frames is long enough; the allocator is then left as it was.
    pub fn allocate_region(allocator: &mut FrameAllocatori386, length: usize) -> (r: Result<
        PhysicalMemRegion,
        KernelError,
    >)
        requires
            old(allocator).wf(),
            old(allocator).is_initialized(),
        ensures
            final(allocator).wf(),
            final(allocator).is_initialized(),
            length == 0 ==> r is Err && r->Err_0 == (KernelError::InvalidSize { size: 0 }),
            length != 0 && length % PAGE_SIZE != 0 ==> r is Err && r->Err_0
                == (KernelError::InvalidSize { size: length }),
            length != 0 && length % PAGE_SIZE == 0 && !has_hole(
                old(allocator)@,
                length as int / PAGE_SIZE as int,
            ) ==> r is Err && r->Err_0 == KernelError::PhysicalMemoryExhaustion,
            r is Err ==> final(allocator)@ == old(allocator)@,
            length != 0 && length % PAGE_SIZE == 0 && has_hole(
                old(allocator)@,
                length as int / PAGE_SIZE as int,
            ) ==> r is Ok,
            r is Ok ==> {
                let region = r->Ok_0;
                &&& region.wf()
                &&& region.owning()
                &&& region.frame_count() == length as int / PAGE_SIZE as int
                &&& is_lowest_hole(old(allocator)@, region.base_frame(), region.frame_count())
                &&& final(allocator)@ == with_range(
                    old(allocator)@,
                    region.base_frame(),
                    region.end_frame(),
                    FRAME_OCCUPIED,
                )
            },
    {
        match check_nonzero_length(length) {
            Ok(()) => {},
            Err(err) => {
                return Err(err);
            },
        }
        match check_size_aligned(length, PAGE_SIZE) {
            Ok(()) => {},
            Err(err) => {
                return Err(err);
            },
        }
        let nr_frames: usize = length / PAGE_SIZE;
        let total: usize = allocator.frame_count();
        let mut start_index: usize = 0;
        while start_index <= total && nr_frames <= total - start_index
            invariant
                allocator@ == old(allocator)@,
                allocator.wf(),
                allocator.is_initialized(),
                total == allocator@.len(),
                nr_frames == length as int / PAGE_SIZE as int,
                length != 0,
                length % PAGE_SIZE == 0,
                nr_frames > 0,
                nr_frames * PAGE_SIZE <= usize::MAX,
                forall|s: int|
                    0 <= s < start_index ==> !#[trigger] is_hole(allocator@, s, nr_frames as int),
            decreases total + 1 - start_index,
        {
            let mut temp_len: usize = 0;
            let mut blocked: bool = false;
            while temp_len < nr_frames && !blocked
                invariant
                    allocator@ == old(allocator)@,
                    total == allocator@.len(),
                    start_index + nr_frames <= total,
                    temp_len <= nr_frames,
                    blocked ==> temp_len < nr_frames && !allocator@[start_index + temp_len],
                    forall|f: int| start_index <= f < start_index + temp_len ==> allocator@[f],
                decreases nr_frames - temp_len + if blocked { 0int } else { 1int },
            {
                if allocator.frame_is_free(start_index + temp_len) {
                    // the hole is good so far, keep considering it
                    temp_len = temp_len + 1;
                } else {
                    blocked = true;
                }
            }
            if blocked {
                // the hole was not big enough, jump past the frame that ends it
                proof {
                    let stop = start_index + temp_len;
                    assert forall|s: int| 0 <= s < stop + 1 implies !#[trigger] is_hole(
                        allocator@,
                        s,
                        nr_frames as int,
                    ) by {
                        if s >= start_index {
                            assert(s <= stop < s + nr_frames);
                        }
                    }
                }
                start_index = start_index + temp_len + 1;
            } else {
                // the hole is big enough: take all of its frames
                allocator.set_frames(start_index, start_index + nr_frames, FRAME_OCCUPIED);
                proof {
                    assert(start_index * PAGE_SIZE <= usize::MAX) by (nonlinear_arith)
                        requires
                            start_index + nr_frames <= total,
                            nr_frames > 0,
                            total * PAGE_SIZE <= usize::MAX + 1,
                            PAGE_SIZE > 0,
                    ;
                }
                let allocated = PhysicalMemRegion {
                    start_addr: frame_to_addr(start_index),
                    frames: nr_frames,
                    should_free_on_drop: true,
                };
                proof {
                    assert(allocated.base_frame() == start_index) by (nonlinear_arith)
                        requires
                            allocated.base_frame() == (start_index * PAGE_SIZE) / (PAGE_SIZE as int),
                            PAGE_SIZE > 0,
                    ;
                    assert((start_index * PAGE_SIZE) % (PAGE_SIZE as int) == 0) by (nonlinear_arith)
                        requires
                            PAGE_SIZE > 0,
                    ;
                    assert(is_hole(old(allocator)@, start_index as int, nr_frames as int));
                }
                return Ok(allocated);
            }
        }
        proof {
            assert forall|s: int| !#[trigger] is_hole(allocator@, s, nr_frames as int) by {
                if 0 <= s && s + nr_frames <= total {
                    assert(s < start_index);
                }
            }
        }
        Err(KernelError::PhysicalMemoryExhaustion)
    }

    /// Allocates `length` bytes of physical frames that need not be
    /// adjacent: the lowest free frames, as many as asked for, grouped into
    /// regions of adjacent frames in ascending order.
    ///
    /// Fails with `InvalidSize` when `length` is zero or not a multiple of
    /// the page size, and with `PhysicalMemoryExhaustion` when fewer frames
    /// are free than asked for. On any failure the allocator is left exactly
    /// as it was: frames claimed on the way are given back.
    pub fn allocate_frames_fragmented(allocator: &mut FrameAllocatori386, length: usize) -> (r:
        Result<Vec<PhysicalMemRegion>, KernelError>)
        requires
            old(allocator).wf(),
            old(allocator).is_initialized(),
        ensures
            final(allocator).wf(),
            final(allocator).is_initialized(),
            length == 0 ==> r is Err && r->Err_0 == (KernelError::InvalidSize { size: 0 }),
            length != 0 && length % PAGE_SIZE != 0 ==> r is Err && r->Err_0
                == (KernelError::InvalidSize { size: length }),
            length != 0 && length % PAGE_SIZE == 0 && free_below(
                old(allocator)@,
                old(allocator)@.len() as int,
            ) < length as int / PAGE_SIZE as int ==> r is Err && r->Err_0
                == KernelError::PhysicalMemoryExhaustion,
            r is Err ==> final(allocator)@ == old(allocator)@,
            length != 0 && length % PAGE_SIZE == 0 && free_below(
                old(allocator)@,
                old(allocator)@.len() as int,
            ) >= length as int / PAGE_SIZE as int ==> r is Ok,
            r is Ok ==> {
                let regions = r->Ok_0@;
                &&& regions.len() > 0
                &&& total_frames(regions) == length as int / PAGE_SIZE as int
                &&& claims_free_below(regions, old(allocator)@, regions.last().end_frame())
                &&& final(allocator)@ == taken_below(old(allocator)@, regions.last().end_frame())
            },
    {
        match check_nonzero_length(length) {
            Ok(()) => {},
            Err(err) => {
                return Err(err);
            },
        }
        match check_size_aligned(length, PAGE_SIZE) {
            Ok(()) => {},
            Err(err) => {
                return Err(err);
            },
        }
        let requested: usize = length / PAGE_SIZE;
        let total: usize = allocator.frame_count();
        let mut collected_frames: usize = 0;
        let mut collected_regions: Vec<PhysicalMemRegion> = Vec::new();
        let mut hole_start: usize = 0;
        // while what is still missing can be had from the frames not yet seen
        while hole_start <= total && requested - collected_frames <= total - hole_start
            invariant
                allocator.wf(),
                allocator.is_initialized(),
                total == allocator@.len(),
                total == old(allocator)@.len(),
                length != 0,
                length % PAGE_SIZE == 0,
                requested == length as int / PAGE_SIZE as int,
                requested * PAGE_SIZE <= usize::MAX,
                collected_frames < requested,
                collected_frames == free_below(old(allocator)@, hole_start as int),
                collected_frames == total_frames(collected_regions@),
                hole_start <= total + 1,
                allocator@ == taken_below(old(allocator)@, hole_start as int),
                claims_free_below(
                    collected_regions@,
                    old(allocator)@,
                    if hole_start <= total { hole_start as int } else { total as int },
                ),
                forall|i: int|
                    0 <= i < collected_regions@.len() ==> (#[trigger] collected_regions@[i]).end_frame()
                        < hole_start,
            decreases total + 1 - hole_start,
        {
            let mut hole_frames: usize = 0;
            let mut blocked: bool = false;
            while hole_frames < requested - collected_frames && !blocked
                invariant
                    allocator.wf(),
                    allocator.is_initialized(),
                    total == allocator@.len(),
                    total == old(allocator)@.len(),
                    collected_frames < requested,
                    hole_start + (requested - collected_frames) <= total,
                    hole_frames <= requested - collected_frames,
                    collected_frames + hole_frames == free_below(
                        old(allocator)@,
                        hole_start + hole_frames,
                    ),
                    allocator@ == taken_below(old(allocator)@, hole_start + hole_frames),
                    forall|f: int| hole_start <= f < hole_start + hole_frames ==> old(allocator)@[f],
                    blocked ==> hole_frames < requested - collected_frames && !old(
                        allocator,
                    )@[hole_start + hole_frames],
                decreases requested - collected_frames - hole_frames + if blocked { 0int } else { 1int },
            {
                let considered_frame: usize = hole_start + hole_frames;
                if allocator.frame_is_free(considered_frame) {
                    // expand the current hole
                    allocator.set_frame(considered_frame, FRAME_OCCUPIED);
                    hole_frames = hole_frames + 1;
                    assert(allocator@ =~= taken_below(old(allocator)@, hole_start + hole_frames));
                } else {
                    // the current hole ends here
                    blocked = true;
                }
            }
            if hole_frames > 0 {
                proof {
                    assert(hole_start * PAGE_SIZE <= usize::MAX && hole_frames * PAGE_SIZE
                        <= usize::MAX) by (nonlinear_arith)
                        requires
                            hole_start + hole_frames <= total,
                            hole_frames > 0,
                            hole_frames <= requested,
                            requested * PAGE_SIZE <= usize::MAX,
                            total * PAGE_SIZE <= usize::MAX + 1,
                            PAGE_SIZE > 0,
                    ;
                }
                let hole = PhysicalMemRegion {
                    start_addr: frame_to_addr(hole_start),
                    frames: hole_frames,
                    should_free_on_drop: true,
                };
                proof {
                    assert(hole.base_frame() == hole_start) by (nonlinear_arith)
                        requires
                            hole.base_frame() == (hole_start * PAGE_SIZE) / (PAGE_SIZE as int),
                            PAGE_SIZE > 0,
                    ;
                    assert((hole_start * PAGE_SIZE) % (PAGE_SIZE as int) == 0) by (nonlinear_arith)
                        requires
                            PAGE_SIZE > 0,
                    ;
                    lemma_claims_push(
                        collected_regions@,
                        old(allocator)@,
                        hole_start as int,
                        hole,
                    );
                    assert(collected_regions@.push(hole).drop_last() =~= collected_regions@);
                }
                collected_frames = collected_frames + hole_frames;
                collected_regions.push(hole);
                if collected_frames == requested {
                    // enough frames were collected
                    proof {
                        lemma_free_below_step(
                            old(allocator)@,
                            hole_start + hole_frames,
                            total as int,
                        );
                    }
                    return Ok(collected_regions);
                }
            }
            // advance the cursor past the occupied frame that ended the hole
            proof {
                lemma_claims_skip(
                    collected_regions@,
                    old(allocator)@,
                    hole_start + hole_frames,
                );
                assert(allocator@ =~= taken_below(old(allocator)@, hole_start + hole_frames + 1));
            }
            hole_start = hole_start + hole_frames + 1;
        }
        proof {
            if hole_start <= total {
                lemma_free_below_step(old(allocator)@, hole_start as int, total as int);
            } else {
                lemma_free_below_step(old(allocator)@, total as int, hole_start as int);
            }
        }
        // what was collected is given back, so that nothing stays claimed
        let ghost claimed = if hole_start <= total { hole_start as int } else { total as int };
        let mut k: usize = 0;
        while k < collected_regions.len()
            invariant
                allocator.wf(),
                allocator.is_initialized(),
                total == allocator@.len(),
                total == old(allocator)@.len(),
                k <= collected_regions@.len(),
                claimed <= total,
                claimed <= hole_start,
                claims_free_below(collected_regions@, old(allocator)@, claimed),
                allocator@ == Seq::new(
                    total as nat,
                    |f: int|
                        old(allocator)@[f] && (f >= hole_start || covered(
                            collected_regions@,
                            k as int,
                            f,
                        )),
                ),
            decreases collected_regions@.len() - k,
        {
            let ghost before = allocator@;
            let ghost region = collected_regions@[k as int];
            proof {
                assert forall|f: int| region.contains(f) implies !allocator@[f] by {
                    if covered(collected_regions@, k as int, f) {
                        let i = choose|i: int|
                            0 <= i < k && i < collected_regions@.len() && (
                            #[trigger] collected_regions@[i]).contains(f);
                        assert(collected_regions@[i].end_frame() < collected_regions@[k as int].base_frame());
                    }
                }
            }
            Self::free_region(allocator, &collected_regions[k]);
            proof {
                assert forall|f: int| 0 <= f < total implies allocator@[f] == (old(allocator)@[f]
                    && (f >= hole_start || covered(collected_regions@, k + 1, f))) by {
                    if region.contains(f) {
                        assert(collected_regions@[k as int].contains(f));
                    } else if covered(collected_regions@, k + 1, f) {
                        let i = choose|i: int|
                            0 <= i < k + 1 && i < collected_regions@.len() && (
                            #[trigger] collected_regions@[i]).contains(f);
                        assert(i != k);
                        assert(collected_regions@[i].contains(f));
                    } else {
                        if covered(collected_regions@, k as int, f) {
                            let i = choose|i: int|
                                0 <= i < k && i < collected_regions@.len() && (
                                #[trigger] collected_regions@[i]).contains(f);
                            assert(collected_regions@[i].contains(f));
                        }
                    }
                }
                assert(allocator@ =~= Seq::new(
                    total as nat,
                    |f: int|
                        old(allocator)@[f] && (f >= hole_start || covered(
                            collected_regions@,
                            k + 1,
                            f,
                        )),
                ));
            }
            k = k + 1;
        }
        assert(allocator@ =~= old(allocator)@);
        Err(KernelError::PhysicalMemoryExhaustion)
    }
}

/// Adding the run of free frames that starts at the cursor keeps the list
/// of claimed regions exact up to the end of that run.
proof fn lemma_claims_push(
    regions: Seq<PhysicalMemRegion>,
    free: Seq<bool>,
    start: int,
    hole: PhysicalMemRegion,
)
    requires
        claims_free_below(regions, free, start),
        forall|i: int| 0 <= i < regions.len() ==> (#[trigger] regions[i]).end_frame() < start,
        hole.wf(),
        hole.owning(),
        hole.frame_count() > 0,
        hole.base_frame() == start,
        hole.end_frame() <= free.len(),
        forall|f: int| hole.contains(f) ==> free[f],
    ensures
        claims_free_below(regions.push(hole), free, hole.end_frame()),
        total_frames(regions.push(hole)) == total_frames(regions) + hole.frame_count(),
{
    let grown = regions.push(hole);
    assert(grown.drop_last() =~= regions);
    assert forall|f: int| 0 <= f < hole.end_frame() && free[f] implies #[trigger] covered(
        grown,
        grown.len() as int,
        f,
    ) by {
        if f < start {
            assert(covered(regions, regions.len() as int, f));
            let i = choose|i: int|
                0 <= i < regions.len() && i < regions.len() && (#[trigger] regions[i]).contains(f);
            assert(grown[i].contains(f));
        } else {
            assert(grown[regions.len() as int].contains(f));
        }
    }
    assert forall|i: int| 0 <= i < grown.len() implies {
        let r = #[trigger] grown[i];
        &&& r.wf()
        &&& r.owning()
        &&& r.frame_count() > 0
        &&& 0 <= r.base_frame()
        &&& r.end_frame() <= hole.end_frame()
        &&& forall|f: int| r.contains(f) ==> free[f]
    } by {
        if i < regions.len() {
            assert(grown[i] == regions[i]);
        }
    }
    assert forall|i: int, j: int| 0 <= i < j < grown.len() implies (#[trigger] grown[i]).end_frame() < (
    #[trigger] grown[j]).base_frame() by {
        assert(grown[i] == regions[i]);
        if j < regions.len() {
            assert(grown[j] == regions[j]);
        }
    }
}

/// Moving the cursor over a frame that is not free keeps the list of
/// claimed regions exact.
proof fn lemma_claims_skip(regions: Seq<PhysicalMemRegion>, free: Seq<bool>, upto: int)
    requires
        claims_free_below(regions, free, upto),
        upto < free.len() ==> !free[upto],
    ensures
        claims_free_below(regions, free, if upto < free.len() { upto + 1 } else { upto }),
{
    let next = if upto < free.len() { upto + 1 } else { upto };
    assert forall|i: int| 0 <= i < regions.len() implies {
        let r = #[trigger] regions[i];
        &&& r.wf()
        &&& r.owning()
        &&& r.frame_count() > 0
        &&& 0 <= r.base_frame()
        &&& r.end_frame() <= next
        &&& forall|f: int| r.contains(f) ==> free[f]
    } by {}
}

} // verus!
