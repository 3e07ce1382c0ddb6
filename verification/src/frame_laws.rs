//! What holds of the frame allocator across several of its operations.

use crate::frame_allocator::claims_free_below;
use crate::frame_allocator::covered;
use crate::frame_allocator::free_below;
use crate::frame_allocator::is_hole;
use crate::frame_allocator::is_lowest_hole;
use crate::frame_allocator::lemma_free_below_with_range;
use crate::frame_allocator::occupied_frames;
use crate::frame_allocator::taken_below;
use crate::frame_allocator::total_frames;
use crate::frame_allocator::with_range;
use crate::frame_allocator::PhysicalMemRegion;
use crate::frame_allocator::FRAME_FREE;
use crate::frame_allocator::FRAME_OCCUPIED;
use vstd::prelude::*;

verus! {

/// Whether the books balance: the occupied frames are `reserved` frames that
/// no region stands for, plus the frames of the live owning regions.
pub open spec fn accounted(free: Seq<bool>, reserved: int, live: Seq<PhysicalMemRegion>) -> bool {
    occupied_frames(free) == reserved + total_frames(live)
}

/// The frames of a list of regions with one region taken out.
pub proof fn lemma_total_frames_remove(regions: Seq<PhysicalMemRegion>, i: int)
    requires
        0 <= i < regions.len(),
    ensures
        total_frames(regions.remove(i)) == total_frames(regions) - regions[i].frame_count(),
    decreases regions.len(),
{
    if i == regions.len() - 1 {
        assert(regions.remove(i) =~= regions.drop_last());
    } else {
        lemma_total_frames_remove(regions.drop_last(), i);
        assert(regions.remove(i).drop_last() =~= regions.drop_last().remove(i));
        assert(regions.remove(i).last() == regions.last());
    }
}

/// The frames of two lists of regions, one after the other.
pub proof fn lemma_total_frames_concat(a: Seq<PhysicalMemRegion>, b: Seq<PhysicalMemRegion>)
    ensures
        total_frames(a + b) == total_frames(a) + total_frames(b),
    decreases b.len(),
{
    if b.len() == 0 {
        assert(a + b =~= a);
    } else {
        lemma_total_frames_concat(a, b.drop_last());
        assert((a + b).drop_last() =~= a + b.drop_last());
        assert((a + b).last() == b.last());
    }
}

/// Taking every frame below `upto` takes as many free frames as there were
/// below `upto`.
pub proof fn lemma_free_below_taken(free: Seq<bool>, taken: int, upto: int)
    requires
        0 <= taken <= free.len(),
        0 <= upto <= free.len(),
    ensures
        free_below(taken_below(free, taken), upto) == free_below(free, upto) - free_below(
            free,
            if upto <= taken { upto } else { taken },
        ),
    decreases upto,
{
    if upto > 0 {
        lemma_free_below_taken(free, taken, upto - 1);
    }
}

/// The regions that claim every free frame below a frame hold as many frames
/// as were free there.
pub proof fn lemma_claimed_frames(regions: Seq<PhysicalMemRegion>, free: Seq<bool>, upto: int)
    requires
        claims_free_below(regions, free, upto),
        0 <= upto,
    ensures
        total_frames(regions) == free_below(free, upto),
    decreases regions.len(),
{
    if regions.len() == 0 {
        assert forall|f: int| 0 <= f < upto implies !free[f] by {
            if free[f] {
                assert(covered(regions, regions.len() as int, f));
            }
        }
        lemma_no_more_free(free, 0, upto);
    } else {
        let last = regions.last();
        let rest = regions.drop_last();
        let cut = last.base_frame();
        // the regions before the last one claim every free frame below it
        assert forall|f: int| 0 <= f < cut && free[f] implies #[trigger] covered(
            rest,
            rest.len() as int,
            f,
        ) by {
            assert(covered(regions, regions.len() as int, f));
            let i = choose|i: int|
                0 <= i < regions.len() && i < regions.len() && (#[trigger] regions[i]).contains(f);
            assert(i != regions.len() - 1);
            assert(rest[i].contains(f));
        }
        assert forall|i: int| 0 <= i < rest.len() implies {
            let r = #[trigger] rest[i];
            &&& r.wf()
            &&& r.owning()
            &&& r.frame_count() > 0
            &&& 0 <= r.base_frame()
            &&& r.end_frame() <= cut
            &&& forall|f: int| r.contains(f) ==> free[f]
        } by {
            assert(rest[i] == regions[i]);
            assert(regions[i].end_frame() < regions[regions.len() - 1].base_frame());
        }
        assert forall|i: int, j: int| 0 <= i < j < rest.len() implies (#[trigger] rest[i]).end_frame()
            < (#[trigger] rest[j]).base_frame() by {
            assert(rest[i] == regions[i]);
            assert(rest[j] == regions[j]);
        }
        assert(last == regions[regions.len() - 1]);
        lemma_claimed_frames(rest, free, cut);
        // the last region is free throughout, and nothing is free above it
        lemma_all_free(free, cut, last.end_frame());
        assert forall|f: int| last.end_frame() <= f < upto implies !free[f] by {
            if free[f] {
                assert(covered(regions, regions.len() as int, f));
                let i = choose|i: int|
                    0 <= i < regions.len() && i < regions.len() && (#[trigger] regions[i]).contains(
                        f,
                    );
                if i < regions.len() - 1 {
                    assert(regions[i].end_frame() < regions[regions.len() - 1].base_frame());
                }
            }
        }
        lemma_no_more_free(free, last.end_frame(), upto);
    }
}

/// Over a range of free frames the count grows by the length of the range.
proof fn lemma_all_free(free: Seq<bool>, from: int, to: int)
    requires
        0 <= from <= to,
        forall|f: int| from <= f < to ==> free[f],
    ensures
        free_below(free, to) == free_below(free, from) + (to - from),
    decreases to - from,
{
    if from < to {
        lemma_all_free(free, from, to - 1);
    }
}

/// Over a range without free frames the count stays.
proof fn lemma_no_more_free(free: Seq<bool>, from: int, to: int)
    requires
        0 <= from <= to,
        forall|f: int| from <= f < to ==> !free[f],
    ensures
        free_below(free, to) == free_below(free, from),
    decreases to - from,
{
    if from < to {
        lemma_no_more_free(free, from, to - 1);
    }
}

/// Allocating a region keeps the books: the frames it takes were free, and
/// the region joins the live ones.
pub proof fn law_allocation_is_accounted(
    before: Seq<bool>,
    region: PhysicalMemRegion,
    reserved: int,
    live: Seq<PhysicalMemRegion>,
)
    requires
        accounted(before, reserved, live),
        region.frame_count() >= 0,
        is_hole(before, region.base_frame(), region.frame_count()),
    ensures
        accounted(
            with_range(before, region.base_frame(), region.end_frame(), FRAME_OCCUPIED),
            reserved,
            live.push(region),
        ),
{
    lemma_free_below_with_range(
        before,
        region.base_frame(),
        region.end_frame(),
        FRAME_OCCUPIED,
        before.len() as int,
    );
    assert(live.push(region).drop_last() =~= live);
}

/// Giving a live region back keeps the books: its frames become free, and
/// the region leaves the live ones.
pub proof fn law_release_is_accounted(
    before: Seq<bool>,
    reserved: int,
    live: Seq<PhysicalMemRegion>,
    i: int,
)
    requires
        accounted(before, reserved, live),
        0 <= i < live.len(),
        live[i].frame_count() >= 0,
        0 <= live[i].base_frame(),
        live[i].end_frame() <= before.len(),
        forall|f: int| live[i].contains(f) ==> !before[f],
    ensures
        accounted(
            with_range(before, live[i].base_frame(), live[i].end_frame(), FRAME_FREE),
            reserved,
            live.remove(i),
        ),
{
    lemma_free_below_with_range(
        before,
        live[i].base_frame(),
        live[i].end_frame(),
        FRAME_FREE,
        before.len() as int,
    );
    lemma_total_frames_remove(live, i);
}

/// A fragmented allocation keeps the books: the regions it returns hold
/// exactly the frames it took, and they join the live ones.
pub proof fn law_fragmented_allocation_is_accounted(
    before: Seq<bool>,
    regions: Seq<PhysicalMemRegion>,
    reserved: int,
    live: Seq<PhysicalMemRegion>,
)
    requires
        accounted(before, reserved, live),
        regions.len() > 0,
        claims_free_below(regions, before, regions.last().end_frame()),
    ensures
        accounted(taken_below(before, regions.last().end_frame()), reserved, live + regions),
{
    let upto = regions.last().end_frame();
    assert(regions.last() == regions[regions.len() - 1]);
    lemma_claimed_frames(regions, before, upto);
    lemma_free_below_taken(before, upto, before.len() as int);
    lemma_total_frames_concat(live, regions);
}

/// Freeing a region and then allocating the same length returns the same
/// frames, as long as nothing below the end of the region was freed since
/// the region was allocated.
///
/// `at_allocation` is the map in which the region was the lowest run of free
/// frames long enough; `now` is the map just before the region is freed.
pub proof fn law_free_then_allocate_returns_same_frames(
    at_allocation: Seq<bool>,
    now: Seq<bool>,
    region: PhysicalMemRegion,
)
    requires
        region.frame_count() > 0,
        is_lowest_hole(at_allocation, region.base_frame(), region.frame_count()),
        now.len() == at_allocation.len(),
        forall|f: int| 0 <= f < region.end_frame() && now[f] ==> at_allocation[f],
    ensures
        is_lowest_hole(
            with_range(now, region.base_frame(), region.end_frame(), FRAME_FREE),
            region.base_frame(),
            region.frame_count(),
        ),
{
    let freed = with_range(now, region.base_frame(), region.end_frame(), FRAME_FREE);
    let n = region.frame_count();
    assert forall|s: int| 0 <= s < region.base_frame() implies !#[trigger] is_hole(freed, s, n) by {
        if is_hole(freed, s, n) {
            assert forall|f: int| s <= f < s + n implies at_allocation[f] by {
                assert(freed[f]);
            }
            assert(is_hole(at_allocation, s, n));
        }
    }
}

} // verus!
