//! Physical memory: the boot memory map, the allocator of 4 KiB physical
//! frames over its usable regions, and the memory summary shown by `mem`.

use vstd::prelude::*;
use x86_64::structures::paging::{PhysFrame, Size4KiB};
use x86_64::PhysAddr;

verus! {

/// Size of a physical frame.
pub const FRAME_SIZE: u64 = 4096;

/// Frame numbers below this bound give physical addresses below 2^52,
/// the largest that `PhysAddr` accepts.
pub const FRAME_NUMBER_LIMIT: u64 = 0x100_0000_0000;

/// One region of the boot memory map: the frames
/// `start_frame_number..end_frame_number`, and whether the firmware marks
/// them usable.
#[derive(Debug, Clone, Copy, PartialEq, Eq, Structural)]
pub struct MemoryRegion {
    pub start_frame_number: u64,
    pub end_frame_number: u64,
    pub usable: bool,
}

/// The frame numbers of a region, in order (none when it ends before it
/// starts).
pub open spec fn region_frames(r: MemoryRegion) -> Seq<u64> {
    Seq::new(
        if r.start_frame_number < r.end_frame_number {
            (r.end_frame_number - r.start_frame_number) as nat
        } else {
            0
        },
        |i: int| (r.start_frame_number + i) as u64,
    )
}

/// The frame numbers of all usable regions of the map, region by region
/// in the order they appear.
pub open spec fn usable_frames(regions: Seq<MemoryRegion>) -> Seq<u64>
    decreases regions.len(),
{
    if regions.len() == 0 {
        Seq::empty()
    } else if regions.last().usable {
        usable_frames(regions.drop_last()) + region_frames(regions.last())
    } else {
        usable_frames(regions.drop_last())
    }
}

/// The usable regions cover pairwise disjoint ranges of frames.
pub open spec fn usable_regions_disjoint(regions: Seq<MemoryRegion>) -> bool {
    forall|a: int, b: int|
        0 <= a < b < regions.len() && regions[a].usable && regions[b].usable ==> (
        #[trigger] regions[a]).end_frame_number <= (#[trigger] regions[b]).start_frame_number
            || regions[b].end_frame_number <= regions[a].start_frame_number
}

/// Frame number `f` lies in region `r`.
pub open spec fn in_region(f: u64, r: MemoryRegion) -> bool {
    r.start_frame_number <= f < r.end_frame_number
}

/// `usable_frames` of two pieces of a map is that of the first piece
/// followed by that of the second.
pub proof fn lemma_usable_frames_concat(a: Seq<MemoryRegion>, b: Seq<MemoryRegion>)
    ensures
        usable_frames(a + b) == usable_frames(a) + usable_frames(b),
    decreases b.len(),
{
    if b.len() == 0 {
        assert(a + b =~= a);
        assert(usable_frames(a) + usable_frames(b) =~= usable_frames(a));
    } else {
        lemma_usable_frames_concat(a, b.drop_last());
        assert((a + b).drop_last() =~= a + b.drop_last());
        assert((a + b).last() == b.last());
        if b.last().usable {
            assert(usable_frames(a) + usable_frames(b.drop_last()) + region_frames(b.last())
                =~= usable_frames(a) + (usable_frames(b.drop_last()) + region_frames(b.last())));
        }
    }
}

/// Every usable frame lies in a usable region of the map.
pub proof fn lemma_usable_frame_in_region(regions: Seq<MemoryRegion>, i: int)
    requires
        0 <= i < usable_frames(regions).len(),
    ensures
        exists|k: int|
            0 <= k < regions.len() && regions[k].usable && in_region(
                #[trigger] usable_frames(regions)[i],
                regions[k],
            ),
    decreases regions.len(),
{
    let rest = regions.drop_last();
    let n = usable_frames(rest).len();
    if regions.last().usable && i >= n {
        let k = regions.len() - 1;
        assert(in_region(usable_frames(regions)[i], regions[k]));
    } else {
        lemma_usable_frame_in_region(rest, i);
        let k = choose|k: int|
            0 <= k < rest.len() && rest[k].usable && in_region(#[trigger] usable_frames(rest)[i], rest[k]);
        assert(regions[k] == rest[k]);
        assert(usable_frames(regions)[i] == usable_frames(rest)[i]);
    }
}

/// Over a map whose usable regions are disjoint, no frame number occurs
/// twice among the usable frames.
pub proof fn lemma_usable_frames_distinct(regions: Seq<MemoryRegion>, i: int, j: int)
    requires
        usable_regions_disjoint(regions),
        0 <= i < j < usable_frames(regions).len(),
    ensures
        usable_frames(regions)[i] != usable_frames(regions)[j],
    decreases regions.len(),
{
    let rest = regions.drop_last();
    let n = usable_frames(rest).len();
    assert(usable_regions_disjoint(rest)) by {
        assert forall|a: int, b: int| 0 <= a < b < rest.len() && rest[a].usable && rest[b].usable implies (
        #[trigger] rest[a]).end_frame_number <= (#[trigger] rest[b]).start_frame_number
            || rest[b].end_frame_number <= rest[a].start_frame_number by {
            assert(rest[a] == regions[a]);
            assert(rest[b] == regions[b]);
        }
    }
    if regions.last().usable {
        if j < n {
            lemma_usable_frames_distinct(rest, i, j);
        } else if i < n {
            lemma_usable_frame_in_region(rest, i);
            let k = choose|k: int|
                0 <= k < rest.len() && rest[k].usable && in_region(#[trigger] usable_frames(rest)[i], rest[k]);
            let last = regions.len() - 1;
            assert(regions[k] == rest[k]);
            assert(regions[k].end_frame_number <= regions[last].start_frame_number
                || regions[last].end_frame_number <= regions[k].start_frame_number);
            assert(in_region(usable_frames(regions)[j], regions[last]));
        }
    } else {
        lemma_usable_frames_distinct(rest, i, j);
    }
}

/// `PhysFrame::<Size4KiB>::containing_address` on `PhysAddr::new(addr)`,
/// as the start address of the frame. By the x86_64 source, `PhysAddr::new`
/// panics when a bit in 52..64 is set (left out by `requires`) and
/// `containing_address` aligns the address down to 4096 (`addr & !0xfff`).
#[verifier::external_body]
fn frame_start_containing(addr: u64) -> (r: u64)
    requires
        addr < 0x10_0000_0000_0000,
    ensures
        r == addr & !0xfffu64,
{
    PhysFrame::<Size4KiB>::containing_address(PhysAddr::new(addr)).start_address().as_u64()
}

/// Allocator of 4 KiB physical frames over the usable regions of the boot
/// memory map.
///
/// Each instance walks the map from the start: the promise never to hand
/// out a frame twice holds per instance, not across instances.
pub struct BootInfoFrameAllocator<'a> {
    memory_map: &'a [MemoryRegion],
    next: usize,
}

impl<'a> BootInfoFrameAllocator<'a> {
    /// The memory map the allocator walks.
    pub closed spec fn regions(&self) -> Seq<MemoryRegion> {
        self.memory_map@
    }

    /// How many frames have been asked for so far (including the calls
    /// that found none left).
    pub closed spec fn requests(&self) -> nat {
        self.next as nat
    }

    /// An allocator that hands out only frames of the usable regions of
    /// `memory_map`, none handed out yet.
    pub fn init(memory_map: &'a [MemoryRegion]) -> (a: BootInfoFrameAllocator<'a>)
        ensures
            a.regions() == memory_map@,
            a.requests() == 0,
    {
        BootInfoFrameAllocator { memory_map, next: 0 }
    }

    /// How many frames have been asked for so far.
    pub fn requests_made(&self) -> (n: usize)
        ensures
            n == self.requests(),
    {
        self.next
    }

    /// The number of the frame the next request gets, if there is one left.
    pub fn next_frame_number(&self) -> (r: Option<u64>)
        ensures
            self.requests() < usable_frames(self.regions()).len() ==> r == Some(
                usable_frames(self.regions())[self.requests() as int],
            ),
            self.requests() >= usable_frames(self.regions()).len() ==> r == None::<u64>,
    {
        self.nth_usable_frame(self.next)
    }

    /// The frame number at position `n` of the usable frames, if there is
    /// one.
    fn nth_usable_frame(&self, n: usize) -> (r: Option<u64>)
        ensures
            n < usable_frames(self.regions()).len() ==> r == Some(usable_frames(self.regions())[n as int]),
            n >= usable_frames(self.regions()).len() ==> r == None::<u64>,
    {
        let regions = self.memory_map;
        let mut k: u64 = n as u64;
        let mut i: usize = 0;
        while i < regions.len()
            invariant
                regions@ == self.regions(),
                i <= regions@.len(),
                usable_frames(regions@.subrange(0, i as int)).len() <= n,
                k == n - usable_frames(regions@.subrange(0, i as int)).len(),
            decreases regions@.len() - i,
        {
            let region = regions[i];
            proof {
                let pre = regions@.subrange(0, i as int);
                let next = regions@.subrange(0, i + 1);
                assert(next.drop_last() =~= pre);
                assert(next.last() == region);
            }
            if region.usable {
                let count: u64 = if region.start_frame_number < region.end_frame_number {
                    region.end_frame_number - region.start_frame_number
                } else {
                    0
                };
                if k < count {
                    let frame = region.start_frame_number + k;
                    proof {
                        let pre = regions@.subrange(0, i as int);
                        let next = regions@.subrange(0, i + 1);
                        let post = regions@.subrange(i + 1, regions@.len() as int);
                        assert(regions@ =~= next + post);
                        lemma_usable_frames_concat(next, post);
                        assert(usable_frames(next) == usable_frames(pre) + region_frames(region));
                        assert(usable_frames(next)[n as int] == frame);
                        assert(usable_frames(regions@)[n as int] == usable_frames(next)[n as int]);
                    }
                    return Some(frame);
                }
                k = k - count;
            }
            i = i + 1;
        }
        proof {
            assert(regions@.subrange(0, regions@.len() as int) =~= regions@);
        }
        None
    }

    /// Hands out the next usable frame as its start address; `None` once
    /// every usable frame of the map has been handed out. The n-th call
    /// (from 0) gives the n-th usable frame, so no frame is given twice
    /// when the usable regions are disjoint.
    pub fn allocate_frame(&mut self) -> (r: Option<u64>)
        requires
            old(self).requests() < usize::MAX,
            old(self).requests() < usable_frames(old(self).regions()).len() ==> usable_frames(
                old(self).regions(),
            )[old(self).requests() as int] < FRAME_NUMBER_LIMIT,
        ensures
            final(self).regions() == old(self).regions(),
            final(self).requests() == old(self).requests() + 1,
            r == frame_for_request(old(self).regions(), old(self).requests()),
    {
        let frame = match self.nth_usable_frame(self.next) {
            Some(number) => {
                let raw: u64 = number * FRAME_SIZE;
                let addr = frame_start_containing(raw);
                assert(raw & !0xfffu64 == raw) by (bit_vector)
                    requires
                        number < 0x100_0000_0000u64,
                        raw == number * 4096,
                ;
                Some(addr)
            },
            None => None,
        };
        self.next = self.next + 1;
        frame
    }
}

/// What request number `n` of an allocator over `regions` gives: the start
/// address of the n-th usable frame, or `None` past the last one.
pub open spec fn frame_for_request(regions: Seq<MemoryRegion>, n: nat) -> Option<u64> {
    if n < usable_frames(regions).len() {
        Some((usable_frames(regions)[n as int] * 4096) as u64)
    } else {
        None
    }
}

/// Over a map with disjoint usable regions, two different requests that
/// both get a frame get different frames, each 4096-aligned and inside a
/// usable region of the map.
pub proof fn lemma_frames_never_repeat(regions: Seq<MemoryRegion>, m: nat, n: nat)
    requires
        usable_regions_disjoint(regions),
        m != n,
        frame_for_request(regions, m) is Some,
        frame_for_request(regions, n) is Some,
        usable_frames(regions)[m as int] < FRAME_NUMBER_LIMIT,
        usable_frames(regions)[n as int] < FRAME_NUMBER_LIMIT,
    ensures
        frame_for_request(regions, m) != frame_for_request(regions, n),
        frame_for_request(regions, m).unwrap() % 4096 == 0,
{
    if m < n {
        lemma_usable_frames_distinct(regions, m as int, n as int);
    } else {
        lemma_usable_frames_distinct(regions, n as int, m as int);
    }
    let fm = usable_frames(regions)[m as int];
    let fn_ = usable_frames(regions)[n as int];
    assert(fm * 4096 != fn_ * 4096);
    assert((fm * 4096) % 4096 == 0) by (nonlinear_arith)
        requires
            fm >= 0,
    ;
}

/// Once a request finds no frame left, every later request finds none.
pub proof fn lemma_exhaustion_is_final(regions: Seq<MemoryRegion>, m: nat, n: nat)
    requires
        m <= n,
        frame_for_request(regions, m) is None,
    ensures
        frame_for_request(regions, n) is None,
{
}

/// Read-only summary of memory, computed once at boot and shown by the
/// `mem` command.
#[derive(Debug, Clone, Copy, PartialEq, Eq, Structural)]
pub struct MemoryInfo {
    pub usable_bytes: u64,
    pub heap_start: u64,
    pub heap_size: usize,
}

/// Number of frames of the usable regions, each region counted as
/// `end - start`.
pub open spec fn usable_frame_count(regions: Seq<MemoryRegion>) -> int
    decreases regions.len(),
{
    if regions.len() == 0 {
        0
    } else if regions.last().usable {
        usable_frame_count(regions.drop_last()) + (regions.last().end_frame_number
            - regions.last().start_frame_number)
    } else {
        usable_frame_count(regions.drop_last())
    }
}

/// No usable region ends before it starts.
pub open spec fn usable_regions_well_formed(regions: Seq<MemoryRegion>) -> bool {
    forall|k: int|
        0 <= k < regions.len() && (#[trigger] regions[k]).usable ==> regions[k].start_frame_number
            <= regions[k].end_frame_number
}

/// Dropping the last region keeps the usable regions well formed.
proof fn lemma_well_formed_drop_last(regions: Seq<MemoryRegion>)
    requires
        usable_regions_well_formed(regions),
        regions.len() > 0,
    ensures
        usable_regions_well_formed(regions.drop_last()),
{
    let rest = regions.drop_last();
    assert forall|k: int| 0 <= k < rest.len() && (#[trigger] rest[k]).usable implies rest[k].start_frame_number
        <= rest[k].end_frame_number by {
        assert(rest[k] == regions[k]);
    }
}

/// The usable frame counts of the prefixes of a map grow with the prefix.
proof fn lemma_usable_count_prefix(regions: Seq<MemoryRegion>, i: int)
    requires
        usable_regions_well_formed(regions),
        0 <= i <= regions.len(),
    ensures
        0 <= usable_frame_count(regions.subrange(0, i)) <= usable_frame_count(regions),
    decreases regions.len(),
{
    if i == regions.len() {
        assert(regions.subrange(0, i) =~= regions);
        lemma_usable_count_nonneg(regions);
    } else {
        let rest = regions.drop_last();
        lemma_well_formed_drop_last(regions);
        lemma_usable_count_prefix(rest, i);
        assert(rest.subrange(0, i) =~= regions.subrange(0, i));
        let last = regions.len() - 1;
        if regions.last().usable {
            assert(regions[last].start_frame_number <= regions[last].end_frame_number);
        }
    }
}

proof fn lemma_usable_count_nonneg(regions: Seq<MemoryRegion>)
    requires
        usable_regions_well_formed(regions),
    ensures
        usable_frame_count(regions) >= 0,
    decreases regions.len(),
{
    if regions.len() > 0 {
        let rest = regions.drop_last();
        lemma_well_formed_drop_last(regions);
        lemma_usable_count_nonneg(rest);
        let last = regions.len() - 1;
        if regions.last().usable {
            assert(regions[last].start_frame_number <= regions[last].end_frame_number);
        }
    }
}

/// The number of usable frames is the length of the usable frame sequence
/// when no usable region ends before it starts.
pub proof fn lemma_usable_count_is_frames_len(regions: Seq<MemoryRegion>)
    requires
        usable_regions_well_formed(regions),
    ensures
        usable_frame_count(regions) == usable_frames(regions).len(),
    decreases regions.len(),
{
    if regions.len() > 0 {
        let rest = regions.drop_last();
        lemma_well_formed_drop_last(regions);
        lemma_usable_count_is_frames_len(rest);
        let last = regions.len() - 1;
        if regions.last().usable {
            assert(regions[last].start_frame_number <= regions[last].end_frame_number);
        }
    }
}

/// The memory summary: the bytes of the usable regions of the map, and the
/// heap's place and size. A usable region that ends before it starts, or
/// a total past `u64`, is left out by `requires` (the count would
/// underflow or overflow).
pub fn memory_summary(memory_map: &[MemoryRegion], heap_start: u64, heap_size: usize) -> (info:
    MemoryInfo)
    requires
        usable_regions_well_formed(memory_map@),
        usable_frame_count(memory_map@) * 4096 <= u64::MAX,
    ensures
        info.usable_bytes == usable_frame_count(memory_map@) * 4096,
        info.heap_start == heap_start,
        info.heap_size == heap_size,
{
    let mut usable_bytes: u64 = 0;
    let mut i: usize = 0;
    while i < memory_map.len()
        invariant
            i <= memory_map@.len(),
            usable_regions_well_formed(memory_map@),
            usable_frame_count(memory_map@) * 4096 <= u64::MAX,
            usable_bytes == usable_frame_count(memory_map@.subrange(0, i as int)) * 4096,
        decreases memory_map@.len() - i,
    {
        let region = memory_map[i];
        proof {
            let pre = memory_map@.subrange(0, i as int);
            let next = memory_map@.subrange(0, i + 1);
            assert(next.drop_last() =~= pre);
            assert(next.last() == region);
            lemma_usable_count_prefix(memory_map@, i + 1);
            lemma_usable_count_prefix(memory_map@, i as int);
            assert(usable_frame_count(next) * 4096 <= u64::MAX) by (nonlinear_arith)
                requires
                    0 <= usable_frame_count(next) <= usable_frame_count(memory_map@),
                    usable_frame_count(memory_map@) * 4096 <= u64::MAX,
            ;
        }
        if region.usable {
            let frames = region.end_frame_number - region.start_frame_number;
            proof {
                let next = memory_map@.subrange(0, i + 1);
                let pre = memory_map@.subrange(0, i as int);
                assert(usable_frame_count(next) * 4096 == usable_frame_count(pre) * 4096 + frames * 4096)
                    by (nonlinear_arith)
                    requires
                        usable_frame_count(next) == usable_frame_count(pre) + frames,
                ;
            }
            usable_bytes = usable_bytes + frames * 4096;
        }
        i = i + 1;
    }
    proof {
        assert(memory_map@.subrange(0, memory_map@.len() as int) =~= memory_map@);
    }
    MemoryInfo { usable_bytes, heap_start, heap_size }
}

/// The memory summary computed at boot; the boot order computes it before
/// anything reads it; reading it before then is left out by `requires`.
pub fn info(stored: &Option<MemoryInfo>) -> (info: MemoryInfo)
    requires
        stored is Some,
    ensures
        info == stored.unwrap(),
{
    match stored {
        Some(i) => *i,
        None => {
            proof {
                assert(false);
            }
            MemoryInfo { usable_bytes: 0, heap_start: 0, heap_size: 0 }
        },
    }
}

/// The allocator hands out exactly `usable_bytes / 4096` frames of a map
/// whose usable regions are well formed: request `n` gets a frame exactly
/// when `n * 4096 < usable_bytes`.
pub proof fn lemma_summary_counts_frames(regions: Seq<MemoryRegion>, info: MemoryInfo, n: nat)
    requires
        usable_regions_well_formed(regions),
        info.usable_bytes == usable_frame_count(regions) * 4096,
    ensures
        (frame_for_request(regions, n) is Some) <==> n * 4096 < info.usable_bytes,
{
    lemma_usable_count_is_frames_len(regions);
    let c = usable_frame_count(regions);
    assert(n < c <==> n * 4096 < c * 4096) by (nonlinear_arith)
        requires
            c >= 0,
    ;
}

} // verus!
