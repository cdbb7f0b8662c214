//! The kernel heap: a fixed range of virtual addresses, mapped at boot,
//! from which the global allocator takes memory.

use vstd::prelude::*;
use x86_64::structures::paging::{Page, Size4KiB};
use x86_64::VirtAddr;

verus! {

/// Fixed virtual address where the heap starts, outside anything the
/// bootloader maps (a 64-bit address, so held as `u64`).
pub const HEAP_START: u64 = 0x4444_4444_0000;

/// Fixed size of the heap, decided at compile time; it does not grow.
pub const HEAP_SIZE: usize = 102400;

/// `Page::<Size4KiB>::containing_address` on `VirtAddr::new(addr)`, as the
/// start address of the page. By the x86_64 source, `VirtAddr::new`
/// panics on an address that is not canonical (the lower half used here
/// is canonical) and `containing_address` aligns down to 4096
/// (`addr & !0xfff`, which stays canonical).
#[verifier::external_body]
fn page_start_containing(addr: u64) -> (r: u64)
    requires
        addr < 0x8000_0000_0000,
    ensures
        r == addr & !0xfffu64,
{
    Page::<Size4KiB>::containing_address(VirtAddr::new(addr)).start_address().as_u64()
}

/// The start addresses of the pages from the one holding `HEAP_START` to
/// the one holding the heap's last byte, both included: the pages the
/// heap needs mapped.
pub open spec fn heap_page_starts() -> Seq<u64> {
    Seq::new(25, |i: int| (HEAP_START + i * 4096) as u64)
}

/// The first and the last page of the heap range, as start addresses: the
/// page holding `HEAP_START` and the page holding the heap's last byte
/// `HEAP_START + HEAP_SIZE - 1`. The pages from the first to the last,
/// both included, are `heap_page_starts`.
pub fn heap_page_range() -> (r: (u64, u64))
    ensures
        r.0 == heap_page_starts()[0],
        r.1 == heap_page_starts()[24],
        r.0 == HEAP_START & !0xfffu64,
        r.1 == (HEAP_START + HEAP_SIZE - 1) as u64 & !0xfffu64,
{
    let first = page_start_containing(HEAP_START);
    let last = page_start_containing(HEAP_START + HEAP_SIZE as u64 - 1);
    assert(0x4444_4444_0000u64 & !0xfffu64 == 0x4444_4444_0000u64) by (bit_vector);
    assert(0x4444_4445_8fffu64 & !0xfffu64 == 0x4444_4445_8000u64) by (bit_vector);
    (first, last)
}

/// The heap pages cover the heap range exactly: every address of
/// `HEAP_START..HEAP_START + HEAP_SIZE` lies in exactly one of them, and
/// each of them starts 4096-aligned inside the range.
pub proof fn lemma_heap_pages_cover_heap(addr: int)
    requires
        HEAP_START <= addr < HEAP_START + HEAP_SIZE,
    ensures
        exists|i: int|
            0 <= i < 25 && #[trigger] heap_page_starts()[i] <= addr < heap_page_starts()[i] + 4096,
        forall|i: int| 0 <= i < 25 ==> #[trigger] heap_page_starts()[i] % 4096 == 0,
{
    let i = (addr - HEAP_START) / 4096;
    assert(0 <= i < 25);
    assert(heap_page_starts()[i] == HEAP_START + i * 4096);
    assert(HEAP_START + i * 4096 <= addr < HEAP_START + i * 4096 + 4096);
    assert forall|i: int| 0 <= i < 25 implies #[trigger] heap_page_starts()[i] % 4096 == 0 by {
        assert((HEAP_START + i * 4096) % 4096 == 0);
    }
}

} // verus!
