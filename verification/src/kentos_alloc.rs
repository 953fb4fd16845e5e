//! The kernel heap's place in virtual memory, and the plan that maps it page
//! by page onto frames from the frame allocator.
use vstd::prelude::*;

verus! {

/// The virtual address at which the kernel heap starts (a 64-bit address,
/// hence a `u64`).
pub const HEAP_START: u64 = 0x_4444_4444_0000;

/// The size of the kernel heap in bytes.
pub const HEAP_SIZE: u64 = 1000 * 1024;

/// A canonical x86_64 virtual address: bits 48 to 63 copy bit 47.
pub open spec fn canonical(addr: u64) -> bool {
    addr < 0x8000_0000_0000 || addr >= 0xFFFF_8000_0000_0000
}

/// `Page::<Size4KiB>::containing_address(VirtAddr::new(addr))` of the
/// `x86_64` crate, returned as its start address. The crate aligns the
/// address down to 4096; `VirtAddr::new` panics on an address that is not
/// canonical, which the `requires` leaves out.
#[verifier::external_body]
fn page_containing(addr: u64) -> (start: u64)
    requires
        canonical(addr),
    ensures
        start == addr - addr % 4096,
{
    x86_64::structures::paging::Page::<x86_64::structures::paging::Size4KiB>::containing_address(
        x86_64::VirtAddr::new(addr),
    ).start_address().as_u64()
}

/// The start of the first page of the heap.
pub open spec fn heap_first_page() -> int {
    HEAP_START - HEAP_START % 4096
}

/// The start of the last page mapped for the heap: the page that contains
/// the address just past the heap (the range is inclusive).
pub open spec fn heap_last_page() -> int {
    (HEAP_START + HEAP_SIZE) - (HEAP_START + HEAP_SIZE) % 4096
}

/// How many pages the heap mapping covers.
pub open spec fn heap_page_count() -> int {
    (heap_last_page() - heap_first_page()) / 4096 + 1
}

/// The start of the `k`-th page of the heap mapping.
pub open spec fn heap_page(k: int) -> int {
    heap_first_page() + k * 4096
}

/// Why mapping the heap stopped.
#[derive(Debug, Clone, Copy, PartialEq, Eq, Structural)]
pub enum HeapInitError {
    /// The frame allocator had no frame left for a heap page.
    FrameAllocationFailed,
}

/// The progress of mapping the heap: the pages from `heap_first_page()` to
/// `heap_last_page()` inclusive, each onto a frame of its own, in order.
pub struct HeapPages {
    first: u64,
    count: u64,
    mapped: u64,
}

impl HeapPages {
    /// How many heap pages have been given a frame.
    pub closed spec fn mapped_count(&self) -> int {
        self.mapped as int
    }

    /// The mapping is the one of the heap range.
    pub closed spec fn wf(&self) -> bool {
        &&& self.first == heap_first_page()
        &&& self.count == heap_page_count()
        &&& self.mapped <= self.count
    }

    /// No heap page mapped yet.
    pub fn new() -> (p: Self)
        ensures
            p.wf(),
            p.mapped_count() == 0,
    {
        let first = page_containing(HEAP_START);
        let last = page_containing(HEAP_START + HEAP_SIZE);
        HeapPages { first, count: (last - first) / 4096 + 1, mapped: 0 }
    }

    /// The heap page to map next, if any is left.
    pub fn next_page(&self) -> (page: Option<u64>)
        requires
            self.wf(),
        ensures
            page == (if self.mapped_count() < heap_page_count() {
                Some(heap_page(self.mapped_count()) as u64)
            } else {
                None
            }),
    {
        if self.mapped < self.count {
            Some(self.first + self.mapped * 4096)
        } else {
            None
        }
    }

    /// Takes the frame the allocator gave for the next heap page: with a
    /// frame, returns the page and the frame to map it onto and moves on;
    /// without one, mapping the heap fails and nothing changes.
    pub fn map_next(&mut self, frame: Option<u64>) -> (r: Result<(u64, u64), HeapInitError>)
        requires
            old(self).wf(),
            old(self).mapped_count() < heap_page_count(),
        ensures
            final(self).wf(),
            match frame {
                None => r == Err::<(u64, u64), HeapInitError>(HeapInitError::FrameAllocationFailed)
                    && final(self).mapped_count() == old(self).mapped_count(),
                Some(f) => r == Ok::<(u64, u64), HeapInitError>((heap_page(old(self).mapped_count()) as u64, f))
                    && final(self).mapped_count() == old(self).mapped_count() + 1,
            },
    {
        match frame {
            None => Err(HeapInitError::FrameAllocationFailed),
            Some(f) => {
                let page = self.first + self.mapped * 4096;
                self.mapped += 1;
                Ok((page, f))
            },
        }
    }
}

/// The heap mapping covers the whole heap: every address from `HEAP_START`
/// to `HEAP_START + HEAP_SIZE` lies in one of its pages.
pub proof fn lemma_heap_pages_cover(a: int)
    requires
        HEAP_START <= a <= HEAP_START + HEAP_SIZE,
    ensures
        0 <= (a - heap_first_page()) / 4096 < heap_page_count(),
        heap_page((a - heap_first_page()) / 4096) <= a < heap_page((a - heap_first_page()) / 4096) + 4096,
{
}

/// The heap mapping is exactly the pages that the heap touches, plus the one
/// that holds the address just past its end: 251 pages from `HEAP_START`.
pub proof fn lemma_heap_page_count()
    ensures
        heap_first_page() == HEAP_START,
        heap_page_count() == HEAP_SIZE / 4096 + 1,
        heap_page_count() == 251,
{
}

} // verus!
