//! The boot-time physical frame allocator: it hands out, one after another,
//! the 4 KiB frames of the usable regions of the firmware's memory map.
use vstd::prelude::*;

verus! {

/// The size of a physical frame, in bytes.
pub const FRAME_SIZE: u64 = 4096;

/// One region of the boot memory map: the byte range `start_addr..end_addr`
/// and whether the firmware marked it usable.
#[derive(Debug, Clone, Copy, PartialEq, Eq, Structural)]
pub struct MemoryRegion {
    pub start_addr: u64,
    pub end_addr: u64,
    pub usable: bool,
}

/// The number of addresses that `start_addr..end_addr` stepped by 4096
/// yields for a usable region (none for any other region).
pub open spec fn region_frame_count(r: MemoryRegion) -> nat {
    if r.usable && r.start_addr < r.end_addr {
        ((r.end_addr - r.start_addr + 4095) / 4096) as nat
    } else {
        0
    }
}

/// The addresses `start_addr, start_addr + 4096, ...` below `end_addr` of a
/// usable region, in order.
pub open spec fn region_addrs(r: MemoryRegion) -> Seq<int> {
    Seq::new(region_frame_count(r), |k: int| r.start_addr + k * 4096)
}

/// The addresses of all usable regions, region after region, in the order
/// of the memory map.
pub open spec fn usable_addrs(rs: Seq<MemoryRegion>) -> Seq<int>
    decreases rs.len(),
{
    if rs.len() == 0 {
        Seq::empty()
    } else {
        usable_addrs(rs.drop_last()) + region_addrs(rs.last())
    }
}

/// The start of the 4 KiB frame that contains address `a`.
pub open spec fn frame_of(a: int) -> int {
    a - a % 4096
}

/// The `n`-th usable frame of the memory map (counting from 0), if there are
/// that many.
pub open spec fn nth_usable_frame(rs: Seq<MemoryRegion>, n: int) -> Option<u64> {
    if 0 <= n < usable_addrs(rs).len() {
        Some(frame_of(usable_addrs(rs)[n]) as u64)
    } else {
        None
    }
}

/// Reaching the `n`-th usable frame passes only through addresses that are
/// valid physical addresses (below 2^52).
pub open spec fn addrs_valid_through(rs: Seq<MemoryRegion>, n: int) -> bool {
    forall|i: int| 0 <= i <= n && i < usable_addrs(rs).len() ==> #[trigger] usable_addrs(rs)[i] < 0x10_0000_0000_0000
}

/// `PhysFrame::<Size4KiB>::containing_address(PhysAddr::new(addr))` of the
/// `x86_64` crate, returned as its start address. The crate aligns the
/// address down to 4096; `PhysAddr::new` panics when a bit from 52 up is set,
/// which the `requires` leaves out.
#[verifier::external_body]
fn frame_containing(addr: u64) -> (start: u64)
    requires
        addr < 0x10_0000_0000_0000,
    ensures
        start == addr - addr % 4096,
{
    x86_64::structures::paging::PhysFrame::<x86_64::structures::paging::Size4KiB>::containing_address(
        x86_64::PhysAddr::new(addr),
    ).start_address().as_u64()
}

/// The addresses of a prefix of the memory map are a prefix of its addresses.
pub proof fn lemma_usable_addrs_prefix(rs: Seq<MemoryRegion>, k: int)
    requires
        0 <= k <= rs.len(),
    ensures
        usable_addrs(rs.take(k)).len() <= usable_addrs(rs).len(),
        forall|j: int| 0 <= j < usable_addrs(rs.take(k)).len() ==> #[trigger] usable_addrs(rs.take(k))[j] == usable_addrs(rs)[j],
    decreases rs.len() - k,
{
    if k == rs.len() {
        assert(rs.take(k) =~= rs);
    } else {
        lemma_usable_addrs_prefix(rs.drop_last(), k);
        assert(rs.drop_last().take(k) =~= rs.take(k));
    }
}

/// The usable regions start on frame boundaries and follow one another in
/// increasing order without overlapping, as in the map the bootloader hands
/// over.
pub open spec fn usable_sorted_aligned(rs: Seq<MemoryRegion>) -> bool {
    &&& forall|k: int| 0 <= k < rs.len() && (#[trigger] rs[k]).usable ==> rs[k].start_addr % 4096 == 0
    &&& forall|k: int, l: int|
        0 <= k < l < rs.len() && (#[trigger] rs[k]).usable && (#[trigger] rs[l]).usable ==> rs[k].end_addr <= rs[l].start_addr
}

/// Every usable address lies below any bound on the ends of the usable
/// regions, at or above any bound on their starts, and on a frame boundary
/// when the regions start on one.
proof fn lemma_usable_addrs_bounds(rs: Seq<MemoryRegion>, lo: int, hi: int)
    requires
        forall|k: int| 0 <= k < rs.len() && (#[trigger] rs[k]).usable ==> lo <= rs[k].start_addr && rs[k].end_addr <= hi,
    ensures
        forall|j: int| 0 <= j < usable_addrs(rs).len() ==> lo <= #[trigger] usable_addrs(rs)[j] < hi,
    decreases rs.len(),
{
    if rs.len() > 0 {
        let p = rs.drop_last();
        assert forall|k: int| 0 <= k < p.len() && (#[trigger] p[k]).usable implies lo <= p[k].start_addr && p[k].end_addr <= hi by {
            assert(p[k] == rs[k]);
        }
        lemma_usable_addrs_bounds(p, lo, hi);
        let r = rs.last();
        assert forall|j: int| 0 <= j < usable_addrs(rs).len() implies lo <= #[trigger] usable_addrs(rs)[j] < hi by {
            if j >= usable_addrs(p).len() {
                let k = j - usable_addrs(p).len();
                assert(region_addrs(r)[k] == r.start_addr + k * 4096);
                assert(k * 4096 <= r.end_addr - r.start_addr - 1) by (nonlinear_arith)
                    requires
                        0 <= k < (r.end_addr - r.start_addr + 4095) / 4096,
                        r.start_addr < r.end_addr,
                ;
            }
        }
    }
}

/// Under a sorted, frame-aligned map, the usable addresses are frame starts
/// and strictly increasing.
proof fn lemma_usable_addrs_increasing(rs: Seq<MemoryRegion>)
    requires
        usable_sorted_aligned(rs),
    ensures
        forall|j: int| 0 <= j < usable_addrs(rs).len() ==> #[trigger] usable_addrs(rs)[j] % 4096 == 0,
        forall|i: int, j: int| 0 <= i < j < usable_addrs(rs).len() ==> #[trigger] usable_addrs(rs)[i] < #[trigger] usable_addrs(rs)[j],
    decreases rs.len(),
{
    if rs.len() > 0 {
        let p = rs.drop_last();
        let r = rs.last();
        assert forall|k: int| 0 <= k < p.len() && (#[trigger] p[k]).usable implies p[k].start_addr % 4096 == 0 by {
            assert(p[k] == rs[k]);
        }
        assert forall|k: int, l: int| 0 <= k < l < p.len() && (#[trigger] p[k]).usable && (#[trigger] p[l]).usable implies p[k].end_addr <= p[l].start_addr by {
            assert(p[k] == rs[k]);
            assert(p[l] == rs[l]);
        }
        lemma_usable_addrs_increasing(p);
        let n = usable_addrs(p).len();
        if r.usable && r.start_addr < r.end_addr {
            assert forall|k: int| 0 <= k < p.len() && (#[trigger] p[k]).usable implies 0 <= p[k].start_addr && p[k].end_addr <= r.start_addr by {
                assert(p[k] == rs[k]);
                assert(rs[rs.len() - 1] == r);
            }
            lemma_usable_addrs_bounds(p, 0, r.start_addr as int);
        }
        assert forall|j: int| 0 <= j < usable_addrs(rs).len() implies #[trigger] usable_addrs(rs)[j] % 4096 == 0 by {
            if j >= n {
                let k = j - n;
                assert(rs[rs.len() - 1] == r);
                assert((r.start_addr + k * 4096) % 4096 == r.start_addr % 4096) by (nonlinear_arith)
                    requires
                        k >= 0,
                ;
            } else {
                assert(usable_addrs(p)[j] % 4096 == 0);
            }
        }
        assert forall|i: int, j: int| 0 <= i < j < usable_addrs(rs).len() implies #[trigger] usable_addrs(rs)[i] < #[trigger] usable_addrs(rs)[j] by {
            if j < n {
                assert(usable_addrs(p)[i] < usable_addrs(p)[j]);
            } else if i < n {
                assert(usable_addrs(p)[i] < r.start_addr);
            } else {
            }
        }
    }
}

/// The allocator never hands out one frame twice: for a memory map whose
/// usable regions are frame-aligned, sorted and disjoint, the `i`-th and the
/// `j`-th usable frames differ whenever `i` and `j` do.
pub proof fn lemma_frames_distinct(rs: Seq<MemoryRegion>, i: int, j: int)
    requires
        usable_sorted_aligned(rs),
        0 <= i < j,
        nth_usable_frame(rs, j) is Some,
    ensures
        nth_usable_frame(rs, i) is Some,
        nth_usable_frame(rs, i)->0 < nth_usable_frame(rs, j)->0,
{
    lemma_usable_addrs_increasing(rs);
    let a = usable_addrs(rs);
    assert(a[i] < a[j]);
    assert(a[i] % 4096 == 0);
    assert(a[j] % 4096 == 0);
    lemma_usable_addrs_bounds(rs, 0, 0x1_0000_0000_0000_0000);
    assert(0 <= a[j] < 0x1_0000_0000_0000_0000);
}

/// Every usable address lies in a usable region of the map, a whole number
/// of frames from its start; `k` is that region.
proof fn lemma_addr_in_region(rs: Seq<MemoryRegion>, j: int) -> (k: int)
    requires
        0 <= j < usable_addrs(rs).len(),
    ensures
        0 <= k < rs.len(),
        rs[k].usable,
        rs[k].start_addr <= usable_addrs(rs)[j] < rs[k].end_addr,
        (usable_addrs(rs)[j] - rs[k].start_addr) % 4096 == 0,
        j >= usable_addrs(rs.drop_last()).len() ==> k == rs.len() - 1,
        j < usable_addrs(rs.drop_last()).len() ==> k < rs.len() - 1,
    decreases rs.len(),
{
    let p = rs.drop_last();
    let n = usable_addrs(p).len();
    if j < n {
        let k = lemma_addr_in_region(p, j);
        assert(p[k] == rs[k]);
        k
    } else {
        let r = rs.last();
        let i = j - n;
        assert(region_addrs(r)[i] == r.start_addr + i * 4096);
        assert(i * 4096 <= r.end_addr - r.start_addr - 1) by (nonlinear_arith)
            requires
                0 <= i < (r.end_addr - r.start_addr + 4095) / 4096,
                r.start_addr < r.end_addr,
        ;
        assert((i * 4096) % 4096 == 0) by (nonlinear_arith)
            requires
                i >= 0,
        ;
        rs.len() - 1
    }
}

/// Every frame the allocator hands out comes from a usable region: the
/// address it stepped to lies in a usable region, and the frame is the one
/// that contains it (so it lies in that region too when the region starts on a
/// frame boundary).
pub proof fn lemma_frame_in_usable_region(rs: Seq<MemoryRegion>, n: int)
    requires
        nth_usable_frame(rs, n) is Some,
    ensures
        exists|k: int|
            0 <= k < rs.len() && (#[trigger] rs[k]).usable && rs[k].start_addr <= usable_addrs(rs)[n] < rs[k].end_addr
                && (rs[k].start_addr % 4096 == 0 ==> rs[k].start_addr <= nth_usable_frame(rs, n)->0 < rs[k].end_addr),
        nth_usable_frame(rs, n)->0 == frame_of(usable_addrs(rs)[n]),
{
    let k = lemma_addr_in_region(rs, n);
    let a = usable_addrs(rs)[n];
    let st = rs[k].start_addr as int;
    assert(a % 4096 == (st + (a - st)) % 4096);
    if st % 4096 == 0 {
        assert(a % 4096 == 0) by (nonlinear_arith)
            requires
                st % 4096 == 0,
                (a - st) % 4096 == 0,
                a >= st,
        ;
    }
    assert(0 <= frame_of(a) <= a);
}

/// The usable regions start on frame boundaries and no two non-empty ones
/// overlap (in whatever order the map lists them).
pub open spec fn usable_disjoint_aligned(rs: Seq<MemoryRegion>) -> bool {
    &&& forall|k: int| 0 <= k < rs.len() && (#[trigger] rs[k]).usable ==> rs[k].start_addr % 4096 == 0
    &&& forall|k: int, l: int|
        0 <= k < rs.len() && 0 <= l < rs.len() && k != l && (#[trigger] rs[k]).usable && (#[trigger] rs[l]).usable
            && rs[k].start_addr < rs[k].end_addr && rs[l].start_addr < rs[l].end_addr
            ==> rs[k].end_addr <= rs[l].start_addr || rs[l].end_addr <= rs[k].start_addr
}

/// Over disjoint usable regions no address is stepped to twice.
proof fn lemma_usable_addrs_distinct(rs: Seq<MemoryRegion>)
    requires
        usable_disjoint_aligned(rs),
    ensures
        forall|i: int, j: int| 0 <= i < j < usable_addrs(rs).len() ==> #[trigger] usable_addrs(rs)[i] != #[trigger] usable_addrs(rs)[j],
    decreases rs.len(),
{
    if rs.len() > 0 {
        let p = rs.drop_last();
        let r = rs.last();
        let last = rs.len() - 1;
        assert(rs[last] == r);
        assert forall|k: int| 0 <= k < p.len() && (#[trigger] p[k]).usable implies p[k].start_addr % 4096 == 0 by {
            assert(p[k] == rs[k]);
        }
        assert forall|k: int, l: int|
            0 <= k < p.len() && 0 <= l < p.len() && k != l && (#[trigger] p[k]).usable && (#[trigger] p[l]).usable
                && p[k].start_addr < p[k].end_addr && p[l].start_addr < p[l].end_addr
                implies p[k].end_addr <= p[l].start_addr || p[l].end_addr <= p[k].start_addr by {
            assert(p[k] == rs[k]);
            assert(p[l] == rs[l]);
        }
        lemma_usable_addrs_distinct(p);
        let n = usable_addrs(p).len();
        assert forall|i: int, j: int| 0 <= i < j < usable_addrs(rs).len() implies #[trigger] usable_addrs(rs)[i] != #[trigger] usable_addrs(rs)[j] by {
            if j < n {
                assert(usable_addrs(p)[i] != usable_addrs(p)[j]);
            } else if i >= n {
                assert(usable_addrs(rs)[i] == r.start_addr + (i - n) * 4096);
                assert(usable_addrs(rs)[j] == r.start_addr + (j - n) * 4096);
            } else {
                let k = lemma_addr_in_region(rs, i);
                let l = lemma_addr_in_region(rs, j);
                assert(l == last);
                assert(k < last);
            }
        }
    }
}

/// The allocator never hands out one frame twice: for a memory map whose
/// usable regions start on frame boundaries and do not overlap, the `i`-th and
/// `j`-th usable frames differ whenever `i` and `j` do.
pub proof fn lemma_frames_never_repeat(rs: Seq<MemoryRegion>, i: int, j: int)
    requires
        usable_disjoint_aligned(rs),
        i != j,
        nth_usable_frame(rs, i) is Some,
        nth_usable_frame(rs, j) is Some,
    ensures
        nth_usable_frame(rs, i)->0 != nth_usable_frame(rs, j)->0,
{
    lemma_usable_addrs_distinct(rs);
    let a = usable_addrs(rs);
    if i < j {
        assert(a[i] != a[j]);
    } else {
        assert(a[j] != a[i]);
    }
    let ki = lemma_addr_in_region(rs, i);
    let kj = lemma_addr_in_region(rs, j);
    let si = rs[ki].start_addr as int;
    let sj = rs[kj].start_addr as int;
    assert(a[i] % 4096 == 0) by (nonlinear_arith)
        requires
            si % 4096 == 0,
            (a[i] - si) % 4096 == 0,
            a[i] >= si,
    ;
    assert(a[j] % 4096 == 0) by (nonlinear_arith)
        requires
            sj % 4096 == 0,
            (a[j] - sj) % 4096 == 0,
            a[j] >= sj,
    ;
}

/// A frame allocator over the usable regions of the boot memory map.
pub struct BootInfoFrameAllocator {
    memory_map: Vec<MemoryRegion>,
    next: usize,
}

impl BootInfoFrameAllocator {
    /// The memory map the allocator hands frames out of.
    pub closed spec fn regions(&self) -> Seq<MemoryRegion> {
        self.memory_map@
    }

    /// How many frames the allocator has handed out (or tried to).
    pub closed spec fn next_index(&self) -> nat {
        self.next as nat
    }

    /// An allocator that starts at the first usable frame of `mem_map`.
    pub fn init(mem_map: Vec<MemoryRegion>) -> (a: Self)
        ensures
            a.regions() == mem_map@,
            a.next_index() == 0,
    {
        BootInfoFrameAllocator { memory_map: mem_map, next: 0 }
    }

    /// How many frames the allocator has handed out (or tried to).
    pub fn allocated(&self) -> (n: usize)
        ensures
            n == self.next_index(),
    {
        self.next
    }

    /// The `n`-th frame (counting from 0) of the usable regions, each region
    /// stepped from its start address by 4096, as the start address of the
    /// frame that contains that step; `None` when there are not that many.
    pub fn usable(&self, n: usize) -> (frame: Option<u64>)
        requires
            addrs_valid_through(self.regions(), n as int),
        ensures
            frame == nth_usable_frame(self.regions(), n as int),
    {
        let ghost rs = self.memory_map@;
        let mut remaining: u64 = n as u64;
        let mut i: usize = 0;
        while i < self.memory_map.len()
            invariant
                rs == self.memory_map@,
                addrs_valid_through(rs, n as int),
                i <= rs.len(),
                remaining + usable_addrs(rs.take(i as int)).len() == n,
            decreases rs.len() - i,
        {
            let r = self.memory_map[i];
            proof {
                assert(rs.take(i + 1).drop_last() =~= rs.take(i as int));
                assert(rs.take(i + 1).last() == r);
            }
            if r.usable && r.start_addr < r.end_addr {
                let span = r.end_addr - r.start_addr;
                let count: u64 = (span - 1) / 4096 + 1;
                assert(count == (span + 4095) / 4096);
                if remaining < count {
                    assert(remaining * 4096 <= span - 1) by (nonlinear_arith)
                        requires
                            remaining < count,
                            count == (span - 1) / 4096 + 1,
                            span >= 1,
                    ;
                    let addr = r.start_addr + remaining * 4096;
                    proof {
                        let pre = usable_addrs(rs.take(i as int));
                        lemma_usable_addrs_prefix(rs, i + 1);
                        assert(usable_addrs(rs.take(i + 1)) == pre + region_addrs(r));
                        assert(usable_addrs(rs.take(i + 1))[n as int] == addr);
                        assert(usable_addrs(rs)[n as int] == addr);
                    }
                    let frame = frame_containing(addr);
                    return Some(frame);
                }
                remaining -= count;
            }
            i += 1;
        }
        proof {
            assert(rs.take(i as int) =~= rs);
        }
        None
    }

    /// Whether reaching the `n`-th usable frame meets only valid physical
    /// addresses, i.e. whether `usable(n)` may be called.
    pub fn addrs_valid(&self, n: usize) -> (ok: bool)
        ensures
            ok == addrs_valid_through(self.regions(), n as int),
    {
        let ghost rs = self.memory_map@;
        let mut remaining: u64 = n as u64;
        let mut i: usize = 0;
        while i < self.memory_map.len()
            invariant
                rs == self.memory_map@,
                i <= rs.len(),
                remaining + usable_addrs(rs.take(i as int)).len() == n,
                forall|j: int| 0 <= j < usable_addrs(rs.take(i as int)).len() ==> #[trigger] usable_addrs(rs.take(i as int))[j] < 0x10_0000_0000_0000,
            decreases rs.len() - i,
        {
            let r = self.memory_map[i];
            let ghost pre = usable_addrs(rs.take(i as int));
            proof {
                assert(rs.take(i + 1).drop_last() =~= rs.take(i as int));
                assert(rs.take(i + 1).last() == r);
                assert(usable_addrs(rs.take(i + 1)) == pre + region_addrs(r));
                lemma_usable_addrs_prefix(rs, i + 1);
            }
            if r.usable && r.start_addr < r.end_addr {
                let span = r.end_addr - r.start_addr;
                let count: u64 = (span - 1) / 4096 + 1;
                assert(count == (span + 4095) / 4096);
                let m: u64 = if remaining < count { remaining } else { count - 1 };
                assert(m * 4096 <= span - 1) by (nonlinear_arith)
                    requires
                        m < count,
                        count == (span - 1) / 4096 + 1,
                        span >= 1,
                ;
                let last = r.start_addr + m * 4096;
                assert(region_addrs(r)[m as int] == last);
                assert(usable_addrs(rs.take(i + 1))[pre.len() + m] == last);
                assert(usable_addrs(rs)[pre.len() + m] == last);
                if last >= 0x10_0000_0000_0000 {
                    return false;
                }
                assert forall|k: int| 0 <= k <= m implies #[trigger] region_addrs(r)[k] < 0x10_0000_0000_0000 by {
                    assert(k * 4096 <= m * 4096) by (nonlinear_arith)
                        requires
                            0 <= k <= m,
                    ;
                }
                if remaining < count {
                    assert forall|j: int| 0 <= j <= n && j < usable_addrs(rs).len() implies #[trigger] usable_addrs(rs)[j] < 0x10_0000_0000_0000 by {
                        if j < pre.len() {
                            assert(usable_addrs(rs.take(i + 1))[j] == pre[j]);
                        } else {
                            assert(usable_addrs(rs.take(i + 1))[j] == region_addrs(r)[j - pre.len()]);
                        }
                    }
                    return true;
                }
                remaining -= count;
            }
            assert forall|j: int| 0 <= j < usable_addrs(rs.take(i + 1)).len() implies #[trigger] usable_addrs(rs.take(i + 1))[j] < 0x10_0000_0000_0000 by {
                if j < pre.len() {
                    assert(usable_addrs(rs.take(i + 1))[j] == pre[j]);
                }
            }
            i += 1;
        }
        proof {
            assert(rs.take(i as int) =~= rs);
        }
        true
    }

    /// Hands out the next usable frame, or `None` once they are all gone; the
    /// count of frames handed out goes up either way.
    pub fn allocate_frame(&mut self) -> (frame: Option<u64>)
        requires
            old(self).next_index() < usize::MAX,
            addrs_valid_through(old(self).regions(), old(self).next_index() as int),
        ensures
            frame == nth_usable_frame(old(self).regions(), old(self).next_index() as int),
            final(self).regions() == old(self).regions(),
            final(self).next_index() == old(self).next_index() + 1,
    {
        let frame = self.usable(self.next);
        self.next += 1;
        frame
    }
}

} // verus!
