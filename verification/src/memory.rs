//! Handing out the usable physical page frames of the boot memory map, one
//! after the other.

use vstd::prelude::*;

verus! {

/// Size of a page frame.
pub const FRAME_SIZE: u64 = 4096;

/// Physical addresses are below 2^52.
pub const PHYS_ADDR_LIMIT: u64 = 0x10_0000_0000_0000;

/// A region of the boot memory map: `[start_addr, end_addr)`, usable or not.
#[derive(Debug, Clone, Copy, PartialEq, Eq, Structural)]
pub struct MemoryRegion {
    pub start_addr: u64,
    pub end_addr: u64,
    pub usable: bool,
}

/// Number of frame addresses a region yields: its start and every 4096
/// bytes after it below its end.
pub open spec fn region_frame_count(r: MemoryRegion) -> int {
    if r.end_addr > r.start_addr {
        (r.end_addr - r.start_addr + 4095) / 4096
    } else {
        0
    }
}

/// The frames of a region: each address rounded down to its 4 KiB frame.
pub open spec fn region_frames(r: MemoryRegion) -> Seq<u64> {
    Seq::new(region_frame_count(r) as nat, |i: int| ((r.start_addr + i * 4096) / 4096 * 4096) as u64)
}

/// The frames of the usable regions among the first `n`, in map order.
pub open spec fn usable_frames(regions: Seq<MemoryRegion>, n: int) -> Seq<u64>
    decreases n,
{
    if n <= 0 {
        seq![]
    } else if regions[n - 1].usable {
        usable_frames(regions, n - 1) + region_frames(regions[n - 1])
    } else {
        usable_frames(regions, n - 1)
    }
}

proof fn lemma_usable_frames_prefix(regions: Seq<MemoryRegion>, m: int, n: int, i: int)
    requires
        0 <= m <= n,
        0 <= i < usable_frames(regions, m).len(),
    ensures
        usable_frames(regions, m).len() <= usable_frames(regions, n).len(),
        usable_frames(regions, n)[i] == usable_frames(regions, m)[i],
    decreases n - m,
{
    if m < n {
        lemma_usable_frames_prefix(regions, m, n - 1, i);
    }
}

/// A frame allocator over the boot memory map: the `next`-th usable frame
/// is handed out next.
pub struct BootInfoFrameAllocator {
    pub memory_map: Vec<MemoryRegion>,
    pub next: usize,
}

impl BootInfoFrameAllocator {
    /// The usable frames of the map, in order.
    pub open spec fn frames(&self) -> Seq<u64> {
        usable_frames(self.memory_map@, self.memory_map@.len() as int)
    }

    /// An allocator that starts with the first usable frame.
    pub fn init(memory_map: Vec<MemoryRegion>) -> (a: BootInfoFrameAllocator)
        ensures
            a.memory_map@ == memory_map@,
            a.next == 0,
    {
        BootInfoFrameAllocator { memory_map, next: 0 }
    }

    /// The `k`-th usable frame, if there is one.
    fn usable_frame(&self, k: usize) -> (f: Option<u64>)
        ensures
            f == (if k < self.frames().len() { Some(self.frames()[k as int]) } else { None::<u64> }),
    {
        let mut rest: usize = k;
        let mut i: usize = 0;
        let ghost regions = self.memory_map@;
        while i < self.memory_map.len()
            invariant
                regions == self.memory_map@,
                i <= regions.len(),
                usable_frames(regions, i as int).len() + rest == k,
            decreases regions.len() - i,
        {
            let r = self.memory_map[i];
            if r.usable && r.end_addr > r.start_addr {
                let d = r.end_addr - r.start_addr;
                let count: u64 = d / 4096 + if d % 4096 != 0 {
                    1
                } else {
                    0
                };
                assert(count == region_frame_count(r));
                if (rest as u64) < count {
                    let addr = r.start_addr + (rest as u64) * 4096;
                    proof {
                        assert((rest as u64) * 4096 < d) by (nonlinear_arith)
                            requires
                                (rest as u64) < count,
                                count == d / 4096 + if d % 4096 != 0 { 1int } else { 0int },
                                d > 0,
                        ;
                        let pre = usable_frames(regions, i as int);
                        assert(usable_frames(regions, i + 1) == pre + region_frames(r));
                        assert(usable_frames(regions, i + 1)[k as int] == region_frames(r)[rest as int]);
                        lemma_usable_frames_prefix(regions, i + 1, regions.len() as int, k as int);
                    }
                    return Some(addr / 4096 * 4096);
                }
                rest = rest - count as usize;
            }
            i = i + 1;
        }
        assert(regions.subrange(0, regions.len() as int) =~= regions);
        None
    }

    /// Hands out the next usable frame, or `None` when all are used up; the
    /// position moves on either way.
    pub fn allocate_frame(&mut self) -> (f: Option<u64>)
        requires
            old(self).next < usize::MAX,
            forall|j: int| 0 <= j <= old(self).next && j < old(self).frames().len() ==> #[trigger] old(self).frames()[j]
                < PHYS_ADDR_LIMIT,
        ensures
            final(self).memory_map@ == old(self).memory_map@,
            final(self).next == old(self).next + 1,
            f == (if old(self).next < old(self).frames().len() {
                Some(old(self).frames()[old(self).next as int])
            } else {
                None::<u64>
            }),
    {
        let frame = self.usable_frame(self.next);
        self.next += 1;
        frame
    }
}

proof fn lemma_frames_aligned(regions: Seq<MemoryRegion>, n: int, i: int)
    requires
        0 <= i < usable_frames(regions, n).len(),
    ensures
        usable_frames(regions, n)[i] % 4096 == 0,
    decreases n,
{
    if n > 0 && regions[n - 1].usable {
        let pre = usable_frames(regions, n - 1);
        if i < pre.len() {
            lemma_frames_aligned(regions, n - 1, i);
        } else {
            let r = regions[n - 1];
            let j = i - pre.len();
            let a = r.start_addr + j * 4096;
            assert(region_frames(r)[j] == (a / 4096 * 4096) as u64);
            assert((a / 4096 * 4096) % 4096 == 0) by (nonlinear_arith)
                requires
                    a >= 0,
            ;
            assert(a / 4096 * 4096 <= a) by (nonlinear_arith)
                requires
                    a >= 0,
            ;
        }
    } else if n > 0 {
        lemma_frames_aligned(regions, n - 1, i);
    }
}

/// Every frame handed out starts on a 4 KiB boundary.
pub proof fn law_frames_are_page_aligned(a: BootInfoFrameAllocator, i: int)
    requires
        0 <= i < a.frames().len(),
    ensures
        a.frames()[i] % 4096 == 0,
{
    lemma_frames_aligned(a.memory_map@, a.memory_map@.len() as int, i);
}

} // verus!
