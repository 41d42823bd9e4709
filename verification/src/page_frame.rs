use vstd::prelude::*;
use crate::bitmap::Bitmap;

verus! {

/// Size of a physical page frame in bytes.
pub const PAGE_SIZE: u64 = 4096;

/// The UEFI memory type of free ("conventional") memory.
pub const CONVENTIONAL: u32 = 7;

/// One entry of the firmware memory map.
#[derive(Debug, Clone, Copy, PartialEq, Eq, Structural)]
pub struct MemoryDescriptor {
    /// UEFI memory type
    pub ty: u32,
    /// Physical start address of the region
    pub phys_start: u64,
    /// Number of 4 KiB pages in the region
    pub page_count: u64,
}

/// Total bytes described by the first `n` entries of a memory map.
pub open spec fn mmap_bytes(mmap: Seq<MemoryDescriptor>, n: int) -> int
    decreases n,
{
    if n <= 0 {
        0
    } else {
        mmap_bytes(mmap, n - 1) + mmap[n - 1].page_count * 4096
    }
}

proof fn lemma_mmap_bytes_mono(mmap: Seq<MemoryDescriptor>, m: int, n: int)
    requires
        0 <= m <= n,
    ensures
        mmap_bytes(mmap, m) <= mmap_bytes(mmap, n),
    decreases n - m,
{
    if m < n {
        lemma_mmap_bytes_mono(mmap, m, n - 1);
    }
}

/// Total memory described by a memory map, in bytes.
pub fn get_memory_size(mmap: &[MemoryDescriptor]) -> (size: u64)
    requires
        mmap_bytes(mmap@, mmap@.len() as int) <= u64::MAX,
    ensures
        size == mmap_bytes(mmap@, mmap@.len() as int),
{
    let mut memory_size: u64 = 0;
    let mut i: usize = 0;
    while i < mmap.len()
        invariant
            i <= mmap@.len(),
            memory_size == mmap_bytes(mmap@, i as int),
            mmap_bytes(mmap@, mmap@.len() as int) <= u64::MAX,
        decreases mmap@.len() - i,
    {
        proof {
            lemma_mmap_bytes_mono(mmap@, i + 1, mmap@.len() as int);
        }
        memory_size = memory_size + mmap[i].page_count * 4096;
        i = i + 1;
    }
    memory_size
}

/// The bookkeeping state of the page-frame allocator: the three byte
/// counters and the page bitmap (`true` = page in use or reserved).
pub struct FrameState {
    pub free: int,
    pub reserved: int,
    pub used: int,
    pub bits: Seq<bool>,
}

/// The four bitmap operations of the allocator.
pub enum PageOp {
    Lock,
    Free,
    Reserve,
    Unreserve,
}

/// Whether page `idx` is marked in the bitmap (pages past its end are not).
pub open spec fn marked(bits: Seq<bool>, idx: int) -> bool {
    0 <= idx < bits.len() && bits[idx]
}

/// Sets page `idx` in the bitmap; past its end nothing changes.
pub open spec fn mark(bits: Seq<bool>, idx: int, v: bool) -> Seq<bool> {
    if 0 <= idx < bits.len() {
        bits.update(idx, v)
    } else {
        bits
    }
}

/// The effect of one operation on page `idx`. Locking or reserving a marked
/// page, and freeing or unreserving an unmarked one, change nothing;
/// otherwise 4096 bytes move between `free` and `used` (lock/free) or
/// `reserved` (reserve/unreserve). The counters move even when the page lies
/// past the end of the bitmap.
pub open spec fn apply(s: FrameState, op: PageOp, idx: int) -> FrameState {
    match op {
        PageOp::Lock => if marked(s.bits, idx) {
            s
        } else {
            FrameState { bits: mark(s.bits, idx, true), free: s.free - 4096, used: s.used + 4096, ..s }
        },
        PageOp::Reserve => if marked(s.bits, idx) {
            s
        } else {
            FrameState {
                bits: mark(s.bits, idx, true),
                free: s.free - 4096,
                reserved: s.reserved + 4096,
                ..s
            }
        },
        PageOp::Free => if !marked(s.bits, idx) {
            s
        } else {
            FrameState { bits: mark(s.bits, idx, false), free: s.free + 4096, used: s.used - 4096, ..s }
        },
        PageOp::Unreserve => if !marked(s.bits, idx) {
            s
        } else {
            FrameState {
                bits: mark(s.bits, idx, false),
                free: s.free + 4096,
                reserved: s.reserved - 4096,
                ..s
            }
        },
    }
}

/// The operation does not drive a counter below zero.
pub open spec fn apply_ok(s: FrameState, op: PageOp, idx: int) -> bool {
    match op {
        PageOp::Lock => marked(s.bits, idx) || s.free >= 4096,
        PageOp::Reserve => marked(s.bits, idx) || s.free >= 4096,
        PageOp::Free => !marked(s.bits, idx) || s.used >= 4096,
        PageOp::Unreserve => !marked(s.bits, idx) || s.reserved >= 4096,
    }
}

/// The operation applied to pages `idx .. idx + n`, in increasing order.
pub open spec fn apply_run(s: FrameState, op: PageOp, idx: int, n: int) -> FrameState
    decreases n,
{
    if n <= 0 {
        s
    } else {
        apply(apply_run(s, op, idx, n - 1), op, idx + n - 1)
    }
}

/// No step of `apply_run(s, op, idx, n)` drives a counter below zero.
pub open spec fn run_ok(s: FrameState, op: PageOp, idx: int, n: int) -> bool
    decreases n,
{
    n <= 0 || (run_ok(s, op, idx, n - 1) && apply_ok(apply_run(s, op, idx, n - 1), op, idx + n - 1))
}

proof fn lemma_run_ok_prefix(s: FrameState, op: PageOp, idx: int, m: int, n: int)
    requires
        0 <= m <= n,
        run_ok(s, op, idx, n),
    ensures
        run_ok(s, op, idx, m),
    decreases n - m,
{
    if m < n {
        lemma_run_ok_prefix(s, op, idx, m, n - 1);
    }
}

/// Every address of the `n` pages from `addr` can be formed without overflow.
pub open spec fn pages_in_range(addr: u64, n: u64) -> bool {
    n == 0 || (addr + (n - 1) * 4096 <= u64::MAX && (n - 1) * 4096 <= isize::MAX)
}

/// The counters and bitmap of the allocator.
pub struct PageFramAllocator {
    free_memory: u64,
    reserved_memory: u64,
    used_memory: u64,
    page_bitmap: Bitmap,
}

impl View for PageFramAllocator {
    type V = FrameState;

    closed spec fn view(&self) -> FrameState {
        FrameState {
            free: self.free_memory as int,
            reserved: self.reserved_memory as int,
            used: self.used_memory as int,
            bits: self.page_bitmap@,
        }
    }
}

/// Whether entry `i` of the memory map is conventional (free) memory.
pub open spec fn conventional(mmap: Seq<MemoryDescriptor>, i: int) -> bool {
    mmap[i].ty == CONVENTIONAL
}

/// `(start, size)` is the largest conventional region of the map: `size` is
/// the largest page count among conventional entries and `start` the address
/// of the first conventional entry of that size; `(0, 0)` when no
/// conventional entry has a page.
pub open spec fn is_largest_section(mmap: Seq<MemoryDescriptor>, start: u64, size: u64) -> bool {
    &&& forall|j: int| 0 <= j < mmap.len() && conventional(mmap, j) ==> mmap[j].page_count <= size
    &&& if size == 0 {
        start == 0
    } else {
        exists|i: int|
            0 <= i < mmap.len() && conventional(mmap, i) && mmap[i].page_count == size
                && mmap[i].phys_start == start && forall|j: int|
                0 <= j < i && conventional(mmap, j) ==> mmap[j].page_count < size
    }
}

/// The largest conventional region of a memory map.
pub open spec fn largest_section(mmap: Seq<MemoryDescriptor>) -> (u64, u64) {
    choose|p: (u64, u64)| is_largest_section(mmap, p.0, p.1)
}

proof fn lemma_largest_section_unique(mmap: Seq<MemoryDescriptor>, a: u64, b: u64)
    requires
        is_largest_section(mmap, a, b),
    ensures
        largest_section(mmap) == (a, b),
{
    let w = (a, b);
    assert(is_largest_section(mmap, w.0, w.1));
    let p = largest_section(mmap);
    assert(is_largest_section(mmap, p.0, p.1));
    if b > 0 {
        let i = choose|i: int|
            0 <= i < mmap.len() && conventional(mmap, i) && mmap[i].page_count == b
                && mmap[i].phys_start == a && forall|j: int|
                0 <= j < i && conventional(mmap, j) ==> mmap[j].page_count < b;
        assert(p.1 >= b);
        if p.1 == 0 {
        } else {
            let k = choose|k: int|
                0 <= k < mmap.len() && conventional(mmap, k) && mmap[k].page_count == p.1
                    && mmap[k].phys_start == p.0 && forall|j: int|
                    0 <= j < k && conventional(mmap, j) ==> mmap[j].page_count < p.1;
            assert(p.1 <= b);
            if i < k {
            } else if k < i {
            }
        }
    } else {
        if p.1 > 0 {
            let k = choose|k: int|
                0 <= k < mmap.len() && conventional(mmap, k) && mmap[k].page_count == p.1
                    && mmap[k].phys_start == p.0 && forall|j: int|
                    0 <= j < k && conventional(mmap, j) ==> mmap[j].page_count < p.1;
        }
    }
}

/// The address and page count of the largest conventional region.
pub fn get_largest_section(mmap: &[MemoryDescriptor]) -> (r: (u64, u64))
    ensures
        is_largest_section(mmap@, r.0, r.1),
        r == largest_section(mmap@),
{
    let mut free_segment: u64 = 0;
    let mut free_segment_size: u64 = 0;
    let mut i: usize = 0;
    while i < mmap.len()
        invariant
            i <= mmap@.len(),
            is_largest_section(mmap@.subrange(0, i as int), free_segment, free_segment_size),
        decreases mmap@.len() - i,
    {
        let entry = mmap[i];
        let ghost pre = mmap@.subrange(0, i as int);
        let ghost post = mmap@.subrange(0, i + 1);
        let ghost old_start = free_segment;
        let ghost old_size = free_segment_size;
        assert(forall|j: int| 0 <= j < i ==> post[j] == pre[j]);
        assert(post[i as int] == entry);
        if entry.ty == CONVENTIONAL && entry.page_count > free_segment_size {
            free_segment = entry.phys_start;
            free_segment_size = entry.page_count;
            assert(conventional(post, i as int));
            assert forall|j: int| 0 <= j < i && conventional(post, j) implies post[j].page_count
                < free_segment_size by {
                assert(post[j] == pre[j]);
                assert(conventional(pre, j));
            }
            assert(is_largest_section(post, free_segment, free_segment_size));
        } else {
            proof {
            if old_size > 0 {
                let k = choose|k: int|
                    0 <= k < pre.len() && conventional(pre, k) && pre[k].page_count == old_size
                        && pre[k].phys_start == old_start && forall|j: int|
                        0 <= j < k && conventional(pre, j) ==> pre[j].page_count < old_size;
                assert(conventional(post, k) && post[k].page_count == old_size && post[k].phys_start
                    == old_start);
                assert forall|j: int| 0 <= j < k && conventional(post, j) implies post[j].page_count
                    < old_size by {
                    assert(post[j] == pre[j]);
                    assert(conventional(pre, j));
                }
                assert(0 <= k < post.len() && conventional(post, k) && post[k].page_count == old_size
                    && post[k].phys_start == old_start && forall|j: int|
                    0 <= j < k && conventional(post, j) ==> post[j].page_count < old_size);
            }
            assert forall|j: int| 0 <= j < post.len() && conventional(post, j) implies post[j].page_count
                <= old_size by {
                if j < i {
                    assert(post[j] == pre[j]);
                    assert(conventional(pre, j));
                }
            }
            }
            assert(is_largest_section(post, free_segment, free_segment_size));
        }
        i = i + 1;
    }
    assert(mmap@.subrange(0, mmap@.len() as int) =~= mmap@);
    proof {
        lemma_largest_section_unique(mmap@, free_segment, free_segment_size);
    }
    (free_segment, free_segment_size)
}

/// Reserves, in map order, the pages of every non-conventional entry among
/// the first `n` entries of the memory map.
pub open spec fn reserve_entries(s: FrameState, mmap: Seq<MemoryDescriptor>, n: int) -> FrameState
    decreases n,
{
    if n <= 0 {
        s
    } else {
        let t = reserve_entries(s, mmap, n - 1);
        let e = mmap[n - 1];
        if e.ty != CONVENTIONAL {
            apply_run(t, PageOp::Reserve, e.phys_start as int / 4096, e.page_count as int)
        } else {
            t
        }
    }
}

/// The reservations of `reserve_entries(s, mmap, n)` form valid addresses and
/// never drive a counter below zero.
pub open spec fn entries_ok(s: FrameState, mmap: Seq<MemoryDescriptor>, n: int) -> bool
    decreases n,
{
    n <= 0 || {
        &&& entries_ok(s, mmap, n - 1)
        &&& mmap[n - 1].ty != CONVENTIONAL ==> {
            &&& pages_in_range(mmap[n - 1].phys_start, mmap[n - 1].page_count)
            &&& run_ok(
                reserve_entries(s, mmap, n - 1),
                PageOp::Reserve,
                mmap[n - 1].phys_start as int / 4096,
                mmap[n - 1].page_count as int,
            )
        }
    }
}

proof fn lemma_entries_ok_prefix(s: FrameState, mmap: Seq<MemoryDescriptor>, m: int, n: int)
    requires
        0 <= m <= n,
        entries_ok(s, mmap, n),
    ensures
        entries_ok(s, mmap, m),
    decreases n - m,
{
    if m < n {
        lemma_entries_ok_prefix(s, mmap, m, n - 1);
    }
}

/// Bytes of bitmap for `memory_size` bytes of memory (one bit per page, plus
/// one spare byte).
pub open spec fn bitmap_size_for(memory_size: int) -> int {
    memory_size / 4096 / 8 + 1
}

/// The state right after the bitmap is created: all memory free, nothing
/// marked.
pub open spec fn fresh_state(mmap: Seq<MemoryDescriptor>) -> FrameState {
    let ms = mmap_bytes(mmap, mmap.len() as int);
    FrameState {
        free: ms,
        reserved: 0,
        used: 0,
        bits: Seq::new((bitmap_size_for(ms) * 8) as nat, |i: int| false),
    }
}

/// The state after the pages holding the bitmap are locked.
pub open spec fn bitmap_locked_state(mmap: Seq<MemoryDescriptor>) -> FrameState {
    let ms = mmap_bytes(mmap, mmap.len() as int);
    apply_run(
        fresh_state(mmap),
        PageOp::Lock,
        largest_section(mmap).0 as int / 4096,
        bitmap_size_for(ms) / 4096 + 1,
    )
}

/// The state the allocator starts in for a memory map: the bitmap sits at
/// the start of the largest conventional region, its own pages are locked,
/// and every non-conventional region is reserved.
pub open spec fn initial_state(mmap: Seq<MemoryDescriptor>) -> FrameState {
    reserve_entries(bitmap_locked_state(mmap), mmap, mmap.len() as int)
}

/// The memory map can be set up without overflow or a counter going below
/// zero.
pub open spec fn init_ok(mmap: Seq<MemoryDescriptor>) -> bool {
    let ms = mmap_bytes(mmap, mmap.len() as int);
    let bsize = bitmap_size_for(ms);
    &&& ms <= u64::MAX
    &&& bsize * 8 * 4096 <= usize::MAX
    &&& pages_in_range(largest_section(mmap).0, (bsize / 4096 + 1) as u64)
    &&& run_ok(fresh_state(mmap), PageOp::Lock, largest_section(mmap).0 as int / 4096, bsize / 4096 + 1)
    &&& entries_ok(bitmap_locked_state(mmap), mmap, mmap.len() as int)
}

/// The counters and the number of bitmap bytes fit their types.
pub open spec fn frame_state_wf(s: FrameState) -> bool {
    &&& s.free >= 0
    &&& s.used >= 0
    &&& s.reserved >= 0
    &&& s.free + s.used + s.reserved <= u64::MAX
    &&& s.bits.len() % 8 == 0
    &&& s.bits.len() * 4096 <= usize::MAX
}

/// The first page, among the first `limit` ones, that is not marked.
pub open spec fn first_unmarked(bits: Seq<bool>, limit: int) -> Option<int> {
    if exists|p: int| 0 <= p < limit && !marked(bits, p) {
        Some(choose|p: int| 0 <= p < limit && !marked(bits, p) && forall|q: int| 0 <= q < p ==> marked(bits, q))
    } else {
        None
    }
}

impl PageFramAllocator {
    /// The counters fit together in a `u64` and the bitmap is well formed.
    pub closed spec fn wf(&self) -> bool {
        &&& self.page_bitmap.wf()
        &&& frame_state_wf(self@)
    }

    /// Number of bytes of the page bitmap.
    pub closed spec fn bitmap_bytes(&self) -> int {
        self.page_bitmap.size as int
    }

    /// Physical address at which the page bitmap sits.
    pub closed spec fn bitmap_addr(&self) -> u64 {
        self.page_bitmap.buffer
    }

    proof fn lemma_wf(&self)
        requires
            self.wf(),
        ensures
            self.page_bitmap.wf(),
            self.page_bitmap.size * 8 == self@.bits.len(),
            frame_state_wf(self@),
    {
    }

    /// What a well-formed allocator shows its callers: no counter is below
    /// zero, the counters fit together in a `u64`, and the bitmap holds 8
    /// pages per byte, so every page `request_page` can hand out (one of
    /// the first `bitmap_bytes()`) lies inside it.
    pub proof fn lemma_counters_and_bitmap(&self)
        requires
            self.wf(),
        ensures
            frame_state_wf(self@),
            self@.bits.len() == self.bitmap_bytes() * 8,
            self.bitmap_bytes() <= self@.bits.len(),
    {
    }

    /// Sets the allocator up from the firmware memory map.
    pub fn new(mmap: &[MemoryDescriptor]) -> (alloc: PageFramAllocator)
        requires
            init_ok(mmap@),
        ensures
            alloc.wf(),
            alloc@ == initial_state(mmap@),
            alloc.bitmap_bytes() == bitmap_size_for(mmap_bytes(mmap@, mmap@.len() as int)),
            alloc.bitmap_addr() == largest_section(mmap@).0,
    {
        let (free_segment, _free_segment_size) = get_largest_section(mmap);
        let memory_size = get_memory_size(mmap);
        let bitmap_size = memory_size / 4096 / 8 + 1;
        let bitmap = Bitmap::new(bitmap_size as usize, free_segment);
        let mut alloc = PageFramAllocator {
            free_memory: memory_size,
            reserved_memory: 0,
            used_memory: 0,
            page_bitmap: bitmap,
        };
        assert(alloc@.bits =~= fresh_state(mmap@).bits);
        assert(alloc@ == fresh_state(mmap@));
        let bitmap_addr = alloc.page_bitmap.buffer;
        alloc.lock_pages(bitmap_addr, bitmap_size / 4096 + 1);
        assert(alloc@ == bitmap_locked_state(mmap@));
        let mut i: usize = 0;
        while i < mmap.len()
            invariant
                i <= mmap@.len(),
                alloc.wf(),
                alloc@ == reserve_entries(bitmap_locked_state(mmap@), mmap@, i as int),
                entries_ok(bitmap_locked_state(mmap@), mmap@, mmap@.len() as int),
                alloc.bitmap_bytes() == bitmap_size_for(mmap_bytes(mmap@, mmap@.len() as int)),
                alloc.bitmap_addr() == largest_section(mmap@).0,
            decreases mmap@.len() - i,
        {
            let entry = mmap[i];
            proof {
                lemma_entries_ok_prefix(bitmap_locked_state(mmap@), mmap@, i + 1, mmap@.len() as int);
            }
            if entry.ty != CONVENTIONAL {
                alloc.reserve_pages(entry.phys_start, entry.page_count);
            }
            i = i + 1;
        }
        alloc
    }

    /// Locks `page_count` consecutive pages starting at `addr`.
    pub fn lock_pages(&mut self, addr: u64, page_count: u64)
        requires
            old(self).wf(),
            pages_in_range(addr, page_count),
            run_ok(old(self)@, PageOp::Lock, addr as int / 4096, page_count as int),
        ensures
            final(self).wf(),
            final(self)@ == apply_run(old(self)@, PageOp::Lock, addr as int / 4096, page_count as int),
            final(self).bitmap_bytes() == old(self).bitmap_bytes(),
            final(self).bitmap_addr() == old(self).bitmap_addr(),
    {
        let ghost start = addr as int / 4096;
        let mut page: u64 = 0;
        while page < page_count
            invariant
                page <= page_count,
                pages_in_range(addr, page_count),
                self.wf(),
                self@ == apply_run(old(self)@, PageOp::Lock, start, page as int),
                run_ok(old(self)@, PageOp::Lock, start, page_count as int),
                start == addr as int / 4096,
                self.bitmap_bytes() == old(self).bitmap_bytes(),
                self.bitmap_addr() == old(self).bitmap_addr(),
            decreases page_count - page,
        {
            proof {
                lemma_run_ok_prefix(old(self)@, PageOp::Lock, start, page + 1, page_count as int);
            }
            let a = addr + page * 4096;
            assert(a as int / 4096 == start + page);
            self.lock_page(a);
            page = page + 1;
        }
    }

    /// Frees `page_count` consecutive pages starting at `addr`.
    pub fn free_pages(&mut self, addr: u64, page_count: u64)
        requires
            old(self).wf(),
            pages_in_range(addr, page_count),
            run_ok(old(self)@, PageOp::Free, addr as int / 4096, page_count as int),
        ensures
            final(self).wf(),
            final(self)@ == apply_run(old(self)@, PageOp::Free, addr as int / 4096, page_count as int),
            final(self).bitmap_bytes() == old(self).bitmap_bytes(),
            final(self).bitmap_addr() == old(self).bitmap_addr(),
    {
        let ghost start = addr as int / 4096;
        let mut page: u64 = 0;
        while page < page_count
            invariant
                page <= page_count,
                pages_in_range(addr, page_count),
                self.wf(),
                self@ == apply_run(old(self)@, PageOp::Free, start, page as int),
                run_ok(old(self)@, PageOp::Free, start, page_count as int),
                start == addr as int / 4096,
                self.bitmap_bytes() == old(self).bitmap_bytes(),
                self.bitmap_addr() == old(self).bitmap_addr(),
            decreases page_count - page,
        {
            proof {
                lemma_run_ok_prefix(old(self)@, PageOp::Free, start, page + 1, page_count as int);
            }
            let a = addr + page * 4096;
            assert(a as int / 4096 == start + page);
            self.free_page(a);
            page = page + 1;
        }
    }

    /// Reserves `page_count` consecutive pages starting at `addr`.
    pub fn reserve_pages(&mut self, addr: u64, page_count: u64)
        requires
            old(self).wf(),
            pages_in_range(addr, page_count),
            run_ok(old(self)@, PageOp::Reserve, addr as int / 4096, page_count as int),
        ensures
            final(self).wf(),
            final(self)@ == apply_run(old(self)@, PageOp::Reserve, addr as int / 4096, page_count as int),
            final(self).bitmap_bytes() == old(self).bitmap_bytes(),
            final(self).bitmap_addr() == old(self).bitmap_addr(),
    {
        let ghost start = addr as int / 4096;
        let mut page: u64 = 0;
        while page < page_count
            invariant
                page <= page_count,
                pages_in_range(addr, page_count),
                self.wf(),
                self@ == apply_run(old(self)@, PageOp::Reserve, start, page as int),
                run_ok(old(self)@, PageOp::Reserve, start, page_count as int),
                start == addr as int / 4096,
                self.bitmap_bytes() == old(self).bitmap_bytes(),
                self.bitmap_addr() == old(self).bitmap_addr(),
            decreases page_count - page,
        {
            proof {
                lemma_run_ok_prefix(old(self)@, PageOp::Reserve, start, page + 1, page_count as int);
            }
            let a = addr + page * 4096;
            assert(a as int / 4096 == start + page);
            self.reserve_page(a);
            page = page + 1;
        }
    }

    /// Releases `page_count` consecutive reserved pages starting at `addr`.
    pub fn unreserve_pages(&mut self, addr: u64, page_count: u64)
        requires
            old(self).wf(),
            pages_in_range(addr, page_count),
            run_ok(old(self)@, PageOp::Unreserve, addr as int / 4096, page_count as int),
        ensures
            final(self).wf(),
            final(self)@ == apply_run(old(self)@, PageOp::Unreserve, addr as int / 4096, page_count as int),
            final(self).bitmap_bytes() == old(self).bitmap_bytes(),
            final(self).bitmap_addr() == old(self).bitmap_addr(),
    {
        let ghost start = addr as int / 4096;
        let mut page: u64 = 0;
        while page < page_count
            invariant
                page <= page_count,
                pages_in_range(addr, page_count),
                self.wf(),
                self@ == apply_run(old(self)@, PageOp::Unreserve, start, page as int),
                run_ok(old(self)@, PageOp::Unreserve, start, page_count as int),
                start == addr as int / 4096,
                self.bitmap_bytes() == old(self).bitmap_bytes(),
                self.bitmap_addr() == old(self).bitmap_addr(),
            decreases page_count - page,
        {
            proof {
                lemma_run_ok_prefix(old(self)@, PageOp::Unreserve, start, page + 1, page_count as int);
            }
            let a = addr + page * 4096;
            assert(a as int / 4096 == start + page);
            self.unreserve_page(a);
            page = page + 1;
        }
    }

    /// Locks and returns the address of the first free page among the first
    /// `bitmap_bytes()` pages (the scan covers one page per bitmap byte);
    /// with none free, the error "No page found" comes back.
    pub fn request_page(&mut self) -> (r: Result<u64, &'static str>)
        requires
            old(self).wf(),
            first_unmarked(old(self)@.bits, old(self).bitmap_bytes()) is Some ==> old(self)@.free >= 4096,
        ensures
            final(self).wf(),
            final(self).bitmap_bytes() == old(self).bitmap_bytes(),
            final(self).bitmap_addr() == old(self).bitmap_addr(),
            match first_unmarked(old(self)@.bits, old(self).bitmap_bytes()) {
                Some(p) => r == Ok::<u64, &'static str>((p * 4096) as u64) && final(self)@ == apply(
                    old(self)@,
                    PageOp::Lock,
                    p,
                ),
                None => r == Err::<u64, &'static str>("No page found") && final(self)@ == old(self)@,
            },
    {
        proof {
            self.lemma_wf();
        }
        let size = self.page_bitmap.size;
        let mut page: usize = 0;
        while page < size
            invariant
                self.wf(),
                self@ == old(self)@,
                self.page_bitmap.size == size,
                self.bitmap_bytes() == old(self).bitmap_bytes(),
                self.bitmap_addr() == old(self).bitmap_addr(),
                size * 8 == self@.bits.len(),
                page <= size,
                forall|q: int| 0 <= q < page ==> marked(self@.bits, q),
                first_unmarked(old(self)@.bits, old(self).bitmap_bytes()) is Some ==> old(self)@.free >= 4096,
            decreases size - page,
        {
            if self.page_bitmap.get(page as u64) == true {
                page = page + 1;
                continue;
            }
            let ptr = (page * 4096) as u64;
            proof {
                let bits = old(self)@.bits;
                let lim = old(self).bitmap_bytes();
                assert(!marked(bits, page as int));
                let f = first_unmarked(bits, lim);
                assert(f is Some);
                let c = f->0;
                assert(0 <= c < lim && !marked(bits, c) && forall|q: int| 0 <= q < c ==> marked(bits, q));
                if c < page {
                } else if c > page {
                }
                assert(c == page);
                assert(ptr as int / 4096 == page);
            }
            self.lock_page(ptr);
            return Ok(ptr);
        }
        proof {
            let bits = old(self)@.bits;
            let lim = old(self).bitmap_bytes();
            assert(!(exists|p: int| 0 <= p < lim && !marked(bits, p)));
        }
        return Err("No page found");
    }

    /// Marks the page at `addr` as in use; a page already marked is left
    /// alone.
    pub fn lock_page(&mut self, addr: u64)
        requires
            old(self).wf(),
            apply_ok(old(self)@, PageOp::Lock, addr as int / 4096),
        ensures
            final(self).wf(),
            final(self)@ == apply(old(self)@, PageOp::Lock, addr as int / 4096),
            final(self).bitmap_bytes() == old(self).bitmap_bytes(),
            final(self).bitmap_addr() == old(self).bitmap_addr(),
    {
        proof {
            self.lemma_wf();
        }
        let index = addr / 4096;
        if self.page_bitmap.get(index) == true {
            return;
        }
        self.page_bitmap.set(index, true);
        self.free_memory -= 4096;
        self.used_memory += 4096;
    }

    /// Marks the page at `addr` as free again after it was locked; an
    /// unmarked page is left alone.
    pub fn free_page(&mut self, addr: u64)
        requires
            old(self).wf(),
            apply_ok(old(self)@, PageOp::Free, addr as int / 4096),
        ensures
            final(self).wf(),
            final(self)@ == apply(old(self)@, PageOp::Free, addr as int / 4096),
            final(self).bitmap_bytes() == old(self).bitmap_bytes(),
            final(self).bitmap_addr() == old(self).bitmap_addr(),
    {
        proof {
            self.lemma_wf();
        }
        let index = addr / 4096;
        if self.page_bitmap.get(index) == false {
            return;
        }
        self.page_bitmap.set(index, false);
        self.free_memory += 4096;
        self.used_memory -= 4096;
    }

    /// Marks the page at `addr` as reserved; a page already marked is left
    /// alone.
    pub fn reserve_page(&mut self, addr: u64)
        requires
            old(self).wf(),
            apply_ok(old(self)@, PageOp::Reserve, addr as int / 4096),
        ensures
            final(self).wf(),
            final(self)@ == apply(old(self)@, PageOp::Reserve, addr as int / 4096),
            final(self).bitmap_bytes() == old(self).bitmap_bytes(),
            final(self).bitmap_addr() == old(self).bitmap_addr(),
    {
        proof {
            self.lemma_wf();
        }
        let index = addr / 4096;
        if self.page_bitmap.get(index) == true {
            return;
        }
        self.page_bitmap.set(index, true);
        self.free_memory -= 4096;
        self.reserved_memory += 4096;
    }

    /// Releases a reserved page at `addr`; an unmarked page is left alone.
    pub fn unreserve_page(&mut self, addr: u64)
        requires
            old(self).wf(),
            apply_ok(old(self)@, PageOp::Unreserve, addr as int / 4096),
        ensures
            final(self).wf(),
            final(self)@ == apply(old(self)@, PageOp::Unreserve, addr as int / 4096),
            final(self).bitmap_bytes() == old(self).bitmap_bytes(),
            final(self).bitmap_addr() == old(self).bitmap_addr(),
    {
        proof {
            self.lemma_wf();
        }
        let index = addr / 4096;
        if self.page_bitmap.get(index) == false {
            return;
        }
        self.page_bitmap.set(index, false);
        self.free_memory += 4096;
        self.reserved_memory -= 4096;
    }

    /// Bytes of free memory.
    pub fn get_free_ram(&self) -> (r: u64)
        ensures
            r == self@.free,
    {
        self.free_memory
    }

    /// Bytes of memory locked for use.
    pub fn get_used_ram(&self) -> (r: u64)
        ensures
            r == self@.used,
    {
        self.used_memory
    }

    /// Bytes of memory reserved.
    pub fn get_reserved_ram(&self) -> (r: u64)
        ensures
            r == self@.reserved,
    {
        self.reserved_memory
    }
}

} // verus!

verus! {

/// Bytes accounted for by the three counters together.
pub open spec fn total(s: FrameState) -> int {
    s.free + s.used + s.reserved
}

/// Every page operation keeps the sum of free, used and reserved bytes.
pub proof fn law_operation_conserves_total(s: FrameState, op: PageOp, idx: int)
    ensures
        total(apply(s, op, idx)) == total(s),
{
}

/// A run of page operations keeps the sum of free, used and reserved bytes.
pub proof fn law_run_conserves_total(s: FrameState, op: PageOp, idx: int, n: int)
    ensures
        total(apply_run(s, op, idx, n)) == total(s),
    decreases n,
{
    if n > 0 {
        law_run_conserves_total(s, op, idx, n - 1);
    }
}

proof fn lemma_entries_conserve_total(s: FrameState, mmap: Seq<MemoryDescriptor>, n: int)
    ensures
        total(reserve_entries(s, mmap, n)) == total(s),
    decreases n,
{
    if n > 0 {
        lemma_entries_conserve_total(s, mmap, n - 1);
        let t = reserve_entries(s, mmap, n - 1);
        let e = mmap[n - 1];
        law_run_conserves_total(t, PageOp::Reserve, e.phys_start as int / 4096, e.page_count as int);
    }
}

/// After set-up, free, used and reserved bytes add up to the size of the
/// memory map.
pub proof fn law_initial_total_is_memory_size(mmap: Seq<MemoryDescriptor>)
    ensures
        total(initial_state(mmap)) == mmap_bytes(mmap, mmap.len() as int),
{
    let ms = mmap_bytes(mmap, mmap.len() as int);
    law_run_conserves_total(
        fresh_state(mmap),
        PageOp::Lock,
        largest_section(mmap).0 as int / 4096,
        bitmap_size_for(ms) / 4096 + 1,
    );
    lemma_entries_conserve_total(bitmap_locked_state(mmap), mmap, mmap.len() as int);
}

/// Locking a free page of the bitmap and then freeing it restores the state.
pub proof fn law_lock_then_free_restores(s: FrameState, idx: int)
    requires
        0 <= idx < s.bits.len(),
        !s.bits[idx],
    ensures
        apply(apply(s, PageOp::Lock, idx), PageOp::Free, idx) == s,
{
    assert(apply(apply(s, PageOp::Lock, idx), PageOp::Free, idx).bits =~= s.bits);
}

/// Reserving a free page of the bitmap and then unreserving it restores the
/// state.
pub proof fn law_reserve_then_unreserve_restores(s: FrameState, idx: int)
    requires
        0 <= idx < s.bits.len(),
        !s.bits[idx],
    ensures
        apply(apply(s, PageOp::Reserve, idx), PageOp::Unreserve, idx) == s,
{
    assert(apply(apply(s, PageOp::Reserve, idx), PageOp::Unreserve, idx).bits =~= s.bits);
}

/// Locking (or reserving) a page of the bitmap twice is the same as once,
/// and the page ends up marked.
pub proof fn law_lock_idempotent(s: FrameState, op: PageOp, idx: int)
    requires
        0 <= idx < s.bits.len(),
        op is Lock || op is Reserve,
    ensures
        apply(apply(s, op, idx), op, idx) == apply(s, op, idx),
        marked(apply(s, op, idx).bits, idx),
{
}

/// Freeing (or unreserving) a page of the bitmap leaves it unmarked.
pub proof fn law_free_unmarks(s: FrameState, op: PageOp, idx: int)
    requires
        0 <= idx < s.bits.len(),
        op is Free || op is Unreserve,
    ensures
        !marked(apply(s, op, idx).bits, idx),
        apply(apply(s, op, idx), op, idx) == apply(s, op, idx),
{
}

/// An operation on one page leaves every other page's mark alone.
pub proof fn law_other_pages_unchanged(s: FrameState, op: PageOp, idx: int, other: int)
    requires
        other != idx,
    ensures
        marked(apply(s, op, idx).bits, other) == marked(s.bits, other),
        apply(s, op, idx).bits.len() == s.bits.len(),
{
}

/// A valid operation keeps the counters within their bounds.
pub proof fn law_operation_keeps_wf(s: FrameState, op: PageOp, idx: int)
    requires
        frame_state_wf(s),
        apply_ok(s, op, idx),
    ensures
        frame_state_wf(apply(s, op, idx)),
{
}

/// The first unmarked page is unmarked and below the limit.
proof fn lemma_first_unmarked(bits: Seq<bool>, limit: int)
    ensures
        first_unmarked(bits, limit) matches Some(p) ==> 0 <= p < limit && !marked(bits, p),
{
    if exists|p: int| 0 <= p < limit && !marked(bits, p) {
        let w = choose|p: int| 0 <= p < limit && !marked(bits, p);
        lemma_first_unmarked_exists(bits, limit, w);
    }
}

/// An unmarked page below the limit makes the lowest one exist.
proof fn lemma_first_unmarked_exists(bits: Seq<bool>, limit: int, w: int)
    requires
        0 <= w < limit,
        !marked(bits, w),
    ensures
        exists|p: int| 0 <= p < limit && !marked(bits, p) && forall|q: int| 0 <= q < p ==> marked(bits, q),
    decreases w,
{
    if forall|q: int| 0 <= q < w ==> marked(bits, q) {
    } else {
        let v = choose|q: int| 0 <= q < w && !marked(bits, q);
        lemma_first_unmarked_exists(bits, limit, v);
    }
}

/// A requested page is not handed out twice: once the first free page has
/// been locked, the next request finds another page (or none).
pub proof fn law_requested_page_not_handed_out_again(s: FrameState, limit: int)
    requires
        limit <= s.bits.len(),
        first_unmarked(s.bits, limit) is Some,
    ensures
        first_unmarked(apply(s, PageOp::Lock, first_unmarked(s.bits, limit)->0).bits, limit) != first_unmarked(
            s.bits,
            limit,
        ),
{
    let p = first_unmarked(s.bits, limit)->0;
    lemma_first_unmarked(s.bits, limit);
    let s1 = apply(s, PageOp::Lock, p);
    assert(marked(s1.bits, p));
    lemma_first_unmarked(s1.bits, limit);
}

/// The number of marked pages.
pub open spec fn count_marked(bits: Seq<bool>) -> int
    decreases bits.len(),
{
    if bits.len() == 0 {
        0
    } else {
        count_marked(bits.drop_last()) + if bits.last() { 1int } else { 0int }
    }
}

proof fn lemma_count_marked_update(bits: Seq<bool>, i: int, v: bool)
    requires
        0 <= i < bits.len(),
    ensures
        count_marked(bits.update(i, v)) == count_marked(bits) - (if bits[i] { 1int } else { 0int }) + (if v {
            1int
        } else {
            0int
        }),
    decreases bits.len(),
{
    let u = bits.update(i, v);
    if i == bits.len() - 1 {
        assert(u.drop_last() =~= bits.drop_last());
    } else {
        assert(u.drop_last() =~= bits.drop_last().update(i, v));
        lemma_count_marked_update(bits.drop_last(), i, v);
    }
}

/// The used and reserved bytes are those of the marked pages.
pub open spec fn accounted(s: FrameState) -> bool {
    s.used + s.reserved == 4096 * count_marked(s.bits)
}

proof fn lemma_count_marked_none(n: nat)
    ensures
        count_marked(Seq::new(n, |i: int| false)) == 0,
    decreases n,
{
    if n > 0 {
        assert(Seq::new(n, |i: int| false).drop_last() =~= Seq::new((n - 1) as nat, |i: int| false));
        lemma_count_marked_none((n - 1) as nat);
    }
}

/// At the start nothing is marked and nothing is used or reserved.
pub proof fn law_fresh_state_accounted(mmap: Seq<MemoryDescriptor>)
    ensures
        accounted(fresh_state(mmap)),
{
    let ms = mmap_bytes(mmap, mmap.len() as int);
    lemma_count_marked_none((bitmap_size_for(ms) * 8) as nat);
}

/// The used and reserved bytes stay those of the marked pages (4096 bytes
/// each) through any operation on a page inside the bitmap.
pub proof fn law_operation_keeps_accounting(s: FrameState, op: PageOp, idx: int)
    requires
        accounted(s),
        0 <= idx < s.bits.len(),
    ensures
        accounted(apply(s, op, idx)),
{
    match op {
        PageOp::Lock => lemma_count_marked_update(s.bits, idx, true),
        PageOp::Reserve => lemma_count_marked_update(s.bits, idx, true),
        PageOp::Free => lemma_count_marked_update(s.bits, idx, false),
        PageOp::Unreserve => lemma_count_marked_update(s.bits, idx, false),
    }
}

/// The same for an operation on a run of pages inside the bitmap.
pub proof fn law_run_keeps_accounting(s: FrameState, op: PageOp, idx: int, n: int)
    requires
        accounted(s),
        0 <= idx,
        idx + n <= s.bits.len(),
    ensures
        accounted(apply_run(s, op, idx, n)),
        apply_run(s, op, idx, n).bits.len() == s.bits.len(),
    decreases n,
{
    if n > 0 {
        law_run_keeps_accounting(s, op, idx, n - 1);
        law_operation_keeps_accounting(apply_run(s, op, idx, n - 1), op, idx + n - 1);
    }
}

/// Every page the set-up touches lies inside the bitmap: the pages holding
/// the bitmap and those of every non-conventional entry of the map.
pub open spec fn setup_in_bitmap(mmap: Seq<MemoryDescriptor>) -> bool {
    let ms = mmap_bytes(mmap, mmap.len() as int);
    let pages = bitmap_size_for(ms) * 8;
    &&& largest_section(mmap).0 as int / 4096 + bitmap_size_for(ms) / 4096 + 1 <= pages
    &&& forall|i: int|
        0 <= i < mmap.len() && (#[trigger] mmap[i]).ty != CONVENTIONAL ==> mmap[i].phys_start as int / 4096
            + mmap[i].page_count <= pages
}

proof fn lemma_entries_keep_accounting(s: FrameState, mmap: Seq<MemoryDescriptor>, n: int)
    requires
        accounted(s),
        n <= mmap.len(),
        forall|i: int|
            0 <= i < n && (#[trigger] mmap[i]).ty != CONVENTIONAL ==> mmap[i].phys_start as int / 4096
                + mmap[i].page_count <= s.bits.len(),
    ensures
        accounted(reserve_entries(s, mmap, n)),
        reserve_entries(s, mmap, n).bits.len() == s.bits.len(),
    decreases n,
{
    if n > 0 {
        lemma_entries_keep_accounting(s, mmap, n - 1);
        let t = reserve_entries(s, mmap, n - 1);
        let e = mmap[n - 1];
        if e.ty != CONVENTIONAL {
            law_run_keeps_accounting(t, PageOp::Reserve, e.phys_start as int / 4096, e.page_count as int);
        }
    }
}

/// After set-up, the used and reserved bytes are those of the marked pages,
/// where every page the set-up touches lies inside the bitmap.
pub proof fn law_initial_state_accounted(mmap: Seq<MemoryDescriptor>)
    requires
        setup_in_bitmap(mmap),
    ensures
        accounted(initial_state(mmap)),
{
    let ms = mmap_bytes(mmap, mmap.len() as int);
    law_fresh_state_accounted(mmap);
    law_run_keeps_accounting(
        fresh_state(mmap),
        PageOp::Lock,
        largest_section(mmap).0 as int / 4096,
        bitmap_size_for(ms) / 4096 + 1,
    );
    lemma_entries_keep_accounting(bitmap_locked_state(mmap), mmap, mmap.len() as int);
}

/// The state after the page operations `ops`, in order: each an operation
/// and the index of the page it is applied to.
pub open spec fn apply_all(s: FrameState, ops: Seq<(PageOp, int)>) -> FrameState
    decreases ops.len(),
{
    if ops.len() == 0 {
        s
    } else {
        apply(apply_all(s, ops.drop_last()), ops.last().0, ops.last().1)
    }
}

proof fn lemma_apply_all_keeps_books(s: FrameState, ops: Seq<(PageOp, int)>)
    requires
        accounted(s),
        forall|k: int| 0 <= k < ops.len() ==> 0 <= (#[trigger] ops[k]).1 < s.bits.len(),
    ensures
        accounted(apply_all(s, ops)),
        total(apply_all(s, ops)) == total(s),
        apply_all(s, ops).bits.len() == s.bits.len(),
    decreases ops.len(),
{
    if ops.len() > 0 {
        let prefix = ops.drop_last();
        assert forall|k: int| 0 <= k < prefix.len() implies 0 <= (#[trigger] prefix[k]).1 < s.bits.len() by {
            assert(prefix[k] == ops[k]);
        }
        lemma_apply_all_keeps_books(s, prefix);
        let t = apply_all(s, prefix);
        assert(0 <= ops[ops.len() - 1].1 < s.bits.len());
        law_operation_keeps_accounting(t, ops.last().0, ops.last().1);
        law_operation_conserves_total(t, ops.last().0, ops.last().1);
    }
}

/// The allocator keeps its books through any sequence of page operations
/// after set-up: the free, used and reserved bytes add up to the size of
/// the memory map, and the used and reserved bytes are those of the marked
/// pages (4096 bytes each), where the set-up and every operation touch
/// pages inside the bitmap only.
pub proof fn law_accounting_after_any_operations(mmap: Seq<MemoryDescriptor>, ops: Seq<(PageOp, int)>)
    requires
        setup_in_bitmap(mmap),
        forall|k: int|
            0 <= k < ops.len() ==> 0 <= (#[trigger] ops[k]).1 < bitmap_size_for(mmap_bytes(mmap, mmap.len() as int))
                * 8,
    ensures
        total(apply_all(initial_state(mmap), ops)) == mmap_bytes(mmap, mmap.len() as int),
        accounted(apply_all(initial_state(mmap), ops)),
{
    let ms = mmap_bytes(mmap, mmap.len() as int);
    law_initial_state_accounted(mmap);
    law_initial_total_is_memory_size(mmap);
    law_fresh_state_accounted(mmap);
    law_run_keeps_accounting(
        fresh_state(mmap),
        PageOp::Lock,
        largest_section(mmap).0 as int / 4096,
        bitmap_size_for(ms) / 4096 + 1,
    );
    lemma_entries_keep_accounting(bitmap_locked_state(mmap), mmap, mmap.len() as int);
    assert(initial_state(mmap).bits.len() == bitmap_size_for(ms) * 8);
    lemma_apply_all_keeps_books(initial_state(mmap), ops);
}

} // verus!
