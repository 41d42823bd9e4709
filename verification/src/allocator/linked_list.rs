use vstd::prelude::*;
use crate::allocator::{
    align_up, align_up_spec, lemma_align_up_spec, power_of_two, lemma_power_of_two_multiple_of_8,
};

verus! {

/// Bytes a free-list node occupies (a size and a link).
pub const NODE_SIZE: usize = 16;

/// Alignment of a free-list node.
pub const NODE_ALIGN: usize = 8;

/// A free region of memory: the node describing it sits at its start.
#[derive(Debug, Clone, Copy, PartialEq, Eq, Structural)]
pub struct ListNode {
    pub start: usize,
    pub size: usize,
}

impl ListNode {
    /// A node for the `size` bytes starting at `start`.
    pub fn new(start: usize, size: usize) -> (n: ListNode)
        ensures
            n.start == start,
            n.size == size,
    {
        ListNode { start, size }
    }

    /// Address at which the node (and its region) starts.
    pub fn start_addr(&self) -> (a: usize)
        ensures
            a == self.start,
    {
        self.start
    }

    /// Address just past the end of the region.
    pub fn end_addr(&self) -> (a: usize)
        requires
            self.start + self.size <= usize::MAX,
        ensures
            a == self.start + self.size,
    {
        self.start_addr() + self.size
    }
}

/// A free region can hold a node and does not wrap around the address space.
pub open spec fn node_wf(n: ListNode) -> bool {
    &&& n.start % NODE_ALIGN == 0
    &&& n.size >= NODE_SIZE
    &&& n.start + n.size <= usize::MAX
}

/// Where an allocation of `size` bytes aligned to `align` would start in
/// region `r`: at the first aligned address, provided the allocation fits
/// and the rest of the region is either empty or large enough for a node.
pub open spec fn region_fit(r: ListNode, size: int, align: int) -> Option<int> {
    let start = align_up_spec(r.start as int, align);
    let end = start + size;
    if end > usize::MAX {
        None
    } else if end > r.start + r.size {
        None
    } else if r.start + r.size - end > 0 && r.start + r.size - end < NODE_SIZE {
        None
    } else {
        Some(start)
    }
}

/// The first region of the list that fits the request.
pub open spec fn first_fit(regions: Seq<ListNode>, size: int, align: int) -> Option<int> {
    if exists|i: int| 0 <= i < regions.len() && region_fit(regions[i], size, align) is Some {
        Some(
            choose|i: int|
                0 <= i < regions.len() && region_fit(regions[i], size, align) is Some && forall|j: int|
                    0 <= j < i ==> region_fit(regions[j], size, align) is None,
        )
    } else {
        None
    }
}

/// Two address ranges `[a, a + m)` and `[b, b + n)` do not overlap.
pub open spec fn ranges_disjoint(a: int, m: int, b: int, n: int) -> bool {
    a + m <= b || b + n <= a
}

/// No two free regions overlap.
pub open spec fn pairwise_disjoint(regions: Seq<ListNode>) -> bool {
    forall|i: int, j: int|
        0 <= i < regions.len() && 0 <= j < regions.len() && i != j ==> ranges_disjoint(
            regions[i].start as int,
            regions[i].size as int,
            regions[j].start as int,
            regions[j].size as int,
        )
}

/// Total free bytes of a list of regions.
pub open spec fn free_bytes(regions: Seq<ListNode>) -> int
    decreases regions.len(),
{
    if regions.len() == 0 {
        0
    } else {
        free_bytes(regions.drop_last()) + regions.last().size
    }
}

/// The size and alignment an allocation is carried out with: the alignment
/// raised to at least a node's, the size padded to that alignment and to at
/// least a node's size.
pub open spec fn adjusted_layout(size: int, align: int) -> (int, int) {
    let a = if align < NODE_ALIGN { NODE_ALIGN as int } else { align };
    let padded = align_up_spec(size, a);
    (if padded < NODE_SIZE { NODE_SIZE as int } else { padded }, a)
}

/// A request the layout rules accept: a power-of-two alignment and a size
/// that, padded to the raised alignment, stays within `isize::MAX`.
pub open spec fn layout_ok(size: int, align: int) -> bool {
    &&& power_of_two(align)
    &&& align <= isize::MAX
    &&& 0 <= size
    &&& align_up_spec(size, if align < NODE_ALIGN { NODE_ALIGN as int } else { align }) <= isize::MAX
}

/// What an allocation of `size` bytes aligned to `align` does to a free
/// list: the start address handed out (0 when nothing fits) and the new
/// list. The first fitting region is taken out; what is left after the
/// allocation goes back to the front of the list. Bytes skipped to reach the
/// alignment are not returned to the list.
pub open spec fn alloc_outcome(regions: Seq<ListNode>, size: int, align: int) -> (int, Seq<ListNode>) {
    let (s, a) = adjusted_layout(size, align);
    match first_fit(regions, s, a) {
        Some(i) => {
            let reg = regions[i];
            let start = region_fit(reg, s, a)->0;
            let excess = reg.start + reg.size - (start + s);
            let rest = regions.remove(i);
            (
                start,
                if excess > 0 {
                    seq![ListNode { start: (start + s) as usize, size: excess as usize }].add(rest)
                } else {
                    rest
                },
            )
        },
        None => (0, regions),
    }
}

/// Every region of the list leaves room to align its start to `align`.
pub open spec fn alignable(regions: Seq<ListNode>, align: int) -> bool {
    forall|i: int| 0 <= i < regions.len() ==> #[trigger] regions[i].start + align - 1 <= usize::MAX
}

proof fn lemma_first_fit_exists(regions: Seq<ListNode>, size: int, align: int, k: int)
    requires
        0 <= k < regions.len(),
        region_fit(regions[k], size, align) is Some,
    ensures
        exists|i: int|
            0 <= i < regions.len() && region_fit(regions[i], size, align) is Some && forall|j: int|
                0 <= j < i ==> region_fit(regions[j], size, align) is None,
    decreases k,
{
    if exists|j: int| 0 <= j < k && region_fit(regions[j], size, align) is Some {
        let j = choose|j: int| 0 <= j < k && region_fit(regions[j], size, align) is Some;
        lemma_first_fit_exists(regions, size, align, j);
    } else {
        assert(forall|j: int| 0 <= j < k ==> region_fit(regions[j], size, align) is None);
    }
}

proof fn lemma_first_fit(regions: Seq<ListNode>, size: int, align: int)
    ensures
        match first_fit(regions, size, align) {
            Some(i) => 0 <= i < regions.len() && region_fit(regions[i], size, align) is Some && forall|j: int|
                0 <= j < i ==> region_fit(regions[j], size, align) is None,
            None => forall|j: int| 0 <= j < regions.len() ==> region_fit(regions[j], size, align) is None,
        },
{
    if exists|k: int| 0 <= k < regions.len() && region_fit(regions[k], size, align) is Some {
        let k = choose|k: int| 0 <= k < regions.len() && region_fit(regions[k], size, align) is Some;
        lemma_first_fit_exists(regions, size, align, k);
    }
}

proof fn lemma_mod_8(x: int, a: int)
    requires
        a > 0,
        a % 8 == 0,
        x % a == 0,
    ensures
        x % 8 == 0,
{
    vstd::arithmetic::div_mod::lemma_mod_mod(x, 8, a / 8);
}

/// A first-fit allocator over a list of free regions, most recently freed
/// first.
pub struct LinkedListAllocator {
    pub regions: Vec<ListNode>,
}

impl LinkedListAllocator {
    /// Every free region is well formed.
    pub open spec fn wf(&self) -> bool {
        forall|i: int| 0 <= i < self.regions@.len() ==> node_wf(#[trigger] self.regions@[i])
    }

    /// An allocator without any memory.
    pub fn new() -> (a: LinkedListAllocator)
        ensures
            a.wf(),
            a.regions@ == Seq::<ListNode>::empty(),
    {
        LinkedListAllocator { regions: Vec::new() }
    }

    /// Hands the heap `[heap_start, heap_start + heap_size)` to the allocator.
    pub fn init(&mut self, heap_start: usize, heap_size: usize)
        requires
            old(self).wf(),
            heap_start % NODE_ALIGN == 0,
            heap_size >= NODE_SIZE,
            heap_start + heap_size <= usize::MAX,
        ensures
            final(self).wf(),
            final(self).regions@ == seq![ListNode { start: heap_start, size: heap_size }].add(
                old(self).regions@,
            ),
    {
        self.add_free_region(heap_start, heap_size);
    }

    /// Puts the region `[addr, addr + size)` at the front of the free list.
    pub fn add_free_region(&mut self, addr: usize, size: usize)
        requires
            old(self).wf(),
            addr % NODE_ALIGN == 0,
            size >= NODE_SIZE,
            addr + size <= usize::MAX,
        ensures
            final(self).wf(),
            final(self).regions@ == seq![ListNode { start: addr, size }].add(old(self).regions@),
    {
        let aligned = align_up(addr, NODE_ALIGN);
        assert(aligned == addr);
        let node = ListNode::new(addr, size);
        self.regions.insert(0, node);
        assert(self.regions@ =~= seq![ListNode { start: addr, size }].add(old(self).regions@));
    }

    /// Where an allocation of `size` bytes aligned to `align` would start in
    /// `region`, or `Err` when it does not fit.
    pub fn alloc_from_region(region: &ListNode, size: usize, align: usize) -> (r: Result<usize, ()>)
        requires
            node_wf(*region),
            align > 0,
            region.start + align - 1 <= usize::MAX,
        ensures
            match region_fit(*region, size as int, align as int) {
                Some(s) => r == Ok::<usize, ()>(s as usize),
                None => r is Err,
            },
    {
        let alloc_start = align_up(region.start_addr(), align);
        let alloc_end = match alloc_start.checked_add(size) {
            Some(e) => e,
            None => return Err(()),
        };
        if alloc_end > region.end_addr() {
            return Err(());
        }
        let excess_size = region.end_addr() - alloc_end;
        if excess_size > 0 && excess_size < NODE_SIZE {
            return Err(());
        }
        Ok(alloc_start)
    }

    /// Takes the first region that can hold the request out of the list and
    /// returns it with the allocation's start address.
    pub fn find_region(&mut self, size: usize, align: usize) -> (r: Option<(ListNode, usize)>)
        requires
            old(self).wf(),
            align > 0,
            forall|i: int|
                0 <= i < old(self).regions@.len() ==> #[trigger] old(self).regions@[i].start + align - 1
                    <= usize::MAX,
        ensures
            final(self).wf(),
            match first_fit(old(self).regions@, size as int, align as int) {
                Some(i) => r == Some(
                    (
                        old(self).regions@[i],
                        region_fit(old(self).regions@[i], size as int, align as int)->0 as usize,
                    ),
                ) && final(self).regions@ == old(self).regions@.remove(i),
                None => r is None && final(self).regions@ == old(self).regions@,
            },
    {
        let mut i: usize = 0;
        while i < self.regions.len()
            invariant
                self.regions@ == old(self).regions@,
                self.wf(),
                align > 0,
                i <= self.regions@.len(),
                forall|j: int| 0 <= j < i ==> region_fit(self.regions@[j], size as int, align as int) is None,
                forall|j: int|
                    0 <= j < self.regions@.len() ==> #[trigger] self.regions@[j].start + align - 1
                        <= usize::MAX,
            decreases self.regions@.len() - i,
        {
            let region = self.regions[i];
            assert(node_wf(self.regions@[i as int]));
            assert(self.regions@[i as int].start + align - 1 <= usize::MAX);
            match Self::alloc_from_region(&region, size, align) {
                Ok(alloc_start) => {
                    let taken = self.regions.remove(i);
                    proof {
                        let regs = old(self).regions@;
                        let f = first_fit(regs, size as int, align as int);
                        assert(region_fit(regs[i as int], size as int, align as int) is Some);
                        assert(f is Some);
                        let c = f->0;
                        if c < i {
                        } else if c > i {
                        }
                        assert(c == i);
                        assert forall|k: int| 0 <= k < self.regions@.len() implies node_wf(
                            #[trigger] self.regions@[k],
                        ) by {
                            if k < i {
                                assert(self.regions@[k] == regs[k]);
                            } else {
                                assert(self.regions@[k] == regs[k + 1]);
                            }
                        }
                    }
                    return Some((taken, alloc_start));
                },
                Err(()) => {
                    i = i + 1;
                },
            }
        }
        None
    }

    /// Allocates `size` bytes aligned to `align`; returns the start address,
    /// or 0 when no free region can hold the request.
    #[verifier::rlimit(50)]
    pub fn allocate(&mut self, size: usize, align: usize) -> (r: usize)
        requires
            old(self).wf(),
            layout_ok(size as int, align as int),
            alignable(old(self).regions@, adjusted_layout(size as int, align as int).1),
        ensures
            final(self).wf(),
            (r as int, final(self).regions@) == alloc_outcome(old(self).regions@, size as int, align as int),
    {
        let (s, a) = Self::size_align(size, align);
        let ghost regs = old(self).regions@;
        proof {
            lemma_first_fit(regs, s as int, a as int);
        }
        match self.find_region(s, a) {
            Some((region, alloc_start)) => {
                let ghost i = first_fit(regs, s as int, a as int)->0;
                assert(node_wf(regs[i]));
                proof {
                    lemma_align_up_spec(regs[i].start as int, a as int);
                }
                let alloc_end = alloc_start + s;
                let excess_size = region.end_addr() - alloc_end;
                if excess_size > 0 {
                    proof {
                        lemma_mod_8(alloc_start as int, a as int);
                        assert((alloc_start + s) % 8 == 0);
                    }
                    self.add_free_region(alloc_end, excess_size);
                }
                alloc_start
            },
            None => 0,
        }
    }

    /// Returns the block at `ptr`, allocated with `size` and `align`, to the
    /// front of the free list.
    pub fn deallocate(&mut self, ptr: usize, size: usize, align: usize)
        requires
            old(self).wf(),
            layout_ok(size as int, align as int),
            ptr % NODE_ALIGN == 0,
            ptr + adjusted_layout(size as int, align as int).0 <= usize::MAX,
        ensures
            final(self).wf(),
            final(self).regions@ == seq![
                ListNode { start: ptr, size: adjusted_layout(size as int, align as int).0 as usize },
            ].add(old(self).regions@),
    {
        let (size, _) = Self::size_align(size, align);
        self.add_free_region(ptr, size)
    }

    /// The size and alignment a request is carried out with (see
    /// `adjusted_layout`).
    pub fn size_align(size: usize, align: usize) -> (r: (usize, usize))
        requires
            layout_ok(size as int, align as int),
        ensures
            (r.0 as int, r.1 as int) == adjusted_layout(size as int, align as int),
            r.1 % NODE_ALIGN == 0,
            r.0 % NODE_ALIGN == 0,
            r.0 >= NODE_SIZE,
    {
        let a = if align < NODE_ALIGN {
            NODE_ALIGN
        } else {
            align
        };
        proof {
            if align >= NODE_ALIGN {
                lemma_power_of_two_multiple_of_8(align as int);
            }
        }
        let padded = align_up(size, a);
        let s = if padded < NODE_SIZE {
            NODE_SIZE
        } else {
            padded
        };
        proof {
            assert(padded % 8 == 0) by {
                assert(padded % a == 0);
                assert(a % 8 == 0);
                vstd::arithmetic::div_mod::lemma_mod_mod(padded as int, 8, (a / 8) as int);
            }
        }
        (s, a)
    }
}

} // verus!

verus! {

/// Allocation keeps the free regions from overlapping, and the block it hands
/// out is aligned, lies inside a region that was free, and overlaps none of
/// the regions that remain free.
pub proof fn law_allocation_keeps_regions_disjoint(regions: Seq<ListNode>, size: int, align: int)
    requires
        forall|i: int| 0 <= i < regions.len() ==> node_wf(#[trigger] regions[i]),
        pairwise_disjoint(regions),
        layout_ok(size, align),
        alignable(regions, adjusted_layout(size, align).1),
    ensures
        pairwise_disjoint(alloc_outcome(regions, size, align).1),
        first_fit(regions, adjusted_layout(size, align).0, adjusted_layout(size, align).1) is Some
            ==> {
            let (s, a) = adjusted_layout(size, align);
            let (r, new_regions) = alloc_outcome(regions, size, align);
            &&& r % a == 0
            &&& exists|i: int|
                0 <= i < regions.len() && regions[i].start <= r && r + s <= regions[i].start
                    + regions[i].size
            &&& forall|k: int|
                0 <= k < new_regions.len() ==> ranges_disjoint(
                    r,
                    s,
                    new_regions[k].start as int,
                    new_regions[k].size as int,
                )
        },
{
    let (s, a) = adjusted_layout(size, align);
    lemma_first_fit(regions, s, a);
    if let Some(i) = first_fit(regions, s, a) {
        let reg = regions[i];
        assert(node_wf(reg));
        lemma_align_up_spec(reg.start as int, a);
        let start = region_fit(reg, s, a)->0;
        let rest = regions.remove(i);
        assert forall|k: int| 0 <= k < rest.len() implies rest[k] == regions[if k < i {
            k
        } else {
            k + 1
        }] by {}
        let excess = reg.start + reg.size - (start + s);
        let new_regions = alloc_outcome(regions, size, align).1;
        assert forall|k: int| 0 <= k < rest.len() implies ranges_disjoint(
            reg.start as int,
            reg.size as int,
            rest[k].start as int,
            rest[k].size as int,
        ) by {
            let kk = if k < i {
                k
            } else {
                k + 1
            };
            assert(rest[k] == regions[kk]);
        }
        assert(pairwise_disjoint(rest)) by {
            assert forall|p: int, q: int|
                0 <= p < rest.len() && 0 <= q < rest.len() && p != q implies ranges_disjoint(
                rest[p].start as int,
                rest[p].size as int,
                rest[q].start as int,
                rest[q].size as int,
            ) by {
                let pp = if p < i {
                    p
                } else {
                    p + 1
                };
                let qq = if q < i {
                    q
                } else {
                    q + 1
                };
                assert(rest[p] == regions[pp]);
                assert(rest[q] == regions[qq]);
            }
        }
        if excess > 0 {
            let e = ListNode { start: (start + s) as usize, size: excess as usize };
            assert(new_regions == seq![e].add(rest));
            assert forall|p: int, q: int|
                0 <= p < new_regions.len() && 0 <= q < new_regions.len() && p != q implies ranges_disjoint(
                new_regions[p].start as int,
                new_regions[p].size as int,
                new_regions[q].start as int,
                new_regions[q].size as int,
            ) by {
                if p > 0 {
                    assert(new_regions[p] == rest[p - 1]);
                }
                if q > 0 {
                    assert(new_regions[q] == rest[q - 1]);
                }
            }
            assert forall|k: int| 0 <= k < new_regions.len() implies ranges_disjoint(
                start,
                s,
                new_regions[k].start as int,
                new_regions[k].size as int,
            ) by {
                if k > 0 {
                    assert(new_regions[k] == rest[k - 1]);
                }
            }
        } else {
            assert(new_regions == rest);
        }
    } else {
    }
}

} // verus!
