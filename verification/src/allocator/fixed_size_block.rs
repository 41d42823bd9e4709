use vstd::prelude::*;
use crate::allocator::{align_up_spec, power_of_two};

verus! {

/// Number of block size classes.
pub const BLOCK_CLASSES: usize = 9;

/// The block size of class `i`: 8, 16, 32, ..., 2048 bytes.
pub open spec fn block_size_spec(i: int) -> int {
    if i == 0 {
        8
    } else if i == 1 {
        16
    } else if i == 2 {
        32
    } else if i == 3 {
        64
    } else if i == 4 {
        128
    } else if i == 5 {
        256
    } else if i == 6 {
        512
    } else if i == 7 {
        1024
    } else {
        2048
    }
}

/// The block size of class `index`.
pub fn block_size(index: usize) -> (s: usize)
    requires
        index < BLOCK_CLASSES,
    ensures
        s == block_size_spec(index as int),
{
    match index {
        0 => 8,
        1 => 16,
        2 => 32,
        3 => 64,
        4 => 128,
        5 => 256,
        6 => 512,
        7 => 1024,
        _ => 2048,
    }
}

/// A size and an alignment that make a valid memory layout: the alignment is
/// a power of two and the size rounded up to it stays within `isize::MAX`.
pub open spec fn layout_valid(size: int, align: int) -> bool {
    &&& power_of_two(align)
    &&& 0 <= size
    &&& align <= isize::MAX
    &&& align_up_spec(size, align) <= isize::MAX
}

/// The size class a request falls in: the smallest class whose block size
/// is at least the request's size and its alignment; `None` when the request
/// is larger than the largest class.
pub fn list_index(size: usize, align: usize) -> (r: Option<usize>)
    ensures
        match r {
            Some(i) => {
                &&& i < BLOCK_CLASSES
                &&& block_size_spec(i as int) >= size
                &&& block_size_spec(i as int) >= align
                &&& forall|j: int|
                    0 <= j < i ==> block_size_spec(j) < size || block_size_spec(j) < align
            },
            None => size > 2048 || align > 2048,
        },
{
    let required_block_size = if size > align {
        size
    } else {
        align
    };
    let mut i: usize = 0;
    while i < BLOCK_CLASSES
        invariant
            i <= BLOCK_CLASSES,
            required_block_size == if size > align { size } else { align },
            forall|j: int| 0 <= j < i ==> block_size_spec(j) < required_block_size,
        decreases BLOCK_CLASSES - i,
    {
        if block_size(i) >= required_block_size {
            return Some(i);
        }
        i = i + 1;
    }
    assert(block_size_spec(8) < required_block_size);
    None
}

#[verifier::external_type_specification]
#[verifier::external_body]
pub struct ExHeap(linked_list_allocator::Heap);

/// The free holes, as `(address, size)` pairs, that a `linked_list_allocator`
/// heap can hand out.
pub uninterp spec fn heap_holes(heap: linked_list_allocator::Heap) -> Set<(usize, usize)>;

/// Calls `linked_list_allocator::Heap::empty`: a heap without any memory, so
/// it has no holes.
#[verifier::external_body]
fn heap_empty() -> (h: linked_list_allocator::Heap)
    ensures
        heap_holes(h) == Set::<(usize, usize)>::empty(),
{
    linked_list_allocator::Heap::empty()
}

/// What a request of `size` bytes aligned to `align` made of the fallback
/// heap answers (0 for none), the heap going from `old` to `new`: a heap
/// without holes gives nothing; a block given is aligned and carved out of
/// one of the holes (`carved`); when nothing is given the holes stay as
/// they were; and a roomy hole (`roomy_hole`) means a block is given.
pub open spec fn fallback_served(
    old: linked_list_allocator::Heap,
    new: linked_list_allocator::Heap,
    size: int,
    align: int,
    r: usize,
) -> bool {
    &&& heap_holes(old) == Set::<(usize, usize)>::empty() ==> r == 0
    &&& r != 0 ==> r as int % align == 0 && carved(heap_holes(old), heap_holes(new), r as int, size, align)
    &&& r == 0 ==> heap_holes(new) == heap_holes(old)
    &&& roomy_hole(old, size, align) ==> r != 0
}

/// The size a request of `size` bytes is carried out with at most: raised
/// to 16 bytes and rounded up to a multiple of 8.
pub open spec fn padded_request(size: int) -> int {
    align_up_spec(if size < 16 { 16 } else { size }, 8)
}

/// Every hole of `heap` starts above address 0 and lies so far below the top
/// of the address space that the heap's address arithmetic for a request of
/// `size` bytes aligned to `align` does not wrap around.
pub open spec fn holes_in_range(heap: linked_list_allocator::Heap, size: int, align: int) -> bool {
    forall|h: (usize, usize)|
        #[trigger] heap_holes(heap).contains(h) ==> 0 < h.0 && h.0 + h.1 <= usize::MAX && h.0 + align
            + padded_request(size) + 32 <= usize::MAX
}

/// `heap` has a hole that starts at an address aligned to `align` and to 8
/// and holds the padded request with room for a hole node after it.
pub open spec fn roomy_hole(heap: linked_list_allocator::Heap, size: int, align: int) -> bool {
    &&& align_up_spec(padded_request(size), align) <= isize::MAX
    &&& exists|h: (usize, usize)|
        #[trigger] heap_holes(heap).contains(h) && (h.0 as int) % align == 0 && h.0 % 8 == 0 && h.1
            >= padded_request(size) + 16
}

/// How a successful first-fit allocation at `p` of `size` bytes aligned to
/// `align` changes the holes: the hole `h` it was carved from gives way to
/// its front padding `[h.0, p)` when the block does not start the hole, and
/// to its back padding (placed at the next multiple of 8 from the end of the
/// padded block, sized up to the hole's end) when the block does not end it;
/// every other hole stays. The block starts at the hole when the hole is
/// aligned, else at the first aligned address a hole node past the hole's
/// start.
pub open spec fn carved_from(
    old_holes: Set<(usize, usize)>,
    new_holes: Set<(usize, usize)>,
    h: (usize, usize),
    p: int,
    size: int,
    align: int,
) -> bool {
    let end = p + padded_request(size);
    let front: Set<(usize, usize)> = if p != h.0 {
        set![(h.0, (p - h.0) as usize)]
    } else {
        Set::empty()
    };
    let back: Set<(usize, usize)> = if end != h.0 + h.1 {
        set![(align_up_spec(end, 8) as usize, (h.0 + h.1 - end) as usize)]
    } else {
        Set::empty()
    };
    &&& old_holes.contains(h)
    &&& p == if h.0 as int % align == 0 { h.0 as int } else { align_up_spec(h.0 + 16, align) }
    &&& end <= h.0 + h.1
    &&& new_holes == old_holes.remove(h).union(front).union(back)
}

/// The block at `p` was carved out of one of the holes (see `carved_from`).
pub open spec fn carved(
    old_holes: Set<(usize, usize)>,
    new_holes: Set<(usize, usize)>,
    p: int,
    size: int,
    align: int,
) -> bool {
    exists|h: (usize, usize)| #[trigger] old_holes.contains(h) && carved_from(old_holes, new_holes, h, p, size, align)
}

/// Calls `linked_list_allocator::Heap::allocate_first_fit` with the layout
/// `(size, align)`, on a heap whose holes lie in range (`holes_in_range`),
/// so that its address arithmetic does not wrap. A heap without holes
/// allocates nothing; a block it hands out is non-null, aligned to `align`,
/// and carved out of one of the holes the heap had, which gives way to its
/// paddings (`carved`); a failed request leaves the holes as they were; and
/// a heap with a roomy hole (`roomy_hole`) does not fail: the first-fit scan
/// succeeds at that hole at the latest. Which hole is used (the first that
/// fits, in address order) is not stated. The sizes the contract speaks of
/// (a hole node of 16 bytes, aligned to 8) are those of a 64-bit machine,
/// which it asks for.
#[verifier::external_body]
fn heap_allocate_first_fit(heap: &mut linked_list_allocator::Heap, size: usize, align: usize) -> (r:
    Option<usize>)
    requires
        usize::MAX == u64::MAX,
        layout_valid(size as int, align as int),
        holes_in_range(*old(heap), size as int, align as int),
    ensures
        heap_holes(*old(heap)) == Set::<(usize, usize)>::empty() ==> r is None,
        r matches Some(p) ==> p != 0 && p % align == 0,
        r matches Some(p) ==> carved(heap_holes(*old(heap)), heap_holes(*final(heap)), p as int, size as int, align as int),
        r is None ==> heap_holes(*final(heap)) == heap_holes(*old(heap)),
        roomy_hole(*old(heap), size as int, align as int) ==> r is Some,
{
    let layout = core::alloc::Layout::from_size_align(size, align).unwrap();
    match heap.allocate_first_fit(layout) {
        Ok(p) => Some(p.as_ptr() as usize),
        Err(()) => None,
    }
}

/// The bottom and top addresses of the memory a `linked_list_allocator`
/// heap was given (as it keeps them).
pub uninterp spec fn heap_limits(heap: linked_list_allocator::Heap) -> (usize, usize);

/// Calls `linked_list_allocator::Heap::bottom`: the (aligned) start of the
/// heap's memory, as the heap keeps it; no hole starts below it.
#[verifier::external_body]
fn heap_bottom(heap: &linked_list_allocator::Heap) -> (r: usize)
    ensures
        r == heap_limits(*heap).0,
        forall|h: (usize, usize)| #[trigger] heap_holes(*heap).contains(h) ==> r <= h.0,
{
    heap.bottom() as usize
}

/// Calls `linked_list_allocator::Heap::top`: the end of the memory the heap
/// owns, as the heap keeps it; every hole is non-empty and ends at or below
/// it.
#[verifier::external_body]
fn heap_top(heap: &linked_list_allocator::Heap) -> (r: usize)
    ensures
        r == heap_limits(*heap).1,
        forall|h: (usize, usize)| #[trigger] heap_holes(*heap).contains(h) ==> h.0 < h.0 + h.1 <= r,
{
    heap.top() as usize
}

/// Every hole of `heap` starts at or above `bottom`, is non-empty, and
/// ends at or below `top`.
pub open spec fn heap_within(heap: linked_list_allocator::Heap, bottom: int, top: int) -> bool {
    forall|h: (usize, usize)| #[trigger] heap_holes(heap).contains(h) ==> bottom <= h.0 && h.0 < h.0 + h.1 <= top
}

/// The request (size, alignment) `allocate` makes of the fallback heap: a
/// block of the request's class, or the request itself when it is larger
/// than every class.
pub open spec fn fallback_request(size: int, align: int) -> (int, int) {
    match list_index_spec(size, align) {
        Some(i) => (block_size_spec(i), block_size_spec(i)),
        None => (size, align),
    }
}

/// Heap bounds `[bottom, top]` admit a request `(size, align)`: the heap is
/// empty (top 0), or it starts above address 0 and its top lies so far
/// below the end of the address space that the heap's arithmetic for the
/// request cannot wrap around.
pub open spec fn bounds_admit(bottom: int, top: int, request: (int, int)) -> bool {
    top == 0 || (bottom > 0 && top + request.1 + padded_request(request.0) + 32 <= usize::MAX)
}

/// An allocator with one stack of free blocks per size class; requests
/// larger than the largest class, and classes whose stack is empty, are
/// served by a fallback heap.
pub struct FixedSizeBlockAllocator {
    list_heads: Vec<Vec<usize>>,
    fallback_allocator: linked_list_allocator::Heap,
}

impl FixedSizeBlockAllocator {
    /// The free blocks of each class; the last block of a class is the head
    /// of its list, handed out first.
    pub closed spec fn lists(&self) -> Seq<Seq<usize>> {
        Seq::new(self.list_heads@.len(), |i: int| self.list_heads@[i]@)
    }

    /// The fallback heap.
    pub closed spec fn fallback(&self) -> linked_list_allocator::Heap {
        self.fallback_allocator
    }

    pub open spec fn wf(&self) -> bool {
        self.lists().len() == BLOCK_CLASSES
    }

    /// An allocator with empty block lists and an empty fallback heap.
    pub fn new() -> (a: FixedSizeBlockAllocator)
        ensures
            a.wf(),
            forall|i: int| 0 <= i < BLOCK_CLASSES ==> #[trigger] a.lists()[i] == Seq::<usize>::empty(),
            heap_holes(a.fallback()) == Set::<(usize, usize)>::empty(),
    {
        let mut list_heads: Vec<Vec<usize>> = Vec::new();
        let mut i: usize = 0;
        while i < BLOCK_CLASSES
            invariant
                i <= BLOCK_CLASSES,
                list_heads@.len() == i,
                forall|j: int| 0 <= j < i ==> (#[trigger] list_heads@[j])@ == Seq::<usize>::empty(),
            decreases BLOCK_CLASSES - i,
        {
            list_heads.push(Vec::new());
            i = i + 1;
        }
        FixedSizeBlockAllocator { list_heads, fallback_allocator: heap_empty() }
    }

    /// The fallback heap can take the request `allocate` would make of it:
    /// the heap's holes lie in range for the block of the size class when
    /// that class has no free block, or for the request itself when it is
    /// larger than every class.
    pub open spec fn fallback_in_range(&self, size: int, align: int) -> bool {
        match list_index_spec(size, align) {
            Some(i) => self.lists()[i].len() > 0 || holes_in_range(
                self.fallback(),
                block_size_spec(i),
                block_size_spec(i),
            ),
            None => holes_in_range(self.fallback(), size, align),
        }
    }

    /// What `allocate` does with a request of `size` bytes aligned to
    /// `align`, taking the allocator from `old` to `new` and answering `r`.
    pub open spec fn allocated(old: Self, new: Self, size: int, align: int, r: usize) -> bool {
        match list_index_spec(size, align) {
            Some(i) => if old.lists()[i].len() > 0 {
                &&& r == old.lists()[i].last()
                &&& new.lists() == old.lists().update(i, old.lists()[i].drop_last())
                &&& new.fallback() == old.fallback()
            } else {
                &&& new.lists() == old.lists()
                &&& fallback_served(old.fallback(), new.fallback(), block_size_spec(i), block_size_spec(i), r)
            },
            None => {
                &&& new.lists() == old.lists()
                &&& fallback_served(old.fallback(), new.fallback(), size, align, r)
            },
        }
    }

    /// Serves a request from the fallback heap; 0 stands for the null
    /// pointer (see `fallback_served`).
    fn fallboack_alloc(&mut self, size: usize, align: usize) -> (r: usize)
        requires
            usize::MAX == u64::MAX,
            layout_valid(size as int, align as int),
            holes_in_range(old(self).fallback(), size as int, align as int),
        ensures
            final(self).lists() == old(self).lists(),
            fallback_served(old(self).fallback(), final(self).fallback(), size as int, align as int, r),
    {
        match heap_allocate_first_fit(&mut self.fallback_allocator, size, align) {
            Some(p) => p,
            None => 0,
        }
    }

    /// Allocates `size` bytes aligned to `align`; 0 stands for the null
    /// pointer. A request that fits a class takes the head block of that
    /// class, or a fresh block of the class size from the fallback heap when
    /// the class has none; a larger request goes to the fallback heap as is
    /// (see `allocated`).
    pub fn allocate(&mut self, size: usize, align: usize) -> (r: usize)
        requires
            usize::MAX == u64::MAX,
            old(self).wf(),
            layout_valid(size as int, align as int),
            old(self).fallback_in_range(size as int, align as int),
        ensures
            final(self).wf(),
            Self::allocated(*old(self), *final(self), size as int, align as int, r),
    {
        match list_index(size, align) {
            Some(index) => {
                proof {
                    lemma_list_index_spec(size as int, align as int, index as int);
                }
                match self.list_heads[index].pop() {
                    Some(node) => {
                        proof {
                            assert(self.lists() =~= old(self).lists().update(
                                index as int,
                                old(self).lists()[index as int].drop_last(),
                            ));
                        }
                        node
                    },
                    None => {
                        let block_size = block_size(index);
                        proof {
                            lemma_block_layout_valid(index as int);
                            assert(self.lists() =~= old(self).lists());
                        }
                        self.fallboack_alloc(block_size, block_size)
                    },
                }
            },
            None => {
                proof {
                    lemma_list_index_none(size as int, align as int);
                }
                self.fallboack_alloc(size, align)
            },
        }
    }

    /// A free block of the request's class is at hand, so the fallback heap
    /// is not asked.
    pub open spec fn class_ready(&self, size: int, align: int) -> bool {
        list_index_spec(size, align) matches Some(i) && self.lists()[i].len() > 0
    }

    /// `allocate`, where the fallback heap's memory lies within `[bottom,
    /// top]` (see `heap_within`): a request that a free block of its class
    /// serves is always carried out; otherwise it is carried out exactly
    /// when the bounds admit the request the fallback heap would get (see
    /// `bounds_admit`), and declined with `None`, changing nothing, when
    /// they do not.
    pub fn allocate_within(&mut self, size: usize, align: usize, bottom: usize, top: usize) -> (r: Option<usize>)
        requires
            usize::MAX == u64::MAX,
            old(self).wf(),
            layout_valid(size as int, align as int),
            heap_within(old(self).fallback(), bottom as int, top as int),
        ensures
            final(self).wf(),
            r matches Some(p) ==> Self::allocated(*old(self), *final(self), size as int, align as int, p),
            r is None ==> final(self).lists() == old(self).lists() && final(self).fallback() == old(
                self,
            ).fallback(),
            (r is Some) == (old(self).class_ready(size as int, align as int) || bounds_admit(
                bottom as int,
                top as int,
                fallback_request(size as int, align as int),
            )),
    {
        let (rs, ra) = match list_index(size, align) {
            Some(index) => {
                proof {
                    lemma_list_index_spec(size as int, align as int, index as int);
                }
                if self.list_heads[index].len() > 0 {
                    return Some(self.allocate(size, align));
                }
                proof {
                    lemma_block_layout_valid(index as int);
                }
                (block_size(index), block_size(index))
            },
            None => {
                proof {
                    lemma_list_index_none(size as int, align as int);
                }
                (size, align)
            },
        };
        assert((rs as int, ra as int) == fallback_request(size as int, align as int));
        proof {
            crate::allocator::lemma_align_up_spec(if rs < 16 { 16 } else { rs as int }, 8);
        }
        let padded = crate::allocator::align_up(if rs < 16 { 16 } else { rs }, 8);
        if top == 0 || (bottom > 0 && ra <= usize::MAX - top && padded <= usize::MAX - top - ra && 32
            <= usize::MAX - top - ra - padded) {
            proof {
                assert(holes_in_range(self.fallback(), rs as int, ra as int));
            }
            Some(self.allocate(size, align))
        } else {
            None
        }
    }

    /// `allocate`, once the fallback heap's bottom and top addresses, read
    /// from the heap, show that it can take the request (see
    /// `allocate_within`, which this hands them to): a request that a free
    /// block of its class serves is always carried out, any other exactly
    /// when the heap's limits admit it (see `bounds_admit`).
    pub fn try_allocate(&mut self, size: usize, align: usize) -> (r: Option<usize>)
        requires
            usize::MAX == u64::MAX,
            old(self).wf(),
            layout_valid(size as int, align as int),
        ensures
            final(self).wf(),
            r matches Some(p) ==> Self::allocated(*old(self), *final(self), size as int, align as int, p),
            r is None ==> final(self).lists() == old(self).lists() && final(self).fallback() == old(
                self,
            ).fallback(),
            old(self).class_ready(size as int, align as int) ==> r is Some,
            (r is Some) == (old(self).class_ready(size as int, align as int) || bounds_admit(
                heap_limits(old(self).fallback()).0 as int,
                heap_limits(old(self).fallback()).1 as int,
                fallback_request(size as int, align as int),
            )),
    {
        let bottom = heap_bottom(&self.fallback_allocator);
        let top = heap_top(&self.fallback_allocator);
        assert(heap_within(self.fallback(), bottom as int, top as int));
        self.allocate_within(size, align, bottom, top)
    }

    /// Takes back the block at `ptr` allocated with `size` and `align`. A
    /// block of a size class becomes the head of its class and `true` is
    /// returned; for a larger block nothing changes and `false` is returned:
    /// such a block belongs to the fallback heap, whose deallocation is left
    /// to the caller (see `fallback_heap`).
    pub fn deallocate(&mut self, ptr: usize, size: usize, align: usize) -> (handled: bool)
        requires
            old(self).wf(),
        ensures
            final(self).wf(),
            final(self).fallback() == old(self).fallback(),
            match list_index_spec(size as int, align as int) {
                Some(i) => handled && final(self).lists() == old(self).lists().update(
                    i,
                    old(self).lists()[i].push(ptr),
                ),
                None => !handled && final(self).lists() == old(self).lists(),
            },
    {
        match list_index(size, align) {
            Some(index) => {
                proof {
                    lemma_list_index_spec(size as int, align as int, index as int);
                }
                self.list_heads[index].push(ptr);
                proof {
                    assert(self.lists() =~= old(self).lists().update(
                        index as int,
                        old(self).lists()[index as int].push(ptr),
                    ));
                }
                true
            },
            None => {
                proof {
                    lemma_list_index_none(size as int, align as int);
                }
                false
            },
        }
    }

    /// The fallback heap, for setting it up and for returning large blocks
    /// to it.
    pub fn fallback_heap(&mut self) -> (h: &mut linked_list_allocator::Heap)
        ensures
            *h == old(self).fallback(),
            final(self).lists() == old(self).lists(),
            final(self).fallback() == *final(h),
    {
        &mut self.fallback_allocator
    }
}

/// The size class of a request with the given size and alignment.
pub open spec fn list_index_spec(size: int, align: int) -> Option<int> {
    let req = if size > align { size } else { align };
    if req > 2048 {
        None
    } else {
        Some(choose|i: int| 0 <= i < BLOCK_CLASSES && block_size_spec(i) >= req && forall|j: int|
            0 <= j < i ==> block_size_spec(j) < req)
    }
}

proof fn lemma_list_index_spec(size: int, align: int, i: int)
    requires
        0 <= i < BLOCK_CLASSES,
        block_size_spec(i) >= size,
        block_size_spec(i) >= align,
        forall|j: int| 0 <= j < i ==> block_size_spec(j) < size || block_size_spec(j) < align,
    ensures
        list_index_spec(size, align) == Some(i),
{
    let req = if size > align { size } else { align };
    assert(forall|j: int| 0 <= j < i ==> block_size_spec(j) < req);
    let c = choose|c: int| 0 <= c < BLOCK_CLASSES && block_size_spec(c) >= req && forall|j: int|
        0 <= j < c ==> block_size_spec(j) < req;
    assert(0 <= c < BLOCK_CLASSES && block_size_spec(c) >= req);
    if c < i {
    } else if c > i {
    }
}

proof fn lemma_list_index_none(size: int, align: int)
    requires
        size > 2048 || align > 2048,
    ensures
        list_index_spec(size, align) is None,
{
}

proof fn lemma_block_layout_valid(i: int)
    requires
        0 <= i < BLOCK_CLASSES,
    ensures
        layout_valid(block_size_spec(i), block_size_spec(i)),
{
    reveal_with_fuel(power_of_two, 13);
    vstd::arithmetic::div_mod::lemma_mod_self_0(block_size_spec(i));
}

/// A request no larger than the largest class has a class, whose blocks are
/// large enough for it.
proof fn lemma_list_index_some(size: int, align: int)
    requires
        size <= 2048,
        align <= 2048,
    ensures
        list_index_spec(size, align) matches Some(i) && 0 <= i < BLOCK_CLASSES && block_size_spec(i)
            >= size && block_size_spec(i) >= align,
{
    let req = if size > align { size } else { align };
    if req <= 8 {
        lemma_list_index_spec(size, align, 0);
    } else if req <= 16 {
        lemma_list_index_spec(size, align, 1);
    } else if req <= 32 {
        lemma_list_index_spec(size, align, 2);
    } else if req <= 64 {
        lemma_list_index_spec(size, align, 3);
    } else if req <= 128 {
        lemma_list_index_spec(size, align, 4);
    } else if req <= 256 {
        lemma_list_index_spec(size, align, 5);
    } else if req <= 512 {
        lemma_list_index_spec(size, align, 6);
    } else if req <= 1024 {
        lemma_list_index_spec(size, align, 7);
    } else {
        lemma_list_index_spec(size, align, 8);
    }
}

/// A freed block is the next one handed out for its class: after a block of
/// a size class is given back, a request with the same size and alignment
/// gets that very block, and the free lists are as before the two calls
/// (the effects `deallocate` and `allocate` state).
pub proof fn law_freed_block_reused_first(lists: Seq<Seq<usize>>, ptr: usize, size: int, align: int)
    requires
        lists.len() == BLOCK_CLASSES,
        size <= 2048,
        align <= 2048,
    ensures
        list_index_spec(size, align) matches Some(i) && {
            let freed = lists.update(i, lists[i].push(ptr));
            &&& freed[i].len() > 0
            &&& freed[i].last() == ptr
            &&& freed.update(i, freed[i].drop_last()) == lists
        },
{
    lemma_list_index_some(size, align);
    let i = list_index_spec(size, align)->0;
    let freed = lists.update(i, lists[i].push(ptr));
    assert(freed[i].drop_last() =~= lists[i]);
    assert(freed.update(i, freed[i].drop_last()) =~= lists);
}

/// The address ranges `a` and `b`, each a start and a length, share no
/// byte.
pub open spec fn apart(a: (int, int), b: (int, int)) -> bool {
    a.0 + a.1 <= b.0 || b.0 + b.1 <= a.0
}

/// The span of a hole as a pair of integers.
pub open spec fn span(h: (usize, usize)) -> (int, int) {
    (h.0 as int, h.1 as int)
}

/// The live blocks `live` are apart from one another and from every hole,
/// distinct holes are apart, and every hole starts at a multiple of 8 and
/// ends within the address space.
pub open spec fn blocks_apart(holes: Set<(usize, usize)>, live: Seq<(int, int)>) -> bool {
    &&& forall|i: int, j: int| 0 <= i < j < live.len() ==> apart(#[trigger] live[i], #[trigger] live[j])
    &&& forall|i: int, h: (usize, usize)|
        0 <= i < live.len() && #[trigger] holes.contains(h) ==> apart(#[trigger] live[i], span(h))
    &&& forall|g: (usize, usize), h: (usize, usize)|
        #[trigger] holes.contains(g) && #[trigger] holes.contains(h) && g != h ==> apart(span(g), span(h))
    &&& forall|h: (usize, usize)| #[trigger] holes.contains(h) ==> h.0 % 8 == 0 && h.0 + h.1 <= usize::MAX
}

proof fn lemma_small_power_of_two_divides_8(n: int)
    requires
        power_of_two(n),
        n <= 8,
    ensures
        8int % n == 0,
    decreases n,
{
    if n > 1 {
        lemma_small_power_of_two_divides_8(n / 2);
        assert(n / 2 == 1 || n / 2 == 2 || n / 2 == 4 || n / 2 == 8);
        assert(n == 2 || n == 4 || n == 8);
    }
}

proof fn lemma_multiple_of_multiple_of_8(p: int, align: int)
    requires
        align > 0,
        align % 8 == 0,
        p % align == 0,
    ensures
        p % 8 == 0,
{
    vstd::arithmetic::div_mod::lemma_fundamental_div_mod(p, align);
    vstd::arithmetic::div_mod::lemma_fundamental_div_mod(align, 8);
    let q = p / align;
    let m = align / 8;
    assert(p == 8 * (q * m)) by (nonlinear_arith)
        requires
            p == align * q,
            align == 8 * m,
    ;
    vstd::arithmetic::div_mod::lemma_mod_multiples_basic(q * m, 8);
    assert((q * m) * 8 == 8 * (q * m)) by (nonlinear_arith);
}

proof fn lemma_divides_via_8(h: int, n: int)
    requires
        n > 0,
        8int % n == 0,
        h % 8 == 0,
    ensures
        h % n == 0,
{
    vstd::arithmetic::div_mod::lemma_fundamental_div_mod(h, 8);
    vstd::arithmetic::div_mod::lemma_fundamental_div_mod(8, n);
    let a = h / 8;
    let b = 8int / n;
    assert(h == n * (b * a)) by (nonlinear_arith)
        requires
            h == 8 * a,
            8int == n * b,
    ;
    vstd::arithmetic::div_mod::lemma_mod_multiples_basic(b * a, n);
    assert((b * a) * n == n * (b * a)) by (nonlinear_arith);
}

/// A hole left once the `len` bytes at `p` were carved out of hole `h`: an
/// earlier hole other than `h`, the part of `h` before the block, or the
/// part of `h` after it.
pub open spec fn left_of_carving(
    old_holes: Set<(usize, usize)>,
    h: (usize, usize),
    g: (usize, usize),
    p: int,
    len: int,
) -> bool {
    ||| old_holes.contains(g) && g != h
    ||| g.0 == h.0 && g.0 + g.1 == p
    ||| g.0 == p + len && g.0 + g.1 == h.0 + h.1
}

/// What carving a block out of a hole shows: the padded block lies inside
/// one of the holes, and every hole left is an earlier one or lies inside
/// that hole, apart from the block, at a multiple of 8 and within the
/// address space.
proof fn lemma_carved_facts(
    old_holes: Set<(usize, usize)>,
    new_holes: Set<(usize, usize)>,
    live: Seq<(int, int)>,
    p: int,
    size: int,
    align: int,
) -> (h: (usize, usize))
    requires
        blocks_apart(old_holes, live),
        power_of_two(align),
        size >= 0,
        carved(old_holes, new_holes, p, size, align),
    ensures
        old_holes.contains(h),
        h.0 <= p,
        p + padded_request(size) <= h.0 + h.1,
        padded_request(size) >= size,
        forall|g: (usize, usize)| #[trigger] new_holes.contains(g) ==> left_of_carving(
            old_holes,
            h,
            g,
            p,
            padded_request(size),
        ) && g.0 % 8 == 0 && g.0 + g.1 <= usize::MAX,
{
    let h = choose|h: (usize, usize)| #[trigger] old_holes.contains(h) && carved_from(
        old_holes,
        new_holes,
        h,
        p,
        size,
        align,
    );
    let padded = padded_request(size);
    let end = p + padded;
    let hend = h.0 + h.1;
    crate::allocator::lemma_align_up_spec(if size < 16 { 16 } else { size }, 8);
    assert(padded >= 16 && padded % 8 == 0);
    assert(align > 0) by {
        reveal_with_fuel(power_of_two, 1);
    }
    crate::allocator::lemma_align_up_spec(h.0 + 16, align);
    assert(p >= h.0);
    assert(p % 8 == 0) by {
        if h.0 as int % align != 0 {
            if align <= 8 {
                lemma_small_power_of_two_divides_8(align);
                lemma_divides_via_8(h.0 as int, align);
            }
            crate::allocator::lemma_power_of_two_multiple_of_8(align);
            lemma_multiple_of_multiple_of_8(p, align);
        }
    }
    assert(end % 8 == 0) by {
        vstd::arithmetic::div_mod::lemma_add_mod_noop(p, padded, 8);
    }
    assert(align_up_spec(end, 8) == end);
    let front: Set<(usize, usize)> = if p != h.0 {
        set![(h.0, (p - h.0) as usize)]
    } else {
        Set::empty()
    };
    let back: Set<(usize, usize)> = if end != hend {
        set![(align_up_spec(end, 8) as usize, (hend - end) as usize)]
    } else {
        Set::empty()
    };
    assert(new_holes == old_holes.remove(h).union(front).union(back));
    assert forall|g: (usize, usize)| #[trigger] new_holes.contains(g) implies left_of_carving(
        old_holes,
        h,
        g,
        p,
        padded,
    ) && g.0 % 8 == 0 && g.0 + g.1 <= usize::MAX by {
        if front.contains(g) {
            assert(g == (h.0, (p - h.0) as usize));
        } else if back.contains(g) {
            assert(g == (end as usize, (hend - end) as usize));
        }
    }
    h
}

/// Live allocations never overlap: where the heap's holes are apart from
/// one another and from every live block, and start at multiples of 8, a
/// block that a request of `size` bytes aligned to `align` carves out of a
/// hole is apart from every live block, and with it live the holes left
/// keep all of this.
pub proof fn law_live_allocations_never_overlap(
    old_holes: Set<(usize, usize)>,
    new_holes: Set<(usize, usize)>,
    live: Seq<(int, int)>,
    p: int,
    size: int,
    align: int,
)
    requires
        blocks_apart(old_holes, live),
        power_of_two(align),
        size >= 0,
        carved(old_holes, new_holes, p, size, align),
    ensures
        blocks_apart(new_holes, live.push((p, padded_request(size)))),
{
    let h = lemma_carved_facts(old_holes, new_holes, live, p, size, align);
    let live2 = live.push((p, padded_request(size)));
    assert forall|i: int, j: int| 0 <= i < j < live2.len() implies apart(#[trigger] live2[i], #[trigger] live2[j]) by {
        if j == live.len() {
            assert(apart(live[i], span(h)));
        }
    }
    assert forall|i: int, g: (usize, usize)|
        0 <= i < live2.len() && #[trigger] new_holes.contains(g) implies apart(#[trigger] live2[i], span(g)) by {
        assert(left_of_carving(old_holes, h, g, p, padded_request(size)));
        if i < live.len() {
            assert(apart(live[i], span(h)));
            if old_holes.contains(g) && g != h {
                assert(apart(live[i], span(g)));
            }
        } else {
            if old_holes.contains(g) && g != h {
                assert(apart(span(g), span(h)));
            }
        }
    }
    assert forall|g: (usize, usize), k: (usize, usize)|
        #[trigger] new_holes.contains(g) && #[trigger] new_holes.contains(k) && g != k implies apart(
        span(g),
        span(k),
    ) by {
        assert(left_of_carving(old_holes, h, g, p, padded_request(size)));
        assert(left_of_carving(old_holes, h, k, p, padded_request(size)));
        if old_holes.contains(g) && g != h {
            assert(apart(span(g), span(h)));
        }
        if old_holes.contains(k) && k != h {
            assert(apart(span(k), span(h)));
        }
        if old_holes.contains(g) && g != h && old_holes.contains(k) && k != h {
            assert(apart(span(g), span(k)));
        }
    }
}

/// Block `k` of the free list of class `i` is there.
pub open spec fn is_free(lists: Seq<Seq<usize>>, i: int, k: int) -> bool {
    0 <= i < lists.len() && 0 <= k < lists[i].len()
}

/// The span of block `k` of the free list of class `i`: its address and
/// the class's block size.
pub open spec fn free_block(lists: Seq<Seq<usize>>, i: int, k: int) -> (int, int) {
    (lists[i][k] as int, block_size_spec(i))
}

/// The bytes a block handed out for a request of `size` bytes aligned to
/// `align` stands for: a whole block of the request's class, or the request
/// itself when it is larger than every class.
pub open spec fn block_span(size: int, align: int) -> int {
    match list_index_spec(size, align) {
        Some(i) => block_size_spec(i),
        None => size,
    }
}

/// The fallback heap's holes, the blocks on the free lists and the live
/// blocks are all apart from one another (see `blocks_apart`).
pub open spec fn memory_apart(holes: Set<(usize, usize)>, lists: Seq<Seq<usize>>, live: Seq<(int, int)>) -> bool {
    &&& blocks_apart(holes, live)
    &&& forall|i: int, k: int, h: (usize, usize)|
        is_free(lists, i, k) && #[trigger] holes.contains(h) ==> apart(#[trigger] free_block(lists, i, k), span(h))
    &&& forall|i: int, k: int, a: int|
        is_free(lists, i, k) && 0 <= a < live.len() ==> apart(#[trigger] free_block(lists, i, k), #[trigger] live[a])
    &&& forall|i: int, k: int, j: int, m: int|
        is_free(lists, i, k) && is_free(lists, j, m) && (i != j || k != m) ==> apart(
            #[trigger] free_block(lists, i, k),
            #[trigger] free_block(lists, j, m),
        )
}

/// Live allocations never overlap, across the whole allocator: where the
/// fallback heap's holes, the free blocks and the live blocks are apart
/// (and the holes start at multiples of 8), a block `allocate` hands out is
/// apart from all of them, and with it live (for `block_span` bytes) they
/// all stay apart.
pub proof fn law_allocate_keeps_blocks_apart(
    old: FixedSizeBlockAllocator,
    new: FixedSizeBlockAllocator,
    live: Seq<(int, int)>,
    size: int,
    align: int,
    r: usize,
)
    requires
        old.wf(),
        layout_valid(size, align),
        memory_apart(heap_holes(old.fallback()), old.lists(), live),
        FixedSizeBlockAllocator::allocated(old, new, size, align, r),
        r != 0,
    ensures
        memory_apart(heap_holes(new.fallback()), new.lists(), live.push((r as int, block_span(size, align)))),
{
    let oh = heap_holes(old.fallback());
    let nh = heap_holes(new.fallback());
    let ol = old.lists();
    let nl = new.lists();
    let b = (r as int, block_span(size, align));
    let live2 = live.push(b);
    match list_index_spec(size, align) {
        Some(i) => {
            lemma_list_index_some(size, align);
            if ol[i].len() > 0 {
                let last = ol[i].len() - 1;
                assert(b == free_block(ol, i, last));
                assert(nh == oh);
                assert forall|j: int, m: int| is_free(nl, j, m) implies is_free(ol, j, m) && free_block(nl, j, m)
                    == free_block(ol, j, m) && (j != i || m != last) by {}
                assert forall|x: int, y: int| 0 <= x < y < live2.len() implies apart(
                    #[trigger] live2[x],
                    #[trigger] live2[y],
                ) by {
                    if y == live.len() {
                        assert(apart(free_block(ol, i, last), live[x]));
                    }
                }
                assert forall|x: int, h: (usize, usize)|
                    0 <= x < live2.len() && #[trigger] nh.contains(h) implies apart(#[trigger] live2[x], span(h)) by {
                    if x == live.len() {
                        assert(apart(free_block(ol, i, last), span(h)));
                    }
                }
                assert forall|j: int, m: int, h: (usize, usize)|
                    is_free(nl, j, m) && #[trigger] nh.contains(h) implies apart(
                    #[trigger] free_block(nl, j, m),
                    span(h),
                ) by {
                    assert(apart(free_block(ol, j, m), span(h)));
                }
                assert forall|j: int, m: int, x: int|
                    is_free(nl, j, m) && 0 <= x < live2.len() implies apart(
                    #[trigger] free_block(nl, j, m),
                    #[trigger] live2[x],
                ) by {
                    if x == live.len() {
                        assert(apart(free_block(ol, j, m), free_block(ol, i, last)));
                    } else {
                        assert(apart(free_block(ol, j, m), live[x]));
                    }
                }
                assert forall|j: int, m: int, j2: int, m2: int|
                    is_free(nl, j, m) && is_free(nl, j2, m2) && (j != j2 || m != m2) implies apart(
                    #[trigger] free_block(nl, j, m),
                    #[trigger] free_block(nl, j2, m2),
                ) by {
                    assert(apart(free_block(ol, j, m), free_block(ol, j2, m2)));
                }
            } else {
                lemma_block_layout_valid(i);
                lemma_carved_into_allocator(oh, nh, ol, live, r as int, block_size_spec(i), block_size_spec(i));
                assert(nl == ol);
            }
        },
        None => {
            lemma_carved_into_allocator(oh, nh, ol, live, r as int, size, align);
            assert(nl == ol);
        },
    }
}

/// A block carved out of the fallback heap for `size` bytes keeps holes,
/// free blocks and live blocks apart, with `size` of its bytes live.
proof fn lemma_carved_into_allocator(
    oh: Set<(usize, usize)>,
    nh: Set<(usize, usize)>,
    lists: Seq<Seq<usize>>,
    live: Seq<(int, int)>,
    p: int,
    size: int,
    align: int,
)
    requires
        memory_apart(oh, lists, live),
        power_of_two(align),
        size >= 0,
        carved(oh, nh, p, size, align),
    ensures
        memory_apart(nh, lists, live.push((p, size))),
{
    let h = lemma_carved_facts(oh, nh, live, p, size, align);
    law_live_allocations_never_overlap(oh, nh, live, p, size, align);
    let padded = padded_request(size);
    let big = live.push((p, padded));
    let live2 = live.push((p, size));
    assert forall|x: int, y: int| 0 <= x < y < live2.len() implies apart(#[trigger] live2[x], #[trigger] live2[y]) by {
        assert(apart(big[x], big[y]));
    }
    assert forall|x: int, g: (usize, usize)|
        0 <= x < live2.len() && #[trigger] nh.contains(g) implies apart(#[trigger] live2[x], span(g)) by {
        assert(apart(big[x], span(g)));
    }
    assert forall|j: int, m: int, g: (usize, usize)|
        is_free(lists, j, m) && #[trigger] nh.contains(g) implies apart(#[trigger] free_block(lists, j, m), span(g)) by {
        assert(left_of_carving(oh, h, g, p, padded));
        assert(apart(free_block(lists, j, m), span(h)));
        if oh.contains(g) && g != h {
            assert(apart(free_block(lists, j, m), span(g)));
        }
    }
    assert forall|j: int, m: int, x: int|
        is_free(lists, j, m) && 0 <= x < live2.len() implies apart(
        #[trigger] free_block(lists, j, m),
        #[trigger] live2[x],
    ) by {
        if x == live.len() {
            assert(apart(free_block(lists, j, m), span(h)));
        } else {
            assert(apart(free_block(lists, j, m), live[x]));
        }
    }
}

/// Freeing a live block of a size class keeps holes, free blocks and live
/// blocks apart: the block, live for the whole block of its class
/// (`block_span`), leaves the live blocks and becomes the head of its
/// class's free list.
pub proof fn law_deallocate_keeps_blocks_apart(
    old: FixedSizeBlockAllocator,
    new: FixedSizeBlockAllocator,
    live: Seq<(int, int)>,
    a: int,
    ptr: usize,
    size: int,
    align: int,
)
    requires
        old.wf(),
        memory_apart(heap_holes(old.fallback()), old.lists(), live),
        0 <= a < live.len(),
        live[a] == (ptr as int, block_span(size, align)),
        list_index_spec(size, align) matches Some(i) && new.lists() == old.lists().update(
            i,
            old.lists()[i].push(ptr),
        ),
        new.fallback() == old.fallback(),
    ensures
        memory_apart(heap_holes(new.fallback()), new.lists(), live.remove(a)),
{
    let holes = heap_holes(old.fallback());
    let ol = old.lists();
    let nl = new.lists();
    let i = list_index_spec(size, align)->0;
    let n = ol[i].len() as int;
    assert(0 <= i < BLOCK_CLASSES) by {
        lemma_list_index_choice(size, align);
    }
    let live2 = live.remove(a);
    assert(free_block(nl, i, n) == live[a]);
    assert forall|j: int, m: int| is_free(nl, j, m) && (j != i || m != n) implies is_free(ol, j, m) && free_block(
        nl,
        j,
        m,
    ) == free_block(ol, j, m) by {}
    assert forall|x: int| 0 <= x < live2.len() implies #[trigger] live2[x] == live[if x < a { x } else { x + 1 }] by {}
    assert forall|x: int, y: int| 0 <= x < y < live2.len() implies apart(#[trigger] live2[x], #[trigger] live2[y]) by {
        let x1 = if x < a { x } else { x + 1 };
        let y1 = if y < a { y } else { y + 1 };
        assert(apart(live[x1], live[y1]));
    }
    assert forall|x: int, h: (usize, usize)|
        0 <= x < live2.len() && #[trigger] holes.contains(h) implies apart(#[trigger] live2[x], span(h)) by {
        let x1 = if x < a { x } else { x + 1 };
        assert(apart(live[x1], span(h)));
    }
    assert forall|j: int, m: int, h: (usize, usize)|
        is_free(nl, j, m) && #[trigger] holes.contains(h) implies apart(#[trigger] free_block(nl, j, m), span(h)) by {
        if j == i && m == n {
            assert(apart(live[a], span(h)));
        } else {
            assert(apart(free_block(ol, j, m), span(h)));
        }
    }
    assert forall|j: int, m: int, x: int|
        is_free(nl, j, m) && 0 <= x < live2.len() implies apart(
        #[trigger] free_block(nl, j, m),
        #[trigger] live2[x],
    ) by {
        let x1 = if x < a { x } else { x + 1 };
        if j == i && m == n {
            assert(apart(live[x1], live[a]) || apart(live[a], live[x1]));
        } else {
            assert(apart(free_block(ol, j, m), live[x1]));
        }
    }
    assert forall|j: int, m: int, j2: int, m2: int|
        is_free(nl, j, m) && is_free(nl, j2, m2) && (j != j2 || m != m2) implies apart(
        #[trigger] free_block(nl, j, m),
        #[trigger] free_block(nl, j2, m2),
    ) by {
        if j == i && m == n {
            assert(apart(free_block(ol, j2, m2), live[a]));
        } else if j2 == i && m2 == n {
            assert(apart(free_block(ol, j, m), live[a]));
        } else {
            assert(apart(free_block(ol, j, m), free_block(ol, j2, m2)));
        }
    }
}

proof fn lemma_list_index_choice(size: int, align: int)
    requires
        list_index_spec(size, align) is Some,
    ensures
        0 <= list_index_spec(size, align)->0 < BLOCK_CLASSES,
{
    lemma_list_index_some(size, align);
}

} // verus!
