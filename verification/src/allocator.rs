//! Heap allocators: a first-fit linked-list allocator and a fixed-size
//! block allocator that falls back on an outside heap for large requests.

use vstd::prelude::*;

pub mod fixed_size_block;
pub mod linked_list;

verus! {

/// `n` is a power of two.
pub open spec fn power_of_two(n: int) -> bool
    decreases n,
{
    if n <= 0 {
        false
    } else if n == 1 {
        true
    } else {
        n % 2 == 0 && power_of_two(n / 2)
    }
}

/// A power of two of at least 8 is a multiple of 8.
pub proof fn lemma_power_of_two_multiple_of_8(n: int)
    requires
        power_of_two(n),
        n >= 8,
    ensures
        n % 8 == 0,
    decreases n,
{
    if n / 2 >= 8 {
        lemma_power_of_two_multiple_of_8(n / 2);
    } else {
        reveal_with_fuel(power_of_two, 3);
        assert(n / 2 == 4);
    }
}

/// The smallest multiple of `align` that is at least `addr`.
pub open spec fn align_up_spec(addr: int, align: int) -> int {
    if addr % align == 0 {
        addr
    } else {
        addr - addr % align + align
    }
}

/// The rounded-up address is the next multiple of `align`.
pub proof fn lemma_align_up_spec(addr: int, align: int)
    requires
        align > 0,
        addr >= 0,
    ensures
        align_up_spec(addr, align) % align == 0,
        addr <= align_up_spec(addr, align) < addr + align,
        0 <= addr % align < align,
        addr % align <= addr,
{
    vstd::arithmetic::div_mod::lemma_mod_pos_bound(addr, align);
    vstd::arithmetic::div_mod::lemma_div_pos_is_pos(addr, align);
    assert(align * (addr / align) >= 0) by (nonlinear_arith)
        requires
            align > 0,
            addr / align >= 0,
    ;
    vstd::arithmetic::div_mod::lemma_fundamental_div_mod(addr, align);
    vstd::arithmetic::div_mod::lemma_mod_multiples_basic(addr / align, align);
    vstd::arithmetic::div_mod::lemma_mod_multiples_basic(addr / align + 1, align);
    assert((addr / align) * align == align * (addr / align)) by (nonlinear_arith);
    assert((addr / align + 1) * align == align * (addr / align) + align) by (nonlinear_arith);
}

/// Rounds `addr` up to the next multiple of `align`.
pub fn align_up(addr: usize, align: usize) -> (r: usize)
    requires
        align > 0,
        addr + align - 1 <= usize::MAX,
    ensures
        r == align_up_spec(addr as int, align as int),
        r % align == 0,
        addr <= r < addr + align,
{
    let rem = addr % align;
    proof {
        lemma_align_up_spec(addr as int, align as int);
        if rem != 0 {
            assert(addr as int - rem + align == align_up_spec(addr as int, align as int));
        }
    }
    if rem == 0 {
        addr
    } else {
        addr - rem + align
    }
}

} // verus!
