//! Pages, addresses and the checks on sizes the kernel applies everywhere.

use crate::error::KernelError;
use vstd::prelude::*;

verus! {

/// The size of a page, and of a physical frame, in bytes.
pub const PAGE_SIZE: usize = 4096;

/// The highest address of the 32-bit address space the kernel manages.
pub const MAX_ADDRESS: u64 = 0xFFFF_FFFF;

/// `addr` rounded down to a multiple of `align`.
pub open spec fn spec_align_down(addr: int, align: int) -> int {
    addr - addr % align
}

/// `addr` rounded up to a multiple of `align`.
pub open spec fn spec_align_up(addr: int, align: int) -> int {
    if addr % align == 0 {
        addr
    } else {
        addr - addr % align + align
    }
}

/// Rounds `addr` down to a multiple of `align`.
pub fn align_down(addr: usize, align: usize) -> (r: usize)
    requires
        align > 0,
    ensures
        r == spec_align_down(addr as int, align as int),
        r <= addr,
        r % align == 0,
        addr - r < align,
{
    let rem: usize = addr % align;
    proof {
        vstd::arithmetic::div_mod::lemma_fundamental_div_mod(addr as int, align as int);
        vstd::arithmetic::div_mod::lemma_mod_multiples_basic(addr as int / align as int, align as int);
        assert((addr - rem) == align * (addr as int / align as int));
        assert((align * (addr as int / align as int)) % (align as int) == 0) by {
            vstd::arithmetic::mul::lemma_mul_is_commutative(align as int, addr as int / align as int);
        }
    }
    addr - rem
}

/// Rounds `addr` up to a multiple of `align`.
pub fn align_up(addr: usize, align: usize) -> (r: usize)
    requires
        align > 0,
        spec_align_up(addr as int, align as int) <= usize::MAX,
    ensures
        r == spec_align_up(addr as int, align as int),
        r >= addr,
        r % align == 0,
        r - addr < align,
{
    let rem: usize = addr % align;
    if rem == 0 {
        addr
    } else {
        let down: usize = align_down(addr, align);
        proof {
            vstd::arithmetic::div_mod::lemma_mod_add_multiples_vanish(down as int, align as int);
        }
        down + align
    }
}

/// Rounds an address down to the start of its page.
pub fn round_to_page(addr: usize) -> (r: usize)
    ensures
        r == spec_align_down(addr as int, PAGE_SIZE as int),
        r <= addr,
        r % PAGE_SIZE == 0,
        addr - r < PAGE_SIZE,
{
    align_down(addr, PAGE_SIZE)
}

/// Rounds an address up to the next page boundary.
pub fn round_to_page_upper(addr: usize) -> (r: usize)
    requires
        spec_align_up(addr as int, PAGE_SIZE as int) <= usize::MAX,
    ensures
        r == spec_align_up(addr as int, PAGE_SIZE as int),
        r >= addr,
        r % PAGE_SIZE == 0,
        r - addr < PAGE_SIZE,
{
    align_up(addr, PAGE_SIZE)
}

/// Refuses a length of zero.
pub fn check_nonzero_length(length: usize) -> (r: Result<(), KernelError>)
    ensures
        length != 0 ==> r == Ok::<(), KernelError>(()),
        length == 0 ==> r == Err::<(), KernelError>(KernelError::InvalidSize { size: 0 }),
{
    if length == 0 {
        Err(KernelError::InvalidSize { size: 0 })
    } else {
        Ok(())
    }
}

/// Refuses a size that is not a multiple of `alignment`.
pub fn check_size_aligned(size: usize, alignment: usize) -> (r: Result<(), KernelError>)
    requires
        alignment > 0,
    ensures
        size % alignment == 0 ==> r == Ok::<(), KernelError>(()),
        size % alignment != 0 ==> r == Err::<(), KernelError>(KernelError::InvalidSize { size }),
{
    if size % alignment == 0 {
        Ok(())
    } else {
        Err(KernelError::InvalidSize { size })
    }
}

/// A physical address.
#[derive(Clone, Copy, Debug, PartialEq, Eq, Structural)]
pub struct PhysicalAddress(pub usize);

/// A virtual address.
#[derive(Clone, Copy, Debug, PartialEq, Eq, Structural)]
pub struct VirtualAddress(pub usize);

impl PhysicalAddress {
    /// The address as a number.
    pub fn addr(&self) -> (r: usize)
        ensures
            r == self.0,
    {
        self.0
    }

    /// The start of the frame that holds this address.
    pub fn floor(&self) -> (r: PhysicalAddress)
        ensures
            r.0 == spec_align_down(self.0 as int, PAGE_SIZE as int),
    {
        PhysicalAddress(round_to_page(self.0))
    }
}

impl VirtualAddress {
    /// The address as a number.
    pub fn addr(&self) -> (r: usize)
        ensures
            r == self.0,
    {
        self.0
    }

    /// The start of the page that holds this address.
    pub fn floor(&self) -> (r: VirtualAddress)
        ensures
            r.0 == spec_align_down(self.0 as int, PAGE_SIZE as int),
    {
        VirtualAddress(round_to_page(self.0))
    }
}

} // verus!
