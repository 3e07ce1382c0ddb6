//! The address space of a process, as the rest of the kernel needs to see
//! it: which ranges of userland are mapped, as what, and on what backing.
//!
//! Page tables and the copying of bytes are left to the paging layer; this
//! module keeps the books that decide whether an operation on the address
//! space is allowed and what it changes.

use crate::error::KernelError;
use crate::error::MemoryType;
use crate::handle::SharedMemoryRef;
use crate::mem::VirtualAddress;
use crate::mem::PAGE_SIZE;
use vstd::prelude::*;

verus! {

/// The lowest address of userland that can be mapped. The page below it is
/// never mapped, so that a null pointer names nothing.
pub const USER_LAND_START: usize = 0x0000_1000;

/// The address just past userland.
pub const USER_LAND_END: usize = 0xC000_0000;

/// What may be done with the memory of a mapping.
#[derive(Clone, Copy, Debug, PartialEq, Eq, Structural)]
pub struct MappingAccessRights {
    /// The memory may be read.
    pub readable: bool,
    /// The memory may be written.
    pub writable: bool,
    /// The memory may be executed.
    pub executable: bool,
    /// Userspace may access the memory.
    pub user_accessible: bool,
}

impl MappingAccessRights {
    /// No rights at all.
    pub fn empty() -> (r: MappingAccessRights)
        ensures
            r == (MappingAccessRights {
                readable: false,
                writable: false,
                executable: false,
                user_accessible: false,
            }),
    {
        MappingAccessRights {
            readable: false,
            writable: false,
            executable: false,
            user_accessible: false,
        }
    }

    /// The right to write, alone.
    pub fn writable() -> (r: MappingAccessRights)
        ensures
            r == (MappingAccessRights {
                readable: false,
                writable: true,
                executable: false,
                user_accessible: false,
            }),
    {
        MappingAccessRights {
            readable: false,
            writable: true,
            executable: false,
            user_accessible: false,
        }
    }

    /// Readable and writable by userspace.
    pub fn u_rw() -> (r: MappingAccessRights)
        ensures
            r == (MappingAccessRights {
                readable: true,
                writable: true,
                executable: false,
                user_accessible: true,
            }),
    {
        MappingAccessRights {
            readable: true,
            writable: true,
            executable: false,
            user_accessible: true,
        }
    }
}

/// What backs a mapping.
#[derive(Clone, Copy, Debug, PartialEq, Eq, Structural)]
pub enum MappingFrames {
    /// Frames that belong to this mapping alone.
    Owned,
    /// Frames of a shared memory region, which other mappings may use too.
    Shared(SharedMemoryRef),
    /// Nothing: the range is not mapped.
    Absent,
}

/// A mapped range of an address space, or a hole in it.
#[derive(Clone, Copy, Debug, PartialEq, Eq, Structural)]
pub struct Mapping {
    /// The address of the first byte.
    pub address: usize,
    /// The length in bytes.
    pub length: usize,
    /// The kind of memory.
    pub ty: MemoryType,
    /// What may be done with the memory.
    pub flags: MappingAccessRights,
    /// What backs the range.
    pub frames: MappingFrames,
    /// Where in its backing the range starts.
    pub phys_offset: usize,
}

impl Mapping {
    /// The address just past the range.
    pub open spec fn end(&self) -> int {
        self.address + self.length
    }

    /// Whether the range holds the address.
    pub open spec fn contains(&self, addr: int) -> bool {
        self.address <= addr < self.end()
    }

    /// Whether the range shares a byte with `addr..addr + len`.
    pub open spec fn overlaps(&self, addr: int, len: int) -> bool {
        self.address < addr + len && addr < self.end()
    }

    /// A non-empty range of whole pages inside userland.
    pub open spec fn wf(&self) -> bool {
        &&& self.length > 0
        &&& self.address as int % PAGE_SIZE as int == 0
        &&& self.length as int % PAGE_SIZE as int == 0
        &&& USER_LAND_START <= self.address
        &&& self.end() <= USER_LAND_END
        &&& self.frames != MappingFrames::Absent
    }
}

/// What [`ProcessMemory::query_memory`] finds at an address.
#[derive(Clone, Copy, Debug, PartialEq, Eq, Structural)]
pub enum QueryMemory {
    /// The address lies in this mapping.
    Used(Mapping),
    /// The address lies in this hole.
    Available(Mapping),
}

/// Whether no mapping shares a byte with `addr..addr + len`.
pub open spec fn range_free(mappings: Seq<Mapping>, addr: int, len: int) -> bool {
    forall|i: int| 0 <= i < mappings.len() ==> !(#[trigger] mappings[i]).overlaps(addr, len)
}

/// Whether `addr..addr + len` is a range of whole pages inside userland.
pub open spec fn range_in_userland(addr: int, len: int) -> bool {
    &&& addr % PAGE_SIZE as int == 0
    &&& USER_LAND_START <= addr
    &&& addr + len <= USER_LAND_END
}

/// Whether a mapping of `len` bytes can be made at `addr`.
pub open spec fn range_available(mappings: Seq<Mapping>, addr: int, len: int) -> bool {
    range_in_userland(addr, len) && range_free(mappings, addr, len)
}

/// Whether some address can take a mapping of `len` bytes.
pub open spec fn has_space(mappings: Seq<Mapping>, len: int) -> bool {
    exists|addr: int| #[trigger] range_available(mappings, addr, len)
}

/// Whether `addr` is the lowest address that can take a mapping of `len`
/// bytes.
pub open spec fn is_lowest_space(mappings: Seq<Mapping>, addr: int, len: int) -> bool {
    &&& range_available(mappings, addr, len)
    &&& forall|lower: int| lower < addr ==> !#[trigger] range_available(mappings, lower, len)
}

/// The lowest address that can take a mapping of `len` bytes, if there is
/// one.
pub open spec fn lowest_space(mappings: Seq<Mapping>, len: int) -> int {
    choose|addr: int| is_lowest_space(mappings, addr, len)
}

/// The lowest address with room is the one the books name.
pub proof fn lemma_lowest_space(mappings: Seq<Mapping>, addr: int, len: int)
    requires
        is_lowest_space(mappings, addr, len),
    ensures
        lowest_space(mappings, len) == addr,
        has_space(mappings, len),
{
    let c = lowest_space(mappings, len);
    assert(is_lowest_space(mappings, c, len));
    if c < addr {
        assert(!range_available(mappings, c, len));
    } else if addr < c {
        assert(!range_available(mappings, addr, len));
    }
}

/// Whether the mappings come in ascending order and share no byte.
pub open spec fn sorted_apart(mappings: Seq<Mapping>) -> bool {
    forall|i: int, j: int|
        0 <= i < j < mappings.len() ==> (#[trigger] mappings[i]).end() <= (
        #[trigger] mappings[j]).address
}

/// Whether the mappings are whole pages inside userland, in ascending
/// order, and share no byte.
pub open spec fn mappings_wf(mappings: Seq<Mapping>) -> bool {
    &&& forall|i: int| 0 <= i < mappings.len() ==> (#[trigger] mappings[i]).wf()
    &&& sorted_apart(mappings)
}

/// The books after a mapping was put in at its place in ascending order.
pub open spec fn with_mapping(mappings: Seq<Mapping>, mapping: Mapping) -> Seq<Mapping> {
    mappings.insert(mappings_below(mappings, mapping.address as int), mapping)
}

/// The books after an attempt to unmap `len` bytes at `addr`: without the
/// mapping when there is one of that extent, unchanged otherwise.
pub open spec fn after_unmap(mappings: Seq<Mapping>, addr: int, len: int) -> Seq<Mapping> {
    if unmap_verdict(mappings, addr, len) is Ok {
        mappings.remove(mapping_starting_at(mappings, addr))
    } else {
        mappings
    }
}

/// Putting an acceptable mapping into well-formed books leaves them
/// well-formed, and taking it out again leaves them as they were.
pub proof fn lemma_with_mapping(mappings: Seq<Mapping>, mapping: Mapping)
    requires
        mappings_wf(mappings),
        mapping.frames != MappingFrames::Absent,
        mapping_verdict(mappings, mapping.address as int, mapping.length as int) is Ok,
    ensures
        mappings_wf(with_mapping(mappings, mapping)),
        unmap_verdict(
            with_mapping(mappings, mapping),
            mapping.address as int,
            mapping.length as int,
        ) == Ok::<Mapping, KernelError>(mapping),
        after_unmap(with_mapping(mappings, mapping), mapping.address as int, mapping.length as int)
            == mappings,
{
    let idx = mappings_below(mappings, mapping.address as int);
    lemma_mappings_below_bounds(mappings, mapping.address as int);
    let after = with_mapping(mappings, mapping);
    let address = mapping.address as int;
    let length = mapping.length as int;
    assert forall|j: int| 0 <= j < mappings.len() implies !(#[trigger] mappings[j]).overlaps(
        address,
        length,
    ) by {}
    assert forall|i: int, j: int| 0 <= i < j < after.len() implies (#[trigger] after[i]).end() <= (
    #[trigger] after[j]).address by {
        let bi = if i < idx { i } else { i - 1 };
        let bj = if j < idx { j } else { j - 1 };
        if i != idx && j != idx {
            assert(mappings[bi].end() <= mappings[bj].address);
        } else if i == idx {
            assert(!mappings[bj].overlaps(address, length));
            assert(mappings[bj].address >= address);
        } else {
            assert(!mappings[bi].overlaps(address, length));
            assert(mappings[bi].address < address);
        }
    }
    assert forall|i: int| 0 <= i < after.len() implies (#[trigger] after[i]).wf() by {
        if i < idx {
            assert(after[i] == mappings[i]);
        } else if i > idx {
            assert(after[i] == mappings[i - 1]);
        }
    }
    assert(after[idx] == mapping);
    lemma_mapping_starting_at(after, address, idx);
    assert(after.remove(idx) =~= mappings);
}

/// A range that was free and that a new mapping does not touch is free
/// after the mapping was put into the books.
pub proof fn lemma_free_after_mapping(mappings: Seq<Mapping>, mapping: Mapping, addr: int, len: int)
    requires
        mappings_wf(mappings),
        range_free(mappings, addr, len),
        !mapping.overlaps(addr, len),
    ensures
        range_free(with_mapping(mappings, mapping), addr, len),
{
    let idx = mappings_below(mappings, mapping.address as int);
    lemma_mappings_below_bounds(mappings, mapping.address as int);
    let after = with_mapping(mappings, mapping);
    assert forall|i: int| 0 <= i < after.len() implies !(#[trigger] after[i]).overlaps(addr, len) by {
        if i < idx {
            assert(after[i] == mappings[i]);
        } else if i > idx {
            assert(after[i] == mappings[i - 1]);
        }
    }
}

/// A free range of whole pages inside userland can take a mapping.
pub proof fn lemma_verdict_ok(mappings: Seq<Mapping>, addr: int, len: int)
    requires
        range_free(mappings, addr, len),
        range_in_userland(addr, len),
        len > 0,
        len % PAGE_SIZE as int == 0,
    ensures
        mapping_verdict(mappings, addr, len) is Ok,
{
}

/// The mappings that start below an address are counted, and in ascending
/// order they are the first ones.
pub proof fn lemma_mappings_below_bounds(mappings: Seq<Mapping>, addr: int)
    requires
        sorted_apart(mappings),
        forall|i: int| 0 <= i < mappings.len() ==> (#[trigger] mappings[i]).wf(),
    ensures
        0 <= mappings_below(mappings, addr) <= mappings.len(),
        forall|j: int|
            0 <= j < mappings_below(mappings, addr) ==> (#[trigger] mappings[j]).address < addr,
        forall|j: int|
            mappings_below(mappings, addr) <= j < mappings.len() ==> (#[trigger] mappings[j]).address
                >= addr,
    decreases mappings.len(),
{
    if mappings.len() > 0 {
        let rest = mappings.drop_last();
        assert forall|i: int, j: int| 0 <= i < j < rest.len() implies (#[trigger] rest[i]).end() <= (
        #[trigger] rest[j]).address by {
            assert(mappings[i].end() <= mappings[j].address);
        }
        assert forall|i: int| 0 <= i < rest.len() implies (#[trigger] rest[i]).wf() by {
            assert(rest[i] == mappings[i]);
        }
        lemma_mappings_below_bounds(rest, addr);
        let k = mappings_below(rest, addr);
        assert forall|j: int| 0 <= j < mappings_below(mappings, addr) implies (
        #[trigger] mappings[j]).address < addr by {
            if j < rest.len() {
                if j >= k {
                    // the last mapping starts below the address, so do all
                    assert(mappings[j].wf());
                    assert(mappings[j].end() <= mappings[mappings.len() - 1].address);
                } else {
                    assert(rest[j].address < addr);
                }
            }
        }
        assert forall|j: int| mappings_below(mappings, addr) <= j < mappings.len() implies (
        #[trigger] mappings[j]).address >= addr by {
            if j < rest.len() {
                assert(rest[j].address >= addr);
            }
        }
    }
}

/// The number of mappings that start below `addr`.
pub open spec fn mappings_below(mappings: Seq<Mapping>, addr: int) -> int
    decreases mappings.len(),
{
    if mappings.len() == 0 {
        0
    } else {
        mappings_below(mappings.drop_last(), addr) + if mappings.last().address < addr {
            1int
        } else {
            0int
        }
    }
}

/// The userland part of a process's address space.
#[derive(Debug)]
pub struct ProcessMemory {
    mappings: Vec<Mapping>,
}

impl View for ProcessMemory {
    type V = Seq<Mapping>;

    /// The mappings, in ascending order of their addresses.
    closed spec fn view(&self) -> Seq<Mapping> {
        self.mappings@
    }
}

impl ProcessMemory {
    /// The mappings are whole pages inside userland, in ascending order,
    /// and share no byte.
    pub open spec fn wf(&self) -> bool {
        mappings_wf(self@)
    }

    /// An address space with nothing mapped.
    pub fn new() -> (m: ProcessMemory)
        ensures
            m.wf(),
            m@ == Seq::<Mapping>::empty(),
    {
        ProcessMemory { mappings: Vec::new() }
    }

    /// The number of mappings.
    pub fn mapping_count(&self) -> (n: usize)
        ensures
            n == self@.len(),
    {
        self.mappings.len()
    }

    /// The mapping at a position in ascending order of addresses.
    pub fn mapping_at(&self, i: usize) -> (m: Mapping)
        requires
            i < self@.len(),
        ensures
            m == self@[i as int],
    {
        self.mappings[i]
    }

    /// Finds room for a mapping of `length` bytes: the lowest address of
    /// userland at which that many bytes are free.
    ///
    /// Fails with `InvalidSize` when `length` is zero or not a multiple of
    /// the page size, and with `VirtualMemoryExhaustion` when no hole of
    /// userland is large enough.
    pub fn find_available_space(&self, length: usize) -> (r: Result<VirtualAddress, KernelError>)
        requires
            self.wf(),
        ensures
            length == 0 ==> r == Err::<VirtualAddress, KernelError>(
                KernelError::InvalidSize { size: 0 },
            ),
            length != 0 && length % PAGE_SIZE != 0 ==> r == Err::<VirtualAddress, KernelError>(
                KernelError::InvalidSize { size: length },
            ),
            length != 0 && length % PAGE_SIZE == 0 && !has_space(self@, length as int) ==> r == Err::<
                VirtualAddress,
                KernelError,
            >(KernelError::VirtualMemoryExhaustion),
            length != 0 && length % PAGE_SIZE == 0 && has_space(self@, length as int) ==> r is Ok,
            r is Ok ==> r->Ok_0.0 == lowest_space(self@, length as int) && is_lowest_space(
                self@,
                r->Ok_0.0 as int,
                length as int,
            ),
    {
        if length == 0 {
            return Err(KernelError::InvalidSize { size: 0 });
        }
        if length % PAGE_SIZE != 0 {
            return Err(KernelError::InvalidSize { size: length });
        }
        let mut candidate: usize = USER_LAND_START;
        let mut i: usize = 0;
        while i < self.mappings.len()
            invariant
                self.wf(),
                i <= self@.len(),
                length > 0,
                length % PAGE_SIZE == 0,
                USER_LAND_START <= candidate <= USER_LAND_END,
                candidate as int % PAGE_SIZE as int == 0,
                forall|j: int| 0 <= j < i ==> (#[trigger] self@[j]).end() <= candidate,
                i < self@.len() ==> candidate <= self@[i as int].address,
                forall|lower: int|
                    lower < candidate ==> !#[trigger] range_available(self@, lower, length as int),
            decreases self@.len() - i,
        {
            let m = self.mappings[i];
            if m.address - candidate >= length {
                assert forall|j: int| 0 <= j < self@.len() implies !(#[trigger] self@[j]).overlaps(
                    candidate as int,
                    length as int,
                ) by {
                    if j > i {
                        assert(self@[i as int].end() <= self@[j].address);
                    }
                }
                assert(self@[i as int].wf());
                assert(range_available(self@, candidate as int, length as int));
                proof {
                    lemma_lowest_space(self@, candidate as int, length as int);
                }
                return Ok(VirtualAddress(candidate));
            }
            proof {
                let next = m.address + m.length;
                assert forall|lower: int| lower < next implies !#[trigger] range_available(
                    self@,
                    lower,
                    length as int,
                ) by {
                    if lower >= candidate {
                        assert(self@[i as int].overlaps(lower, length as int));
                    }
                }
                if i + 1 < self@.len() {
                    assert(self@[i as int].end() <= self@[i + 1].address);
                }
                assert forall|j: int| 0 <= j < i + 1 implies (#[trigger] self@[j]).end() <= next by {
                    if j < i {
                        assert(self@[j].end() <= self@[i as int].address);
                    }
                }
                assert(self@[i as int].wf());
            }
            candidate = m.address + m.length;
            i = i + 1;
        }
        if USER_LAND_END - candidate >= length {
            assert(range_available(self@, candidate as int, length as int));
            proof {
                lemma_lowest_space(self@, candidate as int, length as int);
            }
            Ok(VirtualAddress(candidate))
        } else {
            proof {
                assert forall|addr: int| !#[trigger] range_available(self@, addr, length as int) by {
                    if addr >= candidate {
                        assert(addr + length > USER_LAND_END);
                    }
                }
            }
            Err(KernelError::VirtualMemoryExhaustion)
        }
    }

    /// Puts a mapping into the books, if its range is acceptable and free.
    fn insert_mapping(&mut self, mapping: Mapping) -> (r: Result<(), KernelError>)
        requires
            old(self).wf(),
            mapping.frames != MappingFrames::Absent,
        ensures
            final(self).wf(),
            r == mapping_verdict(old(self)@, mapping.address as int, mapping.length as int),
            r is Ok ==> final(self)@ == old(self)@.insert(
                mappings_below(old(self)@, mapping.address as int),
                mapping,
            ),
            r is Err ==> final(self)@ == old(self)@,
    {
        let address: usize = mapping.address;
        let length: usize = mapping.length;
        if address % PAGE_SIZE != 0 {
            return Err(KernelError::InvalidAddress { address });
        }
        if length == 0 {
            return Err(KernelError::InvalidSize { size: 0 });
        }
        if length % PAGE_SIZE != 0 {
            return Err(KernelError::InvalidSize { size: length });
        }
        if address < USER_LAND_START || address > USER_LAND_END || USER_LAND_END - address < length {
            return Err(KernelError::InvalidAddress { address });
        }
        let mut idx: usize = 0;
        while idx < self.mappings.len() && self.mappings[idx].address < address
            invariant
                self.wf(),
                self@ == old(self)@,
                idx <= self@.len(),
                forall|j: int| 0 <= j < idx ==> (#[trigger] self@[j]).address < address,
            decreases self@.len() - idx,
        {
            idx = idx + 1;
        }
        proof {
            assert forall|j: int| idx <= j < self@.len() implies (#[trigger] self@[j]).address
                >= address by {
                if j > idx {
                    assert(self@[idx as int].end() <= self@[j].address);
                }
            }
            lemma_mappings_below(self@, address as int, idx as int);
        }
        if idx > 0 {
            let below = self.mappings[idx - 1];
            if below.address + below.length > address {
                proof {
                    assert(self@[idx - 1].overlaps(address as int, length as int));
                    assert forall|j: int| 0 <= j < idx - 1 implies !(#[trigger] self@[j]).overlaps(
                        address as int,
                        length as int,
                    ) by {
                        assert(self@[j].end() <= self@[idx - 1].address);
                    }
                    lemma_first_overlap(self@, address as int, length as int, idx - 1);
                }
                return Err(KernelError::InvalidMemState { address: below.address, ty: below.ty });
            }
        }
        if idx < self.mappings.len() {
            let above = self.mappings[idx];
            if above.address - address < length {
                proof {
                    assert(self@[idx as int].overlaps(address as int, length as int));
                    assert forall|j: int| 0 <= j < idx implies !(#[trigger] self@[j]).overlaps(
                        address as int,
                        length as int,
                    ) by {
                        if j < idx - 1 {
                            assert(self@[j].end() <= self@[idx - 1].address);
                        }
                    }
                    lemma_first_overlap(self@, address as int, length as int, idx as int);
                }
                return Err(KernelError::InvalidMemState { address: above.address, ty: above.ty });
            }
        }
        proof {
            assert forall|j: int| 0 <= j < self@.len() implies !(#[trigger] self@[j]).overlaps(
                address as int,
                length as int,
            ) by {
                if j < idx - 1 {
                    assert(self@[j].end() <= self@[idx - 1].address);
                }
                if j > idx {
                    assert(self@[idx as int].end() <= self@[j].address);
                }
            }
            assert(range_available(self@, address as int, length as int));
        }
        self.mappings.insert(idx, mapping);
        proof {
            let before = old(self)@;
            let after = self@;
            assert forall|i: int, j: int| 0 <= i < j < after.len() implies (#[trigger] after[i]).end()
                <= (#[trigger] after[j]).address by {
                let bi = if i < idx { i } else { i - 1 };
                let bj = if j < idx { j } else { j - 1 };
                if i != idx && j != idx {
                    assert(before[bi].end() <= before[bj].address);
                } else if i == idx {
                    assert(!before[bj].overlaps(address as int, length as int));
                } else {
                    assert(!before[bi].overlaps(address as int, length as int));
                }
            }
            assert forall|i: int| 0 <= i < after.len() implies (#[trigger] after[i]).wf() by {
                if i < idx {
                    assert(after[i] == before[i]);
                } else if i > idx {
                    assert(after[i] == before[i - 1]);
                }
            }
        }
        Ok(())
    }

    /// Maps `length` bytes of fresh memory at `address`.
    ///
    /// Fails with `InvalidAddress` when the address is not page-aligned or
    /// the range leaves userland, with `InvalidSize` when the length is zero
    /// or not a multiple of the page size, and with `InvalidMemState` when
    /// part of the range is mapped already; the error then names the lowest
    /// mapping in the way.
    pub fn create_regular_mapping(
        &mut self,
        address: VirtualAddress,
        length: usize,
        ty: MemoryType,
        flags: MappingAccessRights,
    ) -> (r: Result<(), KernelError>)
        requires
            old(self).wf(),
        ensures
            final(self).wf(),
            r == mapping_verdict(old(self)@, address.0 as int, length as int),
            r is Ok ==> final(self)@ == old(self)@.insert(
                mappings_below(old(self)@, address.0 as int),
                (Mapping {
                    address: address.0,
                    length,
                    ty,
                    flags,
                    frames: MappingFrames::Owned,
                    phys_offset: 0,
                }),
            ),
            r is Err ==> final(self)@ == old(self)@,
    {
        self.insert_mapping(
            Mapping {
                address: address.0,
                length,
                ty,
                flags,
                frames: MappingFrames::Owned,
                phys_offset: 0,
            },
        )
    }

    /// Maps `length` bytes of a shared memory region at `address`, starting
    /// `phys_offset` bytes into the region. Fails as
    /// [`Self::create_regular_mapping`] does.
    pub fn map_partial_shared_mapping(
        &mut self,
        shared: SharedMemoryRef,
        address: VirtualAddress,
        phys_offset: usize,
        length: usize,
        ty: MemoryType,
        flags: MappingAccessRights,
    ) -> (r: Result<(), KernelError>)
        requires
            old(self).wf(),
        ensures
            final(self).wf(),
            r == mapping_verdict(old(self)@, address.0 as int, length as int),
            r is Ok ==> final(self)@ == old(self)@.insert(
                mappings_below(old(self)@, address.0 as int),
                (Mapping {
                    address: address.0,
                    length,
                    ty,
                    flags,
                    frames: MappingFrames::Shared(shared),
                    phys_offset,
                }),
            ),
            r is Err ==> final(self)@ == old(self)@,
    {
        self.insert_mapping(
            Mapping {
                address: address.0,
                length,
                ty,
                flags,
                frames: MappingFrames::Shared(shared),
                phys_offset,
            },
        )
    }

    /// Takes the mapping that covers exactly `length` bytes from `address`
    /// out of the address space and returns it.
    ///
    /// Fails with `InvalidAddress` when no mapping starts at `address` and
    /// with `InvalidSize` when the one that does has another length.
    pub fn unmap(&mut self, address: VirtualAddress, length: usize) -> (r: Result<
        Mapping,
        KernelError,
    >)
        requires
            old(self).wf(),
        ensures
            final(self).wf(),
            r == unmap_verdict(old(self)@, address.0 as int, length as int),
            r is Ok ==> final(self)@ == old(self)@.remove(mapping_starting_at(old(self)@, address.0 as int)),
            r is Err ==> final(self)@ == old(self)@,
    {
        let mut idx: usize = 0;
        while idx < self.mappings.len()
            invariant
                self.wf(),
                self@ == old(self)@,
                idx <= self@.len(),
                forall|j: int| 0 <= j < idx ==> (#[trigger] self@[j]).address != address.0,
            decreases self@.len() - idx,
        {
            let m = self.mappings[idx];
            if m.address == address.0 {
                proof {
                    lemma_mapping_starting_at(self@, address.0 as int, idx as int);
                }
                if m.length != length {
                    return Err(KernelError::InvalidSize { size: length });
                }
                let removed = self.mappings.remove(idx);
                proof {
                    let before = old(self)@;
                    let after = self@;
                    assert forall|i: int, j: int| 0 <= i < j < after.len() implies (
                    #[trigger] after[i]).end() <= (#[trigger] after[j]).address by {
                        let bi = if i < idx { i } else { i + 1 };
                        let bj = if j < idx { j } else { j + 1 };
                        assert(before[bi].end() <= before[bj].address);
                    }
                    assert forall|i: int| 0 <= i < after.len() implies (#[trigger] after[i]).wf() by {
                        let bi = if i < idx { i } else { i + 1 };
                        assert(after[i] == before[bi]);
                    }
                }
                return Ok(removed);
            }
            idx = idx + 1;
        }
        proof {
            assert(!starts_mapping(self@, address.0 as int));
        }
        Err(KernelError::InvalidAddress { address: address.0 })
    }

    /// Tells what lies at an address: the mapping that holds it, or the
    /// hole it is in.
    ///
    /// A hole reaches from the end of the mapping below it, or from address
    /// zero, to the start of the mapping above it, or to the end of
    /// userland. An address beyond userland is reported as a hole of length
    /// zero that starts where the highest mapping ends.
    pub fn query_memory(&self, address: VirtualAddress) -> (r: QueryMemory)
        requires
            self.wf(),
        ensures
            r == query_result(self@, address.0 as int),
    {
        let mut hole_start: usize = 0;
        let mut idx: usize = 0;
        while idx < self.mappings.len()
            invariant
                self.wf(),
                idx <= self@.len(),
                hole_start == (if idx == 0 {
                    0
                } else {
                    self@[idx - 1].end()
                }),
                hole_start <= address.0,
                forall|j: int| 0 <= j < idx ==> (#[trigger] self@[j]).end() <= address.0,
            decreases self@.len() - idx,
        {
            let m = self.mappings[idx];
            proof {
                assert(self@[idx as int].wf());
                assert forall|j: int| idx < j < self@.len() implies !(#[trigger] self@[j]).contains(
                    address.0 as int,
                ) || address.0 >= m.address + m.length by {
                    assert(self@[idx as int].end() <= self@[j].address);
                }
            }
            if address.0 < m.address {
                proof {
                    lemma_query_hole(self@, address.0 as int, idx as int);
                }
                return QueryMemory::Available(
                    Mapping {
                        address: hole_start,
                        length: m.address - hole_start,
                        ty: MemoryType::Unmapped,
                        flags: MappingAccessRights::empty(),
                        frames: MappingFrames::Absent,
                        phys_offset: 0,
                    },
                );
            }
            if address.0 - m.address < m.length {
                proof {
                    lemma_query_used(self@, address.0 as int, idx as int);
                }
                return QueryMemory::Used(m);
            }
            hole_start = m.address + m.length;
            idx = idx + 1;
        }
        proof {
            lemma_query_hole(self@, address.0 as int, idx as int);
        }
        let hole_length: usize = if address.0 < USER_LAND_END {
            USER_LAND_END - hole_start
        } else {
            0
        };
        QueryMemory::Available(
            Mapping {
                address: hole_start,
                length: hole_length,
                ty: MemoryType::Unmapped,
                flags: MappingAccessRights::empty(),
                frames: MappingFrames::Absent,
                phys_offset: 0,
            },
        )
    }

    /// Checks that the kernel may look at `length` bytes of this address
    /// space from `address` on, and returns the mapping that holds them.
    ///
    /// Fails with `InvalidSize` when `length` is zero, and with
    /// `InvalidAddress` when the range does not lie inside one mapping.
    pub fn mirror_mapping(&self, address: VirtualAddress, length: usize) -> (r: Result<
        Mapping,
        KernelError,
    >)
        requires
            self.wf(),
        ensures
            r == mirror_verdict(self@, address.0 as int, length as int),
    {
        if length == 0 {
            return Err(KernelError::InvalidSize { size: 0 });
        }
        match self.query_memory(address) {
            QueryMemory::Used(m) => {
                if m.length - (address.0 - m.address) >= length {
                    Ok(m)
                } else {
                    Err(KernelError::InvalidAddress { address: address.0 })
                }
            },
            QueryMemory::Available(_) => Err(KernelError::InvalidAddress { address: address.0 }),
        }
    }
}

/// Whether `k` is the lowest mapping that shares a byte with the range.
pub open spec fn is_first_overlap(mappings: Seq<Mapping>, addr: int, len: int, k: int) -> bool {
    &&& 0 <= k < mappings.len()
    &&& mappings[k].overlaps(addr, len)
    &&& forall|j: int| 0 <= j < k ==> !(#[trigger] mappings[j]).overlaps(addr, len)
}

/// The lowest mapping that shares a byte with the range, if there is one.
pub open spec fn first_overlap(mappings: Seq<Mapping>, addr: int, len: int) -> int {
    choose|k: int| is_first_overlap(mappings, addr, len, k)
}

/// What an attempt to map `len` bytes at `addr` comes to.
pub open spec fn mapping_verdict(mappings: Seq<Mapping>, addr: int, len: int) -> Result<
    (),
    KernelError,
> {
    if addr % PAGE_SIZE as int != 0 {
        Err(KernelError::InvalidAddress { address: addr as usize })
    } else if len == 0 {
        Err(KernelError::InvalidSize { size: 0 })
    } else if len % PAGE_SIZE as int != 0 {
        Err(KernelError::InvalidSize { size: len as usize })
    } else if addr < USER_LAND_START || addr + len > USER_LAND_END {
        Err(KernelError::InvalidAddress { address: addr as usize })
    } else if !range_free(mappings, addr, len) {
        Err(
            KernelError::InvalidMemState {
                address: mappings[first_overlap(mappings, addr, len)].address,
                ty: mappings[first_overlap(mappings, addr, len)].ty,
            },
        )
    } else {
        Ok(())
    }
}

/// Whether a mapping starts at `addr`.
pub open spec fn starts_mapping(mappings: Seq<Mapping>, addr: int) -> bool {
    exists|i: int| 0 <= i < mappings.len() && (#[trigger] mappings[i]).address == addr
}

/// The position of the mapping that starts at `addr`, if there is one.
pub open spec fn mapping_starting_at(mappings: Seq<Mapping>, addr: int) -> int {
    choose|i: int| 0 <= i < mappings.len() && (#[trigger] mappings[i]).address == addr
}

/// What an attempt to unmap `len` bytes at `addr` comes to.
pub open spec fn unmap_verdict(mappings: Seq<Mapping>, addr: int, len: int) -> Result<
    Mapping,
    KernelError,
> {
    if !starts_mapping(mappings, addr) {
        Err(KernelError::InvalidAddress { address: addr as usize })
    } else if mappings[mapping_starting_at(mappings, addr)].length != len {
        Err(KernelError::InvalidSize { size: len as usize })
    } else {
        Ok(mappings[mapping_starting_at(mappings, addr)])
    }
}

/// Whether some mapping holds the address.
pub open spec fn is_mapped(mappings: Seq<Mapping>, addr: int) -> bool {
    exists|i: int| 0 <= i < mappings.len() && (#[trigger] mappings[i]).contains(addr)
}

/// The position of the mapping that holds the address, if there is one.
pub open spec fn mapping_holding(mappings: Seq<Mapping>, addr: int) -> int {
    choose|i: int| 0 <= i < mappings.len() && (#[trigger] mappings[i]).contains(addr)
}

/// The number of mappings that end at or below `addr`.
pub open spec fn mappings_ending_below(mappings: Seq<Mapping>, addr: int) -> int
    decreases mappings.len(),
{
    if mappings.len() == 0 {
        0
    } else {
        mappings_ending_below(mappings.drop_last(), addr) + if mappings.last().end() <= addr {
            1int
        } else {
            0int
        }
    }
}

/// The hole around an address that no mapping holds.
pub open spec fn hole_around(mappings: Seq<Mapping>, addr: int) -> Mapping {
    let k = mappings_ending_below(mappings, addr);
    let start = if k == 0 {
        0
    } else {
        mappings[k - 1].end()
    };
    let end = if k < mappings.len() {
        mappings[k].address as int
    } else if addr < USER_LAND_END {
        USER_LAND_END as int
    } else {
        start
    };
    Mapping {
        address: start as usize,
        length: (end - start) as usize,
        ty: MemoryType::Unmapped,
        flags: MappingAccessRights {
            readable: false,
            writable: false,
            executable: false,
            user_accessible: false,
        },
        frames: MappingFrames::Absent,
        phys_offset: 0,
    }
}

/// What lies at an address.
pub open spec fn query_result(mappings: Seq<Mapping>, addr: int) -> QueryMemory {
    if is_mapped(mappings, addr) {
        QueryMemory::Used(mappings[mapping_holding(mappings, addr)])
    } else {
        QueryMemory::Available(hole_around(mappings, addr))
    }
}

/// What an attempt to mirror `len` bytes at `addr` comes to.
pub open spec fn mirror_verdict(mappings: Seq<Mapping>, addr: int, len: int) -> Result<
    Mapping,
    KernelError,
> {
    if len == 0 {
        Err(KernelError::InvalidSize { size: 0 })
    } else if is_mapped(mappings, addr) && addr + len <= mappings[mapping_holding(
        mappings,
        addr,
    )].end() {
        Ok(mappings[mapping_holding(mappings, addr)])
    } else {
        Err(KernelError::InvalidAddress { address: addr as usize })
    }
}

/// In ascending order, the mappings that start below an address are the
/// first ones.
pub proof fn lemma_mappings_below(mappings: Seq<Mapping>, addr: int, idx: int)
    requires
        0 <= idx <= mappings.len(),
        forall|j: int| 0 <= j < idx ==> (#[trigger] mappings[j]).address < addr,
        forall|j: int| idx <= j < mappings.len() ==> (#[trigger] mappings[j]).address >= addr,
    ensures
        mappings_below(mappings, addr) == idx,
    decreases mappings.len(),
{
    if mappings.len() > 0 {
        let rest = mappings.drop_last();
        if idx == mappings.len() {
            lemma_mappings_below(rest, addr, idx - 1);
        } else {
            lemma_mappings_below(rest, addr, idx);
        }
    }
}

/// In ascending order, the mappings that end at or below an address are the
/// first ones.
pub proof fn lemma_mappings_ending_below(mappings: Seq<Mapping>, addr: int, idx: int)
    requires
        0 <= idx <= mappings.len(),
        forall|j: int| 0 <= j < idx ==> (#[trigger] mappings[j]).end() <= addr,
        forall|j: int| idx <= j < mappings.len() ==> (#[trigger] mappings[j]).end() > addr,
    ensures
        mappings_ending_below(mappings, addr) == idx,
    decreases mappings.len(),
{
    if mappings.len() > 0 {
        let rest = mappings.drop_last();
        if idx == mappings.len() {
            lemma_mappings_ending_below(rest, addr, idx - 1);
        } else {
            lemma_mappings_ending_below(rest, addr, idx);
        }
    }
}

/// The lowest mapping in the way of a range is the one the books name.
proof fn lemma_first_overlap(mappings: Seq<Mapping>, addr: int, len: int, k: int)
    requires
        is_first_overlap(mappings, addr, len, k),
    ensures
        first_overlap(mappings, addr, len) == k,
        !range_free(mappings, addr, len),
{
    let c = first_overlap(mappings, addr, len);
    assert(is_first_overlap(mappings, addr, len, c));
    if c < k {
        assert(!mappings[c].overlaps(addr, len));
    } else if k < c {
        assert(!mappings[k].overlaps(addr, len));
    }
}

/// No two mappings of a well-formed address space start at one address.
pub proof fn lemma_mapping_starting_at(mappings: Seq<Mapping>, addr: int, idx: int)
    requires
        sorted_apart(mappings),
        forall|i: int| 0 <= i < mappings.len() ==> (#[trigger] mappings[i]).wf(),
        0 <= idx < mappings.len(),
        mappings[idx].address == addr,
    ensures
        starts_mapping(mappings, addr),
        mapping_starting_at(mappings, addr) == idx,
{
    let c = mapping_starting_at(mappings, addr);
    assert(mappings[idx].wf());
    assert(mappings[c].wf());
    if c < idx {
        assert(mappings[c].end() <= mappings[idx].address);
    } else if idx < c {
        assert(mappings[idx].end() <= mappings[c].address);
    }
}

/// The mapping found to hold an address is the one the books name.
proof fn lemma_query_used(mappings: Seq<Mapping>, addr: int, idx: int)
    requires
        sorted_apart(mappings),
        forall|i: int| 0 <= i < mappings.len() ==> (#[trigger] mappings[i]).wf(),
        0 <= idx < mappings.len(),
        mappings[idx].contains(addr),
    ensures
        is_mapped(mappings, addr),
        mapping_holding(mappings, addr) == idx,
{
    let c = mapping_holding(mappings, addr);
    if c < idx {
        assert(mappings[c].end() <= mappings[idx].address);
    } else if idx < c {
        assert(mappings[idx].end() <= mappings[c].address);
    }
}

/// When the first `idx` mappings end at or below an address and the next
/// one starts above it, no mapping holds the address.
proof fn lemma_query_hole(mappings: Seq<Mapping>, addr: int, idx: int)
    requires
        sorted_apart(mappings),
        forall|i: int| 0 <= i < mappings.len() ==> (#[trigger] mappings[i]).wf(),
        0 <= idx <= mappings.len(),
        forall|j: int| 0 <= j < idx ==> (#[trigger] mappings[j]).end() <= addr,
        idx < mappings.len() ==> addr < mappings[idx].address,
    ensures
        !is_mapped(mappings, addr),
        mappings_ending_below(mappings, addr) == idx,
{
    assert forall|j: int| idx <= j < mappings.len() implies (#[trigger] mappings[j]).end() > addr by {
        assert(mappings[j].wf());
        if j > idx {
            assert(mappings[idx].end() <= mappings[j].address);
        }
    }
    lemma_mappings_ending_below(mappings, addr, idx);
    assert forall|j: int| 0 <= j < mappings.len() implies !(#[trigger] mappings[j]).contains(
        addr,
    ) by {
        if j > idx {
            assert(mappings[idx].end() <= mappings[j].address);
        }
    }
}

} // verus!
