//! The engine that passes a message from one process to another.
//!
//! Passing a message is more than copying it. The process id of the sender
//! is filled in, handles are copied or moved to the receiver and renumbered,
//! the data of X descriptors is copied into the C buffers of the receiver,
//! and the buffers of A, B and W descriptors are mapped into the receiver.
//! The bytes that have to travel between the two address spaces are
//! returned as a list of copies for the paging layer to carry out.

use crate::bits::bit_range;
use crate::bits::get_bits_u64;
use crate::bits::lemma_bit_range_bound;
use crate::bits::set_bits_u64;
use crate::bits::with_bit_range;
use crate::bytes::copy_bytes;
use crate::bytes::le_u32;
use crate::bytes::le_u64;
use crate::bytes::patched;
use crate::bytes::read_u32_le;
use crate::bytes::read_u64_le;
use crate::bytes::u32_le_bytes;
use crate::bytes::u64_le_bytes;
use crate::bytes::write_u32_le;
use crate::bytes::write_u64_le;
use crate::error::userspace_code;
use crate::error::UserspaceError;
use crate::handle::resolved;
use crate::handle::Handle;
use crate::handle::HandleTable;
use crate::handle::ProcessRef;
use crate::handle::ThreadRef;
use crate::handle::MAX_HANDLE;
use crate::ipc::buffer::buf_map;
use crate::ipc::buffer::buf_release;
use crate::ipc::buffer::buf_unmap;
use crate::ipc::buffer::buffer_passed;
use crate::ipc::buffer::copied_back;
use crate::ipc::buffer::descriptor_addr;
use crate::ipc::buffer::descriptor_size;
use crate::ipc::buffer::descriptor_written;
use crate::ipc::buffer::without_buffer;
use crate::ipc::buffer::Buffer;
use crate::ipc::buffer::CopyRequest;
use crate::ipc::header::c_descriptors_offset;
use crate::ipc::header::descriptors_offset;
use crate::ipc::header::raw_data_offset;
use crate::ipc::header::CBufBehavior;
use crate::ipc::header::CBuffer;
use crate::ipc::header::HandleDescriptorHeader;
use crate::ipc::header::MsgPackedHdr;
use crate::mem::VirtualAddress;
use crate::mem::MAX_ADDRESS;
use crate::memory::mirror_verdict;
use crate::memory::Mapping;
use crate::memory::MappingAccessRights;
use crate::memory::ProcessMemory;
use vstd::arithmetic::power2::lemma2_to64;
use vstd::arithmetic::power2::lemma2_to64_rest;
use vstd::arithmetic::power2::pow2;
use vstd::prelude::*;

verus! {

/// The handle tables of the two sides while handles are passed.
pub struct HandlePass {
    /// The handle table of the sender.
    pub from: Map<u32, Handle>,
    /// The handle table of the receiver.
    pub to: Map<u32, Handle>,
    /// The number the next handle gets in the receiver.
    pub next: int,
    /// The message of the receiver.
    pub to_buf: Seq<u8>,
    /// The offset of the next handle in the message.
    pub off: int,
    /// The error that stopped the passing, if any.
    pub error: Option<UserspaceError>,
}

/// The tables after the handle at the current offset was passed.
///
/// A handle that is copied is looked up in the sender's table, where the
/// meta-handles stand for the calling thread and process; a handle that is
/// moved is taken out of the sender's table. Either way the receiver gets
/// the handle under a fresh number, which replaces the sender's number in
/// the message. A number that names nothing stops the passing with
/// `InvalidHandle`.
pub open spec fn handle_passed(
    t: HandlePass,
    from_buf: Seq<u8>,
    moving: bool,
    current_thread: ThreadRef,
    current_process: ProcessRef,
) -> HandlePass {
    let number = le_u32(from_buf, t.off) as u32;
    let found = if moving {
        if t.from.contains_key(number) {
            Ok(t.from[number])
        } else {
            Err(UserspaceError::InvalidHandle)
        }
    } else {
        resolved(t.from, number, current_thread, current_process)
    };
    if found is Err {
        HandlePass { error: Some(found->Err_0), ..t }
    } else {
        HandlePass {
            from: if moving {
                t.from.remove(number)
            } else {
                t.from
            },
            to: t.to.insert(t.next as u32, found->Ok_0),
            next: t.next + 1,
            to_buf: patched(t.to_buf, t.off, u32_le_bytes(t.next)),
            off: t.off + 4,
            error: None,
        }
    }
}

/// The tables after `n` handles were passed, or as many as could be before
/// an error.
pub open spec fn handles_passed(
    t: HandlePass,
    from_buf: Seq<u8>,
    n: int,
    moving: bool,
    current_thread: ThreadRef,
    current_process: ProcessRef,
) -> HandlePass
    decreases n,
{
    if n <= 0 || t.error is Some {
        t
    } else {
        handles_passed(
            handle_passed(t, from_buf, moving, current_thread, current_process),
            from_buf,
            n - 1,
            moving,
            current_thread,
            current_process,
        )
    }
}

/// Passes `n` handles, copying or moving them.
fn pass_handles(
    from_buf: &[u8],
    to_buf: &mut Vec<u8>,
    curoff: &mut usize,
    n: u8,
    moving: bool,
    from_handle_table: &mut HandleTable,
    to_handle_table: &mut HandleTable,
    current_thread: ThreadRef,
    current_process: ProcessRef,
) -> (r: Result<(), UserspaceError>)
    requires
        old(from_handle_table).wf(),
        old(to_handle_table).wf(),
        n < 16,
        *old(curoff) + 4 * n <= from_buf@.len(),
        *old(curoff) + 4 * n <= old(to_buf)@.len(),
        old(to_handle_table).next_id() + n <= MAX_HANDLE,
    ensures
        final(from_handle_table).wf(),
        final(to_handle_table).wf(),
        final(from_handle_table).next_id() == old(from_handle_table).next_id(),
        final(to_buf)@.len() == old(to_buf)@.len(),
        *old(curoff) <= *final(curoff) <= *old(curoff) + 4 * n,
        ({
            let start = HandlePass {
                from: old(from_handle_table)@,
                to: old(to_handle_table)@,
                next: old(to_handle_table).next_id(),
                to_buf: old(to_buf)@,
                off: *old(curoff) as int,
                error: None,
            };
            let end = handles_passed(
                start,
                from_buf@,
                n as int,
                moving,
                current_thread,
                current_process,
            );
            &&& final(from_handle_table)@ == end.from
            &&& final(to_handle_table)@ == end.to
            &&& final(to_handle_table).next_id() == end.next
            &&& final(to_buf)@ == end.to_buf
            &&& *final(curoff) == end.off
            &&& r == (if end.error is Some {
                Err::<(), UserspaceError>(end.error->Some_0)
            } else {
                Ok::<(), UserspaceError>(())
            })
            &&& end.error is None ==> end.off == *old(curoff) + 4 * n && end.next == old(
                to_handle_table,
            ).next_id() + n
        }),
{
    let ghost start = HandlePass {
        from: from_handle_table@,
        to: to_handle_table@,
        next: to_handle_table.next_id(),
        to_buf: to_buf@,
        off: *curoff as int,
        error: None,
    };
    let ghost end = handles_passed(
        start,
        from_buf@,
        n as int,
        moving,
        current_thread,
        current_process,
    );
    let len: usize = from_buf.len();
    let to_len: usize = to_buf.len();
    let mut i: u8 = 0;
    while i < n
        invariant
            i <= n,
            n < 16,
            from_handle_table.wf(),
            to_handle_table.wf(),
            from_handle_table.next_id() == old(from_handle_table).next_id(),
            to_buf@.len() == old(to_buf)@.len(),
            len == from_buf@.len(),
            to_len == to_buf@.len(),
            *curoff == *old(curoff) + 4 * i,
            *old(curoff) + 4 * n <= len,
            *old(curoff) + 4 * n <= to_len,
            to_handle_table.next_id() == old(to_handle_table).next_id() + i,
            old(to_handle_table).next_id() + n <= MAX_HANDLE,
            end == handles_passed(
                HandlePass {
                    from: old(from_handle_table)@,
                    to: old(to_handle_table)@,
                    next: old(to_handle_table).next_id(),
                    to_buf: old(to_buf)@,
                    off: *old(curoff) as int,
                    error: None,
                },
                from_buf@,
                n as int,
                moving,
                current_thread,
                current_process,
            ),
            end == handles_passed(
                HandlePass {
                    from: from_handle_table@,
                    to: to_handle_table@,
                    next: to_handle_table.next_id(),
                    to_buf: to_buf@,
                    off: *curoff as int,
                    error: None,
                },
                from_buf@,
                n - i,
                moving,
                current_thread,
                current_process,
            ),
        decreases n - i,
    {
        let ghost table = from_handle_table@;
        let ghost now = HandlePass {
            from: from_handle_table@,
            to: to_handle_table@,
            next: to_handle_table.next_id(),
            to_buf: to_buf@,
            off: *curoff as int,
            error: None,
        };
        let ghost step = handle_passed(now, from_buf@, moving, current_thread, current_process);
        proof {
            assert(end == handles_passed(
                step,
                from_buf@,
                n - i - 1,
                moving,
                current_thread,
                current_process,
            ));
            if step.error is Some {
                assert(end == step);
            }
        }
        let handle: u32 = read_u32_le(from_buf, *curoff);
        let found: Result<Handle, UserspaceError> = if moving {
            from_handle_table.delete_handle(handle)
        } else {
            from_handle_table.get_handle(handle, current_thread, current_process)
        };
        let handle: Handle = match found {
            Ok(handle) => handle,
            Err(err) => {
                proof {
                    assert(from_handle_table@ =~= table);
                }
                return Err(err);
            },
        };
        let number: u32 = match to_handle_table.add_handle(handle) {
            Ok(number) => number,
            Err(_) => {
                return Err(UserspaceError::ExceedingMaximum);
            },
        };
        write_u32_le(to_buf, *curoff, number);
        *curoff = *curoff + 4;
        i = i + 1;
    }
    Ok(())
}

/// The message of the receiver while X descriptors are passed.
pub struct PointerPass {
    /// The message of the receiver.
    pub to_buf: Seq<u8>,
    /// The offset of the next X descriptor in the message.
    pub off: int,
    /// How much of a single C buffer is used up.
    pub coff: int,
    /// The bytes to copy from the sending side to the receiving side.
    pub copies: Seq<CopyRequest>,
    /// The error that stopped the passing, if any.
    pub error: Option<UserspaceError>,
}

/// The address an X descriptor at `off` names: the second word holds its
/// low 32 bits, bits 12 to 15 of the first word its bits 32 to 35, bits 6 to
/// 8 of the first word its bits 36 to 38.
pub open spec fn pointer_addr(bytes: Seq<u8>, off: int) -> int {
    with_bit_range(
        with_bit_range(le_u32(bytes, off + 4), 32, 36, bit_range(le_u32(bytes, off), 12, 16)),
        36,
        39,
        bit_range(le_u32(bytes, off), 6, 9),
    )
}

/// The size an X descriptor at `off` names: bits 16 to 31 of the first
/// word.
pub open spec fn pointer_size(bytes: Seq<u8>, off: int) -> int {
    bit_range(le_u32(bytes, off), 16, 32)
}

/// The counter of an X descriptor at `off`: bits 0 to 5 of the first word.
pub open spec fn pointer_counter(bytes: Seq<u8>, off: int) -> int {
    bit_range(le_u32(bytes, off), 0, 6)
}

/// The first word of the X descriptor the receiver gets: the counter, the
/// high bits of the address in the receiver, and the size.
pub open spec fn pointer_word(counter: int, to_addr: int, size: int) -> int {
    with_bit_range(
        with_bit_range(
            with_bit_range(counter, 6, 9, bit_range(to_addr, 36, 39)),
            12,
            16,
            bit_range(to_addr, 32, 36),
        ),
        16,
        32,
        size,
    )
}

/// Where the data of an X descriptor goes, by what the receiver offers:
/// nowhere without C buffers, which is `PortRemoteDead`; nowhere yet when
/// it is to be inlined, which is `NotImplemented`; to the unused rest of
/// the single C buffer; or to the C buffer the counter names.
pub open spec fn pointer_destination(c: (int, Seq<CBuffer>), counter: int, coff: int) -> Result<
    CBuffer,
    UserspaceError,
> {
    if c.0 == 0 {
        Err(UserspaceError::PortRemoteDead)
    } else if c.0 == 1 {
        Err(UserspaceError::NotImplemented)
    } else if c.0 == 2 {
        if coff > c.1[0].size {
            Err(UserspaceError::InvalidSize)
        } else if c.1[0].addr + coff > u64::MAX {
            Err(UserspaceError::InvalidAddress)
        } else {
            Ok(CBuffer { addr: (c.1[0].addr + coff) as u64, size: (c.1[0].size - coff) as u64 })
        }
    } else if counter >= c.1.len() {
        Err(UserspaceError::InvalidAddress)
    } else {
        Ok(c.1[counter])
    }
}

/// Whether the ranges at both ends of a copy lie in the 32-bit address
/// space.
pub open spec fn pointer_ranges_ok(from_addr: int, from_size: int, to: CBuffer) -> bool {
    &&& from_addr <= MAX_ADDRESS
    &&& from_size <= MAX_ADDRESS
    &&& from_addr + from_size <= MAX_ADDRESS
    &&& to.addr <= MAX_ADDRESS
    &&& to.size <= MAX_ADDRESS
    &&& to.addr + to.size <= MAX_ADDRESS
}

/// The message after the X descriptor at the current offset was passed.
///
/// The data the descriptor names is to be copied to where the receiver
/// offers room for it, and the descriptor is rewritten to name that place.
/// The side that is not the calling one must have its end mapped: the
/// sender when a request is received, the receiver when a reply is sent.
/// The destination must be large enough for the data.
pub open spec fn pointer_passed(
    t: PointerPass,
    from_buf: Seq<u8>,
    c: (int, Seq<CBuffer>),
    is_reply: bool,
    from_mem: Seq<Mapping>,
    to_mem: Seq<Mapping>,
) -> PointerPass {
    let counter = pointer_counter(from_buf, t.off);
    let from_addr = pointer_addr(from_buf, t.off);
    let from_size = pointer_size(from_buf, t.off);
    let destination = pointer_destination(c, counter, t.coff);
    let to = destination->Ok_0;
    let mirrored = if is_reply {
        mirror_verdict(to_mem, to.addr as int, to.size as int)
    } else {
        mirror_verdict(from_mem, from_addr, from_size)
    };
    if destination is Err {
        PointerPass { error: Some(destination->Err_0), ..t }
    } else if !pointer_ranges_ok(from_addr, from_size, to) {
        PointerPass { error: Some(UserspaceError::InvalidAddress), ..t }
    } else if mirrored is Err {
        PointerPass { error: Some(userspace_code(mirrored->Err_0)), ..t }
    } else if from_size > to.size {
        PointerPass { error: Some(UserspaceError::InvalidSize), ..t }
    } else {
        PointerPass {
            to_buf: patched(
                patched(
                    t.to_buf,
                    t.off,
                    u32_le_bytes(pointer_word(counter, to.addr as int, from_size)),
                ),
                t.off + 4,
                u32_le_bytes(to.addr as int),
            ),
            off: t.off + 8,
            coff: t.coff + from_size,
            copies: t.copies.push(
                CopyRequest {
                    from_addr: from_addr as usize,
                    to_addr: to.addr as usize,
                    len: from_size as usize,
                },
            ),
            error: None,
        }
    }
}

/// The message after `n` X descriptors were passed, or as many as could be
/// before an error.
pub open spec fn pointers_passed(
    t: PointerPass,
    from_buf: Seq<u8>,
    n: int,
    c: (int, Seq<CBuffer>),
    is_reply: bool,
    from_mem: Seq<Mapping>,
    to_mem: Seq<Mapping>,
) -> PointerPass
    decreases n,
{
    if n <= 0 || t.error is Some {
        t
    } else {
        pointers_passed(
            pointer_passed(t, from_buf, c, is_reply, from_mem, to_mem),
            from_buf,
            n - 1,
            c,
            is_reply,
            from_mem,
            to_mem,
        )
    }
}

/// Finds where the data of an X descriptor goes.
fn find_destination(c_bufs: &CBufBehavior, counter: u64, coff: u64) -> (r: Result<
    CBuffer,
    UserspaceError,
>)
    requires
        c_bufs@.0 == 2 ==> c_bufs@.1.len() == 1,
    ensures
        r == pointer_destination(c_bufs@, counter as int, coff as int),
{
    match c_bufs {
        CBufBehavior::Disabled => Err(UserspaceError::PortRemoteDead),
        CBufBehavior::Inlined => Err(UserspaceError::NotImplemented),
        CBufBehavior::Single(buffer) => {
            if coff > buffer.size {
                return Err(UserspaceError::InvalidSize);
            }
            if buffer.addr > u64::MAX - coff {
                return Err(UserspaceError::InvalidAddress);
            }
            Ok(CBuffer { addr: buffer.addr + coff, size: buffer.size - coff })
        },
        CBufBehavior::Numbered(bufs) => {
            if counter >= bufs.len() as u64 {
                return Err(UserspaceError::InvalidAddress);
            }
            Ok(bufs[counter as usize])
        },
    }
}

/// Passes one X descriptor.
fn pass_pointer(
    from_buf: &[u8],
    to_buf: &mut Vec<u8>,
    curoff: &mut usize,
    coff: &mut u64,
    c_bufs: &CBufBehavior,
    is_reply: bool,
    from_mem: &ProcessMemory,
    to_mem: &ProcessMemory,
    copies: &mut Vec<CopyRequest>,
) -> (r: Result<(), UserspaceError>)
    requires
        from_mem.wf(),
        to_mem.wf(),
        *old(curoff) + 8 <= from_buf@.len(),
        *old(curoff) + 8 <= old(to_buf)@.len(),
        *old(coff) <= 0x10_0000,
    ensures
        final(to_buf)@.len() == old(to_buf)@.len(),
        ({
            let start = PointerPass {
                to_buf: old(to_buf)@,
                off: *old(curoff) as int,
                coff: *old(coff) as int,
                copies: old(copies)@,
                error: None,
            };
            let end = pointer_passed(start, from_buf@, c_bufs@, is_reply, from_mem@, to_mem@);
            &&& final(to_buf)@ == end.to_buf
            &&& *final(curoff) == end.off
            &&& *final(coff) == end.coff
            &&& final(copies)@ == end.copies
            &&& r == (if end.error is Some {
                Err::<(), UserspaceError>(end.error->Some_0)
            } else {
                Ok::<(), UserspaceError>(())
            })
            &&& end.error is None ==> end.off == *old(curoff) + 8 && end.coff <= *old(coff)
                + 0x1_0000
        }),
{
    let off: usize = *curoff;
    let len: usize = from_buf.len();
    assert(off + 8 <= len);
    let word1: u32 = read_u32_le(from_buf, off);
    let word2: u32 = read_u32_le(from_buf, off + 4);
    proof {
        lemma2_to64();
        lemma2_to64_rest();
        lemma_bit_range_bound(word1 as int, 0, 6);
        lemma_bit_range_bound(word1 as int, 12, 16);
        lemma_bit_range_bound(word1 as int, 6, 9);
        lemma_bit_range_bound(word1 as int, 16, 32);
    }
    // the counter cannot go higher anyway
    let counter: u64 = get_bits_u64(word1 as u64, 0, 6);
    let from_low: u64 = set_bits_u64(word2 as u64, 32, 36, get_bits_u64(word1 as u64, 12, 16));
    let from_addr: u64 = set_bits_u64(from_low, 36, 39, get_bits_u64(word1 as u64, 6, 9));
    let from_size: u64 = get_bits_u64(word1 as u64, 16, 32);
    let destination: CBuffer = match find_destination(c_bufs, counter, *coff) {
        Ok(destination) => destination,
        Err(err) => {
            return Err(err);
        },
    };
    let to_addr: u64 = destination.addr;
    let to_size: u64 = destination.size;
    // the addresses must fit a 32-bit kernel
    if from_addr > MAX_ADDRESS || from_size > MAX_ADDRESS || from_addr.saturating_add(from_size)
        > MAX_ADDRESS || to_addr > MAX_ADDRESS || to_size > MAX_ADDRESS || to_addr.saturating_add(
        to_size,
    ) > MAX_ADDRESS {
        return Err(UserspaceError::InvalidAddress);
    }
    // the side that is not the calling one is reached through a mirror
    let mirrored = if is_reply {
        to_mem.mirror_mapping(VirtualAddress(to_addr as usize), to_size as usize)
    } else {
        from_mem.mirror_mapping(VirtualAddress(from_addr as usize), from_size as usize)
    };
    match mirrored {
        Ok(_) => {},
        Err(err) => {
            return Err(UserspaceError::from(err));
        },
    }
    if from_size > to_size {
        return Err(UserspaceError::InvalidSize);
    }
    copies.push(
        CopyRequest {
            from_addr: from_addr as usize,
            to_addr: to_addr as usize,
            len: from_size as usize,
        },
    );
    *coff = *coff + from_size;
    proof {
        lemma_bit_range_bound(to_addr as int, 36, 39);
        lemma_bit_range_bound(to_addr as int, 32, 36);
    }
    let word_a: u64 = set_bits_u64(counter, 6, 9, get_bits_u64(to_addr, 36, 39));
    let word_b: u64 = set_bits_u64(word_a, 12, 16, get_bits_u64(to_addr, 32, 36));
    let word_c: u64 = set_bits_u64(word_b, 16, 32, from_size);
    write_u32_le(to_buf, off, word_c as u32);
    write_u32_le(to_buf, off + 4, to_addr as u32);
    *curoff = off + 8;
    Ok(())
}

/// Passes `n` X descriptors.
fn pass_pointers(
    from_buf: &[u8],
    to_buf: &mut Vec<u8>,
    curoff: &mut usize,
    n: u8,
    c_bufs: &CBufBehavior,
    is_reply: bool,
    from_mem: &ProcessMemory,
    to_mem: &ProcessMemory,
    copies: &mut Vec<CopyRequest>,
) -> (r: Result<(), UserspaceError>)
    requires
        from_mem.wf(),
        to_mem.wf(),
        n < 16,
        c_bufs@.0 == 2 ==> c_bufs@.1.len() == 1,
        *old(curoff) + 8 * n <= from_buf@.len(),
        *old(curoff) + 8 * n <= old(to_buf)@.len(),
    ensures
        final(to_buf)@.len() == old(to_buf)@.len(),
        *old(curoff) <= *final(curoff) <= *old(curoff) + 8 * n,
        ({
            let start = PointerPass {
                to_buf: old(to_buf)@,
                off: *old(curoff) as int,
                coff: 0,
                copies: old(copies)@,
                error: None,
            };
            let end = pointers_passed(start, from_buf@, n as int, c_bufs@, is_reply, from_mem@, to_mem@);
            &&& final(to_buf)@ == end.to_buf
            &&& *final(curoff) == end.off
            &&& final(copies)@ == end.copies
            &&& r == (if end.error is Some {
                Err::<(), UserspaceError>(end.error->Some_0)
            } else {
                Ok::<(), UserspaceError>(())
            })
            &&& end.error is None ==> end.off == *old(curoff) + 8 * n
        }),
{
    let ghost start = PointerPass {
        to_buf: to_buf@,
        off: *curoff as int,
        coff: 0,
        copies: copies@,
        error: None,
    };
    let ghost end = pointers_passed(start, from_buf@, n as int, c_bufs@, is_reply, from_mem@, to_mem@);
    let mut coff: u64 = 0;
    let mut i: u8 = 0;
    while i < n
        invariant
            i <= n,
            n < 16,
            from_mem.wf(),
            to_mem.wf(),
            c_bufs@.0 == 2 ==> c_bufs@.1.len() == 1,
            to_buf@.len() == old(to_buf)@.len(),
            *curoff == *old(curoff) + 8 * i,
            *old(curoff) + 8 * n <= from_buf@.len(),
            *old(curoff) + 8 * n <= to_buf@.len(),
            coff <= 0x1_0000 * i,
            end == pointers_passed(
                PointerPass {
                    to_buf: old(to_buf)@,
                    off: *old(curoff) as int,
                    coff: 0,
                    copies: old(copies)@,
                    error: None,
                },
                from_buf@,
                n as int,
                c_bufs@,
                is_reply,
                from_mem@,
                to_mem@,
            ),
            end == pointers_passed(
                PointerPass {
                    to_buf: to_buf@,
                    off: *curoff as int,
                    coff: coff as int,
                    copies: copies@,
                    error: None,
                },
                from_buf@,
                n - i,
                c_bufs@,
                is_reply,
                from_mem@,
                to_mem@,
            ),
        decreases n - i,
    {
        let ghost now = PointerPass {
            to_buf: to_buf@,
            off: *curoff as int,
            coff: coff as int,
            copies: copies@,
            error: None,
        };
        let ghost step = pointer_passed(now, from_buf@, c_bufs@, is_reply, from_mem@, to_mem@);
        proof {
            assert(end == pointers_passed(
                step,
                from_buf@,
                n - i - 1,
                c_bufs@,
                is_reply,
                from_mem@,
                to_mem@,
            ));
            if step.error is Some {
                assert(end == step);
            }
        }
        match pass_pointer(
            from_buf,
            to_buf,
            curoff,
            &mut coff,
            c_bufs,
            is_reply,
            from_mem,
            to_mem,
            copies,
        ) {
            Ok(()) => {},
            Err(err) => {
                return Err(err);
            },
        }
        i = i + 1;
    }
    Ok(())
}

/// The receiver while A, B and W descriptors are passed.
pub struct BufferPass {
    /// The message of the receiver.
    pub to_buf: Seq<u8>,
    /// The offset of the next descriptor in the message.
    pub off: int,
    /// The address space of the receiver.
    pub to_mem: Seq<Mapping>,
    /// The buffers mapped for the request so far.
    pub buffers: Seq<Buffer>,
    /// The bytes to copy from the sending side to the receiving side.
    pub copies: Seq<CopyRequest>,
    /// The error that stopped the passing, if any.
    pub error: Option<UserspaceError>,
}

/// The receiver after the A, B or W descriptor at the current offset was
/// passed.
pub open spec fn buffer_step(
    t: BufferPass,
    from_buf: Seq<u8>,
    from_mem: Seq<Mapping>,
    writable: bool,
) -> BufferPass {
    match buffer_passed(from_buf, t.off, from_mem, t.to_mem, writable) {
        Ok(m) => BufferPass {
            to_buf: descriptor_written(t.to_buf, from_buf, t.off, m.to_addr),
            off: t.off + 12,
            to_mem: m.to_mem,
            buffers: t.buffers.push(
                Buffer {
                    writable,
                    source_addr: VirtualAddress(descriptor_addr(from_buf, t.off) as usize),
                    dest_addr: VirtualAddress(m.to_addr as usize),
                    size: descriptor_size(from_buf, t.off) as usize,
                },
            ),
            copies: t.copies + m.copies,
            error: None,
        },
        Err(e) => BufferPass { error: Some(e), ..t },
    }
}

/// The receiver after `n` A, B or W descriptors were passed, or as many as
/// could be before an error.
pub open spec fn buffers_passed(
    t: BufferPass,
    from_buf: Seq<u8>,
    from_mem: Seq<Mapping>,
    n: int,
    writable: bool,
) -> BufferPass
    decreases n,
{
    if n <= 0 || t.error is Some {
        t
    } else {
        buffers_passed(buffer_step(t, from_buf, from_mem, writable), from_buf, from_mem, n - 1, writable)
    }
}

/// Whether every buffer of a list is well-formed.
pub open spec fn buffers_wf(buffers: Seq<Buffer>) -> bool {
    forall|i: int| 0 <= i < buffers.len() ==> (#[trigger] buffers[i]).wf()
}

/// Passes `n` A, B or W descriptors.
fn pass_buffers(
    from_buf: &[u8],
    to_buf: &mut Vec<u8>,
    curoff: &mut usize,
    n: u8,
    writable: bool,
    from_mem: &ProcessMemory,
    to_mem: &mut ProcessMemory,
    buffers: &mut Vec<Buffer>,
    copies: &mut Vec<CopyRequest>,
) -> (r: Result<(), UserspaceError>)
    requires
        from_mem.wf(),
        old(to_mem).wf(),
        buffers_wf(old(buffers)@),
        n < 16,
        *old(curoff) + 12 * n <= from_buf@.len(),
        *old(curoff) + 12 * n <= old(to_buf)@.len(),
    ensures
        final(to_mem).wf(),
        buffers_wf(final(buffers)@),
        final(to_buf)@.len() == old(to_buf)@.len(),
        *old(curoff) <= *final(curoff) <= *old(curoff) + 12 * n,
        ({
            let start = BufferPass {
                to_buf: old(to_buf)@,
                off: *old(curoff) as int,
                to_mem: old(to_mem)@,
                buffers: old(buffers)@,
                copies: old(copies)@,
                error: None,
            };
            let end = buffers_passed(start, from_buf@, from_mem@, n as int, writable);
            &&& final(to_buf)@ == end.to_buf
            &&& *final(curoff) == end.off
            &&& final(to_mem)@ == end.to_mem
            &&& final(buffers)@ == end.buffers
            &&& final(copies)@ == end.copies
            &&& r == (if end.error is Some {
                Err::<(), UserspaceError>(end.error->Some_0)
            } else {
                Ok::<(), UserspaceError>(())
            })
            &&& end.error is None ==> end.off == *old(curoff) + 12 * n
        }),
{
    let ghost start = BufferPass {
        to_buf: to_buf@,
        off: *curoff as int,
        to_mem: to_mem@,
        buffers: buffers@,
        copies: copies@,
        error: None,
    };
    let ghost end = buffers_passed(start, from_buf@, from_mem@, n as int, writable);
    let flags = if writable {
        MappingAccessRights::writable()
    } else {
        MappingAccessRights::empty()
    };
    let mut i: u8 = 0;
    while i < n
        invariant
            i <= n,
            n < 16,
            from_mem.wf(),
            to_mem.wf(),
            buffers_wf(buffers@),
            flags.writable == writable,
            to_buf@.len() == old(to_buf)@.len(),
            *curoff == *old(curoff) + 12 * i,
            *old(curoff) + 12 * n <= from_buf@.len(),
            *old(curoff) + 12 * n <= to_buf@.len(),
            end == buffers_passed(
                BufferPass {
                    to_buf: old(to_buf)@,
                    off: *old(curoff) as int,
                    to_mem: old(to_mem)@,
                    buffers: old(buffers)@,
                    copies: old(copies)@,
                    error: None,
                },
                from_buf@,
                from_mem@,
                n as int,
                writable,
            ),
            end == buffers_passed(
                BufferPass {
                    to_buf: to_buf@,
                    off: *curoff as int,
                    to_mem: to_mem@,
                    buffers: buffers@,
                    copies: copies@,
                    error: None,
                },
                from_buf@,
                from_mem@,
                n - i,
                writable,
            ),
        decreases n - i,
    {
        let ghost now = BufferPass {
            to_buf: to_buf@,
            off: *curoff as int,
            to_mem: to_mem@,
            buffers: buffers@,
            copies: copies@,
            error: None,
        };
        let ghost step = buffer_step(now, from_buf@, from_mem@, writable);
        let ghost before = buffers@;
        proof {
            assert(end == buffers_passed(step, from_buf@, from_mem@, n - i - 1, writable));
            if step.error is Some {
                assert(end == step);
            }
        }
        match buf_map(from_buf, to_buf, curoff, from_mem, to_mem, flags, buffers, copies) {
            Ok(()) => {},
            Err(err) => {
                return Err(err);
            },
        }
        proof {
            assert forall|k: int| 0 <= k < buffers@.len() implies (#[trigger] buffers@[k]).wf() by {
                if k < before.len() {
                    assert(before[k].wf());
                }
            }
        }
        i = i + 1;
    }
    Ok(())
}

/// The side that received a request while its buffers are taken away.
pub struct UnmapPass {
    /// The address space the buffers were mapped into.
    pub mem: Seq<Mapping>,
    /// The bytes to copy from the sending side to the receiving side.
    pub copies: Seq<CopyRequest>,
    /// The first error met, if any.
    pub error: Option<UserspaceError>,
}

/// The side that received a request after the buffers from position `k` on
/// were taken away. Every buffer is unmapped, whatever happens; the first
/// error is kept.
pub open spec fn buffers_unmapped(
    t: UnmapPass,
    to: Seq<Mapping>,
    buffers: Seq<Buffer>,
    k: int,
) -> UnmapPass
    decreases buffers.len() - k,
{
    if k < 0 || k >= buffers.len() {
        t
    } else {
        buffers_unmapped(
            UnmapPass {
                mem: without_buffer(t.mem, buffers[k].dest_addr.0 as int, buffers[k].size as int),
                copies: t.copies + copied_back(to, buffers[k]).0,
                error: if t.error is Some {
                    t.error
                } else if copied_back(to, buffers[k]).1 is Err {
                    Some(copied_back(to, buffers[k]).1->Err_0)
                } else {
                    None
                },
            },
            to,
            buffers,
            k + 1,
        )
    }
}

/// Takes away every buffer that was mapped for a request.
pub fn unmap_buffers(
    buffers: &mut Vec<Buffer>,
    from_mem: &mut ProcessMemory,
    to_mem: &ProcessMemory,
    copies: &mut Vec<CopyRequest>,
) -> (r: Result<(), UserspaceError>)
    requires
        old(from_mem).wf(),
        to_mem.wf(),
        buffers_wf(old(buffers)@),
    ensures
        final(from_mem).wf(),
        final(buffers)@ == Seq::<Buffer>::empty(),
        ({
            let start = UnmapPass { mem: old(from_mem)@, copies: old(copies)@, error: None };
            let end = buffers_unmapped(start, to_mem@, old(buffers)@, 0);
            &&& final(from_mem)@ == end.mem
            &&& final(copies)@ == end.copies
            &&& r == (if end.error is Some {
                Err::<(), UserspaceError>(end.error->Some_0)
            } else {
                Ok::<(), UserspaceError>(())
            })
        }),
{
    let ghost end = buffers_unmapped(
        UnmapPass { mem: from_mem@, copies: copies@, error: None },
        to_mem@,
        buffers@,
        0,
    );
    let mut first_error: Option<UserspaceError> = None;
    let mut k: usize = 0;
    while k < buffers.len()
        invariant
            k <= buffers@.len(),
            buffers@ == old(buffers)@,
            buffers_wf(buffers@),
            from_mem.wf(),
            to_mem.wf(),
            end == buffers_unmapped(
                UnmapPass { mem: old(from_mem)@, copies: old(copies)@, error: None },
                to_mem@,
                old(buffers)@,
                0,
            ),
            end == buffers_unmapped(
                UnmapPass { mem: from_mem@, copies: copies@, error: first_error },
                to_mem@,
                buffers@,
                k as int,
            ),
        decreases buffers@.len() - k,
    {
        let buffer: Buffer = buffers[k];
        assert(buffers@[k as int].wf());
        match buf_unmap(&buffer, from_mem, to_mem, copies) {
            Ok(()) => {},
            Err(err) => {
                if first_error.is_none() {
                    first_error = Some(err);
                }
            },
        }
        k = k + 1;
    }
    buffers.clear();
    assert(buffers@ =~= Seq::<Buffer>::empty());
    match first_error {
        Some(err) => Err(err),
        None => Ok(()),
    }
}

/// The header of a message.
pub open spec fn header_of(bytes: Seq<u8>) -> MsgPackedHdr {
    MsgPackedHdr(le_u64(bytes, 0) as u64)
}

/// The handle descriptor of a message; one that announces nothing when the
/// message has none.
pub open spec fn handle_descriptor_of(bytes: Seq<u8>) -> HandleDescriptorHeader {
    if header_of(bytes).spec_has_handle_descriptor() {
        HandleDescriptorHeader(le_u32(bytes, 8) as u32)
    } else {
        HandleDescriptorHeader(0)
    }
}

/// How many bytes of a buffer a message takes, up to the end of its raw
/// data; for a buffer too short to tell, how many bytes are missed first.
pub open spec fn message_length(bytes: Seq<u8>) -> int {
    if bytes.len() < 8 {
        8
    } else if header_of(bytes).spec_has_handle_descriptor() && bytes.len() < 12 {
        12
    } else {
        c_descriptors_offset(bytes)
    }
}

/// Whether a message lies within its buffer and within the buffer it is
/// passed to.
pub open spec fn message_fits(from_buf: Seq<u8>, to_len: int) -> bool {
    message_length(from_buf) <= from_buf.len() && message_length(from_buf) <= to_len
}

/// The offset of the first handle of a message: past the header, the handle
/// descriptor and the process id slot.
pub open spec fn handles_offset(bytes: Seq<u8>) -> int {
    (if header_of(bytes).spec_has_handle_descriptor() {
        12int
    } else {
        8int
    }) + (if handle_descriptor_of(bytes).spec_send_pid() {
        8int
    } else {
        0int
    })
}

/// The message of the receiver with the header and the handle descriptor
/// copied and the process id of the sender filled in.
pub open spec fn prologue_written(to_buf: Seq<u8>, from_buf: Seq<u8>, from_pid: usize) -> Seq<u8> {
    let with_header = patched(to_buf, 0, u64_le_bytes(header_of(from_buf).0 as int));
    let with_descriptor = if header_of(from_buf).spec_has_handle_descriptor() {
        patched(with_header, 8, u32_le_bytes(handle_descriptor_of(from_buf).0 as int))
    } else {
        with_header
    };
    if handle_descriptor_of(from_buf).spec_send_pid() {
        patched(
            with_descriptor,
            handles_offset(from_buf) - 8,
            u64_le_bytes(from_pid as int % 0x1_0000_0000_0000_0000),
        )
    } else {
        with_descriptor
    }
}

/// What passing the first part of a message comes to: the header, the
/// process id and the handles.
///
/// A message that does not fit is refused with `InvalidSize`, one that
/// announces more handles than the receiver's table can take with
/// `ExceedingMaximum`; nothing is changed then. Otherwise the handles to
/// copy are passed, then the handles to move.
pub open spec fn prologue_passed(
    from_buf: Seq<u8>,
    from_pid: usize,
    start: HandlePass,
    current_thread: ThreadRef,
    current_process: ProcessRef,
) -> HandlePass {
    let descriptor = handle_descriptor_of(from_buf);
    if !message_fits(from_buf, start.to_buf.len() as int) {
        HandlePass { error: Some(UserspaceError::InvalidSize), ..start }
    } else if start.next + descriptor.spec_num_copy() + descriptor.spec_num_move() > MAX_HANDLE {
        HandlePass { error: Some(UserspaceError::ExceedingMaximum), ..start }
    } else {
        handles_passed(
            handles_passed(
                HandlePass {
                    to_buf: prologue_written(start.to_buf, from_buf, from_pid),
                    off: handles_offset(from_buf),
                    ..start
                },
                from_buf,
                descriptor.spec_num_copy(),
                false,
                current_thread,
                current_process,
            ),
            from_buf,
            descriptor.spec_num_move(),
            true,
            current_thread,
            current_process,
        )
    }
}

/// Reads the header and the handle descriptor of a message and checks that
/// the message lies within its buffer and within the buffer it is passed
/// to.
fn check_layout(from_buf: &[u8], to_len: usize) -> (r: Result<
    (MsgPackedHdr, HandleDescriptorHeader),
    UserspaceError,
>)
    ensures
        r is Ok <==> message_fits(from_buf@, to_len as int),
        r is Err ==> r->Err_0 == UserspaceError::InvalidSize,
        r is Ok ==> {
            &&& r->Ok_0.0 == header_of(from_buf@)
            &&& r->Ok_0.1 == handle_descriptor_of(from_buf@)
            &&& message_length(from_buf@) == c_descriptors_offset(from_buf@)
            &&& 8 <= handles_offset(from_buf@) <= descriptors_offset(from_buf@)
            &&& descriptors_offset(from_buf@) == handles_offset(from_buf@) + 4 * (r->Ok_0.1.spec_num_copy()
                + r->Ok_0.1.spec_num_move())
            &&& descriptors_offset(from_buf@) <= raw_data_offset(from_buf@) <= c_descriptors_offset(
                from_buf@,
            )
            &&& c_descriptors_offset(from_buf@) <= from_buf@.len()
            &&& c_descriptors_offset(from_buf@) <= to_len
        },
{
    let len: usize = from_buf.len();
    proof {
        lemma_offsets(from_buf@);
    }
    if len < 8 || to_len < 8 {
        return Err(UserspaceError::InvalidSize);
    }
    let hdr = MsgPackedHdr(read_u64_le(from_buf, 0));
    let has_descriptor: bool = hdr.enable_handle_descriptor();
    if has_descriptor && len < 12 {
        return Err(UserspaceError::InvalidSize);
    }
    let descriptor = if has_descriptor {
        HandleDescriptorHeader(read_u32_le(from_buf, 8))
    } else {
        HandleDescriptorHeader(0)
    };
    proof {
        lemma_no_handles();
    }
    let handles: usize = (descriptor.num_copy_handles() as usize) + (
    descriptor.num_move_handles() as usize);
    let send_pid: bool = descriptor.send_pid();
    let end: usize = (if has_descriptor {
        12
    } else {
        8
    }) + (if send_pid {
        8
    } else {
        0
    }) + 4 * handles + 8 * (hdr.num_x_descriptors() as usize) + 12 * ((
    hdr.num_a_descriptors() as usize) + (hdr.num_b_descriptors() as usize) + (
    hdr.num_w_descriptors() as usize)) + 4 * (hdr.raw_section_size() as usize);
    if len < end || to_len < end {
        return Err(UserspaceError::InvalidSize);
    }
    Ok((hdr, descriptor))
}

/// A handle descriptor of zero announces nothing.
proof fn lemma_no_handles()
    ensures
        !HandleDescriptorHeader(0).spec_send_pid(),
        HandleDescriptorHeader(0).spec_num_copy() == 0,
        HandleDescriptorHeader(0).spec_num_move() == 0,
{
    lemma2_to64();
    assert(pow2(0) == 1 && pow2(1) == 2 && pow2(4) == 16 && pow2(5) == 32);
    assert(0int / 1 == 0 && 0int / 2 == 0 && 0int / 32 == 0);
    assert(bit_range(0, 0, 1) == (0int / (pow2(0) as int)) % (pow2(1) as int));
    assert(bit_range(0, 1, 5) == (0int / (pow2(1) as int)) % (pow2(4) as int));
    assert(bit_range(0, 5, 9) == (0int / (pow2(5) as int)) % (pow2(4) as int));
}

/// The parts of a message come one after the other.
proof fn lemma_offsets(bytes: Seq<u8>)
    ensures
        8 <= handles_offset(bytes) <= descriptors_offset(bytes),
        descriptors_offset(bytes) == handles_offset(bytes) + 4 * (handle_descriptor_of(
            bytes,
        ).spec_num_copy() + handle_descriptor_of(bytes).spec_num_move()),
        descriptors_offset(bytes) <= raw_data_offset(bytes) <= c_descriptors_offset(bytes),
{
    let hdr = header_of(bytes);
    let descriptor = handle_descriptor_of(bytes);
    lemma_no_handles();
    lemma_bit_range_bound(descriptor.0 as int, 1, 5);
    lemma_bit_range_bound(descriptor.0 as int, 5, 9);
    lemma_bit_range_bound(hdr.0 as int, 16, 20);
    lemma_bit_range_bound(hdr.0 as int, 20, 24);
    lemma_bit_range_bound(hdr.0 as int, 24, 28);
    lemma_bit_range_bound(hdr.0 as int, 28, 32);
    lemma_bit_range_bound(hdr.0 as int, 32, 42);
}

/// Copies the header and the handle descriptor to the receiver and fills
/// in the process id of the sender. Returns the offset of the first handle.
fn write_prologue(
    from_buf: &[u8],
    to_buf: &mut Vec<u8>,
    hdr: MsgPackedHdr,
    descriptor: HandleDescriptorHeader,
    from_pid: usize,
) -> (curoff: usize)
    requires
        hdr == header_of(from_buf@),
        descriptor == handle_descriptor_of(from_buf@),
        handles_offset(from_buf@) <= old(to_buf)@.len(),
    ensures
        final(to_buf)@ == prologue_written(old(to_buf)@, from_buf@, from_pid),
        final(to_buf)@.len() == old(to_buf)@.len(),
        curoff == handles_offset(from_buf@),
{
    let mut curoff: usize = 8;
    write_u64_le(to_buf, 0, hdr.0);
    if hdr.enable_handle_descriptor() {
        write_u32_le(to_buf, curoff, descriptor.0);
        curoff = curoff + 4;
    }
    proof {
        lemma_no_handles();
    }
    if descriptor.send_pid() {
        write_u64_le(to_buf, curoff, from_pid as u64);
        curoff = curoff + 8;
    }
    curoff
}

/// Passes the first part of a message: the header, the process id and the
/// handles. Returns the header and the offset of what comes next.
fn pass_prologue(
    from_buf: &[u8],
    from_pid: usize,
    from_handle_table: &mut HandleTable,
    to_buf: &mut Vec<u8>,
    to_handle_table: &mut HandleTable,
    current_thread: ThreadRef,
    current_process: ProcessRef,
) -> (r: Result<(MsgPackedHdr, usize), UserspaceError>)
    requires
        old(from_handle_table).wf(),
        old(to_handle_table).wf(),
    ensures
        final(from_handle_table).wf(),
        final(to_handle_table).wf(),
        final(from_handle_table).next_id() == old(from_handle_table).next_id(),
        final(to_buf)@.len() == old(to_buf)@.len(),
        ({
            let start = HandlePass {
                from: old(from_handle_table)@,
                to: old(to_handle_table)@,
                next: old(to_handle_table).next_id(),
                to_buf: old(to_buf)@,
                off: 0,
                error: None,
            };
            let end = prologue_passed(from_buf@, from_pid, start, current_thread, current_process);
            &&& final(from_handle_table)@ == end.from
            &&& final(to_handle_table)@ == end.to
            &&& final(to_handle_table).next_id() == end.next
            &&& final(to_buf)@ == end.to_buf
            &&& r is Err <==> end.error is Some
            &&& r is Err ==> r->Err_0 == end.error->Some_0
            &&& r is Ok ==> {
                &&& r->Ok_0.0 == header_of(from_buf@)
                &&& r->Ok_0.1 == end.off
                &&& end.off == descriptors_offset(from_buf@)
                &&& message_fits(from_buf@, old(to_buf)@.len() as int)
                &&& descriptors_offset(from_buf@) <= raw_data_offset(from_buf@)
                    <= c_descriptors_offset(from_buf@)
                &&& c_descriptors_offset(from_buf@) <= from_buf@.len()
                &&& c_descriptors_offset(from_buf@) <= old(to_buf)@.len()
            }
        }),
{
    let to_len: usize = to_buf.len();
    let (hdr, descriptor) = match check_layout(from_buf, to_len) {
        Ok(found) => found,
        Err(err) => {
            return Err(err);
        },
    };
    let num_copy: u8 = descriptor.num_copy_handles();
    let num_move: u8 = descriptor.num_move_handles();
    // the receiver has to have room for the handles
    if (to_handle_table.remaining() as usize) < (num_copy as usize) + (num_move as usize) {
        return Err(UserspaceError::ExceedingMaximum);
    }
    let mut curoff: usize = write_prologue(from_buf, to_buf, hdr, descriptor, from_pid);
    let ghost written = HandlePass {
        from: from_handle_table@,
        to: to_handle_table@,
        next: to_handle_table.next_id(),
        to_buf: to_buf@,
        off: curoff as int,
        error: None,
    };
    let ghost copied = handles_passed(
        written,
        from_buf@,
        num_copy as int,
        false,
        current_thread,
        current_process,
    );
    match pass_handles(
        from_buf,
        to_buf,
        &mut curoff,
        num_copy,
        false,
        from_handle_table,
        to_handle_table,
        current_thread,
        current_process,
    ) {
        Ok(()) => {},
        Err(err) => {
            assert(handles_passed(
                copied,
                from_buf@,
                num_move as int,
                true,
                current_thread,
                current_process,
            ) == copied);
            return Err(err);
        },
    }
    match pass_handles(
        from_buf,
        to_buf,
        &mut curoff,
        num_move,
        true,
        from_handle_table,
        to_handle_table,
        current_thread,
        current_process,
    ) {
        Ok(()) => {},
        Err(err) => {
            return Err(err);
        },
    }
    Ok((hdr, curoff))
}

/// Everything that passing a message can change, as plain values.
pub struct Transfer {
    /// The message of the receiver.
    pub to_buf: Seq<u8>,
    /// The handle table of the sender.
    pub from_handles: Map<u32, Handle>,
    /// The handle table of the receiver.
    pub to_handles: Map<u32, Handle>,
    /// The number the next handle gets in the receiver.
    pub to_next: int,
    /// The address space of the sender.
    pub from_mem: Seq<Mapping>,
    /// The address space of the receiver.
    pub to_mem: Seq<Mapping>,
    /// The buffers mapped for the request.
    pub buffers: Seq<Buffer>,
    /// The bytes to copy from the sender's address space to the receiver's.
    pub copies: Seq<CopyRequest>,
    /// Whether the message was passed, or why not.
    pub result: Result<(), UserspaceError>,
}

/// The message of the receiver once the raw data was copied into it, and
/// what is reported: a message that carries C descriptors of its own is
/// refused with `NotImplemented` at the very end.
pub open spec fn raw_data_passed(from_buf: Seq<u8>, to_buf: Seq<u8>, off: int) -> (Seq<u8>, Result<
    (),
    UserspaceError,
>) {
    let hdr = header_of(from_buf);
    (
        patched(to_buf, off, from_buf.subrange(off, off + 4 * hdr.spec_raw_section_size())),
        if hdr.spec_c_flags() != 0 {
            Err(UserspaceError::NotImplemented)
        } else {
            Ok(())
        },
    )
}

/// The receiver after the A, the B and the W descriptors of a message were
/// passed, in this order.
pub open spec fn all_buffers_passed(
    t: BufferPass,
    from_buf: Seq<u8>,
    from_mem: Seq<Mapping>,
) -> BufferPass {
    let hdr = header_of(from_buf);
    buffers_passed(
        buffers_passed(
            buffers_passed(t, from_buf, from_mem, hdr.spec_num_a(), false),
            from_buf,
            from_mem,
            hdr.spec_num_b(),
            true,
        ),
        from_buf,
        from_mem,
        hdr.spec_num_w(),
        true,
    )
}

/// What passing the descriptors and the raw data of a request comes to,
/// once the header and the handles were passed: the X descriptors come
/// first, then the A, the B and the W descriptors, whose buffers are mapped
/// into the receiver, then the raw data.
pub open spec fn request_passed(
    from_buf: Seq<u8>,
    start: Transfer,
    off: int,
    c: (int, Seq<CBuffer>),
) -> Transfer {
    let pointers = pointers_passed(
        PointerPass { to_buf: start.to_buf, off, coff: 0, copies: start.copies, error: None },
        from_buf,
        header_of(from_buf).spec_num_x(),
        c,
        false,
        start.from_mem,
        start.to_mem,
    );
    let mapped = all_buffers_passed(
        BufferPass {
            to_buf: pointers.to_buf,
            off: pointers.off,
            to_mem: start.to_mem,
            buffers: start.buffers,
            copies: pointers.copies,
            error: None,
        },
        from_buf,
        start.from_mem,
    );
    if pointers.error is Some {
        Transfer {
            to_buf: pointers.to_buf,
            copies: pointers.copies,
            result: Err(pointers.error->Some_0),
            ..start
        }
    } else if mapped.error is Some {
        Transfer {
            to_buf: mapped.to_buf,
            to_mem: mapped.to_mem,
            buffers: mapped.buffers,
            copies: mapped.copies,
            result: Err(mapped.error->Some_0),
            ..start
        }
    } else {
        Transfer {
            to_buf: raw_data_passed(from_buf, mapped.to_buf, mapped.off).0,
            to_mem: mapped.to_mem,
            buffers: mapped.buffers,
            copies: mapped.copies,
            result: raw_data_passed(from_buf, mapped.to_buf, mapped.off).1,
            ..start
        }
    }
}

/// The side that received a request after the buffers from position `k` on
/// were unmapped, whoever sent the request.
pub open spec fn buffers_released(mem: Seq<Mapping>, buffers: Seq<Buffer>, k: int) -> Seq<Mapping>
    decreases buffers.len() - k,
{
    if k < 0 || k >= buffers.len() {
        mem
    } else {
        buffers_released(
            without_buffer(mem, buffers[k].dest_addr.0 as int, buffers[k].size as int),
            buffers,
            k + 1,
        )
    }
}

/// Taking the buffers of a request away unmaps each of them, whatever is
/// copied back and whatever goes wrong with that.
pub proof fn lemma_unmapped_is_released(t: UnmapPass, to: Seq<Mapping>, buffers: Seq<Buffer>, k: int)
    ensures
        buffers_unmapped(t, to, buffers, k).mem == buffers_released(t.mem, buffers, k),
    decreases buffers.len() - k,
{
    if 0 <= k < buffers.len() {
        lemma_unmapped_is_released(
            UnmapPass {
                mem: without_buffer(t.mem, buffers[k].dest_addr.0 as int, buffers[k].size as int),
                copies: t.copies + copied_back(to, buffers[k]).0,
                error: if t.error is Some {
                    t.error
                } else if copied_back(to, buffers[k]).1 is Err {
                    Some(copied_back(to, buffers[k]).1->Err_0)
                } else {
                    None
                },
            },
            to,
            buffers,
            k + 1,
        );
    }
}

/// A reply as it stands once the buffers that were mapped for the request
/// are taken away from the side that sends the reply: what is to be copied
/// back is added to the copies, every buffer is unmapped, and none stays
/// recorded.
pub open spec fn buffers_taken_away(t: Transfer) -> Transfer {
    let unmapped = buffers_unmapped(
        UnmapPass { mem: t.from_mem, copies: t.copies, error: None },
        t.to_mem,
        t.buffers,
        0,
    );
    Transfer {
        from_mem: unmapped.mem,
        buffers: Seq::<Buffer>::empty(),
        copies: unmapped.copies,
        ..t
    }
}

/// What passing the descriptors and the raw data of a reply comes to, once
/// the header and the handles were passed: the X descriptors come first; a
/// reply that has A, B or W descriptors is refused with `PortRemoteDead`;
/// then the raw data is copied. The buffers that were mapped for the
/// request are taken away from the side that sends the reply, whether the
/// reply can be passed or not. The error reported is the first one met.
pub open spec fn reply_passed(
    from_buf: Seq<u8>,
    start: Transfer,
    off: int,
    c: (int, Seq<CBuffer>),
) -> Transfer {
    let hdr = header_of(from_buf);
    let pointers = pointers_passed(
        PointerPass { to_buf: start.to_buf, off, coff: 0, copies: start.copies, error: None },
        from_buf,
        hdr.spec_num_x(),
        c,
        true,
        start.from_mem,
        start.to_mem,
    );
    let unmapped = buffers_unmapped(
        UnmapPass { mem: start.from_mem, copies: pointers.copies, error: None },
        start.to_mem,
        start.buffers,
        0,
    );
    let with_pointers = Transfer { to_buf: pointers.to_buf, copies: pointers.copies, ..start };
    if pointers.error is Some {
        buffers_taken_away(Transfer { result: Err(pointers.error->Some_0), ..with_pointers })
    } else if hdr.spec_num_a() + hdr.spec_num_b() + hdr.spec_num_w() != 0 {
        buffers_taken_away(Transfer { result: Err(UserspaceError::PortRemoteDead), ..with_pointers })
    } else if unmapped.error is Some {
        buffers_taken_away(Transfer { result: Err(unmapped.error->Some_0), ..with_pointers })
    } else {
        buffers_taken_away(
            Transfer {
                to_buf: raw_data_passed(from_buf, pointers.to_buf, pointers.off).0,
                result: raw_data_passed(from_buf, pointers.to_buf, pointers.off).1,
                ..with_pointers
            },
        )
    }
}

/// What passing the descriptors and the raw data of a message comes to,
/// once the header and the handles were passed.
pub open spec fn descriptors_passed(
    from_buf: Seq<u8>,
    start: Transfer,
    off: int,
    is_reply: bool,
    c: (int, Seq<CBuffer>),
) -> Transfer {
    if is_reply {
        reply_passed(from_buf, start, off, c)
    } else {
        request_passed(from_buf, start, off, c)
    }
}

/// What passing a message comes to. With a reply, the buffers that were
/// mapped for the request are taken away on every path, also when the
/// header or the handles cannot be passed.
#[verifier::opaque]
pub open spec fn message_passed(
    from_buf: Seq<u8>,
    from_pid: usize,
    start: Transfer,
    current_thread: ThreadRef,
    current_process: ProcessRef,
    is_reply: bool,
    c: (int, Seq<CBuffer>),
) -> Transfer {
    let prologue = prologue_passed(
        from_buf,
        from_pid,
        HandlePass {
            from: start.from_handles,
            to: start.to_handles,
            next: start.to_next,
            to_buf: start.to_buf,
            off: 0,
            error: None,
        },
        current_thread,
        current_process,
    );
    let with_handles = Transfer {
        to_buf: prologue.to_buf,
        from_handles: prologue.from,
        to_handles: prologue.to,
        to_next: prologue.next,
        ..start
    };
    if prologue.error is Some {
        if is_reply {
            buffers_taken_away(Transfer { result: Err(prologue.error->Some_0), ..with_handles })
        } else {
            Transfer { result: Err(prologue.error->Some_0), ..with_handles }
        }
    } else {
        descriptors_passed(from_buf, with_handles, prologue.off, is_reply, c)
    }
}

/// Copies the raw data and reports how the passing ended.
fn pass_raw_data(from_buf: &[u8], to_buf: &mut Vec<u8>, hdr: MsgPackedHdr, off: usize) -> (r: Result<
    (),
    UserspaceError,
>)
    requires
        hdr == header_of(from_buf@),
        off + 4 * hdr.spec_raw_section_size() <= from_buf@.len(),
        off + 4 * hdr.spec_raw_section_size() <= old(to_buf)@.len(),
    ensures
        final(to_buf)@.len() == old(to_buf)@.len(),
        final(to_buf)@ == raw_data_passed(from_buf@, old(to_buf)@, off as int).0,
        r == raw_data_passed(from_buf@, old(to_buf)@, off as int).1,
{
    copy_bytes(from_buf, to_buf, off, 4 * (hdr.raw_section_size() as usize));
    if hdr.c_descriptor_flags() != 0 {
        // messages that bring C descriptors are not passed yet
        return Err(UserspaceError::NotImplemented);
    }
    Ok(())
}

/// Passes the A, the B and the W descriptors of a message.
fn pass_all_buffers(
    from_buf: &[u8],
    to_buf: &mut Vec<u8>,
    hdr: MsgPackedHdr,
    curoff: &mut usize,
    from_mem: &ProcessMemory,
    to_mem: &mut ProcessMemory,
    buffers: &mut Vec<Buffer>,
    copies: &mut Vec<CopyRequest>,
) -> (r: Result<(), UserspaceError>)
    requires
        from_mem.wf(),
        old(to_mem).wf(),
        buffers_wf(old(buffers)@),
        hdr == header_of(from_buf@),
        *old(curoff) + 12 * (hdr.spec_num_a() + hdr.spec_num_b() + hdr.spec_num_w()) <= from_buf@.len(),
        *old(curoff) + 12 * (hdr.spec_num_a() + hdr.spec_num_b() + hdr.spec_num_w()) <= old(
            to_buf,
        )@.len(),
    ensures
        final(to_mem).wf(),
        buffers_wf(final(buffers)@),
        final(to_buf)@.len() == old(to_buf)@.len(),
        ({
            let start = BufferPass {
                to_buf: old(to_buf)@,
                off: *old(curoff) as int,
                to_mem: old(to_mem)@,
                buffers: old(buffers)@,
                copies: old(copies)@,
                error: None,
            };
            let end = all_buffers_passed(start, from_buf@, from_mem@);
            &&& final(to_buf)@ == end.to_buf
            &&& *final(curoff) == end.off
            &&& final(to_mem)@ == end.to_mem
            &&& final(buffers)@ == end.buffers
            &&& final(copies)@ == end.copies
            &&& r == (if end.error is Some {
                Err::<(), UserspaceError>(end.error->Some_0)
            } else {
                Ok::<(), UserspaceError>(())
            })
            &&& end.error is None ==> end.off == *old(curoff) + 12 * (hdr.spec_num_a()
                + hdr.spec_num_b() + hdr.spec_num_w())
        }),
{
    let num_a: u8 = hdr.num_a_descriptors();
    let num_b: u8 = hdr.num_b_descriptors();
    let num_w: u8 = hdr.num_w_descriptors();
    let ghost start = BufferPass {
        to_buf: to_buf@,
        off: *curoff as int,
        to_mem: to_mem@,
        buffers: buffers@,
        copies: copies@,
        error: None,
    };
    let ghost a = buffers_passed(start, from_buf@, from_mem@, num_a as int, false);
    let ghost b = buffers_passed(a, from_buf@, from_mem@, num_b as int, true);
    match pass_buffers(from_buf, to_buf, curoff, num_a, false, from_mem, to_mem, buffers, copies) {
        Ok(()) => {},
        Err(err) => {
            assert(b == a);
            assert(buffers_passed(b, from_buf@, from_mem@, num_w as int, true) == b);
            return Err(err);
        },
    }
    match pass_buffers(from_buf, to_buf, curoff, num_b, true, from_mem, to_mem, buffers, copies) {
        Ok(()) => {},
        Err(err) => {
            assert(buffers_passed(b, from_buf@, from_mem@, num_w as int, true) == b);
            return Err(err);
        },
    }
    pass_buffers(from_buf, to_buf, curoff, num_w, true, from_mem, to_mem, buffers, copies)
}

/// Passes the descriptors and the raw data of a request.
fn pass_request(
    from_buf: &[u8],
    to_buf: &mut Vec<u8>,
    hdr: MsgPackedHdr,
    off: usize,
    from_mem: &ProcessMemory,
    to_mem: &mut ProcessMemory,
    buffers: &mut Vec<Buffer>,
    c_bufs: &CBufBehavior,
    copies: &mut Vec<CopyRequest>,
) -> (r: Result<(), UserspaceError>)
    requires
        from_mem.wf(),
        old(to_mem).wf(),
        buffers_wf(old(buffers)@),
        hdr == header_of(from_buf@),
        off == descriptors_offset(from_buf@),
        descriptors_offset(from_buf@) <= raw_data_offset(from_buf@) <= c_descriptors_offset(from_buf@),
        c_descriptors_offset(from_buf@) <= from_buf@.len(),
        c_descriptors_offset(from_buf@) <= old(to_buf)@.len(),
    ensures
        final(to_mem).wf(),
        buffers_wf(final(buffers)@),
        final(to_buf)@.len() == old(to_buf)@.len(),
        ({
            let start = Transfer {
                to_buf: old(to_buf)@,
                from_handles: Map::empty(),
                to_handles: Map::empty(),
                to_next: 0,
                from_mem: from_mem@,
                to_mem: old(to_mem)@,
                buffers: old(buffers)@,
                copies: old(copies)@,
                result: Ok(()),
            };
            let end = request_passed(from_buf@, start, off as int, c_bufs@);
            &&& final(to_buf)@ == end.to_buf
            &&& final(to_mem)@ == end.to_mem
            &&& final(buffers)@ == end.buffers
            &&& final(copies)@ == end.copies
            &&& r == end.result
        }),
{
    let mut curoff: usize = off;
    proof {
        lemma_offsets(from_buf@);
        lemma_bit_range_bound(hdr.0 as int, 16, 20);
        lemma_bit_range_bound(hdr.0 as int, 20, 24);
        lemma_bit_range_bound(hdr.0 as int, 24, 28);
        lemma_bit_range_bound(hdr.0 as int, 28, 32);
        lemma_bit_range_bound(hdr.0 as int, 32, 42);
    }
    match pass_pointers(
        from_buf,
        to_buf,
        &mut curoff,
        hdr.num_x_descriptors(),
        c_bufs,
        false,
        from_mem,
        to_mem,
        copies,
    ) {
        Ok(()) => {},
        Err(err) => {
            return Err(err);
        },
    }
    match pass_all_buffers(from_buf, to_buf, hdr, &mut curoff, from_mem, to_mem, buffers, copies) {
        Ok(()) => {},
        Err(err) => {
            return Err(err);
        },
    }
    pass_raw_data(from_buf, to_buf, hdr, curoff)
}

/// Passes the descriptors and the raw data of a reply.
fn pass_reply(
    from_buf: &[u8],
    to_buf: &mut Vec<u8>,
    hdr: MsgPackedHdr,
    off: usize,
    from_mem: &mut ProcessMemory,
    to_mem: &ProcessMemory,
    buffers: &mut Vec<Buffer>,
    c_bufs: &CBufBehavior,
    copies: &mut Vec<CopyRequest>,
) -> (r: Result<(), UserspaceError>)
    requires
        old(from_mem).wf(),
        to_mem.wf(),
        buffers_wf(old(buffers)@),
        hdr == header_of(from_buf@),
        off == descriptors_offset(from_buf@),
        descriptors_offset(from_buf@) <= raw_data_offset(from_buf@) <= c_descriptors_offset(from_buf@),
        c_descriptors_offset(from_buf@) <= from_buf@.len(),
        c_descriptors_offset(from_buf@) <= old(to_buf)@.len(),
    ensures
        final(from_mem).wf(),
        buffers_wf(final(buffers)@),
        final(to_buf)@.len() == old(to_buf)@.len(),
        ({
            let start = Transfer {
                to_buf: old(to_buf)@,
                from_handles: Map::empty(),
                to_handles: Map::empty(),
                to_next: 0,
                from_mem: old(from_mem)@,
                to_mem: to_mem@,
                buffers: old(buffers)@,
                copies: old(copies)@,
                result: Ok(()),
            };
            let end = reply_passed(from_buf@, start, off as int, c_bufs@);
            &&& final(to_buf)@ == end.to_buf
            &&& final(from_mem)@ == end.from_mem
            &&& final(buffers)@ == end.buffers
            &&& final(copies)@ == end.copies
            &&& r == end.result
        }),
{
    let mut curoff: usize = off;
    proof {
        lemma_offsets(from_buf@);
        lemma_bit_range_bound(hdr.0 as int, 16, 20);
        lemma_bit_range_bound(hdr.0 as int, 20, 24);
        lemma_bit_range_bound(hdr.0 as int, 24, 28);
        lemma_bit_range_bound(hdr.0 as int, 28, 32);
        lemma_bit_range_bound(hdr.0 as int, 32, 42);
    }
    match pass_pointers(
        from_buf,
        to_buf,
        &mut curoff,
        hdr.num_x_descriptors(),
        c_bufs,
        true,
        from_mem,
        to_mem,
        copies,
    ) {
        Ok(()) => {},
        Err(err) => {
            // the buffers of the request are taken away all the same
            let _ = unmap_buffers(buffers, from_mem, to_mem, copies);
            return Err(err);
        },
    }
    if hdr.num_a_descriptors() != 0 || hdr.num_b_descriptors() != 0 || hdr.num_w_descriptors() != 0 {
        // a reply cannot bring buffers of its own
        let _ = unmap_buffers(buffers, from_mem, to_mem, copies);
        return Err(UserspaceError::PortRemoteDead);
    }
    // the buffers of the request are taken away again
    match unmap_buffers(buffers, from_mem, to_mem, copies) {
        Ok(()) => {},
        Err(err) => {
            return Err(err);
        },
    }
    pass_raw_data(from_buf, to_buf, hdr, curoff)
}

/// Passes a message from one process to another.
///
/// `from_buf` is the message as the sender wrote it, `to_buf` the buffer of
/// the receiver, which gets the message as the receiver is to see it:
///
/// - the header is copied, and the process id of the sender is filled in
///   where the message asks for it;
/// - the handles the message announces are copied or moved from the
///   sender's table to the receiver's, and the message gets the numbers
///   they have there;
/// - the data of X descriptors is to be copied into the C buffers the
///   receiver offers, and the descriptors get the addresses there;
/// - the buffers of A, B and W descriptors are mapped into the receiver and
///   recorded in `buffers`, and the descriptors get the addresses there;
///   with a reply, the buffers recorded for the request are unmapped;
/// - the raw data is copied.
///
/// The bytes that have to travel between the address spaces are added to
/// `copies`. The handle tables must be those of two different processes.
///
/// On an error the passing stops where it is: what was done before stays
/// done, except that a buffer whose mapping fails leaves nothing mapped.
/// A reply takes the buffers of its request away even then: whatever comes
/// of a reply, none of them stays mapped or recorded.
pub fn pass_message(
    from_buf: &[u8],
    from_pid: usize,
    from_handle_table: &mut HandleTable,
    from_mem: &mut ProcessMemory,
    to_buf: &mut Vec<u8>,
    to_handle_table: &mut HandleTable,
    to_mem: &mut ProcessMemory,
    current_thread: ThreadRef,
    current_process: ProcessRef,
    is_reply: bool,
    buffers: &mut Vec<Buffer>,
    c_bufs: &CBufBehavior,
    copies: &mut Vec<CopyRequest>,
) -> (r: Result<(), UserspaceError>)
    requires
        old(from_handle_table).wf(),
        old(to_handle_table).wf(),
        old(from_mem).wf(),
        old(to_mem).wf(),
        buffers_wf(old(buffers)@),
    ensures
        final(from_handle_table).wf(),
        final(to_handle_table).wf(),
        final(from_mem).wf(),
        final(to_mem).wf(),
        buffers_wf(final(buffers)@),
        final(to_buf)@.len() == old(to_buf)@.len(),
        final(from_handle_table).next_id() == old(from_handle_table).next_id(),
        ({
            let start = Transfer {
                to_buf: old(to_buf)@,
                from_handles: old(from_handle_table)@,
                to_handles: old(to_handle_table)@,
                to_next: old(to_handle_table).next_id(),
                from_mem: old(from_mem)@,
                to_mem: old(to_mem)@,
                buffers: old(buffers)@,
                copies: old(copies)@,
                result: Ok(()),
            };
            let end = message_passed(
                from_buf@,
                from_pid,
                start,
                current_thread,
                current_process,
                is_reply,
                c_bufs@,
            );
            &&& final(to_buf)@ == end.to_buf
            &&& final(from_handle_table)@ == end.from_handles
            &&& final(to_handle_table)@ == end.to_handles
            &&& final(to_handle_table).next_id() == end.to_next
            &&& final(from_mem)@ == end.from_mem
            &&& final(to_mem)@ == end.to_mem
            &&& final(buffers)@ == end.buffers
            &&& final(copies)@ == end.copies
            &&& r == end.result
        }),
{
    proof {
        reveal(message_passed);
    }
    let (hdr, curoff) = match pass_prologue(
        from_buf,
        from_pid,
        from_handle_table,
        to_buf,
        to_handle_table,
        current_thread,
        current_process,
    ) {
        Ok(passed) => passed,
        Err(err) => {
            if is_reply {
                // the buffers of the request are taken away all the same
                let _ = unmap_buffers(buffers, from_mem, to_mem, copies);
            }
            return Err(err);
        },
    };
    if is_reply {
        pass_reply(from_buf, to_buf, hdr, curoff, from_mem, to_mem, buffers, c_bufs, copies)
    } else {
        pass_request(from_buf, to_buf, hdr, curoff, from_mem, to_mem, buffers, c_bufs, copies)
    }
}

/// Unmaps every buffer that was mapped for a request without copying
/// anything back, for a request whose sender is gone.
pub fn release_buffers(buffers: &mut Vec<Buffer>, from_mem: &mut ProcessMemory)
    requires
        old(from_mem).wf(),
        buffers_wf(old(buffers)@),
    ensures
        final(from_mem).wf(),
        final(buffers)@ == Seq::<Buffer>::empty(),
        final(from_mem)@ == buffers_released(old(from_mem)@, old(buffers)@, 0),
{
    let mut k: usize = 0;
    while k < buffers.len()
        invariant
            k <= buffers@.len(),
            buffers@ == old(buffers)@,
            buffers_wf(buffers@),
            from_mem.wf(),
            buffers_released(from_mem@, buffers@, k as int) == buffers_released(
                old(from_mem)@,
                old(buffers)@,
                0,
            ),
        decreases buffers@.len() - k,
    {
        let buffer: Buffer = buffers[k];
        assert(buffers@[k as int].wf());
        buf_release(&buffer, from_mem);
        k = k + 1;
    }
    buffers.clear();
    assert(buffers@ =~= Seq::<Buffer>::empty());
}

/// Whatever comes of a reply, the buffers that were mapped for the request
/// do not outlive it: none stays recorded, and each was unmapped from the
/// side that sends the reply, whether the reply was passed, was refused, or
/// failed on the way.
pub proof fn law_reply_takes_every_buffer_away(
    from_buf: Seq<u8>,
    from_pid: usize,
    start: Transfer,
    current_thread: ThreadRef,
    current_process: ProcessRef,
    c: (int, Seq<CBuffer>),
)
    ensures
        message_passed(from_buf, from_pid, start, current_thread, current_process, true, c).buffers
            == Seq::<Buffer>::empty(),
        message_passed(from_buf, from_pid, start, current_thread, current_process, true, c).from_mem
            == buffers_released(start.from_mem, start.buffers, 0),
{
    reveal(message_passed);
    let prologue = prologue_passed(
        from_buf,
        from_pid,
        HandlePass {
            from: start.from_handles,
            to: start.to_handles,
            next: start.to_next,
            to_buf: start.to_buf,
            off: 0,
            error: None,
        },
        current_thread,
        current_process,
    );
    let with_handles = Transfer {
        to_buf: prologue.to_buf,
        from_handles: prologue.from,
        to_handles: prologue.to,
        to_next: prologue.next,
        ..start
    };
    if prologue.error is Some {
        lemma_unmapped_is_released(
            UnmapPass { mem: start.from_mem, copies: start.copies, error: None },
            start.to_mem,
            start.buffers,
            0,
        );
    } else {
        let pointers = pointers_passed(
            PointerPass {
                to_buf: with_handles.to_buf,
                off: prologue.off,
                coff: 0,
                copies: start.copies,
                error: None,
            },
            from_buf,
            header_of(from_buf).spec_num_x(),
            c,
            true,
            start.from_mem,
            start.to_mem,
        );
        lemma_unmapped_is_released(
            UnmapPass { mem: start.from_mem, copies: pointers.copies, error: None },
            start.to_mem,
            start.buffers,
            0,
        );
    }
}

/// What becomes of a handle that a message passes, for a message that
/// announces this one handle and no other, whatever else the message holds
/// and whatever comes of the rest of it.
///
/// The receiver gets the handle under its next number, which named nothing
/// before, and the message names the handle by that number once the handles
/// are passed. A handle that is moved leaves the table of the sender, which
/// keeps every other entry; the number of table entries that name the
/// object stays the same. A handle that is copied stays with the sender,
/// and the object is named by one entry more. A request that holds nothing
/// but the handle is passed without error.
pub proof fn law_single_handle_is_passed(
    from_buf: Seq<u8>,
    from_pid: usize,
    start: Transfer,
    current_thread: ThreadRef,
    current_process: ProcessRef,
    is_reply: bool,
    c: (int, Seq<CBuffer>),
    moving: bool,
)
    requires
        start.from_handles.dom().finite(),
        start.to_handles.dom().finite(),
        1 <= start.to_next < MAX_HANDLE,
        forall|id: u32| start.to_handles.contains_key(id) ==> id < start.to_next,
        message_fits(from_buf, start.to_buf.len() as int),
        header_of(from_buf).spec_has_handle_descriptor(),
        handle_descriptor_of(from_buf).spec_num_copy() == (if moving {
            0int
        } else {
            1int
        }),
        handle_descriptor_of(from_buf).spec_num_move() == (if moving {
            1int
        } else {
            0int
        }),
        start.from_handles.contains_key(le_u32(from_buf, handles_offset(from_buf)) as u32),
        le_u32(from_buf, handles_offset(from_buf)) as u32 != crate::handle::CURRENT_THREAD_HANDLE,
        le_u32(from_buf, handles_offset(from_buf)) as u32 != crate::handle::CURRENT_PROCESS_HANDLE,
    ensures
        ({
            let number = le_u32(from_buf, handles_offset(from_buf)) as u32;
            let handle = start.from_handles[number];
            let fresh = start.to_next as u32;
            let end = message_passed(
                from_buf,
                from_pid,
                start,
                current_thread,
                current_process,
                is_reply,
                c,
            );
            let passed = prologue_passed(
                from_buf,
                from_pid,
                HandlePass {
                    from: start.from_handles,
                    to: start.to_handles,
                    next: start.to_next,
                    to_buf: start.to_buf,
                    off: 0,
                    error: None,
                },
                current_thread,
                current_process,
            );
            &&& !start.to_handles.contains_key(fresh)
            &&& end.to_handles == start.to_handles.insert(fresh, handle)
            &&& end.to_next == start.to_next + 1
            &&& end.from_handles == (if moving {
                start.from_handles.remove(number)
            } else {
                start.from_handles
            })
            &&& passed.error is None
            &&& le_u32(passed.to_buf, handles_offset(from_buf)) == fresh
            &&& crate::handle::references(end.from_handles, handle) + crate::handle::references(
                end.to_handles,
                handle,
            ) == crate::handle::references(start.from_handles, handle) + crate::handle::references(
                start.to_handles,
                handle,
            ) + (if moving {
                0int
            } else {
                1int
            })
            &&& !is_reply && header_of(from_buf).spec_num_x() == 0 && header_of(from_buf).spec_num_a()
                == 0 && header_of(from_buf).spec_num_b() == 0 && header_of(from_buf).spec_num_w() == 0
                && header_of(from_buf).spec_c_flags() == 0 ==> end.result == Ok::<
                (),
                UserspaceError,
            >(())
        }),
{
    reveal(message_passed);
    lemma_offsets(from_buf);
    let number = le_u32(from_buf, handles_offset(from_buf)) as u32;
    let handle = start.from_handles[number];
    let fresh = start.to_next as u32;
    let written = HandlePass {
        from: start.from_handles,
        to: start.to_handles,
        next: start.to_next,
        to_buf: prologue_written(start.to_buf, from_buf, from_pid),
        off: handles_offset(from_buf),
        error: None,
    };
    let step = handle_passed(written, from_buf, moving, current_thread, current_process);
    assert(step.error is None);
    // the one handle is passed in one step, whether it is copied or moved
    assert(handles_passed(written, from_buf, 1, moving, current_thread, current_process)
        == handles_passed(step, from_buf, 0, moving, current_thread, current_process));
    assert(handles_passed(step, from_buf, 0, moving, current_thread, current_process) == step);
    assert(handles_passed(written, from_buf, 0, !moving, current_thread, current_process) == written);
    assert(handles_passed(step, from_buf, 0, !moving, current_thread, current_process) == step);
    let passed = prologue_passed(
        from_buf,
        from_pid,
        HandlePass {
            from: start.from_handles,
            to: start.to_handles,
            next: start.to_next,
            to_buf: start.to_buf,
            off: 0,
            error: None,
        },
        current_thread,
        current_process,
    );
    assert(passed == step);
    crate::bytes::lemma_le_u32_patched(written.to_buf, handles_offset(from_buf), start.to_next);
    crate::handle::lemma_references_insert(start.to_handles, fresh, handle, handle);
    if moving {
        crate::handle::lemma_references_remove(start.from_handles, number, handle);
    }
}

} // verus!
