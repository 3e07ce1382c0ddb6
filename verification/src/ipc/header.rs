//! The layout of an IPC message.
//!
//! A message starts with a 64-bit header word. An optional handle descriptor
//! follows, with the process id slot and the handles it announces; then come
//! the X descriptors, the A, B and W descriptors, the raw data, and at the
//! end the C descriptors. All words are little-endian.

use crate::bits::bit_range;
use crate::bits::get_bits_u64;
use crate::bits::lemma_bit_range_bound;
use crate::bits::set_bits_u64;
use crate::bits::with_bit_range;
use crate::bytes::le_u32;
use crate::bytes::le_u64;
use crate::bytes::read_u32_le;
use crate::bytes::read_u64_le;
use crate::error::KernelError;
use vstd::arithmetic::power2::lemma2_to64;
use vstd::prelude::*;

verus! {

/// The header of a message: it tells the kernel what the message holds.
#[derive(Clone, Copy, Debug, PartialEq, Eq, Structural)]
pub struct MsgPackedHdr(pub u64);

/// The header of the handle descriptor, which is there when the message
/// header says so.
#[derive(Clone, Copy, Debug, PartialEq, Eq, Structural)]
pub struct HandleDescriptorHeader(pub u32);

impl MsgPackedHdr {
    /// The message type: bits 0 to 15.
    pub open spec fn spec_ty(&self) -> int {
        bit_range(self.0 as int, 0, 16)
    }

    /// The number of X descriptors: bits 16 to 19.
    pub open spec fn spec_num_x(&self) -> int {
        bit_range(self.0 as int, 16, 20)
    }

    /// The number of A descriptors: bits 20 to 23.
    pub open spec fn spec_num_a(&self) -> int {
        bit_range(self.0 as int, 20, 24)
    }

    /// The number of B descriptors: bits 24 to 27.
    pub open spec fn spec_num_b(&self) -> int {
        bit_range(self.0 as int, 24, 28)
    }

    /// The number of W descriptors: bits 28 to 31.
    pub open spec fn spec_num_w(&self) -> int {
        bit_range(self.0 as int, 28, 32)
    }

    /// The size of the raw data in 32-bit words: bits 32 to 41.
    pub open spec fn spec_raw_section_size(&self) -> int {
        bit_range(self.0 as int, 32, 42)
    }

    /// The C descriptor flags: bits 42 to 45.
    pub open spec fn spec_c_flags(&self) -> int {
        bit_range(self.0 as int, 42, 46)
    }

    /// Whether a handle descriptor follows: bit 63.
    pub open spec fn spec_has_handle_descriptor(&self) -> bool {
        bit_range(self.0 as int, 63, 64) == 1
    }

    /// The message type.
    pub fn ty(&self) -> (r: u16)
        ensures
            r == self.spec_ty(),
    {
        proof {
            lemma_bit_range_bound(self.0 as int, 0, 16);
            lemma2_to64();
        }
        get_bits_u64(self.0, 0, 16) as u16
    }

    /// The number of X descriptors.
    pub fn num_x_descriptors(&self) -> (r: u8)
        ensures
            r == self.spec_num_x(),
            r < 16,
    {
        proof {
            lemma_bit_range_bound(self.0 as int, 16, 20);
            lemma2_to64();
        }
        get_bits_u64(self.0, 16, 20) as u8
    }

    /// The number of A descriptors.
    pub fn num_a_descriptors(&self) -> (r: u8)
        ensures
            r == self.spec_num_a(),
            r < 16,
    {
        proof {
            lemma_bit_range_bound(self.0 as int, 20, 24);
            lemma2_to64();
        }
        get_bits_u64(self.0, 20, 24) as u8
    }

    /// The number of B descriptors.
    pub fn num_b_descriptors(&self) -> (r: u8)
        ensures
            r == self.spec_num_b(),
            r < 16,
    {
        proof {
            lemma_bit_range_bound(self.0 as int, 24, 28);
            lemma2_to64();
        }
        get_bits_u64(self.0, 24, 28) as u8
    }

    /// The number of W descriptors.
    pub fn num_w_descriptors(&self) -> (r: u8)
        ensures
            r == self.spec_num_w(),
            r < 16,
    {
        proof {
            lemma_bit_range_bound(self.0 as int, 28, 32);
            lemma2_to64();
        }
        get_bits_u64(self.0, 28, 32) as u8
    }

    /// The size of the raw data in 32-bit words.
    pub fn raw_section_size(&self) -> (r: u16)
        ensures
            r == self.spec_raw_section_size(),
            r < 1024,
    {
        proof {
            lemma_bit_range_bound(self.0 as int, 32, 42);
            lemma2_to64();
        }
        get_bits_u64(self.0, 32, 42) as u16
    }

    /// The C descriptor flags.
    pub fn c_descriptor_flags(&self) -> (r: u8)
        ensures
            r == self.spec_c_flags(),
            r < 16,
    {
        proof {
            lemma_bit_range_bound(self.0 as int, 42, 46);
            lemma2_to64();
        }
        get_bits_u64(self.0, 42, 46) as u8
    }

    /// Whether a handle descriptor follows the header.
    pub fn enable_handle_descriptor(&self) -> (r: bool)
        ensures
            r == self.spec_has_handle_descriptor(),
    {
        get_bits_u64(self.0, 63, 64) == 1
    }
}

impl HandleDescriptorHeader {
    /// Whether the message has a slot for the process id of the sender:
    /// bit 0.
    pub open spec fn spec_send_pid(&self) -> bool {
        bit_range(self.0 as int, 0, 1) == 1
    }

    /// The number of handles to copy: bits 1 to 4.
    pub open spec fn spec_num_copy(&self) -> int {
        bit_range(self.0 as int, 1, 5)
    }

    /// The number of handles to move: bits 5 to 8.
    pub open spec fn spec_num_move(&self) -> int {
        bit_range(self.0 as int, 5, 9)
    }

    /// Whether the message has a slot for the process id of the sender.
    pub fn send_pid(&self) -> (r: bool)
        ensures
            r == self.spec_send_pid(),
    {
        get_bits_u64(self.0 as u64, 0, 1) == 1
    }

    /// The number of handles to copy.
    pub fn num_copy_handles(&self) -> (r: u8)
        ensures
            r == self.spec_num_copy(),
            r < 16,
    {
        proof {
            lemma_bit_range_bound(self.0 as int, 1, 5);
            lemma2_to64();
        }
        get_bits_u64(self.0 as u64, 1, 5) as u8
    }

    /// The number of handles to move.
    pub fn num_move_handles(&self) -> (r: u8)
        ensures
            r == self.spec_num_move(),
            r < 16,
    {
        proof {
            lemma_bit_range_bound(self.0 as int, 5, 9);
            lemma2_to64();
        }
        get_bits_u64(self.0 as u64, 5, 9) as u8
    }
}

/// A buffer of the receiver that takes the data of X descriptors.
#[derive(Clone, Copy, Debug, PartialEq, Eq, Structural)]
pub struct CBuffer {
    /// The address of the buffer.
    pub addr: u64,
    /// The size of the buffer in bytes.
    pub size: u64,
}

/// What to do with the X descriptors of a message, by the C descriptor
/// flags of the receiver.
#[derive(Debug)]
pub enum CBufBehavior {
    /// There are no C buffers: a message with X descriptors is refused.
    Disabled,
    /// The data of the X descriptors goes after the raw data.
    Inlined,
    /// The data of the X descriptors goes one after the other into one C
    /// buffer.
    Single(CBuffer),
    /// The data of each X descriptor goes into the C buffer its counter
    /// names.
    Numbered(Vec<CBuffer>),
}

/// The offset of the first X descriptor: past the header and, if it is
/// there, the handle descriptor with its process id slot and handles.
pub open spec fn descriptors_offset(bytes: Seq<u8>) -> int {
    let hdr = MsgPackedHdr(le_u64(bytes, 0) as u64);
    if hdr.spec_has_handle_descriptor() {
        let descriptor = HandleDescriptorHeader(le_u32(bytes, 8) as u32);
        12 + (if descriptor.spec_send_pid() {
            8int
        } else {
            0int
        }) + 4 * (descriptor.spec_num_copy() + descriptor.spec_num_move())
    } else {
        8
    }
}

/// The offset of the raw data: past the X and the A, B and W descriptors.
pub open spec fn raw_data_offset(bytes: Seq<u8>) -> int {
    let hdr = MsgPackedHdr(le_u64(bytes, 0) as u64);
    descriptors_offset(bytes) + 8 * hdr.spec_num_x() + 12 * (hdr.spec_num_a() + hdr.spec_num_b()
        + hdr.spec_num_w())
}

/// The offset of the first C descriptor: past the raw data.
pub open spec fn c_descriptors_offset(bytes: Seq<u8>) -> int {
    let hdr = MsgPackedHdr(le_u64(bytes, 0) as u64);
    raw_data_offset(bytes) + 4 * hdr.spec_raw_section_size()
}

/// The C buffer a C descriptor at `off` names: a 48-bit address in the
/// first word and the low half of the second, and a 16-bit size in the high
/// half of the second.
pub open spec fn c_buffer_at(bytes: Seq<u8>, off: int) -> CBuffer {
    CBuffer {
        addr: with_bit_range(le_u32(bytes, off), 32, 48, bit_range(le_u32(bytes, off + 4), 0, 16)) as u64,
        size: bit_range(le_u32(bytes, off + 4), 16, 32) as u64,
    }
}

/// How many bytes a message takes up to the end of its C descriptors, or up
/// to the first word whose place depends on a part that does not fit into
/// `len` bytes.
pub open spec fn c_descriptors_end(bytes: Seq<u8>) -> int {
    let hdr = MsgPackedHdr(le_u64(bytes, 0) as u64);
    if bytes.len() < 8 {
        8
    } else if hdr.spec_c_flags() < 2 {
        8
    } else if hdr.spec_has_handle_descriptor() && bytes.len() < 12 {
        12
    } else if hdr.spec_c_flags() == 2 {
        c_descriptors_offset(bytes) + 8
    } else {
        c_descriptors_offset(bytes) + 8 * (hdr.spec_c_flags() - 2)
    }
}

/// What the C descriptors of a message ask for.
pub open spec fn c_behavior(bytes: Seq<u8>) -> Result<(int, Seq<CBuffer>), KernelError> {
    let hdr = MsgPackedHdr(le_u64(bytes, 0) as u64);
    let off = c_descriptors_offset(bytes);
    if bytes.len() < c_descriptors_end(bytes) {
        Err(KernelError::InvalidSize { size: bytes.len() as usize })
    } else if hdr.spec_c_flags() < 2 {
        Ok((hdr.spec_c_flags(), Seq::<CBuffer>::empty()))
    } else if hdr.spec_c_flags() == 2 {
        Ok((2, seq![c_buffer_at(bytes, off)]))
    } else {
        Ok(
            (
                hdr.spec_c_flags(),
                Seq::new((hdr.spec_c_flags() - 2) as nat, |i: int| c_buffer_at(bytes, off + 8 * i)),
            ),
        )
    }
}

impl CBufBehavior {
    /// The behaviour as plain values: the C descriptor flags it stands for,
    /// with 3 for any number of numbered buffers, and the buffers.
    pub open spec fn view(&self) -> (int, Seq<CBuffer>) {
        match *self {
            CBufBehavior::Disabled => (0, Seq::<CBuffer>::empty()),
            CBufBehavior::Inlined => (1, Seq::<CBuffer>::empty()),
            CBufBehavior::Single(buffer) => (2, seq![buffer]),
            CBufBehavior::Numbered(buffers) => (3, buffers@),
        }
    }
}

/// Reads a C descriptor.
fn read_c_buffer(buf: &[u8], off: usize) -> (r: CBuffer)
    requires
        off + 8 <= buf@.len(),
    ensures
        r == c_buffer_at(buf@, off as int),
{
    let len: usize = buf.len();
    assert(off + 8 <= len);
    let word1: u32 = read_u32_le(buf, off);
    let word2: u32 = read_u32_le(buf, off + 4);
    proof {
        lemma2_to64();
        lemma_bit_range_bound(word2 as int, 0, 16);
        lemma_bit_range_bound(word2 as int, 16, 32);
    }
    let high: u64 = get_bits_u64(word2 as u64, 0, 16);
    let addr: u64 = set_bits_u64(word1 as u64, 32, 48, high);
    let size: u64 = get_bits_u64(word2 as u64, 16, 32);
    CBuffer { addr, size }
}

/// Finds the C descriptors of a message: what the receiver offers for the
/// data of X descriptors.
///
/// With flags 0 there is nothing, with 1 the data is to be inlined, with 2
/// one C descriptor follows the raw data, with more there are two fewer
/// descriptors than the flags say. Fails with `InvalidSize` when the buffer
/// ends before the part of the message that is looked at.
pub fn find_c_descriptors(buf: &[u8]) -> (r: Result<CBufBehavior, KernelError>)
    ensures
        r is Ok <==> c_behavior(buf@) is Ok,
        r is Err ==> r->Err_0 == c_behavior(buf@)->Err_0,
        r is Ok ==> {
            let found = r->Ok_0@;
            let asked = c_behavior(buf@)->Ok_0;
            &&& found.1 == asked.1
            &&& found.0 == (if asked.0 >= 3 {
                3
            } else {
                asked.0
            })
        },
{
    let len: usize = buf.len();
    if len < 8 {
        return Err(KernelError::InvalidSize { size: len });
    }
    let mut curoff: usize = 0;
    let hdr = MsgPackedHdr(read_u64_le(buf, curoff));
    curoff = curoff + 8;
    let cflag: u8 = hdr.c_descriptor_flags();
    if cflag == 0 {
        return Ok(CBufBehavior::Disabled);
    }
    if cflag == 1 {
        return Ok(CBufBehavior::Inlined);
    }
    // go grab the C descriptors
    if hdr.enable_handle_descriptor() {
        if len < 12 {
            return Err(KernelError::InvalidSize { size: len });
        }
        let descriptor = HandleDescriptorHeader(read_u32_le(buf, curoff));
        curoff = curoff + 4;
        if descriptor.send_pid() {
            curoff = curoff + 8;
        }
        curoff = curoff + 4 * ((descriptor.num_copy_handles() as usize)
            + (descriptor.num_move_handles() as usize));
    }
    curoff = curoff + 8 * (hdr.num_x_descriptors() as usize);
    curoff = curoff + 12 * ((hdr.num_a_descriptors() as usize) + (hdr.num_b_descriptors() as usize)
        + (hdr.num_w_descriptors() as usize));
    curoff = curoff + 4 * (hdr.raw_section_size() as usize);
    assert(curoff == c_descriptors_offset(buf@));
    if cflag == 2 {
        if len < curoff + 8 {
            return Err(KernelError::InvalidSize { size: len });
        }
        let buffer = read_c_buffer(buf, curoff);
        proof {
            assert(seq![buffer] =~= c_behavior(buf@)->Ok_0.1);
        }
        Ok(CBufBehavior::Single(buffer))
    } else {
        let count: usize = (cflag - 2) as usize;
        if len < curoff + 8 * count {
            return Err(KernelError::InvalidSize { size: len });
        }
        let mut bufs: Vec<CBuffer> = Vec::new();
        let mut i: usize = 0;
        while i < count
            invariant
                i <= count,
                count <= 13,
                curoff + 8 * count <= len,
                len == buf@.len(),
                bufs@.len() == i,
                forall|k: int| 0 <= k < i ==> bufs@[k] == c_buffer_at(buf@, curoff + 8 * k),
            decreases count - i,
        {
            let buffer = read_c_buffer(buf, curoff + 8 * i);
            bufs.push(buffer);
            i = i + 1;
        }
        proof {
            assert(bufs@ =~= c_behavior(buf@)->Ok_0.1);
        }
        Ok(CBufBehavior::Numbered(bufs))
    }
}

} // verus!
