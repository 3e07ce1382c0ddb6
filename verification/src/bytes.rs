//! Little-endian words in byte buffers.

use vstd::prelude::*;

verus! {

/// The 32-bit number stored least significant byte first at `off`.
pub open spec fn le_u32(bytes: Seq<u8>, off: int) -> int {
    bytes[off] as int + 0x100 * (bytes[off + 1] as int) + 0x1_0000 * (bytes[off + 2] as int)
        + 0x100_0000 * (bytes[off + 3] as int)
}

/// The 64-bit number stored least significant byte first at `off`.
pub open spec fn le_u64(bytes: Seq<u8>, off: int) -> int {
    le_u32(bytes, off) + 0x1_0000_0000 * le_u32(bytes, off + 4)
}

/// The four bytes that store `v` least significant byte first.
#[verifier::opaque]
pub open spec fn u32_le_bytes(v: int) -> Seq<u8> {
    seq![
        (v % 0x100) as u8,
        (v / 0x100 % 0x100) as u8,
        (v / 0x1_0000 % 0x100) as u8,
        (v / 0x100_0000 % 0x100) as u8,
    ]
}

/// The eight bytes that store `v` least significant byte first.
#[verifier::opaque]
pub open spec fn u64_le_bytes(v: int) -> Seq<u8> {
    u32_le_bytes(v % 0x1_0000_0000) + u32_le_bytes(v / 0x1_0000_0000)
}

/// `bytes` with the bytes from `off` on replaced by `patch`.
pub open spec fn patched(bytes: Seq<u8>, off: int, patch: Seq<u8>) -> Seq<u8> {
    Seq::new(
        bytes.len(),
        |i: int|
            if off <= i < off + patch.len() {
                patch[i - off]
            } else {
                bytes[i]
            },
    )
}

/// Reading back a stored 32-bit number gives the number.
pub proof fn lemma_le_u32_of_bytes(v: int)
    requires
        0 <= v < 0x1_0000_0000,
    ensures
        le_u32(u32_le_bytes(v), 0) == v,
        u32_le_bytes(v).len() == 4,
{
    reveal(u32_le_bytes);
}

/// A word read from a patched buffer is the word that was patched in, when
/// it is read from where the patch went.
pub proof fn lemma_le_u32_patched(bytes: Seq<u8>, off: int, v: int)
    requires
        0 <= off,
        off + 4 <= bytes.len(),
        0 <= v < 0x1_0000_0000,
    ensures
        le_u32(patched(bytes, off, u32_le_bytes(v)), off) == v,
{
    reveal(u32_le_bytes);
}

/// Reads a 32-bit little-endian number at `off`.
pub fn read_u32_le(buf: &[u8], off: usize) -> (v: u32)
    requires
        off + 4 <= buf@.len(),
    ensures
        v == le_u32(buf@, off as int),
{
    let n: usize = buf.len();
    assert(off + 4 <= n);
    let b0: u32 = buf[off] as u32;
    let b1: u32 = buf[off + 1] as u32;
    let b2: u32 = buf[off + 2] as u32;
    let b3: u32 = buf[off + 3] as u32;
    b0 + 0x100 * b1 + 0x1_0000 * b2 + 0x100_0000 * b3
}

/// Reads a 64-bit little-endian number at `off`.
pub fn read_u64_le(buf: &[u8], off: usize) -> (v: u64)
    requires
        off + 8 <= buf@.len(),
    ensures
        v == le_u64(buf@, off as int),
{
    let n: usize = buf.len();
    assert(off + 8 <= n);
    let lo: u64 = read_u32_le(buf, off) as u64;
    let hi: u64 = read_u32_le(buf, off + 4) as u64;
    lo + 0x1_0000_0000 * hi
}

/// Stores a 32-bit number least significant byte first at `off`.
pub fn write_u32_le(buf: &mut Vec<u8>, off: usize, v: u32)
    requires
        off + 4 <= old(buf)@.len(),
    ensures
        final(buf)@ == patched(old(buf)@, off as int, u32_le_bytes(v as int)),
        final(buf)@.len() == old(buf)@.len(),
{
    let n: usize = buf.len();
    assert(off + 4 <= n);
    buf.set(off, (v % 0x100) as u8);
    buf.set(off + 1, (v / 0x100 % 0x100) as u8);
    buf.set(off + 2, (v / 0x1_0000 % 0x100) as u8);
    buf.set(off + 3, (v / 0x100_0000 % 0x100) as u8);
    proof {
        reveal(u32_le_bytes);
    }
    assert(buf@ =~= patched(old(buf)@, off as int, u32_le_bytes(v as int)));
}

/// Stores a 64-bit number least significant byte first at `off`.
pub fn write_u64_le(buf: &mut Vec<u8>, off: usize, v: u64)
    requires
        off + 8 <= old(buf)@.len(),
    ensures
        final(buf)@ == patched(old(buf)@, off as int, u64_le_bytes(v as int)),
        final(buf)@.len() == old(buf)@.len(),
{
    let n: usize = buf.len();
    assert(off + 8 <= n);
    write_u32_le(buf, off, (v % 0x1_0000_0000) as u32);
    write_u32_le(buf, off + 4, (v / 0x1_0000_0000) as u32);
    proof {
        reveal(u64_le_bytes);
        lemma_le_u32_of_bytes((v % 0x1_0000_0000) as int);
        lemma_le_u32_of_bytes((v / 0x1_0000_0000) as int);
    }
    assert(buf@ =~= patched(old(buf)@, off as int, u64_le_bytes(v as int)));
}

/// Copies `len` bytes at `off` from one buffer to the same place in another.
pub fn copy_bytes(from: &[u8], to: &mut Vec<u8>, off: usize, len: usize)
    requires
        off + len <= from@.len(),
        off + len <= old(to)@.len(),
    ensures
        final(to)@ == patched(old(to)@, off as int, from@.subrange(off as int, off + len)),
        final(to)@.len() == old(to)@.len(),
{
    let n: usize = to.len();
    assert(off + len <= n);
    let mut i: usize = 0;
    while i < len
        invariant
            i <= len,
            off + len <= n,
            off + len <= from@.len(),
            to@.len() == old(to)@.len(),
            off + len <= to@.len(),
            forall|k: int|
                0 <= k < to@.len() ==> to@[k] == (if off <= k < off + i {
                    from@[k]
                } else {
                    old(to)@[k]
                }),
        decreases len - i,
    {
        to.set(off + i, from[off + i]);
        i = i + 1;
    }
    assert(to@ =~= patched(old(to)@, off as int, from@.subrange(off as int, off + len)));
}

} // verus!
