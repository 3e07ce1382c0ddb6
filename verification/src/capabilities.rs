//! The capabilities of a process, read from the descriptors its program
//! declares.
//!
//! Each descriptor is a 32-bit word. Its low bits are a run of ones closed by
//! a zero; the length of the run tells what the descriptor grants, the bits
//! above the closing zero hold the details.

use crate::bytes::le_u32;
use crate::bytes::read_u32_le;
use crate::error::KernelError;
use vstd::prelude::*;

verus! {

/// The number of banks of system calls.
pub const SYSCALL_BANKS: usize = 6;

/// The number of system calls one bank holds.
pub const SYSCALLS_PER_BANK: usize = 24;

/// What one descriptor grants.
#[derive(Clone, Copy, Debug, PartialEq, Eq, Structural)]
pub enum Capability {
    /// The priorities the process may take and the CPUs it may run on.
    KernelFlags { lowest_prio: u32, highest_prio: u32, lowest_cpuid: u32, highest_cpuid: u32 },
    /// The system calls allowed in one bank, one bit for each.
    SyscallMask { bank: u32, mask: u32 },
    /// A physical page mapped into the process at start.
    MapNormalPage { page: u32 },
    /// An I/O port the process may use.
    IoPort { port: u32 },
    /// Two interrupt lines the process may create events for; `0x3FF`
    /// stands for no line.
    IrqPair { irq1: u32, irq2: u32 },
    /// The type of the application.
    ApplicationType { app_type: u32 },
    /// The lowest kernel version the process expects.
    KernelReleaseVersion { version: u32 },
    /// The number of handles the process may hold at once.
    HandleTableSize { size: u32 },
    /// Whether the process can be debugged and can debug others.
    DebugFlags { can_be_debugged: bool, can_debug_others: bool },
}

/// What a descriptor grants, by the run of ones in its low bits: 3 ones for
/// kernel flags, 4 for a system call mask, 7 for a page mapping, 10 for an
/// I/O port, 11 for an interrupt pair, 13 for the application type, 14 for
/// the kernel version, 15 for the handle table size, 16 for the debug flags.
/// Any other run length names nothing.
pub open spec fn decoded(desc: u32) -> Option<Capability> {
    if desc & 0xF == 0x7 {
        Some(
            Capability::KernelFlags {
                lowest_prio: (desc >> 4) & 0x3F,
                highest_prio: (desc >> 10) & 0x3F,
                lowest_cpuid: (desc >> 16) & 0xFF,
                highest_cpuid: desc >> 24,
            },
        )
    } else if desc & 0x1F == 0xF {
        Some(Capability::SyscallMask { bank: desc >> 29, mask: (desc >> 5) & 0xFF_FFFF })
    } else if desc & 0xFF == 0x7F {
        Some(Capability::MapNormalPage { page: desc >> 8 })
    } else if desc & 0x7FF == 0x3FF {
        Some(Capability::IoPort { port: (desc >> 11) & 0xFFFF })
    } else if desc & 0xFFF == 0x7FF {
        Some(Capability::IrqPair { irq1: (desc >> 12) & 0x3FF, irq2: desc >> 22 })
    } else if desc & 0x3FFF == 0x1FFF {
        Some(Capability::ApplicationType { app_type: (desc >> 14) & 0x7 })
    } else if desc & 0x7FFF == 0x3FFF {
        Some(Capability::KernelReleaseVersion { version: desc >> 15 })
    } else if desc & 0xFFFF == 0x7FFF {
        Some(Capability::HandleTableSize { size: (desc >> 16) & 0x3FF })
    } else if desc & 0x1_FFFF == 0xFFFF {
        Some(
            Capability::DebugFlags {
                can_be_debugged: (desc >> 17) & 1 == 1,
                can_debug_others: (desc >> 18) & 1 == 1,
            },
        )
    } else {
        None
    }
}

/// Reads one descriptor. Fails with `InvalidKernelCaps` when the run of ones
/// in its low bits names no kind of capability.
pub fn decode(desc: u32) -> (r: Result<Capability, KernelError>)
    ensures
        decoded(desc) is Some ==> r == Ok::<Capability, KernelError>(decoded(desc)->Some_0),
        decoded(desc) is None ==> r == Err::<Capability, KernelError>(
            KernelError::InvalidKernelCaps { kcap: desc },
        ),
{
    if desc & 0xF == 0x7 {
        Ok(
            Capability::KernelFlags {
                lowest_prio: (desc >> 4) & 0x3F,
                highest_prio: (desc >> 10) & 0x3F,
                lowest_cpuid: (desc >> 16) & 0xFF,
                highest_cpuid: desc >> 24,
            },
        )
    } else if desc & 0x1F == 0xF {
        Ok(Capability::SyscallMask { bank: desc >> 29, mask: (desc >> 5) & 0xFF_FFFF })
    } else if desc & 0xFF == 0x7F {
        Ok(Capability::MapNormalPage { page: desc >> 8 })
    } else if desc & 0x7FF == 0x3FF {
        Ok(Capability::IoPort { port: (desc >> 11) & 0xFFFF })
    } else if desc & 0xFFF == 0x7FF {
        Ok(Capability::IrqPair { irq1: (desc >> 12) & 0x3FF, irq2: desc >> 22 })
    } else if desc & 0x3FFF == 0x1FFF {
        Ok(Capability::ApplicationType { app_type: (desc >> 14) & 0x7 })
    } else if desc & 0x7FFF == 0x3FFF {
        Ok(Capability::KernelReleaseVersion { version: desc >> 15 })
    } else if desc & 0xFFFF == 0x7FFF {
        Ok(Capability::HandleTableSize { size: (desc >> 16) & 0x3FF })
    } else if desc & 0x1_FFFF == 0xFFFF {
        Ok(
            Capability::DebugFlags {
                can_be_debugged: (desc >> 17) & 1 == 1,
                can_debug_others: (desc >> 18) & 1 == 1,
            },
        )
    } else {
        Err(KernelError::InvalidKernelCaps { kcap: desc })
    }
}

/// What a process may do: the system calls it may make, bank by bank, and
/// everything else it declared, in the order of declaration.
#[derive(Debug)]
pub struct ProcessCapabilities {
    syscall_mask: Vec<u32>,
    declared: Vec<Capability>,
}

/// The books after one more capability: a system call mask is OR'd into its
/// bank, anything else is appended to what was declared.
pub open spec fn granted(masks: Seq<u32>, declared: Seq<Capability>, cap: Capability) -> (Seq<u32>, Seq<
    Capability,
>) {
    match cap {
        Capability::SyscallMask { bank, mask } => (
            masks.update(bank as int, masks[bank as int] | mask),
            declared,
        ),
        other => (masks, declared.push(other)),
    }
}

/// Whether a descriptor can be applied: it names a capability, and a system
/// call mask names one of the banks.
pub open spec fn applicable(desc: u32) -> bool {
    match decoded(desc) {
        Some(Capability::SyscallMask { bank, mask }) => bank < SYSCALL_BANKS,
        Some(_) => true,
        None => false,
    }
}

/// The books after the descriptors were applied in order, starting with no
/// system call allowed and nothing declared.
pub open spec fn parsed(descs: Seq<u32>) -> (Seq<u32>, Seq<Capability>)
    decreases descs.len(),
{
    if descs.len() == 0 {
        (seq![0u32, 0u32, 0u32, 0u32, 0u32, 0u32], Seq::<Capability>::empty())
    } else {
        let before = parsed(descs.drop_last());
        granted(before.0, before.1, decoded(descs.last())->Some_0)
    }
}

/// The descriptors stored as little-endian words in a byte blob.
pub open spec fn descriptors(blob: Seq<u8>) -> Seq<u32> {
    Seq::new((blob.len() / 4) as nat, |i: int| le_u32(blob, 4 * i) as u32)
}

/// The position of the first descriptor that cannot be applied.
pub open spec fn first_bad_descriptor(descs: Seq<u32>) -> int {
    choose|i: int| is_first_bad_descriptor(descs, i)
}

/// Whether descriptor `i` is the first that cannot be applied.
pub open spec fn is_first_bad_descriptor(descs: Seq<u32>, i: int) -> bool {
    &&& 0 <= i < descs.len()
    &&& !applicable(descs[i])
    &&& forall|j: int| 0 <= j < i ==> applicable(#[trigger] descs[j])
}

/// What reading the capabilities from a blob comes to: the system call
/// masks and the other capabilities, or the error. A blob that is not made
/// of whole words is an `InvalidSize`; a descriptor that cannot be applied
/// is an `InvalidKernelCaps` that names the first such descriptor.
pub open spec fn parse_outcome(blob: Seq<u8>) -> Result<(Seq<u32>, Seq<Capability>), KernelError> {
    let descs = descriptors(blob);
    if blob.len() % 4 != 0 {
        Err(KernelError::InvalidSize { size: blob.len() as usize })
    } else if forall|i: int| 0 <= i < descs.len() ==> applicable(#[trigger] descs[i]) {
        Ok(parsed(descs))
    } else {
        Err(KernelError::InvalidKernelCaps { kcap: descs[first_bad_descriptor(descs)] })
    }
}

/// The first descriptor that cannot be applied is the one the outcome
/// names.
proof fn lemma_first_bad_descriptor(descs: Seq<u32>, i: int)
    requires
        is_first_bad_descriptor(descs, i),
    ensures
        first_bad_descriptor(descs) == i,
{
    let c = first_bad_descriptor(descs);
    assert(is_first_bad_descriptor(descs, c));
    if c < i {
        assert(applicable(descs[c]));
    } else if i < c {
        assert(applicable(descs[i]));
    }
}

impl ProcessCapabilities {
    /// The system calls allowed, one 24-bit mask for each bank.
    pub closed spec fn masks(&self) -> Seq<u32> {
        self.syscall_mask@
    }

    /// The capabilities declared besides system calls, in order.
    pub closed spec fn declared(&self) -> Seq<Capability> {
        self.declared@
    }

    /// There is a mask for each bank.
    pub open spec fn wf(&self) -> bool {
        self.masks().len() == SYSCALL_BANKS
    }

    /// Whether the system call with the given number is allowed.
    pub open spec fn allows(&self, nr: int) -> bool {
        &&& 0 <= nr < SYSCALL_BANKS * SYSCALLS_PER_BANK
        &&& (self.masks()[nr / 24] >> ((nr % 24) as u32)) & 1 == 1
    }

    /// The capabilities of a process that declares none: every system call
    /// is allowed, nothing else is granted.
    pub fn default_capabilities() -> (r: ProcessCapabilities)
        ensures
            r.wf(),
            r.masks() == seq![0xFF_FFFFu32, 0xFF_FFFFu32, 0xFF_FFFFu32, 0xFF_FFFFu32, 0xFF_FFFFu32, 0xFF_FFFFu32],
            r.declared() == Seq::<Capability>::empty(),
    {
        let mut syscall_mask: Vec<u32> = Vec::new();
        syscall_mask.push(0xFF_FFFF);
        syscall_mask.push(0xFF_FFFF);
        syscall_mask.push(0xFF_FFFF);
        syscall_mask.push(0xFF_FFFF);
        syscall_mask.push(0xFF_FFFF);
        syscall_mask.push(0xFF_FFFF);
        let r = ProcessCapabilities { syscall_mask, declared: Vec::new() };
        assert(r.masks() =~= seq![0xFF_FFFFu32, 0xFF_FFFFu32, 0xFF_FFFFu32, 0xFF_FFFFu32, 0xFF_FFFFu32, 0xFF_FFFFu32]);
        r
    }

    /// Reads the capabilities a program declares from the blob of its
    /// descriptors, each a little-endian 32-bit word.
    ///
    /// Fails with `InvalidSize` when the blob is not made of whole words,
    /// and with `InvalidKernelCaps` naming the first descriptor that names
    /// no capability or a bank of system calls that does not exist.
    pub fn parse_kcaps(kacs: &[u8]) -> (r: Result<ProcessCapabilities, KernelError>)
        ensures
            r is Ok <==> parse_outcome(kacs@) is Ok,
            r is Err ==> r->Err_0 == parse_outcome(kacs@)->Err_0,
            r is Ok ==> {
                &&& r->Ok_0.wf()
                &&& r->Ok_0.masks() == parse_outcome(kacs@)->Ok_0.0
                &&& r->Ok_0.declared() == parse_outcome(kacs@)->Ok_0.1
            },
    {
        let len: usize = kacs.len();
        if len % 4 != 0 {
            return Err(KernelError::InvalidSize { size: len });
        }
        let count: usize = len / 4;
        let mut syscall_mask: Vec<u32> = Vec::new();
        syscall_mask.push(0);
        syscall_mask.push(0);
        syscall_mask.push(0);
        syscall_mask.push(0);
        syscall_mask.push(0);
        syscall_mask.push(0);
        let mut declared: Vec<Capability> = Vec::new();
        let ghost descs = descriptors(kacs@);
        assert(syscall_mask@ =~= parsed(descs.take(0)).0);
        let mut i: usize = 0;
        while i < count
            invariant
                i <= count,
                count == kacs@.len() / 4,
                kacs@.len() % 4 == 0,
                kacs@.len() == len,
                descs == descriptors(kacs@),
                descs.len() == count,
                syscall_mask@.len() == SYSCALL_BANKS,
                syscall_mask@ == parsed(descs.take(i as int)).0,
                declared@ == parsed(descs.take(i as int)).1,
                forall|j: int| 0 <= j < i ==> applicable(#[trigger] descs[j]),
            decreases count - i,
        {
            let kac: u32 = read_u32_le(kacs, 4 * i);
            proof {
                assert(kac == descs[i as int]);
                assert(descs.take(i + 1).drop_last() =~= descs.take(i as int));
                assert(descs.take(i + 1).last() == descs[i as int]);
            }
            match decode(kac) {
                Ok(Capability::SyscallMask { bank, mask }) => {
                    if bank >= SYSCALL_BANKS as u32 {
                        proof {
                            lemma_first_bad_descriptor(descs, i as int);
                        }
                        return Err(KernelError::InvalidKernelCaps { kcap: kac });
                    }
                    let merged: u32 = syscall_mask[bank as usize] | mask;
                    syscall_mask.set(bank as usize, merged);
                },
                Ok(other) => {
                    declared.push(other);
                },
                Err(err) => {
                    proof {
                        lemma_first_bad_descriptor(descs, i as int);
                    }
                    return Err(err);
                },
            }
            i = i + 1;
        }
        proof {
            assert(descs.take(count as int) =~= descs);
        }
        Ok(ProcessCapabilities { syscall_mask, declared })
    }

    /// Whether the process may make the system call with the given number.
    pub fn is_syscall_allowed(&self, nr: usize) -> (r: bool)
        requires
            self.wf(),
        ensures
            r == self.allows(nr as int),
    {
        if nr >= SYSCALL_BANKS * SYSCALLS_PER_BANK {
            return false;
        }
        let bank: u32 = self.syscall_mask[nr / SYSCALLS_PER_BANK];
        let bit: u32 = (nr % SYSCALLS_PER_BANK) as u32;
        (bank >> bit) & 1 == 1
    }

    /// How many capabilities were declared besides system calls.
    pub fn declared_count(&self) -> (n: usize)
        ensures
            n == self.declared().len(),
    {
        self.declared.len()
    }

    /// A capability that was declared, by the order of declaration.
    pub fn declared_at(&self, i: usize) -> (c: Capability)
        requires
            i < self.declared().len(),
        ensures
            c == self.declared()[i as int],
    {
        self.declared[i]
    }
}

} // verus!
