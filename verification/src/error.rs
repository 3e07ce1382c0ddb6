//! Errors raised inside the kernel and the codes userspace gets to see.

use vstd::prelude::*;
use vstd::std_specs::convert::FromSpecImpl;

verus! {

/// The kind of memory a mapping holds.
#[derive(Clone, Copy, Debug, PartialEq, Eq, Structural)]
pub enum MemoryType {
    /// Nothing is mapped there.
    Unmapped,
    /// Memory-mapped device registers.
    Io,
    /// Plain memory without a more specific role.
    Normal,
    /// Read-only program image.
    CodeStatic,
    /// Writable program image.
    CodeMutable,
    /// The process heap.
    Heap,
    /// Memory shared through a shared-memory handle.
    SharedMemory,
    /// A thread's stack.
    Stack,
    /// A thread-local storage block.
    ThreadLocal,
    /// Memory brought in by an IPC buffer descriptor.
    Ipc,
}

/// An error raised inside the kernel, with the values that explain it.
#[derive(Clone, Copy, Debug, PartialEq, Eq, Structural)]
pub enum KernelError {
    /// A feature stub was reached.
    NotImplemented,
    /// No physical frames are left to satisfy the request.
    PhysicalMemoryExhaustion,
    /// No virtual address range is left to satisfy the request.
    VirtualMemoryExhaustion,
    /// The address is not acceptable for the operation.
    InvalidAddress { address: usize },
    /// The size is zero or not aligned as the operation needs.
    InvalidSize { size: usize },
    /// The target process was killed before the operation finished.
    ProcessKilled,
    /// The object is in the wrong lifecycle state for the operation.
    InvalidState,
    /// The options passed exclude each other.
    InvalidCombination,
    /// A bounded value would exceed its maximum.
    ExceedingMaximum { value: u64, maximum: u64 },
    /// A capability descriptor could not be decoded.
    InvalidKernelCaps { kcap: u32 },
    /// An IPC operation failed.
    IpcError,
    /// The frames given cannot back a mapping of that type.
    WrongMappingFramesForTy { ty: MemoryType },
    /// The memory at the address has the wrong type for the operation.
    InvalidMemState { address: usize, ty: MemoryType },
    /// The value is reserved for future use.
    ReservedValue,
}

/// The error codes reported across the system-call boundary.
#[derive(Clone, Copy, Debug, PartialEq, Eq, Structural)]
pub enum UserspaceError {
    /// The capability descriptors of the process are malformed.
    InvalidKernelCaps,
    /// The feature is not implemented.
    NotImplemented,
    /// The size is zero or misaligned.
    InvalidSize,
    /// The address is out of range or not mapped.
    InvalidAddress,
    /// Physical or virtual memory is exhausted.
    MemoryFull,
    /// The memory has the wrong state for the operation.
    InvalidMemState,
    /// The handle names nothing, or nothing of the right kind.
    InvalidHandle,
    /// A bounded value exceeded its maximum.
    ExceedingMaximum,
    /// The options passed exclude each other.
    InvalidCombination,
    /// The object is in the wrong state for the operation.
    InvalidState,
    /// The value is reserved.
    ReservedValue,
    /// The other side of a port or session has gone away.
    PortRemoteDead,
}

/// The userspace code under which a kernel error is reported.
pub open spec fn userspace_code(err: KernelError) -> UserspaceError {
    match err {
        KernelError::PhysicalMemoryExhaustion => UserspaceError::MemoryFull,
        KernelError::VirtualMemoryExhaustion => UserspaceError::MemoryFull,
        KernelError::InvalidState => UserspaceError::InvalidState,
        KernelError::InvalidAddress { .. } => UserspaceError::InvalidAddress,
        KernelError::InvalidSize { .. } => UserspaceError::InvalidSize,
        KernelError::InvalidCombination => UserspaceError::InvalidCombination,
        KernelError::ExceedingMaximum { .. } => UserspaceError::ExceedingMaximum,
        KernelError::InvalidKernelCaps { .. } => UserspaceError::InvalidKernelCaps,
        KernelError::IpcError => UserspaceError::PortRemoteDead,
        KernelError::ReservedValue => UserspaceError::ReservedValue,
        KernelError::ProcessKilled => UserspaceError::InvalidHandle,
        KernelError::NotImplemented => UserspaceError::NotImplemented,
        KernelError::WrongMappingFramesForTy { .. } => UserspaceError::InvalidCombination,
        KernelError::InvalidMemState { .. } => UserspaceError::InvalidMemState,
    }
}

impl From<KernelError> for UserspaceError {
    /// Collapses a kernel error to the code userspace sees. A killed process
    /// shows as an invalid handle: the handle is about to become one.
    fn from(err: KernelError) -> (code: UserspaceError) {
        match err {
            KernelError::PhysicalMemoryExhaustion => UserspaceError::MemoryFull,
            KernelError::VirtualMemoryExhaustion => UserspaceError::MemoryFull,
            KernelError::InvalidState => UserspaceError::InvalidState,
            KernelError::InvalidAddress { .. } => UserspaceError::InvalidAddress,
            KernelError::InvalidSize { .. } => UserspaceError::InvalidSize,
            KernelError::InvalidCombination => UserspaceError::InvalidCombination,
            KernelError::ExceedingMaximum { .. } => UserspaceError::ExceedingMaximum,
            KernelError::InvalidKernelCaps { .. } => UserspaceError::InvalidKernelCaps,
            KernelError::IpcError => UserspaceError::PortRemoteDead,
            KernelError::ReservedValue => UserspaceError::ReservedValue,
            KernelError::ProcessKilled => UserspaceError::InvalidHandle,
            KernelError::NotImplemented => UserspaceError::NotImplemented,
            KernelError::WrongMappingFramesForTy { .. } => UserspaceError::InvalidCombination,
            KernelError::InvalidMemState { .. } => UserspaceError::InvalidMemState,
        }
    }
}

impl FromSpecImpl<KernelError> for UserspaceError {
    open spec fn obeys_from_spec() -> bool {
        true
    }

    open spec fn from_spec(err: KernelError) -> UserspaceError {
        userspace_code(err)
    }
}

} // verus!
