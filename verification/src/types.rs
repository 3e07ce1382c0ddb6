//! Types of the interface between the kernel and userspace.

use vstd::prelude::*;

verus! {

/// A process id, as it travels through IPC. Every process gets a unique id
/// that is never given to another process.
#[derive(Debug, Clone, Copy, PartialEq, Eq, Structural, PartialOrd, Ord)]
pub struct Pid(pub u64);

} // verus!
