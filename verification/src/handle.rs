//! Handles: the numbers by which userspace names kernel objects, and the
//! per-process table that gives them meaning.

use crate::error::KernelError;
use crate::error::UserspaceError;
use vstd::prelude::*;
use std::collections::BTreeMap;

verus! {

broadcast use {vstd::std_specs::btree::group_btree_axioms, vstd::laws_cmp::group_laws_cmp};

/// The handle number that always names the calling thread.
pub const CURRENT_THREAD_HANDLE: u32 = 0xFFFF8000;

/// The handle number that always names the calling process.
pub const CURRENT_PROCESS_HANDLE: u32 = 0xFFFF8001;

/// Handle numbers given out by a table stay below this bound.
pub const MAX_HANDLE: u32 = 0xFFFF0000;

/// An event raised by an interrupt line.
#[derive(Clone, Copy, Debug, PartialEq, Eq, Structural)]
pub struct IRQEvent {
    /// The interrupt line.
    pub irq: usize,
}

/// The side of an event that can be waited on.
#[derive(Clone, Copy, Debug, PartialEq, Eq, Structural)]
pub struct ReadableEvent {
    /// The event both sides share.
    pub event: usize,
}

/// The side of an event that signals it.
#[derive(Clone, Copy, Debug, PartialEq, Eq, Structural)]
pub struct WritableEvent {
    /// The event both sides share.
    pub event: usize,
}

/// The client side of a port: it can connect.
#[derive(Clone, Copy, Debug, PartialEq, Eq, Structural)]
pub struct ClientPort {
    /// The port both sides share.
    pub port: usize,
}

/// The server side of a port: it can accept connections.
#[derive(Clone, Copy, Debug, PartialEq, Eq, Structural)]
pub struct ServerPort {
    /// The port both sides share.
    pub port: usize,
}

/// The client side of a session: it sends requests.
#[derive(Clone, Copy, Debug, PartialEq, Eq, Structural)]
pub struct ClientSession {
    /// The session both sides share.
    pub session: usize,
}

/// The server side of a session: it receives requests and replies.
#[derive(Clone, Copy, Debug, PartialEq, Eq, Structural)]
pub struct ServerSession {
    /// The session both sides share.
    pub session: usize,
}

/// A reference to a thread that does not keep the thread alive.
#[derive(Clone, Copy, Debug, PartialEq, Eq, Structural)]
pub struct ThreadRef {
    /// The thread's slot in the scheduler's thread table.
    pub thread: usize,
}

/// A reference to a process.
#[derive(Clone, Copy, Debug, PartialEq, Eq, Structural)]
pub struct ProcessRef {
    /// The process id.
    pub pid: usize,
}

/// A reference to a shared memory region.
#[derive(Clone, Copy, Debug, PartialEq, Eq, Structural)]
pub struct SharedMemoryRef {
    /// The region's number.
    pub region: usize,
}

/// A handle to a resource userspace can reach. The same handle may sit in
/// the tables of several processes.
#[derive(Clone, Copy, Debug, PartialEq, Eq, Structural)]
pub enum Handle {
    /// An event triggered when an interrupt fires.
    InterruptEvent(IRQEvent),
    /// An event that can be waited on.
    ReadableEvent(ReadableEvent),
    /// The trigger of a readable event.
    WritableEvent(WritableEvent),
    /// The server side of a port.
    ServerPort(ServerPort),
    /// The client side of a port.
    ClientPort(ClientPort),
    /// The server side of a session.
    ServerSession(ServerSession),
    /// The client side of a session.
    ClientSession(ClientSession),
    /// A thread; the handle does not keep it alive.
    Thread(ThreadRef),
    /// A process; the handle keeps it alive.
    Process(ProcessRef),
    /// A shared memory region; the handle keeps the memory alive.
    SharedMemory(SharedMemoryRef),
}

/// What a thread can wait on.
#[derive(Clone, Copy, Debug, PartialEq, Eq, Structural)]
pub enum Waitable {
    /// Signaled while the event is.
    ReadableEvent(ReadableEvent),
    /// Signaled when the interrupt fired.
    InterruptEvent(IRQEvent),
    /// Signaled while a connection waits to be accepted.
    ServerPort(ServerPort),
    /// Signaled while a request waits to be received.
    ServerSession(ServerSession),
    /// Signaled once the thread has exited.
    Thread(ThreadRef),
    /// Signaled while the process is in its signaled state.
    Process(ProcessRef),
}

impl Handle {
    /// What a handle can be waited on as, if it can.
    pub open spec fn waitable(&self) -> Option<Waitable> {
        match *self {
            Handle::ReadableEvent(e) => Some(Waitable::ReadableEvent(e)),
            Handle::InterruptEvent(e) => Some(Waitable::InterruptEvent(e)),
            Handle::ServerPort(p) => Some(Waitable::ServerPort(p)),
            Handle::ServerSession(s) => Some(Waitable::ServerSession(s)),
            Handle::Thread(t) => Some(Waitable::Thread(t)),
            Handle::Process(p) => Some(Waitable::Process(p)),
            _ => None,
        }
    }

    /// The handle as something to wait on; `InvalidHandle` for the kinds
    /// that cannot be waited on.
    pub fn as_waitable(&self) -> (r: Result<Waitable, UserspaceError>)
        ensures
            self.waitable() is Some ==> r == Ok::<Waitable, UserspaceError>(self.waitable()->Some_0),
            self.waitable() is None ==> r == Err::<Waitable, UserspaceError>(
                UserspaceError::InvalidHandle,
            ),
    {
        match *self {
            Handle::ReadableEvent(waitable) => Ok(Waitable::ReadableEvent(waitable)),
            Handle::InterruptEvent(waitable) => Ok(Waitable::InterruptEvent(waitable)),
            Handle::ServerPort(serverport) => Ok(Waitable::ServerPort(serverport)),
            Handle::ServerSession(serversession) => Ok(Waitable::ServerSession(serversession)),
            Handle::Thread(thread) => Ok(Waitable::Thread(thread)),
            Handle::Process(process) => Ok(Waitable::Process(process)),
            _ => Err(UserspaceError::InvalidHandle),
        }
    }

    /// The handle as a client port, or `InvalidHandle`.
    pub fn as_client_port(&self) -> (r: Result<ClientPort, UserspaceError>)
        ensures
            r == (match *self {
                Handle::ClientPort(s) => Ok::<ClientPort, UserspaceError>(s),
                _ => Err::<ClientPort, UserspaceError>(UserspaceError::InvalidHandle),
            }),
    {
        if let Handle::ClientPort(s) = *self {
            Ok(s)
        } else {
            Err(UserspaceError::InvalidHandle)
        }
    }

    /// The handle as a server session, or `InvalidHandle`.
    pub fn as_server_session(&self) -> (r: Result<ServerSession, UserspaceError>)
        ensures
            r == (match *self {
                Handle::ServerSession(s) => Ok::<ServerSession, UserspaceError>(s),
                _ => Err::<ServerSession, UserspaceError>(UserspaceError::InvalidHandle),
            }),
    {
        if let Handle::ServerSession(s) = *self {
            Ok(s)
        } else {
            Err(UserspaceError::InvalidHandle)
        }
    }

    /// The handle as a client session, or `InvalidHandle`.
    pub fn as_client_session(&self) -> (r: Result<ClientSession, UserspaceError>)
        ensures
            r == (match *self {
                Handle::ClientSession(s) => Ok::<ClientSession, UserspaceError>(s),
                _ => Err::<ClientSession, UserspaceError>(UserspaceError::InvalidHandle),
            }),
    {
        if let Handle::ClientSession(s) = *self {
            Ok(s)
        } else {
            Err(UserspaceError::InvalidHandle)
        }
    }

    /// The handle as a thread reference, or `InvalidHandle`.
    pub fn as_thread_handle(&self) -> (r: Result<ThreadRef, UserspaceError>)
        ensures
            r == (match *self {
                Handle::Thread(s) => Ok::<ThreadRef, UserspaceError>(s),
                _ => Err::<ThreadRef, UserspaceError>(UserspaceError::InvalidHandle),
            }),
    {
        if let Handle::Thread(s) = *self {
            Ok(s)
        } else {
            Err(UserspaceError::InvalidHandle)
        }
    }

    /// The handle as a process reference, or `InvalidHandle`.
    pub fn as_process(&self) -> (r: Result<ProcessRef, UserspaceError>)
        ensures
            r == (match *self {
                Handle::Process(s) => Ok::<ProcessRef, UserspaceError>(s),
                _ => Err::<ProcessRef, UserspaceError>(UserspaceError::InvalidHandle),
            }),
    {
        if let Handle::Process(s) = *self {
            Ok(s)
        } else {
            Err(UserspaceError::InvalidHandle)
        }
    }

    /// The handle as a writable event, or `InvalidHandle`.
    pub fn as_writable_event(&self) -> (r: Result<WritableEvent, UserspaceError>)
        ensures
            r == (match *self {
                Handle::WritableEvent(s) => Ok::<WritableEvent, UserspaceError>(s),
                _ => Err::<WritableEvent, UserspaceError>(UserspaceError::InvalidHandle),
            }),
    {
        match *self {
            Handle::WritableEvent(event) => Ok(event),
            _ => Err(UserspaceError::InvalidHandle),
        }
    }

    /// The handle as a readable event, or `InvalidHandle`.
    pub fn as_readable_event(&self) -> (r: Result<ReadableEvent, UserspaceError>)
        ensures
            r == (match *self {
                Handle::ReadableEvent(s) => Ok::<ReadableEvent, UserspaceError>(s),
                _ => Err::<ReadableEvent, UserspaceError>(UserspaceError::InvalidHandle),
            }),
    {
        match *self {
            Handle::ReadableEvent(event) => Ok(event),
            _ => Err(UserspaceError::InvalidHandle),
        }
    }

    /// The handle as a shared memory region, or `InvalidHandle`.
    pub fn as_shared_memory(&self) -> (r: Result<SharedMemoryRef, UserspaceError>)
        ensures
            r == (match *self {
                Handle::SharedMemory(s) => Ok::<SharedMemoryRef, UserspaceError>(s),
                _ => Err::<SharedMemoryRef, UserspaceError>(UserspaceError::InvalidHandle),
            }),
    {
        if let Handle::SharedMemory(s) = *self {
            Ok(s)
        } else {
            Err(UserspaceError::InvalidHandle)
        }
    }
}

/// The table that gives a process's handle numbers their meaning.
///
/// A number is given out once and never again: after a handle was closed its
/// number names nothing. Numbers start at 1 and stay below [`MAX_HANDLE`].
/// The two meta-handles for the calling thread and process are not stored;
/// [`HandleTable::get_handle`] resolves them on the spot.
#[derive(Debug)]
pub struct HandleTable {
    table: BTreeMap<u32, Handle>,
    counter: u32,
}

impl View for HandleTable {
    type V = Map<u32, Handle>;

    /// The handles in the table, by number.
    closed spec fn view(&self) -> Map<u32, Handle> {
        self.table@
    }
}

impl HandleTable {
    /// The number the next handle added will get.
    pub closed spec fn next_id(&self) -> int {
        self.counter as int
    }

    /// Every number in use was given out before, and the next one is still
    /// in range.
    pub open spec fn wf(&self) -> bool {
        &&& 1 <= self.next_id() <= MAX_HANDLE
        &&& self@.dom().finite()
        &&& forall|id: u32| self@.contains_key(id) ==> 1 <= id < self.next_id()
    }

    /// An empty table. The two meta-handles resolve all the same.
    pub fn new() -> (t: HandleTable)
        ensures
            t.wf(),
            t@ == Map::<u32, Handle>::empty(),
            t.next_id() == 1,
    {
        HandleTable { table: BTreeMap::new(), counter: 1 }
    }

    /// Adds a handle and returns the number it got: the lowest number never
    /// given out before. Fails with `ExceedingMaximum` once the numbers are
    /// used up; the table is then unchanged.
    pub fn add_handle(&mut self, handle: Handle) -> (r: Result<u32, KernelError>)
        requires
            old(self).wf(),
        ensures
            final(self).wf(),
            r == add_handle_result(old(self).next_id()),
            final(self).next_id() == old(self).next_id() + (if r is Ok { 1int } else { 0int }),
            final(self)@ == (if r is Ok {
                old(self)@.insert(old(self).next_id() as u32, handle)
            } else {
                old(self)@
            }),
    {
        if self.counter >= MAX_HANDLE {
            return Err(
                KernelError::ExceedingMaximum { value: self.counter as u64, maximum: MAX_HANDLE as u64 },
            );
        }
        let handlenum: u32 = self.counter;
        self.counter = self.counter + 1;
        self.table.insert(handlenum, handle);
        Ok(handlenum)
    }

    /// How many more handles the table can take.
    pub fn remaining(&self) -> (n: u32)
        requires
            self.wf(),
        ensures
            n == MAX_HANDLE - self.next_id(),
    {
        MAX_HANDLE - self.counter
    }

    /// The handle a number names. The two meta-handles name the calling
    /// thread and process; any other number is looked up in the table, and
    /// `InvalidHandle` is returned when it is not there.
    pub fn get_handle(&self, handle: u32, current_thread: ThreadRef, current_process: ProcessRef) -> (r:
        Result<Handle, UserspaceError>)
        ensures
            handle == CURRENT_THREAD_HANDLE ==> r == Ok::<Handle, UserspaceError>(
                Handle::Thread(current_thread),
            ),
            handle == CURRENT_PROCESS_HANDLE ==> r == Ok::<Handle, UserspaceError>(
                Handle::Process(current_process),
            ),
            handle != CURRENT_THREAD_HANDLE && handle != CURRENT_PROCESS_HANDLE ==> r == (
            if self@.contains_key(handle) {
                Ok::<Handle, UserspaceError>(self@[handle])
            } else {
                Err::<Handle, UserspaceError>(UserspaceError::InvalidHandle)
            }),
            r == resolved(self@, handle, current_thread, current_process),
    {
        if handle == CURRENT_THREAD_HANDLE {
            Ok(Handle::Thread(current_thread))
        } else if handle == CURRENT_PROCESS_HANDLE {
            Ok(Handle::Process(current_process))
        } else {
            self.get_handle_no_alias(handle)
        }
    }

    /// The handle a number names in the table itself: the meta-handles get
    /// no special treatment.
    pub fn get_handle_no_alias(&self, handle: u32) -> (r: Result<Handle, UserspaceError>)
        ensures
            r == (if self@.contains_key(handle) {
                Ok::<Handle, UserspaceError>(self@[handle])
            } else {
                Err::<Handle, UserspaceError>(UserspaceError::InvalidHandle)
            }),
    {
        match self.table.get(&handle) {
            Some(found) => Ok(*found),
            None => Err(UserspaceError::InvalidHandle),
        }
    }

    /// Takes a number out of the table and returns the handle it named, for
    /// closing it or for moving it to another process. Fails with
    /// `InvalidHandle` when the number names nothing.
    pub fn delete_handle(&mut self, handle: u32) -> (r: Result<Handle, UserspaceError>)
        requires
            old(self).wf(),
        ensures
            final(self).wf(),
            final(self).next_id() == old(self).next_id(),
            final(self)@ == old(self)@.remove(handle),
            r == (if old(self)@.contains_key(handle) {
                Ok::<Handle, UserspaceError>(old(self)@[handle])
            } else {
                Err::<Handle, UserspaceError>(UserspaceError::InvalidHandle)
            }),
    {
        match self.table.remove(&handle) {
            Some(found) => Ok(found),
            None => Err(UserspaceError::InvalidHandle),
        }
    }
}

impl Default for HandleTable {
    /// An empty table.
    fn default() -> (t: HandleTable)
        ensures
            t.wf(),
            t@ == Map::<u32, Handle>::empty(),
            t.next_id() == 1,
    {
        HandleTable::new()
    }
}

/// The handle a number names: the calling thread or process for the two
/// meta-handles, what the table holds for any other number.
pub open spec fn resolved(
    table: Map<u32, Handle>,
    handle: u32,
    current_thread: ThreadRef,
    current_process: ProcessRef,
) -> Result<Handle, UserspaceError> {
    if handle == CURRENT_THREAD_HANDLE {
        Ok(Handle::Thread(current_thread))
    } else if handle == CURRENT_PROCESS_HANDLE {
        Ok(Handle::Process(current_process))
    } else if table.contains_key(handle) {
        Ok(table[handle])
    } else {
        Err(UserspaceError::InvalidHandle)
    }
}

/// What adding a handle returns when `next` is the next number to give out.
pub open spec fn add_handle_result(next: int) -> Result<u32, KernelError> {
    if next < MAX_HANDLE {
        Ok(next as u32)
    } else {
        Err(KernelError::ExceedingMaximum { value: next as u64, maximum: MAX_HANDLE as u64 })
    }
}

/// The numbers under which a table holds the given handle.
pub open spec fn referrers(table: Map<u32, Handle>, handle: Handle) -> Set<u32> {
    table.dom().filter(|id: u32| table[id] == handle)
}

/// The number of entries of a table that name the given handle.
pub open spec fn references(table: Map<u32, Handle>, handle: Handle) -> nat {
    referrers(table, handle).len()
}

/// Handle numbers only grow: a handle added later gets a larger number
/// than any handle added before, whatever was closed in between, so a
/// number is never given out twice.
///
/// `first_next` is the next number of the table when the earlier handle was
/// added, `second_next` its next number when the later one was. An addition
/// raises the next number by one, and no operation lowers it.
pub proof fn law_handle_numbers_grow(first_next: int, second_next: int)
    requires
        1 <= first_next,
        first_next + 1 <= second_next,
        add_handle_result(first_next) is Ok,
        add_handle_result(second_next) is Ok,
    ensures
        add_handle_result(first_next)->Ok_0 < add_handle_result(second_next)->Ok_0,
{
}

/// A number that was closed names nothing from then on: no later addition
/// brings it back.
pub proof fn law_closed_number_stays_invalid(table: Map<u32, Handle>, next: int, closed: u32, added: Handle)
    requires
        forall|id: u32| table.contains_key(id) ==> 1 <= id < next,
        1 <= closed < next,
        !table.contains_key(closed),
        add_handle_result(next) is Ok,
    ensures
        !table.insert(add_handle_result(next)->Ok_0, added).contains_key(closed),
{
}

/// Taking an entry out of a table lowers the number of references to the
/// handle it named by one, and leaves the references to other handles.
pub proof fn lemma_references_remove(table: Map<u32, Handle>, id: u32, handle: Handle)
    requires
        table.dom().finite(),
        table.contains_key(id),
    ensures
        references(table.remove(id), handle) == references(table, handle) - (if table[id] == handle {
            1int
        } else {
            0int
        }),
{
    let before = referrers(table, handle);
    let after = referrers(table.remove(id), handle);
    table.dom().lemma_len_filter(|k: u32| table[k] == handle);
    if table[id] == handle {
        assert(after =~= before.remove(id));
        assert(before.contains(id));
    } else {
        assert(after =~= before);
    }
}

/// Putting a handle into a table under a fresh number raises the number of
/// references to it by one, and leaves the references to other handles.
pub proof fn lemma_references_insert(table: Map<u32, Handle>, id: u32, added: Handle, handle: Handle)
    requires
        table.dom().finite(),
        !table.contains_key(id),
    ensures
        references(table.insert(id, added), handle) == references(table, handle) + (if added
            == handle {
            1int
        } else {
            0int
        }),
{
    let before = referrers(table, handle);
    let after = referrers(table.insert(id, added), handle);
    table.dom().lemma_len_filter(|k: u32| table[k] == handle);
    if added == handle {
        assert(after =~= before.insert(id));
        assert(!before.contains(id));
    } else {
        assert(after =~= before);
    }
}

/// Copying a handle to another process and closing the copy leaves the
/// receiver's table, and with it every reference count in it, as it was
/// before; closing the sender's handle as well leaves the object with one
/// reference less than it had before the copy, exactly as if the sender had
/// closed its handle without ever copying it.
///
/// `from` and `to` are the tables of the sender and the receiver before the
/// copy, `number` is the sender's number of the handle, `next` the number
/// the copy gets in the receiver.
pub proof fn law_copy_then_close_restores_counts(
    from: Map<u32, Handle>,
    to: Map<u32, Handle>,
    number: u32,
    next: u32,
)
    requires
        from.dom().finite(),
        to.dom().finite(),
        from.contains_key(number),
        !to.contains_key(next),
    ensures
        to.insert(next, from[number]).remove(next) == to,
        references(to.insert(next, from[number]), from[number]) == references(to, from[number]) + 1,
        references(from.remove(number), from[number]) + references(
            to.insert(next, from[number]).remove(next),
            from[number],
        ) == references(from, from[number]) + references(to, from[number]) - 1,
{
    let handle = from[number];
    assert(to.insert(next, handle).remove(next) =~= to);
    lemma_references_insert(to, next, handle, handle);
    lemma_references_remove(from, number, handle);
}

} // verus!
