//! Processes and the life of their threads.
//!
//! A process goes from created to started to exiting to exited. Threads are
//! born into the maternity of their process, which keeps them until they are
//! started; killing a process empties the maternity and tells every thread
//! to exit.

use crate::capabilities::parse_outcome;
use crate::capabilities::Capability;
use crate::capabilities::ProcessCapabilities;
use crate::error::KernelError;
use crate::error::MemoryType;
use crate::error::UserspaceError;
use crate::handle::add_handle_result;
use crate::handle::Handle;
use crate::handle::HandleTable;
use crate::handle::ProcessRef;
use crate::handle::ThreadRef;
use crate::mem::align_up;
use crate::mem::spec_align_up;
use crate::mem::VirtualAddress;
use crate::mem::PAGE_SIZE;
use crate::memory::has_space;
use crate::memory::lowest_space;
use crate::memory::mappings_below;
use crate::memory::Mapping;
use crate::memory::MappingAccessRights;
use crate::memory::MappingFrames;
use crate::memory::ProcessMemory;
use crate::scheduler::lemma_enqueue;
use crate::scheduler::lemma_evolves_trans;
use crate::scheduler::lemma_exit;
use crate::scheduler::lemma_wake_all;
use crate::scheduler::listed;
use crate::scheduler::Scheduler;
use crate::scheduler::SchedulerView;
use crate::scheduler::ThreadHardwareContext;
use crate::scheduler::ThreadResources;
use crate::scheduler::ThreadState;
use crate::scheduler::ThreadStruct;
use vstd::prelude::*;

verus! {

/// The state of a process, as userspace sees it.
#[derive(Copy, Clone, Debug, PartialEq, Eq, Structural)]
pub enum ProcessState {
    /// Created, not yet started.
    Created,
    /// Created with a debugger attached, not yet started.
    CreatedAttached,
    /// Started.
    Started,
    /// Crashed.
    Crashed,
    /// Started with a debugger attached.
    StartedAttached,
    /// On its way out: its threads are being told to exit.
    Exiting,
    /// Gone for good.
    Exited,
    /// Suspended by a debugger.
    DebugSuspended,
}

/// The flag of the process information that asks for a debugger to be
/// attached from the start.
pub const PROCINFO_ENABLE_DEBUG: u32 = 0x10;

/// What is known of a program when its process is created.
#[derive(Debug)]
pub struct ProcInfo {
    /// The name of the program.
    pub name: Vec<u8>,
    /// The category of the program.
    pub process_category: u32,
    /// The title id of the program.
    pub title_id: u64,
    /// The address the code is loaded at, which is where the main thread
    /// starts.
    pub code_addr: usize,
    /// The number of pages of code.
    pub code_num_pages: u32,
    /// Flags; see [`PROCINFO_ENABLE_DEBUG`].
    pub flags: u32,
}

/// The source of process ids: they are given out in ascending order, each
/// once.
#[derive(Debug)]
pub struct PidAllocator {
    next: usize,
}

impl PidAllocator {
    /// The id the next process will get.
    pub closed spec fn next_pid(&self) -> int {
        self.next as int
    }

    /// A source that starts with id 0.
    pub fn new() -> (r: PidAllocator)
        ensures
            r.next_pid() == 0,
    {
        PidAllocator { next: 0 }
    }

    /// Gives out the next id.
    pub fn allocate(&mut self) -> (pid: usize)
        requires
            old(self).next_pid() < usize::MAX,
        ensures
            pid == old(self).next_pid(),
            final(self).next_pid() == pid + 1,
    {
        let pid: usize = self.next;
        self.next = self.next + 1;
        pid
    }
}

/// The part of a process that changes with its state. The maternity lives
/// here so that a thread cannot be born into a process that has exited.
#[derive(Debug)]
pub struct ProcessStateData {
    /// Whether the process is signaled: set when the state changes, cleared
    /// on request, permanent once the process has exited.
    pub signaled: bool,
    /// The state of the process.
    pub state: ProcessState,
    /// The threads that wait for the process to be signaled.
    pub waiting_threads: Vec<usize>,
    /// The threads created but not yet started. They are kept here because
    /// nothing else keeps them.
    pub thread_maternity: Vec<usize>,
}

/// A process.
#[derive(Debug)]
pub struct ProcessStruct {
    /// The unique id of the process.
    pub pid: usize,
    /// The name of the process.
    pub name: Vec<u8>,
    /// The address space of the process, shared among its threads.
    pub pmemory: ProcessMemory,
    /// The handles of the process, shared among its threads.
    pub phandles: HandleTable,
    /// The threads of the process, by their slots. The list does not keep
    /// them alive.
    pub threads: Vec<usize>,
    /// The address the main thread starts at.
    pub entrypoint: VirtualAddress,
    /// What the process is allowed to do.
    pub capabilities: ProcessCapabilities,
    /// The state of the process.
    pub state: ProcessStateData,
}

/// The scheduler after each thread of a list was told to exit, in order.
pub open spec fn exit_all(sched: SchedulerView, ids: Seq<usize>) -> SchedulerView
    decreases ids.len(),
{
    if ids.len() == 0 {
        sched
    } else {
        exit_all(sched, ids.drop_last()).exit(ids.last())
    }
}

/// The position of the first occurrence of a thread in a list, or the length
/// of the list.
pub open spec fn position(list: Seq<usize>, id: usize) -> int
    decreases list.len(),
{
    if list.len() == 0 {
        0
    } else if position(list.drop_last(), id) < list.len() - 1 {
        position(list.drop_last(), id)
    } else if list.last() == id {
        list.len() - 1
    } else {
        list.len() as int
    }
}

impl ProcessStruct {
    /// The state of the process.
    pub open spec fn spec_state(&self) -> ProcessState {
        self.state.state
    }

    /// Whether the process is signaled.
    pub open spec fn signaled(&self) -> bool {
        self.state.signaled
    }

    /// The threads that wait for the process to be signaled, in the order in
    /// which they registered.
    pub open spec fn waiters(&self) -> Seq<usize> {
        self.state.waiting_threads@
    }

    /// The threads created but not yet started.
    pub open spec fn maternity(&self) -> Seq<usize> {
        self.state.thread_maternity@
    }

    /// The parts of the process are well-formed.
    pub open spec fn wf(&self) -> bool {
        &&& self.pmemory.wf()
        &&& self.phandles.wf()
        &&& self.capabilities.wf()
    }

    /// What holds of a process and the threads the scheduler knows: the
    /// threads of the process have slots, and once the process has exited
    /// its maternity is empty and every thread of it that is left has its
    /// termination pending.
    pub open spec fn inv(&self, sched: SchedulerView) -> bool {
        &&& self.wf()
        &&& forall|i: int| 0 <= i < self.threads@.len() ==> #[trigger] self.threads@[i] < sched.threads.len()
        &&& forall|i: int|
            0 <= i < self.maternity().len() ==> #[trigger] self.maternity()[i] < sched.threads.len()
        &&& self.spec_state() == ProcessState::Exited ==> {
            &&& self.maternity().len() == 0
            &&& forall|i: int|
                0 <= i < self.threads@.len() && sched.alive(#[trigger] self.threads@[i]) ==> sched.thread(
                    self.threads@[i],
                ).state == ThreadState::TerminationPending
        }
    }

    /// Creates a process without threads. It gets the next process id and
    /// is added to the list of processes.
    ///
    /// The capabilities are read from `kacs`; a process without descriptors
    /// gets the default capabilities. The process starts out created, or
    /// created with a debugger attached when its information asks for one,
    /// and not signaled.
    ///
    /// Fails as [`ProcessCapabilities::parse_kcaps`] does; the process id is
    /// used up all the same, and the list of processes is unchanged.
    pub fn new(
        pids: &mut PidAllocator,
        process_list: &mut Vec<usize>,
        procinfo: &ProcInfo,
        kacs: Option<&[u8]>,
    ) -> (r: Result<ProcessStruct, KernelError>)
        requires
            old(pids).next_pid() < usize::MAX,
        ensures
            final(pids).next_pid() == old(pids).next_pid() + 1,
            kacs is None ==> r is Ok,
            kacs is Some ==> (r is Ok <==> parse_outcome(kacs->Some_0@) is Ok),
            r is Err ==> r->Err_0 == parse_outcome(kacs->Some_0@)->Err_0 && final(process_list)@ == old(
                process_list,
            )@,
            r is Ok ==> {
                let p = r->Ok_0;
                &&& p.wf()
                &&& p.pid == old(pids).next_pid()
                &&& p.name@ == procinfo.name@
                &&& p.entrypoint == VirtualAddress(procinfo.code_addr)
                &&& p.pmemory@ == Seq::<Mapping>::empty()
                &&& p.phandles@ == Map::<u32, Handle>::empty()
                &&& p.phandles.next_id() == 1
                &&& p.threads@ == Seq::<usize>::empty()
                &&& p.maternity() == Seq::<usize>::empty()
                &&& p.waiters() == Seq::<usize>::empty()
                &&& !p.signaled()
                &&& p.spec_state() == (if procinfo.flags & PROCINFO_ENABLE_DEBUG != 0 {
                    ProcessState::CreatedAttached
                } else {
                    ProcessState::Created
                })
                &&& kacs is Some ==> p.capabilities.masks() == parse_outcome(kacs->Some_0@)->Ok_0.0
                    && p.capabilities.declared() == parse_outcome(kacs->Some_0@)->Ok_0.1
                &&& kacs is None ==> p.capabilities.masks() == default_masks()
                    && p.capabilities.declared() == Seq::<Capability>::empty()
                &&& final(process_list)@ == old(process_list)@.push(p.pid)
            },
    {
        // allocate its memory space
        let pmemory = ProcessMemory::new();
        // the PID
        let pid: usize = pids.allocate();
        let capabilities = match kacs {
            Some(kacs) => {
                match ProcessCapabilities::parse_kcaps(kacs) {
                    Ok(capabilities) => capabilities,
                    Err(err) => {
                        return Err(err);
                    },
                }
            },
            None => ProcessCapabilities::default_capabilities(),
        };
        let state: ProcessState = if procinfo.flags & PROCINFO_ENABLE_DEBUG != 0 {
            ProcessState::CreatedAttached
        } else {
            ProcessState::Created
        };
        let p = ProcessStruct {
            pid,
            name: procinfo.name.clone(),
            entrypoint: VirtualAddress(procinfo.code_addr),
            pmemory,
            state: ProcessStateData {
                state,
                signaled: false,
                waiting_threads: Vec::new(),
                thread_maternity: Vec::new(),
            },
            threads: Vec::new(),
            phandles: HandleTable::new(),
            capabilities,
        };
        process_list.push(pid);
        Ok(p)
    }

    /// The state of the process.
    pub fn state(&self) -> (s: ProcessState)
        ensures
            s == self.spec_state(),
    {
        self.state.state
    }

    /// Whether the process is signaled.
    pub fn is_signaled(&self) -> (r: bool)
        ensures
            r == self.signaled(),
    {
        self.state.signaled
    }

    /// Registers a thread as waiting for the process to be signaled.
    pub fn register(&mut self, waiter: usize)
        ensures
            final(self).waiters() == old(self).waiters().push(waiter),
            final(self).unchanged_but_waiters(old(self)),
    {
        self.state.waiting_threads.push(waiter);
    }

    /// Whether two processes differ at most in the threads that wait for
    /// them.
    pub open spec fn unchanged_but_waiters(&self, other: &ProcessStruct) -> bool {
        &&& self.unchanged_but_state(other)
        &&& self.spec_state() == other.spec_state()
        &&& self.signaled() == other.signaled()
        &&& self.maternity() == other.maternity()
        &&& self.threads@ == other.threads@
    }

    /// Whether two processes agree in everything but their state, their
    /// signal, their waiters, their maternity and their threads.
    pub open spec fn unchanged_but_state(&self, other: &ProcessStruct) -> bool {
        &&& self.pid == other.pid
        &&& self.name@ == other.name@
        &&& self.entrypoint == other.entrypoint
        &&& self.pmemory@ == other.pmemory@
        &&& self.phandles@ == other.phandles@
        &&& self.phandles.next_id() == other.phandles.next_id()
        &&& self.capabilities.masks() == other.capabilities.masks()
        &&& self.capabilities.declared() == other.capabilities.declared()
    }

    /// Clears the signal of the process. Fails with `InvalidState`, and
    /// leaves the process as it is, when the process is not signaled or has
    /// exited: an exited process stays signaled for good.
    pub fn clear_signal(&mut self) -> (r: Result<(), KernelError>)
        ensures
            r == (if old(self).signaled() && old(self).spec_state() != ProcessState::Exited {
                Ok::<(), KernelError>(())
            } else {
                Err::<(), KernelError>(KernelError::InvalidState)
            }),
            final(self).signaled() == (old(self).signaled() && r is Err),
            final(self).spec_state() == old(self).spec_state(),
            final(self).waiters() == old(self).waiters(),
            final(self).maternity() == old(self).maternity(),
            final(self).threads@ == old(self).threads@,
            final(self).unchanged_but_state(old(self)),
    {
        if self.state.signaled && self.state.state != ProcessState::Exited {
            self.state.signaled = false;
            Ok(())
        } else {
            Err(KernelError::InvalidState)
        }
    }

    /// Sets the state and signals the process.
    fn set_state(&mut self, sched: &mut Scheduler, newstate: ProcessState)
        requires
            old(sched)@.wf(),
        ensures
            final(sched)@.wf(),
            final(sched)@ == old(sched)@.wake_all(old(self).waiters()),
            old(sched)@.evolves_to(final(sched)@),
            final(self).spec_state() == newstate,
            final(self).signaled(),
            final(self).waiters() == Seq::<usize>::empty(),
            final(self).maternity() == old(self).maternity(),
            final(self).threads@ == old(self).threads@,
            final(self).unchanged_but_state(old(self)),
    {
        self.state.state = newstate;
        self.signal(sched);
    }

    /// Signals the process: every thread that waits for it is woken, the
    /// one that registered last first.
    fn signal(&mut self, sched: &mut Scheduler)
        requires
            old(sched)@.wf(),
        ensures
            final(sched)@.wf(),
            final(sched)@ == old(sched)@.wake_all(old(self).waiters()),
            old(sched)@.evolves_to(final(sched)@),
            final(self).spec_state() == old(self).spec_state(),
            final(self).signaled(),
            final(self).waiters() == Seq::<usize>::empty(),
            final(self).maternity() == old(self).maternity(),
            final(self).threads@ == old(self).threads@,
            final(self).unchanged_but_state(old(self)),
    {
        self.state.signaled = true;
        proof {
            lemma_wake_all(sched@, self.waiters());
        }
        while self.state.waiting_threads.len() > 0
            invariant
                sched@.wf(),
                sched@.wake_all(self.waiters()) == old(sched)@.wake_all(old(self).waiters()),
                old(sched)@.wake_all(old(self).waiters()).wf(),
                old(sched)@.evolves_to(old(sched)@.wake_all(old(self).waiters())),
                self.spec_state() == old(self).spec_state(),
                self.signaled(),
                self.maternity() == old(self).maternity(),
                self.threads@ == old(self).threads@,
                self.unchanged_but_state(old(self)),
            decreases self.waiters().len(),
        {
            let ghost before = self.waiters();
            let thread: usize = self.state.waiting_threads.pop().unwrap();
            proof {
                assert(self.waiters() =~= before.drop_last());
            }
            sched.add_to_schedule_queue(thread);
        }
        assert(self.waiters() =~= Seq::<usize>::empty());
    }

    /// Creates the main thread with its stack and starts the process.
    ///
    /// The stack is `stack_size` bytes rounded up to whole pages, mapped at
    /// the lowest free place of the address space. The main thread starts
    /// at the entry point with the top of that stack, and gets a handle to
    /// itself, which is put into the handle table. The process becomes
    /// started and is signaled; its main thread is put on the schedule
    /// queue.
    ///
    /// Fails with `InvalidState` when the process was started before and
    /// has not exited, with `InvalidSize` when the stack size is zero, with
    /// `MemoryFull` when the address space has no room for the stack, and
    /// with `ExceedingMaximum` when the handle table has no number left.
    ///
    /// A process that has exited cannot be started: the attempt fails with
    /// `InvalidHandle`, which is what a killed process shows as. Its state
    /// stays exited, and no thread is created or scheduled. The stack was
    /// mapped by then, and so was the handle for the main thread added:
    /// neither is taken back, on this failure or on any other.
    pub fn start(
        &mut self,
        sched: &mut Scheduler,
        _main_thread_priority: u32,
        stack_size: usize,
        resources: ThreadResources,
    ) -> (r: Result<(), UserspaceError>)
        requires
            old(self).inv(old(sched)@),
            old(sched)@.wf(),
            old(sched)@.threads.len() < usize::MAX,
            spec_align_up(stack_size as int, PAGE_SIZE as int) <= usize::MAX,
        ensures
            final(self).inv(final(sched)@),
            final(sched)@.wf(),
            old(sched)@.evolves_to(final(sched)@),
            process_started(
                old(self),
                old(sched)@,
                stack_size,
                resources,
                final(self),
                final(sched)@,
                r,
            ),
    {
        let oldstate: ProcessState = self.state.state;
        if oldstate != ProcessState::Created && oldstate != ProcessState::CreatedAttached && oldstate
            != ProcessState::Exited {
            return Err(UserspaceError::InvalidState);
        }
        // allocate the stack within a new mapping
        let stack_size: usize = align_up(stack_size, PAGE_SIZE);
        let stack_addr: VirtualAddress = match self.pmemory.find_available_space(stack_size) {
            Ok(addr) => addr,
            Err(err) => {
                return Err(UserspaceError::from(err));
            },
        };
        match self.pmemory.create_regular_mapping(
            stack_addr,
            stack_size,
            MemoryType::Stack,
            MappingAccessRights::u_rw(),
        ) {
            Ok(()) => {},
            Err(err) => {
                return Err(UserspaceError::from(err));
            },
        }
        let ghost mapped = *self;
        let ghost id = sched@.threads.len() as usize;
        let entrypoint: VirtualAddress = self.entrypoint;
        let first_thread: ThreadRef = match ThreadStruct::new_locked(
            self,
            sched,
            entrypoint,
            VirtualAddress(stack_addr.0 + stack_size),
            None,
            resources,
        ) {
            Ok(thread) => thread,
            Err(err) => {
                return Err(UserspaceError::from(err));
            },
        };
        let ghost created = sched@;
        // set to the new state
        let newstate: ProcessState = if oldstate == ProcessState::Created {
            ProcessState::Started
        } else {
            ProcessState::StartedAttached
        };
        self.set_state(sched, newstate);
        proof {
            lemma_inv_stable(&mapped, old(sched)@, old(sched)@);
            lemma_evolves_trans(old(sched)@, created, sched@);
            assert(!listed(old(self).maternity(), id)) by {
                if listed(old(self).maternity(), id) {
                    let i = choose|i: int|
                        0 <= i < old(self).maternity().len() && old(self).maternity()[i] == id;
                    assert(old(self).maternity()[i] < old(sched)@.threads.len());
                }
            }
            lemma_position_of_last(old(self).maternity(), id);
            assert(self.maternity()[old(self).maternity().len() as int] == id);
            assert forall|i: int| 0 <= i < self.maternity().len() implies (
            #[trigger] self.maternity()[i]) < sched@.threads.len() by {
                if i < old(self).maternity().len() {
                    assert(old(self).maternity()[i] < old(sched)@.threads.len());
                }
            }
            assert forall|i: int| 0 <= i < self.threads@.len() implies (#[trigger] self.threads@[i])
                < sched@.threads.len() by {
                if i < old(self).threads@.len() {
                    assert(old(self).threads@[i] < old(sched)@.threads.len());
                }
            }
        }
        let ghost woken = sched@;
        match ThreadStruct::start_locked(first_thread.thread, self, sched) {
            Ok(()) => {
                proof {
                    lemma_evolves_trans(old(sched)@, woken, sched@);
                    assert(self.maternity() =~= old(self).maternity());
                }
                Ok(())
            },
            Err(err) => {
                // back to where the process was; the stack stays mapped
                self.set_state(sched, oldstate);
                Err(UserspaceError::from(err))
            },
        }
    }

    /// Kills the process the calling thread belongs to: every thread of it
    /// is told to exit, and the process has exited.
    pub fn kill_current_process(&mut self, sched: &mut Scheduler)
        requires
            old(self).inv(old(sched)@),
            old(sched)@.wf(),
            old(self).spec_state() == ProcessState::Started || old(self).spec_state()
                == ProcessState::StartedAttached || old(self).spec_state()
                == ProcessState::DebugSuspended,
        ensures
            final(self).inv(final(sched)@),
            final(sched)@.wf(),
            old(sched)@.evolves_to(final(sched)@),
            process_killed(old(self), old(sched)@, final(self), final(sched)@),
    {
        self.kill_subthreads(sched);
    }

    /// Kills the threads of the process and sets its state to exited.
    ///
    /// The process is exiting first, which signals it. The maternity is
    /// emptied: threads that never ran simply vanish. Every other thread is
    /// told to exit. Then the process has exited.
    fn kill_subthreads(&mut self, sched: &mut Scheduler)
        requires
            old(self).inv(old(sched)@),
            old(sched)@.wf(),
        ensures
            final(self).inv(final(sched)@),
            final(sched)@.wf(),
            old(sched)@.evolves_to(final(sched)@),
            process_killed(old(self), old(sched)@, final(self), final(sched)@),
    {
        self.set_state(sched, ProcessState::Exiting);
        // the threads of the maternity never ran: they are not even told
        self.state.thread_maternity.clear();
        let ghost woken = sched@;
        let mut i: usize = 0;
        while i < self.threads.len()
            invariant
                i <= self.threads@.len(),
                sched@.wf(),
                woken.evolves_to(sched@),
                sched@ == exit_all(woken, self.threads@.take(i as int)),
                sched@.threads.len() == woken.threads.len(),
                forall|j: int|
                    0 <= j < i && sched@.alive(#[trigger] self.threads@[j]) ==> sched@.thread(
                        self.threads@[j],
                    ).state == ThreadState::TerminationPending,
                self.threads@ == old(self).threads@,
                self.maternity() == Seq::<usize>::empty(),
                self.waiters() == Seq::<usize>::empty(),
                self.signaled(),
                self.spec_state() == ProcessState::Exiting,
                self.unchanged_but_state(old(self)),
                self.wf(),
            decreases self.threads@.len() - i,
        {
            let ghost before = sched@;
            let weak_thread: usize = self.threads[i];
            proof {
                assert(self.threads@.take(i + 1).drop_last() =~= self.threads@.take(i as int));
                assert(self.threads@.take(i + 1).last() == weak_thread);
                lemma_exit(before, weak_thread);
            }
            ThreadStruct::exit(weak_thread, sched);
            proof {
                lemma_evolves_trans(woken, before, sched@);
                assert forall|j: int|
                    0 <= j < i + 1 && sched@.alive(
                        #[trigger] self.threads@[j],
                    ) implies sched@.thread(self.threads@[j]).state
                    == ThreadState::TerminationPending by {
                    if j < i {
                        assert(before.alive(self.threads@[j]));
                    }
                }
            }
            i = i + 1;
        }
        proof {
            assert(self.threads@.take(self.threads@.len() as int) =~= self.threads@);
        }
        let ghost exited = sched@;
        self.set_state(sched, ProcessState::Exited);
        proof {
            lemma_evolves_trans(old(sched)@, woken, sched@);
            assert(sched@ == exited);
            assert forall|k: int| 0 <= k < self.threads@.len() implies (#[trigger] self.threads@[k])
                < sched@.threads.len() by {
                assert(old(self).threads@[k] < old(sched)@.threads.len());
            }
        }
    }

    /// Kills the process: every thread of it is told to exit, and the
    /// process has exited. A process that is exiting or has exited is left
    /// alone.
    ///
    /// Fails with `InvalidState` when the process was not started.
    pub fn terminate(&mut self, sched: &mut Scheduler) -> (r: Result<(), KernelError>)
        requires
            old(self).inv(old(sched)@),
            old(sched)@.wf(),
        ensures
            final(self).inv(final(sched)@),
            final(sched)@.wf(),
            old(sched)@.evolves_to(final(sched)@),
            r == (if old(self).spec_state() == ProcessState::Created || old(self).spec_state()
                == ProcessState::CreatedAttached {
                Err::<(), KernelError>(KernelError::InvalidState)
            } else {
                Ok::<(), KernelError>(())
            }),
            r is Ok && old(self).spec_state() != ProcessState::Exiting && old(self).spec_state()
                != ProcessState::Exited ==> process_killed(
                old(self),
                old(sched)@,
                final(self),
                final(sched)@,
            ),
            r is Err || old(self).spec_state() == ProcessState::Exiting || old(self).spec_state()
                == ProcessState::Exited ==> final(sched)@ == old(sched)@ && final(self).unchanged_but_waiters(old(self)) && final(self).waiters() == old(self).waiters(),
    {
        match self.state.state {
            ProcessState::Created | ProcessState::CreatedAttached => {
                return Err(KernelError::InvalidState);
            },
            ProcessState::Started | ProcessState::StartedAttached | ProcessState::Crashed | ProcessState::DebugSuspended => {
                self.kill_subthreads(sched);
            },
            ProcessState::Exiting | ProcessState::Exited => {
                // already on its way out
            },
        }
        Ok(())
    }
}

/// The position of a thread that is last in a list and nowhere else is the
/// end of the list.
pub proof fn lemma_position_of_last(list: Seq<usize>, id: usize)
    requires
        !listed(list, id),
    ensures
        position(list.push(id), id) == list.len(),
        list.push(id).remove(list.len() as int) == list,
        listed(list.push(id), id),
{
    assert forall|j: int| 0 <= j < list.len() implies list.push(id)[j] != id by {
        assert(list[j] != id);
    }
    lemma_position(list.push(id), id, list.len() as int);
    assert(list.push(id).remove(list.len() as int) =~= list);
    assert(list.push(id)[list.len() as int] == id);
}

/// What starting a process comes to.
pub open spec fn process_started(
    before: &ProcessStruct,
    sched_before: SchedulerView,
    stack_size: usize,
    resources: ThreadResources,
    after: &ProcessStruct,
    sched_after: SchedulerView,
    r: Result<(), UserspaceError>,
) -> bool {
    let size = spec_align_up(stack_size as int, PAGE_SIZE as int);
    let addr = lowest_space(before.pmemory@, size);
    let with_stack = before.pmemory@.insert(
        mappings_below(before.pmemory@, addr),
        Mapping {
            address: addr as usize,
            length: size as usize,
            ty: MemoryType::Stack,
            flags: MappingAccessRights {
                readable: true,
                writable: true,
                executable: false,
                user_accessible: true,
            },
            frames: MappingFrames::Owned,
            phys_offset: 0,
        },
    );
    let id = sched_before.threads.len() as usize;
    let handle = add_handle_result(before.phandles.next_id());
    let unchanged = after.unchanged_but_waiters(before) && after.waiters() == before.waiters()
        && sched_after == sched_before;
    let rest_unchanged = {
        &&& after.pid == before.pid
        &&& after.name@ == before.name@
        &&& after.entrypoint == before.entrypoint
        &&& after.capabilities.masks() == before.capabilities.masks()
        &&& after.capabilities.declared() == before.capabilities.declared()
    };
    if before.spec_state() != ProcessState::Created && before.spec_state()
        != ProcessState::CreatedAttached && before.spec_state() != ProcessState::Exited {
        r == Err::<(), UserspaceError>(UserspaceError::InvalidState) && unchanged
    } else if size == 0 {
        r == Err::<(), UserspaceError>(UserspaceError::InvalidSize) && unchanged
    } else if !has_space(before.pmemory@, size) {
        r == Err::<(), UserspaceError>(UserspaceError::MemoryFull) && unchanged
    } else if handle is Err {
        &&& r == Err::<(), UserspaceError>(UserspaceError::ExceedingMaximum)
        &&& rest_unchanged
        &&& after.pmemory@ == with_stack
        &&& after.phandles@ == before.phandles@
        &&& after.phandles.next_id() == before.phandles.next_id()
        &&& after.threads@ == before.threads@
        &&& after.maternity() == before.maternity()
        &&& after.waiters() == before.waiters()
        &&& after.signaled() == before.signaled()
        &&& after.spec_state() == before.spec_state()
        &&& sched_after == sched_before
    } else if before.spec_state() == ProcessState::Exited {
        &&& r == Err::<(), UserspaceError>(UserspaceError::InvalidHandle)
        &&& rest_unchanged
        &&& after.pmemory@ == with_stack
        &&& after.phandles@ == before.phandles@.insert(
            handle->Ok_0,
            Handle::Thread(ThreadRef { thread: id }),
        )
        &&& after.phandles.next_id() == before.phandles.next_id() + 1
        &&& after.threads@ == before.threads@
        &&& after.maternity() == before.maternity()
        &&& after.waiters() == before.waiters()
        &&& after.signaled() == before.signaled()
        &&& after.spec_state() == ProcessState::Exited
        &&& sched_after == sched_before
    } else {
        &&& r == Ok::<(), UserspaceError>(())
        &&& rest_unchanged
        &&& after.pmemory@ == with_stack
        &&& after.phandles@ == before.phandles@.insert(
            handle->Ok_0,
            Handle::Thread(ThreadRef { thread: id }),
        )
        &&& after.phandles.next_id() == before.phandles.next_id() + 1
        &&& after.threads@ == before.threads@.push(id)
        &&& after.maternity() == before.maternity()
        &&& after.waiters() == Seq::<usize>::empty()
        &&& after.signaled()
        &&& after.spec_state() == (if before.spec_state() == ProcessState::Created {
            ProcessState::Started
        } else {
            ProcessState::StartedAttached
        })
        &&& sched_after == sched_before.spawned(
            new_thread(
                before.pid,
                before.entrypoint,
                VirtualAddress((addr + size) as usize),
                0,
                handle->Ok_0 as usize,
                resources,
            ),
        ).wake_all(before.waiters()).enqueue(id)
    }
}

/// What killing a process comes to: the process has exited and is
/// signaled, nobody waits for it any more, its maternity is empty, the
/// threads that waited for it were woken and every thread of it was told to
/// exit.
pub open spec fn process_killed(
    before: &ProcessStruct,
    sched_before: SchedulerView,
    after: &ProcessStruct,
    sched_after: SchedulerView,
) -> bool {
    &&& after.unchanged_but_state(before)
    &&& after.spec_state() == ProcessState::Exited
    &&& after.signaled()
    &&& after.waiters() == Seq::<usize>::empty()
    &&& after.maternity() == Seq::<usize>::empty()
    &&& after.threads@ == before.threads@
    &&& sched_after == exit_all(sched_before.wake_all(before.waiters()), before.threads@)
}

/// A list of process ids without the given one.
pub open spec fn without_pid(list: Seq<usize>, pid: usize) -> Seq<usize>
    decreases list.len(),
{
    if list.len() == 0 {
        list
    } else if list.last() == pid {
        without_pid(list.drop_last(), pid)
    } else {
        without_pid(list.drop_last(), pid).push(list.last())
    }
}

/// Takes a process that is gone off the list of processes: every other
/// process keeps its place.
pub fn unregister_process(process_list: &mut Vec<usize>, pid: usize)
    ensures
        final(process_list)@ == without_pid(old(process_list)@, pid),
{
    let mut kept: Vec<usize> = Vec::new();
    let mut i: usize = 0;
    while i < process_list.len()
        invariant
            i <= process_list@.len(),
            process_list@ == old(process_list)@,
            kept@ == without_pid(process_list@.take(i as int), pid),
        decreases process_list@.len() - i,
    {
        proof {
            assert(process_list@.take(i + 1).drop_last() =~= process_list@.take(i as int));
        }
        if process_list[i] != pid {
            kept.push(process_list[i]);
        }
        i = i + 1;
    }
    proof {
        assert(process_list@.take(process_list@.len() as int) =~= process_list@);
    }
    *process_list = kept;
}

/// The masks of a process that may make every system call.
pub open spec fn default_masks() -> Seq<u32> {
    seq![0xFF_FFFFu32, 0xFF_FFFFu32, 0xFF_FFFFu32, 0xFF_FFFFu32, 0xFF_FFFFu32, 0xFF_FFFFu32]
}

/// The thread a process creates: paused, with what it needs for its first
/// run.
pub open spec fn new_thread(
    pid: usize,
    ep: VirtualAddress,
    stack: VirtualAddress,
    argument: usize,
    thread_handle: usize,
    resources: ThreadResources,
) -> ThreadStruct {
    ThreadStruct {
        state: ThreadState::Paused,
        kstack: resources.kstack,
        hwcontext: ThreadHardwareContext {
            entry_point: ep.0,
            argument,
            thread_handle,
            stack_pointer: stack.0,
        },
        process: ProcessRef { pid },
        tls_region: resources.tls_region,
        tls_elf: VirtualAddress(0),
    }
}

/// A list without its element at `pos`, or the list itself when `pos` is
/// its length.
pub open spec fn without(list: Seq<usize>, pos: int) -> Seq<usize> {
    if 0 <= pos < list.len() {
        list.remove(pos)
    } else {
        list
    }
}

/// The position found for a thread is its first occurrence.
pub proof fn lemma_position(list: Seq<usize>, id: usize, pos: int)
    requires
        0 <= pos <= list.len(),
        forall|j: int| 0 <= j < pos ==> list[j] != id,
        pos < list.len() ==> list[pos] == id,
    ensures
        position(list, id) == pos,
    decreases list.len(),
{
    if list.len() > 0 {
        let rest = list.drop_last();
        if pos < list.len() - 1 {
            lemma_position(rest, id, pos);
        } else {
            lemma_position(rest, id, list.len() - 1);
        }
    }
}

impl ThreadStruct {
    /// Creates a thread of a process. The thread is paused; it is listed
    /// among the threads of the process and kept in the maternity until it
    /// is started.
    ///
    /// With an argument, the thread gets the argument when it starts.
    /// Without one, the thread is a main thread: a handle to the thread is
    /// put into the handle table of the process, and the thread gets that
    /// handle when it starts.
    ///
    /// Fails with `ExceedingMaximum` when the handle table has no number
    /// left, and with `ProcessKilled` when the process has exited; a handle
    /// that was added by then stays in the table.
    pub fn new(
        belonging_process: &mut ProcessStruct,
        sched: &mut Scheduler,
        ep: VirtualAddress,
        stack: VirtualAddress,
        arg: Option<usize>,
        resources: ThreadResources,
    ) -> (r: Result<ThreadRef, KernelError>)
        requires
            old(belonging_process).inv(old(sched)@),
            old(sched)@.wf(),
            old(sched)@.threads.len() < usize::MAX,
        ensures
            final(belonging_process).inv(final(sched)@),
            final(sched)@.wf(),
            old(sched)@.evolves_to(final(sched)@),
            thread_created(
                old(belonging_process),
                old(sched)@,
                ep,
                stack,
                arg,
                resources,
                final(belonging_process),
                final(sched)@,
                r,
            ),
    {
        Self::new_locked(belonging_process, sched, ep, stack, arg, resources)
    }

    /// See [`ThreadStruct::new`].
    pub fn new_locked(
        belonging_process: &mut ProcessStruct,
        sched: &mut Scheduler,
        ep: VirtualAddress,
        stack: VirtualAddress,
        arg: Option<usize>,
        resources: ThreadResources,
    ) -> (r: Result<ThreadRef, KernelError>)
        requires
            old(belonging_process).inv(old(sched)@),
            old(sched)@.wf(),
            old(sched)@.threads.len() < usize::MAX,
        ensures
            final(belonging_process).inv(final(sched)@),
            final(sched)@.wf(),
            old(sched)@.evolves_to(final(sched)@),
            thread_created(
                old(belonging_process),
                old(sched)@,
                ep,
                stack,
                arg,
                resources,
                final(belonging_process),
                final(sched)@,
                r,
            ),
    {
        // the slot the thread will get
        let id: usize = sched.thread_count();
        // a main thread learns its own handle as its starting argument
        let argument: usize;
        let thread_handle: usize;
        match arg {
            Some(arg) => {
                argument = arg;
                thread_handle = 0;
            },
            None => {
                let handle: u32 = match belonging_process.phandles.add_handle(
                    Handle::Thread(ThreadRef { thread: id }),
                ) {
                    Ok(handle) => handle,
                    Err(err) => {
                        proof {
                            assert forall|i: int|
                                0 <= i < belonging_process.maternity().len() implies (
                            #[trigger] belonging_process.maternity()[i]) < sched@.threads.len() by {
                                assert(old(belonging_process).maternity()[i] < old(sched)@.threads.len());
                            }
                        }
                        return Err(err);
                    },
                };
                argument = 0;
                thread_handle = handle as usize;
            },
        }
        if belonging_process.state.state == ProcessState::Exited {
            // the process was killed: the thread is not created
            return Err(KernelError::ProcessKilled);
        }
        proof {
            assert forall|i: int| 0 <= i < belonging_process.maternity().len() implies (
            #[trigger] belonging_process.maternity()[i]) < sched@.threads.len() by {
                assert(old(belonging_process).maternity()[i] < old(sched)@.threads.len());
            }
        }
        let t = ThreadStruct {
            state: ThreadState::Paused,
            kstack: resources.kstack,
            hwcontext: ThreadHardwareContext {
                entry_point: ep.0,
                argument,
                thread_handle,
                stack_pointer: stack.0,
            },
            process: ProcessRef { pid: belonging_process.pid },
            tls_region: resources.tls_region,
            tls_elf: VirtualAddress(0x00000000),
        };
        let slot: usize = sched.spawn(t);
        // a weak reference for the list of threads, the strong one for the
        // maternity
        let ghost mid_maternity = belonging_process.maternity();
        belonging_process.threads.push(slot);
        belonging_process.state.thread_maternity.push(slot);
        proof {
            assert forall|i: int| 0 <= i < belonging_process.maternity().len() implies (
            #[trigger] belonging_process.maternity()[i]) < sched@.threads.len() by {
                if i < mid_maternity.len() {
                    assert(mid_maternity[i] < old(sched)@.threads.len());
                }
            }
        }
        Ok(ThreadRef { thread: slot })
    }

    /// See [`ThreadStruct::start`].
    pub fn start_locked(thread: usize, belonging_process: &mut ProcessStruct, sched: &mut Scheduler) -> (r:
        Result<(), KernelError>)
        requires
            old(belonging_process).inv(old(sched)@),
            old(sched)@.wf(),
        ensures
            final(belonging_process).inv(final(sched)@),
            final(sched)@.wf(),
            old(sched)@.evolves_to(final(sched)@),
            r == (if old(belonging_process).spec_state() == ProcessState::Exited {
                Err::<(), KernelError>(KernelError::ProcessKilled)
            } else if !listed(old(belonging_process).maternity(), thread) {
                Err::<(), KernelError>(KernelError::InvalidState)
            } else {
                Ok::<(), KernelError>(())
            }),
            final(belonging_process).maternity() == (if r is Ok {
                old(belonging_process).maternity().remove(
                    position(old(belonging_process).maternity(), thread),
                )
            } else {
                old(belonging_process).maternity()
            }),
            final(sched)@ == (if r is Ok {
                old(sched)@.enqueue(thread)
            } else {
                old(sched)@
            }),
            final(belonging_process).spec_state() == old(belonging_process).spec_state(),
            final(belonging_process).signaled() == old(belonging_process).signaled(),
            final(belonging_process).waiters() == old(belonging_process).waiters(),
            final(belonging_process).threads@ == old(belonging_process).threads@,
            final(belonging_process).unchanged_but_state(old(belonging_process)),
    {
        if belonging_process.state.state == ProcessState::Exited {
            // the process was killed: the thread is not started
            return Err(KernelError::ProcessKilled);
        }
        let mut cradle: usize = 0;
        while cradle < belonging_process.state.thread_maternity.len()
            && belonging_process.state.thread_maternity[cradle] != thread
            invariant
                cradle <= belonging_process.maternity().len(),
                forall|j: int| 0 <= j < cradle ==> belonging_process.maternity()[j] != thread,
            decreases belonging_process.maternity().len() - cradle,
        {
            cradle = cradle + 1;
        }
        proof {
            lemma_position(belonging_process.maternity(), thread, cradle as int);
            lemma_enqueue(sched@, thread);
        }
        if cradle == belonging_process.state.thread_maternity.len() {
            // not in the maternity: the thread was started before
            Err(KernelError::InvalidState)
        } else {
            // out of the maternity, onto the schedule queue
            let baby: usize = belonging_process.state.thread_maternity.remove(cradle);
            sched.add_to_schedule_queue(baby);
            proof {
                assert(old(belonging_process).maternity()[cradle as int] == thread);
                assert forall|i: int| 0 <= i < belonging_process.maternity().len() implies (
                #[trigger] belonging_process.maternity()[i]) < sched@.threads.len() by {
                    let k = if i < cradle { i } else { i + 1 };
                    assert(old(belonging_process).maternity()[k] < old(sched)@.threads.len());
                }
                lemma_inv_stable(old(belonging_process), old(sched)@, sched@);
            }
            Ok(())
        }
    }

    /// Starts a thread: it leaves the maternity of its process and is put
    /// on the schedule queue.
    ///
    /// Fails with `InvalidState` when the thread is gone or not in the
    /// maternity, which means it was started before, and with
    /// `ProcessKilled` when the process has exited.
    pub fn start(this: ThreadRef, belonging_process: &mut ProcessStruct, sched: &mut Scheduler) -> (r:
        Result<(), KernelError>)
        requires
            old(belonging_process).inv(old(sched)@),
            old(sched)@.wf(),
        ensures
            final(belonging_process).inv(final(sched)@),
            final(sched)@.wf(),
            old(sched)@.evolves_to(final(sched)@),
            r == (if !old(sched)@.alive(this.thread) {
                Err::<(), KernelError>(KernelError::InvalidState)
            } else if old(belonging_process).spec_state() == ProcessState::Exited {
                Err::<(), KernelError>(KernelError::ProcessKilled)
            } else if !listed(old(belonging_process).maternity(), this.thread) {
                Err::<(), KernelError>(KernelError::InvalidState)
            } else {
                Ok::<(), KernelError>(())
            }),
            final(belonging_process).maternity() == (if r is Ok {
                old(belonging_process).maternity().remove(
                    position(old(belonging_process).maternity(), this.thread),
                )
            } else {
                old(belonging_process).maternity()
            }),
            final(sched)@ == (if r is Ok {
                old(sched)@.enqueue(this.thread)
            } else {
                old(sched)@
            }),
            final(belonging_process).spec_state() == old(belonging_process).spec_state(),
            final(belonging_process).signaled() == old(belonging_process).signaled(),
            final(belonging_process).waiters() == old(belonging_process).waiters(),
            final(belonging_process).threads@ == old(belonging_process).threads@,
            final(belonging_process).unchanged_but_state(old(belonging_process)),
    {
        if sched.get_thread(this.thread).is_none() {
            // the thread was dropped: it has been killed already
            return Err(KernelError::InvalidState);
        }
        Self::start_locked(this.thread, belonging_process, sched)
    }

    /// Tells a thread to exit. The thread is queued once more, whatever it
    /// was waiting for, and leaves when it next is about to return to
    /// userspace. Nothing happens to a thread that was told before.
    pub fn exit(this: usize, sched: &mut Scheduler)
        requires
            old(sched)@.wf(),
        ensures
            final(sched)@.wf(),
            final(sched)@ == old(sched)@.exit(this),
            old(sched)@.evolves_to(final(sched)@),
    {
        sched.exit_thread(this);
    }
}

impl ThreadStruct {
    /// Creates the very first process and its thread at boot: the process is
    /// started and has this one thread, which is running and current.
    pub fn create_first_thread(
        pids: &mut PidAllocator,
        sched: &mut Scheduler,
        resources: ThreadResources,
    ) -> (r: (ProcessStruct, usize))
        requires
            old(pids).next_pid() < usize::MAX,
            old(sched)@.wf(),
            old(sched)@.current is None,
            old(sched)@.threads.len() < usize::MAX,
        ensures
            final(pids).next_pid() == old(pids).next_pid() + 1,
            final(sched)@.wf(),
            old(sched)@.evolves_to(final(sched)@),
            r.0.inv(final(sched)@),
            r.1 == old(sched)@.threads.len(),
            r.0.pid == old(pids).next_pid(),
            r.0.name@ == seq![0x69u8, 0x6eu8, 0x69u8, 0x74u8],
            r.0.entrypoint == VirtualAddress(0),
            r.0.pmemory@ == Seq::<Mapping>::empty(),
            r.0.phandles@ == Map::<u32, Handle>::empty(),
            r.0.phandles.next_id() == 1,
            r.0.threads@ == seq![r.1],
            r.0.maternity() == Seq::<usize>::empty(),
            r.0.waiters() == Seq::<usize>::empty(),
            !r.0.signaled(),
            r.0.spec_state() == ProcessState::Started,
            r.0.capabilities.masks() == default_masks(),
            r.0.capabilities.declared() == Seq::<Capability>::empty(),
            final(sched)@ == (SchedulerView {
                threads: old(sched)@.threads.push(
                    Some(
                        ThreadStruct {
                            state: ThreadState::Running,
                            ..new_thread(
                                r.0.pid,
                                VirtualAddress(0),
                                VirtualAddress(0),
                                0,
                                0,
                                resources,
                            )
                        },
                    ),
                ),
                current: Some(r.1),
                ..old(sched)@
            }),
    {
        // first create the process the thread will belong to
        let pid: usize = pids.allocate();
        let mut name: Vec<u8> = Vec::new();
        name.push(0x69);
        name.push(0x6e);
        name.push(0x69);
        name.push(0x74);
        let mut process = ProcessStruct {
            pid,
            name,
            entrypoint: VirtualAddress(0),
            pmemory: ProcessMemory::new(),
            threads: Vec::new(),
            phandles: HandleTable::new(),
            state: ProcessStateData {
                signaled: false,
                state: ProcessState::Started,
                waiting_threads: Vec::new(),
                thread_maternity: Vec::new(),
            },
            capabilities: ProcessCapabilities::default_capabilities(),
        };
        // the thread is the one that is running right now
        let t = ThreadStruct {
            state: ThreadState::Running,
            kstack: resources.kstack,
            hwcontext: ThreadHardwareContext {
                entry_point: 0,
                argument: 0,
                thread_handle: 0,
                stack_pointer: 0,
            },
            process: ProcessRef { pid },
            tls_region: resources.tls_region,
            tls_elf: VirtualAddress(0x00000000),
        };
        let id: usize = sched.adopt_running(t);
        // the first process now has one thread
        process.threads.push(id);
        proof {
            assert(process.name@ =~= seq![0x69u8, 0x6eu8, 0x69u8, 0x74u8]);
            assert(process.threads@ =~= seq![id]);
        }
        (process, id)
    }
}

/// What creating a thread comes to.
pub open spec fn thread_created(
    before: &ProcessStruct,
    sched_before: SchedulerView,
    ep: VirtualAddress,
    stack: VirtualAddress,
    arg: Option<usize>,
    resources: ThreadResources,
    after: &ProcessStruct,
    sched_after: SchedulerView,
    r: Result<ThreadRef, KernelError>,
) -> bool {
    let id = sched_before.threads.len() as usize;
    let handle = add_handle_result(before.phandles.next_id());
    let with_handle = before.phandles@.insert(
        before.phandles.next_id() as u32,
        Handle::Thread(ThreadRef { thread: id }),
    );
    &&& after.pid == before.pid
    &&& after.name@ == before.name@
    &&& after.entrypoint == before.entrypoint
    &&& after.pmemory@ == before.pmemory@
    &&& after.capabilities.masks() == before.capabilities.masks()
    &&& after.capabilities.declared() == before.capabilities.declared()
    &&& after.spec_state() == before.spec_state()
    &&& after.signaled() == before.signaled()
    &&& after.waiters() == before.waiters()
    &&& if arg is None && handle is Err {
        &&& r == Err::<ThreadRef, KernelError>(handle->Err_0)
        &&& after.phandles@ == before.phandles@
        &&& after.phandles.next_id() == before.phandles.next_id()
        &&& after.threads@ == before.threads@
        &&& after.maternity() == before.maternity()
        &&& sched_after == sched_before
    } else {
        &&& after.phandles@ == (if arg is None {
            with_handle
        } else {
            before.phandles@
        })
        &&& after.phandles.next_id() == before.phandles.next_id() + (if arg is None {
            1int
        } else {
            0int
        })
        &&& if before.spec_state() == ProcessState::Exited {
            &&& r == Err::<ThreadRef, KernelError>(KernelError::ProcessKilled)
            &&& after.threads@ == before.threads@
            &&& after.maternity() == before.maternity()
            &&& sched_after == sched_before
        } else {
            &&& r == Ok::<ThreadRef, KernelError>(ThreadRef { thread: id })
            &&& after.threads@ == before.threads@.push(id)
            &&& after.maternity() == before.maternity().push(id)
            &&& sched_after == sched_before.spawned(
                new_thread(
                    before.pid,
                    ep,
                    stack,
                    if arg is Some { arg->Some_0 } else { 0 },
                    if arg is Some { 0 } else { handle->Ok_0 as usize },
                    resources,
                ),
            )
        }
    }
}

/// Once a process has exited, none of its threads can be scheduled to run
/// user code again, whatever happens to the thread table: the maternity
/// stays empty, and every thread of the process that is left has its
/// termination pending.
pub proof fn law_exited_process_has_no_schedulable_thread(
    p: &ProcessStruct,
    at_exit: SchedulerView,
    later: SchedulerView,
)
    requires
        p.inv(at_exit),
        p.spec_state() == ProcessState::Exited,
        at_exit.evolves_to(later),
    ensures
        p.maternity().len() == 0,
        forall|i: int|
            0 <= i < p.threads@.len() && later.alive(#[trigger] p.threads@[i]) ==> later.thread(
                p.threads@[i],
            ).state == ThreadState::TerminationPending,
{
    lemma_inv_stable(p, at_exit, later);
}

/// A thread that was created is kept by the maternity of its process until
/// it is started: it exists, it is paused, and it is in the maternity.
pub proof fn law_created_thread_is_in_maternity(
    before: &ProcessStruct,
    sched_before: SchedulerView,
    ep: VirtualAddress,
    stack: VirtualAddress,
    arg: Option<usize>,
    resources: ThreadResources,
    after: &ProcessStruct,
    sched_after: SchedulerView,
    r: Result<ThreadRef, KernelError>,
)
    requires
        sched_before.threads.len() < usize::MAX,
        thread_created(before, sched_before, ep, stack, arg, resources, after, sched_after, r),
        r is Ok,
    ensures
        listed(after.maternity(), r->Ok_0.thread),
        sched_after.alive(r->Ok_0.thread),
        sched_after.thread(r->Ok_0.thread).state == ThreadState::Paused,
        sched_after.thread(r->Ok_0.thread).process == (ProcessRef { pid: before.pid }),
{
    assert(after.maternity()[before.maternity().len() as int] == r->Ok_0.thread);
    assert(sched_after.threads[sched_before.threads.len() as int] is Some);
}

/// What is owed when a thread is created. Unless the process has exited, or
/// the thread is a main thread and the handle table has no number left for
/// its handle, the creation succeeds: the new thread is paused, the
/// maternity of the process holds it, and the list of threads of the
/// process names it. For a process that has exited the creation fails with
/// `ProcessKilled`, and maternity, threads and scheduler are as before. A
/// main thread, which is created without an argument, adds one handle to
/// itself to the table of the process, whether the process has exited or
/// not.
pub proof fn law_thread_creation_outcome(
    before: &ProcessStruct,
    sched_before: SchedulerView,
    ep: VirtualAddress,
    stack: VirtualAddress,
    arg: Option<usize>,
    resources: ThreadResources,
    after: &ProcessStruct,
    sched_after: SchedulerView,
    r: Result<ThreadRef, KernelError>,
)
    requires
        sched_before.threads.len() < usize::MAX,
        thread_created(before, sched_before, ep, stack, arg, resources, after, sched_after, r),
        arg is Some || add_handle_result(before.phandles.next_id()) is Ok,
    ensures
        r is Ok <==> before.spec_state() != ProcessState::Exited,
        r is Err ==> r->Err_0 == KernelError::ProcessKilled && after.maternity() == before.maternity()
            && after.threads@ == before.threads@ && sched_after == sched_before,
        r is Ok ==> {
            let id = r->Ok_0.thread;
            &&& id == sched_before.threads.len()
            &&& after.maternity() == before.maternity().push(id)
            &&& after.threads@ == before.threads@.push(id)
            &&& listed(after.maternity(), id)
            &&& sched_after.alive(id)
            &&& sched_after.thread(id).state == ThreadState::Paused
            &&& sched_after.queue == sched_before.queue
            &&& sched_after.current == sched_before.current
        },
        arg is None ==> after.phandles@ == before.phandles@.insert(
            before.phandles.next_id() as u32,
            Handle::Thread(ThreadRef { thread: sched_before.threads.len() as usize }),
        ),
        arg is Some ==> after.phandles@ == before.phandles@,
{
    if r is Ok {
        assert(after.maternity()[before.maternity().len() as int] == r->Ok_0.thread);
        assert(sched_after.threads[sched_before.threads.len() as int] is Some);
    }
}

/// A thread that was started is held by the scheduler: it is on the
/// schedule queue, or it is the one on the CPU.
pub proof fn law_started_thread_is_scheduled(sched: SchedulerView, id: usize)
    requires
        sched.wf(),
        sched.alive(id),
    ensures
        sched.enqueue(id).queued(id) || sched.enqueue(id).current == Some(id),
{
    lemma_enqueue(sched, id);
}

/// A process whose signal was cleared is signaled again only by a change of
/// its state: starting it raises the signal only together with the step
/// from created to started, and a failed start leaves the signal as it was.
pub proof fn law_start_signals_with_state_change(
    before: &ProcessStruct,
    sched_before: SchedulerView,
    stack_size: usize,
    resources: ThreadResources,
    after: &ProcessStruct,
    sched_after: SchedulerView,
    r: Result<(), UserspaceError>,
)
    requires
        process_started(before, sched_before, stack_size, resources, after, sched_after, r),
        !before.signaled(),
    ensures
        after.signaled() <==> r is Ok,
        after.signaled() ==> after.spec_state() != before.spec_state(),
        !after.signaled() ==> after.spec_state() == before.spec_state(),
{
}

/// Killing a process that has not exited changes its state and signals it;
/// once a process has exited it stays signaled, whatever is tried to clear
/// the signal.
pub proof fn law_kill_signals_with_state_change(
    before: &ProcessStruct,
    sched_before: SchedulerView,
    after: &ProcessStruct,
    sched_after: SchedulerView,
)
    requires
        process_killed(before, sched_before, after, sched_after),
        before.spec_state() != ProcessState::Exited,
    ensures
        after.signaled(),
        after.spec_state() != before.spec_state(),
        after.spec_state() == ProcessState::Exited,
{
}

/// What holds of a process and the scheduler keeps holding while the
/// thread table takes its steps.
pub proof fn lemma_inv_stable(p: &ProcessStruct, before: SchedulerView, after: SchedulerView)
    requires
        p.inv(before),
        before.evolves_to(after),
    ensures
        p.inv(after),
{
    if p.spec_state() == ProcessState::Exited {
        assert forall|i: int|
            0 <= i < p.threads@.len() && after.alive(#[trigger] p.threads@[i]) implies after.thread(
            p.threads@[i],
        ).state == ThreadState::TerminationPending by {
            assert(before.alive(p.threads@[i]));
        }
    }
}

} // verus!
