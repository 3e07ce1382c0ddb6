//! Threads and the queue of those that wait for the CPU.
//!
//! There is one CPU: at most one thread is running, the others are queued,
//! paused on something, or on their way out.

use crate::handle::ProcessRef;
use crate::handle::ThreadRef;
use crate::mem::VirtualAddress;
use vstd::prelude::*;

verus! {

/// The state of a thread.
#[derive(Copy, Clone, Debug, PartialEq, Eq, Structural)]
pub enum ThreadState {
    /// Not queued: waiting for an event, or never started.
    Paused,
    /// On the CPU.
    Running,
    /// Dying: the thread leaves at the next kernel boundary.
    TerminationPending,
    /// Queued for the CPU.
    Scheduled,
}

impl ThreadState {
    /// The number a state is stored as.
    pub open spec fn primitive(&self) -> int {
        match *self {
            ThreadState::Paused => 1,
            ThreadState::Running => 2,
            ThreadState::TerminationPending => 3,
            ThreadState::Scheduled => 4,
        }
    }

    /// The state a stored number stands for.
    pub fn from_primitive(v: usize) -> (state: ThreadState)
        requires
            1 <= v <= 4,
        ensures
            state.primitive() == v,
    {
        if v == 1 {
            ThreadState::Paused
        } else if v == 2 {
            ThreadState::Running
        } else if v == 3 {
            ThreadState::TerminationPending
        } else {
            ThreadState::Scheduled
        }
    }

    /// The number a state is stored as.
    pub fn to_primitive(&self) -> (v: usize)
        ensures
            v == self.primitive(),
    {
        match *self {
            ThreadState::Paused => 1,
            ThreadState::Running => 2,
            ThreadState::TerminationPending => 3,
            ThreadState::Scheduled => 4,
        }
    }
}

/// The kernel stack a thread handles system calls and interrupts on.
#[derive(Copy, Clone, Debug, PartialEq, Eq, Structural)]
pub struct KernelStack {
    /// The address of the stack.
    pub address: usize,
}

/// What a thread starts with the first time it is given the CPU.
#[derive(Copy, Clone, Debug, PartialEq, Eq, Structural)]
pub struct ThreadHardwareContext {
    /// The address execution starts at.
    pub entry_point: usize,
    /// The argument userspace asked to hand to the entry point.
    pub argument: usize,
    /// The handle to the thread itself, handed to a main thread.
    pub thread_handle: usize,
    /// The top of the userspace stack.
    pub stack_pointer: usize,
}

/// What a thread needs from outside before it can be created.
#[derive(Copy, Clone, Debug, PartialEq, Eq, Structural)]
pub struct ThreadResources {
    /// The kernel stack allocated for the thread.
    pub kstack: KernelStack,
    /// The thread-local storage block allocated for the thread.
    pub tls_region: VirtualAddress,
}

/// A thread.
#[derive(Copy, Clone, Debug, PartialEq, Eq, Structural)]
pub struct ThreadStruct {
    /// The state of the thread.
    pub state: ThreadState,
    /// The kernel stack of the thread.
    pub kstack: KernelStack,
    /// What the thread starts with on its first run.
    pub hwcontext: ThreadHardwareContext,
    /// The process the thread belongs to.
    pub process: ProcessRef,
    /// The thread-local storage block of the thread.
    pub tls_region: VirtualAddress,
    /// The thread pointer userspace has set.
    pub tls_elf: VirtualAddress,
}

/// A thread that waits for another thread to exit.
#[derive(Copy, Clone, Debug, PartialEq, Eq, Structural)]
pub struct ExitWaiter {
    /// The thread whose exit is awaited.
    pub awaited: usize,
    /// The thread that waits.
    pub waiter: usize,
}

/// What the scheduler knows, as plain values.
pub struct SchedulerView {
    /// The thread table: slot by slot, the thread or nothing.
    pub threads: Seq<Option<ThreadStruct>>,
    /// The threads queued for the CPU, the next one first.
    pub queue: Seq<usize>,
    /// The thread on the CPU.
    pub current: Option<usize>,
    /// The threads that wait for other threads to exit, in the order in
    /// which they registered.
    pub exit_waiters: Seq<ExitWaiter>,
}

/// Whether a thread sits in a list of threads.
pub open spec fn listed(list: Seq<usize>, id: usize) -> bool {
    exists|i: int| 0 <= i < list.len() && #[trigger] list[i] == id
}

/// The state a thread has once it was put on the schedule queue.
pub open spec fn queued_state(state: ThreadState) -> ThreadState {
    if state == ThreadState::Paused {
        ThreadState::Scheduled
    } else {
        state
    }
}

/// The threads registered as waiting for `id` to exit, in the order in which
/// they registered.
pub open spec fn waiting_for(list: Seq<ExitWaiter>, id: usize) -> Seq<usize>
    decreases list.len(),
{
    if list.len() == 0 {
        Seq::<usize>::empty()
    } else if list.last().awaited == id {
        waiting_for(list.drop_last(), id).push(list.last().waiter)
    } else {
        waiting_for(list.drop_last(), id)
    }
}

/// The registrations that wait for a thread other than `id`.
pub open spec fn waiting_for_others(list: Seq<ExitWaiter>, id: usize) -> Seq<ExitWaiter>
    decreases list.len(),
{
    if list.len() == 0 {
        Seq::<ExitWaiter>::empty()
    } else if list.last().awaited == id {
        waiting_for_others(list.drop_last(), id)
    } else {
        waiting_for_others(list.drop_last(), id).push(list.last())
    }
}

impl SchedulerView {
    /// Whether a slot holds a thread.
    pub open spec fn alive(self, id: usize) -> bool {
        id < self.threads.len() && self.threads[id as int] is Some
    }

    /// The thread in a slot.
    pub open spec fn thread(self, id: usize) -> ThreadStruct {
        self.threads[id as int]->Some_0
    }

    /// Whether a thread is on the schedule queue.
    pub open spec fn queued(self, id: usize) -> bool {
        listed(self.queue, id)
    }

    /// The queue and the states of the threads agree: queued threads exist,
    /// are queued once, and are not on the CPU; a thread that is scheduled
    /// is queued, a thread that is running is the current one.
    pub open spec fn wf(self) -> bool {
        &&& forall|i: int| 0 <= i < self.queue.len() ==> self.alive(#[trigger] self.queue[i])
        &&& forall|i: int, j: int| 0 <= i < j < self.queue.len() ==> self.queue[i] != self.queue[j]
        &&& self.current is Some ==> self.alive(self.current->Some_0) && !self.queued(
            self.current->Some_0,
        )
        &&& forall|id: usize|
            self.alive(id) && (#[trigger] self.thread(id)).state == ThreadState::Scheduled
                ==> self.queued(id)
        &&& forall|id: usize|
            self.alive(id) && (#[trigger] self.thread(id)).state == ThreadState::Running
                ==> self.current == Some(id)
    }

    /// What can happen to the thread table over time: slots are added, a
    /// thread may be dropped from its slot, a dropped thread never comes
    /// back, a thread never changes its process, and a thread whose
    /// termination is pending stays so.
    pub open spec fn evolves_to(self, later: SchedulerView) -> bool {
        &&& self.threads.len() <= later.threads.len()
        &&& forall|id: usize|
            id < self.threads.len() && #[trigger] later.alive(id) ==> {
                &&& self.alive(id)
                &&& later.thread(id).process == self.thread(id).process
                &&& self.thread(id).state == ThreadState::TerminationPending ==> later.thread(
                    id,
                ).state == ThreadState::TerminationPending
            }
    }

    /// The scheduler after a new thread got the next slot.
    pub open spec fn spawned(self, thread: ThreadStruct) -> SchedulerView {
        SchedulerView { threads: self.threads.push(Some(thread)), ..self }
    }

    /// The scheduler with the state of one thread changed.
    pub open spec fn with_state(self, id: usize, state: ThreadState) -> SchedulerView {
        SchedulerView {
            threads: self.threads.update(id as int, Some(ThreadStruct { state, ..self.thread(id) })),
            ..self
        }
    }

    /// The scheduler after a thread was put on the schedule queue: a thread
    /// that is queued already, on the CPU, or gone is left alone; any other
    /// goes to the end of the queue, and becomes scheduled if it was
    /// paused.
    pub open spec fn enqueue(self, id: usize) -> SchedulerView {
        if !self.alive(id) || self.queued(id) || self.current == Some(id) {
            self
        } else {
            SchedulerView {
                queue: self.queue.push(id),
                ..self.with_state(id, queued_state(self.thread(id).state))
            }
        }
    }

    /// The scheduler after the threads of a list were put on the schedule
    /// queue, the last of the list first.
    pub open spec fn wake_all(self, ids: Seq<usize>) -> SchedulerView
        decreases ids.len(),
    {
        if ids.len() == 0 {
            self
        } else {
            self.enqueue(ids.last()).wake_all(ids.drop_last())
        }
    }

    /// The scheduler after a thread was told to exit. A thread that is gone
    /// or on its way out already changes nothing. Otherwise its termination
    /// becomes pending, the threads that wait for its exit are woken, the
    /// one that registered last first, and the thread itself is queued so
    /// that it can leave.
    pub open spec fn exit(self, id: usize) -> SchedulerView {
        if !self.alive(id) || self.thread(id).state == ThreadState::TerminationPending {
            self
        } else {
            (SchedulerView {
                exit_waiters: waiting_for_others(self.exit_waiters, id),
                ..self.with_state(id, ThreadState::TerminationPending)
            }).wake_all(waiting_for(self.exit_waiters, id)).enqueue(id)
        }
    }

    /// The scheduler after the current thread gave up the CPU: a running
    /// thread becomes paused, and no thread is current.
    pub open spec fn suspend(self) -> SchedulerView {
        let id = self.current->Some_0;
        SchedulerView {
            current: None,
            ..(if self.thread(id).state == ThreadState::Running {
                self.with_state(id, ThreadState::Paused)
            } else {
                self
            })
        }
    }

    /// The scheduler after the next thread was given the CPU: threads on
    /// their way out are taken off the queue until one is found that can
    /// run.
    pub open spec fn pick_next(self) -> SchedulerView
        decreases self.queue.len(),
    {
        if self.queue.len() == 0 {
            self
        } else {
            let id = self.queue[0];
            let rest = SchedulerView { queue: self.queue.subrange(1, self.queue.len() as int), ..self };
            if !self.alive(id) || self.thread(id).state == ThreadState::TerminationPending {
                rest.pick_next()
            } else {
                SchedulerView { current: Some(id), ..rest.with_state(id, ThreadState::Running) }
            }
        }
    }
}

/// Over time is over time: what evolves in two steps evolves.
pub proof fn lemma_evolves_trans(a: SchedulerView, b: SchedulerView, c: SchedulerView)
    requires
        a.evolves_to(b),
        b.evolves_to(c),
    ensures
        a.evolves_to(c),
{
    assert forall|id: usize| id < a.threads.len() && #[trigger] c.alive(id) implies {
        &&& a.alive(id)
        &&& c.thread(id).process == a.thread(id).process
        &&& a.thread(id).state == ThreadState::TerminationPending ==> c.thread(id).state
            == ThreadState::TerminationPending
    } by {
        assert(b.alive(id));
    }
}

/// Changing the state of a live thread, other than bringing it back from
/// pending termination, is a step the thread table can take.
pub proof fn lemma_with_state_evolves(s: SchedulerView, id: usize, state: ThreadState)
    requires
        s.alive(id),
        s.thread(id).state == ThreadState::TerminationPending ==> state
            == ThreadState::TerminationPending,
    ensures
        s.evolves_to(s.with_state(id, state)),
        s.with_state(id, state).threads.len() == s.threads.len(),
        forall|t: usize| s.with_state(id, state).alive(t) == s.alive(t),
        forall|t: usize| s.alive(t) && t != id ==> s.with_state(id, state).thread(t) == s.thread(t),
        s.with_state(id, state).thread(id).state == state,
        s.with_state(id, state).thread(id).process == s.thread(id).process,
{
}

/// Queueing a thread keeps the scheduler well-formed and is a step the
/// thread table can take.
pub proof fn lemma_enqueue(s: SchedulerView, id: usize)
    requires
        s.wf(),
    ensures
        s.enqueue(id).wf(),
        s.evolves_to(s.enqueue(id)),
        s.enqueue(id).threads.len() == s.threads.len(),
        s.enqueue(id).current == s.current,
        s.enqueue(id).exit_waiters == s.exit_waiters,
        forall|t: usize| s.enqueue(id).alive(t) == s.alive(t),
        forall|t: usize| s.queued(t) ==> s.enqueue(id).queued(t),
        forall|t: usize|
            s.alive(t) ==> (#[trigger] s.enqueue(id).thread(t)).state == s.thread(t).state || (s.thread(
                t,
            ).state == ThreadState::Paused && s.enqueue(id).thread(t).state
                == ThreadState::Scheduled),
        forall|t: usize| s.alive(t) ==> (#[trigger] s.enqueue(id).thread(t)).process == s.thread(t).process,
        s.alive(id) ==> s.enqueue(id).queued(id) || s.current == Some(id),
{
    let e = s.enqueue(id);
    if s.alive(id) && !s.queued(id) && s.current != Some(id) {
        let n = s.queue.len() as int;
        assert(e.queue[n] == id);
        assert forall|t: usize| s.queued(t) implies e.queued(t) by {
            let i = choose|i: int| 0 <= i < s.queue.len() && s.queue[i] == t;
            assert(e.queue[i] == t);
        }
        assert forall|t: usize| e.queued(t) && t != id implies s.queued(t) by {
            let i = choose|i: int| 0 <= i < e.queue.len() && e.queue[i] == t;
            assert(s.queue[i] == t);
        }
        assert(s.thread(id).state != ThreadState::Scheduled);
        assert(s.thread(id).state != ThreadState::Running);
        assert forall|i: int| 0 <= i < e.queue.len() implies e.alive(#[trigger] e.queue[i]) by {
            if i < n {
                assert(s.alive(s.queue[i]));
            }
        }
        assert forall|i: int, j: int| 0 <= i < j < e.queue.len() implies e.queue[i] != e.queue[j] by {
            if j == n {
                assert(s.queue[i] != id);
            }
        }
        assert forall|t: usize|
            e.alive(t) && (#[trigger] e.thread(t)).state == ThreadState::Scheduled implies e.queued(
            t,
        ) by {
            if t != id {
                assert(s.thread(t).state == ThreadState::Scheduled);
            }
        }
        assert forall|t: usize|
            e.alive(t) && (#[trigger] e.thread(t)).state == ThreadState::Running implies e.current
            == Some(t) by {
            if t != id {
                assert(s.thread(t).state == ThreadState::Running);
            }
        }
        if s.current is Some {
            let c = s.current->Some_0;
            if e.queued(c) {
                assert(s.queued(c));
            }
        }
    }
}

/// Waking a list of threads keeps the scheduler well-formed and is a step
/// the thread table can take.
pub proof fn lemma_wake_all(s: SchedulerView, ids: Seq<usize>)
    requires
        s.wf(),
    ensures
        s.wake_all(ids).wf(),
        s.evolves_to(s.wake_all(ids)),
        s.wake_all(ids).threads.len() == s.threads.len(),
        s.wake_all(ids).current == s.current,
        s.wake_all(ids).exit_waiters == s.exit_waiters,
        forall|t: usize| s.wake_all(ids).alive(t) == s.alive(t),
        forall|t: usize| s.queued(t) ==> s.wake_all(ids).queued(t),
        forall|t: usize|
            s.alive(t) ==> (#[trigger] s.wake_all(ids).thread(t)).state == s.thread(t).state || (
            s.thread(t).state == ThreadState::Paused && s.wake_all(ids).thread(t).state
                == ThreadState::Scheduled),
        forall|t: usize|
            s.alive(t) ==> (#[trigger] s.wake_all(ids).thread(t)).process == s.thread(t).process,
        forall|i: int|
            0 <= i < ids.len() && s.alive(#[trigger] ids[i]) ==> s.wake_all(ids).queued(ids[i])
                || s.current == Some(ids[i]),
    decreases ids.len(),
{
    if ids.len() > 0 {
        let first = s.enqueue(ids.last());
        lemma_enqueue(s, ids.last());
        lemma_wake_all(first, ids.drop_last());
        lemma_evolves_trans(s, first, s.wake_all(ids));
        let w = s.wake_all(ids);
        assert forall|t: usize| s.alive(t) implies (#[trigger] w.thread(t)).state == s.thread(t).state
            || (s.thread(t).state == ThreadState::Paused && w.thread(t).state
            == ThreadState::Scheduled) by {
            assert(first.alive(t));
            let mid = first.thread(t);
        }
        assert forall|t: usize| s.alive(t) implies (#[trigger] w.thread(t)).process == s.thread(
            t,
        ).process by {
            assert(first.alive(t));
            let mid = first.thread(t);
        }
        assert forall|i: int| 0 <= i < ids.len() && s.alive(#[trigger] ids[i]) implies w.queued(ids[i])
            || s.current == Some(ids[i]) by {
            if i < ids.len() - 1 {
                assert(ids.drop_last()[i] == ids[i]);
                assert(first.alive(ids.drop_last()[i]));
            } else {
                assert(ids[i] == ids.last());
            }
        }
    }
}

/// Telling a thread to exit keeps the scheduler well-formed, is a step the
/// thread table can take, and leaves the thread with its termination
/// pending.
pub proof fn lemma_exit(s: SchedulerView, id: usize)
    requires
        s.wf(),
    ensures
        s.exit(id).wf(),
        s.evolves_to(s.exit(id)),
        s.exit(id).threads.len() == s.threads.len(),
        s.exit(id).current == s.current,
        forall|t: usize| s.exit(id).alive(t) == s.alive(t),
        s.alive(id) ==> s.exit(id).thread(id).state == ThreadState::TerminationPending,
        forall|t: usize| s.alive(t) ==> (#[trigger] s.exit(id).thread(t)).process == s.thread(t).process,
        forall|t: usize| s.queued(t) ==> s.exit(id).queued(t),
{
    if s.alive(id) && s.thread(id).state != ThreadState::TerminationPending {
        let marked = SchedulerView {
            exit_waiters: waiting_for_others(s.exit_waiters, id),
            ..s.with_state(id, ThreadState::TerminationPending)
        };
        lemma_with_state_evolves(s, id, ThreadState::TerminationPending);
        assert(marked.wf()) by {
            assert forall|i: int| 0 <= i < marked.queue.len() implies marked.alive(
                #[trigger] marked.queue[i],
            ) by {
                assert(s.alive(s.queue[i]));
            }
            assert forall|t: usize|
                marked.alive(t) && (#[trigger] marked.thread(t)).state
                    == ThreadState::Scheduled implies marked.queued(t) by {
                assert(s.thread(t).state == ThreadState::Scheduled);
            }
            assert forall|t: usize|
                marked.alive(t) && (#[trigger] marked.thread(t)).state
                    == ThreadState::Running implies marked.current == Some(t) by {
                assert(s.thread(t).state == ThreadState::Running);
            }
        }
        assert(s.evolves_to(marked));
        let woken = marked.wake_all(waiting_for(s.exit_waiters, id));
        lemma_wake_all(marked, waiting_for(s.exit_waiters, id));
        lemma_enqueue(woken, id);
        lemma_evolves_trans(s, marked, woken);
        lemma_evolves_trans(s, woken, s.exit(id));
        let e = s.exit(id);
        assert(marked.alive(id));
        assert(woken.thread(id).state == ThreadState::TerminationPending);
        assert(e.thread(id).state == ThreadState::TerminationPending);
        assert forall|t: usize| s.alive(t) implies (#[trigger] e.thread(t)).process == s.thread(
            t,
        ).process by {
            assert(marked.alive(t));
            assert(woken.alive(t));
            let a = marked.thread(t);
            let b = woken.thread(t);
        }
        assert forall|t: usize| s.queued(t) implies e.queued(t) by {
            assert(marked.queued(t));
            assert(woken.queued(t));
        }
    }
}

/// Giving up the CPU keeps the scheduler well-formed and is a step the
/// thread table can take.
pub proof fn lemma_suspend(s: SchedulerView)
    requires
        s.wf(),
        s.current is Some,
    ensures
        s.suspend().wf(),
        s.evolves_to(s.suspend()),
        s.suspend().queue == s.queue,
{
    let id = s.current->Some_0;
    let e = s.suspend();
    assert forall|i: int| 0 <= i < e.queue.len() implies e.alive(#[trigger] e.queue[i]) by {
        assert(s.alive(s.queue[i]));
    }
    assert forall|t: usize|
        e.alive(t) && (#[trigger] e.thread(t)).state == ThreadState::Scheduled implies e.queued(t) by {
        assert(s.thread(t).state == ThreadState::Scheduled);
    }
    assert forall|t: usize|
        e.alive(t) && (#[trigger] e.thread(t)).state == ThreadState::Running implies e.current
        == Some(t) by {
        if t != id {
            assert(s.thread(t).state == ThreadState::Running);
        }
    }
}

/// Picking the next thread keeps the scheduler well-formed and is a step
/// the thread table can take.
pub proof fn lemma_pick_next(s: SchedulerView)
    requires
        s.wf(),
        s.current is None,
    ensures
        s.pick_next().wf(),
        s.evolves_to(s.pick_next()),
        s.pick_next().threads.len() == s.threads.len(),
        s.pick_next().exit_waiters == s.exit_waiters,
        s.pick_next().current is Some ==> s.queued(s.pick_next().current->Some_0) && s.pick_next().thread(
            s.pick_next().current->Some_0,
        ).state == ThreadState::Running,
        s.pick_next().current is None ==> s.pick_next().queue.len() == 0,
    decreases s.queue.len(),
{
    if s.queue.len() > 0 {
        let id = s.queue[0];
        let rest = SchedulerView { queue: s.queue.subrange(1, s.queue.len() as int), ..s };
        assert(s.alive(id));
        assert forall|t: usize| rest.queued(t) implies s.queued(t) && t != id by {
            let i = choose|i: int| 0 <= i < rest.queue.len() && rest.queue[i] == t;
            assert(s.queue[i + 1] == t);
        }
        assert forall|t: usize| s.queued(t) && t != id implies rest.queued(t) by {
            let i = choose|i: int| 0 <= i < s.queue.len() && s.queue[i] == t;
            assert(rest.queue[i - 1] == t);
        }
        assert forall|i: int| 0 <= i < rest.queue.len() implies rest.alive(#[trigger] rest.queue[i]) by {
            assert(s.alive(s.queue[i + 1]));
        }
        assert forall|i: int, j: int| 0 <= i < j < rest.queue.len() implies rest.queue[i]
            != rest.queue[j] by {
            assert(s.queue[i + 1] != s.queue[j + 1]);
        }
        if s.thread(id).state == ThreadState::TerminationPending {
            lemma_dropping_head(s);
            lemma_pick_next(rest);
            assert(s.evolves_to(rest));
            lemma_evolves_trans(s, rest, rest.pick_next());
            let p = rest.pick_next();
            if p.current is Some {
                assert(rest.queued(p.current->Some_0));
            }
        } else {
            let p = s.pick_next();
            lemma_with_state_evolves(rest, id, ThreadState::Running);
            assert(s.queue[0] == id);
            assert(s.queued(id));
            assert forall|i: int| 0 <= i < p.queue.len() implies p.alive(#[trigger] p.queue[i]) by {
                assert(rest.alive(rest.queue[i]));
            }
            assert forall|t: usize|
                p.alive(t) && (#[trigger] p.thread(t)).state == ThreadState::Scheduled implies p.queued(
                t,
            ) by {
                assert(t != id);
                assert(s.thread(t).state == ThreadState::Scheduled);
                assert(s.queued(t));
            }
            assert forall|t: usize|
                p.alive(t) && (#[trigger] p.thread(t)).state == ThreadState::Running implies p.current
                == Some(t) by {
                if t != id {
                    assert(s.thread(t).state == ThreadState::Running);
                }
            }
            assert(!p.queued(id)) by {
                if rest.queued(id) {
                }
            }
        }
    }
}

/// The thread table and the schedule queue.
///
/// A thread is named by its slot in the table. Slots are never reused: once
/// a thread is dropped its slot stays empty.
#[derive(Debug)]
pub struct Scheduler {
    threads: Vec<Option<ThreadStruct>>,
    queue: Vec<usize>,
    current: Option<usize>,
    exit_waiters: Vec<ExitWaiter>,
}

impl View for Scheduler {
    type V = SchedulerView;

    closed spec fn view(&self) -> SchedulerView {
        SchedulerView {
            threads: self.threads@,
            queue: self.queue@,
            current: self.current,
            exit_waiters: self.exit_waiters@,
        }
    }
}

impl Scheduler {
    /// A scheduler without threads.
    pub fn new() -> (s: Scheduler)
        ensures
            s@.wf(),
            s@.threads.len() == 0,
            s@.queue.len() == 0,
            s@.current is None,
            s@.exit_waiters.len() == 0,
    {
        Scheduler {
            threads: Vec::new(),
            queue: Vec::new(),
            current: None,
            exit_waiters: Vec::new(),
        }
    }

    /// The number of slots of the thread table.
    pub fn thread_count(&self) -> (n: usize)
        ensures
            n == self@.threads.len(),
    {
        self.threads.len()
    }

    /// The thread in a slot, if the slot holds one.
    pub fn get_thread(&self, id: usize) -> (t: Option<ThreadStruct>)
        ensures
            t == (if self@.alive(id) {
                Some(self@.thread(id))
            } else {
                None::<ThreadStruct>
            }),
    {
        if id < self.threads.len() {
            self.threads[id]
        } else {
            None
        }
    }

    /// The thread on the CPU.
    pub fn get_current_thread(&self) -> (t: Option<usize>)
        ensures
            t == self@.current,
    {
        self.current
    }

    /// Whether a thread is on the schedule queue.
    pub fn is_in_schedule_queue(&self, id: usize) -> (r: bool)
        ensures
            r == self@.queued(id),
    {
        let mut i: usize = 0;
        while i < self.queue.len()
            invariant
                i <= self@.queue.len(),
                forall|k: int| 0 <= k < i ==> self@.queue[k] != id,
            decreases self@.queue.len() - i,
        {
            if self.queue[i] == id {
                return true;
            }
            i = i + 1;
        }
        false
    }

    /// The threads on the schedule queue, the next one first.
    pub fn queued_threads(&self) -> (q: Vec<usize>)
        ensures
            q@ == self@.queue,
    {
        self.queue.clone()
    }

    /// Gives a new thread a slot. The thread is paused and not queued.
    pub fn spawn(&mut self, thread: ThreadStruct) -> (id: usize)
        requires
            old(self)@.wf(),
            old(self)@.threads.len() < usize::MAX,
            thread.state == ThreadState::Paused,
        ensures
            final(self)@.wf(),
            id == old(self)@.threads.len(),
            final(self)@ == old(self)@.spawned(thread),
            old(self)@.evolves_to(final(self)@),
    {
        let id: usize = self.threads.len();
        self.threads.push(Some(thread));
        proof {
            let s = old(self)@;
            let e = self@;
            assert forall|t: usize| e.alive(t) && t != id implies s.alive(t) && e.thread(t)
                == s.thread(t) by {}
            assert forall|i: int| 0 <= i < e.queue.len() implies e.alive(#[trigger] e.queue[i]) by {
                assert(s.alive(s.queue[i]));
            }
            assert forall|t: usize|
                e.alive(t) && (#[trigger] e.thread(t)).state
                    == ThreadState::Scheduled implies e.queued(t) by {
                assert(s.thread(t).state == ThreadState::Scheduled);
            }
            assert forall|t: usize|
                e.alive(t) && (#[trigger] e.thread(t)).state == ThreadState::Running implies e.current
                == Some(t) by {
                assert(s.thread(t).state == ThreadState::Running);
            }
        }
        id
    }

    /// Gives the thread that is already running at boot its slot and makes
    /// it the current thread.
    pub fn adopt_running(&mut self, thread: ThreadStruct) -> (id: usize)
        requires
            old(self)@.wf(),
            old(self)@.threads.len() < usize::MAX,
            old(self)@.current is None,
            thread.state == ThreadState::Running,
        ensures
            final(self)@.wf(),
            id == old(self)@.threads.len(),
            final(self)@ == (SchedulerView {
                threads: old(self)@.threads.push(Some(thread)),
                current: Some(id),
                ..old(self)@
            }),
            old(self)@.evolves_to(final(self)@),
    {
        let id: usize = self.threads.len();
        self.threads.push(Some(thread));
        self.current = Some(id);
        proof {
            let s = old(self)@;
            let e = self@;
            assert forall|t: usize| e.alive(t) && t != id implies s.alive(t) && e.thread(t)
                == s.thread(t) by {}
            assert forall|i: int| 0 <= i < e.queue.len() implies e.alive(#[trigger] e.queue[i]) by {
                assert(s.alive(s.queue[i]));
            }
            assert(!e.queued(id)) by {
                if e.queued(id) {
                    let i = choose|i: int| 0 <= i < e.queue.len() && e.queue[i] == id;
                    assert(s.alive(s.queue[i]));
                }
            }
            assert forall|t: usize|
                e.alive(t) && (#[trigger] e.thread(t)).state
                    == ThreadState::Scheduled implies e.queued(t) by {
                assert(t != id);
                assert(s.thread(t).state == ThreadState::Scheduled);
            }
            assert forall|t: usize|
                e.alive(t) && (#[trigger] e.thread(t)).state == ThreadState::Running implies e.current
                == Some(t) by {
                if t != id {
                    assert(s.thread(t).state == ThreadState::Running);
                }
            }
        }
        id
    }

    /// Puts a thread on the schedule queue. A paused thread becomes
    /// scheduled. A thread that is queued already, on the CPU, or gone is
    /// left alone.
    pub fn add_to_schedule_queue(&mut self, id: usize)
        requires
            old(self)@.wf(),
        ensures
            final(self)@.wf(),
            final(self)@ == old(self)@.enqueue(id),
            old(self)@.evolves_to(final(self)@),
    {
        proof {
            lemma_enqueue(self@, id);
        }
        if id >= self.threads.len() {
            return ;
        }
        let thread: ThreadStruct = match self.threads[id] {
            Some(thread) => thread,
            None => {
                return ;
            },
        };
        if self.is_in_schedule_queue(id) {
            return ;
        }
        if self.current == Some(id) {
            return ;
        }
        let state: ThreadState = if thread.state == ThreadState::Paused {
            ThreadState::Scheduled
        } else {
            thread.state
        };
        self.threads.set(id, Some(ThreadStruct { state, ..thread }));
        self.queue.push(id);
        assert(self@ =~= old(self)@.enqueue(id));
    }

    /// Puts the threads of a list on the schedule queue, the first of the
    /// list first.
    pub fn wake_in_order(&mut self, ids: &Vec<usize>)
        requires
            old(self)@.wf(),
        ensures
            final(self)@.wf(),
            final(self)@ == old(self)@.wake_all(ids@.reverse()),
            old(self)@.evolves_to(final(self)@),
    {
        let ghost all = ids@.reverse();
        proof {
            lemma_wake_all(self@, all);
            assert(all.take(all.len() as int) =~= all);
        }
        let mut i: usize = 0;
        while i < ids.len()
            invariant
                i <= ids@.len(),
                all == ids@.reverse(),
                self@.wf(),
                old(self)@.wake_all(all).wf(),
                old(self)@.evolves_to(old(self)@.wake_all(all)),
                self@.wake_all(all.take(all.len() - i)) == old(self)@.wake_all(all),
            decreases ids@.len() - i,
        {
            let id: usize = ids[i];
            proof {
                let rest = all.take(all.len() - i);
                assert(rest.last() == id);
                assert(rest.drop_last() =~= all.take(all.len() - i - 1));
            }
            self.add_to_schedule_queue(id);
            i = i + 1;
        }
        proof {
            assert(all.take(0) =~= Seq::<usize>::empty());
        }
    }

    /// Tells a thread to exit. Nothing happens to a thread that is gone or
    /// on its way out already. Otherwise its termination becomes pending,
    /// the threads that wait for its exit are woken, and the thread is
    /// queued so that it can leave at the next kernel boundary.
    pub fn exit_thread(&mut self, id: usize)
        requires
            old(self)@.wf(),
        ensures
            final(self)@.wf(),
            final(self)@ == old(self)@.exit(id),
            old(self)@.evolves_to(final(self)@),
    {
        proof {
            lemma_exit(self@, id);
        }
        if id >= self.threads.len() {
            return ;
        }
        let thread: ThreadStruct = match self.threads[id] {
            Some(thread) => thread,
            None => {
                return ;
            },
        };
        if thread.state == ThreadState::TerminationPending {
            // the thread was told to exit before
            return ;
        }
        self.threads.set(id, Some(ThreadStruct { state: ThreadState::TerminationPending, ..thread }));
        // signal that the thread has exited
        let mut woken: Vec<usize> = Vec::new();
        let mut remaining: Vec<ExitWaiter> = Vec::new();
        let mut i: usize = 0;
        while i < self.exit_waiters.len()
            invariant
                i <= self@.exit_waiters.len(),
                self@ == old(self)@.with_state(id, ThreadState::TerminationPending),
                woken@ == waiting_for(self@.exit_waiters.take(i as int), id),
                remaining@ == waiting_for_others(self@.exit_waiters.take(i as int), id),
            decreases self@.exit_waiters.len() - i,
        {
            let w: ExitWaiter = self.exit_waiters[i];
            proof {
                assert(self@.exit_waiters.take(i + 1).drop_last() =~= self@.exit_waiters.take(i as int));
                assert(self@.exit_waiters.take(i + 1).last() == w);
            }
            if w.awaited == id {
                woken.push(w.waiter);
            } else {
                remaining.push(w);
            }
            i = i + 1;
        }
        proof {
            assert(self@.exit_waiters.take(self@.exit_waiters.len() as int) =~= self@.exit_waiters);
        }
        self.exit_waiters = remaining;
        let ghost marked = self@;
        let ghost all = woken@;
        proof {
            lemma_with_state_evolves(old(self)@, id, ThreadState::TerminationPending);
            assert(marked.wf()) by {
                let s = old(self)@;
                assert forall|k: int| 0 <= k < marked.queue.len() implies marked.alive(
                    #[trigger] marked.queue[k],
                ) by {
                    assert(s.alive(s.queue[k]));
                }
                assert forall|t: usize|
                    marked.alive(t) && (#[trigger] marked.thread(t)).state
                        == ThreadState::Scheduled implies marked.queued(t) by {
                    assert(s.thread(t).state == ThreadState::Scheduled);
                }
                assert forall|t: usize|
                    marked.alive(t) && (#[trigger] marked.thread(t)).state
                        == ThreadState::Running implies marked.current == Some(t) by {
                    assert(s.thread(t).state == ThreadState::Running);
                }
            }
        }
        while woken.len() > 0
            invariant
                self@.wf(),
                marked.wake_all(all) == self@.wake_all(woken@),
            decreases woken@.len(),
        {
            let ghost before = woken@;
            let waiter: usize = woken.pop().unwrap();
            proof {
                assert(woken@ =~= before.drop_last());
            }
            self.add_to_schedule_queue(waiter);
        }
        self.add_to_schedule_queue(id);
    }

    /// Registers a thread as waiting for another thread to exit. A thread
    /// that is gone has exited: nothing is registered for it.
    pub fn register_exit_waiter(&mut self, awaited: ThreadRef, waiter: usize)
        requires
            old(self)@.wf(),
        ensures
            final(self)@.wf(),
            final(self)@ == (if old(self)@.alive(awaited.thread) {
                SchedulerView {
                    exit_waiters: old(self)@.exit_waiters.push(
                        ExitWaiter { awaited: awaited.thread, waiter },
                    ),
                    ..old(self)@
                }
            } else {
                old(self)@
            }),
    {
        if awaited.thread < self.threads.len() && self.threads[awaited.thread].is_some() {
            self.exit_waiters.push(ExitWaiter { awaited: awaited.thread, waiter });
            assert(self@ =~= (SchedulerView {
                exit_waiters: old(self)@.exit_waiters.push(
                    ExitWaiter { awaited: awaited.thread, waiter },
                ),
                ..old(self)@
            }));
            proof {
                lemma_wf_same_run(old(self)@, self@);
            }
        }
    }

    /// Whether waiting for a thread is over: the thread has exited, or is
    /// gone altogether.
    pub fn is_thread_signaled(&self, thread: ThreadRef) -> (r: bool)
        ensures
            r == (!self@.alive(thread.thread) || self@.thread(thread.thread).state
                == ThreadState::TerminationPending),
    {
        match self.get_thread(thread.thread) {
            Some(t) => t.state == ThreadState::TerminationPending,
            None => true,
        }
    }

    /// Takes the current thread off the CPU: a running thread becomes
    /// paused, and no thread is current until the next one is picked.
    pub fn suspend_current(&mut self)
        requires
            old(self)@.wf(),
            old(self)@.current is Some,
        ensures
            final(self)@.wf(),
            final(self)@ == old(self)@.suspend(),
            old(self)@.evolves_to(final(self)@),
    {
        proof {
            lemma_suspend(self@);
        }
        let id: usize = self.current.unwrap();
        let thread: ThreadStruct = self.threads[id].unwrap();
        if thread.state == ThreadState::Running {
            self.threads.set(id, Some(ThreadStruct { state: ThreadState::Paused, ..thread }));
        }
        self.current = None;
        assert(self@ =~= old(self)@.suspend());
    }

    /// Gives the CPU to the next thread of the queue that can run, and
    /// returns it. Threads on their way out are taken off the queue and
    /// never run again. Returns nothing when no thread can run.
    pub fn schedule_next(&mut self) -> (next: Option<usize>)
        requires
            old(self)@.wf(),
            old(self)@.current is None,
        ensures
            final(self)@.wf(),
            final(self)@ == old(self)@.pick_next(),
            next == final(self)@.current,
            old(self)@.evolves_to(final(self)@),
    {
        proof {
            lemma_pick_next(self@);
        }
        while self.queue.len() > 0
            invariant
                self@.wf(),
                self@.current is None,
                self@.pick_next() == old(self)@.pick_next(),
                old(self)@.pick_next().wf(),
                old(self)@.evolves_to(old(self)@.pick_next()),
            decreases self@.queue.len(),
        {
            let ghost before = self@;
            let id: usize = self.queue.remove(0);
            proof {
                assert(before.alive(before.queue[0]));
                assert(self@.queue =~= before.queue.subrange(1, before.queue.len() as int));
            }
            let thread: ThreadStruct = self.threads[id].unwrap();
            if thread.state != ThreadState::TerminationPending {
                self.threads.set(id, Some(ThreadStruct { state: ThreadState::Running, ..thread }));
                self.current = Some(id);
                assert(self@ =~= before.pick_next());
                return Some(id);
            }
            proof {
                let rest = SchedulerView {
                    queue: before.queue.subrange(1, before.queue.len() as int),
                    ..before
                };
                assert(self@ =~= rest);
                lemma_dropping_head(before);
            }
        }
        None
    }

    /// Drops a thread: its slot becomes empty for good. Only a thread whose
    /// termination is pending and that is neither queued nor on the CPU can
    /// be dropped.
    pub fn drop_thread(&mut self, id: usize)
        requires
            old(self)@.wf(),
            old(self)@.alive(id),
            old(self)@.thread(id).state == ThreadState::TerminationPending,
            !old(self)@.queued(id),
            old(self)@.current != Some(id),
        ensures
            final(self)@.wf(),
            final(self)@ == (SchedulerView {
                threads: old(self)@.threads.update(id as int, None),
                ..old(self)@
            }),
            old(self)@.evolves_to(final(self)@),
    {
        self.threads.set(id, None);
        proof {
            let s = old(self)@;
            let e = self@;
            assert forall|i: int| 0 <= i < e.queue.len() implies e.alive(#[trigger] e.queue[i]) by {
                assert(s.alive(s.queue[i]));
                assert(s.queued(s.queue[i]));
            }
            assert forall|t: usize|
                e.alive(t) && (#[trigger] e.thread(t)).state
                    == ThreadState::Scheduled implies e.queued(t) by {
                assert(s.thread(t).state == ThreadState::Scheduled);
            }
            assert forall|t: usize|
                e.alive(t) && (#[trigger] e.thread(t)).state == ThreadState::Running implies e.current
                == Some(t) by {
                assert(s.thread(t).state == ThreadState::Running);
            }
        }
    }
}

/// Taking a thread on its way out off the head of the queue keeps the
/// scheduler well-formed.
proof fn lemma_dropping_head(s: SchedulerView)
    requires
        s.wf(),
        s.current is None,
        s.queue.len() > 0,
        s.thread(s.queue[0]).state == ThreadState::TerminationPending,
    ensures
        (SchedulerView { queue: s.queue.subrange(1, s.queue.len() as int), ..s }).wf(),
{
    let id = s.queue[0];
    let rest = SchedulerView { queue: s.queue.subrange(1, s.queue.len() as int), ..s };
    assert forall|t: usize| s.queued(t) && t != id implies rest.queued(t) by {
        let i = choose|i: int| 0 <= i < s.queue.len() && s.queue[i] == t;
        assert(rest.queue[i - 1] == t);
    }
    assert forall|i: int| 0 <= i < rest.queue.len() implies rest.alive(#[trigger] rest.queue[i]) by {
        assert(s.alive(s.queue[i + 1]));
    }
    assert forall|i: int, j: int| 0 <= i < j < rest.queue.len() implies rest.queue[i]
        != rest.queue[j] by {
        assert(s.queue[i + 1] != s.queue[j + 1]);
    }
    assert forall|t: usize|
        rest.alive(t) && (#[trigger] rest.thread(t)).state == ThreadState::Scheduled implies rest.queued(
        t,
    ) by {
        assert(s.thread(t).state == ThreadState::Scheduled);
        assert(s.queued(t));
    }
    assert forall|t: usize|
        rest.alive(t) && (#[trigger] rest.thread(t)).state == ThreadState::Running implies rest.current
        == Some(t) by {
        assert(s.thread(t).state == ThreadState::Running);
    }
}

/// Well-formedness depends on the threads, the queue and the current thread
/// alone.
proof fn lemma_wf_same_run(s: SchedulerView, e: SchedulerView)
    requires
        s.wf(),
        e.threads == s.threads,
        e.queue == s.queue,
        e.current == s.current,
    ensures
        e.wf(),
        s.evolves_to(e),
{
    assert forall|i: int| 0 <= i < e.queue.len() implies e.alive(#[trigger] e.queue[i]) by {
        assert(s.alive(s.queue[i]));
    }
    assert forall|t: usize|
        e.alive(t) && (#[trigger] e.thread(t)).state == ThreadState::Scheduled implies e.queued(t) by {
        assert(s.thread(t).state == ThreadState::Scheduled);
    }
    assert forall|t: usize|
        e.alive(t) && (#[trigger] e.thread(t)).state == ThreadState::Running implies e.current
        == Some(t) by {
        assert(s.thread(t).state == ThreadState::Running);
    }
}

} // verus!
