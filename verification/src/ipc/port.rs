//! Ports: where a client and a server meet to set up a session.
//!
//! A client connects to a port and waits; a server accepts the connection,
//! which creates a session, hands the client side of it to the waiting
//! client, and returns the server side. When the last server side of a
//! port is gone, everybody who waits to be accepted is woken and finds out
//! that the port is dead.

use crate::error::UserspaceError;
use crate::handle::ClientPort;
use crate::handle::ClientSession;
use crate::handle::ServerPort;
use crate::handle::ServerSession;
use crate::ipc::session::Session;
use crate::scheduler::lemma_enqueue;
use crate::scheduler::Scheduler;
use crate::scheduler::SchedulerView;
use vstd::prelude::*;

verus! {

/// A connection that was accepted and waits to be picked up by the thread
/// that asked for it.
#[derive(Clone, Copy, Debug, PartialEq, Eq, Structural)]
pub struct IncomingConnection {
    /// The thread that asked to connect.
    pub creator: usize,
    /// The client side of the session made for it.
    pub session: ClientSession,
}

/// What a port holds, as plain values.
pub struct PortView {
    /// The number of the port.
    pub id: usize,
    /// The threads that asked to connect and were not accepted yet, in the
    /// order in which they asked.
    pub incoming: Seq<usize>,
    /// The connections that were accepted and not picked up yet.
    pub established: Seq<IncomingConnection>,
    /// The threads that wait for somebody to connect.
    pub accepters: Seq<usize>,
    /// The number of server sides of the port.
    pub servercount: int,
}

/// An endpoint which can be connected to.
#[derive(Debug)]
pub struct Port {
    id: usize,
    incoming_connections: Vec<usize>,
    established: Vec<IncomingConnection>,
    accepters: Vec<usize>,
    servercount: usize,
}

impl View for Port {
    type V = PortView;

    closed spec fn view(&self) -> PortView {
        PortView {
            id: self.id,
            incoming: self.incoming_connections@,
            established: self.established@,
            accepters: self.accepters@,
            servercount: self.servercount as int,
        }
    }
}

/// What a thread that connects is told to do next.
#[derive(Clone, Copy, Debug, PartialEq, Eq, Structural)]
pub enum ConnectStep {
    /// The connection was accepted: here is the client side of the session.
    Connected(ClientSession),
    /// Nobody has accepted yet: the thread has to give up the CPU, and to
    /// ask again when it is woken.
    Suspend,
}

/// The threads left after the last ones of a list were taken off until one
/// was found that still exists.
pub open spec fn after_waking_one(list: Seq<usize>, sched: SchedulerView) -> Seq<usize>
    decreases list.len(),
{
    if list.len() == 0 {
        list
    } else if sched.alive(list.last()) {
        list.drop_last()
    } else {
        after_waking_one(list.drop_last(), sched)
    }
}

/// The last thread of a list that still exists, if there is one.
pub open spec fn woken_one(list: Seq<usize>, sched: SchedulerView) -> Option<usize>
    decreases list.len(),
{
    if list.len() == 0 {
        None
    } else if sched.alive(list.last()) {
        Some(list.last())
    } else {
        woken_one(list.drop_last(), sched)
    }
}

/// The scheduler after one thread of a list was woken: the last one that
/// still exists.
pub open spec fn sched_after_waking_one(list: Seq<usize>, sched: SchedulerView) -> SchedulerView {
    match woken_one(list, sched) {
        Some(thread) => sched.enqueue(thread),
        None => sched,
    }
}

/// The position of the connection accepted for a thread, or the length of
/// the list.
pub open spec fn connection_of(list: Seq<IncomingConnection>, creator: usize) -> int
    decreases list.len(),
{
    if list.len() == 0 {
        0
    } else if connection_of(list.drop_last(), creator) < list.len() - 1 {
        connection_of(list.drop_last(), creator)
    } else if list.last().creator == creator {
        list.len() - 1
    } else {
        list.len() as int
    }
}

/// The position found for the connection of a thread is its first.
proof fn lemma_connection_of(list: Seq<IncomingConnection>, creator: usize, pos: int)
    requires
        0 <= pos <= list.len(),
        forall|j: int| 0 <= j < pos ==> list[j].creator != creator,
        pos < list.len() ==> list[pos].creator == creator,
    ensures
        connection_of(list, creator) == pos,
    decreases list.len(),
{
    if list.len() > 0 {
        let rest = list.drop_last();
        if pos < list.len() - 1 {
            lemma_connection_of(rest, creator, pos);
        } else {
            lemma_connection_of(rest, creator, list.len() - 1);
        }
    }
}

/// Wakes one thread of a list of waiters: threads are taken off the end of
/// the list until one is found that still exists, which is put on the
/// schedule queue.
pub fn wake_one(list: &mut Vec<usize>, sched: &mut Scheduler)
    requires
        old(sched)@.wf(),
    ensures
        final(sched)@.wf(),
        old(sched)@.evolves_to(final(sched)@),
        final(list)@ == after_waking_one(old(list)@, old(sched)@),
        final(sched)@ == sched_after_waking_one(old(list)@, old(sched)@),
{
    while list.len() > 0
        invariant
            sched@ == old(sched)@,
            sched@.wf(),
            after_waking_one(list@, sched@) == after_waking_one(old(list)@, old(sched)@),
            woken_one(list@, sched@) == woken_one(old(list)@, old(sched)@),
        decreases list@.len(),
    {
        let ghost before = list@;
        let item: usize = list.pop().unwrap();
        proof {
            assert(list@ =~= before.drop_last());
        }
        if sched.get_thread(item).is_some() {
            proof {
                lemma_enqueue(sched@, item);
            }
            sched.add_to_schedule_queue(item);
            return ;
        }
    }
    proof {
        assert(old(sched)@.evolves_to(sched@));
    }
}

/// Creates a port. It starts with one server side.
pub fn new(id: usize, _max_sessions: u32) -> (r: (Port, ServerPort, ClientPort))
    ensures
        r.0@ == (PortView {
            id,
            incoming: Seq::<usize>::empty(),
            established: Seq::<IncomingConnection>::empty(),
            accepters: Seq::<usize>::empty(),
            servercount: 1,
        }),
        r.1 == (ServerPort { port: id }),
        r.2 == (ClientPort { port: id }),
{
    let port = Port {
        id,
        servercount: 1,
        incoming_connections: Vec::new(),
        established: Vec::new(),
        accepters: Vec::new(),
    };
    (port, ServerPort { port: id }, ClientPort { port: id })
}

impl Port {
    /// The number of the port.
    pub fn id(&self) -> (r: usize)
        ensures
            r == self@.id,
    {
        self.id
    }

    /// The number of server sides of the port.
    pub fn servercount(&self) -> (r: usize)
        ensures
            r == self@.servercount,
    {
        self.servercount
    }
}

impl ServerPort {
    /// Whether waiting for the port is over: somebody asked to connect.
    pub fn is_signaled(&self, port: &Port) -> (r: bool)
        ensures
            r == (port@.incoming.len() > 0),
    {
        port.incoming_connections.len() > 0
    }

    /// Registers a thread as waiting for somebody to connect.
    pub fn register(&self, port: &mut Port, current: usize)
        ensures
            final(port)@ == (PortView { accepters: old(port)@.accepters.push(current), ..old(port)@ }),
    {
        port.accepters.push(current);
    }

    /// Makes another server side of the port.
    pub fn duplicate(&self, port: &mut Port) -> (r: ServerPort)
        requires
            old(port)@.servercount < usize::MAX,
        ensures
            r == *self,
            final(port)@ == (PortView { servercount: old(port)@.servercount + 1, ..old(port)@ }),
    {
        port.servercount = port.servercount + 1;
        *self
    }

    /// Gives up a server side of the port. When it was the last one, every
    /// thread that waits to be accepted is woken, in the order in which
    /// they asked, and nobody waits to be accepted any more: each of them
    /// finds the port dead.
    pub fn close(self, port: &mut Port, sched: &mut Scheduler)
        requires
            old(port)@.servercount > 0,
            old(sched)@.wf(),
        ensures
            final(sched)@.wf(),
            old(sched)@.evolves_to(final(sched)@),
            final(port)@ == (PortView {
                servercount: old(port)@.servercount - 1,
                incoming: if old(port)@.servercount == 1 {
                    Seq::<usize>::empty()
                } else {
                    old(port)@.incoming
                },
                ..old(port)@
            }),
            final(sched)@ == (if old(port)@.servercount == 1 {
                old(sched)@.wake_all(old(port)@.incoming.reverse())
            } else {
                old(sched)@
            }),
    {
        port.servercount = port.servercount - 1;
        if port.servercount == 0 {
            // the port is dead
            sched.wake_in_order(&port.incoming_connections);
            port.incoming_connections.clear();
        }
    }

    /// Accepts a connection on the port: the thread that asked last is
    /// served first. A session is created under the given number; its
    /// client side is left for the thread that asked, which is woken, and
    /// the session and its server side are returned.
    ///
    /// Returns nothing when nobody has asked to connect: the caller has to
    /// wait for the port and to try again.
    pub fn accept(&self, port: &mut Port, sched: &mut Scheduler, session_id: usize) -> (r: Option<
        (Session, ServerSession),
    >)
        requires
            old(sched)@.wf(),
        ensures
            final(sched)@.wf(),
            old(sched)@.evolves_to(final(sched)@),
            old(port)@.incoming.len() == 0 ==> r is None && final(port)@ == old(port)@ && final(sched)@ == old(sched)@,
            old(port)@.incoming.len() > 0 ==> {
                let creator = old(port)@.incoming.last();
                &&& r is Some
                &&& r->Some_0.0@ == crate::ipc::session::fresh_session(session_id)
                &&& r->Some_0.1 == (ServerSession { session: session_id })
                &&& final(port)@ == (PortView {
                    incoming: old(port)@.incoming.drop_last(),
                    established: old(port)@.established.push(
                        IncomingConnection {
                            creator,
                            session: ClientSession { session: session_id },
                        },
                    ),
                    ..old(port)@
                })
                &&& final(sched)@ == old(sched)@.enqueue(creator)
            },
    {
        proof {
            lemma_enqueue(sched@, port@.incoming.last());
        }
        match port.incoming_connections.pop() {
            Some(creator) => {
                // a session can be associated to this connection now
                let (session, server, client) = crate::ipc::session::new(session_id);
                port.established.push(IncomingConnection { creator, session: client });
                // wake up the creator
                sched.add_to_schedule_queue(creator);
                Some((session, server))
            },
            None => None,
        }
    }
}

impl ClientPort {
    /// Asks to connect to the port. The calling thread joins those that
    /// wait to be accepted; then see [`ClientPort::resume_connect`], which
    /// tells what to do next.
    pub fn connect(&self, port: &mut Port, sched: &mut Scheduler, current: usize) -> (r: Result<
        ConnectStep,
        UserspaceError,
    >)
        requires
            old(sched)@.wf(),
        ensures
            final(sched)@.wf(),
            old(sched)@.evolves_to(final(sched)@),
            connection_resumed(
                PortView { incoming: old(port)@.incoming.push(current), ..old(port)@ },
                old(sched)@,
                current,
                final(port)@,
                final(sched)@,
                r,
            ),
    {
        port.incoming_connections.push(current);
        self.resume_connect(port, sched, current)
    }

    /// Tells a thread that asked to connect what came of it, when it has
    /// just asked and every time it is woken.
    ///
    /// When the connection was accepted, the client side of the session is
    /// handed over. Otherwise, when no server side of the port is left, the
    /// attempt fails with `PortRemoteDead`. Otherwise one of the threads
    /// that wait for somebody to connect is woken, and the caller has to
    /// give up the CPU until it is woken itself.
    pub fn resume_connect(&self, port: &mut Port, sched: &mut Scheduler, current: usize) -> (r: Result<
        ConnectStep,
        UserspaceError,
    >)
        requires
            old(sched)@.wf(),
        ensures
            final(sched)@.wf(),
            old(sched)@.evolves_to(final(sched)@),
            connection_resumed(old(port)@, old(sched)@, current, final(port)@, final(sched)@, r),
    {
        // did somebody accept in the meantime
        let mut i: usize = 0;
        while i < port.established.len() && port.established[i].creator != current
            invariant
                i <= port@.established.len(),
                port@ == old(port)@,
                forall|j: int| 0 <= j < i ==> port@.established[j].creator != current,
            decreases port@.established.len() - i,
        {
            i = i + 1;
        }
        proof {
            lemma_connection_of(port@.established, current, i as int);
        }
        if i < port.established.len() {
            let connection: IncomingConnection = port.established.remove(i);
            return Ok(ConnectStep::Connected(connection.session));
        }
        // if no handle to the server exists any more, give up
        if port.servercount == 0 {
            return Err(UserspaceError::PortRemoteDead);
        }
        // wake up an accepter, then wait for it to do its job
        wake_one(&mut port.accepters, sched);
        Ok(ConnectStep::Suspend)
    }
}

/// What asking about a connection comes to.
pub open spec fn connection_resumed(
    port: PortView,
    sched: SchedulerView,
    current: usize,
    port_after: PortView,
    sched_after: SchedulerView,
    r: Result<ConnectStep, UserspaceError>,
) -> bool {
    let pos = connection_of(port.established, current);
    if pos < port.established.len() {
        &&& r == Ok::<ConnectStep, UserspaceError>(
            ConnectStep::Connected(port.established[pos].session),
        )
        &&& port_after == (PortView { established: port.established.remove(pos), ..port })
        &&& sched_after == sched
    } else if port.servercount == 0 {
        &&& r == Err::<ConnectStep, UserspaceError>(UserspaceError::PortRemoteDead)
        &&& port_after == port
        &&& sched_after == sched
    } else {
        &&& r == Ok::<ConnectStep, UserspaceError>(ConnectStep::Suspend)
        &&& port_after == (PortView { accepters: after_waking_one(port.accepters, sched), ..port })
        &&& sched_after == sched_after_waking_one(port.accepters, sched)
    }
}

} // verus!
