//! Sessions: established connections that carry requests and replies.
//!
//! A session is sequential: it serves one request at a time. A client sends
//! a request and waits; the server receives the request when no other is
//! active, and replies to it, which wakes the client. Requests are served in
//! the order in which they were sent. When the last server side of a
//! session is gone, every request that is active or waiting is answered
//! with `PortRemoteDead`.

use crate::error::UserspaceError;
use crate::handle::ClientSession;
use crate::handle::ProcessRef;
use crate::handle::ServerSession;
use crate::handle::ThreadRef;
use crate::ipc::buffer::Buffer;
use crate::ipc::buffer::CopyRequest;
use crate::ipc::header::c_behavior;
use crate::ipc::header::find_c_descriptors;
use crate::ipc::header::CBufBehavior;
use crate::ipc::header::CBuffer;
use crate::ipc::message::buffers_wf;
use crate::ipc::message::message_passed;
use crate::ipc::message::buffers_released;
use crate::ipc::message::buffers_unmapped;
use crate::ipc::message::release_buffers;
use crate::ipc::message::pass_message;
use crate::ipc::message::unmap_buffers;
use crate::ipc::message::UnmapPass;
use crate::error::userspace_code;
use crate::ipc::message::Transfer;
use crate::ipc::port::after_waking_one;
use crate::ipc::port::sched_after_waking_one;
use crate::ipc::port::wake_one;
use crate::mem::VirtualAddress;
use crate::memory::mirror_verdict;
use crate::process::ProcessStruct;
use crate::scheduler::lemma_enqueue;
use crate::scheduler::Scheduler;
use crate::scheduler::SchedulerView;
use crate::scheduler::ThreadState;
use vstd::prelude::*;

verus! {

/// A request that travels through a session.
#[derive(Debug)]
pub struct Request {
    /// The address of the message buffer in the sender.
    pub sender_buf: VirtualAddress,
    /// The size of the message buffer.
    pub sender_bufsize: usize,
    /// The thread that sent the request. It is woken when the request is
    /// answered.
    pub sender: usize,
    /// The buffers that were mapped into the receiver for the request. They
    /// are unmapped when the reply is sent.
    pub buffers: Vec<Buffer>,
}

/// A request as plain values.
pub struct RequestView {
    /// The address of the message buffer in the sender.
    pub sender_buf: VirtualAddress,
    /// The size of the message buffer.
    pub sender_bufsize: usize,
    /// The thread that sent the request.
    pub sender: usize,
    /// The buffers that were mapped into the receiver for the request.
    pub buffers: Seq<Buffer>,
}

impl View for Request {
    type V = RequestView;

    open spec fn view(&self) -> RequestView {
        RequestView {
            sender_buf: self.sender_buf,
            sender_bufsize: self.sender_bufsize,
            sender: self.sender,
            buffers: self.buffers@,
        }
    }
}

/// The answer to a request, kept until its sender picks it up.
#[derive(Clone, Copy, Debug)]
pub struct Answer {
    /// The thread that sent the request.
    pub sender: usize,
    /// Whether the request was replied to, or why not.
    pub result: Result<(), UserspaceError>,
}

/// What a session holds, as plain values.
pub struct SessionView {
    /// The number of the session.
    pub id: usize,
    /// The request that is being served, if any.
    pub active: Option<RequestView>,
    /// The requests that wait to be served, the next one first.
    pub incoming: Seq<RequestView>,
    /// The answers that were given and not picked up yet.
    pub answers: Seq<Answer>,
    /// The threads that wait for a request.
    pub accepters: Seq<usize>,
    /// The number of server sides of the session.
    pub servercount: int,
}

/// The shared part of a session.
#[derive(Debug)]
pub struct Session {
    id: usize,
    active_request: Option<Request>,
    incoming_requests: Vec<Request>,
    answers: Vec<Answer>,
    accepters: Vec<usize>,
    servercount: usize,
}

impl View for Session {
    type V = SessionView;

    closed spec fn view(&self) -> SessionView {
        SessionView {
            id: self.id,
            active: match self.active_request {
                Some(request) => Some(request@),
                None => None,
            },
            incoming: self.incoming_requests@.map_values(|r: Request| r@),
            answers: self.answers@,
            accepters: self.accepters@,
            servercount: self.servercount as int,
        }
    }
}

/// A session that was just created: nothing is going on, and there is one
/// server side.
pub open spec fn fresh_session(id: usize) -> SessionView {
    SessionView {
        id,
        active: None,
        incoming: Seq::<RequestView>::empty(),
        answers: Seq::<Answer>::empty(),
        accepters: Seq::<usize>::empty(),
        servercount: 1,
    }
}

/// Creates a session. Its two sides are linked to each other: the server
/// side receives the requests sent through the client side.
pub fn new(id: usize) -> (r: (Session, ServerSession, ClientSession))
    ensures
        r.0@ == fresh_session(id),
        r.1 == (ServerSession { session: id }),
        r.2 == (ClientSession { session: id }),
{
    let session = Session {
        id,
        active_request: None,
        incoming_requests: Vec::new(),
        answers: Vec::new(),
        accepters: Vec::new(),
        servercount: 1,
    };
    assert(session@.incoming =~= Seq::<RequestView>::empty());
    (session, ServerSession { session: id }, ClientSession { session: id })
}

/// The position of the answer for a thread, or the length of the list.
pub open spec fn answer_for(list: Seq<Answer>, sender: usize) -> int
    decreases list.len(),
{
    if list.len() == 0 {
        0
    } else if answer_for(list.drop_last(), sender) < list.len() - 1 {
        answer_for(list.drop_last(), sender)
    } else if list.last().sender == sender {
        list.len() - 1
    } else {
        list.len() as int
    }
}

/// The position found for the answer for a thread is its first.
proof fn lemma_answer_for(list: Seq<Answer>, sender: usize, pos: int)
    requires
        0 <= pos <= list.len(),
        forall|j: int| 0 <= j < pos ==> list[j].sender != sender,
        pos < list.len() ==> list[pos].sender == sender,
    ensures
        answer_for(list, sender) == pos,
    decreases list.len(),
{
    if list.len() > 0 {
        let rest = list.drop_last();
        if pos < list.len() - 1 {
            lemma_answer_for(rest, sender, pos);
        } else {
            lemma_answer_for(rest, sender, list.len() - 1);
        }
    }
}

/// The answers with `PortRemoteDead` added for each of the requests, in
/// order.
pub open spec fn with_dead_answers(answers: Seq<Answer>, requests: Seq<RequestView>) -> Seq<Answer>
    decreases requests.len(),
{
    if requests.len() == 0 {
        answers
    } else {
        with_dead_answers(answers, requests.drop_last()).push(
            Answer { sender: requests.last().sender, result: Err(UserspaceError::PortRemoteDead) },
        )
    }
}

/// The senders of a list of requests, in order.
pub open spec fn senders(requests: Seq<RequestView>) -> Seq<usize> {
    requests.map_values(|r: RequestView| r.sender)
}

impl Session {
    /// The number of the session.
    pub fn id(&self) -> (r: usize)
        ensures
            r == self@.id,
    {
        self.id
    }

    /// The number of server sides of the session.
    pub fn servercount(&self) -> (r: usize)
        ensures
            r == self@.servercount,
    {
        self.servercount
    }

    /// Whether a request is being served.
    pub fn has_active_request(&self) -> (r: bool)
        ensures
            r == self@.active is Some,
    {
        self.active_request.is_some()
    }

    /// The thread that sent the request that is being served.
    pub fn active_sender(&self) -> (r: Option<usize>)
        ensures
            r == (match self@.active {
                Some(request) => Some(request.sender),
                None => None::<usize>,
            }),
    {
        match &self.active_request {
            Some(request) => Some(request.sender),
            None => None,
        }
    }

    /// The address of the message buffer of the request that is being
    /// served, in its sender.
    pub fn active_buffer(&self) -> (r: Option<VirtualAddress>)
        ensures
            r == (match self@.active {
                Some(request) => Some(request.sender_buf),
                None => None::<VirtualAddress>,
            }),
    {
        match &self.active_request {
            Some(request) => Some(request.sender_buf),
            None => None,
        }
    }

    /// The size of the message buffer of the request that is being
    /// served.
    pub fn active_buffer_size(&self) -> (r: Option<usize>)
        ensures
            r == (match self@.active {
                Some(request) => Some(request.sender_bufsize),
                None => None::<usize>,
            }),
    {
        match &self.active_request {
            Some(request) => Some(request.sender_bufsize),
            None => None,
        }
    }

    /// The number of requests that wait to be served.
    pub fn pending_requests(&self) -> (r: usize)
        ensures
            r == self@.incoming.len(),
    {
        self.incoming_requests.len()
    }

    /// The buffers of every request of the session are well-formed.
    pub open spec fn wf(&self) -> bool {
        &&& self@.active is Some ==> buffers_wf(self@.active->Some_0.buffers)
        &&& forall|i: int|
            0 <= i < self@.incoming.len() ==> (#[trigger] self@.incoming[i]).buffers.len() == 0
    }
}

impl ServerSession {
    /// Whether waiting for the session is over: a request is active. When
    /// none is, the request that has waited longest becomes the active one.
    pub fn is_signaled(&self, session: &mut Session) -> (r: bool)
        requires
            old(session).wf(),
        ensures
            final(session).wf(),
            r == (old(session)@.active is Some || old(session)@.incoming.len() > 0),
            final(session)@ == (if old(session)@.active is None && old(session)@.incoming.len() > 0 {
                SessionView {
                    active: Some(old(session)@.incoming[0]),
                    incoming: old(session)@.incoming.subrange(
                        1,
                        old(session)@.incoming.len() as int,
                    ),
                    ..old(session)@
                }
            } else {
                old(session)@
            }),
    {
        if session.active_request.is_none() {
            if session.incoming_requests.len() > 0 {
                let ghost before = session@.incoming;
                let request: Request = session.incoming_requests.remove(0);
                proof {
                    assert(request@ == before[0]);
                    assert(request@.buffers.len() == 0);
                    assert(session@.incoming =~= before.subrange(1, before.len() as int));
                }
                session.active_request = Some(request);
                true
            } else {
                false
            }
        } else {
            true
        }
    }

    /// Registers a thread as waiting for a request, unless it is
    /// registered already.
    pub fn register(&self, session: &mut Session, current: usize)
        ensures
            final(session)@ == (if crate::scheduler::listed(old(session)@.accepters, current) {
                old(session)@
            } else {
                SessionView { accepters: old(session)@.accepters.push(current), ..old(session)@ }
            }),
    {
        let mut i: usize = 0;
        while i < session.accepters.len()
            invariant
                i <= session@.accepters.len(),
                session@ == old(session)@,
                forall|j: int| 0 <= j < i ==> session@.accepters[j] != current,
            decreases session@.accepters.len() - i,
        {
            if session.accepters[i] == current {
                return ;
            }
            i = i + 1;
        }
        session.accepters.push(current);
    }

    /// Makes another server side of the session.
    pub fn duplicate(&self, session: &mut Session) -> (r: ServerSession)
        requires
            old(session)@.servercount < usize::MAX,
        ensures
            r == *self,
            final(session)@ == (SessionView {
                servercount: old(session)@.servercount + 1,
                ..old(session)@
            }),
    {
        session.servercount = session.servercount + 1;
        *self
    }

    /// Gives up a server side of the session. When it was the last one, the
    /// active request and every request that waits are answered with
    /// `PortRemoteDead`, and their senders are woken, the sender of the
    /// active request first.
    pub fn close(self, session: &mut Session, sched: &mut Scheduler)
        requires
            old(session)@.servercount > 0,
            old(sched)@.wf(),
        ensures
            final(sched)@.wf(),
            old(sched)@.evolves_to(final(sched)@),
            old(session)@.servercount > 1 ==> final(session)@ == (SessionView {
                servercount: old(session)@.servercount - 1,
                ..old(session)@
            }) && final(sched)@ == old(sched)@,
            old(session)@.servercount == 1 ==> {
                let requests = all_requests(old(session)@);
                &&& final(session)@ == (SessionView {
                    servercount: 0,
                    active: None,
                    incoming: Seq::<RequestView>::empty(),
                    answers: with_dead_answers(old(session)@.answers, requests),
                    ..old(session)@
                })
                &&& final(sched)@ == old(sched)@.wake_all(senders(requests).reverse())
            },
    {
        session.servercount = session.servercount - 1;
        if session.servercount == 0 {
            // the session is dead
            let ghost requests = all_requests(old(session)@);
            let mut woken: Vec<usize> = Vec::new();
            match session.active_request.take() {
                Some(request) => {
                    session.answers.push(
                        Answer { sender: request.sender, result: Err(UserspaceError::PortRemoteDead) },
                    );
                    woken.push(request.sender);
                    proof {
                        assert(requests.take(1) =~= seq![request@]);
                        assert(requests.take(1).drop_last() =~= requests.take(0));
                        assert(requests.take(0).len() == 0);
                        assert(with_dead_answers(old(session)@.answers, requests.take(0)) == old(
                            session,
                        )@.answers);
                        assert(requests.take(1).last() == request@);
                        assert(with_dead_answers(old(session)@.answers, requests.take(1))
                            == with_dead_answers(old(session)@.answers, requests.take(0)).push(
                            Answer {
                                sender: request.sender,
                                result: Err(UserspaceError::PortRemoteDead),
                            },
                        ));
                        assert(senders(requests.take(1)) =~= seq![request.sender]);
                    }
                },
                None => {},
            }
            let ghost done: int = requests.len() - old(session)@.incoming.len();
            proof {
                assert(senders(requests.take(0)) =~= Seq::<usize>::empty());
                assert(requests.take(0).len() == 0);
                assert(with_dead_answers(old(session)@.answers, requests.take(0)) == old(
                    session,
                )@.answers);
            }
            let mut i: usize = 0;
            while i < session.incoming_requests.len()
                invariant
                    i <= session@.incoming.len(),
                    session@.incoming == old(session)@.incoming,
                    session@.id == old(session)@.id,
                    session@.accepters == old(session)@.accepters,
                    session@.servercount == 0,
                    session@.active is None,
                    requests == all_requests(old(session)@),
                    done == requests.len() - old(session)@.incoming.len(),
                    0 <= done <= 1,
                    forall|k: int|
                        0 <= k < old(session)@.incoming.len() ==> requests[done + k]
                            == old(session)@.incoming[k],
                    session@.answers == with_dead_answers(
                        old(session)@.answers,
                        requests.take(done + i),
                    ),
                    woken@ == senders(requests.take(done + i)),
                decreases session@.incoming.len() - i,
            {
                let sender: usize = session.incoming_requests[i].sender;
                proof {
                    assert(session@.incoming[i as int].sender == sender);
                    assert(requests[done + i].sender == sender);
                    assert(requests.take(done + i + 1).drop_last() =~= requests.take(done + i));
                    assert(requests.take(done + i + 1).last() == requests[done + i]);
                    assert(senders(requests.take(done + i + 1)) =~= senders(
                        requests.take(done + i),
                    ).push(sender));
                }
                session.answers.push(Answer { sender, result: Err(UserspaceError::PortRemoteDead) });
                woken.push(sender);
                i = i + 1;
            }
            proof {
                assert(requests.take(requests.len() as int) =~= requests);
            }
            session.incoming_requests.clear();
            assert(session@.incoming =~= Seq::<RequestView>::empty());
            sched.wake_in_order(&woken);
        }
    }
}

/// The requests of a session, the active one first.
pub open spec fn all_requests(session: SessionView) -> Seq<RequestView> {
    match session.active {
        Some(active) => seq![active] + session.incoming,
        None => session.incoming,
    }
}

impl ClientSession {
    /// Sends a request through the session. The request joins those that
    /// wait to be served; then see [`ClientSession::resume_request`], which
    /// tells what to do next.
    ///
    /// The message stays in the buffer of the sender, which has to stay as
    /// it is until the request is answered: it is read when the server
    /// receives the request.
    ///
    /// Fails with `PortRemoteDead`, and sends nothing, when no server side
    /// of the session is left.
    pub fn send_request(
        &self,
        session: &mut Session,
        sched: &mut Scheduler,
        current: usize,
        buf: VirtualAddress,
        bufsize: usize,
    ) -> (r: Result<Option<Result<(), UserspaceError>>, UserspaceError>)
        requires
            old(session).wf(),
            old(sched)@.wf(),
        ensures
            final(session).wf(),
            final(sched)@.wf(),
            old(sched)@.evolves_to(final(sched)@),
            old(session)@.servercount == 0 ==> r == Err::<
                Option<Result<(), UserspaceError>>,
                UserspaceError,
            >(UserspaceError::PortRemoteDead) && final(session)@ == old(session)@ && final(sched)@
                == old(sched)@,
            old(session)@.servercount != 0 ==> r is Ok && request_resumed(
                SessionView {
                    incoming: old(session)@.incoming.push(
                        RequestView {
                            sender_buf: buf,
                            sender_bufsize: bufsize,
                            sender: current,
                            buffers: Seq::<Buffer>::empty(),
                        },
                    ),
                    ..old(session)@
                },
                old(sched)@,
                current,
                final(session)@,
                final(sched)@,
                r->Ok_0,
            ),
    {
        if session.servercount == 0 {
            return Err(UserspaceError::PortRemoteDead);
        }
        let ghost before = session@.incoming;
        let request = Request {
            sender_buf: buf,
            sender_bufsize: bufsize,
            sender: current,
            buffers: Vec::new(),
        };
        session.incoming_requests.push(request);
        proof {
            assert(session@.incoming =~= before.push(
                RequestView {
                    sender_buf: buf,
                    sender_bufsize: bufsize,
                    sender: current,
                    buffers: Seq::<Buffer>::empty(),
                },
            ));
            assert forall|i: int| 0 <= i < session@.incoming.len() implies (
            #[trigger] session@.incoming[i]).buffers.len() == 0 by {
                if i < before.len() {
                    assert(before[i].buffers.len() == 0);
                }
            }
        }
        Ok(self.resume_request(session, sched, current))
    }

    /// Tells a thread that sent a request what came of it, when it has just
    /// sent it and every time it is woken.
    ///
    /// When the request was answered, the answer is handed over: the
    /// request was replied to, or the server went away, which is
    /// `PortRemoteDead`. Otherwise one of the threads that wait for a
    /// request is woken, nothing is returned, and the caller has to give up
    /// the CPU until it is woken itself.
    pub fn resume_request(&self, session: &mut Session, sched: &mut Scheduler, current: usize) -> (r:
        Option<Result<(), UserspaceError>>)
        requires
            old(session).wf(),
            old(sched)@.wf(),
        ensures
            final(session).wf(),
            final(sched)@.wf(),
            old(sched)@.evolves_to(final(sched)@),
            request_resumed(old(session)@, old(sched)@, current, final(session)@, final(sched)@, r),
    {
        let mut i: usize = 0;
        while i < session.answers.len() && session.answers[i].sender != current
            invariant
                i <= session@.answers.len(),
                session@ == old(session)@,
                forall|j: int| 0 <= j < i ==> session@.answers[j].sender != current,
            decreases session@.answers.len() - i,
        {
            i = i + 1;
        }
        proof {
            lemma_answer_for(session@.answers, current, i as int);
        }
        if i < session.answers.len() {
            let answer: Answer = session.answers.remove(i);
            proof {
                assert(session@.incoming == old(session)@.incoming);
                assert(session@.active == old(session)@.active);
            }
            return Some(answer.result);
        }
        // wake up an accepter, then wait for the answer
        wake_one(&mut session.accepters, sched);
        proof {
            assert(session@.incoming == old(session)@.incoming);
            assert(session@.active == old(session)@.active);
        }
        None
    }
}

/// What asking about a request comes to.
pub open spec fn request_resumed(
    session: SessionView,
    sched: SchedulerView,
    current: usize,
    session_after: SessionView,
    sched_after: SchedulerView,
    r: Option<Result<(), UserspaceError>>,
) -> bool {
    let pos = answer_for(session.answers, current);
    if pos < session.answers.len() {
        &&& r == Some(session.answers[pos].result)
        &&& session_after == (SessionView { answers: session.answers.remove(pos), ..session })
        &&& sched_after == sched
    } else {
        &&& r is None
        &&& session_after == (SessionView {
            accepters: after_waking_one(session.accepters, sched),
            ..session
        })
        &&& sched_after == sched_after_waking_one(session.accepters, sched)
    }
}

/// What the receiver offers for the data of X descriptors, as the message
/// engine sees it: nothing unless the receiver says it has C descriptors.
pub open spec fn offered(buf: Seq<u8>, has_c_descriptors: bool) -> (int, Seq<CBuffer>) {
    if has_c_descriptors {
        (
            if c_behavior(buf)->Ok_0.0 >= 3 {
                3
            } else {
                c_behavior(buf)->Ok_0.0
            },
            c_behavior(buf)->Ok_0.1,
        )
    } else {
        (0, Seq::<CBuffer>::empty())
    }
}

/// The two processes and the message before a message is passed from
/// `from` to `to`.
pub open spec fn transfer_start(
    from: &ProcessStruct,
    to: &ProcessStruct,
    to_buf: Seq<u8>,
    buffers: Seq<Buffer>,
    copies: Seq<CopyRequest>,
) -> Transfer {
    Transfer {
        to_buf,
        from_handles: from.phandles@,
        to_handles: to.phandles@,
        to_next: to.phandles.next_id(),
        from_mem: from.pmemory@,
        to_mem: to.pmemory@,
        buffers,
        copies,
        result: Ok(()),
    }
}

/// Whether a process is what passing a message leaves of it: its handle
/// table and its address space are those of the transfer, everything else
/// is as before.
pub open spec fn process_after(
    after: &ProcessStruct,
    before: &ProcessStruct,
    handles: Map<u32, crate::handle::Handle>,
    next: int,
    mem: Seq<crate::memory::Mapping>,
) -> bool {
    &&& after.wf()
    &&& after.pid == before.pid
    &&& after.name@ == before.name@
    &&& after.entrypoint == before.entrypoint
    &&& after.threads@ == before.threads@
    &&& after.state == before.state
    &&& after.capabilities.masks() == before.capabilities.masks()
    &&& after.capabilities.declared() == before.capabilities.declared()
    &&& after.phandles@ == handles
    &&& after.phandles.next_id() == next
    &&& after.pmemory@ == mem
}

impl ServerSession {
    /// Receives the active request of the session: the message of the
    /// sender is passed into `buf`, the buffer of the calling thread.
    ///
    /// `sender_bytes` is the message as it stands in the buffer of the
    /// sender, `sender` the process that sent it, `receiver` the process of
    /// the calling thread. With `has_c_descriptors`, `buf` is read first
    /// for the C descriptors it offers. The buffers that are mapped for the
    /// request are recorded with it. The bytes to copy from the sender to
    /// the receiver are added to `copies`.
    ///
    /// Fails when the sender has unmapped its message buffer, when the C
    /// descriptors cannot be read, and as [`pass_message`] does.
    pub fn receive(
        &self,
        session: &mut Session,
        sender: &mut ProcessStruct,
        receiver: &mut ProcessStruct,
        sender_bytes: &[u8],
        buf: &mut Vec<u8>,
        has_c_descriptors: bool,
        current_thread: ThreadRef,
        copies: &mut Vec<CopyRequest>,
    ) -> (r: Result<(), UserspaceError>)
        requires
            old(session).wf(),
            old(session)@.active is Some,
            old(sender).wf(),
            old(receiver).wf(),
        ensures
            final(session).wf(),
            final(buf)@.len() == old(buf)@.len(),
            ({
                let active = old(session)@.active->Some_0;
                let mirrored = mirror_verdict(
                    old(sender).pmemory@,
                    active.sender_buf.0 as int,
                    active.sender_bufsize as int,
                );
                let end = message_passed(
                    sender_bytes@,
                    old(sender).pid,
                    transfer_start(
                        old(sender),
                        old(receiver),
                        old(buf)@,
                        active.buffers,
                        old(copies)@,
                    ),
                    current_thread,
                    ProcessRef { pid: old(receiver).pid },
                    false,
                    offered(old(buf)@, has_c_descriptors),
                );
                if mirrored is Err || (has_c_descriptors && c_behavior(old(buf)@) is Err) {
                    &&& r == Err::<(), UserspaceError>(
                        userspace_code(
                            if mirrored is Err {
                                mirrored->Err_0
                            } else {
                                c_behavior(old(buf)@)->Err_0
                            },
                        ),
                    )
                    &&& final(session)@ == old(session)@
                    &&& final(buf)@ == old(buf)@
                    &&& final(copies)@ == old(copies)@
                    &&& process_after(
                        final(sender),
                        old(sender),
                        old(sender).phandles@,
                        old(sender).phandles.next_id(),
                        old(sender).pmemory@,
                    )
                    &&& process_after(
                        final(receiver),
                        old(receiver),
                        old(receiver).phandles@,
                        old(receiver).phandles.next_id(),
                        old(receiver).pmemory@,
                    )
                } else {
                    &&& r == end.result
                    &&& final(buf)@ == end.to_buf
                    &&& final(copies)@ == end.copies
                    &&& final(session)@ == (SessionView {
                        active: Some(RequestView { buffers: end.buffers, ..active }),
                        ..old(session)@
                    })
                    &&& process_after(
                        final(sender),
                        old(sender),
                        end.from_handles,
                        old(sender).phandles.next_id(),
                        end.from_mem,
                    )
                    &&& process_after(
                        final(receiver),
                        old(receiver),
                        end.to_handles,
                        end.to_next,
                        end.to_mem,
                    )
                }
            }),
    {
        let mut active: Request = session.active_request.take().unwrap();
        let ghost request = active@;
        match sender.pmemory.mirror_mapping(active.sender_buf, active.sender_bufsize) {
            Ok(_) => {},
            Err(err) => {
                session.active_request = Some(active);
                assert(session@ =~= old(session)@);
                return Err(UserspaceError::from(err));
            },
        }
        let c_bufs: CBufBehavior = if has_c_descriptors {
            match find_c_descriptors(buf.as_slice()) {
                Ok(found) => found,
                Err(err) => {
                    session.active_request = Some(active);
                    assert(session@ =~= old(session)@);
                    return Err(UserspaceError::from(err));
                },
            }
        } else {
            CBufBehavior::Disabled
        };
        let current_process = ProcessRef { pid: receiver.pid };
        let r = pass_message(
            sender_bytes,
            sender.pid,
            &mut sender.phandles,
            &mut sender.pmemory,
            buf,
            &mut receiver.phandles,
            &mut receiver.pmemory,
            current_thread,
            current_process,
            false,
            &mut active.buffers,
            &c_bufs,
            copies,
        );
        session.active_request = Some(active);
        proof {
            assert(session@.incoming == old(session)@.incoming);
        }
        r
    }

    /// Replies to the active request of the session: the message in `buf`
    /// is passed into the buffer of the sender of the request, the buffers
    /// that were mapped for the request are unmapped, the request is
    /// answered, and its sender is woken.
    ///
    /// `sender` is the process that sent the request, `receiver` the
    /// process of the calling thread, `sender_bytes` the message buffer of
    /// the sender. The bytes to copy from the receiver to the sender are
    /// added to `copies`.
    ///
    /// Fails with `InvalidState` when no request is active. Fails with
    /// `PortRemoteDead` when the sender is gone or on its way out: nothing
    /// is copied, and nobody is woken. When the sender has unmapped its
    /// message buffer, or the message cannot be passed, the request is
    /// answered with the error, which is returned as well.
    ///
    /// Whenever there was an active request it is used up, and the buffers
    /// that were mapped for it are unmapped from the receiver, whether the
    /// reply succeeds or not.
    pub fn reply(
        &self,
        session: &mut Session,
        sched: &mut Scheduler,
        sender: &mut ProcessStruct,
        receiver: &mut ProcessStruct,
        buf: &[u8],
        sender_bytes: &mut Vec<u8>,
        current_thread: ThreadRef,
        copies: &mut Vec<CopyRequest>,
    ) -> (r: Result<(), UserspaceError>)
        requires
            old(session).wf(),
            old(sched)@.wf(),
            old(sender).wf(),
            old(receiver).wf(),
        ensures
            final(session).wf(),
            final(sched)@.wf(),
            old(sched)@.evolves_to(final(sched)@),
            final(sender_bytes)@.len() == old(sender_bytes)@.len(),
            replied(
                old(session)@,
                old(sched)@,
                old(sender),
                old(receiver),
                buf@,
                old(sender_bytes)@,
                current_thread,
                old(copies)@,
                final(session)@,
                final(sched)@,
                final(sender),
                final(receiver),
                final(sender_bytes)@,
                final(copies)@,
                r,
            ),
    {
        let mut active: Request = match session.active_request.take() {
            Some(active) => active,
            None => {
                assert(session@ =~= old(session)@);
                return Err(UserspaceError::InvalidState);
            },
        };
        proof {
            assert(session@.incoming == old(session)@.incoming);
            lemma_enqueue(sched@, active.sender);
        }
        let sender_alive: bool = match sched.get_thread(active.sender) {
            Some(thread) => thread.state != ThreadState::TerminationPending,
            None => false,
        };
        if !sender_alive {
            // nobody is left to take the reply
            release_buffers(&mut active.buffers, &mut receiver.pmemory);
            return Err(UserspaceError::PortRemoteDead);
        }
        let result: Result<(), UserspaceError> = match sender.pmemory.mirror_mapping(
            active.sender_buf,
            active.sender_bufsize,
        ) {
            Ok(_) => {
                let current_process = ProcessRef { pid: receiver.pid };
                pass_message(
                    buf,
                    receiver.pid,
                    &mut receiver.phandles,
                    &mut receiver.pmemory,
                    sender_bytes,
                    &mut sender.phandles,
                    &mut sender.pmemory,
                    current_thread,
                    current_process,
                    true,
                    &mut active.buffers,
                    &CBufBehavior::Disabled,
                    copies,
                )
            },
            Err(err) => {
                // the buffers of the request are taken away all the same
                let _ = unmap_buffers(
                    &mut active.buffers,
                    &mut receiver.pmemory,
                    &sender.pmemory,
                    copies,
                );
                Err(UserspaceError::from(err))
            },
        };
        session.answers.push(Answer { sender: active.sender, result });
        sched.add_to_schedule_queue(active.sender);
        proof {
            assert(session@.incoming == old(session)@.incoming);
        }
        result
    }

    /// Replies to a request whose sender cannot be found any more, so that
    /// nobody is left to take the reply: the request is used up without an
    /// answer, and the buffers that were mapped for it are unmapped from
    /// the receiver. Nothing is copied and nobody is woken.
    ///
    /// Returns the error the reply ends with: `PortRemoteDead`, or
    /// `InvalidState`, with nothing changed, when no request is active.
    pub fn abandon_request(&self, session: &mut Session, receiver: &mut ProcessStruct) -> (r:
        UserspaceError)
        requires
            old(session).wf(),
            old(receiver).wf(),
        ensures
            final(session).wf(),
            old(session)@.active is None ==> r == UserspaceError::InvalidState && final(session)@
                == old(session)@ && process_after(
                final(receiver),
                old(receiver),
                old(receiver).phandles@,
                old(receiver).phandles.next_id(),
                old(receiver).pmemory@,
            ),
            old(session)@.active is Some ==> r == UserspaceError::PortRemoteDead && final(session)@
                == (SessionView { active: None, ..old(session)@ }) && process_after(
                final(receiver),
                old(receiver),
                old(receiver).phandles@,
                old(receiver).phandles.next_id(),
                buffers_released(old(receiver).pmemory@, old(session)@.active->Some_0.buffers, 0),
            ),
    {
        let mut active: Request = match session.active_request.take() {
            Some(active) => active,
            None => {
                assert(session@ =~= old(session)@);
                return UserspaceError::InvalidState;
            },
        };
        proof {
            assert(session@.incoming == old(session)@.incoming);
        }
        release_buffers(&mut active.buffers, &mut receiver.pmemory);
        UserspaceError::PortRemoteDead
    }
}

/// Checks that a message is not passed from a process to itself, which the
/// message engine cannot do: the two sides must be different processes.
/// Fails with `InvalidCombination` when they are the same.
pub fn check_distinct_processes(sender: ProcessRef, receiver: ProcessRef) -> (r: Result<
    (),
    UserspaceError,
>)
    ensures
        r == (if sender.pid == receiver.pid {
            Err::<(), UserspaceError>(UserspaceError::InvalidCombination)
        } else {
            Ok::<(), UserspaceError>(())
        }),
{
    if sender.pid == receiver.pid {
        Err(UserspaceError::InvalidCombination)
    } else {
        Ok(())
    }
}

/// What replying to the active request of a session comes to.
pub open spec fn replied(
    session: SessionView,
    sched: SchedulerView,
    sender: &ProcessStruct,
    receiver: &ProcessStruct,
    buf: Seq<u8>,
    sender_bytes: Seq<u8>,
    current_thread: ThreadRef,
    copies: Seq<CopyRequest>,
    session_after: SessionView,
    sched_after: SchedulerView,
    sender_after: &ProcessStruct,
    receiver_after: &ProcessStruct,
    sender_bytes_after: Seq<u8>,
    copies_after: Seq<CopyRequest>,
    r: Result<(), UserspaceError>,
) -> bool {
    let active = session.active->Some_0;
    let mirrored = mirror_verdict(
        sender.pmemory@,
        active.sender_buf.0 as int,
        active.sender_bufsize as int,
    );
    let end = message_passed(
        buf,
        receiver.pid,
        transfer_start(receiver, sender, sender_bytes, active.buffers, copies),
        current_thread,
        ProcessRef { pid: receiver.pid },
        true,
        (0, Seq::<CBuffer>::empty()),
    );
    let sender_unchanged = process_after(
        sender_after,
        sender,
        sender.phandles@,
        sender.phandles.next_id(),
        sender.pmemory@,
    );
    let unmapped = buffers_unmapped(
        UnmapPass { mem: receiver.pmemory@, copies, error: None },
        sender.pmemory@,
        active.buffers,
        0,
    );
    if session.active is None {
        &&& r == Err::<(), UserspaceError>(UserspaceError::InvalidState)
        &&& session_after == session
        &&& sched_after == sched
        &&& sender_bytes_after == sender_bytes
        &&& copies_after == copies
        &&& sender_unchanged
        &&& process_after(
            receiver_after,
            receiver,
            receiver.phandles@,
            receiver.phandles.next_id(),
            receiver.pmemory@,
        )
    } else if !sched.alive(active.sender) || sched.thread(active.sender).state
        == ThreadState::TerminationPending {
        &&& r == Err::<(), UserspaceError>(UserspaceError::PortRemoteDead)
        &&& session_after == (SessionView { active: None, ..session })
        &&& sched_after == sched
        &&& sender_bytes_after == sender_bytes
        &&& copies_after == copies
        &&& sender_unchanged
        &&& process_after(
            receiver_after,
            receiver,
            receiver.phandles@,
            receiver.phandles.next_id(),
            buffers_released(receiver.pmemory@, active.buffers, 0),
        )
    } else {
        &&& session_after == (SessionView {
            active: None,
            answers: session.answers.push(Answer { sender: active.sender, result: r }),
            ..session
        })
        &&& sched_after == sched.enqueue(active.sender)
        &&& if mirrored is Err {
            &&& r == Err::<(), UserspaceError>(userspace_code(mirrored->Err_0))
            &&& sender_bytes_after == sender_bytes
            &&& copies_after == unmapped.copies
            &&& sender_unchanged
            &&& process_after(
                receiver_after,
                receiver,
                receiver.phandles@,
                receiver.phandles.next_id(),
                unmapped.mem,
            )
        } else {
            &&& r == end.result
            &&& sender_bytes_after == end.to_buf
            &&& copies_after == end.copies
            &&& process_after(sender_after, sender, end.to_handles, end.to_next, end.to_mem)
            &&& process_after(
                receiver_after,
                receiver,
                end.from_handles,
                receiver.phandles.next_id(),
                end.from_mem,
            )
        }
    }
}

/// A request is answered in the very step that wakes its sender, and a
/// sender that asks about its request is handed an answer only when one was
/// given: whoever sees the result of a request sees it after the reply
/// assigned it.
pub proof fn law_answer_precedes_wakeup(
    answered: SessionView,
    sched: SchedulerView,
    sender: usize,
    after: SessionView,
    sched_after: SchedulerView,
    seen: Option<Result<(), UserspaceError>>,
)
    requires
        request_resumed(answered, sched, sender, after, sched_after, seen),
    ensures
        seen is Some <==> exists|i: int|
            0 <= i < answered.answers.len() && (#[trigger] answered.answers[i]).sender == sender,
        seen is Some ==> exists|i: int|
            0 <= i < answered.answers.len() && (#[trigger] answered.answers[i]).sender == sender
                && answered.answers[i].result == seen->Some_0,
{
    lemma_answer_found(answered.answers, sender);
}

/// The position of the answer for a thread is that of an answer for it, if
/// there is one.
pub proof fn lemma_answer_found(list: Seq<Answer>, sender: usize)
    ensures
        0 <= answer_for(list, sender) <= list.len(),
        answer_for(list, sender) < list.len() ==> list[answer_for(list, sender)].sender == sender,
        answer_for(list, sender) == list.len() ==> forall|i: int|
            0 <= i < list.len() ==> (#[trigger] list[i]).sender != sender,
    decreases list.len(),
{
    if list.len() > 0 {
        lemma_answer_found(list.drop_last(), sender);
        if answer_for(list, sender) == list.len() {
            assert forall|i: int| 0 <= i < list.len() implies (#[trigger] list[i]).sender != sender by {
                if i < list.len() - 1 {
                    assert(list.drop_last()[i].sender != sender);
                }
            }
        }
    }
}

} // verus!
