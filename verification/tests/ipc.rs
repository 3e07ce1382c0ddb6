use sunrise_core::error::MemoryType;
use sunrise_core::error::UserspaceError;
use sunrise_core::handle::ClientSession;
use sunrise_core::handle::Handle;
use sunrise_core::handle::ReadableEvent;
use sunrise_core::handle::ServerSession;
use sunrise_core::handle::ThreadRef;
use sunrise_core::ipc::buffer::CopyRequest;
use sunrise_core::ipc::port::new as new_port;
use sunrise_core::ipc::port::ConnectStep;
use sunrise_core::ipc::session::new as new_session;
use sunrise_core::mem::VirtualAddress;
use sunrise_core::memory::MappingAccessRights;
use sunrise_core::process::PidAllocator;
use sunrise_core::process::ProcInfo;
use sunrise_core::process::ProcessState;
use sunrise_core::process::ProcessStruct;
use sunrise_core::scheduler::KernelStack;
use sunrise_core::scheduler::Scheduler;
use sunrise_core::scheduler::ThreadResources;
use sunrise_core::scheduler::ThreadState;

const CLIENT_BUF: usize = 0x10000;

struct World {
    sched: Scheduler,
    client: ProcessStruct,
    server: ProcessStruct,
    client_thread: usize,
    server_thread: usize,
}

fn resources(n: usize) -> ThreadResources {
    ThreadResources {
        kstack: KernelStack { address: 0xC000_0000 + n * 0x1000 },
        tls_region: VirtualAddress(0x7000_0000 + n * 0x1000),
    }
}

fn process(pids: &mut PidAllocator, list: &mut Vec<usize>, sched: &mut Scheduler, name: &str) -> (ProcessStruct, usize) {
    let info = ProcInfo {
        name: name.as_bytes().to_vec(),
        process_category: 0,
        title_id: 0,
        code_addr: 0x0040_0000,
        code_num_pages: 1,
        flags: 0,
    };
    let mut p = ProcessStruct::new(pids, list, &info, None).unwrap();
    p.start(sched, 0, 0x1000, resources(p.pid)).unwrap();
    let thread = p.threads[0];
    (p, thread)
}

/// Two started processes; the client runs.
fn world() -> World {
    let mut pids = PidAllocator::new();
    let mut list = Vec::new();
    let mut sched = Scheduler::new();
    let (mut client, client_thread) = process(&mut pids, &mut list, &mut sched, "client");
    let (server, server_thread) = process(&mut pids, &mut list, &mut sched, "server");
    client
        .pmemory
        .create_regular_mapping(VirtualAddress(CLIENT_BUF), 0x1000, MemoryType::Heap, MappingAccessRights::u_rw())
        .unwrap();
    assert_eq!(sched.schedule_next(), Some(client_thread));
    World { sched, client, server, client_thread, server_thread }
}

/// The running thread gives up the CPU to the next one.
fn switch(w: &mut World) -> Option<usize> {
    w.sched.suspend_current();
    w.sched.schedule_next()
}

fn message(ty: u16, raw: u32) -> Vec<u8> {
    let header: u64 = ty as u64 | 1 << 32;
    let mut bytes = header.to_le_bytes().to_vec();
    bytes.extend(raw.to_le_bytes());
    bytes.extend([0u8; 4]);
    bytes
}

#[test]
fn port_rendezvous() {
    let mut w = world();
    let (mut port, server_port, client_port) = new_port(1, 16);
    assert!(!server_port.is_signaled(&port));
    // the client connects to the empty port: it has to suspend
    assert_eq!(client_port.connect(&mut port, &mut w.sched, w.client_thread), Ok(ConnectStep::Suspend));
    assert!(server_port.is_signaled(&port));
    assert_eq!(switch(&mut w), Some(w.server_thread));
    // the server accepts, which wakes the client
    let (session, server_session) = server_port.accept(&mut port, &mut w.sched, 77).unwrap();
    assert!(w.sched.is_in_schedule_queue(w.client_thread));
    assert!(!server_port.is_signaled(&port));
    assert_eq!(switch(&mut w), Some(w.client_thread));
    // both have returned now, with the two sides of one session
    let client_session = match client_port.resume_connect(&mut port, &mut w.sched, w.client_thread) {
        Ok(ConnectStep::Connected(s)) => s,
        other => panic!("{:?}", other),
    };
    assert_eq!(server_session, ServerSession { session: 77 });
    assert_eq!(client_session, ClientSession { session: 77 });
    assert_eq!(session.id(), 77);
    assert_eq!(session.servercount(), 1);
}

#[test]
fn accept_without_connection_waits() {
    let mut w = world();
    let (mut port, server_port, client_port) = new_port(1, 16);
    assert!(server_port.accept(&mut port, &mut w.sched, 1).is_none());
    // the accepter registers and sleeps; a connecting client wakes it
    assert_eq!(switch(&mut w), Some(w.server_thread));
    server_port.register(&mut port, w.server_thread);
    server_port.register(&mut port, 99);
    w.sched.add_to_schedule_queue(w.client_thread);
    assert_eq!(switch(&mut w), Some(w.client_thread));
    assert_eq!(w.sched.get_thread(w.server_thread).unwrap().state, ThreadState::Paused);
    assert_eq!(client_port.connect(&mut port, &mut w.sched, w.client_thread), Ok(ConnectStep::Suspend));
    // the accepter that is gone was passed over
    assert_eq!(w.sched.queued_threads(), vec![w.server_thread]);
}

#[test]
fn accept_serves_the_last_connection_first() {
    let mut w = world();
    let (mut port, server_port, client_port) = new_port(1, 16);
    client_port.connect(&mut port, &mut w.sched, w.client_thread).unwrap();
    client_port.connect(&mut port, &mut w.sched, w.server_thread).unwrap();
    server_port.accept(&mut port, &mut w.sched, 5).unwrap();
    assert_eq!(
        client_port.resume_connect(&mut port, &mut w.sched, w.server_thread),
        Ok(ConnectStep::Connected(ClientSession { session: 5 }))
    );
    assert_eq!(client_port.resume_connect(&mut port, &mut w.sched, w.client_thread), Ok(ConnectStep::Suspend));
}

#[test]
fn dead_port_fails_connectors() {
    let mut w = world();
    let (mut port, server_port, client_port) = new_port(1, 16);
    let second = server_port.duplicate(&mut port);
    assert_eq!(port.servercount(), 2);
    assert_eq!(client_port.connect(&mut port, &mut w.sched, w.client_thread), Ok(ConnectStep::Suspend));
    assert_eq!(switch(&mut w), Some(w.server_thread));
    server_port.close(&mut port, &mut w.sched);
    // one server side is left: nothing happens
    assert!(!w.sched.is_in_schedule_queue(w.client_thread));
    second.close(&mut port, &mut w.sched);
    assert!(w.sched.is_in_schedule_queue(w.client_thread));
    assert_eq!(switch(&mut w), Some(w.client_thread));
    assert_eq!(client_port.resume_connect(&mut port, &mut w.sched, w.client_thread), Err(UserspaceError::PortRemoteDead));
    assert_eq!(client_port.connect(&mut port, &mut w.sched, w.client_thread), Err(UserspaceError::PortRemoteDead));
}

#[test]
fn send_and_reply() {
    let mut w = world();
    let (mut session, server, client) = new_session(1);
    let mut client_bytes = message(0x11, 0xAAAA_AAAA);
    assert_eq!(client_bytes.len(), 16);
    // the client sends and suspends
    assert_eq!(
        client.send_request(&mut session, &mut w.sched, w.client_thread, VirtualAddress(CLIENT_BUF), 16),
        Ok(None)
    );
    assert_eq!(session.pending_requests(), 1);
    assert_eq!(switch(&mut w), Some(w.server_thread));
    // the server receives identical bytes
    assert!(server.is_signaled(&mut session));
    assert!(session.has_active_request());
    let mut server_bytes = vec![0u8; 16];
    let mut copies: Vec<CopyRequest> = Vec::new();
    let me = ThreadRef { thread: w.server_thread };
    assert_eq!(
        server.receive(&mut session, &mut w.client, &mut w.server, &client_bytes, &mut server_bytes, false, me, &mut copies),
        Ok(())
    );
    assert_eq!(server_bytes, client_bytes);
    // the server replies with different bytes, which wakes the client
    let reply = message(0x22, 0xBBBB_BBBB);
    assert_eq!(
        server.reply(&mut session, &mut w.sched, &mut w.client, &mut w.server, &reply, &mut client_bytes, me, &mut copies),
        Ok(())
    );
    assert!(!session.has_active_request());
    assert!(w.sched.is_in_schedule_queue(w.client_thread));
    assert_eq!(client_bytes, reply);
    assert!(copies.is_empty());
    assert_eq!(switch(&mut w), Some(w.client_thread));
    assert_eq!(client.resume_request(&mut session, &mut w.sched, w.client_thread), Some(Ok(())));
    // the answer is handed over once
    assert_eq!(client.resume_request(&mut session, &mut w.sched, w.client_thread), None);
}

#[test]
fn sender_sees_the_answer_only_after_the_reply() {
    let mut w = world();
    let (mut session, server, client) = new_session(1);
    let mut client_bytes = message(0x11, 1);
    client.send_request(&mut session, &mut w.sched, w.client_thread, VirtualAddress(CLIENT_BUF), 16).unwrap();
    // woken for whatever reason, the sender finds no answer and goes back to sleep
    assert_eq!(client.resume_request(&mut session, &mut w.sched, w.client_thread), None);
    assert!(server.is_signaled(&mut session));
    assert_eq!(client.resume_request(&mut session, &mut w.sched, w.client_thread), None);
    let me = ThreadRef { thread: w.server_thread };
    let mut copies = Vec::new();
    server
        .receive(&mut session, &mut w.client, &mut w.server, &client_bytes.clone(), &mut vec![0u8; 16], false, me, &mut copies)
        .unwrap();
    assert_eq!(client.resume_request(&mut session, &mut w.sched, w.client_thread), None);
    server
        .reply(&mut session, &mut w.sched, &mut w.client, &mut w.server, &message(0x22, 2), &mut client_bytes, me, &mut copies)
        .unwrap();
    assert_eq!(client.resume_request(&mut session, &mut w.sched, w.client_thread), Some(Ok(())));
}

#[test]
fn requests_are_served_in_the_order_sent() {
    let mut w = world();
    let (mut session, server, client) = new_session(1);
    client.send_request(&mut session, &mut w.sched, w.client_thread, VirtualAddress(CLIENT_BUF), 16).unwrap();
    client.send_request(&mut session, &mut w.sched, w.server_thread, VirtualAddress(CLIENT_BUF + 0x100), 16).unwrap();
    assert_eq!(session.pending_requests(), 2);
    assert!(server.is_signaled(&mut session));
    assert_eq!(session.pending_requests(), 1);
    // one request at a time: the second one waits until the first was replied to
    assert!(server.is_signaled(&mut session));
    assert_eq!(session.pending_requests(), 1);
    let me = ThreadRef { thread: w.server_thread };
    let mut copies = Vec::new();
    let mut first = message(1, 1);
    server
        .reply(&mut session, &mut w.sched, &mut w.client, &mut w.server, &message(2, 2), &mut first, me, &mut copies)
        .unwrap();
    // the first sender was answered
    assert_eq!(client.resume_request(&mut session, &mut w.sched, w.server_thread), None);
    assert_eq!(client.resume_request(&mut session, &mut w.sched, w.client_thread), Some(Ok(())));
    assert!(server.is_signaled(&mut session));
    assert_eq!(session.pending_requests(), 0);
}

#[test]
fn handle_move() {
    let mut w = world();
    let (mut session, server, client) = new_session(1);
    // the sender creates an event and sends it as a move handle
    let event = Handle::ReadableEvent(ReadableEvent { event: 9 });
    let old_id = w.client.phandles.add_handle(event).unwrap();
    let header: u64 = 1 << 63;
    let mut client_bytes = header.to_le_bytes().to_vec();
    client_bytes.extend((1u32 << 5).to_le_bytes());
    client_bytes.extend(old_id.to_le_bytes());
    client.send_request(&mut session, &mut w.sched, w.client_thread, VirtualAddress(CLIENT_BUF), 16).unwrap();
    assert_eq!(switch(&mut w), Some(w.server_thread));
    assert!(server.is_signaled(&mut session));
    let me = ThreadRef { thread: w.server_thread };
    let mut server_bytes = vec![0u8; 16];
    let mut copies = Vec::new();
    server
        .receive(&mut session, &mut w.client, &mut w.server, &client_bytes, &mut server_bytes, false, me, &mut copies)
        .unwrap();
    let new_id = u32::from_le_bytes([server_bytes[12], server_bytes[13], server_bytes[14], server_bytes[15]]);
    assert_eq!(w.client.phandles.get_handle_no_alias(old_id), Err(UserspaceError::InvalidHandle));
    assert_eq!(w.server.phandles.get_handle_no_alias(new_id), Ok(event));
}

#[test]
fn server_death() {
    let mut w = world();
    let (mut session, server, client) = new_session(1);
    client.send_request(&mut session, &mut w.sched, w.client_thread, VirtualAddress(CLIENT_BUF), 16).unwrap();
    client.send_request(&mut session, &mut w.sched, w.server_thread, VirtualAddress(CLIENT_BUF), 16).unwrap();
    assert!(server.is_signaled(&mut session));
    assert_eq!(switch(&mut w), Some(w.server_thread));
    assert_eq!(w.sched.get_thread(w.client_thread).unwrap().state, ThreadState::Paused);
    // the last server side goes away while the requests are in flight
    server.close(&mut session, &mut w.sched);
    assert_eq!(session.servercount(), 0);
    assert!(!session.has_active_request());
    assert_eq!(session.pending_requests(), 0);
    // the client does not hang: it is woken and told
    assert_eq!(switch(&mut w), Some(w.client_thread));
    assert_eq!(
        client.resume_request(&mut session, &mut w.sched, w.client_thread),
        Some(Err(UserspaceError::PortRemoteDead))
    );
    assert_eq!(
        client.resume_request(&mut session, &mut w.sched, w.server_thread),
        Some(Err(UserspaceError::PortRemoteDead))
    );
    // nothing can be sent any more
    assert_eq!(
        client.send_request(&mut session, &mut w.sched, w.client_thread, VirtualAddress(CLIENT_BUF), 16),
        Err(UserspaceError::PortRemoteDead)
    );
    assert_eq!(session.pending_requests(), 0);
}

#[test]
fn kill_mid_send() {
    let mut w = world();
    let (mut session, server, client) = new_session(1);
    let mut client_bytes = message(0x11, 1);
    client.send_request(&mut session, &mut w.sched, w.client_thread, VirtualAddress(CLIENT_BUF), 16).unwrap();
    assert_eq!(switch(&mut w), Some(w.server_thread));
    assert!(server.is_signaled(&mut session));
    // the client's process is killed while its request waits for the reply
    w.client.terminate(&mut w.sched).unwrap();
    assert_eq!(w.client.state(), ProcessState::Exited);
    let queued = w.sched.queued_threads();
    let me = ThreadRef { thread: w.server_thread };
    let mut copies = Vec::new();
    let before = client_bytes.clone();
    assert_eq!(
        server.reply(&mut session, &mut w.sched, &mut w.client, &mut w.server, &message(0x22, 2), &mut client_bytes, me, &mut copies),
        Err(UserspaceError::PortRemoteDead)
    );
    // nothing was written, nobody was woken, and the dead thread never runs again
    assert_eq!(client_bytes, before);
    assert_eq!(w.sched.queued_threads(), queued);
    assert!(!session.has_active_request());
    assert_eq!(w.sched.get_thread(w.client_thread).unwrap().state, ThreadState::TerminationPending);
    assert_eq!(switch(&mut w), None);
}

#[test]
fn reply_without_request_is_an_error() {
    let mut w = world();
    let (mut session, server, _client) = new_session(1);
    let me = ThreadRef { thread: w.server_thread };
    assert_eq!(
        server.reply(&mut session, &mut w.sched, &mut w.client, &mut w.server, &message(1, 1), &mut vec![0u8; 16], me, &mut Vec::new()),
        Err(UserspaceError::InvalidState)
    );
}

#[test]
fn receive_needs_the_senders_buffer_mapped() {
    let mut w = world();
    let (mut session, server, client) = new_session(1);
    client.send_request(&mut session, &mut w.sched, w.client_thread, VirtualAddress(0x50000), 16).unwrap();
    assert!(server.is_signaled(&mut session));
    let me = ThreadRef { thread: w.server_thread };
    let mut server_bytes = vec![0u8; 16];
    assert_eq!(
        server.receive(&mut session, &mut w.client, &mut w.server, &message(1, 1), &mut server_bytes, false, me, &mut Vec::new()),
        Err(UserspaceError::InvalidAddress)
    );
    assert_eq!(server_bytes, vec![0u8; 16]);
    assert!(session.has_active_request());
    // the reply tells the sender
    let mut client_bytes = message(1, 1);
    assert_eq!(
        server.reply(&mut session, &mut w.sched, &mut w.client, &mut w.server, &message(2, 2), &mut client_bytes, me, &mut Vec::new()),
        Err(UserspaceError::InvalidAddress)
    );
    assert_eq!(
        client.resume_request(&mut session, &mut w.sched, w.client_thread),
        Some(Err(UserspaceError::InvalidAddress))
    );
}

#[test]
fn receive_reads_the_c_descriptors_of_the_receiver() {
    let mut w = world();
    let (mut session, server, client) = new_session(1);
    // a message with one X descriptor of 8 bytes at the start of the client's buffer
    let header: u64 = 1 << 16;
    let mut client_bytes = header.to_le_bytes().to_vec();
    client_bytes.extend((8u32 << 16).to_le_bytes());
    client_bytes.extend((CLIENT_BUF as u32).to_le_bytes());
    client.send_request(&mut session, &mut w.sched, w.client_thread, VirtualAddress(CLIENT_BUF), 16).unwrap();
    assert!(server.is_signaled(&mut session));
    // the receiver offers a single C buffer
    let offer: u64 = 2 << 42;
    let mut server_bytes = offer.to_le_bytes().to_vec();
    server_bytes.extend(0x9000u32.to_le_bytes());
    server_bytes.extend((0x40u32 << 16).to_le_bytes());
    let me = ThreadRef { thread: w.server_thread };
    let mut copies = Vec::new();
    assert_eq!(
        server.receive(&mut session, &mut w.client, &mut w.server, &client_bytes, &mut server_bytes, true, me, &mut copies),
        Ok(())
    );
    assert_eq!(copies, vec![CopyRequest { from_addr: CLIENT_BUF, to_addr: 0x9000, len: 8 }]);
    // without the offer the X descriptor is refused
    let (mut session, server, client) = new_session(2);
    client.send_request(&mut session, &mut w.sched, w.client_thread, VirtualAddress(CLIENT_BUF), 16).unwrap();
    assert!(server.is_signaled(&mut session));
    assert_eq!(
        server.receive(&mut session, &mut w.client, &mut w.server, &client_bytes, &mut vec![0u8; 16], false, me, &mut copies),
        Err(UserspaceError::PortRemoteDead)
    );
}

#[test]
fn session_accepters_are_woken_by_requests() {
    let mut w = world();
    let (mut session, server, client) = new_session(1);
    let second = server.duplicate(&mut session);
    assert_eq!(session.servercount(), 2);
    assert!(!server.is_signaled(&mut session));
    assert_eq!(switch(&mut w), Some(w.server_thread));
    server.register(&mut session, w.server_thread);
    server.register(&mut session, w.server_thread);
    w.sched.add_to_schedule_queue(w.client_thread);
    assert_eq!(switch(&mut w), Some(w.client_thread));
    client.send_request(&mut session, &mut w.sched, w.client_thread, VirtualAddress(CLIENT_BUF), 16).unwrap();
    assert_eq!(w.sched.queued_threads(), vec![w.server_thread]);
    // registered once, woken once
    assert_eq!(client.resume_request(&mut session, &mut w.sched, w.client_thread), None);
    assert_eq!(w.sched.queued_threads(), vec![w.server_thread]);
    second.close(&mut session, &mut w.sched);
    assert_eq!(session.servercount(), 1);
    assert_eq!(session.pending_requests(), 1);
}

/// A request with one B descriptor for a small buffer of the client, received by the server.
fn received_with_buffer(w: &mut World) -> (sunrise_core::ipc::session::Session, ServerSession, ClientSession, Vec<u8>) {
    let (mut session, server, client) = new_session(1);
    let header: u64 = 1 << 24;
    let mut client_bytes = header.to_le_bytes().to_vec();
    client_bytes.extend(0x20u32.to_le_bytes());
    client_bytes.extend((CLIENT_BUF as u32 + 0x100).to_le_bytes());
    client_bytes.extend(1u32.to_le_bytes());
    client.send_request(&mut session, &mut w.sched, w.client_thread, VirtualAddress(CLIENT_BUF), 20).unwrap();
    assert!(server.is_signaled(&mut session));
    let me = ThreadRef { thread: w.server_thread };
    let mut server_bytes = vec![0u8; 20];
    let mut copies = Vec::new();
    server
        .receive(&mut session, &mut w.client, &mut w.server, &client_bytes, &mut server_bytes, false, me, &mut copies)
        .unwrap();
    assert_eq!(copies.len(), 1);
    (session, server, client, client_bytes)
}

fn layout(p: &ProcessStruct) -> Vec<(usize, usize)> {
    (0..p.pmemory.mapping_count()).map(|i| (p.pmemory.mapping_at(i).address, p.pmemory.mapping_at(i).length)).collect()
}

#[test]
fn reply_unmaps_the_buffers_of_the_request() {
    let mut w = world();
    let before = layout(&w.server);
    let (mut session, server, client, mut client_bytes) = received_with_buffer(&mut w);
    assert_eq!(layout(&w.server).len(), before.len() + 1);
    let me = ThreadRef { thread: w.server_thread };
    let mut copies = Vec::new();
    assert_eq!(
        server.reply(&mut session, &mut w.sched, &mut w.client, &mut w.server, &message(2, 2), &mut client_bytes, me, &mut copies),
        Ok(())
    );
    assert_eq!(layout(&w.server), before);
    // the writable buffer goes back to the client
    assert_eq!(copies.len(), 1);
    assert_eq!((copies[0].to_addr, copies[0].len), (CLIENT_BUF + 0x100, 0x20));
    assert_eq!(client.resume_request(&mut session, &mut w.sched, w.client_thread), Some(Ok(())));
}

#[test]
fn failed_reply_unmaps_the_buffers_all_the_same() {
    // the reply does not fit the buffer of the sender
    let mut w = world();
    let before = layout(&w.server);
    let (mut session, server, client, _) = received_with_buffer(&mut w);
    let me = ThreadRef { thread: w.server_thread };
    let mut copies = Vec::new();
    assert_eq!(
        server.reply(&mut session, &mut w.sched, &mut w.client, &mut w.server, &message(2, 2), &mut vec![0u8; 8], me, &mut copies),
        Err(UserspaceError::InvalidSize)
    );
    assert_eq!(layout(&w.server), before);
    assert!(!session.has_active_request());
    assert_eq!(client.resume_request(&mut session, &mut w.sched, w.client_thread), Some(Err(UserspaceError::InvalidSize)));

    // the reply brings a buffer of its own
    let mut w = world();
    let before = layout(&w.server);
    let (mut session, server, _client, mut client_bytes) = received_with_buffer(&mut w);
    let header: u64 = 1 << 20;
    let mut reply = header.to_le_bytes().to_vec();
    reply.extend([0u8; 12]);
    assert_eq!(
        server.reply(&mut session, &mut w.sched, &mut w.client, &mut w.server, &reply, &mut client_bytes, me, &mut copies),
        Err(UserspaceError::PortRemoteDead)
    );
    assert_eq!(layout(&w.server), before);

    // the sender has unmapped its message buffer
    let mut w = world();
    let before = layout(&w.server);
    let (mut session, server, client, mut client_bytes) = received_with_buffer(&mut w);
    w.client.pmemory.unmap(VirtualAddress(CLIENT_BUF), 0x1000).unwrap();
    assert_eq!(
        server.reply(&mut session, &mut w.sched, &mut w.client, &mut w.server, &message(2, 2), &mut client_bytes, me, &mut copies),
        Err(UserspaceError::InvalidAddress)
    );
    assert_eq!(layout(&w.server), before);
    assert!(!session.has_active_request());
    assert_eq!(client.resume_request(&mut session, &mut w.sched, w.client_thread), Some(Err(UserspaceError::InvalidAddress)));

    // the sender was killed
    let mut w = world();
    let before = layout(&w.server);
    let (mut session, server, _client, mut client_bytes) = received_with_buffer(&mut w);
    w.client.terminate(&mut w.sched).unwrap();
    assert_eq!(
        server.reply(&mut session, &mut w.sched, &mut w.client, &mut w.server, &message(2, 2), &mut client_bytes, me, &mut copies),
        Err(UserspaceError::PortRemoteDead)
    );
    assert_eq!(layout(&w.server), before);
}

#[test]
fn abandoned_request_leaves_nothing_mapped() {
    let mut w = world();
    let before = layout(&w.server);
    let (mut session, server, client, _) = received_with_buffer(&mut w);
    assert_eq!(server.abandon_request(&mut session, &mut w.server), UserspaceError::PortRemoteDead);
    assert_eq!(layout(&w.server), before);
    assert!(!session.has_active_request());
    // nobody was answered
    assert_eq!(client.resume_request(&mut session, &mut w.sched, w.client_thread), None);
    assert_eq!(server.abandon_request(&mut session, &mut w.server), UserspaceError::InvalidState);
}

#[test]
fn a_process_cannot_pass_a_message_to_itself() {
    use_check(3, 3, Err(UserspaceError::InvalidCombination));
    use_check(3, 4, Ok(()));
}

fn use_check(a: usize, b: usize, expected: Result<(), UserspaceError>) {
    let r = sunrise_core::ipc::session::check_distinct_processes(
        sunrise_core::handle::ProcessRef { pid: a },
        sunrise_core::handle::ProcessRef { pid: b },
    );
    assert_eq!(r, expected);
}
