use sunrise_core::error::KernelError;
use sunrise_core::error::MemoryType;
use sunrise_core::error::UserspaceError;
use sunrise_core::handle::ClientPort;
use sunrise_core::handle::ClientSession;
use sunrise_core::handle::Handle;
use sunrise_core::handle::HandleTable;
use sunrise_core::handle::IRQEvent;
use sunrise_core::handle::ProcessRef;
use sunrise_core::handle::ReadableEvent;
use sunrise_core::handle::ServerPort;
use sunrise_core::handle::ServerSession;
use sunrise_core::handle::SharedMemoryRef;
use sunrise_core::handle::ThreadRef;
use sunrise_core::handle::Waitable;
use sunrise_core::handle::WritableEvent;
use sunrise_core::types::Pid;

const THREAD: ThreadRef = ThreadRef { thread: 7 };
const PROCESS: ProcessRef = ProcessRef { pid: 3 };

#[test]
fn handle_ids_start_at_one_and_increase() {
    let mut table = HandleTable::new();
    let a = table.add_handle(Handle::ReadableEvent(ReadableEvent { event: 1 })).unwrap();
    let b = table.add_handle(Handle::WritableEvent(WritableEvent { event: 1 })).unwrap();
    let c = table.add_handle(Handle::ClientPort(ClientPort { port: 9 })).unwrap();
    assert_eq!((a, b, c), (1, 2, 3));
}

#[test]
fn handle_ids_are_never_reused() {
    let mut table = HandleTable::default();
    let a = table.add_handle(Handle::Process(PROCESS)).unwrap();
    assert_eq!(table.delete_handle(a), Ok(Handle::Process(PROCESS)));
    assert_eq!(table.get_handle(a, THREAD, PROCESS), Err(UserspaceError::InvalidHandle));
    let b = table.add_handle(Handle::Process(PROCESS)).unwrap();
    assert!(b > a);
    assert_eq!(table.get_handle(a, THREAD, PROCESS), Err(UserspaceError::InvalidHandle));
    assert_eq!(table.delete_handle(a), Err(UserspaceError::InvalidHandle));
}

#[test]
fn meta_handles_resolve_to_the_caller() {
    let table = HandleTable::new();
    assert_eq!(table.get_handle(0xFFFF8000, THREAD, PROCESS), Ok(Handle::Thread(THREAD)));
    assert_eq!(table.get_handle(0xFFFF8001, THREAD, PROCESS), Ok(Handle::Process(PROCESS)));
    assert_eq!(table.get_handle_no_alias(0xFFFF8000), Err(UserspaceError::InvalidHandle));
    assert_eq!(table.get_handle_no_alias(0xFFFF8001), Err(UserspaceError::InvalidHandle));
    assert_eq!(table.get_handle(0, THREAD, PROCESS), Err(UserspaceError::InvalidHandle));
}

#[test]
fn get_handle_finds_what_was_added() {
    let mut table = HandleTable::new();
    let session = Handle::ServerSession(ServerSession { session: 5 });
    let id = table.add_handle(session).unwrap();
    assert_eq!(table.get_handle(id, THREAD, PROCESS), Ok(session));
    assert_eq!(table.get_handle_no_alias(id), Ok(session));
    assert_eq!(table.get_handle(id + 1, THREAD, PROCESS), Err(UserspaceError::InvalidHandle));
    assert_eq!(table.remaining(), 0xFFFF0000 - 2);
}

#[test]
fn casts_accept_their_own_kind_only() {
    let event = Handle::ReadableEvent(ReadableEvent { event: 4 });
    assert_eq!(event.as_readable_event(), Ok(ReadableEvent { event: 4 }));
    assert_eq!(event.as_writable_event(), Err(UserspaceError::InvalidHandle));
    assert_eq!(event.as_client_port(), Err(UserspaceError::InvalidHandle));
    assert_eq!(event.as_server_session(), Err(UserspaceError::InvalidHandle));
    assert_eq!(event.as_client_session(), Err(UserspaceError::InvalidHandle));
    assert_eq!(event.as_thread_handle(), Err(UserspaceError::InvalidHandle));
    assert_eq!(event.as_process(), Err(UserspaceError::InvalidHandle));
    assert_eq!(event.as_shared_memory(), Err(UserspaceError::InvalidHandle));

    assert_eq!(Handle::WritableEvent(WritableEvent { event: 4 }).as_writable_event(), Ok(WritableEvent { event: 4 }));
    assert_eq!(Handle::ClientPort(ClientPort { port: 1 }).as_client_port(), Ok(ClientPort { port: 1 }));
    assert_eq!(Handle::ServerSession(ServerSession { session: 2 }).as_server_session(), Ok(ServerSession { session: 2 }));
    assert_eq!(Handle::ClientSession(ClientSession { session: 2 }).as_client_session(), Ok(ClientSession { session: 2 }));
    assert_eq!(Handle::Thread(THREAD).as_thread_handle(), Ok(THREAD));
    assert_eq!(Handle::Process(PROCESS).as_process(), Ok(PROCESS));
    assert_eq!(Handle::SharedMemory(SharedMemoryRef { region: 8 }).as_shared_memory(), Ok(SharedMemoryRef { region: 8 }));
}

#[test]
fn waitable_kinds() {
    assert_eq!(Handle::ReadableEvent(ReadableEvent { event: 4 }).as_waitable(), Ok(Waitable::ReadableEvent(ReadableEvent { event: 4 })));
    assert_eq!(Handle::InterruptEvent(IRQEvent { irq: 1 }).as_waitable(), Ok(Waitable::InterruptEvent(IRQEvent { irq: 1 })));
    assert_eq!(Handle::ServerPort(ServerPort { port: 1 }).as_waitable(), Ok(Waitable::ServerPort(ServerPort { port: 1 })));
    assert_eq!(Handle::ServerSession(ServerSession { session: 1 }).as_waitable(), Ok(Waitable::ServerSession(ServerSession { session: 1 })));
    assert_eq!(Handle::Thread(THREAD).as_waitable(), Ok(Waitable::Thread(THREAD)));
    assert_eq!(Handle::Process(PROCESS).as_waitable(), Ok(Waitable::Process(PROCESS)));
    assert_eq!(Handle::WritableEvent(WritableEvent { event: 4 }).as_waitable(), Err(UserspaceError::InvalidHandle));
    assert_eq!(Handle::ClientPort(ClientPort { port: 1 }).as_waitable(), Err(UserspaceError::InvalidHandle));
    assert_eq!(Handle::ClientSession(ClientSession { session: 1 }).as_waitable(), Err(UserspaceError::InvalidHandle));
    assert_eq!(Handle::SharedMemory(SharedMemoryRef { region: 8 }).as_waitable(), Err(UserspaceError::InvalidHandle));
}

#[test]
fn kernel_errors_collapse_to_userspace_codes() {
    let cases = [
        (KernelError::PhysicalMemoryExhaustion, UserspaceError::MemoryFull),
        (KernelError::VirtualMemoryExhaustion, UserspaceError::MemoryFull),
        (KernelError::InvalidAddress { address: 4 }, UserspaceError::InvalidAddress),
        (KernelError::InvalidSize { size: 4 }, UserspaceError::InvalidSize),
        (KernelError::InvalidState, UserspaceError::InvalidState),
        (KernelError::InvalidCombination, UserspaceError::InvalidCombination),
        (KernelError::ExceedingMaximum { value: 2, maximum: 1 }, UserspaceError::ExceedingMaximum),
        (KernelError::InvalidKernelCaps { kcap: 0 }, UserspaceError::InvalidKernelCaps),
        (KernelError::IpcError, UserspaceError::PortRemoteDead),
        (KernelError::ReservedValue, UserspaceError::ReservedValue),
        (KernelError::ProcessKilled, UserspaceError::InvalidHandle),
        (KernelError::NotImplemented, UserspaceError::NotImplemented),
        (KernelError::WrongMappingFramesForTy { ty: MemoryType::Ipc }, UserspaceError::InvalidCombination),
        (KernelError::InvalidMemState { address: 0, ty: MemoryType::Heap }, UserspaceError::InvalidMemState),
    ];
    for (kernel, user) in cases {
        assert_eq!(UserspaceError::from(kernel), user);
    }
}

#[test]
fn pid_is_a_plain_number() {
    assert_eq!(Pid(5), Pid(5));
    assert!(Pid(5) < Pid(6));
    assert_eq!(Pid(9).0, 9);
}
