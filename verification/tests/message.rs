use sunrise_core::error::KernelError;
use sunrise_core::error::MemoryType;
use sunrise_core::error::UserspaceError;
use sunrise_core::handle::Handle;
use sunrise_core::handle::HandleTable;
use sunrise_core::handle::ProcessRef;
use sunrise_core::handle::ReadableEvent;
use sunrise_core::handle::SharedMemoryRef;
use sunrise_core::handle::ThreadRef;
use sunrise_core::handle::WritableEvent;
use sunrise_core::ipc::buffer::buf_map;
use sunrise_core::ipc::buffer::buf_unmap;
use sunrise_core::ipc::buffer::check_lower_than_usize;
use sunrise_core::ipc::buffer::head_size;
use sunrise_core::ipc::buffer::map_buffer;
use sunrise_core::ipc::buffer::tail_size;
use sunrise_core::ipc::buffer::Buffer;
use sunrise_core::ipc::buffer::CopyRequest;
use sunrise_core::ipc::header::find_c_descriptors;
use sunrise_core::ipc::header::CBufBehavior;
use sunrise_core::ipc::header::CBuffer;
use sunrise_core::ipc::header::HandleDescriptorHeader;
use sunrise_core::ipc::header::MsgPackedHdr;
use sunrise_core::ipc::message::pass_message;
use sunrise_core::mem::VirtualAddress;
use sunrise_core::memory::MappingAccessRights;
use sunrise_core::memory::MappingFrames;
use sunrise_core::memory::ProcessMemory;

const THREAD: ThreadRef = ThreadRef { thread: 7 };
const PROCESS: ProcessRef = ProcessRef { pid: 3 };
const SHARED: SharedMemoryRef = SharedMemoryRef { region: 5 };

struct Header {
    ty: u64,
    x: u64,
    a: u64,
    b: u64,
    w: u64,
    raw: u64,
    c: u64,
    handles: Option<(bool, u32, u32)>,
}

fn plain(ty: u64, raw: u64) -> Header {
    Header { ty, x: 0, a: 0, b: 0, w: 0, raw, c: 0, handles: None }
}

fn start(h: &Header) -> Vec<u8> {
    let word = h.ty | h.x << 16 | h.a << 20 | h.b << 24 | h.w << 28 | h.raw << 32 | h.c << 42
        | (h.handles.is_some() as u64) << 63;
    let mut bytes = word.to_le_bytes().to_vec();
    if let Some((pid, copy, mv)) = h.handles {
        bytes.extend((pid as u32 | copy << 1 | mv << 5).to_le_bytes());
        if pid {
            bytes.extend([0u8; 8]);
        }
    }
    bytes
}

fn words(bytes: &mut Vec<u8>, ws: &[u32]) {
    for w in ws {
        bytes.extend(w.to_le_bytes());
    }
}

fn x_descriptor(counter: u32, addr: u64, size: u32) -> [u32; 2] {
    [counter | ((addr >> 36) as u32 & 7) << 6 | ((addr >> 32) as u32 & 15) << 12 | size << 16, addr as u32]
}

fn buf_descriptor(flags: u32, addr: u64, size: u64) -> [u32; 3] {
    [
        size as u32,
        addr as u32,
        flags | ((addr >> 36) as u32 & 7) << 2 | ((size >> 32) as u32 & 15) << 24 | ((addr >> 32) as u32 & 15) << 28,
    ]
}

fn c_descriptor(addr: u64, size: u32) -> [u32; 2] {
    [addr as u32, (addr >> 32) as u32 & 0xFFFF | size << 16]
}

fn word_at(bytes: &[u8], off: usize) -> u32 {
    u32::from_le_bytes([bytes[off], bytes[off + 1], bytes[off + 2], bytes[off + 3]])
}

struct Sides {
    from_handles: HandleTable,
    from_mem: ProcessMemory,
    to_handles: HandleTable,
    to_mem: ProcessMemory,
    buffers: Vec<Buffer>,
    copies: Vec<CopyRequest>,
}

fn sides() -> Sides {
    Sides {
        from_handles: HandleTable::new(),
        from_mem: ProcessMemory::new(),
        to_handles: HandleTable::new(),
        to_mem: ProcessMemory::new(),
        buffers: Vec::new(),
        copies: Vec::new(),
    }
}

fn pass(s: &mut Sides, from: &[u8], to: &mut Vec<u8>, is_reply: bool, c: &CBufBehavior) -> Result<(), UserspaceError> {
    pass_message(
        from,
        42,
        &mut s.from_handles,
        &mut s.from_mem,
        to,
        &mut s.to_handles,
        &mut s.to_mem,
        THREAD,
        PROCESS,
        is_reply,
        &mut s.buffers,
        c,
        &mut s.copies,
    )
}

fn map_heap(mem: &mut ProcessMemory, addr: usize, len: usize) {
    mem.create_regular_mapping(VirtualAddress(addr), len, MemoryType::Heap, MappingAccessRights::u_rw()).unwrap();
}

fn map_shared(mem: &mut ProcessMemory, addr: usize, len: usize, phys: usize) {
    mem.map_partial_shared_mapping(SHARED, VirtualAddress(addr), phys, len, MemoryType::SharedMemory, MappingAccessRights::u_rw())
        .unwrap();
}

fn layout(mem: &ProcessMemory) -> Vec<(usize, usize, MappingFrames, usize)> {
    (0..mem.mapping_count())
        .map(|i| {
            let m = mem.mapping_at(i);
            (m.address, m.length, m.frames, m.phys_offset)
        })
        .collect()
}

#[test]
fn header_fields() {
    let h = MsgPackedHdr(0x8000_0000_0000_0000 | 0xBEEF | 1 << 16 | 2 << 20 | 3 << 24 | 4 << 28 | 0x2A5 << 32 | 9 << 42);
    assert_eq!(h.ty(), 0xBEEF);
    assert_eq!(h.num_x_descriptors(), 1);
    assert_eq!(h.num_a_descriptors(), 2);
    assert_eq!(h.num_b_descriptors(), 3);
    assert_eq!(h.num_w_descriptors(), 4);
    assert_eq!(h.raw_section_size(), 0x2A5);
    assert_eq!(h.c_descriptor_flags(), 9);
    assert!(h.enable_handle_descriptor());
    let h = MsgPackedHdr(0x7FFF_FFFF_FFFF_FFFF);
    assert!(!h.enable_handle_descriptor());
    assert_eq!(h.raw_section_size(), 0x3FF);
    assert_eq!(h.num_x_descriptors(), 15);
    let d = HandleDescriptorHeader(1 | 5 << 1 | 9 << 5);
    assert!(d.send_pid());
    assert_eq!(d.num_copy_handles(), 5);
    assert_eq!(d.num_move_handles(), 9);
    let d = HandleDescriptorHeader(0xFFFF_FE00);
    assert!(!d.send_pid());
    assert_eq!(d.num_copy_handles(), 0);
    assert_eq!(d.num_move_handles(), 0);
}

#[test]
fn c_descriptors_disabled_or_inlined() {
    assert!(matches!(find_c_descriptors(&start(&plain(1, 0))), Ok(CBufBehavior::Disabled)));
    let h = Header { c: 1, ..plain(1, 0) };
    assert!(matches!(find_c_descriptors(&start(&h)), Ok(CBufBehavior::Inlined)));
    assert_eq!(find_c_descriptors(&[0u8; 7]).unwrap_err(), KernelError::InvalidSize { size: 7 });
}

#[test]
fn single_c_descriptor_follows_everything_else() {
    let h = Header { x: 1, b: 1, raw: 2, c: 2, handles: Some((true, 1, 1)), ..plain(1, 0) };
    let mut m = start(&h);
    words(&mut m, &[11, 12]);
    words(&mut m, &x_descriptor(0, 0, 0));
    words(&mut m, &buf_descriptor(0, 0, 0));
    words(&mut m, &[0xAAAA, 0xBBBB]);
    let missing = m.len();
    assert_eq!(find_c_descriptors(&m).unwrap_err(), KernelError::InvalidSize { size: missing });
    words(&mut m, &c_descriptor(0x1234_5678_9ABC, 0x4321));
    match find_c_descriptors(&m) {
        Ok(CBufBehavior::Single(b)) => assert_eq!(b, CBuffer { addr: 0x1234_5678_9ABC, size: 0x4321 }),
        other => panic!("{:?}", other),
    }
}

#[test]
fn numbered_c_descriptors_are_read_one_after_the_other() {
    let h = Header { raw: 1, c: 5, ..plain(1, 0) };
    let mut m = start(&h);
    words(&mut m, &[0]);
    words(&mut m, &c_descriptor(0x1000, 0x10));
    words(&mut m, &c_descriptor(0x2000, 0x20));
    words(&mut m, &c_descriptor(0x3000, 0x30));
    match find_c_descriptors(&m) {
        Ok(CBufBehavior::Numbered(bufs)) => assert_eq!(
            bufs,
            vec![
                CBuffer { addr: 0x1000, size: 0x10 },
                CBuffer { addr: 0x2000, size: 0x20 },
                CBuffer { addr: 0x3000, size: 0x30 }
            ]
        ),
        other => panic!("{:?}", other),
    }
    m.pop();
    assert_eq!(find_c_descriptors(&m).unwrap_err(), KernelError::InvalidSize { size: m.len() });
}

#[test]
fn plain_message_is_copied() {
    let mut s = sides();
    let mut from = start(&plain(0x77, 2));
    words(&mut from, &[0x1111_1111, 0x2222_2222, 0x3333_3333]);
    let mut to = vec![0xEEu8; 24];
    assert_eq!(pass(&mut s, &from, &mut to, false, &CBufBehavior::Disabled), Ok(()));
    // the header and the raw data arrive, what lies behind stays
    assert_eq!(to[..16], from[..16]);
    assert_eq!(to[16..], [0xEE; 8]);
    assert!(s.copies.is_empty());
    assert!(s.buffers.is_empty());
}

#[test]
fn message_must_fit_both_buffers() {
    let mut s = sides();
    let mut from = start(&plain(0x77, 2));
    words(&mut from, &[1]);
    let mut to = vec![0u8; 64];
    assert_eq!(pass(&mut s, &from, &mut to, false, &CBufBehavior::Disabled), Err(UserspaceError::InvalidSize));
    assert_eq!(to, vec![0u8; 64]);
    words(&mut from, &[2]);
    let mut short = vec![0u8; 15];
    assert_eq!(pass(&mut s, &from, &mut short, false, &CBufBehavior::Disabled), Err(UserspaceError::InvalidSize));
    assert_eq!(pass(&mut s, &[1, 2, 3], &mut to, false, &CBufBehavior::Disabled), Err(UserspaceError::InvalidSize));
    let h = Header { handles: Some((false, 0, 0)), ..plain(0, 0) };
    assert_eq!(pass(&mut s, &start(&h)[..8], &mut to, false, &CBufBehavior::Disabled), Err(UserspaceError::InvalidSize));
}

#[test]
fn sender_pid_is_filled_in() {
    let mut s = sides();
    let h = Header { handles: Some((true, 0, 0)), ..plain(5, 1) };
    let mut from = start(&h);
    words(&mut from, &[0xABCD]);
    let mut to = vec![0xEEu8; from.len()];
    assert_eq!(pass(&mut s, &from, &mut to, false, &CBufBehavior::Disabled), Ok(()));
    assert_eq!(to[..12], from[..12]);
    assert_eq!(to[12..20], 42u64.to_le_bytes());
    assert_eq!(word_at(&to, 20), 0xABCD);
}

#[test]
fn handles_are_copied_and_moved() {
    let mut s = sides();
    let event = Handle::ReadableEvent(ReadableEvent { event: 1 });
    let trigger = Handle::WritableEvent(WritableEvent { event: 1 });
    let kept = s.from_handles.add_handle(event).unwrap();
    let moved = s.from_handles.add_handle(trigger).unwrap();
    s.to_handles.add_handle(trigger).unwrap();
    let h = Header { handles: Some((false, 2, 1)), ..plain(5, 0) };
    let mut from = start(&h);
    words(&mut from, &[kept, 0xFFFF8001, moved]);
    let mut to = vec![0u8; from.len()];
    assert_eq!(pass(&mut s, &from, &mut to, false, &CBufBehavior::Disabled), Ok(()));
    // the receiver got fresh numbers, which replace the sender's in the message
    assert_eq!((word_at(&to, 12), word_at(&to, 16), word_at(&to, 20)), (2, 3, 4));
    assert_eq!(s.to_handles.get_handle_no_alias(2), Ok(event));
    assert_eq!(s.to_handles.get_handle_no_alias(3), Ok(Handle::Process(PROCESS)));
    assert_eq!(s.to_handles.get_handle_no_alias(4), Ok(trigger));
    // a copied handle stays with the sender, a moved one does not
    assert_eq!(s.from_handles.get_handle_no_alias(kept), Ok(event));
    assert_eq!(s.from_handles.get_handle_no_alias(moved), Err(UserspaceError::InvalidHandle));
}

#[test]
fn copy_then_close_both_restores_reference_counts() {
    let mut s = sides();
    let event = Handle::ReadableEvent(ReadableEvent { event: 1 });
    let count = |t: &HandleTable| (1..10).filter(|id| t.get_handle_no_alias(*id) == Ok(event)).count();
    let kept = s.from_handles.add_handle(event).unwrap();
    assert_eq!((count(&s.from_handles), count(&s.to_handles)), (1, 0));
    let h = Header { handles: Some((false, 1, 0)), ..plain(5, 0) };
    let mut from = start(&h);
    words(&mut from, &[kept]);
    let mut to = vec![0u8; from.len()];
    pass(&mut s, &from, &mut to, false, &CBufBehavior::Disabled).unwrap();
    let copy = word_at(&to, 12);
    assert_eq!((count(&s.from_handles), count(&s.to_handles)), (1, 1));
    // closing the copy brings the receiver back to where it was
    s.to_handles.delete_handle(copy).unwrap();
    assert_eq!((count(&s.from_handles), count(&s.to_handles)), (1, 0));
    s.from_handles.delete_handle(kept).unwrap();
    assert_eq!((count(&s.from_handles), count(&s.to_handles)), (0, 0));
}

#[test]
fn unknown_handle_stops_the_passing() {
    let mut s = sides();
    let event = Handle::ReadableEvent(ReadableEvent { event: 1 });
    let kept = s.from_handles.add_handle(event).unwrap();
    let h = Header { handles: Some((false, 1, 1)), ..plain(5, 0) };
    let mut from = start(&h);
    words(&mut from, &[kept, 77]);
    let mut to = vec![0u8; from.len()];
    assert_eq!(pass(&mut s, &from, &mut to, false, &CBufBehavior::Disabled), Err(UserspaceError::InvalidHandle));
    // what was passed before stays passed
    assert_eq!(s.to_handles.get_handle_no_alias(1), Ok(event));
    assert_eq!(word_at(&to, 12), 1);
    assert_eq!(word_at(&to, 16), 0);
}

#[test]
fn x_descriptor_without_c_buffers_is_refused() {
    let mut s = sides();
    map_heap(&mut s.from_mem, 0x5000, 0x1000);
    let h = Header { x: 1, ..plain(5, 0) };
    let mut from = start(&h);
    words(&mut from, &x_descriptor(0, 0x5000, 0x10));
    let mut to = vec![0u8; from.len()];
    assert_eq!(pass(&mut s, &from, &mut to, false, &CBufBehavior::Disabled), Err(UserspaceError::PortRemoteDead));
    assert_eq!(pass(&mut s, &from, &mut to, false, &CBufBehavior::Inlined), Err(UserspaceError::NotImplemented));
}

#[test]
fn x_descriptors_fill_a_single_c_buffer() {
    let mut s = sides();
    map_heap(&mut s.from_mem, 0x5000, 0x1000);
    let h = Header { x: 2, raw: 1, ..plain(5, 0) };
    let mut from = start(&h);
    words(&mut from, &x_descriptor(3, 0x5010, 0x20));
    words(&mut from, &x_descriptor(4, 0x5100, 0x30));
    words(&mut from, &[0xFEED]);
    let mut to = vec![0u8; from.len()];
    let c = CBufBehavior::Single(CBuffer { addr: 0x9000, size: 0x50 });
    assert_eq!(pass(&mut s, &from, &mut to, false, &c), Ok(()));
    assert_eq!(
        s.copies,
        vec![
            CopyRequest { from_addr: 0x5010, to_addr: 0x9000, len: 0x20 },
            CopyRequest { from_addr: 0x5100, to_addr: 0x9020, len: 0x30 }
        ]
    );
    // the descriptors name the destination now, with the size they had
    assert_eq!([word_at(&to, 8), word_at(&to, 12)], x_descriptor(3, 0x9000, 0x20));
    assert_eq!([word_at(&to, 16), word_at(&to, 20)], x_descriptor(4, 0x9020, 0x30));
    assert_eq!(word_at(&to, 24), 0xFEED);
    // one byte more does not fit
    let mut s = sides();
    map_heap(&mut s.from_mem, 0x5000, 0x1000);
    let c = CBufBehavior::Single(CBuffer { addr: 0x9000, size: 0x4F });
    assert_eq!(pass(&mut s, &from, &mut to, false, &c), Err(UserspaceError::InvalidSize));
    assert_eq!(s.copies.len(), 1);
}

#[test]
fn x_descriptors_pick_numbered_c_buffers() {
    let mut s = sides();
    map_heap(&mut s.from_mem, 0x5000, 0x1000);
    let h = Header { x: 2, ..plain(5, 0) };
    let mut from = start(&h);
    words(&mut from, &x_descriptor(1, 0x5010, 0x20));
    words(&mut from, &x_descriptor(0, 0x5100, 0x30));
    let mut to = vec![0u8; from.len()];
    let c = CBufBehavior::Numbered(vec![CBuffer { addr: 0x9000, size: 0x30 }, CBuffer { addr: 0xA000, size: 0x20 }]);
    assert_eq!(pass(&mut s, &from, &mut to, false, &c), Ok(()));
    assert_eq!(
        s.copies,
        vec![
            CopyRequest { from_addr: 0x5010, to_addr: 0xA000, len: 0x20 },
            CopyRequest { from_addr: 0x5100, to_addr: 0x9000, len: 0x30 }
        ]
    );
    // a counter that names no buffer
    let mut from = start(&h);
    words(&mut from, &x_descriptor(2, 0x5010, 0x20));
    words(&mut from, &x_descriptor(0, 0x5100, 0x30));
    assert_eq!(pass(&mut s, &from, &mut to, false, &c), Err(UserspaceError::InvalidAddress));
}

#[test]
fn x_descriptor_errors() {
    let h = Header { x: 1, ..plain(5, 0) };
    let c = CBufBehavior::Single(CBuffer { addr: 0x9000, size: 0x50 });
    let run = |addr: u64, size: u32, c: &CBufBehavior| {
        let mut s = sides();
        map_heap(&mut s.from_mem, 0x5000, 0x1000);
        let mut from = start(&h);
        words(&mut from, &x_descriptor(0, addr, size));
        let mut to = vec![0u8; from.len()];
        pass(&mut s, &from, &mut to, false, c)
    };
    // beyond 32 bits
    assert_eq!(run(0x1_0000_5000, 0x10, &c), Err(UserspaceError::InvalidAddress));
    assert_eq!(run(0xFFFF_FFF8, 0x10, &c), Err(UserspaceError::InvalidAddress));
    assert_eq!(run(0x5000, 0x10, &CBufBehavior::Single(CBuffer { addr: 0x1_0000_0000, size: 0x50 })), Err(UserspaceError::InvalidAddress));
    // not mapped in the sender
    assert_eq!(run(0x7000, 0x10, &c), Err(UserspaceError::InvalidAddress));
    assert_eq!(run(0x5FF8, 0x10, &c), Err(UserspaceError::InvalidAddress));
    // nothing to copy
    assert_eq!(run(0x5000, 0, &c), Err(UserspaceError::InvalidSize));
    assert_eq!(run(0x5000, 0x10, &c), Ok(()));
}

#[test]
fn part_sizes() {
    // within one page
    assert_eq!((head_size(0x5010, 0x20), tail_size(0x5010, 0x20)), (0x20, 0));
    assert_eq!((head_size(0x5000, 0x20), tail_size(0x5000, 0x20)), (0x20, 0));
    // up to the end of the page
    assert_eq!((head_size(0x5FF0, 0x10), tail_size(0x5FF0, 0x10)), (0x10, 0));
    // whole pages only
    assert_eq!((head_size(0x5000, 0x3000), tail_size(0x5000, 0x3000)), (0, 0));
    // all three parts
    assert_eq!((head_size(0x5F00, 0x2200), tail_size(0x5F00, 0x2200)), (0x100, 0x100));
    // across one boundary
    assert_eq!((head_size(0x5F00, 0x200), tail_size(0x5F00, 0x200)), (0x100, 0x100));
    assert_eq!((head_size(0x5000, 0x1100), tail_size(0x5000, 0x1100)), (0, 0x100));
}

#[test]
fn small_buffer_gets_a_page_of_its_own() {
    let mut from = ProcessMemory::new();
    map_heap(&mut from, 0x5000, 0x1000);
    let mut to = ProcessMemory::new();
    map_heap(&mut to, 0x1000, 0x1000);
    let mut copies = Vec::new();
    assert_eq!(map_buffer(0x5010, 0x20, true, &from, &mut to, &mut copies), Ok(0x2010));
    assert_eq!(layout(&to), vec![(0x1000, 0x1000, MappingFrames::Owned, 0), (0x2000, 0x1000, MappingFrames::Owned, 0)]);
    assert_eq!(to.mapping_at(1).ty, MemoryType::Ipc);
    assert_eq!(copies, vec![CopyRequest { from_addr: 0x5010, to_addr: 0x2010, len: 0x20 }]);
}

#[test]
fn large_buffer_is_copied_at_the_ends_and_shared_in_the_middle() {
    let mut from = ProcessMemory::new();
    map_shared(&mut from, 0x4000, 0x8000, 0x10000);
    let mut to = ProcessMemory::new();
    let mut copies = Vec::new();
    // from 0x5F00 to 0x8100: a head of 0x100, two shared pages, a tail of 0x100
    assert_eq!(map_buffer(0x5F00, 0x2200, true, &from, &mut to, &mut copies), Ok(0x1F00));
    assert_eq!(
        layout(&to),
        vec![
            (0x1000, 0x1000, MappingFrames::Owned, 0),
            (0x2000, 0x2000, MappingFrames::Shared(SHARED), 0x10000 + 0x2000),
            (0x4000, 0x1000, MappingFrames::Owned, 0)
        ]
    );
    assert_eq!(
        copies,
        vec![
            CopyRequest { from_addr: 0x5F00, to_addr: 0x1F00, len: 0x100 },
            CopyRequest { from_addr: 0x8000, to_addr: 0x4000, len: 0x100 }
        ]
    );
}

#[test]
fn aligned_buffer_is_shared_as_a_whole() {
    let mut from = ProcessMemory::new();
    map_shared(&mut from, 0x4000, 0x8000, 0);
    let mut to = ProcessMemory::new();
    let mut copies = Vec::new();
    assert_eq!(map_buffer(0x6000, 0x3000, true, &from, &mut to, &mut copies), Ok(0x1000));
    assert_eq!(layout(&to), vec![(0x1000, 0x3000, MappingFrames::Shared(SHARED), 0x2000)]);
    assert!(copies.is_empty());
}

#[test]
fn failed_mapping_leaves_nothing_behind() {
    // the middle is not backed by shared memory
    let mut from = ProcessMemory::new();
    map_heap(&mut from, 0x4000, 0x8000);
    let mut to = ProcessMemory::new();
    map_heap(&mut to, 0x3000, 0x1000);
    let before = layout(&to);
    let mut copies = Vec::new();
    assert_eq!(map_buffer(0x5F00, 0x2200, true, &from, &mut to, &mut copies), Err(UserspaceError::InvalidMemState));
    assert_eq!(layout(&to), before);
    assert!(copies.is_empty());
    // the tail is not mapped in the sender
    let mut from = ProcessMemory::new();
    map_shared(&mut from, 0x5000, 0x2000, 0);
    assert_eq!(map_buffer(0x5F00, 0x1200, true, &from, &mut to, &mut copies), Err(UserspaceError::InvalidAddress));
    assert_eq!(layout(&to), before);
    // the head is not mapped in the sender
    assert_eq!(map_buffer(0x4F00, 0x1200, true, &from, &mut to, &mut copies), Err(UserspaceError::InvalidAddress));
    assert_eq!(layout(&to), before);
    // the middle is not mapped at all
    let mut from = ProcessMemory::new();
    map_heap(&mut from, 0x5000, 0x1000);
    map_heap(&mut from, 0x8000, 0x1000);
    assert_eq!(map_buffer(0x5F00, 0x2200, true, &from, &mut to, &mut copies), Err(UserspaceError::InvalidMemState));
    assert_eq!(layout(&to), before);
    assert!(copies.is_empty());
}

#[test]
fn buffers_need_the_rights_of_the_sender() {
    let read_only = MappingAccessRights { readable: true, writable: false, executable: false, user_accessible: true };
    let hidden = MappingAccessRights { readable: false, writable: true, executable: false, user_accessible: true };
    let mut from = ProcessMemory::new();
    from.create_regular_mapping(VirtualAddress(0x5000), 0x1000, MemoryType::CodeStatic, read_only).unwrap();
    from.create_regular_mapping(VirtualAddress(0x6000), 0x1000, MemoryType::Heap, hidden).unwrap();
    from.map_partial_shared_mapping(SHARED, VirtualAddress(0x8000), 0, 0x2000, MemoryType::SharedMemory, read_only).unwrap();
    let mut to = ProcessMemory::new();
    let mut copies = Vec::new();
    // memory that cannot be written is not passed on as a writable buffer
    assert_eq!(map_buffer(0x5010, 0x20, true, &from, &mut to, &mut copies), Err(UserspaceError::InvalidMemState));
    assert_eq!(map_buffer(0x8000, 0x1000, true, &from, &mut to, &mut copies), Err(UserspaceError::InvalidMemState));
    // memory that cannot be read is not passed on at all
    assert_eq!(map_buffer(0x6010, 0x20, false, &from, &mut to, &mut copies), Err(UserspaceError::InvalidMemState));
    assert_eq!(map_buffer(0x6010, 0x20, true, &from, &mut to, &mut copies), Err(UserspaceError::InvalidMemState));
    assert_eq!(to.mapping_count(), 0);
    assert!(copies.is_empty());
    // as a read-only buffer it is
    assert_eq!(map_buffer(0x5010, 0x20, false, &from, &mut to, &mut copies), Ok(0x1010));
    assert_eq!(map_buffer(0x8000, 0x1000, false, &from, &mut to, &mut copies), Ok(0x2000));
}

#[test]
fn null_and_empty_buffers() {
    let from = ProcessMemory::new();
    let mut to = ProcessMemory::new();
    let mut copies = Vec::new();
    assert_eq!(map_buffer(0, 0x100, true, &from, &mut to, &mut copies), Ok(0));
    assert_eq!(to.mapping_count(), 0);
    assert_eq!(map_buffer(0x5000, 0, true, &from, &mut to, &mut copies), Err(UserspaceError::InvalidSize));
    assert_eq!(map_buffer(0x5000, 0xC000_0000, true, &from, &mut to, &mut copies), Err(UserspaceError::MemoryFull));
}

#[test]
fn unmap_undoes_map() {
    let mut from = ProcessMemory::new();
    map_shared(&mut from, 0x4000, 0x8000, 0x10000);
    let mut to = ProcessMemory::new();
    map_heap(&mut to, 0x2000, 0x1000);
    let before = layout(&to);
    let mut copies = Vec::new();
    let dest = map_buffer(0x5F00, 0x2200, true, &from, &mut to, &mut copies).unwrap();
    assert_eq!(to.mapping_count(), 4);
    let buffer = Buffer { writable: true, source_addr: VirtualAddress(0x5F00), dest_addr: VirtualAddress(dest), size: 0x2200 };
    let mut back = Vec::new();
    assert_eq!(buf_unmap(&buffer, &mut to, &from, &mut back), Ok(()));
    assert_eq!(layout(&to), before);
    // the partial pages of a writable buffer go back to where they came from
    assert_eq!(
        back,
        vec![
            CopyRequest { from_addr: dest, to_addr: 0x5F00, len: 0x100 },
            CopyRequest { from_addr: dest + 0x2100, to_addr: 0x8000, len: 0x100 }
        ]
    );
}

#[test]
fn unmap_of_read_only_buffer_copies_nothing() {
    let mut from = ProcessMemory::new();
    map_heap(&mut from, 0x5000, 0x1000);
    let mut to = ProcessMemory::new();
    let mut copies = Vec::new();
    let dest = map_buffer(0x5010, 0x20, true, &from, &mut to, &mut copies).unwrap();
    let buffer = Buffer { writable: false, source_addr: VirtualAddress(0x5010), dest_addr: VirtualAddress(dest), size: 0x20 };
    let mut back = Vec::new();
    assert_eq!(buf_unmap(&buffer, &mut to, &from, &mut back), Ok(()));
    assert_eq!(to.mapping_count(), 0);
    assert!(back.is_empty());
}

#[test]
fn unmap_reports_a_sender_that_unmapped_its_end() {
    let mut from = ProcessMemory::new();
    map_heap(&mut from, 0x5000, 0x1000);
    let mut to = ProcessMemory::new();
    let mut copies = Vec::new();
    let dest = map_buffer(0x5010, 0x20, true, &from, &mut to, &mut copies).unwrap();
    from.unmap(VirtualAddress(0x5000), 0x1000).unwrap();
    let buffer = Buffer { writable: true, source_addr: VirtualAddress(0x5010), dest_addr: VirtualAddress(dest), size: 0x20 };
    let mut back = Vec::new();
    assert_eq!(buf_unmap(&buffer, &mut to, &from, &mut back), Err(UserspaceError::InvalidAddress));
    // the receiver's page is unmapped all the same
    assert_eq!(to.mapping_count(), 0);
    assert!(back.is_empty());
}

#[test]
fn buf_map_rewrites_the_descriptor() {
    let mut from_mem = ProcessMemory::new();
    map_heap(&mut from_mem, 0x5000, 0x1000);
    let mut to_mem = ProcessMemory::new();
    let mut from = vec![0xAAu8; 4];
    words(&mut from, &buf_descriptor(0b10, 0x5010, 0x20));
    let mut to = vec![0u8; 16];
    let mut off = 4;
    let mut buffers = Vec::new();
    let mut copies = Vec::new();
    assert_eq!(
        buf_map(&from, &mut to, &mut off, &from_mem, &mut to_mem, MappingAccessRights::writable(), &mut buffers, &mut copies),
        Ok(())
    );
    assert_eq!(off, 16);
    // the size and the type bits are kept, the address is the receiver's
    assert_eq!([word_at(&to, 4), word_at(&to, 8), word_at(&to, 12)], buf_descriptor(0b10, 0x1010, 0x20));
    assert_eq!(to[..4], [0u8; 4]);
    assert_eq!(
        buffers,
        vec![Buffer { writable: true, source_addr: VirtualAddress(0x5010), dest_addr: VirtualAddress(0x1010), size: 0x20 }]
    );
    assert_eq!(copies, vec![CopyRequest { from_addr: 0x5010, to_addr: 0x1010, len: 0x20 }]);
}

#[test]
fn buf_map_refuses_ranges_beyond_32_bits() {
    let from_mem = ProcessMemory::new();
    let run = |addr: u64, size: u64| {
        let mut to_mem = ProcessMemory::new();
        let mut from = Vec::new();
        words(&mut from, &buf_descriptor(0, addr, size));
        let mut to = vec![0u8; 12];
        let mut off = 0;
        let r = buf_map(&from, &mut to, &mut off, &from_mem, &mut to_mem, MappingAccessRights::empty(), &mut Vec::new(), &mut Vec::new());
        if r.is_err() {
            assert_eq!(to, vec![0u8; 12]);
        }
        assert_eq!(off, if r.is_ok() { 12 } else { 0 });
        r
    };
    assert_eq!(run(0x1_0000_0000, 0x10), Err(UserspaceError::InvalidAddress));
    assert_eq!(run(0x40_0000_5000, 0x10), Err(UserspaceError::InvalidAddress));
    assert_eq!(run(0x5000, 0x1_0000_0000), Err(UserspaceError::InvalidSize));
    assert_eq!(run(0xFFFF_F000, 0x1000), Err(UserspaceError::InvalidSize));
    assert_eq!(run(0, 0x10), Ok(()));
    assert_eq!(check_lower_than_usize(0xFFFF_FFFF, UserspaceError::InvalidSize), Ok(()));
    assert_eq!(check_lower_than_usize(0x1_0000_0000, UserspaceError::InvalidSize), Err(UserspaceError::InvalidSize));
}

#[test]
fn request_maps_buffers_and_reply_unmaps_them() {
    let mut s = sides();
    map_shared(&mut s.from_mem, 0x4000, 0x8000, 0);
    map_heap(&mut s.to_mem, 0x1000, 0x1000);
    let receiver_before = layout(&s.to_mem);
    let h = Header { a: 1, b: 1, w: 1, raw: 1, ..plain(5, 0) };
    let mut from = start(&h);
    words(&mut from, &buf_descriptor(0, 0x6000, 0x1000));
    words(&mut from, &buf_descriptor(1, 0x7010, 0x20));
    words(&mut from, &buf_descriptor(2, 0, 0));
    words(&mut from, &[0xFEED]);
    let mut to = vec![0u8; from.len()];
    assert_eq!(pass(&mut s, &from, &mut to, false, &CBufBehavior::Disabled), Ok(()));
    assert_eq!(
        s.buffers,
        vec![
            Buffer { writable: false, source_addr: VirtualAddress(0x6000), dest_addr: VirtualAddress(0x2000), size: 0x1000 },
            Buffer { writable: true, source_addr: VirtualAddress(0x7010), dest_addr: VirtualAddress(0x3010), size: 0x20 },
            Buffer { writable: true, source_addr: VirtualAddress(0), dest_addr: VirtualAddress(0), size: 0 }
        ]
    );
    assert_eq!(s.to_mem.mapping_count(), 3);
    assert_eq!([word_at(&to, 8), word_at(&to, 12), word_at(&to, 16)], buf_descriptor(0, 0x2000, 0x1000));
    assert_eq!([word_at(&to, 20), word_at(&to, 24), word_at(&to, 28)], buf_descriptor(1, 0x3010, 0x20));
    assert_eq!(word_at(&to, 44), 0xFEED);
    assert_eq!(s.copies, vec![CopyRequest { from_addr: 0x7010, to_addr: 0x3010, len: 0x20 }]);

    // the reply goes the other way: the sides swap
    let mut back = Sides {
        from_handles: s.to_handles,
        from_mem: s.to_mem,
        to_handles: s.from_handles,
        to_mem: s.from_mem,
        buffers: s.buffers,
        copies: Vec::new(),
    };
    let mut reply = start(&plain(6, 1));
    words(&mut reply, &[0xC0DE]);
    let mut answer = vec![0u8; from.len()];
    assert_eq!(pass(&mut back, &reply, &mut answer, true, &CBufBehavior::Disabled), Ok(()));
    assert_eq!(answer[..12], reply[..]);
    assert!(back.buffers.is_empty());
    assert_eq!(layout(&back.from_mem), receiver_before);
    assert_eq!(back.copies, vec![CopyRequest { from_addr: 0x3010, to_addr: 0x7010, len: 0x20 }]);
}

#[test]
fn reply_cannot_bring_buffers() {
    let mut s = sides();
    let h = Header { w: 1, ..plain(5, 0) };
    let mut from = start(&h);
    words(&mut from, &buf_descriptor(0, 0, 0));
    let mut to = vec![0u8; from.len()];
    assert_eq!(pass(&mut s, &from, &mut to, true, &CBufBehavior::Disabled), Err(UserspaceError::PortRemoteDead));
}

#[test]
fn message_with_c_descriptors_is_not_passed_yet() {
    let mut s = sides();
    let h = Header { c: 2, ..plain(5, 1) };
    let mut from = start(&h);
    words(&mut from, &[0xFEED]);
    let mut to = vec![0u8; from.len()];
    assert_eq!(pass(&mut s, &from, &mut to, false, &CBufBehavior::Disabled), Err(UserspaceError::NotImplemented));
    // the raw data was copied by then
    assert_eq!(word_at(&to, 8), 0xFEED);
}

#[test]
fn receiver_table_must_have_room_for_the_handles() {
    let mut s = sides();
    let event = Handle::ReadableEvent(ReadableEvent { event: 1 });
    let kept = s.from_handles.add_handle(event).unwrap();
    assert_eq!(s.to_handles.remaining(), 0xFFFF0000 - 1);
    let h = Header { handles: Some((false, 1, 0)), ..plain(5, 0) };
    let mut from = start(&h);
    words(&mut from, &[kept]);
    let mut to = vec![0u8; from.len()];
    assert_eq!(pass(&mut s, &from, &mut to, false, &CBufBehavior::Disabled), Ok(()));
    assert_eq!(s.to_handles.remaining(), 0xFFFF0000 - 2);
}
