use d7os::filesystem::attachment::{
    Attachment, ClientKey, ClientState, RequestFileOperation, Response, ResponseFileOperation, Sender,
};
use d7os::filesystem::descriptors::ProcessDescriptors;
use d7os::filesystem::event_queue::EventQueue;
use d7os::filesystem::internal_branch::{InternalBranch, InternalModification};
use d7os::filesystem::node::{Leaf, LeafData};
use d7os::filesystem::path::{Path, PathBuf};
use d7os::filesystem::result::{IoResult, IoResultPure};
use d7os::filesystem::special_files::{NullDevice, ProcessFile, TestDevice, ZeroDevice};
use d7os::filesystem::staticfs::{
    file_positions, find_file_list, load_header, to_sectors_round_up, HeaderError, StaticFSLeaf, MISSING_MARKER,
};
use d7os::filesystem::trigger::{EventSet, ProcessSet, Trigger};
use d7os::filesystem::tree::{new_branch, split_path, Tree};
use d7os::filesystem::vfs::{CloseStep, Destroyed, ObjectSlot, PidAnswer, Target, VirtualFS};
use d7os::filesystem::types::{
    CloseAction, ErrorCode, ExplicitEventId, FileClientId, FileDescriptor, Leafness, NodeId, ProcessId,
    WaitFor,
};

fn client(pid: u64, fd: u64) -> FileClientId {
    FileClientId::process(ProcessId(pid), FileDescriptor::from_u64(fd))
}

fn manager() -> FileClientId {
    client(1, 0)
}

fn success<T: Copy>(r: &IoResult<T>) -> Option<T> {
    match r.inner {
        IoResultPure::Success(v) => Some(v),
        _ => None,
    }
}

// ---- paths ----

#[test]
fn path_normalized_drops_trailing_slashes() {
    assert_eq!(Path::new("/a/b//").normalized().as_str(), "/a/b");
    assert_eq!(Path::new("/").normalized().as_str(), "/");
    assert_eq!(Path::new("a").normalized().as_str(), "a");
}

#[test]
fn law_normalized_is_idempotent() {
    for s in ["/a/b//", "/", "x/", "//", "a/b"] {
        let once = Path::new(s).normalized();
        let twice = once.normalized();
        assert_eq!(once.as_str(), twice.as_str());
    }
}

#[test]
fn path_parent_and_file_name() {
    let p = Path::new("/usr/bin/ls");
    assert_eq!(p.parent().unwrap().as_str(), "/usr/bin");
    assert_eq!(p.file_name().unwrap(), "ls");
    assert_eq!(Path::new("/a/b/").file_name().unwrap(), "b");
    assert_eq!(Path::new("bc//").file_name().unwrap(), "bc");
    assert_eq!(Path::new("/usr").parent().unwrap().as_str(), "/");
    assert!(Path::new("/").parent().is_none());
    assert!(Path::new("/").file_name().is_none());
    assert!(Path::new("name").parent().is_none());
    assert_eq!(Path::new("name").file_name().unwrap(), "name");
}

#[test]
fn law_parent_slash_file_name_rebuilds_path() {
    let p = Path::new("/x/y/z");
    let rebuilt = format!("{}/{}", p.parent().unwrap().as_str(), p.file_name().unwrap());
    assert_eq!(rebuilt, "/x/y/z");
}

#[test]
fn path_absolute_and_relative() {
    assert!(Path::new("/a").is_absolute());
    assert!(!Path::new("/a").is_relative());
    assert!(Path::new("a/b").is_relative());
    assert!(Path::new("/").is_root());
    assert!(!Path::new("/a").is_root());
}

#[test]
fn path_components_skip_leading_slash() {
    let mut it = Path::new("/dev/null/").components();
    let mut all = Vec::new();
    while it.has_next() {
        match it.next() {
            Some(c) => all.push(c),
            None => break,
        }
    }
    assert_eq!(all, vec!["dev".to_string(), "null".to_string()]);
}

#[test]
fn path_add_and_push() {
    assert_eq!(Path::new("/").add("dev/null").as_path().as_str(), "/dev/null");
    assert_eq!(Path::new("/dev/").add("zero").as_path().as_str(), "/dev/zero");
    let mut b = PathBuf::new();
    b.push("a");
    b.push("b/c");
    assert_eq!(b.as_path().as_str(), "/a/b/c");
}

// ---- results ----

#[test]
fn io_result_constructors_and_events() {
    let r: IoResult<u32> = IoResult::success(7).with_event(ExplicitEventId(3));
    assert!(r.is_success());
    assert_eq!(r.events, vec![ExplicitEventId(3)]);
    // `has_events` answers whether the event list is empty.
    assert!(!r.has_events());
    let e: IoResult<u32> = IoResult::error(ErrorCode::fs_readonly);
    assert!(matches!(e.inner, IoResultPure::Error(ErrorCode::fs_readonly)));
    assert!(e.has_events());
    let w: IoResult<u32> = IoResult::repeat_after(WaitFor::Process(ProcessId(4)));
    assert!(matches!(w.inner, IoResultPure::RepeatAfter(WaitFor::Process(ProcessId(4)))));
    let erased: IoResult<bool> = w.erase_type();
    assert!(matches!(erased.inner, IoResultPure::RepeatAfter(_)));
}

#[test]
fn io_result_map_and_split() {
    let r: IoResult<u32> = IoResult::success(20).with_events(vec![ExplicitEventId(1), ExplicitEventId(2)]);
    let m = r.map(|v| v + 1);
    assert_eq!(success(&m), Some(21));
    let (inner, events) = m.separate_events();
    assert!(matches!(inner, IoResultPure::Success(21)));
    assert_eq!(events, vec![ExplicitEventId(1), ExplicitEventId(2)]);
    let plain: IoResult<u8> = IoResult::from_pure(IoResultPure::Success(5));
    assert_eq!(plain.unwrap(), 5);
}

// ---- event queue ----

#[test]
fn law_event_queue_is_fifo() {
    let mut q: EventQueue<u32> = EventQueue::new();
    assert!(q.push(1).is_none());
    q.push(2);
    assert_eq!(q.pop_event(), Some(1));
    assert_eq!(q.pop_event(), Some(2));
    assert_eq!(q.pop_event(), None);
}

#[test]
fn event_queue_wakes_its_sleeper_once() {
    let mut q: EventQueue<u32> = EventQueue::new();
    assert_eq!(q.wait_for(ExplicitEventId(9)), WaitFor::Event(ExplicitEventId(9)));
    assert_eq!(q.wait_for(ExplicitEventId(10)), WaitFor::Event(ExplicitEventId(9)));
    let r = q.push_io(5);
    assert_eq!(r.events, vec![ExplicitEventId(9)]);
    assert_eq!(q.wait_for(ExplicitEventId(11)), WaitFor::NoWait);
    let r2 = q.push_io(6);
    assert!(r2.events.is_empty());
    assert_eq!(q.len(), 2);
}

// ---- internal branch ----

#[test]
fn internal_branch_add_rename_remove() {
    let mut b = InternalBranch::new();
    let k = FileClientId::kernel(FileDescriptor::from_u64(0));
    let r = b.write(&k, InternalModification::Add(NodeId(1), "a".to_string()), 10);
    assert_eq!(success(&r), Some(10));
    b.write(&k, InternalModification::Add(NodeId(2), "b".to_string()), 3);
    b.write(&k, InternalModification::Add(NodeId(5), "a".to_string()), 3);
    assert_eq!(b.children().clone(), vec![(NodeId(5), "a".to_string()), (NodeId(2), "b".to_string())]);
    b.write(&k, InternalModification::Remove(NodeId(5)), 3);
    assert_eq!(b.children().clone(), vec![(NodeId(2), "b".to_string())]);
    b.write(&k, InternalModification::Remove(NodeId(77)), 3);
    assert_eq!(b.children().len(), 1);
    assert_eq!(b.leafness(), Leafness::InternalBranch);
}

#[test]
fn law_internal_branch_listing_reads_back() {
    let mut b = InternalBranch::new();
    let fc = client(2, 1);
    assert!(b.needs_contents(&fc));
    b.start_reader(fc, vec![1, 2, 3]);
    assert!(!b.needs_contents(&fc));
    let mut buf = vec![9u8; 4];
    let r = b.read(fc, &mut buf);
    assert_eq!(success(&r), Some(3));
    assert_eq!(buf, vec![1, 2, 3, 9]);
    let mut more = vec![0u8; 2];
    assert_eq!(success(&b.read(fc, &mut more)), Some(0));
    let c = b.close(&fc);
    assert!(matches!(c.inner, IoResultPure::Success(CloseAction::Normal)));
    assert!(b.needs_contents(&fc));
}

#[test]
fn internal_branch_reads_in_pieces() {
    let mut b = InternalBranch::new();
    let fc = client(2, 1);
    b.start_reader(fc, vec![10, 20, 30, 40, 50]);
    let mut buf = vec![0u8; 2];
    assert_eq!(success(&b.read(fc, &mut buf)), Some(2));
    assert_eq!(buf, vec![10, 20]);
    assert_eq!(success(&b.read(fc, &mut buf)), Some(2));
    assert_eq!(buf, vec![30, 40]);
    assert_eq!(success(&b.read(fc, &mut buf)), Some(1));
    assert_eq!(buf, vec![50, 40]);
}

// ---- attachments ----

fn ready_attachment() -> (Attachment, ClientKey) {
    let mut a = Attachment::new(manager(), true);
    let fc = client(7, 3);
    let r = a.open(None, fc);
    assert!(r.is_success());
    (a, ClientKey { fc, suffix: None })
}

#[test]
fn law_attachment_read_roundtrip() {
    let (mut a, key) = ready_attachment();
    // The manager goes to sleep on an empty queue.
    assert_eq!(a.read_waiting_for(None, manager(), ExplicitEventId(100)), WaitFor::Event(ExplicitEventId(100)));
    // The client starts a read of up to 8 bytes; the manager is woken.
    let mut buf = vec![0u8; 8];
    let r1 = a.client_read(ClientKey { fc: key.fc, suffix: None }, &mut buf, ExplicitEventId(5));
    assert!(matches!(r1.inner, IoResultPure::RepeatAfter(WaitFor::Event(ExplicitEventId(5)))));
    assert_eq!(r1.events, vec![ExplicitEventId(100)]);
    assert_eq!(a.read_waiting_for(None, key.fc, ExplicitEventId(0)), WaitFor::Event(ExplicitEventId(5)));
    // The manager's read delivers the request.
    let req = a.manager_request();
    assert_eq!(req.sender, Sender { pid: Some(ProcessId(7)), f: 3 });
    assert!(req.suffix.is_none());
    assert!(matches!(req.operation, RequestFileOperation::Read(8)));
    let encoded = vec![0xAA, 0xBB, 0xCC];
    let mut mbuf = vec![0u8; 16];
    let r2 = a.manager_read(&mut mbuf, &encoded);
    assert_eq!(success(&r2), Some(3));
    assert_eq!(&mbuf[..3], &[0xAA, 0xBB, 0xCC]);
    // The manager answers with data, which wakes the client.
    let resp = Response {
        sender: Sender { pid: Some(ProcessId(7)), f: 3 },
        suffix: None,
        operation: ResponseFileOperation::Read(vec![1, 2, 3, 4, 5]),
    };
    let r3 = a.manager_write(resp, 12);
    assert_eq!(success(&r3), Some(12));
    assert_eq!(r3.events, vec![ExplicitEventId(5)]);
    // The client's next read hands out the data.
    let mut cbuf = vec![0u8; 3];
    let r4 = a.client_read(ClientKey { fc: key.fc, suffix: None }, &mut cbuf, ExplicitEventId(6));
    assert_eq!(success(&r4), Some(3));
    assert_eq!(cbuf, vec![1, 2, 3]);
    let r5 = a.client_read(ClientKey { fc: key.fc, suffix: None }, &mut cbuf, ExplicitEventId(6));
    assert_eq!(success(&r5), Some(2));
    assert_eq!(cbuf, vec![4, 5, 3]);
}

#[test]
fn attachment_write_roundtrip() {
    let (mut a, key) = ready_attachment();
    let r1 = a.client_write(ClientKey { fc: key.fc, suffix: None }, &vec![7, 8, 9], ExplicitEventId(11));
    assert!(matches!(r1.inner, IoResultPure::RepeatAfter(WaitFor::Event(ExplicitEventId(11)))));
    match a.manager_request().operation {
        RequestFileOperation::Write(d) => assert_eq!(d, vec![7, 8, 9]),
        _ => panic!("expected a write request"),
    }
    let mut mbuf = vec![0u8; 4];
    a.manager_read(&mut mbuf, &vec![1]);
    let resp = Response {
        sender: Sender { pid: Some(ProcessId(7)), f: 3 },
        suffix: None,
        operation: ResponseFileOperation::Write(3),
    };
    let r2 = a.manager_write(resp, 6);
    assert_eq!(r2.events, vec![ExplicitEventId(11)]);
    let r3 = a.client_write(ClientKey { fc: key.fc, suffix: None }, &vec![], ExplicitEventId(12));
    assert_eq!(success(&r3), Some(3));
}

#[test]
fn attachment_error_is_reported_to_the_reader() {
    let (mut a, key) = ready_attachment();
    let mut buf = vec![0u8; 4];
    a.client_read(ClientKey { fc: key.fc, suffix: None }, &mut buf, ExplicitEventId(5));
    let mut mbuf = vec![0u8; 4];
    a.manager_read(&mut mbuf, &vec![1]);
    let resp = Response {
        sender: Sender { pid: Some(ProcessId(7)), f: 3 },
        suffix: None,
        operation: ResponseFileOperation::Error(ErrorCode::fs_node_not_found),
    };
    a.manager_write(resp, 2);
    let r = a.client_read(ClientKey { fc: key.fc, suffix: None }, &mut buf, ExplicitEventId(6));
    assert!(matches!(r.inner, IoResultPure::Error(ErrorCode::fs_node_not_found)));
}

#[test]
fn attachment_close_and_destroy() {
    let (mut a, key) = ready_attachment();
    let mut buf = vec![0u8; 4];
    a.client_read(ClientKey { fc: key.fc, suffix: None }, &mut buf, ExplicitEventId(5));
    let other = client(8, 1);
    a.open(None, other);
    a.client_write(ClientKey { fc: other, suffix: None }, &vec![1], ExplicitEventId(6));
    let mut events = a.destroy().event_list();
    events.sort_by_key(|e| e.0);
    assert_eq!(events, vec![ExplicitEventId(5), ExplicitEventId(6)]);
    let c = a.close(None, other);
    assert!(matches!(c.inner, IoResultPure::Success(CloseAction::Normal)));
    let unknown = a.close(None, client(9, 9));
    assert!(matches!(unknown.inner, IoResultPure::Success(CloseAction::Normal)));
    let m = a.close(None, manager());
    assert!(matches!(m.inner, IoResultPure::Success(CloseAction::Destroy)));
    assert!(matches!(a.pid(), IoResultPure::Success(ProcessId(1))));
}

#[test]
fn client_state_events() {
    assert_eq!(ClientState::Ready.event(), None);
    assert_eq!(ClientState::ReadInProgress(ExplicitEventId(4)).event(), Some(ExplicitEventId(4)));
    assert_eq!(ClientState::WriteComplete(3).event(), None);
}

// ---- static filesystem ----

#[test]
fn staticfs_sector_arithmetic() {
    assert_eq!(to_sectors_round_up(0), 0);
    assert_eq!(to_sectors_round_up(1), 1);
    assert_eq!(to_sectors_round_up(512), 1);
    assert_eq!(to_sectors_round_up(513), 2);
    assert_eq!(file_positions(10, 2, &vec![100, 1024, 0, 5]), vec![12, 13, 15, 15]);
}

#[test]
fn law_staticfs_reads_continue() {
    let mut leaf = StaticFSLeaf::new(3, 6);
    assert_eq!(leaf.sectors_to_load(), Some((3, 1)));
    leaf.load(&vec![vec![1, 2, 3, 4, 5, 6, 7, 8]]);
    assert_eq!(leaf.sectors_to_load(), None);
    let fc = client(3, 3);
    let mut a = vec![0u8; 4];
    let mut b = vec![0u8; 4];
    assert_eq!(success(&leaf.read(fc, &mut a)), Some(4));
    assert_eq!(success(&leaf.read(fc, &mut b)), Some(2));
    assert_eq!(a, vec![1, 2, 3, 4]);
    assert_eq!(b, vec![5, 6, 0, 0]);
    leaf.close(fc);
    let mut c = vec![0u8; 1];
    assert_eq!(success(&leaf.read(fc, &mut c)), Some(1));
    assert_eq!(c, vec![1]);
}

// ---- path tree ----

#[test]
fn split_path_at_first_slash() {
    assert_eq!(split_path("a/b/c"), ("a".to_string(), Some("b/c".to_string())));
    assert_eq!(split_path("a"), ("a".to_string(), None));
}

#[test]
fn law_tree_insert_then_resolve() {
    let mut t = new_branch();
    assert!(matches!(t.insert("dev/null", NodeId(1)), IoResultPure::Success(())));
    assert!(matches!(t.insert("dev/zero", NodeId(2)), IoResultPure::Success(())));
    assert_eq!(t.resolve(Some("dev/null")), Some((NodeId(1), None)));
    assert_eq!(t.resolve(Some("dev/zero")), Some((NodeId(2), None)));
    assert_eq!(t.resolve(Some("dev/null/x/y")), Some((NodeId(1), Some("x/y".to_string()))));
    assert_eq!(t.resolve(Some("dev/full")), None);
    assert_eq!(t.resolve(Some("dev")), None);
}

#[test]
fn law_tree_insert_keeps_others() {
    let mut t = new_branch();
    t.insert("mnt/a", NodeId(1));
    t.insert("prc/5", NodeId(2));
    assert_eq!(t.resolve(Some("mnt/a")), Some((NodeId(1), None)));
}

#[test]
fn tree_insert_errors() {
    let mut t = new_branch();
    t.insert("dev/null", NodeId(1));
    // Below a leaf, the component right after it meets the leaf itself;
    // one more component is blocked by it.
    assert!(matches!(t.insert("dev/null/x", NodeId(2)), IoResultPure::Error(ErrorCode::fs_node_exists)));
    assert!(matches!(t.insert("dev/null/x/y", NodeId(2)), IoResultPure::Error(ErrorCode::fs_node_path_blocked)));
    let mut leaf = Tree::Leaf(NodeId(3));
    assert!(matches!(leaf.insert("x", NodeId(4)), IoResultPure::Error(ErrorCode::fs_node_exists)));
    assert_eq!(t.resolve(Some("dev/null")), Some((NodeId(1), None)));
    // A node that already exists is not replaced, nor is a branch.
    assert!(matches!(t.insert("dev/null", NodeId(5)), IoResultPure::Error(ErrorCode::fs_node_exists)));
    assert!(matches!(t.insert("dev", NodeId(6)), IoResultPure::Error(ErrorCode::fs_node_exists)));
    assert_eq!(t.resolve(Some("dev/null")), Some((NodeId(1), None)));
}

// ---- descriptors, nodes and special files ----

#[test]
fn descriptors_count_up() {
    let mut pd = ProcessDescriptors::new(NodeId(9));
    let a = pd.create_id(NodeId(1), None);
    let b = pd.create_id(NodeId(2), Some(Path::new("x").to_path_buf()));
    assert_eq!(a, FileDescriptor::from_u64(0));
    assert_eq!(b, FileDescriptor::from_u64(1));
    assert_eq!(pd.resolve(a).unwrap().node_id, NodeId(1));
    assert_eq!(pd.resolve(b).unwrap().suffix.unwrap().as_path().as_str(), "x");
    assert!(pd.resolve(FileDescriptor::from_u64(2)).is_none());
}

#[test]
fn leaf_reference_counting() {
    let mut leaf: Leaf<u8> = Leaf::new(0);
    leaf.inc_ref();
    leaf.inc_ref();
    assert!(leaf.dec_ref());
    assert!(!leaf.dec_ref());
    let att: Leaf<u8> = Leaf::new_attachment(manager(), false);
    assert!(matches!(att.data, LeafData::Attachment(_)));
}

#[test]
fn special_files_behave() {
    let fc = client(1, 1);
    let mut buf = vec![5u8; 3];
    assert_eq!(success(&NullDevice.read(fc, &mut buf)), Some(0));
    assert_eq!(success(&NullDevice.write(fc, &[1, 2])), Some(2));
    assert_eq!(success(&ZeroDevice.read(fc, &mut buf)), Some(3));
    assert_eq!(buf, vec![0, 0, 0]);
    assert_eq!(success(&ZeroDevice.write(fc, &[1])), Some(0));
    let mut t = TestDevice { rounds: 0 };
    assert!(matches!(t.read(fc, &mut buf).inner, IoResultPure::Error(ErrorCode::fs_unknown_control_function)));
    let mut p = ProcessFile::new(ProcessId(4));
    assert!(matches!(p.read(fc, &mut buf).inner, IoResultPure::RepeatAfter(WaitFor::Process(ProcessId(4)))));
}

#[test]
fn triggers_collect_events_and_kills() {
    let mut set = EventSet::new();
    set.insert(ExplicitEventId(1));
    set.insert(ExplicitEventId(1));
    set.insert(ExplicitEventId(2));
    let t = Trigger::events(set);
    let mut ev = t.event_list();
    ev.sort_by_key(|e| e.0);
    assert_eq!(ev, vec![ExplicitEventId(1), ExplicitEventId(2)]);
    assert!(t.kill_list().is_empty());
    let k = Trigger::kill_process(ProcessId(3));
    assert_eq!(k.kill_list(), vec![ProcessId(3)]);
    assert!(k.event_list().is_empty());
    assert!(Trigger::empty().event_list().is_empty());
    let mut ps = ProcessSet::new();
    ps.insert(ProcessId(5));
    assert_eq!(Trigger::kill_processes(ps).kill_list(), vec![ProcessId(5)]);
}

#[test]
fn io_result_try_conversions() {
    let ok: IoResult<u8> = IoResult::from_ok((3, vec![ExplicitEventId(8)]));
    match ok.into_result() {
        Ok((v, ev)) => {
            assert_eq!(v, 3);
            assert_eq!(ev, vec![ExplicitEventId(8)]);
        },
        Err(_) => panic!("expected success"),
    }
    let err: IoResult<u8> = IoResult::error(ErrorCode::fs_file_destroyed).with_event(ExplicitEventId(2));
    match err.into_result() {
        Ok(_) => panic!("expected failure"),
        Err(e) => {
            let back: IoResult<u32> = IoResult::from_error(e);
            assert!(matches!(back.inner, IoResultPure::Error(ErrorCode::fs_file_destroyed)));
            assert_eq!(back.events, vec![ExplicitEventId(2)]);
        },
    }
    let pure: IoResultPure<u8> = IoResultPure::from_ok(4);
    assert!(matches!(pure.into_result(), Ok(4)));
}

#[test]
fn staticfs_header_checks() {
    let mut mbr = vec![0u8; 512];
    mbr[0x1b0] = 0x10;
    mbr[0x1b1] = 0x00;
    assert_eq!(find_file_list(&mbr, 0x1b0), 0x10);
    let mut header = vec![0u8; 16];
    header[0..4].copy_from_slice(&0xd7_57_a7_1cu32.to_le_bytes());
    header[4..8].copy_from_slice(&1u32.to_le_bytes());
    header[8..12].copy_from_slice(&300u32.to_le_bytes());
    assert_eq!(load_header(5, &header, 0xd7_57_a7_1c, 1), Ok(300));
    assert_eq!(load_header(MISSING_MARKER, &header, 0xd7_57_a7_1c, 1), Err(HeaderError::Missing));
    assert_eq!(load_header(5, &header, 0x1234, 1), Err(HeaderError::IncorrectMagic));
    assert_eq!(load_header(5, &header, 0xd7_57_a7_1c, 2), Err(HeaderError::IncorrectVersion));
}

// ---- the virtual filesystem ----

fn kernel_fc(fd: u64) -> FileClientId {
    FileClientId { process: None, fd: FileDescriptor(fd) }
}

fn process_fc(pid: u64, fd: u64) -> FileClientId {
    FileClientId { process: Some(ProcessId(pid)), fd: FileDescriptor(fd) }
}

#[test]
fn vfs_static_nodes_resolve() {
    let mut fs = VirtualFS::new();
    assert!(matches!(fs.create_static(&Path::new("/dev/null"), ObjectSlot(7)), IoResultPure::Success(NodeId(0))));
    assert!(matches!(fs.create_static(&Path::new("/dev/zero"), ObjectSlot(8)), IoResultPure::Success(NodeId(1))));
    assert!(matches!(fs.resolve(&Path::new("/dev/null")), IoResultPure::Success((NodeId(0), None))));
    match fs.resolve(&Path::new("/dev/zero/more/x")) {
        IoResultPure::Success((NodeId(1), Some(rest))) => assert_eq!(rest.as_path().as_str(), "more/x"),
        _ => panic!("expected the zero device with a rest"),
    }
    assert!(matches!(fs.resolve(&Path::new("/dev/tty")), IoResultPure::Error(ErrorCode::fs_node_not_found)));
    assert!(matches!(fs.resolve(&Path::new("/dev")), IoResultPure::Error(ErrorCode::fs_node_not_found)));
    // Below a file, one more component meets the file; more are blocked.
    assert!(matches!(
        fs.create_static(&Path::new("/dev/null/sub"), ObjectSlot(9)),
        IoResultPure::Error(ErrorCode::fs_node_exists)
    ));
    assert!(matches!(
        fs.create_static(&Path::new("/dev/null/sub/deeper"), ObjectSlot(9)),
        IoResultPure::Error(ErrorCode::fs_node_path_blocked)
    ));
    match fs.node(NodeId(0)) {
        IoResultPure::Success(leaf) => {
            assert_eq!(leaf.fc_refcount, 1);
            assert!(matches!(leaf.data, LeafData::FileObject(ObjectSlot(7))));
        },
        _ => panic!("node 0 exists"),
    }
    assert!(matches!(fs.node(NodeId(5)), IoResultPure::Error(ErrorCode::fs_file_destroyed)));
    assert_eq!(fs.take_kernel_fc(), kernel_fc(2));
    // The refused creations kept their node under the id that was next;
    // a taken path is refused and keeps its node.
    assert!(matches!(fs.node(NodeId(2)), IoResultPure::Success(leaf) if leaf.fc_refcount == 0));
    assert!(matches!(
        fs.create_static(&Path::new("/dev/null"), ObjectSlot(10)),
        IoResultPure::Error(ErrorCode::fs_node_exists)
    ));
    assert!(matches!(fs.resolve(&Path::new("/dev/null")), IoResultPure::Success((NodeId(0), None))));
    // Destroying a node hands back its object; its path stays in the tree.
    assert!(matches!(fs._destroy(NodeId(1)), Destroyed::Object(ObjectSlot(8))));
    assert!(matches!(fs.node(NodeId(1)), IoResultPure::Error(ErrorCode::fs_file_destroyed)));
    assert!(matches!(fs.resolve(&Path::new("/dev/zero")), IoResultPure::Success((NodeId(1), None))));
}

#[test]
fn vfs_exec_open_read_close() {
    let mut fs = VirtualFS::new();
    assert!(matches!(fs.create_static(&Path::new("/bin/init"), ObjectSlot(1)), IoResultPure::Success(NodeId(0))));
    // The kernel starts init: the executable opened for the kernel, then
    // the process node at /prc/41.
    assert!(matches!(fs.exec_open_executable("/bin/init", None), IoResultPure::Success(fc) if fc == kernel_fc(1)));
    assert!(matches!(fs.exec_register(ProcessId(41), None, ObjectSlot(2)), IoResultPure::Success(fc) if fc == kernel_fc(2)));
    assert!(matches!(fs.resolve(&Path::new("/prc/41")), IoResultPure::Success((NodeId(1), None))));
    assert!(matches!(fs.exec_register(ProcessId(1230), None, ObjectSlot(3)), IoResultPure::Success(_)));
    assert!(matches!(fs.resolve(&Path::new("/prc/1230")), IoResultPure::Success((NodeId(2), None))));
    assert!(matches!(fs.exec_register(ProcessId(0), None, ObjectSlot(4)), IoResultPure::Success(_)));
    assert!(matches!(fs.resolve(&Path::new("/prc/0")), IoResultPure::Success((NodeId(3), None))));
    // init opens the executable twice: descriptors 0 and 1.
    let fc0 = match fs.open(ProcessId(41), "/bin/init") {
        IoResultPure::Success(fc) => fc,
        _ => panic!("open failed"),
    };
    assert_eq!(fc0, process_fc(41, 0));
    assert!(matches!(fs.open(ProcessId(41), "/bin/init"), IoResultPure::Success(fc) if fc == process_fc(41, 1)));
    assert!(matches!(fs.open(ProcessId(41), "/bin/none"), IoResultPure::Error(ErrorCode::fs_node_not_found)));
    match fs.node(NodeId(0)) {
        IoResultPure::Success(leaf) => assert_eq!(leaf.fc_refcount, 4),
        _ => panic!("node 0 exists"),
    }
    match fs.descriptor(fc0) {
        Some(open) => {
            assert_eq!(open.node_id, NodeId(0));
            assert!(open.suffix.is_none());
        },
        None => panic!("descriptor 0 is open"),
    }
    assert!(fs.descriptor(kernel_fc(1)).is_none());
    // The kernel reads the executable through a temporary client.
    assert!(matches!(
        fs.read_file("/bin/init"),
        IoResultPure::Success((fc, Target::Object(NodeId(0), ObjectSlot(1)))) if fc == kernel_fc(5)
    ));
    assert!(matches!(fs.read_file("/bin/missing"), IoResultPure::Error(ErrorCode::fs_node_not_found)));
    assert!(fs.descriptor(process_fc(41, 9)).is_none());
    assert!(fs.descriptor(process_fc(40, 0)).is_none());
    assert!(matches!(fs.read(fc0), IoResultPure::Success(Target::Object(NodeId(0), ObjectSlot(1)))));
    assert!(matches!(fs.write(fc0), IoResultPure::Success(Target::Object(NodeId(0), ObjectSlot(1)))));
    assert!(matches!(fs.get_pid(fc0), IoResultPure::Success(PidAnswer::Object(ObjectSlot(1)))));
    // Closing goes to the object; the node keeps its other references.
    assert!(matches!(fs.close(fc0), CloseStep::Object(NodeId(0), ObjectSlot(1))));
    assert!(fs.finish_close(NodeId(0), CloseAction::Normal).is_none());
    match fs.node(NodeId(0)) {
        IoResultPure::Success(leaf) => assert_eq!(leaf.fc_refcount, 3),
        _ => panic!("node 0 exists"),
    }
    // An object asking to be destroyed is removed.
    assert!(matches!(
        fs.finish_close(NodeId(0), CloseAction::Destroy),
        Some(Destroyed::Object(ObjectSlot(1)))
    ));
    assert!(matches!(fs.node(NodeId(0)), IoResultPure::Error(ErrorCode::fs_file_destroyed)));
    assert!(matches!(fs.read(fc0), IoResultPure::Error(ErrorCode::fs_file_destroyed)));
    assert!(matches!(fs.close(fc0), CloseStep::Gone));
}

#[test]
fn vfs_attachment_clients_and_process_end() {
    let mut fs = VirtualFS::new();
    assert!(matches!(fs.exec_register(ProcessId(1), None, ObjectSlot(1)), IoResultPure::Success(fc) if fc == kernel_fc(0)));
    assert!(matches!(
        fs.exec_register(ProcessId(2), Some(ProcessId(1)), ObjectSlot(2)),
        IoResultPure::Success(fc) if fc == process_fc(1, 0)
    ));
    // Process 1 serves /srv/files.
    let manager = match fs.attach(ProcessId(1), "/srv/files", false) {
        IoResultPure::Success(fc) => fc,
        _ => panic!("attach failed"),
    };
    assert_eq!(manager, process_fc(1, 1));
    assert!(matches!(fs.get_pid(manager), IoResultPure::Success(PidAnswer::Process(ProcessId(1)))));
    assert!(matches!(fs.read(manager), IoResultPure::Success(Target::Attachment(NodeId(2), None))));
    // Process 2 opens a file under it.
    let client = match fs.open(ProcessId(2), "/srv/files/a/b") {
        IoResultPure::Success(fc) => fc,
        _ => panic!("open failed"),
    };
    assert_eq!(client, process_fc(2, 0));
    match fs.write(client) {
        IoResultPure::Success(Target::Attachment(NodeId(2), Some(p))) => assert_eq!(p.as_path().as_str(), "a/b"),
        _ => panic!("expected the attachment"),
    }
    match fs.node(NodeId(2)) {
        IoResultPure::Success(leaf) => assert_eq!(leaf.fc_refcount, 2),
        _ => panic!("node 2 exists"),
    }
    // The kernel opens the attachment for a moment, and closes it again.
    let temp = match fs.temp_open(NodeId(2)) {
        IoResultPure::Success((fc, Target::Attachment(NodeId(2), None))) => fc,
        _ => panic!("expected the attachment"),
    };
    assert_eq!(temp, kernel_fc(1));
    assert!(fs.temp_close_attachment(NodeId(2), temp).is_empty());
    assert!(matches!(fs.temp_open(NodeId(9)), IoResultPure::Error(ErrorCode::fs_file_destroyed)));
    // Process 2 ends: its node and its one client are handed back.
    let over = fs.on_process_over(ProcessId(2)).expect("process 2 is known");
    assert_eq!(over.node, Some(NodeId(1)));
    assert_eq!(over.open.len(), 1);
    assert_eq!(over.open[0], (client, NodeId(2)));
    assert!(fs.on_process_over(ProcessId(2)).is_none());
    assert!(!fs.has_process(ProcessId(2)));
    assert!(fs.has_process(ProcessId(1)));
    // A close from the ended process is ignored.
    assert!(matches!(fs.close(client), CloseStep::Gone));
    match fs.node(NodeId(2)) {
        IoResultPure::Success(leaf) => assert_eq!(leaf.fc_refcount, 2),
        _ => panic!("node 2 exists"),
    }
    // The client's close is queued for the manager; the node stays.
    match fs.close_removed(client, NodeId(2)) {
        CloseStep::Done(events, None) => assert!(events.is_empty()),
        _ => panic!("expected a plain close"),
    }
    // The manager's close destroys the attachment.
    match fs.close(manager) {
        CloseStep::Done(events, Some(Destroyed::Attachment(_))) => assert!(events.is_empty()),
        _ => panic!("expected the attachment destroyed"),
    }
    assert!(matches!(fs.node(NodeId(2)), IoResultPure::Error(ErrorCode::fs_file_destroyed)));
}

#[test]
fn vfs_refused_attach_keeps_the_node() {
    let mut fs = VirtualFS::new();
    assert!(matches!(fs.exec_register(ProcessId(3), None, ObjectSlot(1)), IoResultPure::Success(_)));
    assert!(matches!(
        fs.attach(ProcessId(3), "/prc/3/x", true),
        IoResultPure::Error(ErrorCode::fs_node_exists)
    ));
    // The refused attachment still took a descriptor and a node.
    match fs.node(NodeId(1)) {
        IoResultPure::Success(leaf) => {
            assert_eq!(leaf.fc_refcount, 0);
            assert!(matches!(leaf.data, LeafData::Attachment(_)));
        },
        _ => panic!("node 1 is kept"),
    }
    assert!(matches!(fs.attach(ProcessId(3), "/srv/y", true), IoResultPure::Success(fc) if fc == process_fc(3, 1)));
}
