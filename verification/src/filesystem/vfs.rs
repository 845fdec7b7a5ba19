//! Virtual "filesystem", a key-value storage where keys represent *paths*
//! and values are *file objects*: the path tree, the nodes with their
//! counts of open descriptors, and the descriptors of each process.
//!
//! The file objects of the kernel's drivers are kept by the kernel under
//! an object slot; a node that holds one names its slot. Operations on such
//! an object, and the scheduling of the events that operations raise, are
//! the kernel's: the filesystem says which object an operation goes to and
//! what follows from its answer.

use vstd::prelude::*;
use vstd::string::*;
use super::attachment::{
    client_can_read, client_can_write, client_read_done, client_write_done, close_done, destroy_trigger,
    manager_read_done, manager_write_done, response_fits, response_key, state_event, Attachment, ClientKey, Response,
};
use super::descriptors::{entries_of, open_file_view, OpenFile, ProcessDescriptors};
use super::node::{Leaf, LeafData};
use super::path::{Path, PathBuf};
use super::result::{IoResult, IoResultPure};
use super::tree::{insert_result, inserted, new_branch, no_children, tree_resolve, Tree};
use super::types::{CloseAction, ErrorCode, ExplicitEventId, FileClientId, FileDescriptor, NodeId, ProcessId, WaitFor};
use super::trigger::Trigger;

verus! {

/// The slot under which the kernel keeps a node's file object.
#[derive(Debug, Clone, Copy, PartialEq, Eq, Hash, Structural)]
pub struct ObjectSlot(pub u64);

/// The nodes, by id.
#[verifier::external_body]
pub struct NodeMap {
    map: hashbrown::HashMap<NodeId, Leaf<ObjectSlot>>,
}

/// Each node, by id.
pub uninterp spec fn node_map_contents(m: NodeMap) -> Map<NodeId, Leaf<ObjectSlot>>;

/// No nodes.
pub open spec fn no_nodes() -> Map<NodeId, Leaf<ObjectSlot>> {
    Map::empty()
}

/// `hashbrown::HashMap::new`: no nodes.
#[verifier::external_body]
fn node_map_new() -> (r: NodeMap)
    ensures
        node_map_contents(r) == no_nodes(),
{
    NodeMap { map: hashbrown::HashMap::new() }
}

/// `hashbrown::HashMap::insert`: node `k` is now `v`.
#[verifier::external_body]
fn node_map_insert(m: &mut NodeMap, k: NodeId, v: Leaf<ObjectSlot>)
    ensures
        node_map_contents(*final(m)) == node_map_contents(*old(m)).insert(k, v),
{
    m.map.insert(k, v);
}

/// `hashbrown::HashMap::remove`: takes node `k` out.
#[verifier::external_body]
fn node_map_remove(m: &mut NodeMap, k: NodeId) -> (r: Option<Leaf<ObjectSlot>>)
    ensures
        node_map_contents(*final(m)) == node_map_contents(*old(m)).remove(k),
        match r {
            Some(v) => node_map_contents(*old(m)).contains_key(k) && v == node_map_contents(*old(m))[k],
            None => !node_map_contents(*old(m)).contains_key(k),
        },
{
    m.map.remove(&k)
}

/// `hashbrown::HashMap::get`: node `k`.
#[verifier::external_body]
fn node_map_get<'a>(m: &'a NodeMap, k: NodeId) -> (r: Option<&'a Leaf<ObjectSlot>>)
    ensures
        match r {
            Some(v) => node_map_contents(*m).contains_key(k) && *v == node_map_contents(*m)[k],
            None => !node_map_contents(*m).contains_key(k),
        },
{
    m.map.get(&k)
}

/// The descriptors of each process, by process.
#[verifier::external_body]
pub struct ProcessMap {
    map: hashbrown::HashMap<ProcessId, ProcessDescriptors>,
}

/// Each process's descriptors.
pub uninterp spec fn process_map_contents(m: ProcessMap) -> Map<ProcessId, ProcessDescriptors>;

/// No processes.
pub open spec fn no_process_entries() -> Map<ProcessId, ProcessDescriptors> {
    Map::empty()
}

/// `hashbrown::HashMap::new`: no processes.
#[verifier::external_body]
fn process_map_new() -> (r: ProcessMap)
    ensures
        process_map_contents(r) == no_process_entries(),
{
    ProcessMap { map: hashbrown::HashMap::new() }
}

/// `hashbrown::HashMap::insert`: process `k` now has descriptors `v`.
#[verifier::external_body]
fn process_map_insert(m: &mut ProcessMap, k: ProcessId, v: ProcessDescriptors)
    ensures
        process_map_contents(*final(m)) == process_map_contents(*old(m)).insert(k, v),
{
    m.map.insert(k, v);
}

/// `hashbrown::HashMap::remove`: takes the descriptors of process `k` out.
#[verifier::external_body]
fn process_map_remove(m: &mut ProcessMap, k: ProcessId) -> (r: Option<ProcessDescriptors>)
    ensures
        process_map_contents(*final(m)) == process_map_contents(*old(m)).remove(k),
        match r {
            Some(v) => process_map_contents(*old(m)).contains_key(k) && v == process_map_contents(*old(m))[k],
            None => !process_map_contents(*old(m)).contains_key(k),
        },
{
    m.map.remove(&k)
}

/// `hashbrown::HashMap::get`: the descriptors of process `k`.
#[verifier::external_body]
fn process_map_get<'a>(m: &'a ProcessMap, k: ProcessId) -> (r: Option<&'a ProcessDescriptors>)
    ensures
        match r {
            Some(v) => process_map_contents(*m).contains_key(k) && *v == process_map_contents(*m)[k],
            None => !process_map_contents(*m).contains_key(k),
        },
{
    m.map.get(&k)
}

/// The answer `r` of the tree, with `v` in place of its success value.
pub open spec fn with_value<T>(r: IoResultPure<()>, v: T) -> IoResultPure<T> {
    match r {
        IoResultPure::Success(_) => IoResultPure::Success(v),
        IoResultPure::RepeatAfter(w) => IoResultPure::RepeatAfter(w),
        IoResultPure::Error(e) => IoResultPure::Error(e),
    }
}

/// An absolute path without its leading slash.
pub open spec fn relative(p: Seq<char>) -> Seq<char> {
    p.skip(1)
}

/// The text of `path` after its first character.
fn relative_str(path: &Path) -> (r: &str)
    requires
        path@.len() > 0,
    ensures
        r@ == relative(path@),
{
    let s = path.as_str();
    let n = s.unicode_len();
    let r = s.substring_char(1, n);
    proof {
        assert(s@.subrange(1, n as int) =~= s@.skip(1));
    }
    r
}

/// `new` is `old` with a descriptor opened by process `pid` on `node_id`
/// with `suffix`: its next one.
pub open spec fn fd_created(
    old: Map<ProcessId, ProcessDescriptors>,
    new: Map<ProcessId, ProcessDescriptors>,
    pid: ProcessId,
    node_id: NodeId,
    suffix: Option<Seq<char>>,
) -> bool {
    &&& new.dom() == old.dom()
    &&& forall|q: ProcessId| #[trigger] old.contains_key(q) && q != pid ==> new[q] == old[q]
    &&& new[pid].spec_descriptors() == old[pid].spec_descriptors().insert(old[pid].spec_next_fd(), (node_id, suffix))
    &&& new[pid].spec_next_fd().0 == old[pid].spec_next_fd().0 + 1
    &&& new[pid].spec_node_id() == old[pid].spec_node_id()
}

/// `a2` is `a` with the client `fc` at `suffix` registered, ready.
pub open spec fn attachment_opened(a: Attachment, a2: Attachment, fc: FileClientId, suffix: Option<Seq<char>>) -> bool {
    &&& a2.spec_clients() == a.spec_clients().insert((fc, suffix), super::attachment::ClientStateView::Ready)
    &&& a2.spec_queue() == a.spec_queue()
    &&& a2.spec_waiting() == a.spec_waiting()
    &&& a2.spec_manager() == a.spec_manager()
    &&& a2.spec_is_leaf() == a.spec_is_leaf()
}

/// `l2` is the node `l` opened once more by `fc` with `suffix`: an
/// attachment registers the client; a file object stays as it is.
pub open spec fn leaf_opened(l: Leaf<ObjectSlot>, l2: Leaf<ObjectSlot>, fc: FileClientId, suffix: Option<Seq<char>>) -> bool {
    &&& l2.fc_refcount == l.fc_refcount + 1
    &&& match l.data {
        LeafData::FileObject(o) => l2.data == LeafData::<ObjectSlot>::FileObject(o),
        LeafData::Attachment(a) => l2.data matches LeafData::Attachment(a2) && attachment_opened(a, a2, fc, suffix),
    }
}

/// A new attachment managed by `fc`, with `refs` descriptors open; where
/// it is open, the manager is its one client, ready.
pub open spec fn new_attachment_leaf(l: Leaf<ObjectSlot>, fc: FileClientId, is_leaf: bool, opened: bool) -> bool {
    &&& l.fc_refcount == (if opened { 1int } else { 0int })
    &&& l.data matches LeafData::Attachment(a)
    &&& a.spec_manager() == fc
    &&& a.spec_is_leaf() == is_leaf
    &&& a.spec_queue().len() == 0
    &&& a.spec_waiting() is None
    &&& if opened {
        a.spec_clients() == map![(fc, None::<Seq<char>>) => super::attachment::ClientStateView::Ready]
    } else {
        a.spec_clients() == super::attachment::no_clients()
    }
}

/// What the kernel runs after a node is removed: the destructor of its
/// file object, or the trigger of its attachment.
pub enum Destroyed {
    Object(ObjectSlot),
    Attachment(Trigger),
}

/// The outcome of closing a descriptor.
pub enum CloseStep {
    /// The node is gone already: nothing to do.
    Gone,
    /// The node holds the file object in the slot: the kernel closes it,
    /// and hands its answer to `finish_close` with the node's id.
    Object(NodeId, ObjectSlot),
    /// The attachment closed the client: the events to trigger, and what
    /// was destroyed, if the node was.
    Done(Vec<ExplicitEventId>, Option<Destroyed>),
}

/// `d` is what removing the node `l` leaves to run.
pub open spec fn destroyed_of(l: Leaf<ObjectSlot>, d: Destroyed) -> bool {
    match l.data {
        LeafData::FileObject(o) => d == Destroyed::Object(o),
        LeafData::Attachment(a) => d matches Destroyed::Attachment(t) && destroy_trigger(a, t),
    }
}

/// After the node `id` was closed once, answered by `action`: with its
/// count one lower, it is removed where the answer asks so or no
/// descriptor is left, and `d` is then what it leaves to run; else it
/// stays as `l2` with that count.
pub open spec fn node_closed(
    nodes: Map<NodeId, Leaf<ObjectSlot>>,
    nodes2: Map<NodeId, Leaf<ObjectSlot>>,
    id: NodeId,
    l2: Leaf<ObjectSlot>,
    action: CloseAction,
    d: Option<Destroyed>,
) -> bool {
    if action == CloseAction::Destroy || l2.fc_refcount == 0 {
        &&& nodes2 == nodes.remove(id)
        &&& d matches Some(x) && destroyed_of(l2, x)
    } else {
        &&& nodes2 == nodes.insert(id, l2)
        &&& d is None
    }
}

/// Where an operation on a descriptor goes.
pub enum Target {
    /// The file object in the slot, held by the node.
    Object(NodeId, ObjectSlot),
    /// The attachment of the node, for the client at the path left after
    /// it.
    Attachment(NodeId, Option<PathBuf>),
}

/// The characters of an optional path.
pub open spec fn path_view(p: Option<PathBuf>) -> Option<Seq<char>> {
    match p {
        Some(x) => Some(x@),
        None => None,
    }
}

/// `r` sends an operation on node `id`, at `suffix`, to what the node
/// holds; `fs_file_destroyed` where the node is gone.
pub open spec fn targets(nodes: Map<NodeId, Leaf<ObjectSlot>>, id: NodeId, suffix: Option<Seq<char>>, r: IoResultPure<Target>) -> bool {
    if !nodes.contains_key(id) {
        r == IoResultPure::<Target>::Error(ErrorCode::fs_file_destroyed)
    } else {
        match nodes[id].data {
            LeafData::FileObject(o) => r == IoResultPure::<Target>::Success(Target::Object(id, o)),
            LeafData::Attachment(_) => r matches IoResultPure::Success(Target::Attachment(rid, rs)) && rid == id
                && path_view(rs) == suffix,
        }
    }
}

/// The attachment of node `id`.
pub open spec fn attachment_at(nodes: Map<NodeId, Leaf<ObjectSlot>>, id: NodeId) -> Attachment {
    match nodes[id].data {
        LeafData::Attachment(a) => a,
        LeafData::FileObject(_) => arbitrary(),
    }
}

/// Node `id` exists and holds an attachment.
pub open spec fn is_attachment_node(nodes: Map<NodeId, Leaf<ObjectSlot>>, id: NodeId) -> bool {
    nodes.contains_key(id) && nodes[id].data is Attachment
}

/// `nodes2` is `nodes` where node `id` holds another attachment, with the
/// same count of descriptors.
pub open spec fn attachment_replaced(nodes: Map<NodeId, Leaf<ObjectSlot>>, nodes2: Map<NodeId, Leaf<ObjectSlot>>, id: NodeId) -> bool {
    &&& nodes2[id].data is Attachment
    &&& nodes2 == nodes.insert(id, Leaf { data: nodes2[id].data, fc_refcount: nodes[id].fc_refcount })
}

/// Who answers a process id query.
pub enum PidAnswer {
    /// The file object in the slot.
    Object(ObjectSlot),
    /// The process managing the attachment.
    Process(ProcessId),
}

/// The digit `d` as a character.
pub open spec fn digit_char(d: nat) -> char {
    (d + 48) as char
}

/// `v` written in decimal.
pub open spec fn decimal(v: nat) -> Seq<char>
    decreases v,
{
    if v < 10 {
        seq![digit_char(v)]
    } else {
        decimal(v / 10).push(digit_char(v % 10))
    }
}

/// The path of the node of process `pid`: `/prc/` and its number.
pub open spec fn process_path(pid: ProcessId) -> Seq<char> {
    seq!['/', 'p', 'r', 'c', '/'] + decimal(pid.0 as nat)
}

/// The digit `d` as text.
fn digit_text(d: u64) -> (r: &'static str)
    requires
        d < 10,
    ensures
        r@ == seq![digit_char(d as nat)],
{
    proof {
        reveal_strlit("0");
        reveal_strlit("1");
        reveal_strlit("2");
        reveal_strlit("3");
        reveal_strlit("4");
        reveal_strlit("5");
        reveal_strlit("6");
        reveal_strlit("7");
        reveal_strlit("8");
        reveal_strlit("9");
    }
    match d {
        0 => "0",
        1 => "1",
        2 => "2",
        3 => "3",
        4 => "4",
        5 => "5",
        6 => "6",
        7 => "7",
        8 => "8",
        _ => "9",
    }
}

/// Appends `v` written in decimal.
fn push_decimal(s: &mut String, v: u64)
    ensures
        final(s)@ == old(s)@ + decimal(v as nat),
    decreases v,
{
    let ghost start = s@;
    if v >= 10 {
        push_decimal(s, v / 10);
    }
    let ghost mid = s@;
    s.append(digit_text(v % 10));
    proof {
        if v >= 10 {
            assert(mid == start + decimal((v / 10) as nat));
            assert(s@ =~= start + decimal((v / 10) as nat).push(digit_char((v % 10) as nat)));
        } else {
            assert(s@ =~= start + seq![digit_char(v as nat)]);
        }
    }
}

/// The path of process `pid`'s node.
fn process_path_text(pid: ProcessId) -> (r: String)
    ensures
        r@ == process_path(pid),
{
    let mut s = String::from_str("/prc/");
    proof {
        reveal_strlit("/prc/");
    }
    push_decimal(&mut s, pid.0);
    s
}

/// `new` is `old` with the client `fc` created for `owner` on `node_id`:
/// the owner's next descriptor, or the next kernel descriptor.
pub open spec fn client_created(
    old: Map<ProcessId, ProcessDescriptors>,
    new: Map<ProcessId, ProcessDescriptors>,
    old_kernel_fd: FileDescriptor,
    new_kernel_fd: FileDescriptor,
    owner: Option<ProcessId>,
    node_id: NodeId,
    fc: FileClientId,
) -> bool {
    match owner {
        Some(pid) => {
            &&& fc == FileClientId { process: Some(pid), fd: old[pid].spec_next_fd() }
            &&& fd_created(old, new, pid, node_id, None)
            &&& new_kernel_fd == old_kernel_fd
        },
        None => {
            &&& fc == FileClientId { process: None, fd: old_kernel_fd }
            &&& new == old
            &&& new_kernel_fd.0 == old_kernel_fd.0 + 1
        },
    }
}

/// A client can be created for `owner` in `processes`.
pub open spec fn can_create_client(processes: Map<ProcessId, ProcessDescriptors>, kernel_fd: FileDescriptor, owner: Option<ProcessId>) -> bool {
    match owner {
        Some(pid) => processes.contains_key(pid) && processes[pid].spec_next_fd().0 < u64::MAX,
        None => kernel_fd.0 < u64::MAX,
    }
}

/// What is left to do when a process is over.
pub struct ProcessOver {
    /// The process's node, where it still exists: the kernel writes the
    /// process's result there.
    pub node: Option<NodeId>,
    /// Each client that the process held, with its node: the kernel closes
    /// each with `close_removed`.
    pub open: Vec<(FileClientId, NodeId)>,
}

pub struct VirtualFS {
    /// Tree, Path -> NodeId mapping
    tree: Tree,
    /// The actual file objects
    nodes: NodeMap,
    /// Process file descriptor -> NodeId mapping
    descriptors: ProcessMap,
    /// Next node id
    next_node_id: NodeId,
    /// Next file descriptor for the kernel
    next_kernel_fd: FileDescriptor,
}

impl VirtualFS {
    pub closed spec fn spec_tree(&self) -> Tree {
        self.tree
    }

    pub closed spec fn spec_nodes(&self) -> Map<NodeId, Leaf<ObjectSlot>> {
        node_map_contents(self.nodes)
    }

    pub closed spec fn spec_processes(&self) -> Map<ProcessId, ProcessDescriptors> {
        process_map_contents(self.descriptors)
    }

    pub closed spec fn spec_next_node_id(&self) -> NodeId {
        self.next_node_id
    }

    pub closed spec fn spec_next_kernel_fd(&self) -> FileDescriptor {
        self.next_kernel_fd
    }

    /// Where the absolute path `p` leads: a node, and what is left of the
    /// path after it.
    pub open spec fn resolves(&self, p: Seq<char>) -> Option<(NodeId, Option<Seq<char>>)> {
        tree_resolve(self.spec_tree(), Some(relative(p)))
    }

    /// The descriptors of every process are below its next one.
    pub open spec fn wf(&self) -> bool {
        forall|pid: ProcessId| #[trigger] self.spec_processes().contains_key(pid) ==> self.spec_processes()[pid].wf()
    }

    /// Everything besides the nodes is as in `other`.
    pub open spec fn same_but_nodes(&self, other: &VirtualFS) -> bool {
        &&& self.spec_tree() == other.spec_tree()
        &&& self.spec_processes() == other.spec_processes()
        &&& self.spec_next_node_id() == other.spec_next_node_id()
        &&& self.spec_next_kernel_fd() == other.spec_next_kernel_fd()
    }

    /// An empty tree, no nodes, no processes; ids and kernel descriptors
    /// start at zero.
    pub fn new() -> (r: Self)
        ensures
            r.wf(),
            r.spec_tree() matches Tree::Branch(m) && super::tree::tree_map_contents(m) == no_children(),
            r.spec_nodes() == no_nodes(),
            r.spec_processes() == no_process_entries(),
            r.spec_next_node_id().0 == 0,
            r.spec_next_kernel_fd().0 == 0,
    {
        VirtualFS {
            tree: new_branch(),
            nodes: node_map_new(),
            descriptors: process_map_new(),
            next_node_id: NodeId::first(),
            next_kernel_fd: FileDescriptor::from_u64(0),
        }
    }

    /// A new kernel client: the next kernel descriptor.
    pub fn take_kernel_fc(&mut self) -> (fc: FileClientId)
        requires
            old(self).spec_next_kernel_fd().0 < u64::MAX,
        ensures
            fc.process is None,
            fc.fd == old(self).spec_next_kernel_fd(),
            final(self).spec_next_kernel_fd().0 == old(self).spec_next_kernel_fd().0 + 1,
            final(self).spec_tree() == old(self).spec_tree(),
            final(self).spec_nodes() == old(self).spec_nodes(),
            final(self).spec_processes() == old(self).spec_processes(),
            final(self).spec_next_node_id() == old(self).spec_next_node_id(),
    {
        let fd = self.next_kernel_fd;
        self.next_kernel_fd = self.next_kernel_fd.next();
        FileClientId::kernel(fd)
    }

    /// The node and the rest of the path that the absolute `path` leads
    /// to; `fs_node_not_found` where it leads nowhere.
    pub fn resolve(&self, path: &Path) -> (r: IoResultPure<(NodeId, Option<PathBuf>)>)
        requires
            path@.len() > 0 && path@[0] == '/',
        ensures
            match self.resolves(path@) {
                Some((id, rest)) => r matches IoResultPure::Success((rid, rrest)) && rid == id && match rest {
                    Some(t) => rrest matches Some(x) && x@ == t,
                    None => rrest is None,
                },
                None => r == IoResultPure::<(NodeId, Option<PathBuf>)>::Error(ErrorCode::fs_node_not_found),
            },
    {
        match self.tree.resolve(Some(relative_str(path))) {
            Some((id, rest)) => IoResultPure::Success((id, match rest {
                Some(t) => Some(Path::new(t.as_str()).to_path_buf()),
                None => None,
            })),
            None => IoResultPure::Error(ErrorCode::fs_node_not_found),
        }
    }

    /// Node `id`; `fs_file_destroyed` where it is gone.
    pub fn node(&self, id: NodeId) -> (r: IoResultPure<&Leaf<ObjectSlot>>)
        ensures
            self.spec_nodes().contains_key(id) ==> (r matches IoResultPure::Success(n) && *n == self.spec_nodes()[id]),
            !self.spec_nodes().contains_key(id) ==> (r matches IoResultPure::Error(e) && e == ErrorCode::fs_file_destroyed),
    {
        match node_map_get(&self.nodes, id) {
            Some(n) => IoResultPure::Success(n),
            None => IoResultPure::Error(ErrorCode::fs_file_destroyed),
        }
    }
    /// Inserts `new_node` under the next node id, then its path at `path`.
    /// The node stays inserted where the path is refused; the next id then
    /// stays the same.
    pub fn create_node(&mut self, path: &Path, new_node: Leaf<ObjectSlot>) -> (r: IoResultPure<NodeId>)
        requires
            old(self).wf(),
            path@.len() > 0 && path@[0] == '/',
            old(self).spec_next_node_id().0 < u64::MAX,
        ensures
            final(self).wf(),
            final(self).spec_nodes() == old(self).spec_nodes().insert(old(self).spec_next_node_id(), new_node),
            final(self).spec_processes() == old(self).spec_processes(),
            final(self).spec_next_kernel_fd() == old(self).spec_next_kernel_fd(),
            r == with_value(insert_result(old(self).spec_tree(), relative(path@)), old(self).spec_next_node_id()),
            r is Success ==> {
                &&& inserted(old(self).spec_tree(), final(self).spec_tree(), relative(path@), old(self).spec_next_node_id())
                &&& final(self).spec_next_node_id().0 == old(self).spec_next_node_id().0 + 1
            },
            !(r is Success) ==> {
                &&& final(self).spec_tree() == old(self).spec_tree()
                &&& final(self).spec_next_node_id() == old(self).spec_next_node_id()
            },
    {
        let new_node_id = self.next_node_id;
        node_map_insert(&mut self.nodes, new_node_id, new_node);
        let res = self.tree.insert(relative_str(path), new_node_id);
        proof {
            assert(self.spec_processes() == old(self).spec_processes());
        }
        match res {
            IoResultPure::Success(_) => {
                self.next_node_id = new_node_id.next();
                IoResultPure::Success(new_node_id)
            },
            IoResultPure::RepeatAfter(w) => IoResultPure::RepeatAfter(w),
            IoResultPure::Error(e) => IoResultPure::Error(e),
        }
    }

    /// Creates a node for the file object in `obj` at `path`, and gives it
    /// one initial reference so it will not be removed automatically.
    pub fn create_static(&mut self, path: &Path, obj: ObjectSlot) -> (r: IoResultPure<NodeId>)
        requires
            old(self).wf(),
            path@.len() > 0 && path@[0] == '/',
            old(self).spec_next_node_id().0 < u64::MAX,
            old(self).spec_next_kernel_fd().0 < u64::MAX,
        ensures
            final(self).wf(),
            final(self).spec_processes() == old(self).spec_processes(),
            r == with_value(insert_result(old(self).spec_tree(), relative(path@)), old(self).spec_next_node_id()),
            r is Success ==> {
                &&& final(self).spec_nodes() == old(self).spec_nodes().insert(
                    old(self).spec_next_node_id(),
                    Leaf { data: LeafData::FileObject(obj), fc_refcount: 1 },
                )
                &&& inserted(old(self).spec_tree(), final(self).spec_tree(), relative(path@), old(self).spec_next_node_id())
                &&& final(self).spec_next_node_id().0 == old(self).spec_next_node_id().0 + 1
                &&& final(self).spec_next_kernel_fd().0 == old(self).spec_next_kernel_fd().0 + 1
            },
            !(r is Success) ==> {
                &&& final(self).spec_nodes() == old(self).spec_nodes().insert(
                    old(self).spec_next_node_id(),
                    Leaf { data: LeafData::FileObject(obj), fc_refcount: 0 },
                )
                &&& final(self).spec_tree() == old(self).spec_tree()
                &&& final(self).spec_next_node_id() == old(self).spec_next_node_id()
                &&& final(self).spec_next_kernel_fd() == old(self).spec_next_kernel_fd()
            },
    {
        let node_id = match self.create_node(path, Leaf::new(obj)) {
            IoResultPure::Success(id) => id,
            IoResultPure::RepeatAfter(w) => return IoResultPure::RepeatAfter(w),
            IoResultPure::Error(e) => return IoResultPure::Error(e),
        };
        let _fc = self.take_kernel_fc();
        self.inc_ref(node_id);
        IoResultPure::Success(node_id)
    }

    /// One more reference to node `id`.
    fn inc_ref(&mut self, id: NodeId)
        requires
            old(self).spec_nodes().contains_key(id),
            old(self).spec_nodes()[id].fc_refcount < u64::MAX,
        ensures
            final(self).spec_nodes() == old(self).spec_nodes().insert(id, Leaf {
                data: old(self).spec_nodes()[id].data,
                fc_refcount: (old(self).spec_nodes()[id].fc_refcount + 1) as u64,
            }),
            final(self).same_but_nodes(old(self)),
    {
        let mut node = match node_map_remove(&mut self.nodes, id) {
            Some(n) => n,
            None => unreached(),
        };
        node.inc_ref();
        node_map_insert(&mut self.nodes, id, node);
        proof {
            assert(self.spec_nodes() =~= old(self).spec_nodes().insert(id, Leaf {
                data: old(self).spec_nodes()[id].data,
                fc_refcount: (old(self).spec_nodes()[id].fc_refcount + 1) as u64,
            }));
        }
    }

    /// Opens a descriptor of process `pid` on `node_id` with `suffix`.
    fn create_fd(&mut self, pid: ProcessId, node_id: NodeId, suffix: Option<PathBuf>) -> (fd: FileDescriptor)
        requires
            old(self).wf(),
            old(self).spec_processes().contains_key(pid),
            old(self).spec_processes()[pid].spec_next_fd().0 < u64::MAX,
        ensures
            final(self).wf(),
            fd == old(self).spec_processes()[pid].spec_next_fd(),
            fd_created(
                old(self).spec_processes(),
                final(self).spec_processes(),
                pid,
                node_id,
                match suffix {
                    Some(p) => Some(p@),
                    None => None,
                },
            ),
            final(self).spec_tree() == old(self).spec_tree(),
            final(self).spec_nodes() == old(self).spec_nodes(),
            final(self).spec_next_node_id() == old(self).spec_next_node_id(),
            final(self).spec_next_kernel_fd() == old(self).spec_next_kernel_fd(),
    {
        let mut process = match process_map_remove(&mut self.descriptors, pid) {
            Some(p) => p,
            None => unreached(),
        };
        let fd = process.create_id(node_id, suffix);
        process_map_insert(&mut self.descriptors, pid, process);
        proof {
            assert(self.spec_processes().dom() =~= old(self).spec_processes().dom());
            assert forall|q: ProcessId| #[trigger] self.spec_processes().contains_key(q) implies self.spec_processes()[q].wf() by {
                if q != pid {
                    assert(old(self).spec_processes().contains_key(q));
                }
            }
        }
        fd
    }

    /// Open a file (system call): a new descriptor of process `pid` on the
    /// node that the absolute `path` leads to, with the rest of the path.
    pub fn open(&mut self, pid: ProcessId, path: &str) -> (r: IoResultPure<FileClientId>)
        requires
            old(self).wf(),
            path@.len() > 0 && path@[0] == '/',
            old(self).spec_processes().contains_key(pid),
            old(self).spec_processes()[pid].spec_next_fd().0 < u64::MAX,
            old(self).resolves(path@) matches Some((id, _)) ==> old(self).spec_nodes().contains_key(id)
                && old(self).spec_nodes()[id].fc_refcount < u64::MAX,
        ensures
            final(self).wf(),
            final(self).spec_tree() == old(self).spec_tree(),
            final(self).spec_next_node_id() == old(self).spec_next_node_id(),
            final(self).spec_next_kernel_fd() == old(self).spec_next_kernel_fd(),
            match old(self).resolves(path@) {
                Some((id, rest)) => {
                    let fd = old(self).spec_processes()[pid].spec_next_fd();
                    let fc = FileClientId { process: Some(pid), fd };
                    &&& r == IoResultPure::<FileClientId>::Success(fc)
                    &&& fd_created(old(self).spec_processes(), final(self).spec_processes(), pid, id, rest)
                    &&& final(self).spec_nodes().dom() == old(self).spec_nodes().dom()
                    &&& forall|n: NodeId| #[trigger] old(self).spec_nodes().contains_key(n) && n != id
                        ==> final(self).spec_nodes()[n] == old(self).spec_nodes()[n]
                    &&& leaf_opened(old(self).spec_nodes()[id], final(self).spec_nodes()[id], fc, rest)
                },
                None => {
                    &&& r == IoResultPure::<FileClientId>::Error(ErrorCode::fs_node_not_found)
                    &&& final(self).spec_processes() == old(self).spec_processes()
                    &&& final(self).spec_nodes() == old(self).spec_nodes()
                },
            },
    {
        let path = Path::new(path);
        let (node_id, suffix) = match self.resolve(&path) {
            IoResultPure::Success(v) => v,
            IoResultPure::RepeatAfter(w) => return IoResultPure::RepeatAfter(w),
            IoResultPure::Error(e) => return IoResultPure::Error(e),
        };
        let again = match &suffix {
            Some(p) => Some(p.as_path().to_path_buf()),
            None => None,
        };
        let fd = self.create_fd(pid, node_id, suffix);
        let fc = FileClientId::process(pid, fd);
        let mut node = match node_map_remove(&mut self.nodes, node_id) {
            Some(n) => n,
            None => unreached(),
        };
        match &mut node.data {
            LeafData::FileObject(_) => {},
            LeafData::Attachment(a) => {
                let _ = a.open(again, fc);
            },
        }
        node.inc_ref();
        node_map_insert(&mut self.nodes, node_id, node);
        proof {
            assert(self.spec_nodes().dom() =~= old(self).spec_nodes().dom());
        }
        IoResultPure::Success(fc)
    }

    /// Attach to fs (system call): a new attachment node at `path`,
    /// managed by a new descriptor of process `pid`, opened for it.
    pub fn attach(&mut self, pid: ProcessId, path: &str, is_leaf: bool) -> (r: IoResultPure<FileClientId>)
        requires
            old(self).wf(),
            path@.len() > 0 && path@[0] == '/',
            old(self).spec_processes().contains_key(pid),
            old(self).spec_processes()[pid].spec_next_fd().0 < u64::MAX,
            old(self).spec_next_node_id().0 < u64::MAX,
        ensures
            ({
                let id = old(self).spec_next_node_id();
                let fd = old(self).spec_processes()[pid].spec_next_fd();
                let fc = FileClientId { process: Some(pid), fd };
                &&& final(self).wf()
                &&& final(self).spec_next_kernel_fd() == old(self).spec_next_kernel_fd()
                &&& fd_created(old(self).spec_processes(), final(self).spec_processes(), pid, id, None)
                &&& final(self).spec_nodes().dom() == old(self).spec_nodes().dom().insert(id)
                &&& forall|n: NodeId| #[trigger] old(self).spec_nodes().contains_key(n) && n != id
                    ==> final(self).spec_nodes()[n] == old(self).spec_nodes()[n]
                &&& r == with_value(insert_result(old(self).spec_tree(), relative(path@)), fc)
                &&& r is Success ==> {
                    &&& new_attachment_leaf(final(self).spec_nodes()[id], fc, is_leaf, true)
                    &&& inserted(old(self).spec_tree(), final(self).spec_tree(), relative(path@), id)
                    &&& final(self).spec_next_node_id().0 == id.0 + 1
                }
                &&& !(r is Success) ==> {
                    &&& new_attachment_leaf(final(self).spec_nodes()[id], fc, is_leaf, false)
                    &&& final(self).spec_tree() == old(self).spec_tree()
                    &&& final(self).spec_next_node_id() == id
                }
            }),
    {
        let path = Path::new(path);
        let new_node_id = self.next_node_id;
        let fd = self.create_fd(pid, new_node_id, None);
        let fc = FileClientId::process(pid, fd);
        let node_id = match self.create_node(&path, Leaf::new_attachment(fc, is_leaf)) {
            IoResultPure::Success(id) => id,
            IoResultPure::RepeatAfter(w) => {
                proof {
                    assert(self.spec_nodes().dom() =~= old(self).spec_nodes().dom().insert(new_node_id));
                }
                return IoResultPure::RepeatAfter(w);
            },
            IoResultPure::Error(e) => {
                proof {
                    assert(self.spec_nodes().dom() =~= old(self).spec_nodes().dom().insert(new_node_id));
                }
                return IoResultPure::Error(e);
            },
        };
        let mut node = match node_map_remove(&mut self.nodes, node_id) {
            Some(n) => n,
            None => unreached(),
        };
        match &mut node.data {
            LeafData::FileObject(_) => {},
            LeafData::Attachment(a) => {
                let _ = a.open(None, fc);
            },
        }
        node.inc_ref();
        node_map_insert(&mut self.nodes, node_id, node);
        proof {
            assert(self.spec_nodes().dom() =~= old(self).spec_nodes().dom().insert(new_node_id));
            if let LeafData::Attachment(a) = self.spec_nodes()[new_node_id].data {
                assert(a.spec_clients() =~= map![(fc, None::<Seq<char>>) => super::attachment::ClientStateView::Ready]);
            }
        }
        IoResultPure::Success(fc)
    }
    /// Remove node by id: what it leaves to run, the destructor of its
    /// file object or its attachment's trigger, is the kernel's to run.
    pub fn _destroy(&mut self, node_id: NodeId) -> (d: Destroyed)
        requires
            old(self).spec_nodes().contains_key(node_id),
        ensures
            destroyed_of(old(self).spec_nodes()[node_id], d),
            final(self).spec_nodes() == old(self).spec_nodes().remove(node_id),
            final(self).same_but_nodes(old(self)),
    {
        let node = match node_map_remove(&mut self.nodes, node_id) {
            Some(n) => n,
            None => unreached(),
        };
        match node.data {
            LeafData::FileObject(o) => Destroyed::Object(o),
            LeafData::Attachment(a) => Destroyed::Attachment(a.destroy()),
        }
    }

    /// One reference to node `node_id` less, after a close answered by
    /// `action`: destroys the node where `action` asks so or no
    /// descriptor is left.
    pub fn finish_close(&mut self, node_id: NodeId, action: CloseAction) -> (d: Option<Destroyed>)
        requires
            old(self).spec_nodes().contains_key(node_id),
            old(self).spec_nodes()[node_id].fc_refcount > 0,
        ensures
            node_closed(
                old(self).spec_nodes(),
                final(self).spec_nodes(),
                node_id,
                Leaf {
                    data: old(self).spec_nodes()[node_id].data,
                    fc_refcount: (old(self).spec_nodes()[node_id].fc_refcount - 1) as u64,
                },
                action,
                d,
            ),
            final(self).same_but_nodes(old(self)),
    {
        let mut node = match node_map_remove(&mut self.nodes, node_id) {
            Some(n) => n,
            None => unreached(),
        };
        let keep = node.dec_ref();
        if action == CloseAction::Destroy || !keep {
            node_map_insert(&mut self.nodes, node_id, node);
            let d = self._destroy(node_id);
            proof {
                assert(self.spec_nodes() =~= old(self).spec_nodes().remove(node_id));
            }
            Some(d)
        } else {
            node_map_insert(&mut self.nodes, node_id, node);
            proof {
                assert(self.spec_nodes() =~= old(self).spec_nodes().insert(node_id, node));
            }
            None
        }
    }

    /// Closes the client `fc` of node `node_id`, at `suffix`: a file
    /// object is left to the kernel; an attachment closes the client, and
    /// the node loses the reference.
    fn close_node(&mut self, fc: FileClientId, node_id: NodeId, suffix: Option<PathBuf>) -> (r: CloseStep)
        requires
            old(self).spec_nodes().contains_key(node_id) ==> old(self).spec_nodes()[node_id].fc_refcount > 0,
        ensures
            final(self).same_but_nodes(old(self)),
            close_outcome(
                old(self).spec_nodes(),
                final(self).spec_nodes(),
                fc,
                node_id,
                match suffix {
                    Some(p) => Some(p@),
                    None => None,
                },
                r,
            ),
    {
        let mut node = match node_map_remove(&mut self.nodes, node_id) {
            Some(n) => n,
            None => {
                proof {
                    assert(self.spec_nodes() =~= old(self).spec_nodes());
                }
                return CloseStep::Gone;
            },
        };
        match node.data {
            LeafData::FileObject(o) => {
                node_map_insert(&mut self.nodes, node_id, node);
                proof {
                    assert(self.spec_nodes() =~= old(self).spec_nodes());
                }
                CloseStep::Object(node_id, o)
            },
            LeafData::Attachment(a) => {
                let mut a = a;
                let ghost a0 = a;
                let ghost k = (ClientKey { fc, suffix })@;
                let res = a.close(suffix, fc);
                let ghost res0 = res;
                let (action, events) = res.separate_events();
                let action = match action {
                    IoResultPure::Success(x) => x,
                    _ => unreached(),
                };
                let refs = node.fc_refcount;
                node_map_insert(&mut self.nodes, node_id, Leaf { data: LeafData::Attachment(a), fc_refcount: refs });
                let d = self.finish_close(node_id, action);
                proof {
                    let mid = old(self).spec_nodes().remove(node_id).insert(
                        node_id,
                        Leaf { data: LeafData::Attachment(a), fc_refcount: refs },
                    );
                    assert(mid.remove(node_id) =~= old(self).spec_nodes().remove(node_id));
                    assert(mid.insert(node_id, Leaf { data: LeafData::Attachment(a), fc_refcount: (refs - 1) as u64 })
                        =~= old(self).spec_nodes().insert(node_id, Leaf { data: LeafData::Attachment(a), fc_refcount: (refs - 1) as u64 }));
                    assert(close_done(a0, a, k, res0));
                }
                let r = CloseStep::Done(events, d);
                proof {
                    assert(r matches CloseStep::Done(ev, dd) && ev@ == res0.events@ && node_closed(
                        old(self).spec_nodes(),
                        self.spec_nodes(),
                        node_id,
                        Leaf { data: LeafData::Attachment(a), fc_refcount: (refs - 1) as u64 },
                        action,
                        dd,
                    ));
                }
                r
            },
        }
    }

    /// What descriptor `fd` of process `pid` has open.
    fn resolve_fc(&self, pid: ProcessId, fd: FileDescriptor) -> (r: OpenFile)
        requires
            self.spec_processes().contains_key(pid),
            self.spec_processes()[pid].spec_descriptors().contains_key(fd),
        ensures
            open_file_view(r) == self.spec_processes()[pid].spec_descriptors()[fd],
    {
        let process = match process_map_get(&self.descriptors, pid) {
            Some(p) => p,
            None => unreached(),
        };
        match process.resolve(fd) {
            Some(f) => f,
            None => unreached(),
        }
    }

    /// Close a file descriptor (system call). The descriptor stays listed
    /// for its process. If the process owning the file descriptor is
    /// already dead, then the close request is simply ignored.
    pub fn close(&mut self, fc: FileClientId) -> (r: CloseStep)
        requires
            fc.process matches Some(pid) && (old(self).spec_processes().contains_key(pid) ==> {
                &&& old(self).spec_processes()[pid].spec_descriptors().contains_key(fc.fd)
                &&& ({
                    let id = old(self).spec_processes()[pid].spec_descriptors()[fc.fd].0;
                    old(self).spec_nodes().contains_key(id) ==> old(self).spec_nodes()[id].fc_refcount > 0
                })
            }),
        ensures
            final(self).same_but_nodes(old(self)),
            !old(self).spec_processes().contains_key(fc.process.unwrap()) ==> r is Gone && final(self).spec_nodes()
                == old(self).spec_nodes(),
            old(self).spec_processes().contains_key(fc.process.unwrap()) ==> ({
                let f = old(self).spec_processes()[fc.process.unwrap()].spec_descriptors()[fc.fd];
                close_outcome(old(self).spec_nodes(), final(self).spec_nodes(), fc, f.0, f.1, r)
            }),
    {
        let pid = match fc.process {
            Some(p) => p,
            None => unreached(),
        };
        match process_map_get(&self.descriptors, pid) {
            None => return CloseStep::Gone,
            Some(_) => {},
        }
        let open_file = self.resolve_fc(pid, fc.fd);
        self.close_node(fc, open_file.node_id, open_file.suffix)
    }

    /// Close a file descriptor using node_id: for descriptors of processes
    /// that are gone. No suffix support, as the attachment is always
    /// destroyed using this.
    pub fn close_removed(&mut self, fc: FileClientId, node_id: NodeId) -> (r: CloseStep)
        requires
            old(self).spec_nodes().contains_key(node_id) ==> old(self).spec_nodes()[node_id].fc_refcount > 0,
        ensures
            final(self).same_but_nodes(old(self)),
            close_outcome(old(self).spec_nodes(), final(self).spec_nodes(), fc, node_id, None, r),
    {
        self.close_node(fc, node_id, None)
    }
    /// The descriptor `fc` is one of a process the filesystem knows.
    pub open spec fn has_descriptor(&self, fc: FileClientId) -> bool {
        fc.process matches Some(pid) && self.spec_processes().contains_key(pid)
            && self.spec_processes()[pid].spec_descriptors().contains_key(fc.fd)
    }

    /// What the descriptor `fc` has open: a node, and the path after it.
    pub open spec fn descriptor_of(&self, fc: FileClientId) -> (NodeId, Option<Seq<char>>) {
        self.spec_processes()[fc.process.unwrap()].spec_descriptors()[fc.fd]
    }

    /// Whether the filesystem knows process `pid`: it has not ended.
    pub fn has_process(&self, pid: ProcessId) -> (r: bool)
        ensures
            r == self.spec_processes().contains_key(pid),
    {
        match process_map_get(&self.descriptors, pid) {
            Some(_) => true,
            None => false,
        }
    }

    /// What the descriptor `fc` has open, where it is one of a process the
    /// filesystem knows.
    pub fn descriptor(&self, fc: FileClientId) -> (r: Option<OpenFile>)
        ensures
            r is Some <==> self.has_descriptor(fc),
            r matches Some(f) ==> open_file_view(f) == self.descriptor_of(fc),
    {
        match fc.process {
            None => None,
            Some(pid) => match process_map_get(&self.descriptors, pid) {
                None => None,
                Some(process) => process.resolve(fc.fd),
            },
        }
    }

    /// Where an operation on node `node_id` at `suffix` goes.
    fn target_of(&self, node_id: NodeId, suffix: Option<PathBuf>) -> (r: IoResultPure<Target>)
        ensures
            targets(self.spec_nodes(), node_id, path_view(suffix), r),
    {
        match node_map_get(&self.nodes, node_id) {
            None => IoResultPure::Error(ErrorCode::fs_file_destroyed),
            Some(node) => match &node.data {
                LeafData::FileObject(o) => IoResultPure::Success(Target::Object(node_id, *o)),
                LeafData::Attachment(_) => IoResultPure::Success(Target::Attachment(node_id, suffix)),
            },
        }
    }

    /// Read from file (system call): where the read of `fc` goes.
    pub fn read(&self, fc: FileClientId) -> (r: IoResultPure<Target>)
        requires
            self.has_descriptor(fc),
            self.descriptor_of(fc).1 is None,
        ensures
            targets(self.spec_nodes(), self.descriptor_of(fc).0, None, r),
    {
        let pid = match fc.process {
            Some(p) => p,
            None => unreached(),
        };
        let open_file = self.resolve_fc(pid, fc.fd);
        self.target_of(open_file.node_id, open_file.suffix)
    }

    /// Read waiting for (used by system call: fd_select): where the query
    /// of `fc` goes.
    pub fn read_waiting_for(&self, fc: FileClientId) -> (r: IoResultPure<Target>)
        requires
            self.has_descriptor(fc),
            self.descriptor_of(fc).1 is None,
        ensures
            targets(self.spec_nodes(), self.descriptor_of(fc).0, None, r),
    {
        self.read(fc)
    }

    /// Write to file (system call): where the write of `fc` goes. File
    /// objects take no path after their node.
    pub fn write(&self, fc: FileClientId) -> (r: IoResultPure<Target>)
        requires
            self.has_descriptor(fc),
            ({
                let (id, suffix) = self.descriptor_of(fc);
                self.spec_nodes().contains_key(id) && self.spec_nodes()[id].data is FileObject ==> suffix is None
            }),
        ensures
            targets(self.spec_nodes(), self.descriptor_of(fc).0, self.descriptor_of(fc).1, r),
    {
        let pid = match fc.process {
            Some(p) => p,
            None => unreached(),
        };
        let open_file = self.resolve_fc(pid, fc.fd);
        self.target_of(open_file.node_id, open_file.suffix)
    }

    /// Get pid (system call): the process managing the attachment that
    /// `fc` has open, or the file object that answers.
    pub fn get_pid(&self, fc: FileClientId) -> (r: IoResultPure<PidAnswer>)
        requires
            self.has_descriptor(fc),
            is_attachment_node(self.spec_nodes(), self.descriptor_of(fc).0) ==> attachment_at(
                self.spec_nodes(),
                self.descriptor_of(fc).0,
            ).spec_manager().process is Some,
        ensures
            ({
                let id = self.descriptor_of(fc).0;
                if !self.spec_nodes().contains_key(id) {
                    r == IoResultPure::<PidAnswer>::Error(ErrorCode::fs_file_destroyed)
                } else {
                    match self.spec_nodes()[id].data {
                        LeafData::FileObject(o) => r == IoResultPure::<PidAnswer>::Success(PidAnswer::Object(o)),
                        LeafData::Attachment(a) => r == IoResultPure::<PidAnswer>::Success(
                            PidAnswer::Process(a.spec_manager().process.unwrap()),
                        ),
                    }
                }
            }),
    {
        let pid = match fc.process {
            Some(p) => p,
            None => unreached(),
        };
        let open_file = self.resolve_fc(pid, fc.fd);
        match node_map_get(&self.nodes, open_file.node_id) {
            None => IoResultPure::Error(ErrorCode::fs_file_destroyed),
            Some(node) => match &node.data {
                LeafData::FileObject(o) => IoResultPure::Success(PidAnswer::Object(*o)),
                LeafData::Attachment(a) => match a.pid() {
                    IoResultPure::Success(p) => IoResultPure::Success(PidAnswer::Process(p)),
                    _ => unreached(),
                },
            },
        }
    }

    /// Takes the attachment of node `id` out, and puts `a` in its place.
    fn take_attachment(&mut self, id: NodeId) -> (r: (Attachment, u64))
        requires
            is_attachment_node(old(self).spec_nodes(), id),
        ensures
            r.0 == attachment_at(old(self).spec_nodes(), id),
            r.1 == old(self).spec_nodes()[id].fc_refcount,
            final(self).spec_nodes() == old(self).spec_nodes().remove(id),
            final(self).same_but_nodes(old(self)),
    {
        let node = match node_map_remove(&mut self.nodes, id) {
            Some(n) => n,
            None => unreached(),
        };
        match node.data {
            LeafData::Attachment(a) => (a, node.fc_refcount),
            LeafData::FileObject(_) => unreached(),
        }
    }

    /// A read by `fc` of the attachment of node `node_id`: for its
    /// manager, the next request, encoded as `request`; for a client, its
    /// data, with `fresh` the event a new read sleeps on.
    pub fn attachment_read(
        &mut self,
        node_id: NodeId,
        fc: FileClientId,
        buf: &mut Vec<u8>,
        request: &Vec<u8>,
        fresh: ExplicitEventId,
    ) -> (r: IoResult<usize>)
        requires
            is_attachment_node(old(self).spec_nodes(), node_id),
            ({
                let a = attachment_at(old(self).spec_nodes(), node_id);
                &&& fc == a.spec_manager() ==> a.manager_can_read() && request@.len() <= old(buf)@.len()
                &&& fc != a.spec_manager() ==> a.spec_clients().contains_key((fc, None)) && client_can_read(
                    a.spec_clients()[(fc, None)],
                )
            }),
        ensures
            final(self).same_but_nodes(old(self)),
            attachment_replaced(old(self).spec_nodes(), final(self).spec_nodes(), node_id),
            ({
                let a = attachment_at(old(self).spec_nodes(), node_id);
                let b = attachment_at(final(self).spec_nodes(), node_id);
                &&& fc == a.spec_manager() ==> manager_read_done(a, b, old(buf)@, final(buf)@, request@, r)
                &&& fc != a.spec_manager() ==> client_read_done(a, b, (fc, None), old(buf)@, final(buf)@, fresh, r)
            }),
    {
        let (mut a, refs) = self.take_attachment(node_id);
        let r = a.read(None, fc, buf, request, fresh);
        node_map_insert(&mut self.nodes, node_id, Leaf { data: LeafData::Attachment(a), fc_refcount: refs });
        proof {
            assert(self.spec_nodes() =~= old(self).spec_nodes().insert(
                node_id,
                Leaf { data: self.spec_nodes()[node_id].data, fc_refcount: old(self).spec_nodes()[node_id].fc_refcount },
            ));
        }
        r
    }

    /// A write by `fc` to the attachment of node `node_id`, at `suffix`:
    /// for its manager, the decoded `response` and the bytes it took; for a
    /// client, the data in `buf`, with `fresh` the event a new write
    /// sleeps on.
    pub fn attachment_write(
        &mut self,
        node_id: NodeId,
        suffix: Option<PathBuf>,
        fc: FileClientId,
        buf: &Vec<u8>,
        response: Option<(Response, usize)>,
        fresh: ExplicitEventId,
    ) -> (r: IoResult<usize>)
        requires
            is_attachment_node(old(self).spec_nodes(), node_id),
            ({
                let a = attachment_at(old(self).spec_nodes(), node_id);
                let k = (fc, path_view(suffix));
                &&& fc == a.spec_manager() ==> suffix is None && (response matches Some((resp, _))
                    && a.spec_clients().contains_key(response_key(resp)) && response_fits(
                    resp,
                    a.spec_clients()[response_key(resp)],
                ))
                &&& fc != a.spec_manager() ==> a.spec_clients().contains_key(k) && client_can_write(a.spec_clients()[k])
            }),
        ensures
            final(self).same_but_nodes(old(self)),
            attachment_replaced(old(self).spec_nodes(), final(self).spec_nodes(), node_id),
            ({
                let a = attachment_at(old(self).spec_nodes(), node_id);
                let b = attachment_at(final(self).spec_nodes(), node_id);
                &&& fc == a.spec_manager() ==> (response matches Some((resp, consumed)) && manager_write_done(
                    a,
                    b,
                    resp,
                    consumed,
                    r,
                ))
                &&& fc != a.spec_manager() ==> client_write_done(a, b, (fc, path_view(suffix)), buf@, fresh, r)
            }),
    {
        let (mut a, refs) = self.take_attachment(node_id);
        let r = a.write(suffix, fc, buf, response, fresh);
        node_map_insert(&mut self.nodes, node_id, Leaf { data: LeafData::Attachment(a), fc_refcount: refs });
        proof {
            assert(self.spec_nodes() =~= old(self).spec_nodes().insert(
                node_id,
                Leaf { data: self.spec_nodes()[node_id].data, fc_refcount: old(self).spec_nodes()[node_id].fc_refcount },
            ));
        }
        r
    }

    /// What a read by `fc` of the attachment of node `node_id` waits for;
    /// `fresh` is the event the manager sleeps on if it does not sleep yet.
    pub fn attachment_read_waiting_for(&mut self, node_id: NodeId, fc: FileClientId, fresh: ExplicitEventId) -> (r: WaitFor)
        requires
            is_attachment_node(old(self).spec_nodes(), node_id),
        ensures
            final(self).same_but_nodes(old(self)),
            attachment_replaced(old(self).spec_nodes(), final(self).spec_nodes(), node_id),
            ({
                let a = attachment_at(old(self).spec_nodes(), node_id);
                let b = attachment_at(final(self).spec_nodes(), node_id);
                &&& b.spec_manager() == a.spec_manager()
                &&& b.spec_is_leaf() == a.spec_is_leaf()
                &&& b.spec_clients() == a.spec_clients()
                &&& b.spec_queue() == a.spec_queue()
                &&& fc == a.spec_manager() ==> if a.spec_queue().len() > 0 {
                    r == WaitFor::NoWait && b.spec_waiting() == a.spec_waiting()
                } else {
                    match a.spec_waiting() {
                        Some(e) => r == WaitFor::Event(e) && b.spec_waiting() == a.spec_waiting(),
                        None => r == WaitFor::Event(fresh) && b.spec_waiting() == Some(fresh),
                    }
                }
                &&& fc != a.spec_manager() ==> b.spec_waiting() == a.spec_waiting() && r == (if a.spec_clients().contains_key((fc, None)) {
                    match state_event(a.spec_clients()[(fc, None)]) {
                        Some(e) => WaitFor::Event(e),
                        None => WaitFor::NoWait,
                    }
                } else {
                    WaitFor::NoWait
                })
            }),
    {
        let (mut a, refs) = self.take_attachment(node_id);
        let r = a.read_waiting_for(None, fc, fresh);
        node_map_insert(&mut self.nodes, node_id, Leaf { data: LeafData::Attachment(a), fc_refcount: refs });
        proof {
            assert(self.spec_nodes() =~= old(self).spec_nodes().insert(
                node_id,
                Leaf { data: self.spec_nodes()[node_id].data, fc_refcount: old(self).spec_nodes()[node_id].fc_refcount },
            ));
        }
        r
    }
    /// A new client for `owner` on `node_id`: a descriptor of the owning
    /// process, or a kernel descriptor.
    fn new_client(&mut self, owner: Option<ProcessId>, node_id: NodeId) -> (fc: FileClientId)
        requires
            old(self).wf(),
            can_create_client(old(self).spec_processes(), old(self).spec_next_kernel_fd(), owner),
        ensures
            final(self).wf(),
            client_created(
                old(self).spec_processes(),
                final(self).spec_processes(),
                old(self).spec_next_kernel_fd(),
                final(self).spec_next_kernel_fd(),
                owner,
                node_id,
                fc,
            ),
            final(self).spec_tree() == old(self).spec_tree(),
            final(self).spec_nodes() == old(self).spec_nodes(),
            final(self).spec_next_node_id() == old(self).spec_next_node_id(),
    {
        match owner {
            Some(pid) => {
                let fd = self.create_fd(pid, node_id, None);
                FileClientId::process(pid, fd)
            },
            None => self.take_kernel_fc(),
        }
    }

    /// The first part of exec, before the new process is spawned: opens
    /// the executable at `path` for `owner`, or for the kernel.
    pub fn exec_open_executable(&mut self, path: &str, owner: Option<ProcessId>) -> (r: IoResultPure<FileClientId>)
        requires
            old(self).wf(),
            path@.len() > 0 && path@[0] == '/',
            old(self).resolves(path@) matches Some((id, rest)) && rest is None && (old(self).spec_nodes().contains_key(id)
                ==> old(self).spec_nodes()[id].fc_refcount < u64::MAX),
            can_create_client(old(self).spec_processes(), old(self).spec_next_kernel_fd(), owner),
        ensures
            final(self).wf(),
            final(self).spec_tree() == old(self).spec_tree(),
            final(self).spec_next_node_id() == old(self).spec_next_node_id(),
            ({
                let id = old(self).resolves(path@).unwrap().0;
                let fc = match owner {
                    Some(pid) => FileClientId { process: Some(pid), fd: old(self).spec_processes()[pid].spec_next_fd() },
                    None => FileClientId { process: None, fd: old(self).spec_next_kernel_fd() },
                };
                &&& client_created(
                    old(self).spec_processes(),
                    final(self).spec_processes(),
                    old(self).spec_next_kernel_fd(),
                    final(self).spec_next_kernel_fd(),
                    owner,
                    id,
                    fc,
                )
                &&& if old(self).spec_nodes().contains_key(id) {
                    &&& r == IoResultPure::<FileClientId>::Success(fc)
                    &&& final(self).spec_nodes() == old(self).spec_nodes().insert(id, Leaf {
                        data: old(self).spec_nodes()[id].data,
                        fc_refcount: (old(self).spec_nodes()[id].fc_refcount + 1) as u64,
                    })
                } else {
                    &&& r == IoResultPure::<FileClientId>::Error(ErrorCode::fs_file_destroyed)
                    &&& final(self).spec_nodes() == old(self).spec_nodes()
                }
            }),
    {
        let path = Path::new(path);
        let (owner_node_id, _suffix) = match self.resolve(&path) {
            IoResultPure::Success(v) => v,
            _ => unreached(),
        };
        let fc = self.new_client(owner, owner_node_id);
        match node_map_get(&self.nodes, owner_node_id) {
            None => return IoResultPure::Error(ErrorCode::fs_file_destroyed),
            Some(_) => {},
        }
        self.inc_ref(owner_node_id);
        IoResultPure::Success(fc)
    }

    /// The second part of exec, once process `new_pid` is spawned: creates
    /// its node at `/prc/` and its number, holding the file object in
    /// `obj`, gives it its descriptors, and opens the node for `owner`, or
    /// for the kernel.
    pub fn exec_register(&mut self, new_pid: ProcessId, owner: Option<ProcessId>, obj: ObjectSlot) -> (r: IoResultPure<FileClientId>)
        requires
            old(self).wf(),
            old(self).spec_next_node_id().0 < u64::MAX,
            owner != Some(new_pid) ==> can_create_client(old(self).spec_processes(), old(self).spec_next_kernel_fd(), owner),
        ensures
            final(self).wf(),
            exec_registered(*old(self), *final(self), process_path(new_pid), new_pid, owner, obj, r),
    {
        let text = process_path_text(new_pid);
        let path = Path::new(text.as_str());
        self.exec_register_at(&path, new_pid, owner, obj)
    }

    /// `exec_register` with the path of the node given.
    pub fn exec_register_at(&mut self, path: &Path, new_pid: ProcessId, owner: Option<ProcessId>, obj: ObjectSlot) -> (r: IoResultPure<FileClientId>)
        requires
            old(self).wf(),
            path@.len() > 0 && path@[0] == '/',
            old(self).spec_next_node_id().0 < u64::MAX,
            owner != Some(new_pid) ==> can_create_client(old(self).spec_processes(), old(self).spec_next_kernel_fd(), owner),
        ensures
            final(self).wf(),
            exec_registered(*old(self), *final(self), path@, new_pid, owner, obj, r),
    {
        let node_id = match self.create_node(path, Leaf::new(obj)) {
            IoResultPure::Success(id) => id,
            IoResultPure::RepeatAfter(w) => return IoResultPure::RepeatAfter(w),
            IoResultPure::Error(e) => return IoResultPure::Error(e),
        };
        let ghost mid = *self;
        let pd = ProcessDescriptors::new(node_id);
        let ghost pd0 = pd;
        process_map_insert(&mut self.descriptors, new_pid, pd);
        proof {
            assert forall|q: ProcessId| #[trigger] self.spec_processes().contains_key(q) implies self.spec_processes()[q].wf() by {
                if q != new_pid {
                    assert(mid.spec_processes().contains_key(q));
                }
            }
        }
        let ghost before = *self;
        let fc = self.new_client(owner, node_id);
        self.inc_ref(node_id);
        let r = IoResultPure::Success(fc);
        proof {
            assert(before.spec_processes() == old(self).spec_processes().insert(new_pid, pd0));
            assert(self.spec_nodes() =~= old(self).spec_nodes().insert(
                node_id,
                Leaf { data: LeafData::FileObject(obj), fc_refcount: 1 },
            ));
            assert(r matches IoResultPure::Success(f) && client_created(
                old(self).spec_processes().insert(new_pid, pd0),
                self.spec_processes(),
                old(self).spec_next_kernel_fd(),
                self.spec_next_kernel_fd(),
                owner,
                node_id,
                f,
            ));
        }
        r
    }
    /// Update when a process completes: forgets its descriptors, and tells
    /// where its result goes and which clients it held, to be closed.
    pub fn on_process_over(&mut self, pid: ProcessId) -> (r: Option<ProcessOver>)
        requires
            old(self).wf(),
        ensures
            final(self).wf(),
            final(self).spec_tree() == old(self).spec_tree(),
            final(self).spec_nodes() == old(self).spec_nodes(),
            final(self).spec_next_node_id() == old(self).spec_next_node_id(),
            final(self).spec_next_kernel_fd() == old(self).spec_next_kernel_fd(),
            final(self).spec_processes() == old(self).spec_processes().remove(pid),
            !old(self).spec_processes().contains_key(pid) ==> r is None,
            old(self).spec_processes().contains_key(pid) ==> (r matches Some(po) && ({
                let pd = old(self).spec_processes()[pid];
                let m = pd.spec_descriptors();
                &&& po.node == (if old(self).spec_nodes().contains_key(pd.spec_node_id()) {
                    Some(pd.spec_node_id())
                } else {
                    None
                })
                &&& forall|i: int| 0 <= i < po.open@.len() ==> {
                    let (fc, id) = #[trigger] po.open@[i];
                    &&& fc.process == Some(pid)
                    &&& m.contains_key(fc.fd)
                    &&& m[fc.fd].0 == id
                }
                &&& forall|fd: FileDescriptor| #[trigger] m.contains_key(fd) ==> exists|i: int| 0 <= i < po.open@.len()
                    && po.open@[i].0.fd == fd
                &&& forall|i: int, j: int| 0 <= i < j < po.open@.len() ==> po.open@[i].0.fd != po.open@[j].0.fd
            })),
    {
        let pd = match process_map_remove(&mut self.descriptors, pid) {
            Some(pd) => pd,
            None => {
                proof {
                    assert(self.spec_processes() =~= old(self).spec_processes().remove(pid));
                }
                return None;
            },
        };
        proof {
            assert forall|q: ProcessId| #[trigger] self.spec_processes().contains_key(q) implies self.spec_processes()[q].wf() by {
                assert(old(self).spec_processes().contains_key(q));
            }
        }
        let ghost m = pd.spec_descriptors();
        let process_node = pd.node_id();
        let node = match node_map_get(&self.nodes, process_node) {
            Some(_) => Some(process_node),
            None => None,
        };
        let entries = pd.into_entries();
        let mut open: Vec<(FileClientId, NodeId)> = Vec::new();
        let mut i: usize = 0;
        while i < entries.len()
            invariant
                i <= entries@.len(),
                entries_of(m, entries@),
                open@.len() == i,
                forall|j: int| 0 <= j < i ==> open@[j] == (FileClientId { process: Some(pid), fd: entries@[j].0 }, entries@[j].1.node_id),
            decreases entries@.len() - i,
        {
            let fd = entries[i].0;
            let id = entries[i].1.node_id;
            open.push((FileClientId::process(pid, fd), id));
            i = i + 1;
        }
        proof {
            assert forall|fd: FileDescriptor| #[trigger] m.contains_key(fd) implies exists|k: int| 0 <= k < open@.len()
                && open@[k].0.fd == fd by {
                let k = choose|k: int| 0 <= k < entries@.len() && entries@[k].0 == fd;
                assert(open@[k].0.fd == fd);
            }
            assert forall|a: int, b: int| 0 <= a < b < open@.len() implies open@[a].0.fd != open@[b].0.fd by {
                assert(entries@[a].0 != entries@[b].0);
            }
            assert forall|k: int| 0 <= k < open@.len() implies {
                let (fc, id) = #[trigger] open@[k];
                &&& fc.process == Some(pid)
                &&& m.contains_key(fc.fd)
                &&& m[fc.fd].0 == id
            } by {
                assert(m.contains_key(entries@[k].0));
                assert(open_file_view(entries@[k].1) == m[entries@[k].0]);
            }
        }
        Some(ProcessOver { node, open })
    }
    /// Temporarily open node `node_id` for the kernel: a new kernel
    /// client, registered with an attachment; the node's count of
    /// descriptors is left alone. What the kernel does with the client goes
    /// to the returned target, and it closes the client when done.
    pub fn temp_open(&mut self, node_id: NodeId) -> (r: IoResultPure<(FileClientId, Target)>)
        requires
            old(self).spec_next_kernel_fd().0 < u64::MAX,
        ensures
            final(self).spec_tree() == old(self).spec_tree(),
            final(self).spec_processes() == old(self).spec_processes(),
            final(self).spec_next_node_id() == old(self).spec_next_node_id(),
            final(self).spec_next_kernel_fd().0 == old(self).spec_next_kernel_fd().0 + 1,
            ({
                let fc = FileClientId { process: None, fd: old(self).spec_next_kernel_fd() };
                if !old(self).spec_nodes().contains_key(node_id) {
                    &&& r == IoResultPure::<(FileClientId, Target)>::Error(ErrorCode::fs_file_destroyed)
                    &&& final(self).spec_nodes() == old(self).spec_nodes()
                } else {
                    match old(self).spec_nodes()[node_id].data {
                        LeafData::FileObject(o) => {
                            &&& r == IoResultPure::<(FileClientId, Target)>::Success((fc, Target::Object(node_id, o)))
                            &&& final(self).spec_nodes() == old(self).spec_nodes()
                        },
                        LeafData::Attachment(a) => {
                            &&& r matches IoResultPure::Success((rfc, Target::Attachment(rid, None))) && rfc == fc
                                && rid == node_id
                            &&& attachment_replaced(old(self).spec_nodes(), final(self).spec_nodes(), node_id)
                            &&& attachment_opened(a, attachment_at(final(self).spec_nodes(), node_id), fc, None)
                        },
                    }
                }
            }),
    {
        let fc = self.take_kernel_fc();
        let node = match node_map_remove(&mut self.nodes, node_id) {
            Some(n) => n,
            None => {
                proof {
                    assert(self.spec_nodes() =~= old(self).spec_nodes());
                }
                return IoResultPure::Error(ErrorCode::fs_file_destroyed);
            },
        };
        let refs = node.fc_refcount;
        match node.data {
            LeafData::FileObject(o) => {
                node_map_insert(&mut self.nodes, node_id, Leaf { data: LeafData::FileObject(o), fc_refcount: refs });
                proof {
                    assert(self.spec_nodes() =~= old(self).spec_nodes());
                }
                IoResultPure::Success((fc, Target::Object(node_id, o)))
            },
            LeafData::Attachment(a) => {
                let mut a = a;
                let _ = a.open(None, fc);
                node_map_insert(&mut self.nodes, node_id, Leaf { data: LeafData::Attachment(a), fc_refcount: refs });
                proof {
                    assert(self.spec_nodes() =~= old(self).spec_nodes().insert(
                        node_id,
                        Leaf { data: self.spec_nodes()[node_id].data, fc_refcount: old(self).spec_nodes()[node_id].fc_refcount },
                    ));
                }
                IoResultPure::Success((fc, Target::Attachment(node_id, None)))
            },
        }
    }

    /// Closes the kernel's temporary client `fc` of the attachment of node
    /// `node_id`: the events its close raises. The node's count of
    /// descriptors is left alone; a temporary client is never the manager,
    /// whose close would destroy the node.
    pub fn temp_close_attachment(&mut self, node_id: NodeId, fc: FileClientId) -> (r: Vec<ExplicitEventId>)
        requires
            is_attachment_node(old(self).spec_nodes(), node_id),
            fc != attachment_at(old(self).spec_nodes(), node_id).spec_manager(),
        ensures
            final(self).same_but_nodes(old(self)),
            attachment_replaced(old(self).spec_nodes(), final(self).spec_nodes(), node_id),
            exists|res: IoResult<CloseAction>| {
                &&& close_done(
                    attachment_at(old(self).spec_nodes(), node_id),
                    attachment_at(final(self).spec_nodes(), node_id),
                    (fc, None),
                    res,
                )
                &&& r@ == res.events@
            },
    {
        let (mut a, refs) = self.take_attachment(node_id);
        let ghost a0 = a;
        let res = a.close(None, fc);
        let ghost res0 = res;
        let (_action, events) = res.separate_events();
        node_map_insert(&mut self.nodes, node_id, Leaf { data: LeafData::Attachment(a), fc_refcount: refs });
        proof {
            assert(self.spec_nodes() =~= old(self).spec_nodes().insert(
                node_id,
                Leaf { data: self.spec_nodes()[node_id].data, fc_refcount: old(self).spec_nodes()[node_id].fc_refcount },
            ));
            assert(attachment_at(self.spec_nodes(), node_id) == a);
            assert(attachment_at(old(self).spec_nodes(), node_id) == a0);
            assert(close_done(
                attachment_at(old(self).spec_nodes(), node_id),
                attachment_at(self.spec_nodes(), node_id),
                (fc, None),
                res0,
            ) && events@ == res0.events@);
        }
        events
    }

    /// Read a file for other kernel component: the file object that the
    /// absolute `path` names, opened temporarily for the kernel, to be read
    /// to its end by the kernel.
    pub fn read_file(&mut self, path: &str) -> (r: IoResultPure<(FileClientId, Target)>)
        requires
            path@.len() > 0 && path@[0] == '/',
            old(self).spec_next_kernel_fd().0 < u64::MAX,
            old(self).resolves(path@) matches Some((id, rest)) ==> rest is None && !is_attachment_node(
                old(self).spec_nodes(),
                id,
            ),
        ensures
            final(self).spec_tree() == old(self).spec_tree(),
            final(self).spec_processes() == old(self).spec_processes(),
            final(self).spec_nodes() == old(self).spec_nodes(),
            final(self).spec_next_node_id() == old(self).spec_next_node_id(),
            match old(self).resolves(path@) {
                None => {
                    &&& r == IoResultPure::<(FileClientId, Target)>::Error(ErrorCode::fs_node_not_found)
                    &&& final(self).spec_next_kernel_fd() == old(self).spec_next_kernel_fd()
                },
                Some((id, _)) => {
                    let fc = FileClientId { process: None, fd: old(self).spec_next_kernel_fd() };
                    &&& final(self).spec_next_kernel_fd().0 == old(self).spec_next_kernel_fd().0 + 1
                    &&& if old(self).spec_nodes().contains_key(id) {
                        old(self).spec_nodes()[id].data matches LeafData::FileObject(o)
                            && r == IoResultPure::<(FileClientId, Target)>::Success((fc, Target::Object(id, o)))
                    } else {
                        r == IoResultPure::<(FileClientId, Target)>::Error(ErrorCode::fs_file_destroyed)
                    }
                },
            },
    {
        let path = Path::new(path);
        let (node_id, _suffix) = match self.resolve(&path) {
            IoResultPure::Success(v) => v,
            IoResultPure::RepeatAfter(w) => return IoResultPure::RepeatAfter(w),
            IoResultPure::Error(e) => return IoResultPure::Error(e),
        };
        self.temp_open(node_id)
    }
}

/// `b` is `a` after exec registered process `new_pid` at `path`, with its
/// file object in `obj`, for `owner`: on success, its node under the next
/// id, with one reference; its descriptors, none yet; a client of the
/// owner on its node. Where the path is refused, only the node is added.
pub open spec fn exec_registered(
    a: VirtualFS,
    b: VirtualFS,
    path: Seq<char>,
    new_pid: ProcessId,
    owner: Option<ProcessId>,
    obj: ObjectSlot,
    r: IoResultPure<FileClientId>,
) -> bool {
    let id = a.spec_next_node_id();
    let res = insert_result(a.spec_tree(), relative(path));
    if res is Success {
        &&& inserted(a.spec_tree(), b.spec_tree(), relative(path), id)
        &&& b.spec_next_node_id().0 == id.0 + 1
        &&& b.spec_nodes() == a.spec_nodes().insert(id, Leaf { data: LeafData::FileObject(obj), fc_refcount: 1 })
        &&& exists|p: ProcessDescriptors| {
            &&& p.spec_node_id() == id
            &&& p.spec_descriptors().dom().len() == 0
            &&& p.spec_next_fd().0 == 0
            &&& r matches IoResultPure::Success(fc) && client_created(
                a.spec_processes().insert(new_pid, p),
                b.spec_processes(),
                a.spec_next_kernel_fd(),
                b.spec_next_kernel_fd(),
                owner,
                id,
                fc,
            )
        }
    } else {
        &&& r == with_value(res, FileClientId { process: None, fd: FileDescriptor(0) })
        &&& b.spec_tree() == a.spec_tree()
        &&& b.spec_next_node_id() == id
        &&& b.spec_nodes() == a.spec_nodes().insert(id, Leaf { data: LeafData::FileObject(obj), fc_refcount: 0 })
        &&& b.spec_processes() == a.spec_processes()
        &&& b.spec_next_kernel_fd() == a.spec_next_kernel_fd()
    }
}

/// Closing the client `fc` of node `id` at `suffix` gave `r`: a missing
/// node, nothing; a file object, left to the kernel; an attachment closed
/// the client, with the events it raised, and the node lost the reference.
pub open spec fn close_outcome(
    nodes: Map<NodeId, Leaf<ObjectSlot>>,
    nodes2: Map<NodeId, Leaf<ObjectSlot>>,
    fc: FileClientId,
    id: NodeId,
    suffix: Option<Seq<char>>,
    r: CloseStep,
) -> bool {
    if !nodes.contains_key(id) {
        r is Gone && nodes2 == nodes
    } else {
        match nodes[id].data {
            LeafData::FileObject(o) => r == CloseStep::Object(id, o) && nodes2 == nodes,
            LeafData::Attachment(a) => exists|a2: Attachment, res: IoResult<CloseAction>| {
                &&& close_done(a, a2, (fc, suffix), res)
                &&& r matches CloseStep::Done(events, d)
                &&& events@ == res.events@
                &&& res.inner matches IoResultPure::Success(action)
                &&& node_closed(
                    nodes,
                    nodes2,
                    id,
                    Leaf { data: LeafData::Attachment(a2), fc_refcount: (nodes[id].fc_refcount - 1) as u64 },
                    action,
                    d,
                )
            },
        }
    }
}

} // verus!
