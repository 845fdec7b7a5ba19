//! The file descriptors of a process and what each one has open.

use vstd::prelude::*;
use super::path::PathBuf;
use super::types::{FileDescriptor, NodeId};

verus! {

/// File opened by Open
pub struct OpenFile {
    /// NodeId
    pub node_id: NodeId,
    /// Relative path left after the node
    pub suffix: Option<PathBuf>,
}

/// What an open file is, the suffix by its characters.
pub open spec fn open_file_view(f: OpenFile) -> (NodeId, Option<Seq<char>>) {
    (f.node_id, match f.suffix {
        Some(p) => Some(p@),
        None => None,
    })
}

/// A process's descriptors.
#[verifier::external_body]
pub struct DescriptorMap {
    map: hashbrown::HashMap<FileDescriptor, OpenFile>,
}

/// What each descriptor has open.
pub uninterp spec fn descriptor_map_contents(m: DescriptorMap) -> Map<FileDescriptor, (NodeId, Option<Seq<char>>)>;

/// `hashbrown::HashMap::new`: no descriptors.
#[verifier::external_body]
fn descriptor_map_new() -> (r: DescriptorMap)
    ensures
        descriptor_map_contents(r).dom().len() == 0,
        descriptor_map_contents(r).dom().finite(),
{
    DescriptorMap { map: hashbrown::HashMap::new() }
}

/// `hashbrown::HashMap::insert`: `fd` now has `f` open.
#[verifier::external_body]
fn descriptor_map_insert(m: &mut DescriptorMap, fd: FileDescriptor, f: OpenFile)
    ensures
        descriptor_map_contents(*final(m)) == descriptor_map_contents(*old(m)).insert(fd, open_file_view(f)),
{
    m.map.insert(fd, f);
}

/// `hashbrown::HashMap::get`, the open file copied: what `fd` has open.
#[verifier::external_body]
fn descriptor_map_get(m: &DescriptorMap, fd: FileDescriptor) -> (r: Option<OpenFile>)
    ensures
        match r {
            Some(f) => descriptor_map_contents(*m).contains_key(fd) && open_file_view(f)
                == descriptor_map_contents(*m)[fd],
            None => !descriptor_map_contents(*m).contains_key(fd),
        },
{
    m.map.get(&fd).map(|f| OpenFile { node_id: f.node_id, suffix: f.suffix.clone() })
}

/// `hashbrown::HashMap::into_iter`, collected: every descriptor once,
/// with what it has open, in the map's own order.
#[verifier::external_body]
fn descriptor_map_entries(m: DescriptorMap) -> (r: Vec<(FileDescriptor, OpenFile)>)
    ensures
        entries_of(descriptor_map_contents(m), r@),
{
    m.map.into_iter().collect()
}

/// `s` lists each descriptor of `m` once, with what it has open.
pub open spec fn entries_of(m: Map<FileDescriptor, (NodeId, Option<Seq<char>>)>, s: Seq<(FileDescriptor, OpenFile)>) -> bool {
    &&& forall|i: int| 0 <= i < s.len() ==> m.contains_key(#[trigger] s[i].0) && open_file_view(s[i].1) == m[s[i].0]
    &&& forall|fd: FileDescriptor| #[trigger] m.contains_key(fd) ==> exists|i: int| 0 <= i < s.len() && s[i].0 == fd
    &&& forall|i: int, j: int| 0 <= i < j < s.len() ==> s[i].0 != s[j].0
}

/// NodeId and descriptors for a process
pub struct ProcessDescriptors {
    /// Node id of the process
    node_id: NodeId,
    /// Descriptors owned by the process
    descriptors: DescriptorMap,
    /// Next available file descriptor
    next_fd: FileDescriptor,
}

impl ProcessDescriptors {
    pub closed spec fn spec_node_id(&self) -> NodeId {
        self.node_id
    }

    pub closed spec fn spec_descriptors(&self) -> Map<FileDescriptor, (NodeId, Option<Seq<char>>)> {
        descriptor_map_contents(self.descriptors)
    }

    pub closed spec fn spec_next_fd(&self) -> FileDescriptor {
        self.next_fd
    }

    /// Every descriptor handed out is below the next one.
    pub open spec fn wf(&self) -> bool {
        forall|fd: FileDescriptor| #[trigger] self.spec_descriptors().contains_key(fd) ==> fd.0 < self.spec_next_fd().0
    }

    pub fn new(node_id: NodeId) -> (r: Self)
        ensures
            r.wf(),
            r.spec_node_id() == node_id,
            r.spec_descriptors().dom().len() == 0,
            r.spec_next_fd().0 == 0,
    {
        ProcessDescriptors { node_id, descriptors: descriptor_map_new(), next_fd: FileDescriptor::from_u64(0) }
    }

    /// Node id of the process.
    pub fn node_id(&self) -> (r: NodeId)
        ensures
            r == self.spec_node_id(),
    {
        self.node_id
    }

    /// Every descriptor, once, with what it has open.
    pub fn into_entries(self) -> (r: Vec<(FileDescriptor, OpenFile)>)
        ensures
            entries_of(self.spec_descriptors(), r@),
    {
        descriptor_map_entries(self.descriptors)
    }

    /// What `fd` has open, if anything.
    pub fn resolve(&self, fd: FileDescriptor) -> (r: Option<OpenFile>)
        ensures
            match r {
                Some(f) => self.spec_descriptors().contains_key(fd) && open_file_view(f) == self.spec_descriptors()[fd],
                None => !self.spec_descriptors().contains_key(fd),
            },
    {
        descriptor_map_get(&self.descriptors, fd)
    }

    /// Opens a new descriptor on `node_id` with `suffix`: the next one,
    /// never handed out before.
    pub fn create_id(&mut self, node_id: NodeId, suffix: Option<PathBuf>) -> (fd: FileDescriptor)
        requires
            old(self).wf(),
            old(self).spec_next_fd().0 < u64::MAX,
        ensures
            final(self).wf(),
            fd == old(self).spec_next_fd(),
            !old(self).spec_descriptors().contains_key(fd),
            final(self).spec_descriptors() == old(self).spec_descriptors().insert(fd, open_file_view(OpenFile { node_id, suffix })),
            final(self).spec_next_fd().0 == fd.0 + 1,
            final(self).spec_node_id() == old(self).spec_node_id(),
    {
        let fd = self.next_fd;
        descriptor_map_insert(&mut self.descriptors, fd, OpenFile { node_id, suffix });
        self.next_fd = self.next_fd.next();
        proof {
            assert forall|d: FileDescriptor| #[trigger] self.spec_descriptors().contains_key(d) implies d.0 < self.spec_next_fd().0 by {
                if d != fd {
                    assert(old(self).spec_descriptors().contains_key(d));
                }
            }
        }
        fd
    }
}

} // verus!
