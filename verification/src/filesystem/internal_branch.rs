//! A branch node managed by the filesystem itself: its list of children
//! and the per-client read buffers of its listing.

use vstd::prelude::*;
use super::result::{IoResult, IoResultPure};
use super::types::{CloseAction, FileClientId, Leafness, NodeId};

verus! {

/// A map from clients to their pending bytes.
#[verifier::external_body]
pub struct ReaderMap {
    map: hashbrown::HashMap<FileClientId, Vec<u8>>,
}

/// What a `ReaderMap` holds, each buffer by its bytes.
pub uninterp spec fn reader_map_contents(m: ReaderMap) -> Map<FileClientId, Seq<u8>>;

impl ReaderMap {
    pub open spec fn contents(&self) -> Map<FileClientId, Seq<u8>> {
        reader_map_contents(*self)
    }
}

/// The map with no readers.
pub open spec fn no_readers() -> Map<FileClientId, Seq<u8>> {
    Map::empty()
}

/// `hashbrown::HashMap::new`: an empty map.
#[verifier::external_body]
fn reader_map_new() -> (r: ReaderMap)
    ensures
        reader_map_contents(r) == no_readers(),
{
    ReaderMap { map: hashbrown::HashMap::new() }
}

/// `hashbrown::HashMap::contains_key`.
#[verifier::external_body]
fn reader_map_contains(m: &ReaderMap, k: &FileClientId) -> (r: bool)
    ensures
        r == reader_map_contents(*m).contains_key(*k),
{
    m.map.contains_key(k)
}

/// `hashbrown::HashMap::insert`: maps `k` to `v`, replacing an earlier value.
#[verifier::external_body]
fn reader_map_insert(m: &mut ReaderMap, k: FileClientId, v: Vec<u8>)
    ensures
        final(m).contents() == old(m).contents().insert(k, v@),
{
    m.map.insert(k, v);
}

/// `hashbrown::HashMap::remove`: takes the value of `k` out, if any.
#[verifier::external_body]
fn reader_map_remove(m: &mut ReaderMap, k: &FileClientId) -> (r: Option<Vec<u8>>)
    ensures
        final(m).contents() == old(m).contents().remove(*k),
        match r {
            Some(v) => old(m).contents().contains_key(*k) && v@ == old(m).contents()[*k],
            None => !old(m).contents().contains_key(*k),
        },
{
    m.map.remove(k)
}

/// Filesystem-internal protocol modification operation
#[derive(Debug, Clone)]
pub enum InternalModification {
    Add(NodeId, String),
    Remove(NodeId),
}

/// Filesystem-internal protocol read operation
#[derive(Debug, Clone)]
pub struct InternalRead(pub Vec<(NodeId, String)>);

/// The children's names and ids.
pub open spec fn children_view(c: Seq<(NodeId, String)>) -> Seq<(NodeId, Seq<char>)> {
    Seq::new(c.len(), |i: int| (c[i].0, c[i].1@))
}

/// The first child, in list order, named `name`.
pub open spec fn index_of_name(c: Seq<(NodeId, Seq<char>)>, name: Seq<char>) -> Option<int> {
    if exists|i: int| 0 <= i < c.len() && c[i].1 == name {
        Some(choose|i: int| 0 <= i < c.len() && c[i].1 == name && forall|j: int| 0 <= j < i ==> c[j].1 != name)
    } else {
        None
    }
}

/// The first child, in list order, with id `id`.
pub open spec fn index_of_id(c: Seq<(NodeId, Seq<char>)>, id: NodeId) -> Option<int> {
    if exists|i: int| 0 <= i < c.len() && c[i].0 == id {
        Some(choose|i: int| 0 <= i < c.len() && c[i].0 == id && forall|j: int| 0 <= j < i ==> c[j].0 != id)
    } else {
        None
    }
}

/// The children after adding `(id, name)`: the first child with that name
/// gets the id, or the pair is appended.
pub open spec fn spec_add_child(c: Seq<(NodeId, Seq<char>)>, id: NodeId, name: Seq<char>) -> Seq<(NodeId, Seq<char>)> {
    match index_of_name(c, name) {
        Some(i) => c.update(i, (id, name)),
        None => c.push((id, name)),
    }
}

/// The children after removing the first child with id `id`, if any.
pub open spec fn spec_remove_child(c: Seq<(NodeId, Seq<char>)>, id: NodeId) -> Seq<(NodeId, Seq<char>)> {
    match index_of_id(c, id) {
        Some(i) => c.remove(i),
        None => c,
    }
}

/// A read by `fc` into `buf0`, which became `buf1`, took `a` to `b`: as
/// many bytes as are pending and fit, popped from the end of the pending
/// bytes.
pub open spec fn internal_read_done(
    a: InternalBranch,
    b: InternalBranch,
    fc: FileClientId,
    buf0: Seq<u8>,
    buf1: Seq<u8>,
    r: IoResult<usize>,
) -> bool {
    let pending = a.spec_readers()[fc];
    let count = if buf0.len() < pending.len() { buf0.len() as int } else { pending.len() as int };
    &&& r.inner == IoResultPure::<usize>::Success(count as usize)
    &&& r.events@.len() == 0
    &&& buf1.len() == buf0.len()
    &&& buf1.take(count) == pending.skip(pending.len() - count).reverse()
    &&& buf1.skip(count) == buf0.skip(count)
    &&& b.spec_readers() == a.spec_readers().insert(fc, pending.take(pending.len() - count))
    &&& b.spec_children() == a.spec_children()
}

/// Branch that doesn't require attached process, but
/// is instead managed on the vfs level.
pub struct InternalBranch {
    /// Vec used to emulate binary mapping
    children: Vec<(NodeId, String)>,
    /// Readers and their snapshots of data, stored in reverse order for
    /// fast `pop` operations. Read bytes are removed from the buffer.
    readers: ReaderMap,
}

impl InternalBranch {
    pub closed spec fn spec_children(&self) -> Seq<(NodeId, Seq<char>)> {
        children_view(self.children@)
    }

    pub closed spec fn spec_readers(&self) -> Map<FileClientId, Seq<u8>> {
        self.readers.contents()
    }

    pub fn new() -> (r: Self)
        ensures
            r.spec_children().len() == 0,
            r.spec_readers() == no_readers(),
    {
        InternalBranch { children: Vec::new(), readers: reader_map_new() }
    }

    pub fn leafness(&self) -> (r: Leafness)
        ensures
            r == Leafness::InternalBranch,
    {
        Leafness::InternalBranch
    }

    /// The children, for serializing the listing.
    pub fn children(&self) -> (r: &Vec<(NodeId, String)>)
        ensures
            children_view(r@) == self.spec_children(),
    {
        &self.children
    }

    /// Whether client `fc` has no listing snapshot yet.
    pub fn needs_contents(&self, fc: &FileClientId) -> (r: bool)
        ensures
            r == !self.spec_readers().contains_key(*fc),
    {
        !reader_map_contains(&self.readers, fc)
    }

    /// Stores the serialized listing for `fc`, reversed for popping.
    pub fn start_reader(&mut self, fc: FileClientId, contents: Vec<u8>)
        ensures
            final(self).spec_children() == old(self).spec_children(),
            final(self).spec_readers() == old(self).spec_readers().insert(fc, contents@.reverse()),
    {
        let mut reversed: Vec<u8> = Vec::new();
        let mut i = contents.len();
        while i > 0
            invariant
                i <= contents@.len(),
                reversed@ == contents@.skip(i as int).reverse(),
            decreases i,
        {
            reversed.push(contents[i - 1]);
            i = i - 1;
            proof {
                assert(reversed@ =~= contents@.skip(i as int).reverse());
            }
        }
        proof {
            assert(contents@.skip(0) =~= contents@);
        }
        reader_map_insert(&mut self.readers, fc, reversed);
    }

    /// Provides next bytes from reader buffer: the bytes of the snapshot
    /// that are left, up to the size of `buf`, popped from its end.
    pub fn read(&mut self, fc: FileClientId, buf: &mut Vec<u8>) -> (r: IoResult<usize>)
        requires
            old(self).spec_readers().contains_key(fc),
        ensures
            internal_read_done(*old(self), *final(self), fc, old(buf)@, final(buf)@, r),
    {
        let ghost pending = self.spec_readers()[fc];
        let ghost buf0 = buf@;
        let mut reader_buf = match reader_map_remove(&mut self.readers, &fc) {
            Some(v) => v,
            None => unreached(),
        };
        let mut count: usize = 0;
        let mut more = true;
        while more && count < buf.len()
            invariant
                count <= buf0.len(),
                buf@.len() == buf0.len(),
                count <= pending.len(),
                !more ==> count == pending.len(),
                reader_buf@ == pending.take(pending.len() - count),
                forall|j: int| 0 <= j < count ==> buf@[j] == pending[pending.len() - 1 - j],
                forall|j: int| count <= j < buf0.len() ==> buf@[j] == buf0[j],
            decreases buf0.len() - count + (if more { 1int } else { 0int }),
        {
            match reader_buf.pop() {
                Some(byte) => {
                    buf.set(count, byte);
                    count = count + 1;
                    proof {
                        assert(reader_buf@ =~= pending.take(pending.len() - count));
                    }
                },
                None => {
                    more = false;
                },
            }
        }
        proof {
            let l = pending.len();
            assert(buf@.take(count as int) =~= pending.skip(l - count).reverse());
            assert(buf@.skip(count as int) =~= buf0.skip(count as int));
        }
        reader_map_insert(&mut self.readers, fc, reader_buf);
        proof {
            assert(self.spec_readers() =~= old(self).spec_readers().insert(
                fc,
                pending.take(pending.len() - count),
            ));
        }
        IoResult::success(count)
    }

    /// Gives the first child named `name` the id `id`, or appends the pair.
    fn add_child(&mut self, node_id: NodeId, node_name: String)
        ensures
            final(self).spec_readers() == old(self).spec_readers(),
            final(self).spec_children() == spec_add_child(old(self).spec_children(), node_id, node_name@),
    {
        let ghost c0 = self.spec_children();
        let mut found: Option<usize> = None;
        let mut i: usize = 0;
        while found.is_none() && i < self.children.len()
            invariant
                i <= self.children@.len(),
                c0 == self.spec_children(),
                forall|j: int| 0 <= j < i ==> c0[j].1 != node_name@,
                found matches Some(k) ==> k == i && i < c0.len() && c0[k as int].1 == node_name@,
            decreases self.children@.len() - i + (if found is None { 1int } else { 0int }),
        {
            if string_eq(&self.children[i].1, &node_name) {
                found = Some(i);
            } else {
                i = i + 1;
            }
        }
        match found {
            Some(k) => {
                proof {
                    let w = choose|w: int| 0 <= w < c0.len() && c0[w].1 == node_name@ && forall|j: int| 0 <= j < w ==> c0[j].1 != node_name@;
                    assert(index_of_name(c0, node_name@) == Some(k as int)) by {
                        if w < k {
                        } else if w > k {
                        }
                    }
                }
                self.children.set(k, (node_id, node_name));
                proof {
                    assert(self.spec_children() =~= c0.update(k as int, (node_id, node_name@)));
                }
            },
            None => {
                proof {
                    assert(index_of_name(c0, node_name@) is None);
                }
                self.children.push((node_id, node_name));
                proof {
                    assert(self.spec_children() =~= c0.push((node_id, node_name@)));
                }
            },
        }
    }

    /// Removes the first child with id `id`, if there is one.
    fn remove_child(&mut self, node_id: NodeId)
        ensures
            final(self).spec_readers() == old(self).spec_readers(),
            final(self).spec_children() == spec_remove_child(old(self).spec_children(), node_id),
    {
        let ghost c0 = self.spec_children();
        let mut index: Option<usize> = None;
        let mut i: usize = 0;
        while index.is_none() && i < self.children.len()
            invariant
                i <= self.children@.len(),
                c0 == self.spec_children(),
                forall|j: int| 0 <= j < i ==> c0[j].0 != node_id,
                index matches Some(k) ==> k == i && i < c0.len() && c0[k as int].0 == node_id,
            decreases self.children@.len() - i + (if index is None { 1int } else { 0int }),
        {
            if self.children[i].0 == node_id {
                index = Some(i);
            } else {
                i = i + 1;
            }
        }
        match index {
            Some(k) => {
                proof {
                    let w = choose|w: int| 0 <= w < c0.len() && c0[w].0 == node_id && forall|j: int| 0 <= j < w ==> c0[j].0 != node_id;
                    assert(index_of_id(c0, node_id) == Some(k as int)) by {
                        if w < k {
                        } else if w > k {
                        }
                    }
                }
                self.children.remove(k);
                proof {
                    assert(self.spec_children() =~= c0.remove(k as int));
                }
            },
            None => {
                proof {
                    assert(index_of_id(c0, node_id) is None);
                }
            },
        }
    }

    /// Applies a modification sent by the kernel: `Add` renames the first
    /// child of that name or appends it, `Remove` drops the first child
    /// with that id. The whole message counts as written.
    pub fn write(&mut self, fc: &FileClientId, msg: InternalModification, message_len: usize) -> (r: IoResult<usize>)
        requires
            fc.process is None,
        ensures
            r.inner == IoResultPure::<usize>::Success(message_len),
            r.events@.len() == 0,
            final(self).spec_readers() == old(self).spec_readers(),
            final(self).spec_children() == (match msg {
                InternalModification::Add(id, name) => spec_add_child(old(self).spec_children(), id, name@),
                InternalModification::Remove(id) => spec_remove_child(old(self).spec_children(), id),
            }),
    {
        match msg {
            InternalModification::Add(node_id, node_name) => self.add_child(node_id, node_name),
            InternalModification::Remove(node_id) => self.remove_child(node_id),
        }
        IoResult::success(message_len)
    }

    /// Remove buffers when closing
    pub fn close(&mut self, fc: &FileClientId) -> (r: IoResult<CloseAction>)
        ensures
            r.inner == IoResultPure::<CloseAction>::Success(CloseAction::Normal),
            r.events@.len() == 0,
            final(self).spec_readers() == old(self).spec_readers().remove(*fc),
            final(self).spec_children() == old(self).spec_children(),
    {
        let _ = reader_map_remove(&mut self.readers, fc);
        IoResult::success(CloseAction::Normal)
    }
}

/// Whether two strings have the same characters.
pub fn string_eq(a: &String, b: &String) -> (r: bool)
    ensures
        r == (a@ == b@),
{
    let sa = a.as_str();
    let sb = b.as_str();
    let n = sa.unicode_len();
    if n != sb.unicode_len() {
        return false;
    }
    let mut i: usize = 0;
    while i < n
        invariant
            i <= n,
            n == sa@.len(),
            n == sb@.len(),
            sa@ == a@,
            sb@ == b@,
            forall|j: int| 0 <= j < i ==> sa@[j] == sb@[j],
        decreases n - i,
    {
        if sa.get_char(i) != sb.get_char(i) {
            return false;
        }
        i = i + 1;
    }
    assert(sa@ =~= sb@);
    true
}

/// A copy of `s`.
pub fn clone_string(s: &String) -> (r: String)
    ensures
        r@ == s@,
{
    String::from_str(s.as_str())
}

} // verus!
