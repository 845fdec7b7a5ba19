//! The path tree of the virtual filesystem: every key is a path, its value
//! a node, and no key is a prefix of another.

use vstd::prelude::*;
use vstd::string::*;
use super::path::{find_slash_from, lemma_slash_from_bounds, slash_from};
use super::result::IoResultPure;
use super::types::{ErrorCode, NodeId};

verus! {

/// The first component of a relative path, and what follows its slash, if
/// a slash follows it.
pub open spec fn split_left(s: Seq<char>) -> (Seq<char>, Option<Seq<char>>) {
    let i = slash_from(s, 0);
    if i < s.len() {
        (s.take(i), Some(s.skip(i + 1)))
    } else {
        (s, None)
    }
}

/// Splitting leaves a shorter rest.
pub proof fn lemma_split_shorter(s: Seq<char>)
    ensures
        split_left(s).1 matches Some(t) ==> t.len() < s.len(),
{
    lemma_slash_from_bounds(s, 0);
}

/// Tree, Path -> NodeId mapping
pub enum Tree {
    Branch(TreeMap),
    Leaf(NodeId),
}

/// The children of a branch, by name.
#[verifier::external_body]
pub struct TreeMap {
    map: hashbrown::HashMap<String, Tree>,
}

/// The children of a branch, by their names' characters.
pub uninterp spec fn tree_map_contents(m: TreeMap) -> Map<Seq<char>, Tree>;

/// No children.
pub open spec fn no_children() -> Map<Seq<char>, Tree> {
    Map::empty()
}

/// `hashbrown::HashMap::new`: no children.
#[verifier::external_body]
fn tree_map_new() -> (r: TreeMap)
    ensures
        tree_map_contents(r) == no_children(),
{
    TreeMap { map: hashbrown::HashMap::new() }
}

/// `hashbrown::HashMap::get` with a `&str` key: the child named `k`.
/// Names compare by their characters.
#[verifier::external_body]
fn tree_map_get<'a>(m: &'a TreeMap, k: &str) -> (r: Option<&'a Tree>)
    ensures
        match r {
            Some(t) => tree_map_contents(*m).contains_key(k@) && *t == tree_map_contents(*m)[k@],
            None => !tree_map_contents(*m).contains_key(k@),
        },
{
    m.map.get(k)
}

/// `hashbrown::HashMap::remove` with a `&str` key: takes the child named
/// `k` out.
#[verifier::external_body]
fn tree_map_remove(m: &mut TreeMap, k: &str) -> (r: Option<Tree>)
    ensures
        tree_map_contents(*final(m)) == tree_map_contents(*old(m)).remove(k@),
        match r {
            Some(t) => tree_map_contents(*old(m)).contains_key(k@) && t == tree_map_contents(*old(m))[k@],
            None => !tree_map_contents(*old(m)).contains_key(k@),
        },
{
    m.map.remove(k)
}

/// `hashbrown::HashMap::insert`: the child named `k` is now `v`.
#[verifier::external_body]
fn tree_map_insert(m: &mut TreeMap, k: String, v: Tree)
    ensures
        tree_map_contents(*final(m)) == tree_map_contents(*old(m)).insert(k@, v),
{
    m.map.insert(k, v);
}

/// The measure of an optional path.
pub open spec fn path_measure(p: Option<Seq<char>>) -> nat {
    match p {
        Some(s) => s.len() + 1,
        None => 0,
    }
}

/// Where a relative path leads in the tree: the leaf reached first, and
/// the rest of the path after it; nothing when a branch has no child of
/// the next name or the path ends at a branch.
pub open spec fn tree_resolve(t: Tree, p: Option<Seq<char>>) -> Option<(NodeId, Option<Seq<char>>)>
    decreases path_measure(p),
{
    match t {
        Tree::Leaf(id) => Some((id, p)),
        Tree::Branch(m) => match p {
            None => None,
            Some(s) => {
                let (h, tl) = split_left(s);
                proof {
                    lemma_split_shorter(s);
                }
                if tree_map_contents(m).contains_key(h) {
                    tree_resolve(tree_map_contents(m)[h], tl)
                } else {
                    None
                }
            },
        },
    }
}

/// The answer of an insertion of path `s`: refused where the path meets a
/// leaf before its last component, or where a node already has its name.
pub open spec fn insert_result(t: Tree, s: Seq<char>) -> IoResultPure<()>
    decreases s.len(),
{
    let (h, tl) = split_left(s);
    proof {
        lemma_split_shorter(s);
    }
    match t {
        Tree::Leaf(_) => match tl {
            Some(_) => IoResultPure::Error(ErrorCode::fs_node_path_blocked),
            None => IoResultPure::Error(ErrorCode::fs_node_exists),
        },
        Tree::Branch(m) => match tl {
            Some(rest) => if tree_map_contents(m).contains_key(h) {
                insert_result(tree_map_contents(m)[h], rest)
            } else {
                IoResultPure::Success(())
            },
            None => if tree_map_contents(m).contains_key(h) {
                IoResultPure::Error(ErrorCode::fs_node_exists)
            } else {
                IoResultPure::Success(())
            },
        },
    }
}

/// `t` is a chain of branches, one child each, along `s` to a leaf `id`.
pub open spec fn is_chain(t: Tree, s: Seq<char>, id: NodeId) -> bool
    decreases s.len(),
{
    let (h, tl) = split_left(s);
    proof {
        lemma_split_shorter(s);
    }
    match t {
        Tree::Leaf(_) => false,
        Tree::Branch(m) => {
            &&& tree_map_contents(m).dom() == set![h]
            &&& match tl {
                None => tree_map_contents(m)[h] == Tree::Leaf(id),
                Some(rest) => is_chain(tree_map_contents(m)[h], rest, id),
            }
        },
    }
}

/// `t2` is `t` with `id` inserted at `s`, which succeeded: along the path
/// the branches are the same but for the child on the path; where the
/// path leaves the tree, a chain to the new leaf; its last component names
/// the new leaf.
pub open spec fn inserted(t: Tree, t2: Tree, s: Seq<char>, id: NodeId) -> bool
    decreases s.len(),
{
    let (h, tl) = split_left(s);
    proof {
        lemma_split_shorter(s);
    }
    match (t, t2) {
        (Tree::Branch(m), Tree::Branch(m2)) => {
            let c = tree_map_contents(m);
            let c2 = tree_map_contents(m2);
            &&& c2.dom() == c.dom().insert(h)
            &&& forall|k: Seq<char>| #[trigger] c.contains_key(k) && k != h ==> c2[k] == c[k]
            &&& match tl {
                None => c2[h] == Tree::Leaf(id),
                Some(rest) => if c.contains_key(h) {
                    inserted(c[h], c2[h], rest, id)
                } else {
                    is_chain(c2[h], rest, id)
                },
            }
        },
        _ => false,
    }
}

/// The empty branch.
pub fn new_branch() -> (r: Tree)
    ensures
        r matches Tree::Branch(m) && tree_map_contents(m) == no_children(),
{
    Tree::Branch(tree_map_new())
}

/// Splits a relative path at its first slash.
pub fn split_path(s: &str) -> (r: (String, Option<String>))
    ensures
        r.0@ == split_left(s@).0,
        match split_left(s@).1 {
            Some(t) => r.1 is Some && r.1->0@ == t,
            None => r.1 is None,
        },
{
    let n = s.unicode_len();
    let i = find_slash_from(s, 0);
    proof {
        lemma_slash_from_bounds(s@, 0);
    }
    if i < n {
        let head = String::from_str(s.substring_char(0, i));
        let tail = String::from_str(s.substring_char(i + 1, n));
        proof {
            assert(s@.subrange(i + 1, n as int) =~= s@.skip(i + 1));
            assert(s@.subrange(0, i as int) =~= s@.take(i as int));
        }
        (head, Some(tail))
    } else {
        (String::from_str(s), None)
    }
}

impl Tree {
    /// Finds prefix path in tree, returns NodeId and the rest of the path.
    pub fn resolve(&self, path: Option<&str>) -> (r: Option<(NodeId, Option<String>)>)
        ensures
            match tree_resolve(*self, match path { Some(p) => Some(p@), None => None }) {
                Some((id, rest)) => r matches Some((rid, rrest)) && rid == id && match rest {
                    Some(t) => rrest matches Some(x) && x@ == t,
                    None => rrest is None,
                },
                None => r is None,
            },
        decreases path_measure(match path { Some(p) => Some(p@), None => None }),
    {
        match self {
            Tree::Leaf(node_id) => Some((*node_id, match path {
                Some(p) => Some(String::from_str(p)),
                None => None,
            })),
            Tree::Branch(children) => match path {
                None => None,
                Some(p) => {
                    let (head, tail) = split_path(p);
                    proof {
                        lemma_split_shorter(p@);
                    }
                    match tree_map_get(children, head.as_str()) {
                        Some(subtree) => match &tail {
                            Some(t) => subtree.resolve(Some(t.as_str())),
                            None => subtree.resolve(None),
                        },
                        None => None,
                    }
                },
            },
        }
    }

    /// Inserts a value to the given path. Return error if node already exists.
    pub fn insert(&mut self, path: &str, node_id: NodeId) -> (r: IoResultPure<()>)
        ensures
            r == insert_result(*old(self), path@),
            r is Success ==> inserted(*old(self), *final(self), path@, node_id),
            !(r is Success) ==> *final(self) == *old(self),
    {
        let res = self.check_insert(path);
        if res.is_success() {
            self.insert_checked(path, node_id);
        }
        res
    }

    /// What inserting at `path` answers, without inserting.
    fn check_insert(&self, path: &str) -> (r: IoResultPure<()>)
        ensures
            r == insert_result(*self, path@),
        decreases path@.len(),
    {
        let (head, tail) = split_path(path);
        proof {
            lemma_split_shorter(path@);
        }
        match self {
            Tree::Leaf(_) => match tail {
                Some(_) => IoResultPure::Error(ErrorCode::fs_node_path_blocked),
                None => IoResultPure::Error(ErrorCode::fs_node_exists),
            },
            Tree::Branch(children) => match tail {
                Some(t) => match tree_map_get(children, head.as_str()) {
                    Some(child) => child.check_insert(t.as_str()),
                    None => IoResultPure::Success(()),
                },
                None => match tree_map_get(children, head.as_str()) {
                    Some(_) => IoResultPure::Error(ErrorCode::fs_node_exists),
                    None => IoResultPure::Success(()),
                },
            },
        }
    }

    /// Inserts where the insertion succeeds.
    fn insert_checked(&mut self, path: &str, node_id: NodeId)
        requires
            insert_result(*old(self), path@) is Success,
        ensures
            inserted(*old(self), *final(self), path@, node_id),
        decreases path@.len(),
    {
        let (head, tail) = split_path(path);
        proof {
            lemma_split_shorter(path@);
        }
        match self {
            Tree::Leaf(_) => {},
            Tree::Branch(children) => {
                let ghost c = tree_map_contents(*children);
                match tail {
                    Some(t) => match tree_map_remove(children, head.as_str()) {
                        Some(child) => {
                            let mut child = child;
                            child.insert_checked(t.as_str(), node_id);
                            tree_map_insert(children, head, child);
                            proof {
                                assert(tree_map_contents(*children).dom() =~= c.dom().insert(split_left(path@).0));
                            }
                        },
                        None => {
                            let mut subtree = new_branch();
                            subtree.insert_fresh(t.as_str(), node_id);
                            tree_map_insert(children, head, subtree);
                            proof {
                                assert(tree_map_contents(*children).dom() =~= c.dom().insert(split_left(path@).0));
                            }
                        },
                    },
                    None => {
                        tree_map_insert(children, head, Tree::Leaf(node_id));
                        proof {
                            assert(tree_map_contents(*children).dom() =~= c.dom().insert(split_left(path@).0));
                        }
                    },
                }
            },
        }
    }

    /// Builds the chain to `node_id` along `path` in an empty branch.
    fn insert_fresh(&mut self, path: &str, node_id: NodeId)
        requires
            *old(self) matches Tree::Branch(m) && tree_map_contents(m) == no_children(),
        ensures
            is_chain(*final(self), path@, node_id),
        decreases path@.len(),
    {
        let (head, tail) = split_path(path);
        proof {
            lemma_split_shorter(path@);
        }
        match self {
            Tree::Leaf(_) => {},
            Tree::Branch(children) => match tail {
                Some(t) => {
                    let mut subtree = new_branch();
                    subtree.insert_fresh(t.as_str(), node_id);
                    tree_map_insert(children, head, subtree);
                    proof {
                        assert(tree_map_contents(*children).dom() =~= set![split_left(path@).0]);
                    }
                },
                None => {
                    tree_map_insert(children, head, Tree::Leaf(node_id));
                    proof {
                        assert(tree_map_contents(*children).dom() =~= set![split_left(path@).0]);
                    }
                },
            },
        }
    }
}

} // verus!
