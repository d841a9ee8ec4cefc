//! Paths into the virtual dom tree: the index of the child taken at each level,
//! starting from the root.
use vstd::prelude::*;
use vstd::std_specs::convert::FromSpecImpl;
use crate::node::{Node, NodeV, lemma_nodes_view, nodes_view};

verus! {

/// The path from the root to a node: the index of the child taken at each level.
/// The empty path is the root itself.
///
/// In a depth first numbering the paths are:
/// `0 = []`, `1 = [0]`, `2 = [0,0]`, `3 = [0,1]`, `4 = [1]`, `5 = [1,0]`, ...
#[derive(Debug, Clone, PartialEq, PartialOrd, Eq, Ord)]
pub struct TreePath {
    /// the index of the child taken at each level of the tree
    pub path: Vec<usize>,
}

impl View for TreePath {
    type V = Seq<usize>;

    open spec fn view(&self) -> Seq<usize> {
        self.path@
    }
}

/// The children of a node: those of an element, none for the other nodes.
pub open spec fn children_of(n: NodeV) -> Seq<NodeV> {
    match n {
        NodeV::Element(e) => e.children,
        _ => Seq::empty(),
    }
}

/// The node that `path` leads to from `n`, if there is one.
pub open spec fn find_by_path(n: NodeV, path: Seq<usize>) -> Option<NodeV>
    decreases path.len(),
{
    if path.len() == 0 {
        Some(n)
    } else if path[0] < children_of(n).len() {
        find_by_path(children_of(n)[path[0] as int], path.drop_first())
    } else {
        None
    }
}

/// The child `idx` of the node that `path` leads to, if both exist.
pub open spec fn child_at(found: Option<NodeV>, idx: usize) -> Option<NodeV> {
    match found {
        Some(m) => if idx < children_of(m).len() {
            Some(children_of(m)[idx as int])
        } else {
            None
        },
        None => None,
    }
}

impl TreePath {
    /// A path of the child indexes `path`.
    pub fn new(path: Vec<usize>) -> (r: Self)
        ensures
            r@ == path@,
    {
        TreePath { path }
    }

    /// The path of the root node: no index at all.
    pub fn root() -> (r: Self)
        ensures
            r@ == Seq::<usize>::empty(),
    {
        TreePath { path: Vec::new() }
    }

    /// Adds the index of a child at the end.
    pub fn push(&mut self, node_idx: usize)
        ensures
            final(self)@ == old(self)@.push(node_idx),
    {
        self.path.push(node_idx)
    }

    /// The path to the child `node_idx` of the node this path leads to.
    pub fn traverse(&self, node_idx: usize) -> (r: Self)
        ensures
            r@ == self@.push(node_idx),
    {
        let mut new_path = TreePath { path: self.path.clone() };
        new_path.push(node_idx);
        new_path
    }

    /// The path to the parent: this path without its last index; the root path stays
    /// as it is.
    pub fn backtrack(&self) -> (r: Self)
        ensures
            r@ == if self@.len() == 0 {
                self@
            } else {
                self@.drop_last()
            },
    {
        let mut new_path = TreePath { path: self.path.clone() };
        let _ = new_path.path.pop();
        new_path
    }

    /// Removes and returns the first index of a path that is not empty.
    pub fn remove_first(&mut self) -> (r: usize)
        requires
            old(self)@.len() > 0,
        ensures
            r == old(self)@[0],
            final(self)@ == old(self)@.drop_first(),
    {
        self.path.remove(0)
    }

    /// Removes and returns the next index of a path that is not empty.
    pub fn pluck(&mut self) -> (r: usize)
        requires
            old(self)@.len() > 0,
        ensures
            r == old(self)@[0],
            final(self)@ == old(self)@.drop_first(),
    {
        self.remove_first()
    }

    /// Whether this is the root path, with no index left.
    pub fn is_empty(&self) -> (r: bool)
        ensures
            r == (self@.len() == 0),
    {
        self.path.len() == 0
    }

    /// The node that this path leads to from `node`, if there is one.
    pub fn find_node_by_path<'a, MSG>(&self, node: &'a Node<MSG>) -> (r: Option<&'a Node<MSG>>)
        ensures
            match find_by_path(node@, self@) {
                Some(n) => r matches Some(x) && x@ == n,
                None => r is None,
            },
    {
        let mut path = TreePath { path: self.path.clone() };
        traverse_node_by_path(node, &mut path)
    }
}

fn traverse_node_by_path<'a, MSG>(node: &'a Node<MSG>, path: &mut TreePath) -> (r: Option<
    &'a Node<MSG>,
>)
    ensures
        match find_by_path(node@, old(path)@) {
            Some(n) => r matches Some(x) && x@ == n,
            None => r is None,
        },
    decreases old(path)@.len(),
{
    if path.path.len() == 0 {
        Some(node)
    } else {
        let idx = path.path.remove(0);
        let children = node.children();
        proof {
            lemma_nodes_view(children@);
        }
        if idx < children.len() {
            traverse_node_by_path(&children[idx], path)
        } else {
            None
        }
    }
}

/// Following a path and then the child `idx` is following the path with `idx`
/// added at its end.
pub proof fn lemma_find_traverse(n: NodeV, path: Seq<usize>, idx: usize)
    ensures
        find_by_path(n, path.push(idx)) == child_at(find_by_path(n, path), idx),
    decreases path.len(),
{
    if path.len() > 0 {
        assert(path.push(idx).drop_first() =~= path.drop_first().push(idx));
        if path[0] < children_of(n).len() {
            lemma_find_traverse(children_of(n)[path[0] as int], path.drop_first(), idx);
        }
    } else {
        assert(path.push(idx).drop_first() =~= Seq::<usize>::empty());
        assert(path.push(idx)[0] == idx);
        if idx < children_of(n).len() {
            assert(find_by_path(children_of(n)[idx as int], Seq::empty()) == Some(
                children_of(n)[idx as int],
            ));
        }
    }
}

/// Backtracking from the path to a child gives back the path to its parent.
pub proof fn lemma_backtrack_traverse(path: Seq<usize>, idx: usize)
    ensures
        path.push(idx).len() > 0 && path.push(idx).drop_last() == path,
{
    assert(path.push(idx).drop_last() =~= path);
}

impl From<Vec<usize>> for TreePath {
    fn from(vec: Vec<usize>) -> (r: Self) {
        TreePath { path: vec }
    }
}

impl FromSpecImpl<Vec<usize>> for TreePath {
    open spec fn obeys_from_spec() -> bool {
        true
    }

    open spec fn from_spec(v: Vec<usize>) -> Self {
        TreePath { path: v }
    }
}

/// A path of the indexes of an array, in order.
impl<const N: usize> From<[usize; N]> for TreePath {
    fn from(array: [usize; N]) -> (r: Self)
        ensures
            r@ == array@,
    {
        let mut path: Vec<usize> = Vec::new();
        let mut i: usize = 0;
        while i < N
            invariant
                i <= N,
                array@.len() == N,
                path@ == array@.take(i as int),
            decreases N - i,
        {
            path.push(array[i]);
            assert(array@.take(i + 1) =~= array@.take(i as int).push(array@[i as int]));
            i = i + 1;
        }
        assert(array@.take(N as int) =~= array@);
        TreePath { path }
    }
}

impl<const N: usize> FromSpecImpl<[usize; N]> for TreePath {
    open spec fn obeys_from_spec() -> bool {
        false
    }

    open spec fn from_spec(v: [usize; N]) -> Self {
        TreePath { path: vstd::pervasive::arbitrary() }
    }
}

} // verus!
