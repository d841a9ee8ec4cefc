//! Deciding before diffing which parts of a view changed: a tree of flags shaped
//! like the view, and the paths of the flagged nodes.
use vstd::prelude::*;
use crate::tree_path::TreePath;

verus! {

/// A flag of whether a node of the view has to be diffed, with the flags of its
/// children.
pub struct PreDiff {
    /// whether the node has to be diffed
    pub value: bool,
    /// the flags of the children of the node
    pub children: Vec<PreDiff>,
}

/// The model of a [`PreDiff`].
pub struct PreDiffV {
    pub value: bool,
    pub children: Seq<PreDiffV>,
}

/// The model of a flag tree.
pub open spec fn prediff_view(p: &PreDiff) -> PreDiffV
    decreases p,
{
    PreDiffV { value: p.value, children: prediffs_view(p.children@) }
}

/// The models of a sequence of flag trees.
pub open spec fn prediffs_view(s: Seq<PreDiff>) -> Seq<PreDiffV>
    decreases s,
{
    Seq::new(
        s.len(),
        |i: int|
            if 0 <= i < s.len() {
                prediff_view(&s[i])
            } else {
                PreDiffV { value: false, children: Seq::empty() }
            },
    )
}

/// Indexing the models of flag trees gives the model of the tree there.
pub proof fn lemma_prediffs_view(s: Seq<PreDiff>)
    ensures
        prediffs_view(s).len() == s.len(),
        forall|k: int| 0 <= k < s.len() ==> #[trigger] prediffs_view(s)[k] == prediff_view(&s[k]),
{
}

impl View for PreDiff {
    type V = PreDiffV;

    open spec fn view(&self) -> PreDiffV {
        prediff_view(self)
    }
}

/// Sequences of paths, one after the other.
pub open spec fn flatten_paths(parts: Seq<Seq<Seq<usize>>>) -> Seq<Seq<usize>>
    decreases parts.len(),
{
    if parts.len() == 0 {
        Seq::empty()
    } else {
        flatten_paths(parts.drop_last()) + parts.last()
    }
}

/// The paths of the flagged nodes of a tree whose root is at `current`, in depth
/// first order, a node before its children.
pub open spec fn flagged_paths(p: PreDiffV, current: Seq<usize>) -> Seq<Seq<usize>>
    decreases p, 0nat,
{
    (if p.value {
        seq![current]
    } else {
        Seq::empty()
    }) + flagged_paths_list(p.children, current)
}

/// The paths of the flagged nodes of the trees that are the children of the node at
/// `current`, the `i`th at `current` followed by `i`.
pub open spec fn flagged_paths_list(ps: Seq<PreDiffV>, current: Seq<usize>) -> Seq<Seq<usize>>
    decreases ps, 1nat,
{
    flatten_paths(child_paths(ps, current))
}

/// The paths of the flagged nodes of each of the trees that are the children of the
/// node at `current`.
pub open spec fn child_paths(ps: Seq<PreDiffV>, current: Seq<usize>) -> Seq<Seq<Seq<usize>>>
    decreases ps, 0nat,
{
    Seq::new(
        ps.len(),
        |i: int|
            if 0 <= i < ps.len() {
                flagged_paths(ps[i], current.push(i as usize))
            } else {
                Seq::empty()
            },
    )
}

/// The paths that [`PreDiff::traverse`] gives: those of the one tree at the root,
/// or those of several trees as children of the root.
pub open spec fn traverse_spec(evals: Seq<PreDiffV>) -> Seq<Seq<usize>> {
    if evals.len() == 1 {
        flagged_paths(evals[0], Seq::empty())
    } else {
        flagged_paths_list(evals, Seq::empty())
    }
}

/// The flag tree that `path` leads to from `p`, if there is one.
pub open spec fn find_prediff(p: PreDiffV, path: Seq<usize>) -> Option<PreDiffV>
    decreases path.len(),
{
    if path.len() == 0 {
        Some(p)
    } else if path[0] < p.children.len() {
        find_prediff(p.children[path[0] as int], path.drop_first())
    } else {
        None
    }
}

/// Whether `path` starts with `current` and leads, from `p` at `current`, to a
/// flagged node.
pub open spec fn leads_to_flagged(p: PreDiffV, current: Seq<usize>, path: Seq<usize>) -> bool {
    &&& current.len() <= path.len()
    &&& path.take(current.len() as int) == current
    &&& find_prediff(p, path.skip(current.len() as int)) matches Some(q) && q.value
}

/// The tree whose paths [`PreDiff::traverse`] follows: the one tree, or an
/// unflagged root holding several trees.
pub open spec fn traverse_root(evals: Seq<PreDiffV>) -> PreDiffV {
    if evals.len() == 1 {
        evals[0]
    } else {
        PreDiffV { value: false, children: evals }
    }
}

/// Whether every node of a flag tree has at most as many children as a `usize`
/// can count, as the trees of [`PreDiff`] do.
pub open spec fn prediff_fits(p: PreDiffV) -> bool
    decreases p,
{
    p.children.len() <= usize::MAX && forall|i: int|
        0 <= i < p.children.len() ==> prediff_fits(#[trigger] p.children[i])
}

/// What holds of every part holds of every path of their flattening.
proof fn lemma_flatten_forall(parts: Seq<Seq<Seq<usize>>>, pred: spec_fn(Seq<usize>) -> bool)
    requires
        forall|i: int, j: int| 0 <= i < parts.len() && 0 <= j < parts[i].len() ==> pred(#[trigger] parts[i][j]),
    ensures
        forall|k: int| 0 <= k < flatten_paths(parts).len() ==> pred(#[trigger] flatten_paths(parts)[k]),
    decreases parts.len(),
{
    if parts.len() > 0 {
        let d = parts.drop_last();
        assert forall|i: int, j: int| 0 <= i < d.len() && 0 <= j < d[i].len() implies pred(#[trigger] d[i][j]) by {
            assert(d[i] == parts[i]);
        }
        lemma_flatten_forall(d, pred);
        let f = flatten_paths(parts);
        assert forall|k: int| 0 <= k < f.len() implies pred(#[trigger] f[k]) by {
            let fd = flatten_paths(d);
            if k < fd.len() {
                assert(f[k] == fd[k]);
            } else {
                assert(f[k] == parts.last()[k - fd.len()]);
                assert(parts.last() == parts[parts.len() - 1]);
            }
        }
    }
}

/// Every path of the flagged nodes of `p` at `current` starts with `current` and
/// leads to a flagged node.
proof fn lemma_flagged_paths_lead(p: PreDiffV, current: Seq<usize>)
    requires
        prediff_fits(p),
    ensures
        forall|k: int|
            0 <= k < flagged_paths(p, current).len() ==> leads_to_flagged(
                p,
                current,
                #[trigger] flagged_paths(p, current)[k],
            ),
    decreases p,
{
    let head: Seq<Seq<usize>> = if p.value {
        seq![current]
    } else {
        Seq::empty()
    };
    let parts = child_paths(p.children, current);
    let pred = |path: Seq<usize>| leads_to_flagged(p, current, path);
    assert forall|i: int, j: int| 0 <= i < parts.len() && 0 <= j < parts[i].len() implies pred(
        #[trigger] parts[i][j],
    ) by {
        let c = p.children[i];
        let cur = current.push(i as usize);
        assert(prediff_fits(c));
        lemma_flagged_paths_lead(c, cur);
        assert(parts[i] == flagged_paths(c, cur));
        let path = parts[i][j];
        assert(leads_to_flagged(c, cur, path));
        assert(path.take(current.len() as int) =~= current) by {
            assert(path.take(cur.len() as int) == cur);
            assert forall|t: int| 0 <= t < current.len() implies path[t] == current[t] by {
                assert(path.take(cur.len() as int)[t] == cur[t]);
            }
        }
        let rest = path.skip(current.len() as int);
        assert(rest[0] == i as usize) by {
            assert(path.take(cur.len() as int)[current.len() as int] == cur[current.len() as int]);
        }
        assert(rest.drop_first() =~= path.skip(cur.len() as int));
        assert(find_prediff(p, rest) == find_prediff(c, rest.drop_first()));
    }
    lemma_flatten_forall(parts, pred);
    let all = flagged_paths(p, current);
    assert(all == head + flatten_paths(parts));
    assert forall|k: int| 0 <= k < all.len() implies leads_to_flagged(p, current, #[trigger] all[k]) by {
        if k < head.len() {
            assert(all[k] == current);
            assert(current.take(current.len() as int) =~= current);
            assert(current.skip(current.len() as int) =~= Seq::<usize>::empty());
        } else {
            assert(all[k] == flatten_paths(parts)[k - head.len()]);
            assert(pred(flatten_paths(parts)[k - head.len()]));
        }
    }
}

/// Every path that [`PreDiff::traverse`] gives leads to a flagged node of the tree
/// it follows.
pub proof fn lemma_traverse_law(evals: Seq<PreDiffV>)
    requires
        prediff_fits(traverse_root(evals)),
    ensures
        forall|k: int|
            0 <= k < traverse_spec(evals).len() ==> (find_prediff(
                traverse_root(evals),
                #[trigger] traverse_spec(evals)[k],
            ) matches Some(q) && q.value),
{
    let root = traverse_root(evals);
    lemma_flagged_paths_lead(root, Seq::empty());
    if evals.len() != 1 {
        assert(flagged_paths(root, Seq::empty()) =~= flagged_paths_list(evals, Seq::empty()));
    }
    assert forall|k: int| 0 <= k < traverse_spec(evals).len() implies (find_prediff(
        root,
        #[trigger] traverse_spec(evals)[k],
    ) matches Some(q) && q.value) by {
        let path = traverse_spec(evals)[k];
        assert(flagged_paths(root, Seq::empty())[k] == path);
        assert(path.skip(0) =~= path);
    }
}

/// A path in one of the parts is a path of their flattening.
proof fn lemma_flatten_contains(parts: Seq<Seq<Seq<usize>>>, i: int, j: int)
    requires
        0 <= i < parts.len(),
        0 <= j < parts[i].len(),
    ensures
        flatten_paths(parts).contains(parts[i][j]),
    decreases parts.len(),
{
    let d = parts.drop_last();
    let f = flatten_paths(parts);
    let fd = flatten_paths(d);
    assert(f == fd + parts.last());
    if i == parts.len() - 1 {
        assert(f[fd.len() + j] == parts.last()[j]);
    } else {
        assert(d[i] == parts[i]);
        lemma_flatten_contains(d, i, j);
        let k = choose|k: int| 0 <= k < fd.len() && fd[k] == parts[i][j];
        assert(f[k] == fd[k]);
    }
}

/// Every path from `current` that leads from `p` to a flagged node is among the
/// paths of the flagged nodes of `p` at `current`.
proof fn lemma_flagged_paths_complete(p: PreDiffV, current: Seq<usize>, rest: Seq<usize>)
    requires
        find_prediff(p, rest) matches Some(q) && q.value,
    ensures
        flagged_paths(p, current).contains(current + rest),
    decreases rest.len(),
{
    let head: Seq<Seq<usize>> = if p.value {
        seq![current]
    } else {
        Seq::empty()
    };
    let parts = child_paths(p.children, current);
    let all = flagged_paths(p, current);
    assert(all == head + flatten_paths(parts));
    if rest.len() == 0 {
        assert(current + rest =~= current);
        assert(all[0] == current);
    } else {
        let i = rest[0] as int;
        let c = p.children[i];
        let cur = current.push(rest[0]);
        lemma_flagged_paths_complete(c, cur, rest.drop_first());
        assert(cur + rest.drop_first() =~= current + rest);
        assert(parts[i] == flagged_paths(c, cur));
        let j = choose|j: int| 0 <= j < parts[i].len() && parts[i][j] == current + rest;
        lemma_flatten_contains(parts, i, j);
        let k = choose|k: int| 0 <= k < flatten_paths(parts).len() && flatten_paths(parts)[k] == current + rest;
        assert(all[head.len() + k] == flatten_paths(parts)[k]);
    }
}

/// Every path that leads to a flagged node of the tree that [`PreDiff::traverse`]
/// follows is among the paths it gives: with [`lemma_traverse_law`], the paths it
/// gives are exactly those of the flagged nodes.
pub proof fn lemma_traverse_complete(evals: Seq<PreDiffV>, path: Seq<usize>)
    requires
        find_prediff(traverse_root(evals), path) matches Some(q) && q.value,
    ensures
        traverse_spec(evals).contains(path),
{
    let root = traverse_root(evals);
    lemma_flagged_paths_complete(root, Seq::empty(), path);
    assert(Seq::<usize>::empty() + path =~= path);
    if evals.len() != 1 {
        assert(flagged_paths(root, Seq::empty()) =~= flagged_paths_list(evals, Seq::empty()));
    }
}

/// The models of a sequence of paths.
pub open spec fn paths_view(v: Seq<TreePath>) -> Seq<Seq<usize>> {
    v.map_values(|t: TreePath| t@)
}

impl PreDiff {
    /// A flag tree of `val` with the trees of `children`.
    pub fn new(val: bool, children: Vec<PreDiff>) -> (r: Self)
        ensures
            r@ == (PreDiffV { value: val, children: prediffs_view(children@) }),
    {
        PreDiff { value: val, children }
    }

    /// An unflagged tree without children.
    pub fn none() -> (r: Self)
        ensures
            r@ == (PreDiffV { value: false, children: Seq::empty() }),
    {
        let r = PreDiff { value: false, children: Vec::new() };
        assert(prediffs_view(r.children@) =~= Seq::<PreDiffV>::empty());
        r
    }

    /// The paths of the flagged nodes: of the one tree at the root, or of several
    /// trees as the children of the root.
    pub fn traverse(evals: &[PreDiff]) -> (r: Vec<TreePath>)
        ensures
            paths_view(r@) == traverse_spec(prediffs_view(evals@)),
    {
        let root = TreePath::root();
        proof {
            lemma_prediffs_view(evals@);
        }
        if evals.len() == 1 {
            evals[0].traverse_recursive(root)
        } else {
            Self::traverse_list(evals, root)
        }
    }

    fn traverse_list(evals: &[PreDiff], current: TreePath) -> (r: Vec<TreePath>)
        ensures
            paths_view(r@) == flagged_paths_list(prediffs_view(evals@), current@),
        decreases evals@,
    {
        let ghost ps = prediffs_view(evals@);
        let ghost parts = child_paths(ps, current@);
        proof {
            lemma_prediffs_view(evals@);
        }
        assert(flagged_paths_list(ps, current@) == flatten_paths(parts));
        let mut paths: Vec<TreePath> = Vec::new();
        let mut i: usize = 0;
        while i < evals.len()
            invariant
                i <= evals@.len(),
                ps == prediffs_view(evals@),
                ps.len() == evals@.len(),
                forall|k: int| 0 <= k < evals@.len() ==> #[trigger] ps[k] == prediff_view(&evals@[k]),
                parts == child_paths(ps, current@),
                paths_view(paths@) == flatten_paths(parts.take(i as int)),
            decreases evals@.len() - i,
        {
            let mut more_paths = evals[i].traverse_recursive(current.traverse(i));
            let ghost before = paths@;
            let ghost more = more_paths@;
            paths.append(&mut more_paths);
            proof {
                assert(paths_view(paths@) =~= paths_view(before) + paths_view(more));
                assert(parts.take(i + 1).drop_last() =~= parts.take(i as int));
                assert(parts.take(i + 1).last() == parts[i as int]);
            }
            i = i + 1;
        }
        assert(parts.take(evals@.len() as int) =~= parts);
        paths
    }

    fn traverse_recursive(&self, current: TreePath) -> (r: Vec<TreePath>)
        ensures
            paths_view(r@) == flagged_paths(self@, current@),
        decreases self,
    {
        let mut paths: Vec<TreePath> = Vec::new();
        if self.value {
            paths.push(TreePath { path: current.path.clone() });
        }
        let ghost first = paths@;
        assert(paths_view(first) =~= if self.value {
            seq![current@]
        } else {
            Seq::empty()
        });
        let mut more_paths = Self::traverse_list(self.children.as_slice(), current);
        let ghost more = more_paths@;
        paths.append(&mut more_paths);
        assert(paths_view(paths@) =~= paths_view(first) + paths_view(more));
        paths
    }
}

/// A flag tree of `val` with the trees of `children`.
pub fn diff_if(val: bool, children: Vec<PreDiff>) -> (r: PreDiff)
    ensures
        r@ == (PreDiffV { value: val, children: prediffs_view(children@) }),
{
    PreDiff::new(val, children)
}

} // verus!
