//! Element trees: paths into a tree, the two search orders the state store
//! uses, and in-place edits at a path.
use vstd::prelude::*;

use crate::model::{empty_node_v, lemma_children_view, nodes_view, NodeV};
use crate::protocol::{ElementId, ElementNode};
use crate::text::{str_equal, string_equal};

verus! {

/// A path as a sequence of child positions.
pub open spec fn path_view(p: Seq<usize>) -> Seq<int> {
    p.map_values(|x: usize| x as int)
}

/// An optional path as a sequence of child positions.
pub open spec fn opt_path_view(p: Option<Vec<usize>>) -> Option<Seq<int>> {
    match p {
        Some(v) => Some(path_view(v@)),
        None => None,
    }
}

/// The subtree reached by following `p`.
pub open spec fn node_at(n: NodeV, p: Seq<int>) -> NodeV
    decreases p.len(),
{
    if p.len() == 0 {
        n
    } else {
        node_at(n.children[p[0]], p.drop_first())
    }
}

/// Every step of `p` names an existing child.
pub open spec fn valid_path(n: NodeV, p: Seq<int>) -> bool
    decreases p.len(),
{
    p.len() == 0 || (0 <= p[0] < n.children.len() && valid_path(n.children[p[0]], p.drop_first()))
}

/// The tree with the subtree at `p` replaced by `m`.
pub open spec fn set_at(n: NodeV, p: Seq<int>, m: NodeV) -> NodeV
    decreases p.len(),
{
    if p.len() == 0 {
        m
    } else {
        NodeV { children: n.children.update(p[0], set_at(n.children[p[0]], p.drop_first(), m)), ..n }
    }
}

/// The tree with the subtree at the non-empty path `p` removed.
pub open spec fn remove_at(n: NodeV, p: Seq<int>) -> NodeV
    decreases p.len(),
{
    if p.len() <= 1 {
        NodeV { children: n.children.remove(p[0]), ..n }
    } else {
        NodeV { children: n.children.update(p[0], remove_at(n.children[p[0]], p.drop_first())), ..n }
    }
}

/// Path of the first node with id `id` in pre-order (the node itself, then
/// each child's subtree in turn).
pub open spec fn pre_path(n: NodeV, id: Seq<char>) -> Option<Seq<int>>
    decreases n, 2int, 0int,
{
    if n.element_id == id {
        Some(Seq::empty())
    } else {
        pre_path_from(n, 0, id)
    }
}

/// Pre-order search through the children from position `i` on.
pub open spec fn pre_path_from(n: NodeV, i: int, id: Seq<char>) -> Option<Seq<int>>
    decreases n, 1int, n.children.len() - i,
{
    if i < 0 || i >= n.children.len() {
        None
    } else {
        match pre_path(n.children[i], id) {
            Some(q) => Some(seq![i] + q),
            None => pre_path_from(n, i + 1, id),
        }
    }
}

/// Position of the first node with id `id` among `cs`, from `i` on.
pub open spec fn first_index(cs: Seq<NodeV>, id: Seq<char>, i: int) -> Option<int>
    decreases cs.len() - i,
{
    if i < 0 || i >= cs.len() {
        None
    } else if cs[i].element_id == id {
        Some(i)
    } else {
        first_index(cs, id, i + 1)
    }
}

/// Path below `n` (never the empty path) of the node with id `id`, searched
/// level first: the direct children first, then each child's descendants in turn.
pub open spec fn level_path(n: NodeV, id: Seq<char>) -> Option<Seq<int>>
    decreases n, 2int, 0int,
{
    match first_index(n.children, id, 0) {
        Some(k) => Some(seq![k]),
        None => level_path_from(n, 0, id),
    }
}

/// Level-first search through the descendants of the children from `i` on.
pub open spec fn level_path_from(n: NodeV, i: int, id: Seq<char>) -> Option<Seq<int>>
    decreases n, 1int, n.children.len() - i,
{
    if i < 0 || i >= n.children.len() {
        None
    } else {
        match level_path(n.children[i], id) {
            Some(q) => Some(seq![i] + q),
            None => level_path_from(n, i + 1, id),
        }
    }
}

/// The subtree with every parent link set from its actual parent, the root's to `parent`.
pub open spec fn reparent(n: NodeV, parent: Option<Seq<char>>) -> NodeV
    decreases n,
{
    NodeV {
        parent_id: parent,
        children: Seq::new(
            n.children.len(),
            |i: int|
                if 0 <= i < n.children.len() {
                    reparent(n.children[i], Some(n.element_id))
                } else {
                    empty_node_v()
                },
        ),
        ..n
    }
}

/// The subtree with no node focused.
pub open spec fn clear_focus(n: NodeV) -> NodeV
    decreases n,
{
    NodeV {
        states: crate::protocol::ElementStates { focused: false, ..n.states },
        children: Seq::new(
            n.children.len(),
            |i: int|
                if 0 <= i < n.children.len() {
                    clear_focus(n.children[i])
                } else {
                    empty_node_v()
                },
        ),
        ..n
    }
}

/// A found path is valid and leads to a node with the searched id.
pub proof fn lemma_pre_path_valid(n: NodeV, id: Seq<char>)
    ensures
        pre_path(n, id) matches Some(p) ==> valid_path(n, p) && node_at(n, p).element_id == id,
    decreases n, 2int, 0int,
{
    if n.element_id != id {
        lemma_pre_path_from_valid(n, 0, id);
    }
}

/// A path found among the children from `i` on is valid.
pub proof fn lemma_pre_path_from_valid(n: NodeV, i: int, id: Seq<char>)
    ensures
        pre_path_from(n, i, id) matches Some(p) ==> valid_path(n, p) && node_at(n, p).element_id == id,
    decreases n, 1int, n.children.len() - i,
{
    if 0 <= i < n.children.len() {
        lemma_pre_path_valid(n.children[i], id);
        lemma_pre_path_from_valid(n, i + 1, id);
        if let Some(q) = pre_path(n.children[i], id) {
            let p = seq![i] + q;
            assert(p.drop_first() =~= q);
            assert(p[0] == i);
            assert(pre_path_from(n, i, id) == Some(p));
            assert(valid_path(n, p));
            assert(node_at(n, p) == node_at(n.children[i], q));
        }
    }
}

/// A level-first path is valid, non-empty, and leads to a node with the id.
pub proof fn lemma_level_path_valid(n: NodeV, id: Seq<char>)
    ensures
        level_path(n, id) matches Some(p) ==> p.len() >= 1 && valid_path(n, p) && node_at(n, p).element_id == id,
    decreases n, 2int, 0int,
{
    lemma_first_index(n.children, id, 0);
    lemma_level_path_from_valid(n, 0, id);
    if first_index(n.children, id, 0) is Some {
        let k = first_index(n.children, id, 0)->0;
        let p = seq![k];
        assert(p.drop_first() =~= Seq::<int>::empty());
        assert(p[0] == k);
        assert(valid_path(n.children[k], p.drop_first()));
        assert(valid_path(n, p));
        assert(node_at(n, p) == node_at(n.children[k], p.drop_first()));
        assert(node_at(n.children[k], p.drop_first()) == n.children[k]);
        assert(level_path(n, id) == Some(p));
    }
}

/// A level-first path found from child `i` on is valid and non-empty.
pub proof fn lemma_level_path_from_valid(n: NodeV, i: int, id: Seq<char>)
    ensures
        level_path_from(n, i, id) matches Some(p) ==> p.len() >= 1 && valid_path(n, p) && node_at(n, p).element_id == id,
    decreases n, 1int, n.children.len() - i,
{
    if 0 <= i < n.children.len() {
        lemma_level_path_valid(n.children[i], id);
        lemma_level_path_from_valid(n, i + 1, id);
        if let Some(q) = level_path(n.children[i], id) {
            let p = seq![i] + q;
            assert(p.drop_first() =~= q);
            assert(p[0] == i);
            assert(level_path_from(n, i, id) == Some(p));
            assert(valid_path(n, p));
            assert(node_at(n, p) == node_at(n.children[i], q));
        }
    }
}

/// `first_index` finds a position holding the id.
pub proof fn lemma_first_index(cs: Seq<NodeV>, id: Seq<char>, i: int)
    requires
        0 <= i,
    ensures
        first_index(cs, id, i) matches Some(k) ==> i <= k < cs.len() && cs[k].element_id == id,
        first_index(cs, id, i) is None ==> forall|j: int| i <= j < cs.len() ==> #[trigger] cs[j].element_id != id,
    decreases cs.len() - i,
{
    if 0 <= i < cs.len() && cs[i].element_id != id {
        lemma_first_index(cs, id, i + 1);
    }
}

/// The view of a node rebuilt with new children.
pub proof fn lemma_view_with_children(a: ElementNode, b: ElementNode)
    requires
        a.element_id == b.element_id,
        a.parent_id == b.parent_id,
        a.backend == b.backend,
        a.control_type == b.control_type,
        a.class_name == b.class_name,
        a.name == b.name,
        a.automation_id == b.automation_id,
        a.native_window_handle == b.native_window_handle,
        a.bounds == b.bounds,
        a.locator == b.locator,
        a.properties == b.properties,
        a.states == b.states,
        a.confidence_bits == b.confidence_bits,
    ensures
        b@ == (NodeV { children: nodes_view(b.children@), ..a@ }),
{
    lemma_children_view(b);
    assert(b@ =~= (NodeV { children: nodes_view(b.children@), ..a@ }));
}

/// Path (pre-order) of the first node with id `id`.
pub fn find_pre_path(n: &ElementNode, id: &str) -> (r: Option<Vec<usize>>)
    ensures
        opt_path_view(r) == pre_path(n@, id@),
    decreases n,
{
    if str_equal(n.element_id.as_str(), id) {
        let r: Vec<usize> = Vec::new();
        assert(path_view(r@) =~= Seq::<int>::empty());
        return Some(r);
    }
    proof {
        lemma_children_view(*n);
    }
    let mut i: usize = 0;
    while i < n.children.len()
        invariant
            i <= n.children@.len(),
            n@.children == nodes_view(n.children@),
            n@.element_id != id@,
            pre_path(n@, id@) == pre_path_from(n@, i as int, id@),
        decreases n.children@.len() - i,
    {
        match find_pre_path(&n.children[i], id) {
            Some(mut p) => {
                let ghost q = path_view(p@);
                p.insert(0, i);
                assert(path_view(p@) =~= seq![i as int] + q);
                return Some(p);
            },
            None => {},
        }
        i = i + 1;
    }
    None
}

/// Position of the first child of `n` with id `id`.
pub fn find_child_index(n: &ElementNode, id: &str) -> (r: Option<usize>)
    ensures
        match r {
            Some(k) => first_index(n@.children, id@, 0) == Some(k as int),
            None => first_index(n@.children, id@, 0) is None,
        },
{
    proof {
        lemma_children_view(*n);
    }
    let mut i: usize = 0;
    while i < n.children.len()
        invariant
            i <= n.children@.len(),
            n@.children == nodes_view(n.children@),
            first_index(n@.children, id@, 0) == first_index(n@.children, id@, i as int),
        decreases n.children@.len() - i,
    {
        if str_equal(n.children[i].element_id.as_str(), id) {
            return Some(i);
        }
        i = i + 1;
    }
    None
}

/// Path (level first) of the node with id `id` below `n`.
pub fn find_level_path(n: &ElementNode, id: &str) -> (r: Option<Vec<usize>>)
    ensures
        opt_path_view(r) == level_path(n@, id@),
    decreases n,
{
    if let Some(k) = find_child_index(n, id) {
        let mut r: Vec<usize> = Vec::new();
        r.push(k);
        assert(path_view(r@) =~= seq![k as int]);
        return Some(r);
    }
    proof {
        lemma_children_view(*n);
    }
    let mut i: usize = 0;
    while i < n.children.len()
        invariant
            i <= n.children@.len(),
            n@.children == nodes_view(n.children@),
            first_index(n@.children, id@, 0) is None,
            level_path(n@, id@) == level_path_from(n@, i as int, id@),
        decreases n.children@.len() - i,
    {
        match find_level_path(&n.children[i], id) {
            Some(mut p) => {
                let ghost q = path_view(p@);
                p.insert(0, i);
                assert(path_view(p@) =~= seq![i as int] + q);
                return Some(p);
            },
            None => {},
        }
        i = i + 1;
    }
    None
}

/// Replaces the subtree at `p[depth..]` with `m`, returning the old subtree.
pub fn swap_at(n: &mut ElementNode, p: &Vec<usize>, depth: usize, m: ElementNode) -> (r: ElementNode)
    requires
        depth <= p@.len(),
        valid_path(old(n)@, path_view(p@).skip(depth as int)),
    ensures
        final(n)@ == set_at(old(n)@, path_view(p@).skip(depth as int), m@),
        r@ == node_at(old(n)@, path_view(p@).skip(depth as int)),
    decreases p@.len() - depth,
{
    let ghost pv = path_view(p@).skip(depth as int);
    if depth == p.len() {
        let mut m = m;
        std::mem::swap(n, &mut m);
        return m;
    }
    proof {
        lemma_children_view(*n);
        assert(pv.drop_first() =~= path_view(p@).skip(depth + 1));
    }
    let i = p[depth];
    let ghost before = *n;
    let mut child = n.children.remove(i);
    let r = swap_at(&mut child, p, depth + 1, m);
    n.children.insert(i, child);
    proof {
        assert(n.children@ =~= before.children@.update(i as int, child));
        lemma_view_with_children(before, *n);
        assert(nodes_view(n.children@) =~= before@.children.update(i as int, child@));
    }
    r
}

/// Removes the subtree at the non-empty path `p[depth..]`, returning it.
pub fn take_at(n: &mut ElementNode, p: &Vec<usize>, depth: usize) -> (r: ElementNode)
    requires
        depth < p@.len(),
        valid_path(old(n)@, path_view(p@).skip(depth as int)),
    ensures
        final(n)@ == remove_at(old(n)@, path_view(p@).skip(depth as int)),
        r@ == node_at(old(n)@, path_view(p@).skip(depth as int)),
    decreases p@.len() - depth,
{
    let ghost pv = path_view(p@).skip(depth as int);
    proof {
        lemma_children_view(*n);
        assert(pv.drop_first() =~= path_view(p@).skip(depth + 1));
    }
    let i = p[depth];
    let ghost before = *n;
    if depth == p.len() - 1 {
        let r = n.children.remove(i);
        proof {
            lemma_view_with_children(before, *n);
            assert(nodes_view(n.children@) =~= before@.children.remove(i as int));
            assert(pv.drop_first().len() == 0);
            assert(node_at(before@.children[i as int], pv.drop_first()) == before@.children[i as int]);
        }
        return r;
    }
    let mut child = n.children.remove(i);
    let r = take_at(&mut child, p, depth + 1);
    n.children.insert(i, child);
    proof {
        assert(n.children@ =~= before.children@.update(i as int, child));
        lemma_view_with_children(before, *n);
        assert(nodes_view(n.children@) =~= before@.children.update(i as int, child@));
    }
    r
}

/// Sets every parent link in the subtree, the root's to `parent`.
pub fn reparent_subtree(n: &mut ElementNode, parent: Option<&ElementId>)
    ensures
        final(n)@ == reparent(old(n)@, match parent {
            Some(p) => Some(p@),
            None => None,
        }),
    decreases *old(n),
{
    let ghost before = *n;
    n.parent_id = match parent {
        Some(p) => Some(ElementId(p.0.clone())),
        None => None,
    };
    let own_id = ElementId(n.element_id.0.clone());
    let ghost mid = *n;
    proof {
        lemma_children_view(before);
    }
    let mut i: usize = 0;
    while i < n.children.len()
        invariant
            i <= n.children@.len(),
            n.children@.len() == before.children@.len(),
            before == *old(n),
            own_id@ == before.element_id@,
            n.element_id == before.element_id,
            n.parent_id == mid.parent_id,
            n.backend == before.backend,
            n.control_type == before.control_type,
            n.class_name == before.class_name,
            n.name == before.name,
            n.automation_id == before.automation_id,
            n.native_window_handle == before.native_window_handle,
            n.bounds == before.bounds,
            n.locator == before.locator,
            n.properties == before.properties,
            n.states == before.states,
            n.confidence_bits == before.confidence_bits,
            forall|j: int| 0 <= j < i ==> #[trigger] n.children@[j]@ == reparent(before.children@[j]@, Some(before.element_id@)),
            forall|j: int| i <= j < n.children@.len() ==> #[trigger] n.children@[j] == before.children@[j],
        decreases n.children@.len() - i,
    {
        let mut child = n.children.remove(i);
        proof {
            assert(child == before.children@[i as int]);
            assert(decreases_to!(before => before.children));
            assert(decreases_to!(before.children => before.children@));
            assert(decreases_to!(before.children@ => before.children@[i as int]));
        }
        reparent_subtree(&mut child, Some(&own_id));
        n.children.insert(i, child);
        i = i + 1;
    }
    proof {
        lemma_view_with_children(mid, *n);
        let want = reparent(before@, match parent {
            Some(p) => Some(p@),
            None => None,
        });
        assert(nodes_view(n.children@) =~= want.children);
        assert(n@ =~= want);
    }
}

/// Clears the focused flag everywhere in the subtree.
pub fn clear_subtree_focus(n: &mut ElementNode)
    ensures
        final(n)@ == clear_focus(old(n)@),
    decreases *old(n),
{
    let ghost before = *n;
    n.states.focused = false;
    let ghost mid = *n;
    proof {
        lemma_children_view(before);
    }
    let mut i: usize = 0;
    while i < n.children.len()
        invariant
            i <= n.children@.len(),
            n.children@.len() == before.children@.len(),
            before == *old(n),
            n.element_id == before.element_id,
            n.parent_id == before.parent_id,
            n.backend == before.backend,
            n.control_type == before.control_type,
            n.class_name == before.class_name,
            n.name == before.name,
            n.automation_id == before.automation_id,
            n.native_window_handle == before.native_window_handle,
            n.bounds == before.bounds,
            n.locator == before.locator,
            n.properties == before.properties,
            n.states == mid.states,
            n.confidence_bits == before.confidence_bits,
            forall|j: int| 0 <= j < i ==> #[trigger] n.children@[j]@ == clear_focus(before.children@[j]@),
            forall|j: int| i <= j < n.children@.len() ==> #[trigger] n.children@[j] == before.children@[j],
        decreases n.children@.len() - i,
    {
        let mut child = n.children.remove(i);
        proof {
            assert(child == before.children@[i as int]);
            assert(decreases_to!(before => before.children));
            assert(decreases_to!(before.children => before.children@));
            assert(decreases_to!(before.children@ => before.children@[i as int]));
        }
        clear_subtree_focus(&mut child);
        n.children.insert(i, child);
        i = i + 1;
    }
    proof {
        lemma_view_with_children(mid, *n);
        let want = clear_focus(before@);
        assert(nodes_view(n.children@) =~= want.children);
        assert(n@ =~= want);
    }
}

/// Setting a subtree at a valid path keeps the path valid and leads to the new subtree.
pub proof fn lemma_set_at_valid(n: NodeV, p: Seq<int>, m: NodeV)
    requires
        valid_path(n, p),
    ensures
        valid_path(set_at(n, p, m), p),
        node_at(set_at(n, p, m), p) == m,
    decreases p.len(),
{
    if p.len() > 0 {
        lemma_set_at_valid(n.children[p[0]], p.drop_first(), m);
    }
}

/// Setting twice at the same valid path keeps the second subtree.
pub proof fn lemma_set_at_twice(n: NodeV, p: Seq<int>, a: NodeV, b: NodeV)
    requires
        valid_path(n, p),
    ensures
        set_at(set_at(n, p, a), p, b) == set_at(n, p, b),
    decreases p.len(),
{
    if p.len() > 0 {
        lemma_set_at_twice(n.children[p[0]], p.drop_first(), a, b);
        let x = set_at(set_at(n, p, a), p, b);
        let y = set_at(n, p, b);
        assert(x.children =~= y.children);
        assert(x =~= y);
    }
}

/// Setting a node to the subtree already there changes nothing.
pub proof fn lemma_set_at_same(n: NodeV, p: Seq<int>)
    requires
        valid_path(n, p),
    ensures
        set_at(n, p, node_at(n, p)) == n,
    decreases p.len(),
{
    if p.len() > 0 {
        lemma_set_at_same(n.children[p[0]], p.drop_first());
        let x = set_at(n, p, node_at(n, p));
        assert(x.children =~= n.children);
        assert(x =~= n);
    }
}

/// A valid path's prefix is valid and reaches the parent of its end.
pub proof fn lemma_path_prefix(n: NodeV, p: Seq<int>)
    requires
        valid_path(n, p),
        p.len() >= 1,
    ensures
        valid_path(n, p.drop_last()),
        0 <= p.last() < node_at(n, p.drop_last()).children.len(),
        node_at(n, p) == node_at(n, p.drop_last()).children[p.last()],
    decreases p.len(),
{
    if p.len() > 1 {
        let c = n.children[p[0]];
        lemma_path_prefix(c, p.drop_first());
        assert(p.drop_first().drop_last() =~= p.drop_last().drop_first());
        assert(p.drop_last()[0] == p[0]);
        assert(node_at(n, p.drop_last()) == node_at(c, p.drop_last().drop_first()));
        assert(node_at(n, p) == node_at(c, p.drop_first()));
        assert(p.drop_first().last() == p.last());
    } else {
        assert(p.drop_last() =~= Seq::<int>::empty());
        assert(p.drop_first() =~= Seq::<int>::empty());
        assert(node_at(n, p) == node_at(n.children[p[0]], p.drop_first()));
        assert(node_at(n.children[p[0]], p.drop_first()) == n.children[p[0]]);
    }
}

/// The subtree at `p[depth..]`.
pub fn subtree_at<'a>(n: &'a ElementNode, p: &Vec<usize>, depth: usize) -> (r: &'a ElementNode)
    requires
        depth <= p@.len(),
        valid_path(n@, path_view(p@).skip(depth as int)),
    ensures
        r@ == node_at(n@, path_view(p@).skip(depth as int)),
    decreases p@.len() - depth,
{
    if depth == p.len() {
        return n;
    }
    proof {
        lemma_children_view(*n);
        assert(path_view(p@).skip(depth as int).drop_first() =~= path_view(p@).skip(depth + 1));
    }
    subtree_at(&n.children[p[depth]], p, depth + 1)
}

/// A node with empty text fields and no children, used to hold a place briefly.
pub(crate) fn placeholder_node() -> (r: ElementNode)
    ensures
        r.children@.len() == 0,
        r.element_id@.len() == 0,
{
    ElementNode {
        element_id: ElementId(String::new()),
        parent_id: None,
        backend: crate::protocol::BackendKind::Uia,
        control_type: String::new(),
        class_name: None,
        name: None,
        automation_id: None,
        native_window_handle: None,
        bounds: crate::protocol::Rect { left: 0, top: 0, width: 0, height: 0 },
        locator: crate::protocol::Locator { window_fingerprint: String::new(), path: Vec::new() },
        properties: Vec::new(),
        states: crate::protocol::ElementStates {
            enabled: false,
            visible: false,
            focused: false,
            selected: false,
            expanded: false,
            toggled: false,
        },
        children: Vec::new(),
        confidence_bits: 0,
    }
}

/// Whether two element ids have the same characters.
pub fn same_element_id(a: &ElementId, b: &ElementId) -> (r: bool)
    ensures
        r == (a@ == b@),
{
    string_equal(&a.0, &b.0)
}

} // verus!
