//! Tree navigation: flattening the visible rows, resolving row indices to
//! structural paths, and path-addressed mutation.

use vstd::prelude::*;
use vstd::string::StringExecFns;

use crate::models::{
    tree_seq_view, AtlassianDomain, AtlassianDomainView, AtlassianProductView, NavigationContext,
    NavigationContextView, ProductType, ProjectView, TreeNode, TreeNodeType, TreeNodeTypeView,
    TreeNodeView,
};

verus! {

broadcast use vstd::std_specs::vec::group_vec_axioms;

/// One visible row: decorated text, recursion depth, selection flag.
pub type SpecRow = (Seq<char>, int, bool);

/// The views of the rows of a flattened vector, in order.
pub open spec fn rows_view(rows: Seq<(String, usize, bool)>) -> Seq<SpecRow> {
    rows.map_values(|r: (String, usize, bool)| (r.0@, r.1 as int, r.2))
}

/// Two spaces of indentation for every level of depth.
pub open spec fn spec_indent(depth: nat) -> Seq<char>
    decreases depth,
{
    if depth == 0 {
        Seq::empty()
    } else {
        spec_indent((depth - 1) as nat) + "  "@
    }
}

/// The icon a node is decorated with, by its payload.
pub open spec fn spec_icon(nt: TreeNodeTypeView) -> Seq<char> {
    match nt {
        TreeNodeTypeView::Domain(_) => "🌐"@,
        TreeNodeTypeView::Product(p) => if p.available {
            match p.product_type {
                ProductType::Confluence => "📊"@,
                ProductType::Jira => "📋"@,
                ProductType::Jsm => "🎫"@,
            }
        } else {
            "⭕"@
        },
        TreeNodeTypeView::Project(_) => "📁"@,
    }
}

/// The expansion marker: present only on nodes with children.
pub open spec fn spec_expand_marker(n: TreeNodeView) -> Seq<char> {
    if n.children.len() > 0 {
        if n.expanded {
            "▼ "@
        } else {
            "▶ "@
        }
    } else {
        "  "@
    }
}

/// The decorated display text of a node at a depth.
pub open spec fn spec_row_text(n: TreeNodeView, depth: nat) -> Seq<char> {
    spec_indent(depth) + spec_expand_marker(n) + spec_icon(n.node_type) + " "@ + n.name
}

/// The row a node shows as, at a depth.
pub open spec fn spec_row(n: TreeNodeView, depth: nat) -> SpecRow {
    (spec_row_text(n, depth), depth as int, n.selected)
}

/// How many rows a node contributes to the flattened view: itself, and its
/// children only when it is expanded.
pub open spec fn visible_count(n: TreeNodeView) -> nat
    decreases n,
{
    1 + if n.expanded {
        visible_count_seq(n.children)
    } else {
        0
    }
}

/// How many rows a forest contributes to the flattened view.
pub open spec fn visible_count_seq(nodes: Seq<TreeNodeView>) -> nat
    decreases nodes,
{
    if nodes.len() == 0 {
        0
    } else {
        visible_count(nodes[0]) + visible_count_seq(nodes.drop_first())
    }
}

/// The rows of a node: a pre-order walk that descends only into expanded
/// nodes.
pub open spec fn flatten_node(n: TreeNodeView, depth: nat) -> Seq<SpecRow>
    decreases n,
{
    seq![spec_row(n, depth)] + if n.expanded {
        flatten_seq(n.children, (depth + 1) as nat)
    } else {
        Seq::empty()
    }
}

/// The rows of a forest, roots in order.
pub open spec fn flatten_seq(nodes: Seq<TreeNodeView>, depth: nat) -> Seq<SpecRow>
    decreases nodes,
{
    if nodes.len() == 0 {
        Seq::empty()
    } else {
        flatten_node(nodes[0], depth) + flatten_seq(nodes.drop_first(), depth)
    }
}

/// Height of a node: the longest chain of children below it, itself included.
pub open spec fn spec_height(n: TreeNodeView) -> nat
    decreases n,
{
    1 + spec_height_seq(n.children)
}

/// Height of a forest.
pub open spec fn spec_height_seq(nodes: Seq<TreeNodeView>) -> nat
    decreases nodes,
{
    if nodes.len() == 0 {
        0
    } else if spec_height(nodes[0]) >= spec_height_seq(nodes.drop_first()) {
        spec_height(nodes[0])
    } else {
        spec_height_seq(nodes.drop_first())
    }
}

/// Every node of a forest stays within the forest's height.
pub proof fn lemma_height_child(nodes: Seq<TreeNodeView>, i: int)
    requires
        0 <= i < nodes.len(),
    ensures
        spec_height(nodes[i]) <= spec_height_seq(nodes),
    decreases nodes,
{
    if i > 0 {
        lemma_height_child(nodes.drop_first(), i - 1);
    }
}

/// Flattening a forest with one more root appends that root's rows.
pub proof fn lemma_flatten_seq_push(nodes: Seq<TreeNodeView>, x: TreeNodeView, depth: nat)
    ensures
        flatten_seq(nodes.push(x), depth) == flatten_seq(nodes, depth) + flatten_node(x, depth),
    decreases nodes,
{
    if nodes.len() == 0 {
        assert(nodes.push(x)[0] == x);
        assert(nodes.push(x).drop_first() =~= Seq::<TreeNodeView>::empty());
        assert(flatten_seq(Seq::<TreeNodeView>::empty(), depth) =~= Seq::<SpecRow>::empty());
        assert(flatten_seq(nodes.push(x), depth) =~= flatten_node(x, depth));
        assert(flatten_seq(nodes, depth) + flatten_node(x, depth) =~= flatten_node(x, depth));
    } else {
        assert(nodes.push(x).drop_first() =~= nodes.drop_first().push(x));
        assert(nodes.push(x)[0] == nodes[0]);
        lemma_flatten_seq_push(nodes.drop_first(), x, depth);
        assert(flatten_seq(nodes.push(x), depth) =~= flatten_seq(nodes, depth) + flatten_node(
            x,
            depth,
        ));
    }
}

/// Counting a forest with one more root adds that root's count.
pub proof fn lemma_visible_count_seq_push(nodes: Seq<TreeNodeView>, x: TreeNodeView)
    ensures
        visible_count_seq(nodes.push(x)) == visible_count_seq(nodes) + visible_count(x),
    decreases nodes,
{
    if nodes.len() == 0 {
        assert(nodes.push(x)[0] == x);
        assert(nodes.push(x).drop_first() =~= Seq::<TreeNodeView>::empty());
        assert(visible_count_seq(Seq::<TreeNodeView>::empty()) == 0);
    } else {
        assert(nodes.push(x).drop_first() =~= nodes.drop_first().push(x));
        assert(nodes.push(x)[0] == nodes[0]);
        lemma_visible_count_seq_push(nodes.drop_first(), x);
    }
}

/// The flattened view of a node has exactly as many rows as there are nodes
/// reachable by descending only through expanded nodes.
pub proof fn lemma_flatten_node_len(n: TreeNodeView, depth: nat)
    ensures
        flatten_node(n, depth).len() == visible_count(n),
    decreases n,
{
    if n.expanded {
        lemma_flatten_seq_len(n.children, (depth + 1) as nat);
    }
}

/// The flattened view of a forest has exactly as many rows as there are
/// nodes reachable by descending only through expanded nodes.
pub proof fn lemma_flatten_seq_len(nodes: Seq<TreeNodeView>, depth: nat)
    ensures
        flatten_seq(nodes, depth).len() == visible_count_seq(nodes),
    decreases nodes,
{
    if nodes.len() > 0 {
        lemma_flatten_node_len(nodes[0], depth);
        lemma_flatten_seq_len(nodes.drop_first(), depth);
    }
}


/// A structural path, as child indices from the roots.
pub open spec fn path_view(p: Seq<usize>) -> Seq<int> {
    p.map_values(|u: usize| u as int)
}

/// Whether a relative path below a node addresses a currently-visible node:
/// every step descends into an expanded node, at an in-range index.
pub open spec fn rel_visible(n: TreeNodeView, rel: Seq<int>) -> bool
    decreases rel.len(),
{
    rel.len() == 0 || (n.expanded && 0 <= rel[0] < n.children.len() && rel_visible(
        n.children[rel[0]],
        rel.drop_first(),
    ))
}

/// The node a relative path addresses below a node (meaningful under
/// `rel_visible` or `rel_in_node`).
pub open spec fn rel_node_at(n: TreeNodeView, rel: Seq<int>) -> TreeNodeView
    decreases rel.len(),
{
    if rel.len() == 0 {
        n
    } else {
        rel_node_at(n.children[rel[0]], rel.drop_first())
    }
}

/// The row position of a relative path within the node's own flattened view.
pub open spec fn rel_index(n: TreeNodeView, rel: Seq<int>) -> int
    decreases rel.len(),
{
    if rel.len() == 0 {
        0
    } else {
        1 + visible_count_seq(n.children.take(rel[0])) + rel_index(
            n.children[rel[0]],
            rel.drop_first(),
        )
    }
}

/// Whether a path addresses a currently-visible node of the forest.
pub open spec fn path_visible(nodes: Seq<TreeNodeView>, path: Seq<int>) -> bool {
    path.len() > 0 && 0 <= path[0] < nodes.len() && rel_visible(nodes[path[0]], path.drop_first())
}

/// The node a path addresses in the forest.
pub open spec fn path_node_at(nodes: Seq<TreeNodeView>, path: Seq<int>) -> TreeNodeView {
    rel_node_at(nodes[path[0]], path.drop_first())
}

/// The row position of a visible path in the flattened view of the forest.
pub open spec fn path_index(nodes: Seq<TreeNodeView>, path: Seq<int>) -> int {
    visible_count_seq(nodes.take(path[0])) + rel_index(nodes[path[0]], path.drop_first())
}

/// Whether a relative path stays in range of the structure, expanded or not.
/// Mutation is addressed this way: collapsed nodes can still be reached.
pub open spec fn rel_in_node(n: TreeNodeView, rel: Seq<int>) -> bool
    decreases rel.len(),
{
    rel.len() == 0 || (0 <= rel[0] < n.children.len() && rel_in_node(
        n.children[rel[0]],
        rel.drop_first(),
    ))
}

/// Whether a path stays in range of the structure of the forest.
pub open spec fn path_in_tree(nodes: Seq<TreeNodeView>, path: Seq<int>) -> bool {
    path.len() > 0 && 0 <= path[0] < nodes.len() && rel_in_node(nodes[path[0]], path.drop_first())
}

/// A visible path is also structurally in range.
pub proof fn lemma_visible_is_in_tree(n: TreeNodeView, rel: Seq<int>)
    requires
        rel_visible(n, rel),
    ensures
        rel_in_node(n, rel),
    decreases rel.len(),
{
    if rel.len() > 0 {
        lemma_visible_is_in_tree(n.children[rel[0]], rel.drop_first());
    }
}

/// Positions in the flattened view of a forest: the rows of root `k` start
/// after the rows of the roots before it.
pub proof fn lemma_flatten_seq_index(nodes: Seq<TreeNodeView>, k: int, j: int, depth: nat)
    requires
        0 <= k < nodes.len(),
        0 <= j < visible_count(nodes[k]),
    ensures
        0 <= visible_count_seq(nodes.take(k)) + j < visible_count_seq(nodes),
        flatten_seq(nodes, depth)[visible_count_seq(nodes.take(k)) + j] == flatten_node(
            nodes[k],
            depth,
        )[j],
    decreases k,
{
    lemma_flatten_seq_len(nodes, depth);
    lemma_flatten_node_len(nodes[0], depth);
    if k == 0 {
        assert(nodes.take(0) =~= Seq::<TreeNodeView>::empty());
        assert(visible_count_seq(Seq::<TreeNodeView>::empty()) == 0);
        lemma_count_seq_split(nodes, 1);
        assert(nodes.take(1).drop_first() =~= Seq::<TreeNodeView>::empty());
        assert(nodes.take(1)[0] == nodes[0]);
        assert(visible_count_seq(nodes.take(1)) == visible_count(nodes[0]));
    } else {
        lemma_flatten_seq_index(nodes.drop_first(), k - 1, j, depth);
        lemma_flatten_node_len(nodes[k], depth);
        assert(nodes.drop_first()[k - 1] == nodes[k]);
        assert(nodes.take(k)[0] == nodes[0]);
        assert(nodes.take(k).drop_first() =~= nodes.drop_first().take(k - 1));
        assert(visible_count_seq(nodes.take(k)) == visible_count(nodes[0]) + visible_count_seq(
            nodes.drop_first().take(k - 1),
        ));
        lemma_flatten_seq_len(nodes.drop_first(), depth);
    }
}

/// Splitting a forest count at a prefix.
pub proof fn lemma_count_seq_split(nodes: Seq<TreeNodeView>, k: int)
    requires
        0 <= k <= nodes.len(),
    ensures
        visible_count_seq(nodes) == visible_count_seq(nodes.take(k)) + visible_count_seq(
            nodes.skip(k),
        ),
    decreases k,
{
    if k == 0 {
        assert(nodes.take(0) =~= Seq::<TreeNodeView>::empty());
        assert(nodes.skip(0) =~= nodes);
        assert(visible_count_seq(Seq::<TreeNodeView>::empty()) == 0);
    } else {
        assert(nodes.take(k)[0] == nodes[0]);
        assert(nodes.take(k).drop_first() =~= nodes.drop_first().take(k - 1));
        assert(nodes.skip(k) =~= nodes.drop_first().skip(k - 1));
        lemma_count_seq_split(nodes.drop_first(), k - 1);
    }
}

/// The row of a visible relative path within the node's flattened view is
/// exactly the row of the node the path addresses, at the path's depth.
pub proof fn lemma_flatten_rel_index(n: TreeNodeView, rel: Seq<int>, depth: nat)
    requires
        rel_visible(n, rel),
    ensures
        0 <= rel_index(n, rel) < visible_count(n),
        flatten_node(n, depth)[rel_index(n, rel)] == spec_row(
            rel_node_at(n, rel),
            (depth + rel.len()) as nat,
        ),
    decreases rel.len(),
{
    lemma_flatten_node_len(n, depth);
    if rel.len() == 0 {
    } else {
        let k = rel[0];
        let child = n.children[k];
        lemma_flatten_rel_index(child, rel.drop_first(), (depth + 1) as nat);
        lemma_flatten_seq_index(
            n.children,
            k,
            rel_index(child, rel.drop_first()),
            (depth + 1) as nat,
        );
        lemma_flatten_seq_len(n.children, (depth + 1) as nat);
    }
}

/// P2, in full: for every valid row index, the path a visible path with that
/// index addresses exactly the node whose row stands at that index in the
/// flattened view.
pub proof fn lemma_flatten_path_index(nodes: Seq<TreeNodeView>, path: Seq<int>)
    requires
        path_visible(nodes, path),
    ensures
        0 <= path_index(nodes, path) < visible_count_seq(nodes),
        flatten_seq(nodes, 0)[path_index(nodes, path)] == spec_row(
            path_node_at(nodes, path),
            (path.len() - 1) as nat,
        ),
{
    let k = path[0];
    let rel = path.drop_first();
    lemma_flatten_rel_index(nodes[k], rel, 0);
    lemma_flatten_seq_index(nodes, k, rel_index(nodes[k], rel), 0);
}

/// Two visible relative paths with the same row position are the same path.
pub proof fn lemma_rel_index_injective(n: TreeNodeView, rel1: Seq<int>, rel2: Seq<int>)
    requires
        rel_visible(n, rel1),
        rel_visible(n, rel2),
        rel_index(n, rel1) == rel_index(n, rel2),
    ensures
        rel1 == rel2,
    decreases rel1.len(),
{
    if rel1.len() == 0 || rel2.len() == 0 {
        if rel1.len() == 0 && rel2.len() == 0 {
            assert(rel1 =~= rel2);
        } else if rel1.len() == 0 {
            lemma_rel_index_nonneg(n.children[rel2[0]], rel2.drop_first());
            lemma_count_take_nonneg(n.children, rel2[0]);
        } else {
            lemma_rel_index_nonneg(n.children[rel1[0]], rel1.drop_first());
            lemma_count_take_nonneg(n.children, rel1[0]);
        }
    } else {
        let k1 = rel1[0];
        let k2 = rel2[0];
        lemma_rel_index_nonneg(n.children[k1], rel1.drop_first());
        lemma_rel_index_nonneg(n.children[k2], rel2.drop_first());
        lemma_flatten_rel_index(n.children[k1], rel1.drop_first(), 0);
        lemma_flatten_rel_index(n.children[k2], rel2.drop_first(), 0);
        if k1 < k2 {
            lemma_count_take_mono(n.children, k1, k2);
        } else if k2 < k1 {
            lemma_count_take_mono(n.children, k2, k1);
        } else {
            lemma_rel_index_injective(n.children[k1], rel1.drop_first(), rel2.drop_first());
            assert(rel1 =~= seq![k1] + rel1.drop_first());
            assert(rel2 =~= seq![k1] + rel2.drop_first());
        }
    }
}

/// Row positions are never negative.
pub proof fn lemma_rel_index_nonneg(n: TreeNodeView, rel: Seq<int>)
    requires
        rel_visible(n, rel),
    ensures
        rel_index(n, rel) >= 0,
{
    lemma_flatten_rel_index(n, rel, 0);
}

/// Prefix counts never shrink, and grow by at least the count of each node
/// the prefix passes.
pub proof fn lemma_count_take_mono(nodes: Seq<TreeNodeView>, k1: int, k2: int)
    requires
        0 <= k1 < k2 <= nodes.len(),
    ensures
        visible_count_seq(nodes.take(k1)) + visible_count(nodes[k1]) <= visible_count_seq(
            nodes.take(k2),
        ),
    decreases k2 - k1,
{
    lemma_count_seq_split(nodes.take(k2), k1 + 1);
    assert(nodes.take(k2).take(k1 + 1) =~= nodes.take(k1 + 1));
    lemma_count_seq_split(nodes.take(k1 + 1), k1);
    assert(nodes.take(k1 + 1).take(k1) =~= nodes.take(k1));
    assert(nodes.take(k1 + 1).skip(k1) =~= seq![nodes[k1]]);
    assert(seq![nodes[k1]].drop_first() =~= Seq::<TreeNodeView>::empty());
    assert(seq![nodes[k1]][0] == nodes[k1]);
    assert(visible_count_seq(Seq::<TreeNodeView>::empty()) == 0);
    assert(visible_count_seq(seq![nodes[k1]]) == visible_count(nodes[k1]));
    lemma_count_seq_nonneg(nodes.take(k2).skip(k1 + 1));
}

/// Counts are never negative (they are naturals; stated for arithmetic use).
pub proof fn lemma_count_seq_nonneg(nodes: Seq<TreeNodeView>)
    ensures
        visible_count_seq(nodes) >= 0,
{
}

/// Prefix counts are never negative.
pub proof fn lemma_count_take_nonneg(nodes: Seq<TreeNodeView>, k: int)
    ensures
        visible_count_seq(nodes.take(k)) >= 0,
{
}


/// The node with its expansion flag set along a relative path; out-of-range
/// segments leave the node unchanged.
pub open spec fn rel_set_expanded(n: TreeNodeView, rel: Seq<int>, e: bool) -> TreeNodeView
    decreases rel.len(),
{
    if rel.len() == 0 {
        TreeNodeView { expanded: e, ..n }
    } else if 0 <= rel[0] < n.children.len() {
        TreeNodeView {
            children: n.children.update(
                rel[0],
                rel_set_expanded(n.children[rel[0]], rel.drop_first(), e),
            ),
            ..n
        }
    } else {
        n
    }
}

/// The forest with the expansion flag of the node at the path set;
/// an empty or out-of-range path leaves the forest unchanged.
pub open spec fn set_expanded_seq(nodes: Seq<TreeNodeView>, path: Seq<int>, e: bool) -> Seq<
    TreeNodeView,
> {
    if path.len() > 0 && 0 <= path[0] < nodes.len() {
        nodes.update(path[0], rel_set_expanded(nodes[path[0]], path.drop_first(), e))
    } else {
        nodes
    }
}

/// The node with its selection flag set along a relative path.
pub open spec fn rel_set_selected(n: TreeNodeView, rel: Seq<int>, sel: bool) -> TreeNodeView
    decreases rel.len(),
{
    if rel.len() == 0 {
        TreeNodeView { selected: sel, ..n }
    } else if 0 <= rel[0] < n.children.len() {
        TreeNodeView {
            children: n.children.update(
                rel[0],
                rel_set_selected(n.children[rel[0]], rel.drop_first(), sel),
            ),
            ..n
        }
    } else {
        n
    }
}

/// The forest with the selection flag of the node at the path set.
pub open spec fn set_selected_seq(nodes: Seq<TreeNodeView>, path: Seq<int>, sel: bool) -> Seq<
    TreeNodeView,
> {
    if path.len() > 0 && 0 <= path[0] < nodes.len() {
        nodes.update(path[0], rel_set_selected(nodes[path[0]], path.drop_first(), sel))
    } else {
        nodes
    }
}

/// The node with every selection flag below it cleared.
pub open spec fn clear_node(n: TreeNodeView) -> TreeNodeView
    decreases n,
{
    TreeNodeView { selected: false, children: clear_seq(n.children), ..n }
}

/// The forest with every selection flag cleared.
pub open spec fn clear_seq(nodes: Seq<TreeNodeView>) -> Seq<TreeNodeView>
    decreases nodes,
{
    if nodes.len() == 0 {
        Seq::empty()
    } else {
        seq![clear_node(nodes[0])] + clear_seq(nodes.drop_first())
    }
}

/// How many nodes of the whole node's subtree are selected.
pub open spec fn selected_count(n: TreeNodeView) -> nat
    decreases n,
{
    (if n.selected {
        1nat
    } else {
        0nat
    }) + selected_count_seq(n.children)
}

/// How many nodes of the whole forest are selected.
pub open spec fn selected_count_seq(nodes: Seq<TreeNodeView>) -> nat
    decreases nodes,
{
    if nodes.len() == 0 {
        0
    } else {
        selected_count(nodes[0]) + selected_count_seq(nodes.drop_first())
    }
}

/// Updating one node of a forest with one of the same height keeps the
/// forest's height.
pub proof fn lemma_height_seq_update(s: Seq<TreeNodeView>, k: int, x: TreeNodeView)
    requires
        0 <= k < s.len(),
        spec_height(x) == spec_height(s[k]),
    ensures
        spec_height_seq(s.update(k, x)) == spec_height_seq(s),
    decreases s.len(),
{
    if k == 0 {
        assert(s.update(0, x)[0] == x);
        assert(s.update(0, x).drop_first() =~= s.drop_first());
    } else {
        assert(s.update(k, x)[0] == s[0]);
        assert(s.update(k, x).drop_first() =~= s.drop_first().update(k - 1, x));
        lemma_height_seq_update(s.drop_first(), k - 1, x);
    }
}

/// Setting an expansion flag never changes heights.
pub proof fn lemma_rel_set_expanded_height(n: TreeNodeView, rel: Seq<int>, e: bool)
    ensures
        spec_height(rel_set_expanded(n, rel, e)) == spec_height(n),
    decreases rel.len(),
{
    if rel.len() == 0 {
    } else if 0 <= rel[0] < n.children.len() {
        lemma_rel_set_expanded_height(n.children[rel[0]], rel.drop_first(), e);
        lemma_height_seq_update(
            n.children,
            rel[0],
            rel_set_expanded(n.children[rel[0]], rel.drop_first(), e),
        );
    }
}

/// Setting an expansion flag never changes the forest's height.
pub proof fn lemma_set_expanded_seq_height(nodes: Seq<TreeNodeView>, path: Seq<int>, e: bool)
    ensures
        spec_height_seq(set_expanded_seq(nodes, path, e)) == spec_height_seq(nodes),
{
    if path.len() > 0 && 0 <= path[0] < nodes.len() {
        lemma_rel_set_expanded_height(nodes[path[0]], path.drop_first(), e);
        lemma_height_seq_update(
            nodes,
            path[0],
            rel_set_expanded(nodes[path[0]], path.drop_first(), e),
        );
    }
}

/// Setting a selection flag never changes heights.
pub proof fn lemma_rel_set_selected_height(n: TreeNodeView, rel: Seq<int>, sel: bool)
    ensures
        spec_height(rel_set_selected(n, rel, sel)) == spec_height(n),
    decreases rel.len(),
{
    if rel.len() == 0 {
    } else if 0 <= rel[0] < n.children.len() {
        lemma_rel_set_selected_height(n.children[rel[0]], rel.drop_first(), sel);
        lemma_height_seq_update(
            n.children,
            rel[0],
            rel_set_selected(n.children[rel[0]], rel.drop_first(), sel),
        );
    }
}

/// Setting a selection flag never changes the forest's height.
pub proof fn lemma_set_selected_seq_height(nodes: Seq<TreeNodeView>, path: Seq<int>, sel: bool)
    ensures
        spec_height_seq(set_selected_seq(nodes, path, sel)) == spec_height_seq(nodes),
{
    if path.len() > 0 && 0 <= path[0] < nodes.len() {
        lemma_rel_set_selected_height(nodes[path[0]], path.drop_first(), sel);
        lemma_height_seq_update(
            nodes,
            path[0],
            rel_set_selected(nodes[path[0]], path.drop_first(), sel),
        );
    }
}

/// Clearing selections never changes heights.
pub proof fn lemma_clear_node_height(n: TreeNodeView)
    ensures
        spec_height(clear_node(n)) == spec_height(n),
    decreases n,
{
    lemma_clear_seq_height(n.children);
}

/// Clearing selections never changes the forest's height; afterwards no node
/// is selected.
pub proof fn lemma_clear_seq_height(nodes: Seq<TreeNodeView>)
    ensures
        spec_height_seq(clear_seq(nodes)) == spec_height_seq(nodes),
        clear_seq(nodes).len() == nodes.len(),
    decreases nodes,
{
    if nodes.len() > 0 {
        lemma_clear_node_height(nodes[0]);
        lemma_clear_seq_height(nodes.drop_first());
        assert(clear_seq(nodes)[0] == clear_node(nodes[0]));
        assert(clear_seq(nodes).drop_first() =~= clear_seq(nodes.drop_first()));
    }
}

/// After clearing, no node of the forest is selected.
pub proof fn lemma_clear_seq_count(nodes: Seq<TreeNodeView>)
    ensures
        selected_count_seq(clear_seq(nodes)) == 0,
    decreases nodes,
{
    if nodes.len() > 0 {
        lemma_clear_node_count(nodes[0]);
        lemma_clear_seq_count(nodes.drop_first());
        assert(clear_seq(nodes)[0] == clear_node(nodes[0]));
        assert(clear_seq(nodes).drop_first() =~= clear_seq(nodes.drop_first()));
    } else {
        assert(clear_seq(nodes) =~= Seq::<TreeNodeView>::empty());
    }
}

/// After clearing, no node of the subtree is selected.
pub proof fn lemma_clear_node_count(n: TreeNodeView)
    ensures
        selected_count(clear_node(n)) == 0,
    decreases n,
{
    lemma_clear_seq_count(n.children);
}


/// Replacing one node of a forest adjusts the visible row count by the
/// difference of the two nodes' counts.
pub proof fn lemma_count_seq_update(s: Seq<TreeNodeView>, k: int, x: TreeNodeView)
    requires
        0 <= k < s.len(),
    ensures
        visible_count_seq(s.update(k, x)) == visible_count_seq(s) - visible_count(s[k])
            + visible_count(x),
    decreases s.len(),
{
    if k == 0 {
        assert(s.update(0, x)[0] == x);
        assert(s.update(0, x).drop_first() =~= s.drop_first());
    } else {
        assert(s.update(k, x)[0] == s[0]);
        assert(s.update(k, x).drop_first() =~= s.drop_first().update(k - 1, x));
        lemma_count_seq_update(s.drop_first(), k - 1, x);
    }
}

/// Replacing one node of a forest adjusts the selected count by the
/// difference of the two nodes' counts.
pub proof fn lemma_selected_count_seq_update(s: Seq<TreeNodeView>, k: int, x: TreeNodeView)
    requires
        0 <= k < s.len(),
    ensures
        selected_count_seq(s.update(k, x)) == selected_count_seq(s) - selected_count(s[k])
            + selected_count(x),
    decreases s.len(),
{
    if k == 0 {
        assert(s.update(0, x)[0] == x);
        assert(s.update(0, x).drop_first() =~= s.drop_first());
    } else {
        assert(s.update(k, x)[0] == s[0]);
        assert(s.update(k, x).drop_first() =~= s.drop_first().update(k - 1, x));
        lemma_selected_count_seq_update(s.drop_first(), k - 1, x);
    }
}

/// Selecting along a relative path adds one selected node exactly when the
/// path addresses a node that was not selected.
pub proof fn lemma_rel_set_selected_count(n: TreeNodeView, rel: Seq<int>)
    ensures
        selected_count(rel_set_selected(n, rel, true)) == selected_count(n) + (
        if rel_in_node(n, rel) && !rel_node_at(n, rel).selected {
            1nat
        } else {
            0nat
        }),
    decreases rel.len(),
{
    if rel.len() == 0 {
    } else if 0 <= rel[0] < n.children.len() {
        let k = rel[0];
        lemma_rel_set_selected_count(n.children[k], rel.drop_first());
        lemma_selected_count_seq_update(
            n.children,
            k,
            rel_set_selected(n.children[k], rel.drop_first(), true),
        );
    }
}

/// Selecting along a path adds one selected node exactly when the path
/// addresses a node that was not selected.
pub proof fn lemma_set_selected_seq_count(nodes: Seq<TreeNodeView>, path: Seq<int>)
    ensures
        selected_count_seq(set_selected_seq(nodes, path, true)) == selected_count_seq(nodes) + (
        if path_in_tree(nodes, path) && !path_node_at(nodes, path).selected {
            1nat
        } else {
            0nat
        }),
{
    if path.len() > 0 && 0 <= path[0] < nodes.len() {
        lemma_rel_set_selected_count(nodes[path[0]], path.drop_first());
        lemma_selected_count_seq_update(
            nodes,
            path[0],
            rel_set_selected(nodes[path[0]], path.drop_first(), true),
        );
    }
}

/// Clearing keeps the structure: the same relative paths stay in range, and
/// the node a path addresses is the cleared original, hence unselected.
pub proof fn lemma_clear_node_structure(n: TreeNodeView, rel: Seq<int>)
    ensures
        rel_in_node(clear_node(n), rel) == rel_in_node(n, rel),
        rel_in_node(n, rel) ==> rel_node_at(clear_node(n), rel) == clear_node(rel_node_at(n, rel)),
    decreases rel.len(),
{
    lemma_clear_seq_index(n.children);
    if rel.len() > 0 && 0 <= rel[0] < n.children.len() {
        lemma_clear_node_structure(n.children[rel[0]], rel.drop_first());
    }
}

/// Clearing keeps the structure of the whole forest.
pub proof fn lemma_clear_seq_structure(nodes: Seq<TreeNodeView>, path: Seq<int>)
    ensures
        path_in_tree(clear_seq(nodes), path) == path_in_tree(nodes, path),
        path_in_tree(nodes, path) ==> path_node_at(clear_seq(nodes), path) == clear_node(
            path_node_at(nodes, path),
        ),
{
    lemma_clear_seq_index(nodes);
    if path.len() > 0 && 0 <= path[0] < nodes.len() {
        lemma_clear_node_structure(nodes[path[0]], path.drop_first());
    }
}

/// Selecting a root alone leaves every deeper node as it was.
pub proof fn lemma_set_selected_root_keeps_descendants(
    nodes: Seq<TreeNodeView>,
    k: int,
    path: Seq<int>,
)
    requires
        0 <= k < nodes.len(),
        path.len() > 0,
        path[0] == k,
        path.len() > 1,
    ensures
        path_in_tree(set_selected_seq(nodes, seq![k], true), path) == path_in_tree(nodes, path),
        path_in_tree(nodes, path) ==> path_node_at(set_selected_seq(nodes, seq![k], true), path)
            == path_node_at(nodes, path),
{
    let t = set_selected_seq(nodes, seq![k], true);
    assert(seq![k].drop_first() =~= Seq::<int>::empty());
    assert(t == nodes.update(k, rel_set_selected(nodes[k], Seq::<int>::empty(), true)));
    assert(t[k].children == nodes[k].children);
    let rel = path.drop_first();
    assert(rel.len() > 0);
    assert(rel_in_node(t[k], rel) == rel_in_node(nodes[k], rel));
    if rel_in_node(nodes[k], rel) {
        assert(rel_node_at(t[k], rel) == rel_node_at(nodes[k], rel));
    }
}

/// P9: expanding a collapsed visible node grows the flattened view by exactly
/// the number of rows its children contribute.
pub proof fn lemma_expand_adds_children_rows(nodes: Seq<TreeNodeView>, path: Seq<int>)
    requires
        path_visible(nodes, path),
        !path_node_at(nodes, path).expanded,
    ensures
        visible_count_seq(set_expanded_seq(nodes, path, true)) == visible_count_seq(nodes)
            + visible_count_seq(path_node_at(nodes, path).children),
{
    lemma_rel_expand_count(nodes[path[0]], path.drop_first());
    lemma_count_seq_update(
        nodes,
        path[0],
        rel_set_expanded(nodes[path[0]], path.drop_first(), true),
    );
}

/// Expanding a collapsed node below a node grows that node's visible rows by
/// the rows of the expanded node's children.
pub proof fn lemma_rel_expand_count(n: TreeNodeView, rel: Seq<int>)
    requires
        rel_visible(n, rel),
        !rel_node_at(n, rel).expanded,
    ensures
        visible_count(rel_set_expanded(n, rel, true)) == visible_count(n) + visible_count_seq(
            rel_node_at(n, rel).children,
        ),
    decreases rel.len(),
{
    if rel.len() == 0 {
    } else {
        let k = rel[0];
        lemma_rel_expand_count(n.children[k], rel.drop_first());
        lemma_count_seq_update(
            n.children,
            k,
            rel_set_expanded(n.children[k], rel.drop_first(), true),
        );
    }
}

/// The project the walk from a selected root resolves: descending the path,
/// every project node passed replaces the project seen so far; out-of-range
/// segments are skipped.
pub open spec fn walk_project(n: TreeNodeView, rel: Seq<int>, cur: Option<ProjectView>) -> Option<
    ProjectView,
>
    decreases rel.len(),
{
    if rel.len() == 0 {
        cur
    } else if 0 <= rel[0] < n.children.len() {
        let c = n.children[rel[0]];
        let cur2 = match c.node_type {
            TreeNodeTypeView::Project(p) => Some(p),
            _ => cur,
        };
        walk_project(c, rel.drop_first(), cur2)
    } else {
        walk_project(n, rel.drop_first(), cur)
    }
}

/// What selecting a path does: the context is re-resolved from the root's
/// product and the projects along the path, and the addressed node becomes
/// the only selected node of the tree. An empty or out-of-range path changes
/// nothing.
pub open spec fn spec_select(
    tree: Seq<TreeNodeView>,
    ctx: NavigationContextView,
    path: Seq<int>,
    domain: Option<AtlassianDomainView>,
) -> (Seq<TreeNodeView>, NavigationContextView) {
    if path.len() == 0 || !(0 <= path[0] < tree.len()) {
        (tree, ctx)
    } else {
        let root = tree[path[0]];
        let ctx2 = NavigationContextView {
            domain: if domain is Some {
                domain
            } else {
                ctx.domain
            },
            product: match root.node_type {
                TreeNodeTypeView::Product(p) => Some(p),
                _ => ctx.product,
            },
            project: walk_project(
                root,
                path.drop_first(),
                match root.node_type {
                    TreeNodeTypeView::Product(_) => None,
                    _ => ctx.project,
                },
            ),
        };
        (set_selected_seq(clear_seq(tree), path, true), ctx2)
    }
}

/// What selecting a path together with its root does: as `spec_select`, but
/// the project seen so far is kept rather than reset, and the root is
/// selected alongside the addressed node.
pub open spec fn spec_select_with_parents(
    tree: Seq<TreeNodeView>,
    ctx: NavigationContextView,
    path: Seq<int>,
    domain: Option<AtlassianDomainView>,
) -> (Seq<TreeNodeView>, NavigationContextView) {
    if path.len() == 0 || !(0 <= path[0] < tree.len()) {
        (tree, ctx)
    } else {
        let root = tree[path[0]];
        let ctx2 = NavigationContextView {
            domain: if domain is Some {
                domain
            } else {
                ctx.domain
            },
            product: match root.node_type {
                TreeNodeTypeView::Product(p) => Some(p),
                _ => ctx.product,
            },
            project: walk_project(root, path.drop_first(), ctx.project),
        };
        (
            set_selected_seq(
                set_selected_seq(clear_seq(tree), seq![path[0]], true),
                path,
                true,
            ),
            ctx2,
        )
    }
}

/// P3: after selecting any in-range path, exactly one node of the whole tree
/// is selected.
pub proof fn lemma_select_unique_selection(
    tree: Seq<TreeNodeView>,
    ctx: NavigationContextView,
    path: Seq<int>,
    domain: Option<AtlassianDomainView>,
)
    requires
        path_in_tree(tree, path),
    ensures
        selected_count_seq(spec_select(tree, ctx, path, domain).0) == 1,
{
    let cleared = clear_seq(tree);
    lemma_clear_seq_count(tree);
    lemma_clear_seq_structure(tree, path);
    lemma_set_selected_seq_count(cleared, path);
    lemma_selected_count_node_bound(path_node_at(cleared, path));
}

/// A node's own selected flag never exceeds its subtree's selected count.
pub proof fn lemma_selected_count_node_bound(n: TreeNodeView)
    ensures
        n.selected ==> selected_count(n) >= 1,
{
}

/// After selecting a path of two or more segments together with its root,
/// exactly two nodes of the tree are selected; for a root path, one.
pub proof fn lemma_select_with_parents_selection(
    tree: Seq<TreeNodeView>,
    ctx: NavigationContextView,
    path: Seq<int>,
    domain: Option<AtlassianDomainView>,
)
    requires
        path_in_tree(tree, path),
    ensures
        selected_count_seq(spec_select_with_parents(tree, ctx, path, domain).0) == if path.len()
            == 1 {
            1int
        } else {
            2int
        },
{
    let k = path[0];
    let cleared = clear_seq(tree);
    lemma_clear_seq_count(tree);
    lemma_clear_seq_structure(tree, path);
    lemma_clear_seq_structure(tree, seq![k]);
    assert(seq![k].drop_first() =~= Seq::<int>::empty());
    assert(path_in_tree(tree, seq![k]));
    let t1 = set_selected_seq(cleared, seq![k], true);
    lemma_set_selected_seq_count(cleared, seq![k]);
    assert(selected_count_seq(t1) == 1);
    if path.len() == 1 {
        assert(path =~= seq![k]);
        let target = path_node_at(t1, path);
        assert(t1 == cleared.update(
            k,
            rel_set_selected(cleared[k], Seq::<int>::empty(), true),
        ));
        assert(target.selected);
        lemma_set_selected_seq_count(t1, path);
    } else {
        lemma_set_selected_root_keeps_descendants(cleared, k, path);
        assert(path_node_at(t1, path) == path_node_at(cleared, path));
        assert(!path_node_at(t1, path).selected);
        lemma_set_selected_seq_count(t1, path);
    }
}

/// Tree navigation manager: the mutable tree, the cursor into its flattened
/// view, and the selection the navigation has resolved.
pub struct TreeNavigationManager {
    /// Tree data for navigation.
    pub tree_data: Vec<TreeNode>,
    /// Current tree selection index.
    pub tree_selection: usize,
    /// Navigation context for hierarchical selection.
    pub navigation_context: NavigationContext,
}

impl TreeNavigationManager {
    /// The mathematical tree this manager holds.
    pub open spec fn tree(self) -> Seq<TreeNodeView> {
        tree_seq_view(self.tree_data@)
    }

    /// Machine bound the algorithms rely on: the tree's height fits the
    /// address space, so a row's depth fits in `usize`.
    pub open spec fn wf(self) -> bool {
        spec_height_seq(self.tree()) <= usize::MAX
    }

    /// Create a new tree navigation manager.
    pub fn new() -> (r: Self)
        ensures
            r.tree() =~= Seq::<TreeNodeView>::empty(),
            r.tree_selection == 0,
            r.navigation_context@.domain is None,
            r.navigation_context@.product is None,
            r.navigation_context@.project is None,
            r.wf(),
    {
        let r = TreeNavigationManager {
            tree_data: Vec::new(),
            tree_selection: 0,
            navigation_context: NavigationContext::new(),
        };
        proof {
            assert(r.tree() =~= Seq::<TreeNodeView>::empty());
        }
        r
    }

    /// Recursively flatten a node for display.
    pub fn flatten_tree_node(
        &self,
        node: &TreeNode,
        depth: usize,
        items: &mut Vec<(String, usize, bool)>,
    )
        requires
            depth + spec_height(node@) <= usize::MAX,
        ensures
            rows_view(final(items)@) == rows_view(old(items)@) + flatten_node(
                node@,
                depth as nat,
            ),
        decreases *node,
    {
        let mut text = String::new();
        let mut k: usize = 0;
        while k < depth
            invariant
                k <= depth,
                text@ == spec_indent(k as nat),
            decreases depth - k,
        {
            text.append("  ");
            k = k + 1;
        }

        if !node.children.is_empty() {
            if node.expanded {
                text.append("▼ ");
            } else {
                text.append("▶ ");
            }
        } else {
            text.append("  ");
        }

        match &node.node_type {
            TreeNodeType::Domain(_) => {
                text.append("🌐");
            },
            TreeNodeType::Product(product) => {
                if product.available {
                    match product.product_type {
                        ProductType::Confluence => {
                            text.append("📊");
                        },
                        ProductType::Jira => {
                            text.append("📋");
                        },
                        ProductType::Jsm => {
                            text.append("🎫");
                        },
                    }
                } else {
                    text.append("⭕");
                }
            },
            TreeNodeType::Project(_) => {
                text.append("📁");
            },
        }
        text.append(" ");
        text.append(node.name.as_str());

        proof {
            assert(node@.children == tree_seq_view(node.children@));
            crate::models::lemma_tree_seq_view_index(node.children@);
            assert(text@ == spec_row_text(node@, depth as nat));
        }

        items.push((text, depth, node.selected));

        proof {
            assert(rows_view(items@) =~= rows_view(old(items)@) + seq![
                spec_row(node@, depth as nat),
            ]);
        }

        if node.expanded {
            let ghost mid = items@;
            let mut j: usize = 0;
            while j < node.children.len()
                invariant
                    j <= node.children.len(),
                    depth + spec_height(node@) <= usize::MAX,
                    node@.children == tree_seq_view(node.children@),
                    node@.children.len() == node.children@.len(),
                    forall|i: int|
                        0 <= i < node.children@.len() ==> #[trigger] node@.children[i]
                            == node.children@[i]@,
                    node@.expanded,
                    rows_view(items@) == rows_view(mid) + flatten_seq(
                        node@.children.take(j as int),
                        (depth + 1) as nat,
                    ),
                decreases node.children.len() - j,
            {
                proof {
                    lemma_height_child(node@.children, j as int);
                }
                self.flatten_tree_node(&node.children[j], depth + 1, items);
                proof {
                    assert(node@.children.take(j + 1) =~= node@.children.take(j as int).push(
                        node@.children[j as int],
                    ));
                    lemma_flatten_seq_push(
                        node@.children.take(j as int),
                        node@.children[j as int],
                        (depth + 1) as nat,
                    );
                }
                j = j + 1;
            }
            proof {
                assert(node@.children.take(node@.children.len() as int) =~= node@.children);
                assert(rows_view(items@) =~= rows_view(old(items)@) + flatten_node(
                    node@,
                    depth as nat,
                ));
            }
        } else {
            proof {
                assert(rows_view(items@) =~= rows_view(old(items)@) + flatten_node(
                    node@,
                    depth as nat,
                ));
            }
        }
    }

    /// Get all visible tree items for display (flattened with indentation).
    pub fn get_tree_items(&self) -> (items: Vec<(String, usize, bool)>)
        requires
            self.wf(),
        ensures
            rows_view(items@) == flatten_seq(self.tree(), 0),
            items@.len() == visible_count_seq(self.tree()),
    {
        let mut items: Vec<(String, usize, bool)> = Vec::new();
        let mut i: usize = 0;
        proof {
            crate::models::lemma_tree_seq_view_index(self.tree_data@);
            assert(rows_view(items@) =~= flatten_seq(self.tree().take(0), 0));
        }
        while i < self.tree_data.len()
            invariant
                i <= self.tree_data.len(),
                self.wf(),
                self.tree().len() == self.tree_data@.len(),
                forall|k: int|
                    0 <= k < self.tree_data@.len() ==> #[trigger] self.tree()[k]
                        == self.tree_data@[k]@,
                rows_view(items@) == flatten_seq(self.tree().take(i as int), 0),
            decreases self.tree_data.len() - i,
        {
            proof {
                lemma_height_child(self.tree(), i as int);
            }
            self.flatten_tree_node(&self.tree_data[i], 0, &mut items);
            proof {
                assert(self.tree().take(i + 1) =~= self.tree().take(i as int).push(
                    self.tree()[i as int],
                ));
                lemma_flatten_seq_push(self.tree().take(i as int), self.tree()[i as int], 0);
            }
            i = i + 1;
        }
        proof {
            assert(self.tree().take(self.tree().len() as int) =~= self.tree());
            lemma_flatten_seq_len(self.tree(), 0);
            assert(items@.len() == rows_view(items@).len());
        }
        items
    }

    /// Move tree selection up.
    pub fn move_selection_up(&mut self)
        ensures
            final(self).tree_data == old(self).tree_data,
            final(self).navigation_context == old(self).navigation_context,
            final(self).tree_selection == if old(self).tree_selection > 0 {
                old(self).tree_selection - 1
            } else {
                0
            },
    {
        if self.tree_selection > 0 {
            self.tree_selection = self.tree_selection - 1;
        }
    }

    /// Move tree selection down, clamped to the last visible row.
    pub fn move_selection_down(&mut self)
        requires
            old(self).wf(),
        ensures
            final(self).tree_data == old(self).tree_data,
            final(self).navigation_context == old(self).navigation_context,
            final(self).tree_selection == if old(self).tree_selection + 1 < visible_count_seq(
                old(self).tree(),
            ) {
                old(self).tree_selection + 1
            } else {
                old(self).tree_selection as int
            },
    {
        let tree_items = self.get_tree_items();
        if self.tree_selection < tree_items.len().saturating_sub(1) {
            self.tree_selection = self.tree_selection + 1;
        }
    }

    /// Move selection up by pages (10 items).
    pub fn page_up(&mut self)
        ensures
            final(self).tree_data == old(self).tree_data,
            final(self).navigation_context == old(self).navigation_context,
            final(self).tree_selection == if old(self).tree_selection >= 10 {
                old(self).tree_selection - 10
            } else {
                0
            },
    {
        let mut n: usize = 0;
        while n < 10
            invariant
                n <= 10,
                self.tree_data == old(self).tree_data,
                self.navigation_context == old(self).navigation_context,
                self.tree_selection == if old(self).tree_selection >= n {
                    old(self).tree_selection - n
                } else {
                    0
                },
            decreases 10 - n,
        {
            if self.tree_selection > 0 {
                self.tree_selection = self.tree_selection - 1;
            }
            n = n + 1;
        }
    }

    /// Move selection down by pages (10 items), clamped to the last row.
    pub fn page_down(&mut self)
        requires
            old(self).wf(),
        ensures
            final(self).tree_data == old(self).tree_data,
            final(self).navigation_context == old(self).navigation_context,
            final(self).tree_selection == if old(self).tree_selection + 10 < visible_count_seq(
                old(self).tree(),
            ) {
                old(self).tree_selection + 10
            } else if visible_count_seq(old(self).tree()) > 0 && old(self).tree_selection
                < visible_count_seq(old(self).tree()) {
                visible_count_seq(old(self).tree()) - 1
            } else {
                old(self).tree_selection as int
            },
    {
        let tree_items = self.get_tree_items();
        let mut n: usize = 0;
        let ghost total = visible_count_seq(old(self).tree());
        proof {
            vstd::std_specs::vec::axiom_spec_len(&tree_items);
        }
        while n < 10
            invariant
                n <= 10,
                tree_items@.len() == total,
                total <= usize::MAX,
                self.tree_data == old(self).tree_data,
                self.navigation_context == old(self).navigation_context,
                self.tree_selection == if old(self).tree_selection + n < total {
                    old(self).tree_selection + n
                } else if total > 0 && old(self).tree_selection < total {
                    total - 1
                } else {
                    old(self).tree_selection as int
                },
            decreases 10 - n,
        {
            if self.tree_selection < tree_items.len().saturating_sub(1) {
                self.tree_selection = self.tree_selection + 1;
            }
            n = n + 1;
        }
    }

    /// Clear tree data.
    pub fn cleanup(&mut self)
        ensures
            final(self).tree() =~= Seq::<TreeNodeView>::empty(),
            final(self).tree_selection == 0,
            final(self).navigation_context == old(self).navigation_context,
            final(self).wf(),
    {
        self.tree_data.clear();
        self.tree_selection = 0;
        proof {
            assert(final(self).tree() =~= Seq::<TreeNodeView>::empty());
        }
    }
}


/// Copy a path of child indices.
pub fn clone_indices(path: &Vec<usize>) -> (r: Vec<usize>)
    ensures
        r@ == path@,
{
    let mut r: Vec<usize> = Vec::new();
    let mut i: usize = 0;
    while i < path.len()
        invariant
            i <= path.len(),
            r@ == path@.take(i as int),
        decreases path.len() - i,
    {
        r.push(path[i]);
        proof {
            assert(path@.take(i + 1) =~= path@.take(i as int).push(path@[i as int]));
        }
        i = i + 1;
    }
    proof {
        assert(path@.take(path@.len() as int) =~= path@);
    }
    r
}

impl TreeNavigationManager {
    /// Recursively find the path to the node at the given flattened index.
    ///
    /// `current_index` is the row the walk stands at when it reaches `node`;
    /// the walk scans this node's visible rows and either finds the target in
    /// them or leaves `current_index` just past them.
    #[verifier::loop_isolation(false)]
    pub fn find_node_path_recursive(
        &self,
        node: &TreeNode,
        target_index: usize,
        current_index: &mut usize,
        path: Vec<usize>,
    ) -> (r: Option<Vec<usize>>)
        requires
            *old(current_index) <= target_index,
        ensures
            match r {
                Some(p) => exists|rel: Seq<int>|
                    #![auto]
                    rel_visible(node@, rel) && path_view(p@) == path_view(path@) + rel && rel_index(
                        node@,
                        rel,
                    ) == target_index - *old(current_index),
                None => *final(current_index) == *old(current_index) + visible_count(node@)
                    && target_index >= *old(current_index) + visible_count(node@),
            },
        decreases *node,
    {
        let ghost entry_index = *current_index;
        if *current_index == target_index {
            proof {
                let rel = Seq::<int>::empty();
                assert(path_view(path@) + rel =~= path_view(path@));
                assert(rel_visible(node@, rel) && path_view(path@) == path_view(path@) + rel
                    && rel_index(node@, rel) == target_index - *old(current_index));
            }
            return Some(path);
        }
        *current_index = *current_index + 1;

        if node.expanded {
            let ghost base = entry_index;
            let mut child_index: usize = 0;
            proof {
                crate::models::lemma_tree_seq_view_index(node.children@);
                assert(node@.children.take(0) =~= Seq::<TreeNodeView>::empty());
                assert(visible_count_seq(Seq::<TreeNodeView>::empty()) == 0);
            }
            while child_index < node.children.len()
                invariant
                    child_index <= node.children.len(),
                    node@.expanded,
                    node@.children == tree_seq_view(node.children@),
                    node@.children.len() == node.children@.len(),
                    forall|i: int|
                        0 <= i < node.children@.len() ==> #[trigger] node@.children[i]
                            == node.children@[i]@,
                    *current_index == base + 1 + visible_count_seq(
                        node@.children.take(child_index as int),
                    ),
                    *current_index <= target_index,
                    target_index > base,
                decreases node.children.len() - child_index,
            {
                let mut child_path = clone_indices(&path);
                child_path.push(child_index);
                let ghost cur_before = *current_index;
                let found = self.find_node_path_recursive(
                    &node.children[child_index],
                    target_index,
                    current_index,
                    child_path,
                );
                if let Some(found_path) = found {
                    proof {
                        let child = node@.children[child_index as int];
                        let rel0 = choose|rel: Seq<int>|
                            #![auto]
                            rel_visible(child, rel) && path_view(found_path@) == path_view(
                                child_path@,
                            ) + rel && rel_index(child, rel) == target_index - cur_before;
                        let rel = seq![child_index as int] + rel0;
                        assert(rel.drop_first() =~= rel0);
                        assert(rel[0] == child_index as int);
                        assert(path_view(child_path@) =~= path_view(path@) + seq![
                            child_index as int,
                        ]);
                        assert(path_view(found_path@) =~= path_view(path@) + rel);
                        assert(rel_visible(node@, rel));
                        assert(node@.children.take(rel[0]) == node@.children.take(
                            child_index as int,
                        ));
                        assert(rel_index(child, rel0) == target_index - cur_before);
                        assert(visible_count_seq(node@.children.take(child_index as int))
                            == cur_before - base - 1);
                        assert(rel_index(node@, rel) == 1 + visible_count_seq(
                            node@.children.take(child_index as int),
                        ) + rel_index(child, rel0));
                        assert(rel_index(node@, rel) == target_index - *old(current_index));
                    }
                    return Some(found_path);
                }
                proof {
                    assert(node@.children.take(child_index + 1) =~= node@.children.take(
                        child_index as int,
                    ).push(node@.children[child_index as int]));
                    lemma_visible_count_seq_push(
                        node@.children.take(child_index as int),
                        node@.children[child_index as int],
                    );
                }
                child_index = child_index + 1;
            }
            proof {
                assert(node@.children.take(node@.children.len() as int) =~= node@.children);
            }
            None
        } else {
            None
        }
    }

    /// Get the path to the node at the given flattened index.
    ///
    /// Returns `None` exactly when the index is out of range of the visible
    /// rows; otherwise the returned path addresses a visible node whose row
    /// position is the given index.
    pub fn get_node_path_at_index(&self, index: usize) -> (r: Option<Vec<usize>>)
        ensures
            match r {
                Some(p) => path_visible(self.tree(), path_view(p@)) && path_index(
                    self.tree(),
                    path_view(p@),
                ) == index,
                None => index >= visible_count_seq(self.tree()),
            },
    {
        let mut current_index: usize = 0;
        let mut root_index: usize = 0;
        proof {
            assert(self.tree().take(0) =~= Seq::<TreeNodeView>::empty());
            assert(visible_count_seq(Seq::<TreeNodeView>::empty()) == 0);
            crate::models::lemma_tree_seq_view_index(self.tree_data@);
        }
        while root_index < self.tree_data.len()
            invariant
                root_index <= self.tree_data.len(),
                self.tree().len() == self.tree_data@.len(),
                forall|k: int|
                    0 <= k < self.tree_data@.len() ==> #[trigger] self.tree()[k]
                        == self.tree_data@[k]@,
                current_index == visible_count_seq(self.tree().take(root_index as int)),
                current_index <= index,
            decreases self.tree_data.len() - root_index,
        {
            let mut root_path: Vec<usize> = Vec::new();
            root_path.push(root_index);
            let ghost cur_before = current_index;
            let found = self.find_node_path_recursive(
                &self.tree_data[root_index],
                index,
                &mut current_index,
                root_path,
            );
            if let Some(found_path) = found {
                proof {
                    let root = self.tree()[root_index as int];
                    let rel0 = choose|rel: Seq<int>|
                        #![auto]
                        rel_visible(root, rel) && path_view(found_path@) == path_view(root_path@)
                            + rel && rel_index(root, rel) == index - cur_before;
                    let p = path_view(found_path@);
                    assert(path_view(root_path@) =~= seq![root_index as int]);
                    assert(p =~= seq![root_index as int] + rel0);
                    assert(p[0] == root_index as int);
                    assert(p.drop_first() =~= rel0);
                    assert(path_visible(self.tree(), p));
                    assert(path_index(self.tree(), p) == index);
                }
                return Some(found_path);
            }
            proof {
                assert(self.tree().take(root_index + 1) =~= self.tree().take(
                    root_index as int,
                ).push(self.tree()[root_index as int]));
                lemma_visible_count_seq_push(
                    self.tree().take(root_index as int),
                    self.tree()[root_index as int],
                );
            }
            root_index = root_index + 1;
        }
        proof {
            assert(self.tree().take(self.tree().len() as int) =~= self.tree());
        }
        None
    }
}



/// Updating one slot of a node vector updates the same slot of its view.
pub proof fn lemma_tree_seq_view_update(nodes: Seq<TreeNode>, i: int, x: TreeNode)
    requires
        0 <= i < nodes.len(),
    ensures
        tree_seq_view(nodes.update(i, x)) == tree_seq_view(nodes).update(i, x@),
{
    crate::models::lemma_tree_seq_view_index(nodes);
    crate::models::lemma_tree_seq_view_index(nodes.update(i, x));
    assert(tree_seq_view(nodes.update(i, x)) =~= tree_seq_view(nodes).update(i, x@));
}

/// A node to swap into a vector while one of its slots is worked on.
fn placeholder_node() -> TreeNode {
    TreeNode {
        name: String::new(),
        node_type: TreeNodeType::Project(
            crate::models::Project {
                id: String::new(),
                name: String::new(),
                key: String::new(),
                description: None,
                project_type: String::new(),
            },
        ),
        expanded: false,
        children: Vec::new(),
        selected: false,
    }
}

/// Set the expansion flag of the node the path's tail addresses below a node.
fn set_expanded_in_node(node: &mut TreeNode, path: &Vec<usize>, pos: usize, expanded: bool)
    requires
        pos <= path@.len(),
    ensures
        final(node)@ == rel_set_expanded(old(node)@, path_view(path@).skip(pos as int), expanded),
    decreases path@.len() - pos,
{
    let ghost rel = path_view(path@).skip(pos as int);
    if pos == path.len() {
        node.expanded = expanded;
        proof {
            assert(rel =~= Seq::<int>::empty());
            assert(node@ =~= rel_set_expanded(old(node)@, rel, expanded));
        }
        return ;
    }
    let idx = path[pos];
    proof {
        crate::models::lemma_tree_seq_view_index(node.children@);
        assert(rel[0] == idx as int);
    }
    if idx < node.children.len() {
        let mut tmp = placeholder_node();
        node.children.set_and_swap(idx, &mut tmp);
        set_expanded_in_node(&mut tmp, path, pos + 1, expanded);
        let ghost new_child = tmp;
        node.children.set_and_swap(idx, &mut tmp);
        proof {
            assert(node.children@ =~= old(node).children@.update(idx as int, new_child));
            lemma_tree_seq_view_update(old(node).children@, idx as int, new_child);
            assert(rel.drop_first() =~= path_view(path@).skip(pos as int + 1));
            assert(node@ =~= rel_set_expanded(old(node)@, rel, expanded));
        }
    } else {
        proof {
            assert(node@ =~= rel_set_expanded(old(node)@, rel, expanded));
        }
    }
}

/// Set the selection flag of the node the path's tail addresses below a node.
fn set_selected_in_node(node: &mut TreeNode, path: &Vec<usize>, pos: usize, selected: bool)
    requires
        pos <= path@.len(),
    ensures
        final(node)@ == rel_set_selected(old(node)@, path_view(path@).skip(pos as int), selected),
    decreases path@.len() - pos,
{
    let ghost rel = path_view(path@).skip(pos as int);
    if pos == path.len() {
        node.selected = selected;
        proof {
            assert(rel =~= Seq::<int>::empty());
            assert(node@ =~= rel_set_selected(old(node)@, rel, selected));
        }
        return ;
    }
    let idx = path[pos];
    proof {
        crate::models::lemma_tree_seq_view_index(node.children@);
        assert(rel[0] == idx as int);
    }
    if idx < node.children.len() {
        let mut tmp = placeholder_node();
        node.children.set_and_swap(idx, &mut tmp);
        set_selected_in_node(&mut tmp, path, pos + 1, selected);
        let ghost new_child = tmp;
        node.children.set_and_swap(idx, &mut tmp);
        proof {
            assert(node.children@ =~= old(node).children@.update(idx as int, new_child));
            lemma_tree_seq_view_update(old(node).children@, idx as int, new_child);
            assert(rel.drop_first() =~= path_view(path@).skip(pos as int + 1));
            assert(node@ =~= rel_set_selected(old(node)@, rel, selected));
        }
    } else {
        proof {
            assert(node@ =~= rel_set_selected(old(node)@, rel, selected));
        }
    }
}

impl TreeNavigationManager {
    /// Set expansion state of a node at the given path; out-of-range paths
    /// are a no-op.
    pub fn set_node_expanded(&mut self, path: &Vec<usize>, expanded: bool)
        ensures
            final(self).tree() == set_expanded_seq(old(self).tree(), path_view(path@), expanded),
            final(self).tree_selection == old(self).tree_selection,
            final(self).navigation_context == old(self).navigation_context,
            old(self).wf() ==> final(self).wf(),
    {
        proof {
            lemma_set_expanded_seq_height(old(self).tree(), path_view(path@), expanded);
        }
        if path.is_empty() {
            return ;
        }
        let root = path[0];
        proof {
            crate::models::lemma_tree_seq_view_index(self.tree_data@);
        }
        if root < self.tree_data.len() {
            let mut tmp = placeholder_node();
            self.tree_data.set_and_swap(root, &mut tmp);
            set_expanded_in_node(&mut tmp, path, 1, expanded);
            let ghost new_root = tmp;
            self.tree_data.set_and_swap(root, &mut tmp);
            proof {
                assert(self.tree_data@ =~= old(self).tree_data@.update(root as int, new_root));
                lemma_tree_seq_view_update(old(self).tree_data@, root as int, new_root);
                assert(path_view(path@).skip(1) =~= path_view(path@).drop_first());
                assert(self.tree() =~= set_expanded_seq(
                    old(self).tree(),
                    path_view(path@),
                    expanded,
                ));
            }
        }
    }

    /// Set selection state of a node at the given path; out-of-range paths
    /// are a no-op.
    pub fn set_node_selected(&mut self, path: &Vec<usize>, selected: bool)
        ensures
            final(self).tree() == set_selected_seq(old(self).tree(), path_view(path@), selected),
            final(self).tree_selection == old(self).tree_selection,
            final(self).navigation_context == old(self).navigation_context,
            old(self).wf() ==> final(self).wf(),
    {
        proof {
            lemma_set_selected_seq_height(old(self).tree(), path_view(path@), selected);
        }
        if path.is_empty() {
            return ;
        }
        let root = path[0];
        proof {
            crate::models::lemma_tree_seq_view_index(self.tree_data@);
        }
        if root < self.tree_data.len() {
            let mut tmp = placeholder_node();
            self.tree_data.set_and_swap(root, &mut tmp);
            set_selected_in_node(&mut tmp, path, 1, selected);
            let ghost new_root = tmp;
            self.tree_data.set_and_swap(root, &mut tmp);
            proof {
                assert(self.tree_data@ =~= old(self).tree_data@.update(root as int, new_root));
                lemma_tree_seq_view_update(old(self).tree_data@, root as int, new_root);
                assert(path_view(path@).skip(1) =~= path_view(path@).drop_first());
                assert(self.tree() =~= set_selected_seq(
                    old(self).tree(),
                    path_view(path@),
                    selected,
                ));
            }
        }
    }

    /// Recursively clear selections below a node.
    #[verifier::loop_isolation(false)]
    pub fn clear_selections_recursive(node: &mut TreeNode)
        ensures
            final(node)@ == clear_node(old(node)@),
        decreases spec_height(node@),
    {
        node.selected = false;
        let ghost orig_children = node.children@;
        let mut i: usize = 0;
        proof {
            crate::models::lemma_tree_seq_view_index(orig_children);
        }
        while i < node.children.len()
            invariant
                i <= node.children.len(),
                node.children@.len() == orig_children.len(),
                node.name == old(node).name,
                node.node_type == old(node).node_type,
                node.expanded == old(node).expanded,
                !node.selected,
                forall|k: int|
                    0 <= k < i ==> (#[trigger] node.children@[k])@ == clear_node(
                        orig_children[k]@,
                    ),
                forall|k: int|
                    i <= k < orig_children.len() ==> #[trigger] node.children@[k]
                        == orig_children[k],
            decreases node.children.len() - i,
        {
            let mut tmp = placeholder_node();
            node.children.set_and_swap(i, &mut tmp);
            proof {
                assert(tmp@ == old(node)@.children[i as int]);
                lemma_height_child(old(node)@.children, i as int);
                assert(spec_height(tmp@) < spec_height(old(node)@));
            }
            Self::clear_selections_recursive(&mut tmp);
            node.children.set_and_swap(i, &mut tmp);
            i = i + 1;
        }
        proof {
            crate::models::lemma_tree_seq_view_index(node.children@);
            lemma_clear_seq_index(tree_seq_view(orig_children));
            assert(node@.children =~= clear_seq(tree_seq_view(orig_children)));
            assert(node@ =~= clear_node(old(node)@));
        }
    }

    /// Clear all selections in the tree.
    #[verifier::loop_isolation(false)]
    pub fn clear_all_selections(&mut self)
        ensures
            final(self).tree() == clear_seq(old(self).tree()),
            final(self).tree_selection == old(self).tree_selection,
            final(self).navigation_context == old(self).navigation_context,
            old(self).wf() ==> final(self).wf(),
    {
        proof {
            lemma_clear_seq_height(old(self).tree());
            crate::models::lemma_tree_seq_view_index(old(self).tree_data@);
        }
        let ghost orig = self.tree_data@;
        let mut i: usize = 0;
        while i < self.tree_data.len()
            invariant
                i <= self.tree_data.len(),
                self.tree_data@.len() == orig.len(),
                self.tree_selection == old(self).tree_selection,
                self.navigation_context == old(self).navigation_context,
                forall|k: int|
                    0 <= k < i ==> (#[trigger] self.tree_data@[k])@ == clear_node(orig[k]@),
                forall|k: int|
                    i <= k < orig.len() ==> #[trigger] self.tree_data@[k] == orig[k],
            decreases self.tree_data.len() - i,
        {
            let mut tmp = placeholder_node();
            self.tree_data.set_and_swap(i, &mut tmp);
            Self::clear_selections_recursive(&mut tmp);
            self.tree_data.set_and_swap(i, &mut tmp);
            i = i + 1;
        }
        proof {
            crate::models::lemma_tree_seq_view_index(self.tree_data@);
            crate::models::lemma_tree_seq_view_index(orig);
            lemma_clear_seq_index(tree_seq_view(orig));
            assert(final(self).tree() =~= clear_seq(old(self).tree()));
        }
    }

    /// Expand the node the cursor stands on.
    pub fn expand_current_node(&mut self)
        ensures
            expand_outcome(*old(self), *final(self), true),
            old(self).wf() ==> final(self).wf(),
    {
        let found = self.get_node_path_at_index(self.tree_selection);
        if let Some(node_path) = found {
            proof {
                lemma_flatten_path_index(self.tree(), path_view(node_path@));
            }
            self.set_node_expanded(&node_path, true);
        }
    }

    /// Collapse the node the cursor stands on.
    pub fn collapse_current_node(&mut self)
        ensures
            expand_outcome(*old(self), *final(self), false),
            old(self).wf() ==> final(self).wf(),
    {
        let found = self.get_node_path_at_index(self.tree_selection);
        if let Some(node_path) = found {
            proof {
                lemma_flatten_path_index(self.tree(), path_view(node_path@));
            }
            self.set_node_expanded(&node_path, false);
        }
    }
}


/// What expanding or collapsing the row under the cursor does: a cursor on a
/// visible row addresses a path whose node's flag is set; a cursor past the
/// rows changes nothing; cursor and context never move.
pub open spec fn expand_outcome(
    pre: TreeNavigationManager,
    post: TreeNavigationManager,
    e: bool,
) -> bool {
    &&& post.tree_selection == pre.tree_selection
    &&& post.navigation_context == pre.navigation_context
    &&& pre.tree_selection >= visible_count_seq(pre.tree()) ==> post.tree() == pre.tree()
    &&& pre.tree_selection < visible_count_seq(pre.tree()) ==> exists|path: Seq<int>|
        #![auto]
        path_visible(pre.tree(), path) && path_index(pre.tree(), path) == pre.tree_selection
            && post.tree() == set_expanded_seq(pre.tree(), path, e)
}

/// What selecting the row under the cursor does: a cursor on a visible row
/// addresses a path whose selection effect is applied, leaving exactly one
/// node selected; a cursor past the rows changes nothing.
pub open spec fn select_outcome(
    pre: TreeNavigationManager,
    post: TreeNavigationManager,
    dv: Option<AtlassianDomainView>,
) -> bool {
    &&& post.tree_selection == pre.tree_selection
    &&& pre.tree_selection >= visible_count_seq(pre.tree()) ==> post.tree() == pre.tree()
        && post.navigation_context == pre.navigation_context
    &&& pre.tree_selection < visible_count_seq(pre.tree()) ==> exists|path: Seq<int>|
        #![auto]
        path_visible(pre.tree(), path) && path_index(pre.tree(), path) == pre.tree_selection
            && post.tree() == spec_select(pre.tree(), pre.navigation_context@, path, dv).0
            && post.navigation_context@ == spec_select(
            pre.tree(),
            pre.navigation_context@,
            path,
            dv,
        ).1
    &&& pre.tree_selection < visible_count_seq(pre.tree()) ==> selected_count_seq(post.tree())
        == 1
}

/// What selecting the row under the cursor together with its root does: a
/// leaf's root is expanded first, then both are selected; a root path behaves
/// as a plain selection.
pub open spec fn select_with_parents_outcome(
    pre: TreeNavigationManager,
    post: TreeNavigationManager,
    dv: Option<AtlassianDomainView>,
) -> bool {
    &&& post.tree_selection == pre.tree_selection
    &&& pre.tree_selection >= visible_count_seq(pre.tree()) ==> post.tree() == pre.tree()
        && post.navigation_context == pre.navigation_context
    &&& pre.tree_selection < visible_count_seq(pre.tree()) ==> exists|path: Seq<int>|
        #![auto]
        path_visible(pre.tree(), path) && path_index(pre.tree(), path) == pre.tree_selection && ({
            let expanded_tree = if path.len() > 1 {
                set_expanded_seq(pre.tree(), seq![path[0]], true)
            } else {
                pre.tree()
            };
            let r = if path.len() > 1 {
                spec_select_with_parents(expanded_tree, pre.navigation_context@, path, dv)
            } else {
                spec_select(expanded_tree, pre.navigation_context@, path, dv)
            };
            post.tree() == r.0 && post.navigation_context@ == r.1 && selected_count_seq(
                post.tree(),
            ) == (if path.len() == 1 {
                1int
            } else {
                2int
            })
        })
}

/// The cleared forest, elementwise.
pub proof fn lemma_clear_seq_index(nodes: Seq<TreeNodeView>)
    ensures
        clear_seq(nodes).len() == nodes.len(),
        forall|i: int|
            0 <= i < nodes.len() ==> #[trigger] clear_seq(nodes)[i] == clear_node(nodes[i]),
    decreases nodes,
{
    if nodes.len() > 0 {
        lemma_clear_seq_index(nodes.drop_first());
        assert forall|i: int| 0 <= i < nodes.len() implies #[trigger] clear_seq(nodes)[i]
            == clear_node(nodes[i]) by {
            if i > 0 {
                assert(clear_seq(nodes)[i] == clear_seq(nodes.drop_first())[i - 1]);
            }
        }
    }
}



/// The view of an optional borrowed domain.
pub open spec fn opt_domain_view(d: Option<&AtlassianDomain>) -> Option<AtlassianDomainView> {
    match d {
        Some(x) => Some(x@),
        None => None,
    }
}

/// Expanding a root alone leaves every deeper node as it was.
pub proof fn lemma_set_expanded_root_keeps_descendants(
    nodes: Seq<TreeNodeView>,
    k: int,
    path: Seq<int>,
)
    requires
        0 <= k < nodes.len(),
        path.len() > 1,
        path[0] == k,
    ensures
        path_in_tree(set_expanded_seq(nodes, seq![k], true), path) == path_in_tree(nodes, path),
        path_in_tree(nodes, path) ==> path_node_at(set_expanded_seq(nodes, seq![k], true), path)
            == path_node_at(nodes, path),
{
    let t = set_expanded_seq(nodes, seq![k], true);
    assert(seq![k].drop_first() =~= Seq::<int>::empty());
    assert(t == nodes.update(k, rel_set_expanded(nodes[k], Seq::<int>::empty(), true)));
    assert(t[k].children == nodes[k].children);
    let rel = path.drop_first();
    assert(rel.len() > 0);
    assert(rel_in_node(t[k], rel) == rel_in_node(nodes[k], rel));
    if rel_in_node(nodes[k], rel) {
        assert(rel_node_at(t[k], rel) == rel_node_at(nodes[k], rel));
    }
}

/// The tree node a project stands as: a leaf.
pub open spec fn project_node_view(pr: ProjectView) -> TreeNodeView {
    TreeNodeView {
        name: pr.name,
        node_type: TreeNodeTypeView::Project(pr),
        expanded: false,
        children: Seq::empty(),
        selected: false,
    }
}

/// The leaves the projects stand as, in order.
pub open spec fn project_nodes(prs: Seq<ProjectView>) -> Seq<TreeNodeView> {
    prs.map_values(|p: ProjectView| project_node_view(p))
}

/// The tree node a product stands as: its projects as children, expanded
/// from the start only for a Confluence product that has projects.
pub open spec fn product_node_view(p: AtlassianProductView) -> TreeNodeView {
    TreeNodeView {
        name: p.name,
        node_type: TreeNodeTypeView::Product(p),
        expanded: p.product_type == ProductType::Confluence && p.projects.len() > 0,
        children: project_nodes(p.projects),
        selected: false,
    }
}

/// The roots the products stand as, in order.
pub open spec fn product_nodes(ps: Seq<AtlassianProductView>) -> Seq<TreeNodeView> {
    ps.map_values(|p: AtlassianProductView| product_node_view(p))
}

/// A forest whose every node's height is bounded is bounded.
pub proof fn lemma_height_seq_bound(nodes: Seq<TreeNodeView>, h: nat)
    requires
        forall|i: int| 0 <= i < nodes.len() ==> spec_height(#[trigger] nodes[i]) <= h,
    ensures
        spec_height_seq(nodes) <= h,
    decreases nodes,
{
    if nodes.len() > 0 {
        lemma_height_seq_bound(nodes.drop_first(), h);
    }
}

impl TreeNavigationManager {
    /// Build tree data structure from domain: one root per product, its
    /// projects as leaf children.
    pub fn build_tree_data(&mut self, domain: AtlassianDomain)
        ensures
            final(self).tree() == product_nodes(domain@.products),
            final(self).tree_selection == old(self).tree_selection,
            final(self).navigation_context == old(self).navigation_context,
            final(self).wf(),
    {
        let mut tree_nodes: Vec<TreeNode> = Vec::new();
        let mut i: usize = 0;
        while i < domain.products.len()
            invariant
                i <= domain.products.len(),
                tree_nodes@.len() == i,
                forall|k: int|
                    0 <= k < i ==> (#[trigger] tree_nodes@[k])@ == product_node_view(
                        domain.products@[k]@,
                    ),
                forall|k: int|
                    0 <= k < i ==> spec_height((#[trigger] tree_nodes@[k])@) <= 2,
            decreases domain.products.len() - i,
        {
            let product = &domain.products[i];
            let mut product_node = TreeNode::new_product(product.clone());

            if product.product_type == ProductType::Confluence && !product.projects.is_empty() {
                product_node.expanded = true;
            }

            let mut j: usize = 0;
            while j < product.projects.len()
                invariant
                    j <= product.projects.len(),
                    product_node.children@.len() == j,
                    product_node.name@ == product@.name,
                    product_node.node_type@ == TreeNodeTypeView::Product(product@),
                    product_node.expanded == (product@.product_type == ProductType::Confluence
                        && product@.projects.len() > 0),
                    !product_node.selected,
                    forall|k: int|
                        0 <= k < j ==> (#[trigger] product_node.children@[k])@
                            == project_node_view(product@.projects[k]),
                decreases product.projects.len() - j,
            {
                let project_node = TreeNode::new_project(product.projects[j].clone());
                product_node.children.push(project_node);
                j = j + 1;
            }

            proof {
                crate::models::lemma_tree_seq_view_index(product_node.children@);
                assert(tree_seq_view(product_node.children@) =~= project_nodes(
                    product@.projects,
                ));
                assert(product_node@ =~= product_node_view(product@));
                lemma_height_seq_bound(project_nodes(product@.projects), 1);
            }
            tree_nodes.push(product_node);
            i = i + 1;
        }

        self.tree_data = tree_nodes;
        proof {
            crate::models::lemma_tree_seq_view_index(self.tree_data@);
            assert(final(self).tree() =~= product_nodes(domain@.products));
            lemma_height_seq_bound(final(self).tree(), 2);
        }
    }

    /// Update navigation context based on the selected node path: the root
    /// supplies the product, the walk down the path supplies the project, and
    /// the addressed node becomes the only selected node.
    #[verifier::loop_isolation(false)]
    pub fn update_navigation_context(&mut self, path: &Vec<usize>, domain: Option<&AtlassianDomain>)
        ensures
            final(self).tree_selection == old(self).tree_selection,
            final(self).tree() == spec_select(
                old(self).tree(),
                old(self).navigation_context@,
                path_view(path@),
                opt_domain_view(domain),
            ).0,
            final(self).navigation_context@ == spec_select(
                old(self).tree(),
                old(self).navigation_context@,
                path_view(path@),
                opt_domain_view(domain),
            ).1,
            old(self).wf() ==> final(self).wf(),
    {
        proof {
            crate::models::lemma_tree_seq_view_index(self.tree_data@);
        }
        if path.is_empty() {
            return ;
        }
        let root_index = path[0];
        proof {
            assert(path_view(path@)[0] == root_index as int);
        }
        if root_index >= self.tree_data.len() {
            return ;
        }
        let ghost old_ctx = self.navigation_context@;
        let ghost rootv = self.tree()[root_index as int];
        let ghost rel = path_view(path@).drop_first();

        if let Some(d) = domain {
            self.navigation_context.domain = Some(d.clone());
        }

        let root_node = &self.tree_data[root_index];
        if let TreeNodeType::Product(product) = &root_node.node_type {
            self.navigation_context.product = Some(product.clone());
            self.navigation_context.project = None;
        }
        let ghost init = self.navigation_context@.project;

        let mut current: &TreeNode = root_node;
        let mut i: usize = 1;
        while i < path.len()
            invariant
                1 <= i <= path@.len(),
                walk_project(rootv, rel, init) == walk_project(
                    current@,
                    path_view(path@).skip(i as int),
                    self.navigation_context@.project,
                ),
                self.navigation_context@.domain == spec_select(
                    old(self).tree(),
                    old_ctx,
                    path_view(path@),
                    opt_domain_view(domain),
                ).1.domain,
                self.navigation_context@.product == spec_select(
                    old(self).tree(),
                    old_ctx,
                    path_view(path@),
                    opt_domain_view(domain),
                ).1.product,
                self.tree_data == old(self).tree_data,
                self.tree_selection == old(self).tree_selection,
            decreases path@.len() - i,
        {
            let idx = path[i];
            proof {
                crate::models::lemma_tree_seq_view_index(current.children@);
                assert(path_view(path@).skip(i as int)[0] == idx as int);
                assert(path_view(path@).skip(i as int).drop_first() =~= path_view(path@).skip(
                    i as int + 1,
                ));
            }
            if idx < current.children.len() {
                current = &current.children[idx];
                if let TreeNodeType::Project(project) = &current.node_type {
                    self.navigation_context.project = Some(project.clone());
                }
            }
            i = i + 1;
        }
        proof {
            assert(path_view(path@).skip(path@.len() as int) =~= Seq::<int>::empty());
            assert(self.navigation_context@.project == walk_project(rootv, rel, init));
        }

        self.clear_all_selections();
        self.set_node_selected(path, true);
        proof {
            assert(final(self).navigation_context@ =~= spec_select(
                old(self).tree(),
                old_ctx,
                path_view(path@),
                opt_domain_view(domain),
            ).1);
        }
    }

    /// Update navigation context with automatic parent selection for child
    /// nodes: both the root product and the addressed node end up selected,
    /// and a project seen so far is kept rather than reset.
    #[verifier::loop_isolation(false)]
    pub fn update_navigation_context_with_parents(
        &mut self,
        path: &Vec<usize>,
        domain: Option<&AtlassianDomain>,
    )
        ensures
            final(self).tree_selection == old(self).tree_selection,
            final(self).tree() == spec_select_with_parents(
                old(self).tree(),
                old(self).navigation_context@,
                path_view(path@),
                opt_domain_view(domain),
            ).0,
            final(self).navigation_context@ == spec_select_with_parents(
                old(self).tree(),
                old(self).navigation_context@,
                path_view(path@),
                opt_domain_view(domain),
            ).1,
            old(self).wf() ==> final(self).wf(),
    {
        proof {
            crate::models::lemma_tree_seq_view_index(self.tree_data@);
        }
        if path.is_empty() {
            return ;
        }
        let root_index = path[0];
        proof {
            assert(path_view(path@)[0] == root_index as int);
        }
        if root_index >= self.tree_data.len() {
            return ;
        }
        let ghost old_ctx = self.navigation_context@;
        let ghost rootv = self.tree()[root_index as int];
        let ghost rel = path_view(path@).drop_first();

        if let Some(d) = domain {
            self.navigation_context.domain = Some(d.clone());
        }

        let parent_node = &self.tree_data[root_index];
        if let TreeNodeType::Product(product) = &parent_node.node_type {
            self.navigation_context.product = Some(product.clone());
        }
        let ghost init = self.navigation_context@.project;

        let mut current: &TreeNode = parent_node;
        let mut i: usize = 1;
        while i < path.len()
            invariant
                1 <= i <= path@.len(),
                walk_project(rootv, rel, init) == walk_project(
                    current@,
                    path_view(path@).skip(i as int),
                    self.navigation_context@.project,
                ),
                self.navigation_context@.domain == spec_select_with_parents(
                    old(self).tree(),
                    old_ctx,
                    path_view(path@),
                    opt_domain_view(domain),
                ).1.domain,
                self.navigation_context@.product == spec_select_with_parents(
                    old(self).tree(),
                    old_ctx,
                    path_view(path@),
                    opt_domain_view(domain),
                ).1.product,
                self.tree_data == old(self).tree_data,
                self.tree_selection == old(self).tree_selection,
            decreases path@.len() - i,
        {
            let idx = path[i];
            proof {
                crate::models::lemma_tree_seq_view_index(current.children@);
                assert(path_view(path@).skip(i as int)[0] == idx as int);
                assert(path_view(path@).skip(i as int).drop_first() =~= path_view(path@).skip(
                    i as int + 1,
                ));
            }
            if idx < current.children.len() {
                current = &current.children[idx];
                if let TreeNodeType::Project(project) = &current.node_type {
                    self.navigation_context.project = Some(project.clone());
                }
            }
            i = i + 1;
        }
        proof {
            assert(path_view(path@).skip(path@.len() as int) =~= Seq::<int>::empty());
            assert(self.navigation_context@.project == walk_project(rootv, rel, init));
        }

        self.clear_all_selections();

        let mut parent_path: Vec<usize> = Vec::new();
        parent_path.push(root_index);
        self.set_node_selected(&parent_path, true);
        proof {
            assert(path_view(parent_path@) =~= seq![root_index as int]);
        }

        self.set_node_selected(path, true);
        proof {
            assert(final(self).navigation_context@ =~= spec_select_with_parents(
                old(self).tree(),
                old_ctx,
                path_view(path@),
                opt_domain_view(domain),
            ).1);
        }
    }

    /// Select the tree node the cursor stands on: resolve the cursor's row to
    /// a path and re-resolve the navigation context from it. A cursor past
    /// the visible rows changes nothing.
    pub fn select_current_node(&mut self, domain: Option<&AtlassianDomain>)
        requires
            old(self).wf(),
        ensures
            final(self).wf(),
            select_outcome(*old(self), *final(self), opt_domain_view(domain)),
    {
        let tree_items = self.get_tree_items();
        if self.tree_selection < tree_items.len() {
            let found = self.get_node_path_at_index(self.tree_selection);
            if let Some(node_path) = found {
                let ghost p = path_view(node_path@);
                self.update_navigation_context(&node_path, domain);
                proof {
                    assert(p.len() > 0 && 0 <= p[0] < old(self).tree().len());
                    lemma_visible_is_in_tree(old(self).tree()[p[0]], p.drop_first());
                    lemma_select_unique_selection(
                        old(self).tree(),
                        old(self).navigation_context@,
                        p,
                        opt_domain_view(domain),
                    );
                }
            }
        }
    }

    /// Select the tree node the cursor stands on; when it is a child, also
    /// expand and select its root product, so that the context is complete
    /// whenever the path ends in a project.
    pub fn select_current_node_with_parents(&mut self, domain: Option<&AtlassianDomain>)
        requires
            old(self).wf(),
        ensures
            final(self).wf(),
            select_with_parents_outcome(*old(self), *final(self), opt_domain_view(domain)),
    {
        let tree_items = self.get_tree_items();
        if self.tree_selection < tree_items.len() {
            let found = self.get_node_path_at_index(self.tree_selection);
            if let Some(node_path) = found {
                let ghost p = path_view(node_path@);
                proof {
                    assert(p.len() > 0 && 0 <= p[0] < old(self).tree().len());
                    lemma_visible_is_in_tree(old(self).tree()[p[0]], p.drop_first());
                }
                if node_path.len() > 1 {
                    let mut parent_path: Vec<usize> = Vec::new();
                    parent_path.push(node_path[0]);
                    self.set_node_expanded(&parent_path, true);
                    proof {
                        assert(path_view(parent_path@) =~= seq![p[0]]);
                        lemma_set_expanded_root_keeps_descendants(old(self).tree(), p[0], p);
                    }
                    self.update_navigation_context_with_parents(&node_path, domain);
                    proof {
                        lemma_select_with_parents_selection(
                            set_expanded_seq(old(self).tree(), seq![p[0]], true),
                            old(self).navigation_context@,
                            p,
                            opt_domain_view(domain),
                        );
                    }
                } else {
                    self.update_navigation_context(&node_path, domain);
                    proof {
                        lemma_select_unique_selection(
                            old(self).tree(),
                            old(self).navigation_context@,
                            p,
                            opt_domain_view(domain),
                        );
                    }
                }
            }
        }
    }
}


} // verus!
