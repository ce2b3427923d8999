//! The navigation tree: its nodes, the rows it shows, and its selection.

use vstd::prelude::*;

verus! {

/// What a tree node stands for.
#[derive(Debug, Clone, Copy, PartialEq, Eq, Structural)]
pub enum TreeNodeType {
    Overview,
    LayoutMap,
    ElfHeader,
    ProgramHeaders,
    SectionHeaders,
    SectionsGroup,
    SectionHeader { index: usize },
    SectionBody { index: usize },
    SegmentsGroup,
    Segment { index: usize },
    SymbolsGroup,
    Symbol { index: usize },
}

/// One node of the navigation tree.
#[derive(Debug)]
pub struct TreeNode {
    pub label: String,
    pub node_type: TreeNodeType,
    pub depth: u8,
    pub children: Vec<TreeNode>,
    pub expanded: bool,
}

/// The abstract value of a tree node.
pub struct TreeNodeView {
    pub label: Seq<char>,
    pub node_type: TreeNodeType,
    pub depth: u8,
    pub children: Seq<TreeNodeView>,
    pub expanded: bool,
}

/// The abstract value of a tree node.
pub open spec fn node_view(n: TreeNode) -> TreeNodeView
    decreases n, 1int,
{
    TreeNodeView {
        label: n.label@,
        node_type: n.node_type,
        depth: n.depth,
        children: nodes_view(n.children@),
        expanded: n.expanded,
    }
}

/// The abstract values of a list of tree nodes.
pub open spec fn nodes_view(s: Seq<TreeNode>) -> Seq<TreeNodeView>
    decreases s, 0int,
{
    if s.len() == 0 {
        Seq::empty()
    } else {
        nodes_view(s.drop_last()).push(node_view(s.last()))
    }
}


/// One shown row of the tree.
#[derive(Debug, Clone)]
pub struct TreeRow {
    pub label: String,
    pub node_type: TreeNodeType,
    pub depth: u8,
    pub has_children: bool,
    pub expanded: bool,
    /// The node's position among its siblings.
    pub index: usize,
}

/// The abstract value of a shown row.
pub struct RowView {
    pub label: Seq<char>,
    pub node_type: TreeNodeType,
    pub depth: int,
    pub has_children: bool,
    pub expanded: bool,
    pub index: usize,
}

impl View for TreeRow {
    type V = RowView;

    open spec fn view(&self) -> RowView {
        RowView {
            label: self.label@,
            node_type: self.node_type,
            depth: self.depth as int,
            has_children: self.has_children,
            expanded: self.expanded,
            index: self.index,
        }
    }
}

/// The abstract values of a list of rows.
pub open spec fn rows_view(v: Seq<TreeRow>) -> Seq<RowView> {
    v.map_values(|r: TreeRow| r@)
}

/// The rows shown for `nodes` from the `i`-th on, at nesting `depth`: each
/// node, followed by the rows of its children when it is expanded.
pub open spec fn rows_from(nodes: Seq<TreeNodeView>, i: int, depth: int) -> Seq<RowView>
    decreases nodes, nodes.len() - i,
{
    if i < 0 || i >= nodes.len() {
        Seq::empty()
    } else {
        let n = nodes[i];
        let row = RowView {
            label: n.label,
            node_type: n.node_type,
            depth,
            has_children: n.children.len() > 0,
            expanded: n.expanded,
            index: i as usize,
        };
        let sub = if n.expanded {
            proof {
                assert(decreases_to!(nodes => nodes[i]));
            }
            rows_from(n.children, 0, depth + 1)
        } else {
            Seq::empty()
        };
        seq![row] + sub + rows_from(nodes, i + 1, depth)
    }
}

/// The rows that the tree shows.
pub open spec fn rows(nodes: Seq<TreeNodeView>) -> Seq<RowView> {
    rows_from(nodes, 0, 0)
}

/// A node whose children lie at nesting `depth + 1` keeps that nesting within
/// 255, and so on down.
pub open spec fn node_depth_ok(n: TreeNodeView, depth: int) -> bool
    decreases n, 1int,
{
    n.children.len() > 0 ==> depth < 255 && depth_ok_from(n.children, 0, depth + 1)
}

/// Nodes from the `i`-th on, at nesting `depth`, nest no deeper than 255.
pub open spec fn depth_ok_from(nodes: Seq<TreeNodeView>, i: int, depth: int) -> bool
    decreases nodes, 0int, nodes.len() - i,
{
    if i < 0 || i >= nodes.len() {
        true
    } else {
        proof {
            assert(decreases_to!(nodes => nodes[i]));
        }
        node_depth_ok(nodes[i], depth) && depth_ok_from(nodes, i + 1, depth)
    }
}


/// The view of a node list has one view per node, in order.
pub proof fn lemma_nodes_view(s: Seq<TreeNode>)
    ensures
        nodes_view(s).len() == s.len(),
        forall|i: int| 0 <= i < s.len() ==> #[trigger] nodes_view(s)[i] == node_view(s[i]),
    decreases s.len(),
{
    if s.len() > 0 {
        lemma_nodes_view(s.drop_last());
        assert forall|i: int| 0 <= i < s.len() implies #[trigger] nodes_view(s)[i] == node_view(s[i]) by {
            if i < s.len() - 1 {
                assert(s.drop_last()[i] == s[i]);
            }
        }
    }
}

/// Nesting within bounds from the `i`-th node on means it for each of them.
pub proof fn lemma_depth_ok_all(nodes: Seq<TreeNodeView>, i: int, depth: int)
    requires
        0 <= i <= nodes.len(),
    ensures
        depth_ok_from(nodes, i, depth) <==> forall|k: int| i <= k < nodes.len() ==> node_depth_ok(#[trigger] nodes[k], depth),
    decreases nodes.len() - i,
{
    if i < nodes.len() {
        lemma_depth_ok_all(nodes, i + 1, depth);
    }
}

fn collect(nodes: &Vec<TreeNode>, depth: u8, out: &mut Vec<TreeRow>)
    requires
        depth_ok_from(nodes_view(nodes@), 0, depth as int),
    ensures
        rows_view(final(out)@) == rows_view(old(out)@) + rows_from(nodes_view(nodes@), 0, depth as int),
    decreases nodes@,
{
    let ghost nv = nodes_view(nodes@);
    let ghost start = rows_view(out@);
    proof {
        lemma_nodes_view(nodes@);
        lemma_depth_ok_all(nv, 0, depth as int);
    }
    let mut i: usize = 0;
    while i < nodes.len()
        invariant
            nv == nodes_view(nodes@),
            nv.len() == nodes@.len(),
            forall|k: int| 0 <= k < nodes@.len() ==> #[trigger] nv[k] == node_view(nodes@[k]),
            forall|k: int| 0 <= k < nv.len() ==> node_depth_ok(#[trigger] nv[k], depth as int),
            i <= nodes.len(),
            rows_view(out@) + rows_from(nv, i as int, depth as int) == start + rows_from(nv, 0, depth as int),
        decreases nodes.len() - i,
    {
        let node = &nodes[i];
        let ghost before = rows_view(out@);
        let row = TreeRow {
            label: node.label.clone(),
            node_type: node.node_type,
            depth,
            has_children: node.children.len() > 0,
            expanded: node.expanded,
            index: i,
        };
        out.push(row);
        assert(rows_view(out@) =~= before.push(row@));
        assert(nv[i as int] == node_view(nodes@[i as int]));
        assert(row@ == rows_from(nv, i as int, depth as int)[0]);
        if node.expanded {
            assert(node_depth_ok(nv[i as int], depth as int));
            if node.children.len() > 0 {
                proof {
                    assert(decreases_to!(nodes@ => nodes@[i as int]));
                    assert(decreases_to!(nodes@[i as int] => nodes@[i as int].children));
                    assert(decreases_to!(nodes@[i as int].children => nodes@[i as int].children@));
                }
                collect(&node.children, depth + 1, out);
            } else {
                assert(rows_from(nodes_view(node.children@), 0, depth + 1) =~= Seq::<RowView>::empty());
            }
        }
        proof {
            let sub = if nv[i as int].expanded {
                rows_from(nv[i as int].children, 0, depth + 1)
            } else {
                Seq::empty()
            };
            assert(rows_from(nv, i as int, depth as int) == seq![row@] + sub + rows_from(nv, i + 1, depth as int));
            assert(rows_view(out@) == before.push(row@) + sub);
            assert(rows_view(out@) + rows_from(nv, i + 1, depth as int) =~= before + rows_from(nv, i as int, depth as int));
        }
        i = i + 1;
    }
}


/// The navigation tree with its shown rows and its selection. `selected` is
/// the highlighted row (the list widget's selection); `flat_list` holds, for
/// each shown row, the node's position among its siblings.
#[derive(Debug)]
pub struct TreeState {
    pub nodes: Vec<TreeNode>,
    pub flat_list: Vec<usize>,
    pub selected: Option<usize>,
    pub selected_node: Option<TreeNodeType>,
}

/// The abstract value of a `TreeState`.
pub struct TreeStateView {
    pub nodes: Seq<TreeNodeView>,
    pub flat_list: Seq<usize>,
    pub selected: Option<usize>,
    pub selected_node: Option<TreeNodeType>,
}

impl View for TreeState {
    type V = TreeStateView;

    open spec fn view(&self) -> TreeStateView {
        TreeStateView {
            nodes: nodes_view(self.nodes@),
            flat_list: self.flat_list@,
            selected: self.selected,
            selected_node: self.selected_node,
        }
    }
}

/// The highlighted row, the first one when none is.
pub open spec fn cursor_row(selected: Option<usize>) -> int {
    match selected {
        Some(k) => k as int,
        None => 0,
    }
}

/// The type of the node on shown row `idx`, if there is such a row.
pub open spec fn row_type(nodes: Seq<TreeNodeView>, idx: int) -> Option<TreeNodeType> {
    if 0 <= idx < rows(nodes).len() {
        Some(rows(nodes)[idx].node_type)
    } else {
        None
    }
}

/// For each shown row, the node's position among its siblings.
pub open spec fn flat_indices(nodes: Seq<TreeNodeView>) -> Seq<usize> {
    rows(nodes).map_values(|r: RowView| r.index)
}

/// The node `n` with its expansion switched.
pub open spec fn flip(n: TreeNodeView) -> TreeNodeView {
    TreeNodeView { expanded: !n.expanded, ..n }
}

/// The node has the given type and label.
pub open spec fn has_key(n: TreeNodeView, ty: TreeNodeType, label: Seq<char>) -> bool {
    n.node_type == ty && n.label == label
}

/// The first child from the `j`-th on with the given type and label, or -1.
pub open spec fn child_hit(children: Seq<TreeNodeView>, ty: TreeNodeType, label: Seq<char>, j: int) -> int
    decreases children.len() - j,
{
    if j < 0 || j >= children.len() {
        -1
    } else if has_key(children[j], ty, label) {
        j
    } else {
        child_hit(children, ty, label, j + 1)
    }
}

/// Where the node with the given type and label is found, searching the
/// top-level nodes from the `i`-th on, each before its children: the
/// top-level position, and the child position or -1 for the top-level node
/// itself; (-1, -1) when not found. Only two levels are searched.
pub open spec fn toggle_hit(nodes: Seq<TreeNodeView>, ty: TreeNodeType, label: Seq<char>, i: int) -> (int, int)
    decreases nodes.len() - i,
{
    if i < 0 || i >= nodes.len() {
        (-1, -1)
    } else if has_key(nodes[i], ty, label) {
        (i, -1)
    } else if child_hit(nodes[i].children, ty, label, 0) >= 0 {
        (i, child_hit(nodes[i].children, ty, label, 0))
    } else {
        toggle_hit(nodes, ty, label, i + 1)
    }
}

/// The nodes with the expansion of the found node switched.
pub open spec fn toggled(nodes: Seq<TreeNodeView>, ty: TreeNodeType, label: Seq<char>) -> Seq<TreeNodeView> {
    let (i, j) = toggle_hit(nodes, ty, label, 0);
    if i < 0 {
        nodes
    } else if j < 0 {
        nodes.update(i, flip(nodes[i]))
    } else {
        nodes.update(i, TreeNodeView { children: nodes[i].children.update(j, flip(nodes[i].children[j])), ..nodes[i] })
    }
}

proof fn lemma_nodes_view_update(s: Seq<TreeNode>, i: int, x: TreeNode)
    requires
        0 <= i < s.len(),
    ensures
        nodes_view(s.update(i, x)) == nodes_view(s).update(i, node_view(x)),
{
    lemma_nodes_view(s);
    lemma_nodes_view(s.update(i, x));
    assert(nodes_view(s.update(i, x)) =~= nodes_view(s).update(i, node_view(x)));
}

proof fn lemma_child_hit(children: Seq<TreeNodeView>, ty: TreeNodeType, label: Seq<char>, j: int)
    requires
        0 <= j <= children.len(),
    ensures
        -1 <= child_hit(children, ty, label, j) < children.len(),
        child_hit(children, ty, label, j) >= 0 ==> j <= child_hit(children, ty, label, j) && has_key(
            children[child_hit(children, ty, label, j)],
            ty,
            label,
        ),
    decreases children.len() - j,
{
    if j < children.len() && !has_key(children[j], ty, label) {
        lemma_child_hit(children, ty, label, j + 1);
    }
}

/// Where `toggle_hit` finds a node, that node has the type and label sought.
pub proof fn lemma_toggle_hit(nodes: Seq<TreeNodeView>, ty: TreeNodeType, label: Seq<char>, i: int)
    requires
        0 <= i <= nodes.len(),
    ensures
        ({
            let (a, b) = toggle_hit(nodes, ty, label, i);
            &&& -1 <= a < nodes.len()
            &&& a < 0 ==> b < 0
            &&& a >= 0 ==> i <= a && -1 <= b < nodes[a].children.len()
            &&& a >= 0 && b < 0 ==> has_key(nodes[a], ty, label)
            &&& a >= 0 && b >= 0 ==> has_key(nodes[a].children[b], ty, label)
        }),
    decreases nodes.len() - i,
{
    if i < nodes.len() {
        lemma_child_hit(nodes[i].children, ty, label, 0);
        if !has_key(nodes[i], ty, label) && child_hit(nodes[i].children, ty, label, 0) < 0 {
            lemma_toggle_hit(nodes, ty, label, i + 1);
        }
    }
}

/// The two node lists agree on types, labels and the children's types and
/// labels, position by position.
pub open spec fn same_keys(a: Seq<TreeNodeView>, b: Seq<TreeNodeView>) -> bool {
    &&& a.len() == b.len()
    &&& forall|k: int| 0 <= k < a.len() ==> #[trigger] a[k].node_type == b[k].node_type && a[k].label == b[k].label
        && same_child_keys(a[k].children, b[k].children)
}

/// The two child lists agree on types and labels, position by position.
pub open spec fn same_child_keys(a: Seq<TreeNodeView>, b: Seq<TreeNodeView>) -> bool {
    &&& a.len() == b.len()
    &&& forall|k: int| 0 <= k < a.len() ==> #[trigger] a[k].node_type == b[k].node_type && a[k].label == b[k].label
}

proof fn lemma_child_hit_same(a: Seq<TreeNodeView>, b: Seq<TreeNodeView>, ty: TreeNodeType, label: Seq<char>, j: int)
    requires
        same_child_keys(a, b),
    ensures
        child_hit(a, ty, label, j) == child_hit(b, ty, label, j),
    decreases a.len() - j,
{
    if 0 <= j < a.len() {
        assert(a[j].node_type == b[j].node_type && a[j].label == b[j].label);
        lemma_child_hit_same(a, b, ty, label, j + 1);
    }
}

proof fn lemma_toggle_hit_same(a: Seq<TreeNodeView>, b: Seq<TreeNodeView>, ty: TreeNodeType, label: Seq<char>, i: int)
    requires
        same_keys(a, b),
    ensures
        toggle_hit(a, ty, label, i) == toggle_hit(b, ty, label, i),
    decreases a.len() - i,
{
    if 0 <= i < a.len() {
        assert(a[i].node_type == b[i].node_type && a[i].label == b[i].label && same_child_keys(a[i].children, b[i].children));
        lemma_child_hit_same(a[i].children, b[i].children, ty, label, 0);
        lemma_toggle_hit_same(a, b, ty, label, i + 1);
    }
}

proof fn lemma_toggled_same_keys(nodes: Seq<TreeNodeView>, ty: TreeNodeType, label: Seq<char>)
    ensures
        same_keys(nodes, toggled(nodes, ty, label)),
{
    lemma_toggle_hit(nodes, ty, label, 0);
    let t = toggled(nodes, ty, label);
    let (i, j) = toggle_hit(nodes, ty, label, 0);
    assert forall|k: int| 0 <= k < nodes.len() implies #[trigger] nodes[k].node_type == t[k].node_type && nodes[k].label == t[k].label
        && same_child_keys(nodes[k].children, t[k].children) by {
        if k == i && j >= 0 {
            let c = nodes[k].children;
            let c2 = t[k].children;
            assert(c2 == c.update(j, flip(c[j])));
            assert forall|m: int| 0 <= m < c.len() implies #[trigger] c[m].node_type == c2[m].node_type && c[m].label == c2[m].label by {
                if m == j {
                } else {
                    assert(c2[m] == c[m]);
                }
            }
        } else if k == i {
            assert forall|m: int| 0 <= m < nodes[k].children.len() implies #[trigger] nodes[k].children[m].node_type == t[k].children[m].node_type && nodes[k].children[m].label == t[k].children[m].label by {
            }
        } else {
            assert(t[k] == nodes[k]);
            assert forall|m: int| 0 <= m < nodes[k].children.len() implies #[trigger] nodes[k].children[m].node_type == t[k].children[m].node_type && nodes[k].children[m].label == t[k].children[m].label by {
            }
        }
    }
}

/// Law: switching a node's expansion twice leaves the tree as it was. Both
/// switches find the same node, since switching changes no type or label.
pub proof fn lemma_toggle_twice(nodes: Seq<TreeNodeView>, ty: TreeNodeType, label: Seq<char>)
    ensures
        toggled(toggled(nodes, ty, label), ty, label) == nodes,
{
    let t = toggled(nodes, ty, label);
    lemma_toggled_same_keys(nodes, ty, label);
    lemma_toggle_hit_same(nodes, t, ty, label, 0);
    lemma_toggle_hit(nodes, ty, label, 0);
    let (i, j) = toggle_hit(nodes, ty, label, 0);
    if i >= 0 && j < 0 {
        assert(toggled(t, ty, label) =~= nodes);
    } else if i >= 0 {
        assert(t[i].children.update(j, flip(t[i].children[j])) =~= nodes[i].children);
        assert(toggled(t, ty, label) =~= nodes);
    }
}

proof fn lemma_depth_ok_toggled(nodes: Seq<TreeNodeView>, ty: TreeNodeType, label: Seq<char>)
    requires
        depth_ok_from(nodes, 0, 0),
    ensures
        depth_ok_from(toggled(nodes, ty, label), 0, 0),
{
    lemma_toggle_hit(nodes, ty, label, 0);
    let t = toggled(nodes, ty, label);
    let (i, j) = toggle_hit(nodes, ty, label, 0);
    lemma_depth_ok_all(nodes, 0, 0);
    lemma_depth_ok_all(t, 0, 0);
    if i >= 0 {
        assert forall|k: int| 0 <= k < t.len() implies node_depth_ok(#[trigger] t[k], 0) by {
            assert(node_depth_ok(nodes[k], 0));
            if k == i && j >= 0 {
                let c = nodes[k].children;
                let c2 = t[k].children;
                lemma_depth_ok_all(c, 0, 1);
                lemma_depth_ok_all(c2, 0, 1);
                assert forall|m: int| 0 <= m < c2.len() implies node_depth_ok(#[trigger] c2[m], 1) by {
                    assert(node_depth_ok(c[m], 1));
                    if m == j {
                        assert(c2[m].children == c[m].children);
                    } else {
                        assert(c2[m] == c[m]);
                    }
                }
            } else if k == i {
                assert(t[k].children == nodes[k].children);
            } else {
                assert(t[k] == nodes[k]);
            }
        }
    }
}

/// The tree after moving the highlight one row up, unless it is on the
/// first row.
pub open spec fn moved_up(t: TreeStateView) -> TreeStateView {
    let idx = cursor_row(t.selected);
    if idx > 0 {
        TreeStateView { selected: Some((idx - 1) as usize), selected_node: row_type(t.nodes, idx - 1), ..t }
    } else {
        t
    }
}

/// The tree after moving the highlight one row down, unless it is on the
/// last row.
pub open spec fn moved_down(t: TreeStateView) -> TreeStateView {
    let idx = cursor_row(t.selected);
    if idx + 1 < rows(t.nodes).len() {
        TreeStateView { selected: Some((idx + 1) as usize), selected_node: row_type(t.nodes, idx + 1), ..t }
    } else {
        t
    }
}

/// The first row from the `i`-th on whose node has type `target`, or -1.
pub open spec fn first_row_of(rs: Seq<RowView>, target: TreeNodeType, i: int) -> int
    decreases rs.len() - i,
{
    if i < 0 || i >= rs.len() {
        -1
    } else if rs[i].node_type == target {
        i
    } else {
        first_row_of(rs, target, i + 1)
    }
}

/// The tree after highlighting the first shown row whose node has type
/// `target`; unchanged when no shown row has it.
pub open spec fn node_selected(t: TreeStateView, target: TreeNodeType) -> TreeStateView {
    let k = first_row_of(rows(t.nodes), target, 0);
    if k >= 0 {
        TreeStateView { selected: Some(k as usize), selected_node: Some(target), ..t }
    } else {
        t
    }
}

/// The tree after switching the expansion of the node on the highlighted
/// row, when that row has children and its node is found (see
/// `toggle_hit`); the shown rows are recomputed and the highlighted row's
/// node selected.
pub open spec fn expansion_toggled(t: TreeStateView) -> TreeStateView {
    let rs = rows(t.nodes);
    let idx = cursor_row(t.selected);
    if 0 <= idx < rs.len() && rs[idx].has_children && toggle_hit(
        t.nodes,
        rs[idx].node_type,
        rs[idx].label,
        0,
    ).0 >= 0 {
        let n2 = toggled(t.nodes, rs[idx].node_type, rs[idx].label);
        TreeStateView { nodes: n2, flat_list: flat_indices(n2), selected: t.selected, selected_node: row_type(n2, idx) }
    } else {
        t
    }
}

/// The tree after collapsing the node on the highlighted row, when it is
/// expanded.
pub open spec fn collapsed(t: TreeStateView) -> TreeStateView {
    let rs = rows(t.nodes);
    let idx = cursor_row(t.selected);
    if 0 <= idx < rs.len() && rs[idx].expanded {
        expansion_toggled(t)
    } else {
        t
    }
}

/// The tree after expanding the node on the highlighted row, when it is
/// collapsed; an expanded node stays as it is.
pub open spec fn expanded(t: TreeStateView) -> TreeStateView {
    let rs = rows(t.nodes);
    let idx = cursor_row(t.selected);
    if 0 <= idx < rs.len() && !rs[idx].expanded {
        expansion_toggled(t)
    } else {
        t
    }
}

proof fn lemma_first_row_of(rs: Seq<RowView>, target: TreeNodeType, i: int)
    requires
        0 <= i <= rs.len(),
    ensures
        -1 <= first_row_of(rs, target, i) < rs.len(),
        first_row_of(rs, target, i) >= 0 ==> i <= first_row_of(rs, target, i) && rs[first_row_of(rs, target, i)].node_type == target,
        first_row_of(rs, target, i) < 0 ==> forall|q: int| i <= q < rs.len() ==> #[trigger] rs[q].node_type != target,
    decreases rs.len() - i,
{
    if i < rs.len() && rs[i].node_type != target {
        lemma_first_row_of(rs, target, i + 1);
    }
}

impl TreeState {
    /// The tree nests no deeper than the row depth can count.
    pub open spec fn wf(&self) -> bool {
        depth_ok_from(nodes_view(self.nodes@), 0, 0)
    }

    /// The selected node is the one on the highlighted row.
    pub open spec fn consistent(&self) -> bool {
        self.selected_node == row_type(nodes_view(self.nodes@), cursor_row(self.selected))
    }

    /// The rows that the tree shows.
    pub fn collect_flat(&self) -> (r: Vec<TreeRow>)
        requires
            self.wf(),
        ensures
            rows_view(r@) == rows(self@.nodes),
    {
        let mut r: Vec<TreeRow> = Vec::new();
        collect(&self.nodes, 0, &mut r);
        assert(rows_view(r@) =~= rows(self@.nodes));
        r
    }

    /// Recomputes `flat_list` from the shown rows.
    pub fn rebuild_flat_list(&mut self)
        requires
            old(self).wf(),
        ensures
            final(self).flat_list@ == flat_indices(old(self)@.nodes),
            final(self).nodes == old(self).nodes,
            final(self).selected == old(self).selected,
            final(self).selected_node == old(self).selected_node,
    {
        let flat = self.collect_flat();
        let mut list: Vec<usize> = Vec::new();
        let mut i: usize = 0;
        while i < flat.len()
            invariant
                i <= flat@.len(),
                list@ == rows_view(flat@).subrange(0, i as int).map_values(|r: RowView| r.index),
            decreases flat@.len() - i,
        {
            list.push(flat[i].index);
            i = i + 1;
            assert(list@ =~= rows_view(flat@).subrange(0, i as int).map_values(|r: RowView| r.index));
        }
        assert(rows_view(flat@).subrange(0, flat@.len() as int) =~= rows_view(flat@));
        self.flat_list = list;
    }

    /// The type of the node on shown row `idx`, if there is such a row.
    pub fn node_at_index(&self, idx: usize) -> (r: Option<TreeNodeType>)
        requires
            self.wf(),
        ensures
            r == row_type(self@.nodes, idx as int),
    {
        let flat = self.collect_flat();
        if idx < flat.len() {
            assert(rows_view(flat@)[idx as int] == flat@[idx as int]@);
            Some(flat[idx].node_type)
        } else {
            None
        }
    }

    /// A tree over `nodes` with its first row highlighted.
    pub fn new(nodes: Vec<TreeNode>) -> (r: Self)
        requires
            depth_ok_from(nodes_view(nodes@), 0, 0),
        ensures
            r.nodes@ == nodes@,
            r.wf(),
            r.consistent(),
            r.flat_list@ == flat_indices(nodes_view(nodes@)),
            r.selected == Some(0usize),
            r.selected_node == row_type(nodes_view(nodes@), 0),
    {
        let mut state = TreeState { nodes, flat_list: Vec::new(), selected: None, selected_node: None };
        state.rebuild_flat_list();
        state.selected = Some(0);
        state.selected_node = state.node_at_index(0);
        state
    }

    /// Moves the highlight one row up, unless it is on the first row.
    pub fn move_up(&mut self)
        requires
            old(self).wf(),
        ensures
            final(self)@ == moved_up(old(self)@),
            final(self).wf(),
            old(self).consistent() ==> final(self).consistent(),
    {
        let idx = match self.selected {
            Some(k) => k,
            None => 0,
        };
        if idx > 0 {
            self.selected = Some(idx - 1);
            self.selected_node = self.node_at_index(idx - 1);
        }
    }

    /// Moves the highlight one row down, unless it is on the last row.
    pub fn move_down(&mut self)
        requires
            old(self).wf(),
        ensures
            final(self)@ == moved_down(old(self)@),
            final(self).wf(),
            old(self).consistent() ==> final(self).consistent(),
    {
        let idx = match self.selected {
            Some(k) => k,
            None => 0,
        };
        let flat = self.collect_flat();
        if flat.len() > 0 && idx < flat.len() - 1 {
            self.selected = Some(idx + 1);
            self.selected_node = self.node_at_index(idx + 1);
        }
    }

    /// Highlights the first shown row whose node has type `target`; nothing
    /// changes when no shown row has it.
    pub fn select_node(&mut self, target: &TreeNodeType)
        requires
            old(self).wf(),
        ensures
            final(self)@ == node_selected(old(self)@, *target),
            final(self).wf(),
            old(self).consistent() ==> final(self).consistent(),
    {
        let flat = self.collect_flat();
        let ghost rs = rows(self@.nodes);
        let mut i: usize = 0;
        while i < flat.len()
            invariant
                rows_view(flat@) == rs,
                rs == rows(old(self)@.nodes),
                self.nodes == old(self).nodes,
                self.flat_list == old(self).flat_list,
                self.selected == old(self).selected,
                self.selected_node == old(self).selected_node,
                i <= flat@.len(),
                forall|q: int| 0 <= q < i ==> #[trigger] rs[q].node_type != *target,
                first_row_of(rs, *target, 0) == first_row_of(rs, *target, i as int),
                old(self).wf(),
            decreases flat@.len() - i,
        {
            assert(rs[i as int] == flat@[i as int]@);
            if flat[i].node_type == *target {
                self.selected = Some(i);
                self.selected_node = Some(*target);
                return;
            }
            i = i + 1;
        }
    }
    /// Switches the expansion of the node on the highlighted row, when that
    /// row has children: the node switched is the first with the row's type
    /// and label, searching top-level nodes in order, each before its
    /// children. The shown rows are then recomputed and the highlighted row's
    /// node selected.
    pub fn toggle_expand(&mut self)
        requires
            old(self).wf(),
        ensures
            final(self)@ == expansion_toggled(old(self)@),
            final(self).wf(),
            old(self).consistent() ==> final(self).consistent(),
    {
        let ghost nv = self@.nodes;
        let flat = self.collect_flat();
        let idx = match self.selected {
            Some(k) => k,
            None => 0,
        };
        if idx >= flat.len() || !flat[idx].has_children {
            return;
        }
        assert(rows_view(flat@)[idx as int] == flat@[idx as int]@);
        let ty = flat[idx].node_type;
        let label = flat[idx].label.clone();
        let ghost key_label = label@;
        proof {
            lemma_nodes_view(self.nodes@);
            lemma_toggle_hit(nv, ty, key_label, 0);
        }
        let mut i: usize = 0;
        while i < self.nodes.len()
            invariant
                nv == nodes_view(self.nodes@),
                nv.len() == self.nodes@.len(),
                forall|k: int| 0 <= k < self.nodes@.len() ==> #[trigger] nv[k] == node_view(self.nodes@[k]),
                self.nodes == old(self).nodes,
                self.flat_list == old(self).flat_list,
                self.selected == old(self).selected,
                self.selected_node == old(self).selected_node,
                self.wf(),
                label@ == key_label,
                idx as int == cursor_row(old(self).selected),
                0 <= idx < rows(nv).len(),
                rows(nv)[idx as int].node_type == ty,
                rows(nv)[idx as int].label == key_label,
                rows(nv)[idx as int].has_children,
                i <= self.nodes@.len(),
                toggle_hit(nv, ty, key_label, 0) == toggle_hit(nv, ty, key_label, i as int),
            decreases self.nodes@.len() - i,
        {
            assert(nv[i as int] == node_view(self.nodes@[i as int]));
            if self.nodes[i].node_type == ty && self.nodes[i].label == label {
                let mut top = self.nodes.remove(i);
                top.expanded = !top.expanded;
                let ghost top_new = top;
                self.nodes.insert(i, top);
                proof {
                    assert(self.nodes@ =~= old(self).nodes@.update(i as int, top_new));
                    lemma_nodes_view_update(old(self).nodes@, i as int, top_new);
                    assert(node_view(top_new) == flip(nv[i as int]));
                    assert(self@.nodes == toggled(nv, ty, key_label));
                    lemma_depth_ok_toggled(nv, ty, key_label);
                }
                self.rebuild_flat_list();
                self.selected_node = self.node_at_index(idx);
                return;
            }
            let ghost cv = nv[i as int].children;
            proof {
                lemma_nodes_view(self.nodes@[i as int].children@);
            }
            let mut j: usize = 0;
            while j < self.nodes[i].children.len()
                invariant
                    nv == nodes_view(self.nodes@),
                    nv.len() == self.nodes@.len(),
                    forall|k: int| 0 <= k < self.nodes@.len() ==> #[trigger] nv[k] == node_view(self.nodes@[k]),
                    self.nodes == old(self).nodes,
                    self.flat_list == old(self).flat_list,
                    self.selected == old(self).selected,
                    self.selected_node == old(self).selected_node,
                    self.wf(),
                    label@ == key_label,
                    idx as int == cursor_row(old(self).selected),
                    0 <= idx < rows(nv).len(),
                    rows(nv)[idx as int].node_type == ty,
                    rows(nv)[idx as int].label == key_label,
                    rows(nv)[idx as int].has_children,
                    i < self.nodes@.len(),
                    !has_key(nv[i as int], ty, key_label),
                    cv == nv[i as int].children,
                    cv == nodes_view(self.nodes@[i as int].children@),
                    cv.len() == self.nodes@[i as int].children@.len(),
                    forall|k: int| 0 <= k < cv.len() ==> #[trigger] cv[k] == node_view(self.nodes@[i as int].children@[k]),
                    j <= cv.len(),
                    child_hit(cv, ty, key_label, 0) == child_hit(cv, ty, key_label, j as int),
                    toggle_hit(nv, ty, key_label, 0) == toggle_hit(nv, ty, key_label, i as int),
                decreases cv.len() - j,
            {
                assert(cv[j as int] == node_view(self.nodes@[i as int].children@[j as int]));
                if self.nodes[i].children[j].node_type == ty && self.nodes[i].children[j].label == label {
                    let ghost old_top = self.nodes@[i as int];
                    let mut top = self.nodes.remove(i);
                    let mut child = top.children.remove(j);
                    child.expanded = !child.expanded;
                    let ghost child_new = child;
                    top.children.insert(j, child);
                    let ghost top_new = top;
                    self.nodes.insert(i, top);
                    proof {
                        assert(top_new.children@ =~= old_top.children@.update(j as int, child_new));
                        lemma_nodes_view_update(old_top.children@, j as int, child_new);
                        assert(node_view(child_new) == flip(cv[j as int]));
                        assert(self.nodes@ =~= old(self).nodes@.update(i as int, top_new));
                        lemma_nodes_view_update(old(self).nodes@, i as int, top_new);
                        assert(node_view(top_new) == TreeNodeView { children: cv.update(j as int, flip(cv[j as int])), ..nv[i as int] });
                        assert(self@.nodes == toggled(nv, ty, key_label));
                        lemma_depth_ok_toggled(nv, ty, key_label);
                    }
                    self.rebuild_flat_list();
                    self.selected_node = self.node_at_index(idx);
                    return;
                }
                j = j + 1;
            }
            i = i + 1;
        }
    }

    /// Collapses the node on the highlighted row when it has children and is
    /// expanded (by switching its expansion).
    pub fn collapse_current(&mut self)
        requires
            old(self).wf(),
        ensures
            final(self)@ == collapsed(old(self)@),
            final(self).wf(),
            old(self).consistent() ==> final(self).consistent(),
    {
        let flat = self.collect_flat();
        let idx = match self.selected {
            Some(k) => k,
            None => 0,
        };
        if idx < flat.len() {
            assert(rows_view(flat@)[idx as int] == flat@[idx as int]@);
            if flat[idx].expanded {
                self.toggle_expand();
            }
        }
    }
}


impl TreeState {
    /// Expands the node on the highlighted row when it has children and is
    /// collapsed (by switching its expansion).
    pub fn expand_current(&mut self)
        requires
            old(self).wf(),
        ensures
            final(self)@ == expanded(old(self)@),
            final(self).wf(),
            old(self).consistent() ==> final(self).consistent(),
    {
        let flat = self.collect_flat();
        let idx = match self.selected {
            Some(k) => k,
            None => 0,
        };
        if idx < flat.len() {
            assert(rows_view(flat@)[idx as int] == flat@[idx as int]@);
            if !flat[idx].expanded {
                self.toggle_expand();
            }
        }
    }
}

/// The rows shown, at nesting `d`, for the nodes from the `k`-th up to (not
/// including) the `m`-th.
pub open spec fn rows_between(nodes: Seq<TreeNodeView>, k: int, m: int, d: int) -> Seq<RowView>
    decreases m - k,
{
    if k < 0 || k >= m || k >= nodes.len() {
        Seq::empty()
    } else {
        rows_from(nodes, k, d).subrange(0, 1 + (if nodes[k].expanded {
            rows_from(nodes[k].children, 0, d + 1).len() as int
        } else {
            0
        })) + rows_between(nodes, k + 1, m, d)
    }
}

/// Some node from the `i`-th on, or below one of them, has the given type
/// and label.
pub open spec fn key_in_from(nodes: Seq<TreeNodeView>, i: int, ty: TreeNodeType, label: Seq<char>) -> bool
    decreases nodes, nodes.len() - i,
{
    if i < 0 || i >= nodes.len() {
        false
    } else {
        proof {
            assert(decreases_to!(nodes => nodes[i]));
        }
        has_key(nodes[i], ty, label) || key_in_from(nodes[i].children, 0, ty, label) || key_in_from(
            nodes,
            i + 1,
            ty,
            label,
        )
    }
}

/// The nodes that the search for a node to switch covers (the top-level
/// nodes and their children) have types and labels of their own: no two of
/// them share one, and no node further down has one of theirs.
pub open spec fn keys_apart(nodes: Seq<TreeNodeView>) -> bool {
    &&& forall|a: int, b: int|
        0 <= a < b < nodes.len() ==> !has_key(#[trigger] nodes[b], (#[trigger] nodes[a]).node_type, nodes[a].label)
    &&& forall|a: int, b: int, c: int|
        0 <= a < nodes.len() && 0 <= b < nodes.len() && 0 <= c < nodes[b].children.len() ==> !has_key(
            #[trigger] nodes[b].children[c],
            (#[trigger] nodes[a]).node_type,
            nodes[a].label,
        )
    &&& forall|a: int, c: int, b: int, e: int|
        0 <= a < nodes.len() && 0 <= c < nodes[a].children.len() && 0 <= b < nodes.len() && 0 <= e
            < nodes[b].children.len() && (a != b || c != e) ==> !has_key(
            #[trigger] nodes[b].children[e],
            (#[trigger] nodes[a].children[c]).node_type,
            nodes[a].children[c].label,
        )
    &&& forall|a: int, b: int, c: int|
        0 <= a < nodes.len() && 0 <= b < nodes.len() && 0 <= c < nodes[b].children.len() ==> !key_in_from(
            #[trigger] nodes[b].children[c].children,
            0,
            (#[trigger] nodes[a]).node_type,
            nodes[a].label,
        )
    &&& forall|a: int, c: int, b: int, e: int|
        0 <= a < nodes.len() && 0 <= c < nodes[a].children.len() && 0 <= b < nodes.len() && 0 <= e
            < nodes[b].children.len() ==> !key_in_from(
            #[trigger] nodes[b].children[e].children,
            0,
            (#[trigger] nodes[a].children[c]).node_type,
            nodes[a].children[c].label,
        )
}

/// Every shown row is the row of a node from the `k`-th on or below one of
/// them.
proof fn lemma_row_key_in(nodes: Seq<TreeNodeView>, k: int, d: int, p: int)
    requires
        0 <= k <= nodes.len(),
        0 <= p < rows_from(nodes, k, d).len(),
    ensures
        key_in_from(nodes, k, rows_from(nodes, k, d)[p].node_type, rows_from(nodes, k, d)[p].label),
    decreases nodes, nodes.len() - k,
{
    let r = rows_from(nodes, k, d);
    let ty = r[p].node_type;
    let label = r[p].label;
    let n = nodes[k];
    let sub = if n.expanded { rows_from(n.children, 0, d + 1) } else { Seq::empty() };
    let rest = rows_from(nodes, k + 1, d);
    assert(r == seq![r[0]] + sub + rest);
    if p == 0 {
    } else if p < 1 + sub.len() {
        assert(decreases_to!(nodes => nodes[k]));
        assert(r[p] == sub[p - 1]);
        lemma_row_key_in(n.children, 0, d + 1, p - 1);
    } else {
        assert(r[p] == rest[p - 1 - sub.len()]);
        lemma_row_key_in(nodes, k + 1, d, p - 1 - sub.len());
    }
}

/// The rows at nesting `d` split at the `m`-th node: those of the nodes
/// before it, then those from it on.
proof fn lemma_rows_split(nodes: Seq<TreeNodeView>, k: int, m: int, d: int)
    requires
        0 <= k <= m <= nodes.len(),
    ensures
        rows_from(nodes, k, d) == rows_between(nodes, k, m, d) + rows_from(nodes, m, d),
    decreases m - k,
{
    if k < m {
        lemma_rows_split(nodes, k + 1, m, d);
        let r = rows_from(nodes, k, d);
        let n = 1 + (if nodes[k].expanded { rows_from(nodes[k].children, 0, d + 1).len() as int } else { 0 });
        assert(r.subrange(n, r.len() as int) =~= rows_from(nodes, k + 1, d));
        assert(r =~= r.subrange(0, n) + r.subrange(n, r.len() as int));
    } else {
        assert(rows_between(nodes, k, m, d) =~= Seq::<RowView>::empty());
    }
}

/// Nodes that agree before the `m`-th show the same rows before it.
proof fn lemma_rows_between_same(a: Seq<TreeNodeView>, b: Seq<TreeNodeView>, k: int, m: int, d: int)
    requires
        0 <= k <= m <= a.len(),
        a.len() == b.len(),
        forall|q: int| 0 <= q < m ==> #[trigger] a[q] == b[q],
    ensures
        rows_between(a, k, m, d) == rows_between(b, k, m, d),
    decreases m - k,
{
    if k < m {
        lemma_rows_between_same(a, b, k + 1, m, d);
        assert(a[k] == b[k]);
        let ra = rows_from(a, k, d);
        let rb = rows_from(b, k, d);
        let n = 1 + (if a[k].expanded { rows_from(a[k].children, 0, d + 1).len() as int } else { 0 });
        assert(ra.subrange(0, n) =~= rb.subrange(0, n));
    }
}

/// Where a shown row comes from: the `m`-th node's own row, after the rows
/// of the nodes before it (`at_node`), or a row among those of its children
/// (otherwise).
proof fn lemma_row_origin(nodes: Seq<TreeNodeView>, k: int, d: int, p: int) -> (res: (int, bool))
    requires
        0 <= k <= nodes.len(),
        0 <= p < rows_from(nodes, k, d).len(),
    ensures
        ({
            let (m, at_node) = res;
            let b = rows_between(nodes, k, m, d).len();
            let ch = nodes[m].children;
            &&& k <= m < nodes.len()
            &&& at_node ==> p == b && rows_from(nodes, k, d)[p] == rows_from(nodes, m, d)[0]
            &&& !at_node ==> nodes[m].expanded && b + 1 <= p < b + 1 + rows_from(ch, 0, d + 1).len() && rows_from(
                nodes,
                k,
                d,
            )[p] == rows_from(ch, 0, d + 1)[p - b - 1]
        }),
    decreases nodes.len() - k,
{
    let r = rows_from(nodes, k, d);
    let n = nodes[k];
    let sub = if n.expanded { rows_from(n.children, 0, d + 1) } else { Seq::empty() };
    let rest = rows_from(nodes, k + 1, d);
    assert(r == seq![r[0]] + sub + rest);
    assert(rows_between(nodes, k, k, d) =~= Seq::<RowView>::empty());
    if p == 0 {
        (k, true)
    } else if p < 1 + sub.len() {
        (k, false)
    } else {
        assert(r[p] == rest[p - 1 - sub.len()]);
        let (m, at) = lemma_row_origin(nodes, k + 1, d, p - 1 - sub.len());
        assert(rows_between(nodes, k, m, d).len() == 1 + sub.len() + rows_between(nodes, k + 1, m, d).len());
        (m, at)
    }
}

proof fn lemma_child_hit_none(children: Seq<TreeNodeView>, ty: TreeNodeType, label: Seq<char>, j: int)
    requires
        0 <= j <= children.len(),
        forall|c: int| 0 <= c < children.len() ==> !has_key(#[trigger] children[c], ty, label),
    ensures
        child_hit(children, ty, label, j) == -1,
    decreases children.len() - j,
{
    if j < children.len() {
        lemma_child_hit_none(children, ty, label, j + 1);
    }
}

proof fn lemma_child_hit_at(children: Seq<TreeNodeView>, ty: TreeNodeType, label: Seq<char>, j: int, c: int)
    requires
        0 <= j <= c < children.len(),
        has_key(children[c], ty, label),
        forall|e: int| 0 <= e < c ==> !has_key(#[trigger] children[e], ty, label),
    ensures
        child_hit(children, ty, label, j) == c,
    decreases c - j,
{
    if j < c {
        lemma_child_hit_at(children, ty, label, j + 1, c);
    }
}

/// Searching from the `i`-th node for the type and label of the `m`-th
/// node, in a tree whose keys are apart, finds the `m`-th node itself.
proof fn lemma_hit_top(nodes: Seq<TreeNodeView>, label: Seq<char>, i: int, m: int)
    requires
        keys_apart(nodes),
        0 <= i <= m < nodes.len(),
        nodes[m].label == label,
    ensures
        toggle_hit(nodes, nodes[m].node_type, label, i) == (m, -1int),
    decreases m - i,
{
    let ty = nodes[m].node_type;
    if i < m {
        assert(!has_key(nodes[i], ty, label)) by {
            assert(!has_key(nodes[m], nodes[i].node_type, nodes[i].label));
        }
        assert forall|c: int| 0 <= c < nodes[i].children.len() implies !has_key(#[trigger] nodes[i].children[c], ty, label) by {
            assert(!has_key(nodes[i].children[c], nodes[m].node_type, nodes[m].label));
        }
        lemma_child_hit_none(nodes[i].children, ty, label, 0);
        lemma_hit_top(nodes, label, i + 1, m);
    }
}

/// Searching from the `i`-th node for the type and label of the `c`-th
/// child of the `m`-th node, in a tree whose keys are apart, finds that
/// child.
proof fn lemma_hit_child(nodes: Seq<TreeNodeView>, i: int, m: int, c: int)
    requires
        keys_apart(nodes),
        0 <= i <= m < nodes.len(),
        0 <= c < nodes[m].children.len(),
    ensures
        toggle_hit(nodes, nodes[m].children[c].node_type, nodes[m].children[c].label, i) == (m, c),
    decreases m - i,
{
    let ty = nodes[m].children[c].node_type;
    let label = nodes[m].children[c].label;
    assert(!has_key(nodes[i], ty, label)) by {
        assert(!has_key(nodes[m].children[c], nodes[i].node_type, nodes[i].label));
    }
    if i < m {
        assert forall|e: int| 0 <= e < nodes[i].children.len() implies !has_key(#[trigger] nodes[i].children[e], ty, label) by {
            assert(!has_key(nodes[i].children[e], nodes[m].children[c].node_type, nodes[m].children[c].label));
        }
        lemma_child_hit_none(nodes[i].children, ty, label, 0);
        lemma_hit_child(nodes, i + 1, m, c);
    } else {
        assert forall|e: int| 0 <= e < c implies !has_key(#[trigger] nodes[m].children[e], ty, label) by {
            assert(!has_key(nodes[m].children[e], nodes[m].children[c].node_type, nodes[m].children[c].label));
        }
        lemma_child_hit_at(nodes[m].children, ty, label, 0, c);
    }
}

/// Law: switching the expansion of the highlighted node twice gives back the
/// tree state one started from: the same nodes and shown rows, the same row
/// highlighted, naming the same node. This holds of a tree whose nodes at
/// the two levels that the search for the node to switch covers have types
/// and labels of their own (see `keys_apart`; the viewer's tree does), and
/// whose shown rows and selected node are those of its nodes.
pub proof fn lemma_tree_toggle_twice(t: TreeStateView)
    requires
        keys_apart(t.nodes),
        t.flat_list == flat_indices(t.nodes),
        t.selected_node == row_type(t.nodes, cursor_row(t.selected)),
    ensures
        expansion_toggled(expansion_toggled(t)) == t,
{
    let nodes = t.nodes;
    let rs = rows(nodes);
    let idx = cursor_row(t.selected);
    if 0 <= idx < rs.len() && rs[idx].has_children && toggle_hit(nodes, rs[idx].node_type, rs[idx].label, 0).0 >= 0 {
        let ty = rs[idx].node_type;
        let label = rs[idx].label;
        let (m, at_node) = lemma_row_origin(nodes, 0, 0, idx);
        let b = rows_between(nodes, 0, m, 0).len();
        let ch = nodes[m].children;
        lemma_rows_split(nodes, 0, m, 0);
        if at_node {
            assert(rows_from(nodes, m, 0)[0].node_type == nodes[m].node_type);
            lemma_hit_top(nodes, label, 0, m);
            let n2 = toggled(nodes, ty, label);
            assert(n2 == nodes.update(m, flip(nodes[m])));
            lemma_rows_split(n2, 0, m, 0);
            lemma_rows_between_same(nodes, n2, 0, m, 0);
            let rs2 = rows(n2);
            assert(rs2[idx] == rows_from(n2, m, 0)[0]);
            assert(rs2[idx].node_type == ty && rs2[idx].label == label && rs2[idx].has_children);
            lemma_toggled_same_keys(nodes, ty, label);
            lemma_toggle_hit_same(nodes, n2, ty, label, 0);
            lemma_toggle_twice(nodes, ty, label);
        } else {
            let p2 = idx - b - 1;
            let rc = rows_from(ch, 0, 1);
            let rm = rows_from(nodes, m, 0);
            assert(rm == seq![rm[0]] + rc + rows_from(nodes, m + 1, 0));
            assert(rs[idx] == rc[p2]);
            let (c, at_child) = lemma_row_origin(ch, 0, 1, p2);
            let b2 = rows_between(ch, 0, c, 1).len();
            lemma_rows_split(ch, 0, c, 1);
            if at_child {
                assert(rows_from(ch, c, 1)[0].node_type == ch[c].node_type);
                assert(ty == ch[c].node_type && label == ch[c].label);
                lemma_hit_child(nodes, 0, m, c);
                let n2 = toggled(nodes, ty, label);
                let ch2 = ch.update(c, flip(ch[c]));
                assert(n2 == nodes.update(m, TreeNodeView { children: ch2, ..nodes[m] }));
                lemma_rows_split(n2, 0, m, 0);
                lemma_rows_between_same(nodes, n2, 0, m, 0);
                lemma_rows_split(ch2, 0, c, 1);
                lemma_rows_between_same(ch, ch2, 0, c, 1);
                let rm2 = rows_from(n2, m, 0);
                let rc2 = rows_from(ch2, 0, 1);
                assert(n2[m].expanded && n2[m].children == ch2);
                assert(rm2 == seq![rm2[0]] + rc2 + rows_from(n2, m + 1, 0));
                assert(rc2[p2] == rows_from(ch2, c, 1)[0]);
                let rs2 = rows(n2);
                assert(rs2[idx] == rm2[idx - b]);
                assert(rm2[idx - b] == rc2[p2]);
                assert(rs2[idx].node_type == ty && rs2[idx].label == label && rs2[idx].has_children);
                lemma_toggled_same_keys(nodes, ty, label);
                lemma_toggle_hit_same(nodes, n2, ty, label, 0);
                lemma_toggle_twice(nodes, ty, label);
            } else {
                let gc = ch[c].children;
                let p3 = p2 - b2 - 1;
                lemma_row_key_in(gc, 0, 2, p3);
                assert(rs[idx] == rows_from(gc, 0, 2)[p3]);
                assert(key_in_from(gc, 0, ty, label));
                lemma_toggle_hit(nodes, ty, label, 0);
                let (a, e) = toggle_hit(nodes, ty, label, 0);
                if e < 0 {
                    assert(!key_in_from(nodes[m].children[c].children, 0, nodes[a].node_type, nodes[a].label));
                } else {
                    assert(!key_in_from(
                        nodes[m].children[c].children,
                        0,
                        nodes[a].children[e].node_type,
                        nodes[a].children[e].label,
                    ));
                }
            }
        }
    }
}

/// Law: moving the highlight up and then down returns to the row (and the
/// selected node) one started from, when there was a row above.
pub proof fn lemma_up_then_down(t: TreeStateView)
    requires
        t.selected is Some,
        0 < cursor_row(t.selected) < rows(t.nodes).len(),
        t.selected_node == row_type(t.nodes, cursor_row(t.selected)),
    ensures
        moved_down(moved_up(t)) == t,
{
}

/// Law: moving the highlight down and then up returns to the row (and the
/// selected node) one started from, when there was a row below.
pub proof fn lemma_down_then_up(t: TreeStateView)
    requires
        t.selected is Some,
        0 <= cursor_row(t.selected),
        cursor_row(t.selected) + 1 < rows(t.nodes).len(),
        rows(t.nodes).len() <= usize::MAX,
        t.selected_node == row_type(t.nodes, cursor_row(t.selected)),
    ensures
        moved_up(moved_down(t)) == t,
{
}


/// A shown row's text: two spaces per nesting level, a marker (open or
/// closed triangle for a node with children, blanks otherwise), the label.
pub open spec fn row_text(r: RowView) -> Seq<char> {
    Seq::new((2 * r.depth) as nat, |i: int| ' ') + (if r.has_children {
        if r.expanded {
            "\u{25bc} "@
        } else {
            "\u{25b6} "@
        }
    } else {
        "  "@
    }) + r.label
}

/// A shown row's text (see `row_text`).
pub fn row_text_string(row: &TreeRow) -> (r: String)
    ensures
        r@ == row_text(row@),
{
    proof {
        reveal_strlit("  ");
        reveal_strlit("\u{25bc} ");
        reveal_strlit("\u{25b6} ");
    }
    let mut r = String::new();
    let mut i: u8 = 0;
    while i < row.depth
        invariant
            i <= row.depth,
            r@ == Seq::new((2 * i) as nat, |k: int| ' '),
        decreases row.depth - i,
    {
        proof {
            reveal_strlit("  ");
        }
        r.append("  ");
        i = i + 1;
        assert(r@ =~= Seq::new((2 * i) as nat, |k: int| ' '));
    }
    if row.has_children {
        if row.expanded {
            r.append("\u{25bc} ");
        } else {
            r.append("\u{25b6} ");
        }
    } else {
        r.append("  ");
    }
    r.append(row.label.as_str());
    assert(r@ =~= row_text(row@));
    r
}

} // verus!
