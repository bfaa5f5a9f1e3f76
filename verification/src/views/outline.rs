//! An outline: a tree of nodes shown one row per visible node, children
//! indented under their parent, with tree lines (`├─`, `└─`, `│`) and an
//! expansion mark (`[+]`, `[-]`) on nodes that have children.
//!
//! A node's children are visible when it is expanded and every node above it
//! is. Right expands the focused node, Left collapses it, Enter toggles it;
//! other keys move the focus as in a list.
use vstd::prelude::*;
use crate::event::{Event, EventType, KB_ENTER, KB_LEFT, KB_RIGHT};
use crate::geometry::Rect;
use crate::text::{string_chars, string_from_chars};
use crate::views::list_viewer::{handle_list_event, list_event_state, list_event_used, ListViewerState};
use crate::views::listbox::LIST_CAPACITY;

verus! {

/// A node of the tree: its data, its children, and whether they are shown.
pub struct Node<T> {
    pub data: T,
    pub children: Vec<Node<T>>,
    pub expanded: bool,
}

impl<T> Node<T> {
    /// A leaf, collapsed.
    pub fn new(data: T) -> (n: Self)
        ensures
            n.data == data,
            n.children@.len() == 0,
            !n.expanded,
    {
        Node { data, children: Vec::new(), expanded: false }
    }

    /// A collapsed node with `children`.
    pub fn with_children(data: T, children: Vec<Node<T>>) -> (n: Self)
        ensures
            n.data == data,
            n.children == children,
            !n.expanded,
    {
        Node { data, children, expanded: false }
    }

    pub fn add_child(&mut self, child: Node<T>)
        ensures
            final(self).children@ == old(self).children@.push(child),
            final(self).data == old(self).data,
            final(self).expanded == old(self).expanded,
    {
        self.children.push(child);
    }

    pub fn has_children(&self) -> (b: bool)
        ensures
            b == (self.children@.len() > 0),
    {
        self.children.len() > 0
    }

    pub fn toggle(&mut self)
        ensures
            final(self).expanded == !old(self).expanded,
            final(self).data == old(self).data,
            final(self).children == old(self).children,
    {
        self.expanded = !self.expanded;
    }
}

/// One visible node as the outline shows it. Its level is the length of its
/// path less one: roots are at level 0.
pub struct RowView<T> {
    pub data: T,
    pub is_last: bool,
    pub has_children: bool,
    pub expanded: bool,
    /// For each level above the parent's, whether a later sibling follows
    /// down that line.
    pub parent_continues: Seq<bool>,
    /// The index of each node from the root down to this one.
    pub path: Seq<usize>,
}

/// The rows of node `n`, the last of its siblings when `is_last`, at `path`.
pub open spec fn node_rows<T>(n: Node<T>, is_last: bool, pc: Seq<bool>, path: Seq<usize>) -> Seq<RowView<T>>
    decreases n, 0int,
{
    let row = RowView {
        data: n.data,
        is_last: is_last,
        has_children: n.children@.len() > 0,
        expanded: n.expanded,
        parent_continues: pc,
        path: path,
    };
    if n.expanded && n.children@.len() > 0 {
        let child_pc = if path.len() > 1 { pc.push(!is_last) } else { pc };
        seq![row] + forest_rows(n.children@, child_pc, path, 0)
    } else {
        seq![row]
    }
}

/// The rows of the nodes `ns[i..]`, siblings under the node at `prefix`.
pub open spec fn forest_rows<T>(ns: Seq<Node<T>>, pc: Seq<bool>, prefix: Seq<usize>, i: int) -> Seq<RowView<T>>
    decreases ns, ns.len() - i,
{
    if i < 0 || i >= ns.len() {
        Seq::empty()
    } else {
        node_rows(ns[i], i == ns.len() - 1, pc, prefix.push(i as usize)) + forest_rows(ns, pc, prefix, i + 1)
    }
}

/// The rows of the whole outline with roots `roots`.
pub open spec fn outline_rows<T>(roots: Seq<Node<T>>) -> Seq<RowView<T>> {
    forest_rows(roots, Seq::empty(), Seq::empty(), 0)
}

/// The number of nodes of `n`'s subtree.
pub open spec fn node_count<T>(n: Node<T>) -> nat
    decreases n, 0int,
{
    1 + forest_count(n.children@, 0)
}

/// The number of nodes under `ns[i..]`.
pub open spec fn forest_count<T>(ns: Seq<Node<T>>, i: int) -> nat
    decreases ns, ns.len() - i,
{
    if i < 0 || i >= ns.len() {
        0
    } else {
        node_count(ns[i]) + forest_count(ns, i + 1)
    }
}

/// The node at `path` in the forest `ns`.
pub open spec fn node_at<T>(ns: Seq<Node<T>>, path: Seq<usize>) -> Option<Node<T>>
    decreases path.len(),
{
    if path.len() == 0 || path[0] >= ns.len() {
        None
    } else if path.len() == 1 {
        Some(ns[path[0] as int])
    } else {
        node_at(ns[path[0] as int].children@, path.drop_first())
    }
}

/// `new` is `old` with the node at `path` expanded or collapsed as `v` says,
/// nothing else changed.
pub open spec fn expanded_at<T>(old: Seq<Node<T>>, new: Seq<Node<T>>, path: Seq<usize>, v: bool) -> bool
    decreases path.len(),
{
    if path.len() == 0 || path[0] >= old.len() {
        new == old
    } else {
        let i = path[0] as int;
        &&& new.len() == old.len()
        &&& forall|j: int| 0 <= j < old.len() && j != i ==> #[trigger] new[j] == old[j]
        &&& new[i].data == old[i].data
        &&& if path.len() == 1 {
            new[i].children == old[i].children && new[i].expanded == v
        } else {
            new[i].expanded == old[i].expanded && expanded_at(
                old[i].children@,
                new[i].children@,
                path.drop_first(),
                v,
            )
        }
    }
}

/// The characters drawn before a row's text: the lines of the levels above,
/// its branch, and its expansion mark.
pub open spec fn row_prefix<T>(r: RowView<T>) -> Seq<char> {
    let level = r.path.len() - 1;
    Seq::new((2 * level) as nat, |k: int| {
        let i = k / 2;
        if k % 2 == 0 && i < r.parent_continues.len() && r.parent_continues[i] {
            '\u{2502}'
        } else {
            ' '
        }
    }) + (if level > 0 {
        if r.is_last {
            seq!['\u{2514}', '\u{2500}']
        } else {
            seq!['\u{251c}', '\u{2500}']
        }
    } else {
        Seq::empty()
    }) + (if r.has_children {
        if r.expanded {
            seq!['[', '-', ']', ' ']
        } else {
            seq!['[', '+', ']', ' ']
        }
    } else {
        Seq::empty()
    })
}

/// A row as built: its data's text and its place in the tree.
pub struct DisplayNode {
    pub text: String,
    pub is_last: bool,
    pub has_children: bool,
    pub expanded: bool,
    pub parent_continues: Vec<bool>,
    pub path: Vec<usize>,
}

/// Whether `d` shows row `r`, its text one that `f` gives for the row's data.
pub open spec fn shows_row<T, F: Fn(&T) -> String>(d: DisplayNode, r: RowView<T>, f: F) -> bool {
    &&& d.is_last == r.is_last
    &&& d.has_children == r.has_children
    &&& d.expanded == r.expanded
    &&& d.parent_continues@ == r.parent_continues
    &&& d.path@ == r.path
    &&& call_ensures(f, (&r.data,), d.text)
}

/// Whether the display rows `ds` show the rows `rs`.
pub open spec fn shows_rows<T, F: Fn(&T) -> String>(ds: Seq<DisplayNode>, rs: Seq<RowView<T>>, f: F) -> bool {
    &&& ds.len() == rs.len()
    &&& forall|k: int| 0 <= k < ds.len() ==> shows_row(#[trigger] ds[k], rs[k], f)
}

/// Every row of a node's subtree lies at or below the node.
proof fn lemma_node_rows_paths<T>(n: Node<T>, is_last: bool, pc: Seq<bool>, path: Seq<usize>)
    ensures
        forall|k: int| 0 <= k < node_rows(n, is_last, pc, path).len() ==> (#[trigger] node_rows(n, is_last, pc, path)[k]).path.len()
            >= path.len(),
    decreases n, 0int,
{
    if n.expanded && n.children@.len() > 0 {
        let child_pc = if path.len() > 1 { pc.push(!is_last) } else { pc };
        lemma_forest_rows_paths(n.children@, child_pc, path, 0);
        let sub = forest_rows(n.children@, child_pc, path, 0);
        let rows = node_rows(n, is_last, pc, path);
        assert forall|k: int| 0 <= k < rows.len() implies (#[trigger] rows[k]).path.len() >= path.len() by {
            if k > 0 {
                assert(rows[k] == sub[k - 1]);
            }
        }
    }
}

/// Every row under siblings at `prefix` lies below it.
proof fn lemma_forest_rows_paths<T>(ns: Seq<Node<T>>, pc: Seq<bool>, prefix: Seq<usize>, i: int)
    ensures
        forall|k: int| 0 <= k < forest_rows(ns, pc, prefix, i).len() ==> (#[trigger] forest_rows(ns, pc, prefix, i)[k]).path.len()
            > prefix.len(),
    decreases ns, ns.len() - i,
{
    if 0 <= i < ns.len() {
        let a = node_rows(ns[i], i == ns.len() - 1, pc, prefix.push(i as usize));
        let b = forest_rows(ns, pc, prefix, i + 1);
        lemma_node_rows_paths(ns[i], i == ns.len() - 1, pc, prefix.push(i as usize));
        lemma_forest_rows_paths(ns, pc, prefix, i + 1);
        let rows = forest_rows(ns, pc, prefix, i);
        assert(rows == a + b);
        assert forall|k: int| 0 <= k < rows.len() implies (#[trigger] rows[k]).path.len() > prefix.len() by {
            if k < a.len() {
                assert(rows[k] == a[k]);
            } else {
                assert(rows[k] == b[k - a.len()]);
            }
        }
    }
}

/// A subtree has at least as many nodes as it shows rows.
proof fn lemma_rows_within_count<T>(n: Node<T>, is_last: bool, pc: Seq<bool>, path: Seq<usize>)
    ensures
        node_rows(n, is_last, pc, path).len() <= node_count(n),
    decreases n, 0int,
{
    if n.expanded && n.children@.len() > 0 {
        let child_pc = if path.len() > 1 { pc.push(!is_last) } else { pc };
        lemma_forest_within_count(n.children@, child_pc, path, 0);
    }
}

proof fn lemma_forest_within_count<T>(ns: Seq<Node<T>>, pc: Seq<bool>, prefix: Seq<usize>, i: int)
    ensures
        forest_rows(ns, pc, prefix, i).len() <= forest_count(ns, i),
    decreases ns, ns.len() - i,
{
    if 0 <= i < ns.len() {
        lemma_rows_within_count(ns[i], i == ns.len() - 1, pc, prefix.push(i as usize));
        lemma_forest_within_count(ns, pc, prefix, i + 1);
    }
}

/// Append to `out` the rows of `n`, whose path is `path` and whose parent
/// levels continue as `pc` says.
fn flatten_node<T, F: Fn(&T) -> String>(
    n: &Node<T>,
    f: &F,
    is_last: bool,
    pc: &mut Vec<bool>,
    path: &mut Vec<usize>,
    out: &mut Vec<DisplayNode>,
)
    requires
        forall|d: &T| call_requires(*f, (d,)),
        old(path)@.len() >= 1,
    ensures
        final(pc)@ == old(pc)@,
        final(path)@ == old(path)@,
        final(out)@.len() == old(out)@.len() + node_rows(*n, is_last, old(pc)@, old(path)@).len(),
        forall|k: int| 0 <= k < old(out)@.len() ==> #[trigger] final(out)@[k] == old(out)@[k],
        shows_rows(
            final(out)@.skip(old(out)@.len() as int),
            node_rows(*n, is_last, old(pc)@, old(path)@),
            *f,
        ),
    decreases n, 0int,
{
    let ghost pc0 = pc@;
    let ghost path0 = path@;
    let ghost out0 = out@;
    let text = f(&n.data);
    let mut pcv: Vec<bool> = Vec::new();
    let mut i: usize = 0;
    while i < pc.len()
        invariant
            i <= pc@.len(),
            pcv@ == pc@.take(i as int),
        decreases pc.len() - i,
    {
        pcv.push(pc[i]);
        i = i + 1;
        assert(pcv@ =~= pc@.take(i as int));
    }
    assert(pc@.take(pc@.len() as int) =~= pc@);
    let mut pathv: Vec<usize> = Vec::new();
    let mut j: usize = 0;
    while j < path.len()
        invariant
            j <= path@.len(),
            pathv@ == path@.take(j as int),
        decreases path.len() - j,
    {
        pathv.push(path[j]);
        j = j + 1;
        assert(pathv@ =~= path@.take(j as int));
    }
    assert(path@.take(path@.len() as int) =~= path@);
    let has_children = n.children.len() > 0;
    out.push(
        DisplayNode {
            text,
            is_last,
            has_children,
            expanded: n.expanded,
            parent_continues: pcv,
            path: pathv,
        },
    );
    let ghost row_len = out@.len();
    if n.expanded && has_children {
        let pushed = path.len() > 1;
        if pushed {
            pc.push(!is_last);
        }
        flatten_forest(&n.children, f, pc, path, out, 0);
        if pushed {
            pc.pop();
        }
        assert(pc@ =~= pc0);
    }
    proof {
        let rows = node_rows(*n, is_last, pc0, path0);
        let fresh = out@.skip(out0.len() as int);
        if n.expanded && n.children@.len() > 0 {
            let child_pc = if path0.len() > 1 { pc0.push(!is_last) } else { pc0 };
            let sub = forest_rows(n.children@, child_pc, path0, 0);
            assert(rows =~= seq![rows[0]] + sub);
            assert forall|k: int| 0 <= k < fresh.len() implies shows_row(#[trigger] fresh[k], rows[k], *f) by {
                if k > 0 {
                    assert(fresh[k] == out@.skip(row_len as int)[k - 1]);
                    assert(rows[k] == sub[k - 1]);
                }
            }
        }
    }
}

/// Append to `out` the rows of the siblings `ns[i..]`, under the node at
/// `prefix`.
fn flatten_forest<T, F: Fn(&T) -> String>(
    ns: &Vec<Node<T>>,
    f: &F,
    pc: &mut Vec<bool>,
    prefix: &mut Vec<usize>,
    out: &mut Vec<DisplayNode>,
    i: usize,
)
    requires
        forall|d: &T| call_requires(*f, (d,)),
        i <= ns@.len(),
    ensures
        final(pc)@ == old(pc)@,
        final(prefix)@ == old(prefix)@,
        final(out)@.len() == old(out)@.len() + forest_rows(ns@, old(pc)@, old(prefix)@, i as int).len(),
        forall|k: int| 0 <= k < old(out)@.len() ==> #[trigger] final(out)@[k] == old(out)@[k],
        shows_rows(
            final(out)@.skip(old(out)@.len() as int),
            forest_rows(ns@, old(pc)@, old(prefix)@, i as int),
            *f,
        ),
    decreases ns@, ns@.len() - i,
{
    if i >= ns.len() {
        assert(out@.skip(out@.len() as int) =~= Seq::<DisplayNode>::empty());
        return;
    }
    let ghost pc0 = pc@;
    let ghost prefix0 = prefix@;
    let ghost out0 = out@;
    prefix.push(i);
    flatten_node(&ns[i], f, i == ns.len() - 1, pc, prefix, out);
    prefix.pop();
    assert(prefix@ =~= prefix0);
    let ghost mid = out@;
    flatten_forest(ns, f, pc, prefix, out, i + 1);
    proof {
        let a = node_rows(ns@[i as int], i == ns@.len() - 1, pc0, prefix0.push(i));
        let b = forest_rows(ns@, pc0, prefix0, i + 1);
        let fresh = out@.skip(out0.len() as int);
        assert(forest_rows(ns@, pc0, prefix0, i as int) == a + b);
        assert forall|k: int| 0 <= k < fresh.len() implies shows_row(#[trigger] fresh[k], (a + b)[k], *f) by {
            if k < a.len() {
                assert(fresh[k] == mid.skip(out0.len() as int)[k]);
            } else {
                assert(fresh[k] == out@.skip(mid.len() as int)[k - a.len()]);
            }
        }
    }
}

/// Set the node at `path[depth..]` of `nodes` expanded or collapsed.
fn set_expanded_at<T>(nodes: &mut Vec<Node<T>>, path: &Vec<usize>, depth: usize, v: bool)
    requires
        depth <= path@.len(),
    ensures
        expanded_at(old(nodes)@, final(nodes)@, path@.skip(depth as int), v),
    decreases path@.len() - depth,
{
    let ghost rest = path@.skip(depth as int);
    if depth >= path.len() || path[depth] >= nodes.len() {
        return;
    }
    let i = path[depth];
    assert(rest[0] == i);
    let mut n = nodes.remove(i);
    if depth + 1 == path.len() {
        n.expanded = v;
    } else {
        set_expanded_at(&mut n.children, path, depth + 1, v);
        assert(path@.skip(depth + 1) =~= rest.drop_first());
    }
    nodes.insert(i, n);
}

pub struct OutlineViewer<T, F: Fn(&T) -> String> {
    bounds: Rect,
    state: u16,
    roots: Vec<Node<T>>,
    display_nodes: Vec<DisplayNode>,
    list_state: ListViewerState,
    format_fn: F,
}

impl<T, F: Fn(&T) -> String> OutlineViewer<T, F> {
    pub closed spec fn spec_bounds(&self) -> Rect {
        self.bounds
    }

    pub closed spec fn spec_state(&self) -> u16 {
        self.state
    }

    pub closed spec fn spec_roots(&self) -> Seq<Node<T>> {
        self.roots@
    }

    pub closed spec fn spec_display(&self) -> Seq<DisplayNode> {
        self.display_nodes@
    }

    pub closed spec fn spec_list(&self) -> ListViewerState {
        self.list_state
    }

    pub closed spec fn spec_format(&self) -> F {
        self.format_fn
    }

    /// The rows shown are those of the roots, the list runs over them, and
    /// the formatter takes every node's data.
    pub open spec fn wf(&self) -> bool {
        &&& forall|d: &T| call_requires(self.spec_format(), (d,))
        &&& shows_rows(self.spec_display(), outline_rows(self.spec_roots()), self.spec_format())
        &&& self.spec_list().range == self.spec_display().len()
        &&& (self.spec_list().focused matches Some(f) ==> f < self.spec_list().range)
        &&& self.spec_display().len() <= LIST_CAPACITY
        &&& self.spec_list().top_item <= LIST_CAPACITY
    }

    /// An empty outline in `bounds` that shows each node's data as `format_fn` gives it.
    pub fn new(bounds: Rect, format_fn: F) -> (o: Self)
        requires
            forall|d: &T| call_requires(format_fn, (d,)),
        ensures
            o.wf(),
            o.spec_bounds() == bounds,
            o.spec_state() == 0,
            o.spec_roots().len() == 0,
            o.spec_format() == format_fn,
            o.spec_list().focused is None,
    {
        let o = OutlineViewer {
            bounds,
            state: 0,
            roots: Vec::new(),
            display_nodes: Vec::new(),
            list_state: ListViewerState::new(),
            format_fn,
        };
        assert(outline_rows(o.spec_roots()) =~= Seq::<RowView<T>>::empty());
        o
    }

    /// Rebuild the rows from the roots and fit the list to them.
    fn rebuild_display(&mut self)
        requires
            forall|d: &T| call_requires(old(self).spec_format(), (d,)),
            forest_count(old(self).spec_roots(), 0) <= LIST_CAPACITY,
            old(self).spec_list().top_item <= LIST_CAPACITY,
        ensures
            final(self).wf(),
            final(self).spec_roots() == old(self).spec_roots(),
            final(self).spec_bounds() == old(self).spec_bounds(),
            final(self).spec_state() == old(self).spec_state(),
            final(self).spec_format() == old(self).spec_format(),
    {
        let mut out: Vec<DisplayNode> = Vec::new();
        let mut pc: Vec<bool> = Vec::new();
        let mut prefix: Vec<usize> = Vec::new();
        assert(self.format_fn == old(self).spec_format());
        assert forall|d: &T| call_requires(self.format_fn, (d,)) by {
            assert(call_requires(old(self).spec_format(), (d,)));
        }
        flatten_forest(&self.roots, &self.format_fn, &mut pc, &mut prefix, &mut out, 0);
        proof {
            lemma_forest_within_count(self.roots@, Seq::empty(), Seq::empty(), 0);
            assert(pc@ =~= Seq::<bool>::empty());
            assert(prefix@ =~= Seq::<usize>::empty());
            assert(out@.skip(0) =~= out@);
        }
        self.display_nodes = out;
        let n = self.display_nodes.len();
        self.list_state.set_range(n);
        assert forall|d: &T| call_requires(self.spec_format(), (d,)) by {
            assert(call_requires(old(self).spec_format(), (d,)));
        }
        assert(shows_rows(self.spec_display(), outline_rows(self.spec_roots()), self.spec_format()));
        assert(self.spec_list().range == self.spec_display().len());
        assert(self.spec_display().len() <= LIST_CAPACITY);
        assert(self.spec_list().top_item <= LIST_CAPACITY);
    }

    /// Show the forest `roots`.
    pub fn set_roots(&mut self, roots: Vec<Node<T>>)
        requires
            old(self).wf(),
            forest_count(roots@, 0) <= LIST_CAPACITY,
        ensures
            final(self).wf(),
            final(self).spec_roots() == roots@,
            final(self).spec_bounds() == old(self).spec_bounds(),
            final(self).spec_format() == old(self).spec_format(),
    {
        self.roots = roots;
        self.rebuild_display();
    }

    /// Add a root after the others.
    pub fn add_root(&mut self, root: Node<T>)
        requires
            old(self).wf(),
            forest_count(old(self).spec_roots().push(root), 0) <= LIST_CAPACITY,
        ensures
            final(self).wf(),
            final(self).spec_roots() == old(self).spec_roots().push(root),
            final(self).spec_bounds() == old(self).spec_bounds(),
            final(self).spec_format() == old(self).spec_format(),
    {
        self.roots.push(root);
        self.rebuild_display();
    }

    /// The path of the focused row.
    fn focused_path(&self) -> (p: Option<Vec<usize>>)
        requires
            self.wf(),
        ensures
            match self.spec_list().focused {
                Some(f) => p matches Some(v) && v@ == outline_rows(self.spec_roots())[f as int].path,
                None => p is None,
            },
    {
        match self.list_state.focused {
            Some(f) => {
                assert(shows_row(self.display_nodes@[f as int], outline_rows(self.spec_roots())[f as int], self.format_fn));
                let src = &self.display_nodes[f].path;
                let mut v: Vec<usize> = Vec::new();
                let mut i: usize = 0;
                while i < src.len()
                    invariant
                        i <= src@.len(),
                        v@ == src@.take(i as int),
                    decreases src.len() - i,
                {
                    v.push(src[i]);
                    i = i + 1;
                    assert(v@ =~= src@.take(i as int));
                }
                assert(src@.take(src@.len() as int) =~= src@);
                Some(v)
            },
            None => None,
        }
    }

    /// The node at `path`, if there is one.
    fn node_at_path(&self, path: &Vec<usize>) -> (r: Option<&Node<T>>)
        ensures
            match node_at(self.spec_roots(), path@) {
                Some(n) => r matches Some(x) && *x == n,
                None => r is None,
            },
    {
        if path.len() == 0 {
            return None;
        }
        let mut level: &Vec<Node<T>> = &self.roots;
        let mut d: usize = 0;
        assert(path@.skip(0) =~= path@);
        while d + 1 < path.len()
            invariant
                1 <= path@.len(),
                d + 1 <= path@.len(),
                node_at(self.spec_roots(), path@) == node_at(level@, path@.skip(d as int)),
            decreases path.len() - d,
        {
            let i = path[d];
            assert(path@.skip(d as int)[0] == i);
            if i >= level.len() {
                return None;
            }
            assert(path@.skip(d as int).drop_first() =~= path@.skip(d + 1));
            level = &level[i].children;
            d = d + 1;
        }
        let i = path[d];
        assert(path@.skip(d as int)[0] == i);
        assert(path@.skip(d as int).len() == 1);
        if i < level.len() {
            Some(&level[i])
        } else {
            None
        }
    }

    /// The node of the focused row.
    pub fn selected_node(&self) -> (r: Option<&Node<T>>)
        requires
            self.wf(),
        ensures
            match self.spec_list().focused {
                Some(f) => match node_at(self.spec_roots(), outline_rows(self.spec_roots())[f as int].path) {
                    Some(n) => r matches Some(x) && *x == n,
                    None => r is None,
                },
                None => r is None,
            },
    {
        match self.focused_path() {
            Some(p) => self.node_at_path(&p),
            None => None,
        }
    }

    /// Expand or collapse the focused node when it has children and
    /// `change` says the flag should move; the rows are rebuilt.
    fn set_selected(&mut self, v: bool, toggle: bool)
        requires
            old(self).wf(),
            forest_count(old(self).spec_roots(), 0) <= LIST_CAPACITY,
        ensures
            final(self).wf(),
            final(self).spec_bounds() == old(self).spec_bounds(),
            final(self).spec_state() == old(self).spec_state(),
            final(self).spec_format() == old(self).spec_format(),
            ({
                let roots = old(self).spec_roots();
                match old(self).spec_list().focused {
                    Some(f) => {
                        let path = outline_rows(roots)[f as int].path;
                        match node_at(roots, path) {
                            Some(n) => if n.children@.len() > 0 && (toggle || n.expanded != v) {
                                expanded_at(roots, final(self).spec_roots(), path, if toggle { !n.expanded } else { v })
                            } else {
                                final(self).spec_roots() == roots && final(self).spec_list() == old(self).spec_list()
                            },
                            None => final(self).spec_roots() == roots && final(self).spec_list() == old(self).spec_list(),
                        }
                    },
                    None => final(self).spec_roots() == roots && final(self).spec_list() == old(self).spec_list(),
                }
            }),
    {
        let path = match self.focused_path() {
            Some(p) => p,
            None => {
                return;
            },
        };
        let (has, cur) = match self.node_at_path(&path) {
            Some(n) => (n.children.len() > 0, n.expanded),
            None => {
                return;
            },
        };
        if has && (toggle || cur != v) {
            let nv = if toggle { !cur } else { v };
            set_expanded_at(&mut self.roots, &path, 0, nv);
            assert(path@.skip(0) =~= path@);
            proof {
                lemma_expanded_keeps_count(old(self).spec_roots(), self.spec_roots(), path@, nv);
            }
            self.rebuild_display();
        }
    }

    /// Right expands the focused node, Left collapses it, Enter toggles it,
    /// each using the key; other events move the focus as in a list.
    pub fn handle_event(&mut self, event: &mut Event)
        requires
            old(self).wf(),
            forest_count(old(self).spec_roots(), 0) <= LIST_CAPACITY,
        ensures
            final(self).wf(),
            final(self).spec_bounds() == old(self).spec_bounds(),
            final(self).spec_state() == old(self).spec_state(),
            final(self).spec_format() == old(self).spec_format(),
            ({
                let e = *old(event);
                let roots = old(self).spec_roots();
                if e.what == EventType::Keyboard && (e.key_code == KB_RIGHT || e.key_code == KB_LEFT || e.key_code
                    == KB_ENTER) {
                    let toggle = e.key_code == KB_ENTER;
                    let v = e.key_code == KB_RIGHT;
                    &&& *final(event) == (Event { what: EventType::Nothing, ..e })
                    &&& match old(self).spec_list().focused {
                        Some(f) => {
                            let path = outline_rows(roots)[f as int].path;
                            match node_at(roots, path) {
                                Some(n) => if n.children@.len() > 0 && (toggle || n.expanded != v) {
                                    expanded_at(roots, final(self).spec_roots(), path, if toggle { !n.expanded } else { v })
                                } else {
                                    final(self).spec_roots() == roots
                                },
                                None => final(self).spec_roots() == roots,
                            }
                        },
                        None => final(self).spec_roots() == roots,
                    }
                } else {
                    &&& final(self).spec_roots() == roots
                    &&& final(self).spec_list() == list_event_state(old(self).spec_list(), old(self).spec_bounds(), e)
                    &&& *final(event) == (if list_event_used(old(self).spec_list(), old(self).spec_bounds(), e) {
                        Event { what: EventType::Nothing, ..e }
                    } else {
                        e
                    })
                }
            }),
    {
        if event.what == EventType::Keyboard {
            let k = event.key_code;
            if k == KB_RIGHT {
                self.set_selected(true, false);
                event.clear();
                return;
            } else if k == KB_LEFT {
                self.set_selected(false, false);
                event.clear();
                return;
            } else if k == KB_ENTER {
                self.set_selected(false, true);
                event.clear();
                return;
            }
        }
        let b = self.bounds;
        handle_list_event(&mut self.list_state, b, event);
        assert forall|d: &T| call_requires(self.spec_format(), (d,)) by {
            assert(call_requires(old(self).spec_format(), (d,)));
        }
        assert(shows_rows(self.spec_display(), outline_rows(self.spec_roots()), self.spec_format()));
        assert(self.spec_list().range == self.spec_display().len());
        assert(self.spec_list().top_item <= LIST_CAPACITY);
    }

    /// The text of row `item`: its tree lines and mark, then its data's text.
    pub fn get_text(&self, item: usize) -> (t: String)
        requires
            self.wf(),
        ensures
            item < self.spec_display().len() ==> t@ == row_prefix(outline_rows(self.spec_roots())[item as int])
                + self.spec_display()[item as int].text@,
            item >= self.spec_display().len() ==> t@.len() == 0,
    {
        if item >= self.display_nodes.len() {
            return String::new();
        }
        let d = &self.display_nodes[item];
        proof {
            lemma_forest_rows_paths(self.roots@, Seq::empty(), Seq::empty(), 0);
        }
        assert(shows_row(self.display_nodes@[item as int], outline_rows(self.spec_roots())[item as int], self.format_fn));
        let level = d.path.len() - 1;
        let mut out: Vec<char> = Vec::new();
        let mut i: usize = 0;
        while i < level
            invariant
                level == d.path@.len() - 1,
                d.path@.len() >= 1,
                i <= level,
                out@.len() == 2 * i,
                forall|k: int| 0 <= k < 2 * i ==> #[trigger] out@[k] == (if k % 2 == 0 && k / 2 < d.parent_continues@.len()
                    && d.parent_continues@[k / 2] {
                    '\u{2502}'
                } else {
                    ' '
                }),
            decreases level - i,
        {
            if i < d.parent_continues.len() && d.parent_continues[i] {
                out.push('\u{2502}');
            } else {
                out.push(' ');
            }
            out.push(' ');
            i = i + 1;
        }
        let ghost lines = out@;
        if level > 0 {
            if d.is_last {
                out.push('\u{2514}');
            } else {
                out.push('\u{251c}');
            }
            out.push('\u{2500}');
        }
        let ghost branch = out@;
        if d.has_children {
            out.push('[');
            out.push(if d.expanded { '-' } else { '+' });
            out.push(']');
            out.push(' ');
        }
        let text = string_chars(&d.text);
        let mut j: usize = 0;
        let ghost before = out@;
        while j < text.len()
            invariant
                j <= text@.len(),
                out@ == before + text@.take(j as int),
            decreases text.len() - j,
        {
            out.push(text[j]);
            j = j + 1;
            assert(out@ =~= before + text@.take(j as int));
        }
        assert(text@.take(text@.len() as int) =~= text@);
        proof {
            let r = outline_rows(self.spec_roots())[item as int];
            assert(lines =~= Seq::new((2 * (r.path.len() - 1)) as nat, |k: int| {
                let ii = k / 2;
                if k % 2 == 0 && ii < r.parent_continues.len() && r.parent_continues[ii] {
                    '\u{2502}'
                } else {
                    ' '
                }
            }));
            assert(out@ =~= row_prefix(r) + self.spec_display()[item as int].text@);
        }
        string_from_chars(&out)
    }

    pub fn bounds(&self) -> (r: Rect)
        ensures
            r == self.spec_bounds(),
    {
        self.bounds
    }

    pub fn set_bounds(&mut self, bounds: Rect)
        requires
            old(self).wf(),
        ensures
            final(self).wf(),
            final(self).spec_bounds() == bounds,
            final(self).spec_roots() == old(self).spec_roots(),
            final(self).spec_list() == old(self).spec_list(),
    {
        self.bounds = bounds;
    }

    pub fn state(&self) -> (s: u16)
        ensures
            s == self.spec_state(),
    {
        self.state
    }

    pub fn set_state(&mut self, state: u16)
        requires
            old(self).wf(),
        ensures
            final(self).wf(),
            final(self).spec_state() == state,
            final(self).spec_roots() == old(self).spec_roots(),
            final(self).spec_list() == old(self).spec_list(),
            final(self).spec_bounds() == old(self).spec_bounds(),
    {
        self.state = state;
    }

    /// The list state: which row is focused and which is at the top.
    pub fn list_state(&self) -> (s: &ListViewerState)
        ensures
            *s == self.spec_list(),
    {
        &self.list_state
    }

    pub fn row_count(&self) -> (n: usize)
        ensures
            n == self.spec_display().len(),
    {
        self.display_nodes.len()
    }
}

/// Expanding or collapsing a node keeps the number of nodes.
proof fn lemma_expanded_keeps_count<T>(old: Seq<Node<T>>, new: Seq<Node<T>>, path: Seq<usize>, v: bool)
    requires
        expanded_at(old, new, path, v),
    ensures
        forest_count(new, 0) == forest_count(old, 0),
    decreases path.len(),
{
    if path.len() > 0 && path[0] < old.len() {
        let i = path[0] as int;
        if path.len() > 1 {
            lemma_expanded_keeps_count(old[i].children@, new[i].children@, path.drop_first(), v);
        }
        assert(node_count(new[i]) == node_count(old[i]));
        lemma_forest_count_replace(old, new, i, 0);
    }
}

/// Replacing one node by one with as many nodes keeps the count.
proof fn lemma_forest_count_replace<T>(old: Seq<Node<T>>, new: Seq<Node<T>>, i: int, j: int)
    requires
        new.len() == old.len(),
        0 <= i < old.len(),
        forall|k: int| 0 <= k < old.len() && k != i ==> #[trigger] new[k] == old[k],
        node_count(new[i]) == node_count(old[i]),
        0 <= j,
    ensures
        forest_count(new, j) == forest_count(old, j),
    decreases old.len() - j,
{
    if j < old.len() {
        lemma_forest_count_replace(old, new, i, j + 1);
    }
}

/// Whether two nodes hold the same data and expansion all the way down.
pub open spec fn same_node<T>(m: Node<T>, n: Node<T>) -> bool
    decreases m, 0int,
{
    &&& m.data == n.data
    &&& m.expanded == n.expanded
    &&& same_forest(m.children@, n.children@, 0)
}

/// Whether the forests `x[i..]` and `y[i..]` match node for node.
pub open spec fn same_forest<T>(x: Seq<Node<T>>, y: Seq<Node<T>>, i: int) -> bool
    decreases x, x.len() - i,
{
    if i < 0 || i >= x.len() {
        x.len() == y.len()
    } else {
        same_node(x[i], y[i]) && same_forest(x, y, i + 1)
    }
}

proof fn lemma_same_node_refl<T>(n: Node<T>)
    ensures
        same_node(n, n),
    decreases n, 0int,
{
    lemma_same_forest_refl(n.children@, 0);
}

proof fn lemma_same_forest_refl<T>(x: Seq<Node<T>>, i: int)
    requires
        0 <= i,
    ensures
        same_forest(x, x, i),
    decreases x, x.len() - i,
{
    if i < x.len() {
        lemma_same_node_refl(x[i]);
        lemma_same_forest_refl(x, i + 1);
    }
}

/// Matching nodes show the same rows.
proof fn lemma_same_node_rows<T>(m: Node<T>, n: Node<T>, is_last: bool, pc: Seq<bool>, path: Seq<usize>)
    requires
        same_node(m, n),
    ensures
        node_rows(m, is_last, pc, path) == node_rows(n, is_last, pc, path),
    decreases m, 0int,
{
    if m.expanded && m.children@.len() > 0 {
        let child_pc = if path.len() > 1 { pc.push(!is_last) } else { pc };
        lemma_same_forest_rows(m.children@, n.children@, child_pc, path, 0);
    }
    lemma_same_forest_len(m.children@, n.children@, 0);
}

proof fn lemma_same_forest_len<T>(x: Seq<Node<T>>, y: Seq<Node<T>>, i: int)
    requires
        0 <= i,
        same_forest(x, y, i),
    ensures
        x.len() == y.len(),
    decreases x.len() - i,
{
    if i < x.len() {
        lemma_same_forest_len(x, y, i + 1);
    }
}

proof fn lemma_same_forest_rows<T>(x: Seq<Node<T>>, y: Seq<Node<T>>, pc: Seq<bool>, prefix: Seq<usize>, i: int)
    requires
        0 <= i,
        same_forest(x, y, i),
    ensures
        forest_rows(x, pc, prefix, i) == forest_rows(y, pc, prefix, i),
    decreases x, x.len() - i,
{
    lemma_same_forest_len(x, y, i);
    if i < x.len() {
        lemma_same_node_rows(x[i], y[i], i == x.len() - 1, pc, prefix.push(i as usize));
        lemma_same_forest_rows(x, y, pc, prefix, i + 1);
    }
}

/// Expanding a collapsed node and collapsing it again gives back matching trees.
proof fn lemma_expand_collapse_same<T>(a: Seq<Node<T>>, b: Seq<Node<T>>, c: Seq<Node<T>>, path: Seq<usize>, i: int)
    requires
        expanded_at(a, b, path, true),
        expanded_at(b, c, path, false),
        node_at(a, path) matches Some(n) && !n.expanded,
        0 <= i,
    ensures
        same_forest(a, c, i),
    decreases path.len(), a.len() - i,
{
    let k = path[0] as int;
    assert(path.len() > 0 && k < a.len());
    assert(b.len() == a.len() && c.len() == b.len());
    if i < a.len() {
        if i == k {
            if path.len() == 1 {
                assert(a[k] == node_at(a, path)->0);
                lemma_same_forest_refl(a[k].children@, 0);
                assert(c[k].children == a[k].children);
                assert(same_node(a[k], c[k]));
            } else {
                lemma_expand_collapse_same(a[k].children@, b[k].children@, c[k].children@, path.drop_first(), 0);
                assert(same_node(a[k], c[k]));
            }
        } else {
            lemma_same_node_refl(a[i]);
            assert(c[i] == a[i]);
        }
        lemma_expand_collapse_same(a, b, c, path, i + 1);
    }
}

/// Collapsing a node just expanded gives back the rows the outline showed
/// before: when the node at `path` of the forest `a` is collapsed, `b` is
/// `a` with it expanded and `c` is `b` with it collapsed again, `c` shows the
/// same rows as `a`.
pub proof fn law_collapse_undoes_expand<T>(a: Seq<Node<T>>, b: Seq<Node<T>>, c: Seq<Node<T>>, path: Seq<usize>)
    requires
        expanded_at(a, b, path, true),
        expanded_at(b, c, path, false),
        node_at(a, path) matches Some(n) && !n.expanded,
    ensures
        outline_rows(c) == outline_rows(a),
{
    lemma_expand_collapse_same(a, b, c, path, 0);
    lemma_same_forest_rows(a, c, Seq::empty(), Seq::empty(), 0);
}

} // verus!
