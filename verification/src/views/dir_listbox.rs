//! A directory tree: the chain from the root down to the current
//! directory, then the current directory's subdirectories, drawn with tree
//! lines.
//!
//! Paths are `/`-separated text, taken as normalised (no empty, `.` or `..`
//! components). Reading the subdirectories is left to the caller, which
//! hands their names over.
use vstd::prelude::*;
use crate::draw::{Attr, Cell, DrawBuffer, DrawLine};
use crate::event::{Event, EventType, KB_ENTER};
use crate::geometry::{clamp_extent, spec_height, spec_width, Rect};
use crate::state::SF_FOCUSED;
use crate::text::{extend_chars, seq_lt, lemma_seq_lt_trans, lemma_seq_lt_trichotomy, str_chars, string_chars, string_from_chars, sub_chars, compare_chars, Order};
use crate::views::list_viewer::{handle_list_event, ListViewerState};

verus! {

/// Where the last `/` of `p` is; -1 when there is none.
pub open spec fn last_slash(p: Seq<char>) -> int
    decreases p.len(),
{
    if p.len() == 0 {
        -1
    } else if p.last() == '/' {
        p.len() - 1
    } else {
        last_slash(p.drop_last())
    }
}

pub proof fn lemma_last_slash(p: Seq<char>)
    ensures
        -1 <= last_slash(p) < p.len(),
        last_slash(p) >= 0 ==> p[last_slash(p)] == '/',
        forall|j: int| last_slash(p) < j < p.len() ==> p[j] != '/',
    decreases p.len(),
{
    if p.len() > 0 && p.last() != '/' {
        lemma_last_slash(p.drop_last());
        assert forall|j: int| last_slash(p) < j < p.len() implies p[j] != '/' by {
            if j < p.len() - 1 {
                assert(p.drop_last()[j] == p[j]);
            }
        }
    }
}

/// The directory holding `p`: none for the root `/` or the empty path; the
/// empty path for a single relative name; `/` for a name right under it.
pub open spec fn path_parent(p: Seq<char>) -> Option<Seq<char>> {
    if p.len() == 0 || p =~= seq!['/'] {
        None
    } else if last_slash(p) < 0 {
        Some(Seq::empty())
    } else if last_slash(p) == 0 {
        Some(seq!['/'])
    } else {
        Some(p.take(last_slash(p)))
    }
}

/// The last component of `p`.
pub open spec fn path_name(p: Seq<char>) -> Seq<char> {
    p.skip(last_slash(p) + 1)
}

/// `name` inside directory `dir`.
pub open spec fn path_join(dir: Seq<char>, name: Seq<char>) -> Seq<char> {
    if dir.len() == 0 {
        name
    } else if dir.last() == '/' {
        dir + name
    } else {
        dir + seq!['/'] + name
    }
}

pub proof fn lemma_parent_shorter(p: Seq<char>)
    requires
        path_parent(p) is Some,
    ensures
        path_parent(p)->0.len() < p.len(),
{
    lemma_last_slash(p);
    if last_slash(p) == 0 && p.len() == 1 {
        assert(p =~= seq!['/']);
    }
}

/// The top of `p`'s chain of parents.
pub open spec fn path_root(p: Seq<char>) -> Seq<char>
    decreases p.len(),
{
    match path_parent(p) {
        Some(q) => {
            proof {
                lemma_parent_shorter(p);
            }
            path_root(q)
        },
        None => p,
    }
}

/// The parent of a path is a prefix of it.
proof fn lemma_parent_is_prefix(p: Seq<char>)
    requires
        path_parent(p) is Some,
    ensures
        path_parent(p)->0 =~= p.take(path_parent(p)->0.len() as int),
{
    lemma_last_slash(p);
    lemma_parent_shorter(p);
    if last_slash(p) == 0 {
        assert(p.take(1) =~= seq!['/']);
    }
}

/// The root of a path is its outermost ancestor: it has no parent, and it
/// is a prefix of the path.
pub proof fn law_root_has_no_parent_and_prefixes_the_path(p: Seq<char>)
    ensures
        path_parent(path_root(p)) is None,
        path_root(p).len() <= p.len(),
        path_root(p) =~= p.take(path_root(p).len() as int),
    decreases p.len(),
{
    match path_parent(p) {
        Some(q) => {
            lemma_parent_shorter(p);
            lemma_parent_is_prefix(p);
            law_root_has_no_parent_and_prefixes_the_path(q);
            let r = path_root(q);
            assert(r =~= p.take(r.len() as int));
        },
        None => {
            assert(p =~= p.take(p.len() as int));
        },
    }
}

/// The directories from just under `root` down to `p`, each with its name.
pub open spec fn path_chain(p: Seq<char>, root: Seq<char>) -> Seq<(Seq<char>, Seq<char>)>
    decreases p.len(),
{
    if p == root {
        Seq::empty()
    } else {
        match path_parent(p) {
            Some(q) => {
                proof {
                    lemma_parent_shorter(p);
                }
                path_chain(q, root).push((path_name(p), p))
            },
            None => seq![(path_name(p), p)],
        }
    }
}

/// The sort key of a name: its lower-case form.
pub uninterp spec fn lowercase(s: Seq<char>) -> Seq<char>;

/// The key a name sorts by: its lower-case form, or the name itself.
pub open spec fn sort_key(s: Seq<char>, lower: bool) -> Seq<char> {
    if lower { lowercase(s) } else { s }
}

/// Where a name with key `k` goes in `out`, after every name whose key is
/// not above `k`.
pub open spec fn insert_position(out: Seq<Seq<char>>, k: Seq<char>, lower: bool, j: int) -> int
    decreases out.len() - j,
{
    if j >= out.len() || j < 0 {
        out.len() as int
    } else if seq_lt(k, sort_key(out[j], lower)) {
        j
    } else {
        insert_position(out, k, lower, j + 1)
    }
}

/// `names` sorted by their keys (lower-case forms when `lower` holds),
/// names with equal keys keeping their order.
pub open spec fn sorted_by(names: Seq<Seq<char>>, lower: bool) -> Seq<Seq<char>>
    decreases names.len(),
{
    if names.len() == 0 {
        Seq::empty()
    } else {
        let out = sorted_by(names.drop_last(), lower);
        out.insert(insert_position(out, sort_key(names.last(), lower), lower, 0), names.last())
    }
}

/// `names` sorted by their lower-case forms, equal keys keeping their order.
pub open spec fn sorted_names(names: Seq<Seq<char>>) -> Seq<Seq<char>> {
    sorted_by(names, true)
}


/// Whether no name in `s` has a key that comes before an earlier name's.
pub open spec fn ordered_by(s: Seq<Seq<char>>, lower: bool) -> bool {
    forall|i: int, j: int| 0 <= i < j < s.len() ==> !seq_lt(sort_key(#[trigger] s[j], lower), sort_key(#[trigger] s[i], lower))
}

proof fn lemma_insert_position(out: Seq<Seq<char>>, k: Seq<char>, lower: bool, j: int)
    requires
        0 <= j <= out.len(),
    ensures
        j <= insert_position(out, k, lower, j) <= out.len(),
        forall|t: int| j <= t < insert_position(out, k, lower, j) ==> !seq_lt(k, sort_key(#[trigger] out[t], lower)),
        insert_position(out, k, lower, j) < out.len() ==> seq_lt(k, sort_key(out[insert_position(out, k, lower, j)], lower)),
    decreases out.len() - j,
{
    if j < out.len() && !seq_lt(k, sort_key(out[j], lower)) {
        lemma_insert_position(out, k, lower, j + 1);
    }
}

/// Sorting names orders them by key and keeps every name, as often as it
/// occurs.
pub proof fn law_sorting_orders_and_keeps_names(names: Seq<Seq<char>>, lower: bool)
    ensures
        ordered_by(sorted_by(names, lower), lower),
        sorted_by(names, lower).to_multiset() == names.to_multiset(),
    decreases names.len(),
{
    broadcast use vstd::seq_lib::group_to_multiset_ensures;

    if names.len() == 0 {
        assert(sorted_by(names, lower) =~= Seq::<Seq<char>>::empty());
    } else {
        let rest = names.drop_last();
        let x = names.last();
        law_sorting_orders_and_keeps_names(rest, lower);
        let out = sorted_by(rest, lower);
        let k = sort_key(x, lower);
        let p = insert_position(out, k, lower, 0);
        lemma_insert_position(out, k, lower, 0);
        let res = out.insert(p, x);
        assert(res == sorted_by(names, lower));
        assert forall|i: int, j: int| 0 <= i < j < res.len() implies !seq_lt(
            sort_key(#[trigger] res[j], lower),
            sort_key(#[trigger] res[i], lower),
        ) by {
            if i == p {
                let q = j - 1;
                assert(res[j] == out[q]);
                assert(p < out.len());
                if q > p {
                    assert(!seq_lt(sort_key(out[q], lower), sort_key(out[p], lower)));
                }
                if seq_lt(sort_key(out[q], lower), k) {
                    lemma_seq_lt_trans(sort_key(out[q], lower), k, sort_key(out[p], lower));
                    lemma_seq_lt_trichotomy(sort_key(out[q], lower), sort_key(out[p], lower));
                }
            } else if j == p {
                assert(res[i] == out[i]);
                assert(!seq_lt(k, sort_key(out[i], lower)));
            } else {
                let oi = if i < p { i } else { i - 1 };
                let oj = if j < p { j } else { j - 1 };
                assert(res[i] == out[oi]);
                assert(res[j] == out[oj]);
            }
        }
        assert(names =~= rest.push(x));
    }
}

/// `str::to_lowercase`, the full Unicode lower-casing of `s`.
#[verifier::external_body]
fn lowercase_of(s: &str) -> (r: String)
    ensures
        r@ == lowercase(s@),
{
    s.to_lowercase()
}

/// One row of the tree.
pub struct DirEntry {
    pub name: String,
    pub path: String,
    pub level: usize,
    /// Whether this is the last entry at its level.
    pub is_last: bool,
}

/// The row text: a bar or blank per parent level (bar where that level
/// continues below), a branch for an entry below the root, then the name.
pub open spec fn tree_text(name: Seq<char>, level: int, is_last: bool, continues: Seq<bool>) -> Seq<char> {
    tree_prefix(level, continues) + (if level > 0 {
        if is_last { seq!['\u{2514}', '\u{2500}'] } else { seq!['\u{251C}', '\u{2500}'] }
    } else {
        Seq::empty()
    }) + name
}

/// The bars and blanks for the first `n` parent levels.
pub open spec fn tree_prefix(n: int, continues: Seq<bool>) -> Seq<char>
    decreases n,
{
    if n <= 0 {
        Seq::empty()
    } else {
        tree_prefix(n - 1, continues) + (if n - 1 < continues.len() && continues[n - 1] {
            seq!['\u{2502}', ' ']
        } else {
            seq![' ', ' ']
        })
    }
}

impl DirEntry {
    /// The row text with `parent_continues` saying which parent levels go on.
    pub fn display_text(&self, parent_continues: &Vec<bool>) -> (s: String)
        ensures
            s@ == tree_text(self.name@, self.level as int, self.is_last, parent_continues@),
    {
        let mut out: Vec<char> = Vec::new();
        let mut i: usize = 0;
        while i < self.level
            invariant
                i <= self.level,
                out@ == tree_prefix(i as int, parent_continues@),
            decreases self.level - i,
        {
            if i < parent_continues.len() && parent_continues[i] {
                out.push('\u{2502}');
                out.push(' ');
            } else {
                out.push(' ');
                out.push(' ');
            }
            i = i + 1;
            assert(out@ =~= tree_prefix(i as int, parent_continues@));
        }
        let ghost pre = out@;
        if self.level > 0 {
            if self.is_last {
                out.push('\u{2514}');
            } else {
                out.push('\u{251C}');
            }
            out.push('\u{2500}');
        }
        let name = string_chars(&self.name);
        extend_chars(&mut out, &name);
        assert(out@ =~= tree_text(self.name@, self.level as int, self.is_last, parent_continues@));
        string_from_chars(&out)
    }
}


/// What a row of the tree shows and where it leads.
pub struct EntryView {
    pub name: Seq<char>,
    pub path: Seq<char>,
    pub level: int,
    pub is_last: bool,
}

impl DirEntry {
    pub open spec fn view(&self) -> EntryView {
        EntryView { name: self.name@, path: self.path@, level: self.level as int, is_last: self.is_last }
    }
}

/// The rows of the tree for current directory `cur` under `root`: the root
/// (shown as `/` when its path is empty), the chain down to `cur`, then the
/// subdirectories in `subs`, one level deeper.
pub open spec fn tree_rows(cur: Seq<char>, root: Seq<char>, subs: Seq<Seq<char>>) -> Seq<EntryView> {
    let chain = path_chain(cur, root);
    let top = EntryView {
        name: if root.len() == 0 { seq!['/'] } else { root },
        path: root,
        level: 0,
        is_last: chain.len() == 0,
    };
    seq![top] + Seq::new(
        chain.len(),
        |k: int| EntryView { name: chain[k].0, path: chain[k].1, level: k + 1, is_last: k == chain.len() - 1 },
    ) + Seq::new(
        subs.len(),
        |k: int| EntryView {
            name: subs[k],
            path: path_join(cur, subs[k]),
            level: (chain.len() + 1) as int,
            is_last: k == subs.len() - 1,
        },
    )
}

/// The first row whose path is `p`; 0 when none is.
pub open spec fn row_of_path(rows: Seq<EntryView>, p: Seq<char>, k: int) -> int
    decreases rows.len() - k,
{
    if k >= rows.len() || k < 0 {
        0
    } else if rows[k].path == p {
        k
    } else {
        row_of_path(rows, p, k + 1)
    }
}

/// Whether some row after `idx` sits at `level`.
pub open spec fn level_continues(rows: Seq<EntryView>, idx: int, level: int) -> bool {
    exists|j: int| idx < j < rows.len() && (#[trigger] rows[j]).level == level
}

/// Colours of the directory tree: rows, and the focused row while the tree
/// has the focus.
#[derive(Clone, Copy, Debug, PartialEq, Eq, Structural)]
pub struct DirListColors {
    pub normal: Attr,
    pub focused: Attr,
}

/// Where the last `/` of `p` is, if it has one.
fn last_slash_of(p: &Vec<char>) -> (k: Option<usize>)
    ensures
        (match k {
            Some(i) => last_slash(p@) == i,
            None => last_slash(p@) == -1,
        }),
{
    let mut i: usize = p.len();
    assert(p@.take(p@.len() as int) =~= p@);
    while i > 0
        invariant
            i <= p@.len(),
            last_slash(p@.take(i as int)) == last_slash(p@),
        decreases i,
    {
        assert(p@.take(i as int).drop_last() =~= p@.take(i - 1));
        if p[i - 1] == '/' {
            return Some(i - 1);
        }
        i = i - 1;
    }
    None
}

/// The directory holding `p`, if it has one.
pub fn parent_path(p: &Vec<char>) -> (r: Option<Vec<char>>)
    ensures
        (match r {
            Some(q) => path_parent(p@) == Some(q@),
            None => path_parent(p@) is None,
        }),
{
    if p.len() == 0 || (p.len() == 1 && p[0] == '/') {
        assert(p@.len() == 1 ==> (p@ =~= seq!['/'] <==> p@[0] == '/'));
        return None;
    }
    assert(!(p@ =~= seq!['/']));
    proof {
        lemma_last_slash(p@);
    }
    match last_slash_of(p) {
        None => Some(Vec::new()),
        Some(k) => {
            if k == 0 {
                let mut v: Vec<char> = Vec::new();
                v.push('/');
                assert(v@ =~= seq!['/']);
                Some(v)
            } else {
                Some(sub_chars(p, 0, k))
            }
        },
    }
}

/// The last component of `p`.
fn name_of(p: &Vec<char>) -> (r: Vec<char>)
    ensures
        r@ == path_name(p@),
{
    proof {
        lemma_last_slash(p@);
    }
    let n = p.len();
    let start: usize = match last_slash_of(p) {
        Some(k) => k + 1,
        None => 0,
    };
    let r = sub_chars(p, start, p.len());
    assert(r@ =~= path_name(p@));
    r
}

/// The top of `p`'s chain of parents.
fn root_of(p: &Vec<char>) -> (r: Vec<char>)
    ensures
        r@ == path_root(p@),
{
    let mut cur = sub_chars(p, 0, p.len());
    assert(cur@ =~= p@);
    loop
        invariant
            cur@.len() <= p@.len(),
            path_root(cur@) == path_root(p@),
        decreases cur@.len(),
    {
        match parent_path(&cur) {
            Some(q) => {
                proof {
                    lemma_parent_shorter(cur@);
                }
                cur = q;
            },
            None => {
                return cur;
            },
        }
    }
}

/// `name` inside directory `dir`.
fn join_path(dir: &Vec<char>, name: &Vec<char>) -> (r: Vec<char>)
    ensures
        r@ == path_join(dir@, name@),
{
    let mut out = sub_chars(dir, 0, dir.len());
    assert(out@ =~= dir@);
    if dir.len() > 0 && dir[dir.len() - 1] != '/' {
        out.push('/');
    }
    extend_chars(&mut out, name);
    assert(out@ =~= path_join(dir@, name@));
    out
}

/// The (name, path) views of a list of pairs.
pub open spec fn pairs_view(v: Seq<(Vec<char>, Vec<char>)>) -> Seq<(Seq<char>, Seq<char>)> {
    v.map_values(|t: (Vec<char>, Vec<char>)| (t.0@, t.1@))
}

/// The directories from just under `root` down to `cur`, with their names.
fn chain_of(cur: &Vec<char>, root: &Vec<char>) -> (out: Vec<(Vec<char>, Vec<char>)>)
    ensures
        pairs_view(out@) == path_chain(cur@, root@),
{
    let mut out: Vec<(Vec<char>, Vec<char>)> = Vec::new();
    let mut c = sub_chars(cur, 0, cur.len());
    assert(c@ =~= cur@);
    loop
        invariant
            c@.len() <= cur@.len(),
            path_chain(cur@, root@) == path_chain(c@, root@) + pairs_view(out@),
        decreases c@.len(),
    {
        if compare_chars(&c, root) == Order::Same {
            assert(path_chain(c@, root@) =~= Seq::empty());
            assert(pairs_view(out@) =~= Seq::empty() + pairs_view(out@));
            return out;
        }
        let name = name_of(&c);
        let here = sub_chars(&c, 0, c.len());
        assert(here@ =~= c@);
        let ghost before = pairs_view(out@);
        out.insert(0, (name, here));
        assert(pairs_view(out@) =~= seq![(path_name(c@), c@)] + before);
        match parent_path(&c) {
            Some(q) => {
                proof {
                    lemma_parent_shorter(c@);
                }
                assert(path_chain(c@, root@) == path_chain(q@, root@).push((path_name(c@), c@)));
                assert(path_chain(q@, root@).push((path_name(c@), c@)) + before =~= path_chain(q@, root@) + (seq![(path_name(c@), c@)] + before));
                c = q;
            },
            None => {
                assert(path_chain(c@, root@) =~= seq![(path_name(c@), c@)]);
                assert(pairs_view(out@) =~= path_chain(c@, root@) + before);
                return out;
            },
        }
    }
}

/// The lower-case form of `s`.
pub(crate) fn lowercase_chars(s: &String) -> (k: Vec<char>)
    ensures
        k@ == lowercase(s@),
{
    let l = lowercase_of(s.as_str());
    string_chars(&l)
}

/// The sort key of `s`: its lower-case form, or `s` itself.
fn key_of(s: &String, lower: bool) -> (k: Vec<char>)
    ensures
        k@ == sort_key(s@, lower),
{
    if lower {
        let l = lowercase_of(s.as_str());
        string_chars(&l)
    } else {
        string_chars(s)
    }
}

/// `names` sorted by their keys, equal keys keeping their order.
pub fn sort_names_by(names: &Vec<String>, lower: bool) -> (out: Vec<String>)
    ensures
        out@.map_values(|s: String| s@) == sorted_by(names@.map_values(|s: String| s@), lower),
{
    let ghost nv = names@.map_values(|s: String| s@);
    let mut out: Vec<String> = Vec::new();
    let mut i: usize = 0;
    while i < names.len()
        invariant
            i <= names@.len(),
            nv == names@.map_values(|s: String| s@),
            out@.map_values(|s: String| s@) == sorted_by(nv.take(i as int), lower),
        decreases names.len() - i,
    {
        let ghost ov = out@.map_values(|s: String| s@);
        let key = key_of(&names[i], lower);
        let mut j: usize = 0;
        while j < out.len()
            invariant
                j <= out@.len(),
                ov == out@.map_values(|s: String| s@),
                key@ == sort_key(nv[i as int], lower),
                insert_position(ov, key@, lower, j as int) == insert_position(ov, key@, lower, 0),
                i < names@.len(),
                nv == names@.map_values(|s: String| s@),
            ensures
                j <= out@.len(),
                insert_position(ov, key@, lower, 0) == j,
            decreases out.len() - j,
        {
            let other = key_of(&out[j], lower);
            if compare_chars(&key, &other) == Order::Before {
                break;
            }
            j = j + 1;
        }
        let c = string_chars(&names[i]);
        let copy = string_from_chars(&c);
        out.insert(j, copy);
        assert(nv.take(i + 1).drop_last() =~= nv.take(i as int));
        assert(out@.map_values(|s: String| s@) =~= ov.insert(j as int, nv[i as int]));
        i = i + 1;
    }
    assert(nv.take(names@.len() as int) =~= nv);
    out
}

/// Which parent levels of row `item` go on below it: level `i` does when a
/// later row (after the first row with the same path) sits at level `i`.
pub open spec fn continues_of(rows: Seq<EntryView>, item: int) -> Seq<bool> {
    let idx = row_of_path(rows, rows[item].path, 0);
    Seq::new(rows[item].level as nat, |i: int| level_continues(rows, idx, i))
}

/// The text of row `item`.
pub open spec fn row_text(rows: Seq<EntryView>, item: int) -> Seq<char> {
    tree_text(rows[item].name, rows[item].level, rows[item].is_last, continues_of(rows, item))
}

pub struct DirListBox {
    bounds: Rect,
    state: u16,
    list_state: ListViewerState,
    entries: Vec<DirEntry>,
    current_path: Vec<char>,
    root_path: Vec<char>,
}

impl DirListBox {
    pub closed spec fn spec_bounds(&self) -> Rect {
        self.bounds
    }

    pub closed spec fn spec_state(&self) -> u16 {
        self.state
    }

    pub closed spec fn spec_list(&self) -> ListViewerState {
        self.list_state
    }

    pub closed spec fn spec_rows(&self) -> Seq<EntryView> {
        self.entries@.map_values(|e: DirEntry| e.view())
    }

    pub closed spec fn spec_current(&self) -> Seq<char> {
        self.current_path@
    }

    pub closed spec fn spec_root(&self) -> Seq<char> {
        self.root_path@
    }

    /// Rebuild the rows for the current directory, whose subdirectories
    /// are named in `subdirs`, and focus the current directory's row.
    fn rebuild_tree(&mut self, subdirs: &Vec<String>)
        ensures
            final(self).spec_rows() == tree_rows(
                old(self).spec_current(),
                old(self).spec_root(),
                sorted_names(subdirs@.map_values(|s: String| s@)),
            ),
            final(self).spec_list().range == final(self).spec_rows().len(),
            final(self).spec_list().focused == Some(row_of_path(final(self).spec_rows(), old(self).spec_current(), 0) as usize),
            final(self).spec_list().top_item == (if old(self).spec_list().top_item >= final(self).spec_rows().len() {
                (final(self).spec_rows().len() - 1) as usize
            } else {
                old(self).spec_list().top_item
            }),
            final(self).spec_list().num_cols == old(self).spec_list().num_cols,
            final(self).spec_list().handle_space == old(self).spec_list().handle_space,
            final(self).spec_current() == old(self).spec_current(),
            final(self).spec_root() == old(self).spec_root(),
            final(self).spec_bounds() == old(self).spec_bounds(),
            final(self).spec_state() == old(self).spec_state(),
    {
        let cur = &self.current_path;
        let root = &self.root_path;
        let chain = chain_of(cur, root);
        let subs = sort_names_by(subdirs, true);
        let ghost cv = pairs_view(chain@);
        let ghost sv = subs@.map_values(|s: String| s@);
        let ghost want = tree_rows(cur@, root@, sv);
        let mut entries: Vec<DirEntry> = Vec::new();
        let root_name: Vec<char> = if root.len() == 0 {
            let mut v: Vec<char> = Vec::new();
            v.push('/');
            v
        } else {
            sub_chars(root, 0, root.len())
        };
        assert(root_name@ =~= (if root@.len() == 0 { seq!['/'] } else { root@ }));
        let root_copy = sub_chars(root, 0, root.len());
        assert(root_copy@ =~= root@);
        entries.push(DirEntry {
            name: string_from_chars(&root_name),
            path: string_from_chars(&root_copy),
            level: 0,
            is_last: chain.len() == 0,
        });
        let mut k: usize = 0;
        while k < chain.len()
            invariant
                cv == pairs_view(chain@),
                cv == path_chain(cur@, root@),
                want == tree_rows(cur@, root@, sv),
                k <= chain@.len(),
                entries@.len() == k + 1,
                forall|q: int| 0 <= q < k + 1 ==> #[trigger] entries@[q].view() == want[q],
            decreases chain.len() - k,
        {
            let name = string_from_chars(&chain[k].0);
            let path = string_from_chars(&chain[k].1);
            entries.push(DirEntry { name, path, level: k + 1, is_last: k == chain.len() - 1 });
            k = k + 1;
        }
        let base = entries.len();
        let mut j: usize = 0;
        while j < subs.len()
            invariant
                sv == subs@.map_values(|s: String| s@),
                cv == path_chain(cur@, root@),
                cv.len() == chain@.len(),
                want == tree_rows(cur@, root@, sv),
                base == chain@.len() + 1,
                j <= subs@.len(),
                entries@.len() == base + j,
                forall|q: int| 0 <= q < base + j ==> #[trigger] entries@[q].view() == want[q],
            decreases subs.len() - j,
        {
            let name_chars = string_chars(&subs[j]);
            let path = join_path(cur, &name_chars);
            let name = string_from_chars(&name_chars);
            entries.push(DirEntry {
                name,
                path: string_from_chars(&path),
                level: chain.len() + 1,
                is_last: j == subs.len() - 1,
            });
            j = j + 1;
        }
        assert(entries@.map_values(|e: DirEntry| e.view()) =~= want);
        let n = entries.len();
        let mut idx: usize = 0;
        let mut found = false;
        let mut q: usize = 0;
        while q < n
            invariant
                n == entries@.len(),
                q <= n,
                row_of_path(entries@.map_values(|e: DirEntry| e.view()), cur@, q as int)
                    == row_of_path(entries@.map_values(|e: DirEntry| e.view()), cur@, 0),
            ensures
                (q < n && entries@[q as int].path@ == cur@ && row_of_path(entries@.map_values(|e: DirEntry| e.view()), cur@, 0) == q)
                || (q == n && row_of_path(entries@.map_values(|e: DirEntry| e.view()), cur@, 0) == 0),
            decreases n - q,
        {
            let pc = string_chars(&entries[q].path);
            if compare_chars(&pc, cur) == Order::Same {
                break;
            }
            q = q + 1;
        }
        if q < n {
            idx = q;
        }
        self.entries = entries;
        self.list_state.set_range(n);
        self.list_state.focused = Some(idx);
    }

    /// A tree for directory `path`, whose subdirectories are named in `subdirs`.
    pub fn new(bounds: Rect, path: &str, subdirs: &Vec<String>) -> (d: DirListBox)
        ensures
            d.spec_bounds() == bounds,
            d.spec_state() == 0,
            d.spec_current() == path@,
            d.spec_root() == path_root(path@),
            d.spec_rows() == tree_rows(path@, path_root(path@), sorted_names(subdirs@.map_values(|s: String| s@))),
            d.spec_list().range == d.spec_rows().len(),
            d.spec_list().focused == Some(row_of_path(d.spec_rows(), path@, 0) as usize),
            d.spec_list().top_item == 0,
    {
        let cur = str_chars(path);
        let root = root_of(&cur);
        let mut d = DirListBox {
            bounds,
            state: 0,
            list_state: ListViewerState::new(),
            entries: Vec::new(),
            current_path: cur,
            root_path: root,
        };
        d.rebuild_tree(subdirs);
        d
    }

    /// Show directory `path`, whose subdirectories are named in `subdirs`,
    /// under the same root.
    pub fn change_dir(&mut self, path: &str, subdirs: &Vec<String>)
        ensures
            final(self).spec_current() == path@,
            final(self).spec_root() == old(self).spec_root(),
            final(self).spec_rows() == tree_rows(path@, old(self).spec_root(), sorted_names(subdirs@.map_values(|s: String| s@))),
            final(self).spec_list().range == final(self).spec_rows().len(),
            final(self).spec_list().focused == Some(row_of_path(final(self).spec_rows(), path@, 0) as usize),
            final(self).spec_bounds() == old(self).spec_bounds(),
            final(self).spec_state() == old(self).spec_state(),
    {
        self.current_path = str_chars(path);
        self.rebuild_tree(subdirs);
    }

    /// The top of `path`'s chain of parents: `/` for an absolute path.
    pub fn find_root(path: &str) -> (r: String)
        ensures
            r@ == path_root(path@),
    {
        let p = str_chars(path);
        let r = root_of(&p);
        string_from_chars(&r)
    }

    pub fn current_path(&self) -> (s: String)
        ensures
            s@ == self.spec_current(),
    {
        string_from_chars(&self.current_path)
    }

    /// The focused row, if there is one.
    pub fn get_focused_entry(&self) -> (r: Option<&DirEntry>)
        ensures
            r matches Some(e) ==> (self.spec_list().focused matches Some(f) && f < self.spec_rows().len() && e.view() == self.spec_rows()[f as int]),
            r is None ==> !(self.spec_list().focused matches Some(f) && f < self.spec_rows().len()),
    {
        match self.list_state.focused {
            Some(f) => {
                if f < self.entries.len() {
                    Some(&self.entries[f])
                } else {
                    None
                }
            },
            None => None,
        }
    }

    /// The directory to enter for the focused row: its path.
    pub fn enter_focused_dir(&self) -> (r: Option<String>)
        ensures
            r matches Some(p) ==> (self.spec_list().focused matches Some(f) && f < self.spec_rows().len() && p@ == self.spec_rows()[f as int].path),
            r is None ==> !(self.spec_list().focused matches Some(f) && f < self.spec_rows().len()),
    {
        match self.get_focused_entry() {
            Some(e) => {
                let c = string_chars(&e.path);
                Some(string_from_chars(&c))
            },
            None => None,
        }
    }

    /// The directory holding the current one, if there is one.
    pub fn parent_dir(&self) -> (r: Option<String>)
        ensures
            (match r {
                Some(p) => path_parent(self.spec_current()) == Some(p@),
                None => path_parent(self.spec_current()) is None,
            }),
    {
        match parent_path(&self.current_path) {
            Some(p) => Some(string_from_chars(&p)),
            None => None,
        }
    }

    /// Which parent levels of row `item` continue below it.
    fn parent_continues(&self, item: usize) -> (c: Vec<bool>)
        requires
            item < self.spec_rows().len(),
        ensures
            c@ == continues_of(self.spec_rows(), item as int),
    {
        let ghost rows = self.spec_rows();
        let target = string_chars(&self.entries[item].path);
        let n = self.entries.len();
        let mut idx: usize = 0;
        let mut q: usize = 0;
        while q < n
            invariant
                rows == self.entries@.map_values(|e: DirEntry| e.view()),
                target@ == rows[item as int].path,
                n == rows.len(),
                q <= n,
                row_of_path(rows, target@, q as int) == row_of_path(rows, target@, 0),
            ensures
                (q < n && row_of_path(rows, target@, 0) == q) || (q == n && row_of_path(rows, target@, 0) == 0),
            decreases n - q,
        {
            let pc = string_chars(&self.entries[q].path);
            if compare_chars(&pc, &target) == Order::Same {
                break;
            }
            q = q + 1;
        }
        if q < n {
            idx = q;
        }
        let level = self.entries[item].level;
        let mut out: Vec<bool> = Vec::new();
        let mut i: usize = 0;
        while i < level
            invariant
                rows == self.entries@.map_values(|e: DirEntry| e.view()),
                idx == row_of_path(rows, rows[item as int].path, 0),
                idx < n,
                item < n,
                n == rows.len(),
                level == rows[item as int].level,
                i <= level,
                out@ == Seq::new(i as nat, |k: int| level_continues(rows, idx as int, k)),
            decreases level - i,
        {
            let mut more = false;
            let mut j: usize = idx + 1;
            while j < n
                invariant_except_break
                    !more,
                invariant
                    rows == self.entries@.map_values(|e: DirEntry| e.view()),
                    n == rows.len(),
                    idx + 1 <= j <= n,
                    forall|t: int| idx < t < j ==> (#[trigger] rows[t]).level != i,
                ensures
                    more == level_continues(rows, idx as int, i as int),
                decreases n - j,
            {
                if self.entries[j].level == i {
                    more = true;
                    assert(rows[j as int].level == i);
                    break;
                }
                j = j + 1;
            }
            out.push(more);
            i = i + 1;
            assert(out@ =~= Seq::new(i as nat, |k: int| level_continues(rows, idx as int, k)));
        }
        out
    }

    /// The text of row `item`; empty past the last row.
    pub fn get_text(&self, item: usize) -> (s: String)
        ensures
            item < self.spec_rows().len() ==> s@ == row_text(self.spec_rows(), item as int),
            item >= self.spec_rows().len() ==> s@.len() == 0,
    {
        if item < self.entries.len() {
            let c = self.parent_continues(item);
            self.entries[item].display_text(&c)
        } else {
            String::new()
        }
    }

    pub fn bounds(&self) -> (r: Rect)
        ensures
            r == self.spec_bounds(),
    {
        self.bounds
    }

    pub fn state(&self) -> (s: u16)
        ensures
            s == self.spec_state(),
    {
        self.state
    }

    pub fn set_state(&mut self, state: u16)
        ensures
            final(self).spec_state() == state,
            final(self).spec_rows() == old(self).spec_rows(),
            final(self).spec_list() == old(self).spec_list(),
            final(self).spec_current() == old(self).spec_current(),
            final(self).spec_root() == old(self).spec_root(),
            final(self).spec_bounds() == old(self).spec_bounds(),
    {
        self.state = state;
    }

    /// A focused tree applies the list navigation to the event, then takes
    /// an Enter nobody used: it is cleared and `true` asks the caller to
    /// enter the focused row's directory (see `enter_focused_dir`). An
    /// unfocused tree leaves the event alone.
    pub fn handle_event(&mut self, event: &mut Event) -> (enter: bool)
        requires
            crate::views::list_viewer::lv_room(old(self).spec_list()),
        ensures
            final(self).spec_rows() == old(self).spec_rows(),
            final(self).spec_current() == old(self).spec_current(),
            final(self).spec_root() == old(self).spec_root(),
            final(self).spec_bounds() == old(self).spec_bounds(),
            final(self).spec_state() == old(self).spec_state(),
            old(self).spec_state() & SF_FOCUSED == 0 ==> {
                &&& !enter
                &&& *final(event) == *old(event)
                &&& final(self).spec_list() == old(self).spec_list()
            },
            old(self).spec_state() & SF_FOCUSED != 0 ==> ({
                let used = crate::views::list_viewer::list_event_used(old(self).spec_list(), old(self).spec_bounds(), *old(event));
                let after = if used { Event { what: EventType::Nothing, ..*old(event) } } else { *old(event) };
                &&& final(self).spec_list() == crate::views::list_viewer::list_event_state(old(self).spec_list(), old(self).spec_bounds(), *old(event))
                &&& enter == (after.what == EventType::Keyboard && after.key_code == KB_ENTER)
                &&& *final(event) == (if enter { Event { what: EventType::Nothing, ..after } } else { after })
            }),
    {
        if self.state & SF_FOCUSED == 0 {
            return false;
        }
        handle_list_event(&mut self.list_state, self.bounds, event);
        if event.what == EventType::Keyboard && event.key_code == KB_ENTER {
            event.clear();
            return true;
        }
        false
    }

    /// The colour of row `item`: focused only when the tree has the focus
    /// and the row is the focused one.
    pub open spec fn spec_row_attr(&self, colors: DirListColors, item: int) -> Attr {
        if self.spec_state() & SF_FOCUSED != 0 && self.spec_list().focused == Some(item as usize) {
            colors.focused
        } else {
            colors.normal
        }
    }

    /// Cell `x` of screen row `y`: the row's text, then blanks.
    pub open spec fn spec_cell(&self, colors: DirListColors, y: int, x: int) -> Cell {
        let item = self.spec_list().top_item + y;
        if item < self.spec_rows().len() {
            let t = row_text(self.spec_rows(), item);
            Cell { ch: if x < t.len() { t[x] } else { ' ' }, attr: self.spec_row_attr(colors, item) }
        } else {
            Cell { ch: ' ', attr: colors.normal }
        }
    }

    /// The tree's rows on screen.
    pub fn draw(&self, colors: DirListColors) -> (lines: Vec<DrawLine>)
        requires
            crate::views::list_viewer::lv_room(self.spec_list()),
        ensures
            lines@.len() == clamp_extent(spec_height(self.spec_bounds())),
            forall|y: int| 0 <= y < lines@.len() ==> {
                &&& #[trigger] lines@[y].x == self.spec_bounds().a.x
                &&& lines@[y].y == self.spec_bounds().a.y + y
                &&& lines@[y].buf.data@.len() == clamp_extent(spec_width(self.spec_bounds()))
                &&& forall|x: int| 0 <= x < lines@[y].buf.data@.len() ==> #[trigger] lines@[y].buf.data@[x] == self.spec_cell(colors, y, x)
            },
    {
        let width = self.bounds.width_clamped() as usize;
        let height = self.bounds.height_clamped() as usize;
        let mut lines: Vec<DrawLine> = Vec::new();
        let mut y: usize = 0;
        while y < height
            invariant
                crate::views::list_viewer::lv_room(self.spec_list()),
                width == clamp_extent(spec_width(self.spec_bounds())),
                height == clamp_extent(spec_height(self.spec_bounds())),
                height <= 32767,
                y <= height,
                lines@.len() == y,
                forall|r: int| 0 <= r < y ==> {
                    &&& #[trigger] lines@[r].x == self.spec_bounds().a.x
                    &&& lines@[r].y == self.spec_bounds().a.y + r
                    &&& lines@[r].buf.data@.len() == width
                    &&& forall|x: int| 0 <= x < width ==> #[trigger] lines@[r].buf.data@[x] == self.spec_cell(colors, r, x)
                },
            decreases height - y,
        {
            let item = self.list_state.top_item + y;
            let mut buf = DrawBuffer::new(width);
            if item < self.entries.len() {
                let attr = if self.state & SF_FOCUSED != 0 && self.list_state.focused == Some(item) {
                    colors.focused
                } else {
                    colors.normal
                };
                let text = self.get_text(item);
                let tc = string_chars(&text);
                buf.move_char(0, ' ', attr, width);
                buf.move_chars(0, &tc, attr);
                assert forall|x: int| 0 <= x < width implies #[trigger] buf.data@[x] == self.spec_cell(colors, y as int, x) by {
                }
            } else {
                buf.move_char(0, ' ', colors.normal, width);
                assert forall|x: int| 0 <= x < width implies #[trigger] buf.data@[x] == self.spec_cell(colors, y as int, x) by {
                }
            }
            assert(self.bounds.a.y + y < self.bounds.b.y);
            let row_y = (self.bounds.a.y as i32 + y as i32) as i16;
            let ghost before = lines@;
            lines.push(DrawLine::new(self.bounds.a.x, row_y, buf));
            assert(lines@[y as int].y == self.spec_bounds().a.y + y);
            assert(forall|r: int| 0 <= r < y ==> lines@[r] == before[r]);
            y = y + 1;
        }
        lines
    }
}

/// Builder for directory trees; bounds and path must be given.
pub struct DirListBoxBuilder {
    bounds: Option<Rect>,
    path: Option<Vec<char>>,
}

impl DirListBoxBuilder {
    pub closed spec fn spec_bounds(&self) -> Option<Rect> {
        self.bounds
    }

    pub closed spec fn spec_path(&self) -> Option<Seq<char>> {
        match self.path {
            Some(p) => Some(p@),
            None => None,
        }
    }

    pub fn new() -> (b: Self)
        ensures
            b.spec_bounds() is None,
            b.spec_path() is None,
    {
        DirListBoxBuilder { bounds: None, path: None }
    }

    pub fn bounds(self, bounds: Rect) -> (b: Self)
        ensures
            b.spec_bounds() == Some(bounds),
            b.spec_path() == self.spec_path(),
    {
        DirListBoxBuilder { bounds: Some(bounds), ..self }
    }

    pub fn path(self, path: &str) -> (b: Self)
        ensures
            b.spec_path() == Some(path@),
            b.spec_bounds() == self.spec_bounds(),
    {
        DirListBoxBuilder { path: Some(str_chars(path)), ..self }
    }

    /// The tree; bounds and path must have been given, and `subdirs` names
    /// the path's subdirectories.
    pub fn build(self, subdirs: &Vec<String>) -> (d: DirListBox)
        requires
            self.spec_bounds() is Some,
            self.spec_path() is Some,
        ensures
            d.spec_bounds() == self.spec_bounds()->0,
            d.spec_current() == self.spec_path()->0,
            d.spec_root() == path_root(self.spec_path()->0),
            d.spec_rows() == tree_rows(self.spec_path()->0, path_root(self.spec_path()->0), sorted_names(subdirs@.map_values(|s: String| s@))),
    {
        let bounds = self.bounds.unwrap();
        let p = self.path.unwrap();
        let s = string_from_chars(&p);
        DirListBox::new(bounds, s.as_str(), subdirs)
    }

    pub fn build_boxed(self, subdirs: &Vec<String>) -> (d: Box<DirListBox>)
        requires
            self.spec_bounds() is Some,
            self.spec_path() is Some,
        ensures
            d.spec_bounds() == self.spec_bounds()->0,
            d.spec_current() == self.spec_path()->0,
            d.spec_root() == path_root(self.spec_path()->0),
    {
        Box::new(self.build(subdirs))
    }
}

} // verus!
