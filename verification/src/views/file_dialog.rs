//! The file-open dialog: a name field, the list of the current
//! directory's subdirectories and matching files, Open and Cancel.
//!
//! The dialog decides what a name or a chosen list entry means (enter a
//! directory, go up, change the filter, or pick a file); reading the
//! directory is left to the caller, which hands over the names it found.
use vstd::prelude::*;
use crate::command::{CM_CANCEL, CM_CLOSE, CM_OK};
use crate::geometry::{spec_height, spec_width, Rect};
use crate::text::{
    extend_chars, find_chars, find_from, matches_at, chars_match_at, str_chars, string_chars,
    string_from_chars, sub_chars,
};
use crate::views::dialog::Dialog;
use crate::views::dir_listbox::{last_slash, lemma_last_slash, parent_path, path_join, path_parent, sort_names_by, sorted_by};
use crate::views::group::ChildInfo;

verus! {

/// The command the file list issues when an entry is chosen.
pub const CMD_FILE_SELECTED: u16 = 1000;
/// The index of the file list among the dialog's children.
pub const CHILD_LISTBOX: usize = 4;
/// The index of the Open button among the dialog's children.
pub const CHILD_OK_BUTTON: usize = 5;

/// Whether `s` holds `c`.
pub open spec fn has_char(s: Seq<char>, c: char) -> bool {
    exists|i: int| 0 <= i < s.len() && s[i] == c
}

/// Whether `name` holds a wildcard, `*` or `?`.
pub open spec fn has_wildcards(name: Seq<char>) -> bool {
    has_char(name, '*') || has_char(name, '?')
}

/// Whether file `name` passes filter `wc`: everything passes `*` or an empty
/// filter; `*.ext` asks for names ending in `.ext`; any other filter must
/// occur in the name.
pub open spec fn wildcard_matches(name: Seq<char>, wc: Seq<char>) -> bool {
    if wc =~= seq!['*'] || wc.len() == 0 {
        true
    } else if wc.len() >= 2 && wc[0] == '*' && wc[1] == '.' {
        let suffix = wc.skip(1);
        matches_at(name, name.len() - suffix.len(), suffix)
    } else {
        find_from(name, wc, 0) is Some
    }
}

/// `part` taken from `base`: an absolute part replaces it, a relative one is
/// joined under it.
pub open spec fn path_push(base: Seq<char>, part: Seq<char>) -> Seq<char> {
    if part.len() > 0 && part[0] == '/' { part } else { path_join(base, part) }
}

/// How a directory is shown in the list.
pub open spec fn bracketed(name: Seq<char>) -> Seq<char> {
    seq!['['] + name + seq![']']
}

/// Whether `s` is a bracketed directory entry.
pub open spec fn is_bracketed(s: Seq<char>) -> bool {
    s.len() >= 1 && s[0] == '[' && s[s.len() - 1] == ']'
}

/// The files of `files` that pass `wc`, in order.
pub open spec fn matching(files: Seq<Seq<char>>, wc: Seq<char>) -> Seq<Seq<char>>
    decreases files.len(),
{
    if files.len() == 0 {
        Seq::empty()
    } else if wildcard_matches(files.last(), wc) {
        matching(files.drop_last(), wc).push(files.last())
    } else {
        matching(files.drop_last(), wc)
    }
}

/// The list entries: `..` when there is a parent directory, the
/// directories bracketed and sorted, then the matching files sorted.
pub open spec fn listing(has_parent: bool, dirs: Seq<Seq<char>>, files: Seq<Seq<char>>, wc: Seq<char>) -> Seq<Seq<char>> {
    (if has_parent { seq![seq!['.', '.']] } else { Seq::empty() }) + sorted_by(
        dirs.map_values(|d: Seq<char>| bracketed(d)),
        false,
    ) + sorted_by(matching(files, wc), false)
}

/// What the name field shows for list entry `entry`: a directory as
/// `dir/filter`, anything else as itself.
pub open spec fn entry_display(entry: Seq<char>, wc: Seq<char>) -> Seq<char> {
    if is_bracketed(entry) && entry.len() >= 2 {
        entry.subrange(1, entry.len() - 1) + seq!['/'] + wc
    } else if is_bracketed(entry) {
        seq!['/'] + wc
    } else {
        entry
    }
}

/// What the dialog's modal loop does next.
pub enum FileStep {
    /// Keep going.
    Continue,
    /// The directory or the filter changed: read the current directory
    /// again and hand it over with `set_listing`.
    Reload,
    /// A file was chosen; its path.
    Selected(String),
    /// The dialog was cancelled.
    Cancelled,
}

/// Whether `s` holds `c`.
fn chars_have(s: &Vec<char>, c: char) -> (b: bool)
    ensures
        b == has_char(s@, c),
{
    let mut i: usize = 0;
    while i < s.len()
        invariant
            i <= s@.len(),
            forall|j: int| 0 <= j < i ==> s@[j] != c,
        decreases s.len() - i,
    {
        if s[i] == c {
            return true;
        }
        i = i + 1;
    }
    false
}

/// Whether `name` holds a wildcard.
pub fn contains_wildcards(name: &str) -> (b: bool)
    ensures
        b == has_wildcards(name@),
{
    let c = str_chars(name);
    chars_have(&c, '*') || chars_have(&c, '?')
}

/// Whether file `name` passes filter `wc`.
pub fn matches_wildcard(name: &Vec<char>, wc: &Vec<char>) -> (b: bool)
    ensures
        b == wildcard_matches(name@, wc@),
{
    if (wc.len() == 1 && wc[0] == '*') || wc.len() == 0 {
        assert(wc@.len() == 1 && wc@[0] == '*' ==> wc@ =~= seq!['*']);
        return true;
    }
    assert(!(wc@ =~= seq!['*']));
    if wc.len() >= 2 && wc[0] == '*' && wc[1] == '.' {
        let suffix = sub_chars(wc, 1, wc.len());
        assert(suffix@ =~= wc@.skip(1));
        if suffix.len() > name.len() {
            return false;
        }
        chars_match_at(name, name.len() - suffix.len(), &suffix)
    } else {
        find_chars(name, 0, wc).is_some()
    }
}

/// `part` taken from `base`.
fn push_path(base: &Vec<char>, part: &Vec<char>) -> (r: Vec<char>)
    ensures
        r@ == path_push(base@, part@),
{
    if part.len() > 0 && part[0] == '/' {
        let r = sub_chars(part, 0, part.len());
        assert(r@ =~= part@);
        r
    } else {
        let mut out = sub_chars(base, 0, base.len());
        assert(out@ =~= base@);
        if base.len() > 0 && base[base.len() - 1] != '/' {
            out.push('/');
        }
        extend_chars(&mut out, part);
        assert(out@ =~= path_join(base@, part@));
        out
    }
}

/// The list entries for a directory with (`has_parent`) or without a
/// parent, holding directories `dirs` and files `files`, filtered by `wc`.
pub fn list_entries(has_parent: bool, dirs: &Vec<String>, files: &Vec<String>, wc: &Vec<char>) -> (out: Vec<String>)
    ensures
        out@.map_values(|s: String| s@) == listing(
            has_parent,
            dirs@.map_values(|s: String| s@),
            files@.map_values(|s: String| s@),
            wc@,
        ),
{
    let mut bracket: Vec<String> = Vec::new();
    let mut i: usize = 0;
    while i < dirs.len()
        invariant
            i <= dirs@.len(),
            bracket@.map_values(|s: String| s@) == dirs@.map_values(|s: String| s@).take(i as int).map_values(
                |d: Seq<char>| bracketed(d),
            ),
        decreases dirs.len() - i,
    {
        let mut b: Vec<char> = Vec::new();
        b.push('[');
        let d = string_chars(&dirs[i]);
        extend_chars(&mut b, &d);
        b.push(']');
        assert(b@ =~= bracketed(dirs@[i as int]@));
        let ghost before = bracket@.map_values(|s: String| s@);
        bracket.push(string_from_chars(&b));
        assert(bracket@.map_values(|s: String| s@) =~= before.push(b@));
        assert(dirs@.map_values(|s: String| s@).take(i + 1) =~= dirs@.map_values(|s: String| s@).take(i as int).push(dirs@[i as int]@));
        i = i + 1;
        assert(bracket@.map_values(|s: String| s@) =~= dirs@.map_values(|s: String| s@).take(i as int).map_values(
            |d: Seq<char>| bracketed(d),
        ));
    }
    assert(dirs@.map_values(|s: String| s@).take(dirs@.len() as int) =~= dirs@.map_values(|s: String| s@));
    let mut kept: Vec<String> = Vec::new();
    let ghost fv = files@.map_values(|s: String| s@);
    let mut k: usize = 0;
    while k < files.len()
        invariant
            k <= files@.len(),
            fv == files@.map_values(|s: String| s@),
            kept@.map_values(|s: String| s@) == matching(fv.take(k as int), wc@),
        decreases files.len() - k,
    {
        let f = string_chars(&files[k]);
        assert(fv.take(k + 1).drop_last() =~= fv.take(k as int));
        if matches_wildcard(&f, wc) {
            kept.push(string_from_chars(&f));
            assert(kept@.map_values(|s: String| s@) =~= matching(fv.take(k as int), wc@).push(fv[k as int]));
        }
        k = k + 1;
    }
    assert(fv.take(files@.len() as int) =~= fv);
    let sorted_dirs = sort_names_by(&bracket, false);
    let sorted_files = sort_names_by(&kept, false);
    let mut out: Vec<String> = Vec::new();
    if has_parent {
        let mut dd: Vec<char> = Vec::new();
        dd.push('.');
        dd.push('.');
        assert(dd@ =~= seq!['.', '.']);
        out.push(string_from_chars(&dd));
    }
    let ghost head = out@.map_values(|s: String| s@);
    assert(head =~= (if has_parent { seq![seq!['.', '.']] } else { Seq::<Seq<char>>::empty() }));
    let mut a: usize = 0;
    while a < sorted_dirs.len()
        invariant
            a <= sorted_dirs@.len(),
            out@.map_values(|s: String| s@) == head + sorted_dirs@.map_values(|s: String| s@).take(a as int),
        decreases sorted_dirs.len() - a,
    {
        let c = string_chars(&sorted_dirs[a]);
        let ghost before = out@.map_values(|s: String| s@);
        out.push(string_from_chars(&c));
        assert(out@.map_values(|s: String| s@) =~= before.push(c@));
        assert(sorted_dirs@.map_values(|s: String| s@).take(a + 1) =~= sorted_dirs@.map_values(|s: String| s@).take(a as int).push(sorted_dirs@[a as int]@));
        a = a + 1;
        assert(out@.map_values(|s: String| s@) =~= head + sorted_dirs@.map_values(|s: String| s@).take(a as int));
    }
    assert(sorted_dirs@.map_values(|s: String| s@).take(sorted_dirs@.len() as int) =~= sorted_dirs@.map_values(|s: String| s@));
    let ghost mid = out@.map_values(|s: String| s@);
    let mut b: usize = 0;
    while b < sorted_files.len()
        invariant
            b <= sorted_files@.len(),
            out@.map_values(|s: String| s@) == mid + sorted_files@.map_values(|s: String| s@).take(b as int),
        decreases sorted_files.len() - b,
    {
        let c = string_chars(&sorted_files[b]);
        let ghost before = out@.map_values(|s: String| s@);
        out.push(string_from_chars(&c));
        assert(out@.map_values(|s: String| s@) =~= before.push(c@));
        assert(sorted_files@.map_values(|s: String| s@).take(b + 1) =~= sorted_files@.map_values(|s: String| s@).take(b as int).push(sorted_files@[b as int]@));
        b = b + 1;
        assert(out@.map_values(|s: String| s@) =~= mid + sorted_files@.map_values(|s: String| s@).take(b as int));
    }
    assert(sorted_files@.map_values(|s: String| s@).take(sorted_files@.len() as int) =~= sorted_files@.map_values(|s: String| s@));
    out
}

/// What the name field shows for list entry `entry` under filter `wc`.
pub fn display_for(entry: &Vec<char>, wc: &Vec<char>) -> (r: Vec<char>)
    ensures
        r@ == entry_display(entry@, wc@),
{
    let n = entry.len();
    if n >= 1 && entry[0] == '[' && entry[n - 1] == ']' {
        let mut out: Vec<char> = if n >= 2 { sub_chars(entry, 1, n - 1) } else { Vec::new() };
        out.push('/');
        extend_chars(&mut out, wc);
        assert(out@ =~= entry_display(entry@, wc@));
        out
    } else {
        let r = sub_chars(entry, 0, n);
        assert(r@ =~= entry@);
        r
    }
}


/// The bounds of a file dialog's children, for a dialog `w` wide and `h`
/// high: name label, name field, path label, files label, file list, Open
/// and Cancel.
pub open spec fn file_dialog_layout(w: int, h: int) -> Seq<Rect> {
    seq![
        rect(2, 1, 12, 2),
        rect(12, 1, w - 4, 2),
        rect(2, 3, w - 4, 4),
        rect(2, 5, 12, 6),
        rect(2, 6, w - 4, h - 6),
        rect(2, h - 4, 14, h - 2),
        rect(16, h - 4, 28, h - 2),
    ]
}

/// The rectangle with corners (`ax`, `ay`) and (`bx`, `by`).
pub open spec fn rect(ax: int, ay: int, bx: int, by: int) -> Rect {
    Rect {
        a: crate::geometry::Point { x: ax as i16, y: ay as i16 },
        b: crate::geometry::Point { x: bx as i16, y: by as i16 },
    }
}

/// What taking the name `n` in directory `p` under filter `wc` gives: the
/// step, and the directory and filter after it. With a `/`, go to the
/// directory before it (when there is one) and take what follows as the
/// filter if it holds a wildcard; `..` goes up (if there is a parent);
/// `[dir]` enters `dir`; anything else is the chosen file in `p`.
pub open spec fn selection_taken(n: Seq<char>, p: Seq<char>, wc: Seq<char>, step: FileStep, p2: Seq<char>, wc2: Seq<char>) -> bool {
    let k = last_slash(n);
    if k >= 0 {
        let dir = n.take(k);
        let file = n.skip(k + 1);
        &&& step is Reload
        &&& p2 == (if dir.len() > 0 { path_push(p, dir) } else { p })
        &&& wc2 == (if has_wildcards(file) { file } else { wc })
    } else if n =~= seq!['.', '.'] {
        &&& wc2 == wc
        &&& match path_parent(p) {
            Some(q) => step is Reload && p2 == q,
            None => step is Continue && p2 == p,
        }
    } else if is_bracketed(n) {
        let inner = if n.len() >= 2 { n.subrange(1, n.len() - 1) } else { Seq::empty() };
        &&& step is Reload
        &&& p2 == path_push(p, inner)
        &&& wc2 == wc
    } else {
        &&& step matches FileStep::Selected(f) && f@ == path_push(p, n)
        &&& p2 == p
        &&& wc2 == wc
    }
}

pub struct FileDialog {
    dialog: Dialog,
    title: Vec<char>,
    current_path: Vec<char>,
    wildcard: Vec<char>,
    file_name: Vec<char>,
    files: Vec<String>,
    selected_file_index: usize,
}

impl FileDialog {
    pub closed spec fn spec_dialog(&self) -> Dialog {
        self.dialog
    }

    pub closed spec fn spec_path(&self) -> Seq<char> {
        self.current_path@
    }

    pub closed spec fn spec_wildcard(&self) -> Seq<char> {
        self.wildcard@
    }

    /// The name field's text.
    pub closed spec fn spec_file_name(&self) -> Seq<char> {
        self.file_name@
    }

    pub closed spec fn spec_files(&self) -> Seq<Seq<char>> {
        self.files@.map_values(|s: String| s@)
    }

    pub closed spec fn spec_selected(&self) -> int {
        self.selected_file_index as int
    }

    pub closed spec fn spec_title(&self) -> Seq<char> {
        self.title@
    }

    pub closed spec fn wf(&self) -> bool {
        self.dialog.wf()
    }

    /// An empty dialog in `bounds` browsing `dir` with filter `wildcard`.
    pub fn new(bounds: Rect, title: &str, wildcard: &str, dir: &str) -> (d: FileDialog)
        ensures
            d.wf(),
            d.spec_dialog().spec_group().spec_bounds() == bounds,
            d.spec_dialog().spec_group().spec_children().len() == 0,
            d.spec_dialog().spec_group().spec_next_id() == 1,
            d.spec_title() == title@,
            d.spec_path() == dir@,
            d.spec_wildcard() == wildcard@,
            d.spec_file_name().len() == 0,
            d.spec_files().len() == 0,
            d.spec_selected() == 0,
    {
        FileDialog {
            dialog: Dialog::new(bounds, title),
            title: str_chars(title),
            current_path: str_chars(dir),
            wildcard: str_chars(wildcard),
            file_name: Vec::new(),
            files: Vec::new(),
            selected_file_index: 0,
        }
    }

    /// Lay out the children and list the directory, whose subdirectories
    /// are `dirs` and files `files`; the name field gets the focus.
    pub fn build(self, dirs: &Vec<String>, files: &Vec<String>) -> (d: FileDialog)
        requires
            self.wf(),
            self.spec_dialog().spec_group().spec_children().len() == 0,
            self.spec_dialog().spec_group().spec_next_id() == 1,
            i16::MIN + 4 <= spec_width(self.spec_dialog().spec_group().spec_bounds()) <= i16::MAX,
            i16::MIN + 6 <= spec_height(self.spec_dialog().spec_group().spec_bounds()) <= i16::MAX,
        ensures
            d.wf(),
            d.spec_path() == self.spec_path(),
            d.spec_wildcard() == self.spec_wildcard(),
            d.spec_title() == self.spec_title(),
            d.spec_files() == listing(
                path_parent(self.spec_path()) is Some,
                dirs@.map_values(|s: String| s@),
                files@.map_values(|s: String| s@),
                self.spec_wildcard(),
            ),
            d.spec_dialog().spec_group().spec_children().len() == 7,
            forall|i: int| 0 <= i < 7 ==> (#[trigger] d.spec_dialog().spec_group().spec_children()[i]).bounds
                == file_dialog_layout(
                    spec_width(self.spec_dialog().spec_group().spec_bounds()),
                    spec_height(self.spec_dialog().spec_group().spec_bounds()),
                )[i],
            d.spec_dialog().spec_group().spec_focused() == 1,
            d.spec_dialog().spec_group().spec_bounds() == self.spec_dialog().spec_group().spec_bounds(),
    {
        let mut me = self;
        let b = me.dialog.bounds();
        let w = b.width();
        let h = b.height();
        me.dialog.add_boxed(ChildInfo::new(Rect::new(2, 1, 12, 2), false));
        me.dialog.add_boxed(ChildInfo::new(Rect::new(12, 1, w - 4, 2), true));
        me.dialog.add_boxed(ChildInfo::new(Rect::new(2, 3, w - 4, 4), false));
        me.dialog.add_boxed(ChildInfo::new(Rect::new(2, 5, 12, 6), false));
        me.dialog.add_boxed(ChildInfo::new(Rect::new(2, 6, w - 4, h - 6), true));
        me.dialog.add_button(ChildInfo::new(Rect::new(2, h - 4, 14, h - 2), true), CM_OK, true, false);
        me.dialog.add_button(ChildInfo::new(Rect::new(16, h - 4, 28, h - 2), true), CM_CANCEL, false, false);
        let has_parent = parent_path(&me.current_path).is_some();
        me.files = list_entries(has_parent, dirs, files, &me.wildcard);
        me.dialog.set_focus_to_child(1);
        me
    }

    /// The directory was read again (after `Reload`): its subdirectories
    /// `dirs` and files `files` fill the list, the first entry is selected
    /// and shown in the name field (which is emptied for an empty list), and
    /// the list gets the focus.
    pub fn set_listing(&mut self, dirs: &Vec<String>, files: &Vec<String>)
        requires
            old(self).wf(),
        ensures
            final(self).wf(),
            final(self).spec_path() == old(self).spec_path(),
            final(self).spec_wildcard() == old(self).spec_wildcard(),
            final(self).spec_files() == listing(
                path_parent(old(self).spec_path()) is Some,
                dirs@.map_values(|s: String| s@),
                files@.map_values(|s: String| s@),
                old(self).spec_wildcard(),
            ),
            final(self).spec_selected() == 0,
            final(self).spec_file_name() == (if final(self).spec_files().len() > 0 {
                entry_display(final(self).spec_files()[0], old(self).spec_wildcard())
            } else {
                Seq::empty()
            }),
    {
        let has_parent = parent_path(&self.current_path).is_some();
        self.files = list_entries(has_parent, dirs, files, &self.wildcard);
        self.dialog.set_focus_to_child(CHILD_LISTBOX);
        self.selected_file_index = 0;
        if self.files.len() > 0 {
            let first = string_chars(&self.files[0]);
            self.file_name = display_for(&first, &self.wildcard);
        } else {
            self.file_name = Vec::new();
        }
    }

    /// The file list moved its selection to `selection`: when that is a new
    /// entry, the name field shows it and `true` asks the caller to tell the
    /// name field (a file-focused broadcast).
    pub fn sync_selection(&mut self, selection: usize) -> (changed: bool)
        ensures
            final(self).spec_path() == old(self).spec_path(),
            final(self).spec_wildcard() == old(self).spec_wildcard(),
            final(self).spec_files() == old(self).spec_files(),
            final(self).spec_dialog() == old(self).spec_dialog(),
            final(self).spec_selected() == selection,
            changed == (selection != old(self).spec_selected() && selection < old(self).spec_files().len()),
            final(self).spec_file_name() == (if changed {
                entry_display(old(self).spec_files()[selection as int], old(self).spec_wildcard())
            } else {
                old(self).spec_file_name()
            }),
    {
        if selection == self.selected_file_index {
            return false;
        }
        self.selected_file_index = selection;
        if selection < self.files.len() {
            let e = string_chars(&self.files[selection]);
            self.file_name = display_for(&e, &self.wildcard);
            true
        } else {
            false
        }
    }

    /// The name field changed to `text`.
    pub fn set_file_name(&mut self, text: &str)
        ensures
            final(self).spec_file_name() == text@,
            final(self).spec_path() == old(self).spec_path(),
            final(self).spec_wildcard() == old(self).spec_wildcard(),
            final(self).spec_files() == old(self).spec_files(),
            final(self).spec_selected() == old(self).spec_selected(),
            final(self).spec_dialog() == old(self).spec_dialog(),
    {
        self.file_name = str_chars(text);
    }

    pub fn file_name(&self) -> (s: String)
        ensures
            s@ == self.spec_file_name(),
    {
        string_from_chars(&self.file_name)
    }

    /// The list entries.
    pub fn files(&self) -> (v: &Vec<String>)
        ensures
            v@.map_values(|s: String| s@) == self.spec_files(),
    {
        &self.files
    }

    /// Open is disabled while the name field is empty.
    pub fn ok_disabled(&self) -> (b: bool)
        ensures
            b == (self.spec_file_name().len() == 0),
    {
        self.file_name.len() == 0
    }

    /// What a name means: with a `/`, go to the directory before it (when
    /// there is one) and take what follows as the filter if it holds a
    /// wildcard; `..` goes up (if there is a parent); `[dir]` enters `dir`;
    /// anything else is the chosen file.
    fn handle_selection(&mut self, name: &Vec<char>) -> (step: FileStep)
        ensures
            final(self).spec_files() == old(self).spec_files(),
            final(self).spec_file_name() == old(self).spec_file_name(),
            final(self).spec_dialog() == old(self).spec_dialog(),
            selection_taken(name@, old(self).spec_path(), old(self).spec_wildcard(), step, final(self).spec_path(), final(self).spec_wildcard()),
    {
        proof {
            lemma_last_slash(name@);
        }
        let n = name.len();
        let mut k: usize = n;
        assert(name@.take(n as int) =~= name@);
        while k > 0
            invariant
                k <= n,
                n == name@.len(),
                last_slash(name@.take(k as int)) == last_slash(name@),
            ensures
                (k == 0 && last_slash(name@) == -1) || (k > 0 && last_slash(name@) == k - 1),
            decreases k,
        {
            assert(name@.take(k as int).drop_last() =~= name@.take(k - 1));
            if name[k - 1] == '/' {
                break;
            }
            k = k - 1;
        }
        if k > 0 {
            let dir = sub_chars(name, 0, k - 1);
            let file = sub_chars(name, k, n);
            assert(dir@ =~= name@.take(k - 1));
            assert(file@ =~= name@.skip(k as int));
            if dir.len() > 0 {
                self.current_path = push_path(&self.current_path, &dir);
            }
            let fs = string_from_chars(&file);
            if contains_wildcards(fs.as_str()) {
                self.wildcard = file;
            }
            return FileStep::Reload;
        }
        if n == 2 && name[0] == '.' && name[1] == '.' {
            assert(name@ =~= seq!['.', '.']);
            match parent_path(&self.current_path) {
                Some(q) => {
                    self.current_path = q;
                    return FileStep::Reload;
                },
                None => {
                    return FileStep::Continue;
                },
            }
        }
        assert(!(name@ =~= seq!['.', '.']));
        if n >= 1 && name[0] == '[' && name[n - 1] == ']' {
            let inner = if n >= 2 { sub_chars(name, 1, n - 1) } else { Vec::new() };
            self.current_path = push_path(&self.current_path, &inner);
            return FileStep::Reload;
        }
        let full = push_path(&self.current_path, name);
        FileStep::Selected(string_from_chars(&full))
    }

    /// What the modal loop does with a command the dialog left pending.
    ///
    /// Open: nothing for an empty name; a name with a wildcard becomes the
    /// filter; any other name is taken as `handle_selection` says. Cancel and
    /// Close cancel. A chosen list entry is taken like a name, without the
    /// filter rule. Other commands change nothing.
    pub fn command_step(&mut self, command: u16) -> (step: FileStep)
        ensures
            final(self).spec_files() == old(self).spec_files(),
            final(self).spec_file_name() == old(self).spec_file_name(),
            final(self).spec_dialog() == old(self).spec_dialog(),
            command == CM_CANCEL || command == CM_CLOSE ==> step is Cancelled && final(self).spec_path() == old(
                self,
            ).spec_path() && final(self).spec_wildcard() == old(self).spec_wildcard(),
            (command == CM_OK || command == CMD_FILE_SELECTED) && old(self).spec_file_name().len() == 0 ==> step is Continue
                && final(self).spec_path() == old(self).spec_path() && final(self).spec_wildcard() == old(
                self,
            ).spec_wildcard(),
            command == CM_OK && old(self).spec_file_name().len() > 0 && has_wildcards(old(self).spec_file_name())
                ==> step is Reload && final(self).spec_wildcard() == old(self).spec_file_name() && final(self).spec_path()
                == old(self).spec_path(),
            ((command == CM_OK && !has_wildcards(old(self).spec_file_name())) || command == CMD_FILE_SELECTED)
                && old(self).spec_file_name().len() > 0 ==> selection_taken(
                old(self).spec_file_name(),
                old(self).spec_path(),
                old(self).spec_wildcard(),
                step,
                final(self).spec_path(),
                final(self).spec_wildcard(),
            ),
            !(command == CM_OK || command == CMD_FILE_SELECTED || command == CM_CANCEL || command == CM_CLOSE) ==> step is Continue
                && final(self).spec_path() == old(self).spec_path() && final(self).spec_wildcard() == old(
                self,
            ).spec_wildcard(),
    {
        if command == CM_CANCEL || command == CM_CLOSE {
            return FileStep::Cancelled;
        }
        if command == CM_OK || command == CMD_FILE_SELECTED {
            if self.file_name.len() == 0 {
                return FileStep::Continue;
            }
            let name = sub_chars(&self.file_name, 0, self.file_name.len());
            assert(name@ =~= self.file_name@);
            if command == CM_OK {
                let s = string_from_chars(&name);
                if contains_wildcards(s.as_str()) {
                    self.wildcard = name;
                    return FileStep::Reload;
                }
            }
            return self.handle_selection(&name);
        }
        FileStep::Continue
    }

    /// The chosen file: the name field taken from the current directory, if
    /// the field is not empty.
    pub fn get_selected_file(&self) -> (r: Option<String>)
        ensures
            self.spec_file_name().len() == 0 ==> r is None,
            self.spec_file_name().len() > 0 ==> (r matches Some(p) && p@ == path_push(self.spec_path(), self.spec_file_name())),
    {
        if self.file_name.len() == 0 {
            None
        } else {
            let p = push_path(&self.current_path, &self.file_name);
            Some(string_from_chars(&p))
        }
    }

    pub fn get_current_directory(&self) -> (s: String)
        ensures
            s@ == self.spec_path(),
    {
        string_from_chars(&self.current_path)
    }

    pub fn get_end_state(&self) -> (c: u16)
        ensures
            c == self.spec_dialog().spec_group().spec_end_state(),
    {
        self.dialog.end_state()
    }

    /// The text of the path label: a blank, then the current directory.
    pub fn path_label_text(&self) -> (s: String)
        ensures
            s@ == seq![' '] + self.spec_path(),
    {
        let mut v: Vec<char> = Vec::new();
        v.push(' ');
        extend_chars(&mut v, &self.current_path);
        string_from_chars(&v)
    }

    pub fn dialog(&self) -> (d: &Dialog)
        ensures
            *d == self.spec_dialog(),
    {
        &self.dialog
    }

    pub fn dialog_mut(&mut self) -> (d: &mut Dialog)
        ensures
            *d == old(self).spec_dialog(),
            final(self).spec_dialog() == *final(d),
            final(self).spec_path() == old(self).spec_path(),
            final(self).spec_files() == old(self).spec_files(),
            final(self).spec_file_name() == old(self).spec_file_name(),
    {
        &mut self.dialog
    }
}


/// Builder for file dialogs; bounds and title must be given, the filter
/// defaults to `*` and the directory to the one the caller starts in.
pub struct FileDialogBuilder {
    bounds: Option<Rect>,
    title: Option<Vec<char>>,
    wildcard: Vec<char>,
    initial_dir: Option<Vec<char>>,
}

impl FileDialogBuilder {
    pub closed spec fn spec_bounds(&self) -> Option<Rect> {
        self.bounds
    }

    pub closed spec fn spec_title(&self) -> Option<Seq<char>> {
        match self.title {
            Some(t) => Some(t@),
            None => None,
        }
    }

    pub closed spec fn spec_wildcard(&self) -> Seq<char> {
        self.wildcard@
    }

    pub closed spec fn spec_initial_dir(&self) -> Option<Seq<char>> {
        match self.initial_dir {
            Some(t) => Some(t@),
            None => None,
        }
    }

    pub fn new() -> (b: Self)
        ensures
            b.spec_bounds() is None,
            b.spec_title() is None,
            b.spec_wildcard() == seq!['*'],
            b.spec_initial_dir() is None,
    {
        let mut w: Vec<char> = Vec::new();
        w.push('*');
        assert(w@ =~= seq!['*']);
        FileDialogBuilder { bounds: None, title: None, wildcard: w, initial_dir: None }
    }

    pub fn bounds(self, bounds: Rect) -> (b: Self)
        ensures
            b.spec_bounds() == Some(bounds),
            b.spec_title() == self.spec_title(),
            b.spec_wildcard() == self.spec_wildcard(),
            b.spec_initial_dir() == self.spec_initial_dir(),
    {
        FileDialogBuilder { bounds: Some(bounds), ..self }
    }

    pub fn title(self, title: &str) -> (b: Self)
        ensures
            b.spec_title() == Some(title@),
            b.spec_bounds() == self.spec_bounds(),
            b.spec_wildcard() == self.spec_wildcard(),
            b.spec_initial_dir() == self.spec_initial_dir(),
    {
        FileDialogBuilder { title: Some(str_chars(title)), ..self }
    }

    pub fn wildcard(self, wildcard: &str) -> (b: Self)
        ensures
            b.spec_wildcard() == wildcard@,
            b.spec_bounds() == self.spec_bounds(),
            b.spec_title() == self.spec_title(),
            b.spec_initial_dir() == self.spec_initial_dir(),
    {
        FileDialogBuilder { wildcard: str_chars(wildcard), ..self }
    }

    pub fn initial_dir(self, dir: &str) -> (b: Self)
        ensures
            b.spec_initial_dir() == Some(dir@),
            b.spec_bounds() == self.spec_bounds(),
            b.spec_title() == self.spec_title(),
            b.spec_wildcard() == self.spec_wildcard(),
    {
        FileDialogBuilder { initial_dir: Some(str_chars(dir)), ..self }
    }

    /// The dialog, browsing the initial directory if one was given and
    /// `cwd` otherwise, laid out with its name field, file list and buttons
    /// and listing that directory, whose subdirectories are `dirs` and files
    /// `files`; bounds and title must have been given.
    pub fn build(self, cwd: &str, dirs: &Vec<String>, files: &Vec<String>) -> (d: FileDialog)
        requires
            self.spec_bounds() matches Some(b) && i16::MIN + 4 <= spec_width(b) <= i16::MAX && i16::MIN + 6
                <= spec_height(b) <= i16::MAX,
            self.spec_title() is Some,
        ensures
            d.wf(),
            d.spec_dialog().spec_group().spec_bounds() == self.spec_bounds()->0,
            d.spec_title() == self.spec_title()->0,
            d.spec_wildcard() == self.spec_wildcard(),
            d.spec_path() == (match self.spec_initial_dir() {
                Some(p) => p,
                None => cwd@,
            }),
            d.spec_files() == listing(
                path_parent(d.spec_path()) is Some,
                dirs@.map_values(|s: String| s@),
                files@.map_values(|s: String| s@),
                self.spec_wildcard(),
            ),
            d.spec_dialog().spec_group().spec_children().len() == 7,
            forall|i: int| 0 <= i < 7 ==> (#[trigger] d.spec_dialog().spec_group().spec_children()[i]).bounds
                == file_dialog_layout(
                    spec_width(self.spec_bounds()->0),
                    spec_height(self.spec_bounds()->0),
                )[i],
            d.spec_dialog().spec_group().spec_focused() == 1,
    {
        let bounds = self.bounds.unwrap();
        let title = string_from_chars(&self.title.unwrap());
        let wc = string_from_chars(&self.wildcard);
        let dir = match self.initial_dir {
            Some(p) => string_from_chars(&p),
            None => {
                let c = str_chars(cwd);
                string_from_chars(&c)
            },
        };
        let d = FileDialog::new(bounds, title.as_str(), wc.as_str(), dir.as_str());
        d.build(dirs, files)
    }

    pub fn build_boxed(self, cwd: &str, dirs: &Vec<String>, files: &Vec<String>) -> (d: Box<FileDialog>)
        requires
            self.spec_bounds() matches Some(b) && i16::MIN + 4 <= spec_width(b) <= i16::MAX && i16::MIN + 6
                <= spec_height(b) <= i16::MAX,
            self.spec_title() is Some,
        ensures
            d.wf(),
            d.spec_dialog().spec_group().spec_bounds() == self.spec_bounds()->0,
            d.spec_title() == self.spec_title()->0,
            d.spec_wildcard() == self.spec_wildcard(),
            d.spec_dialog().spec_group().spec_children().len() == 7,
            d.spec_files() == listing(
                path_parent(d.spec_path()) is Some,
                dirs@.map_values(|s: String| s@),
                files@.map_values(|s: String| s@),
                self.spec_wildcard(),
            ),
    {
        Box::new(self.build(cwd, dirs, files))
    }
}

} // verus!
