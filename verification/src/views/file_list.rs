//! A list of the files in a directory: `..` first when there is a parent,
//! then the subdirectories, then the files passing the filter, each group
//! in case-blind name order; hidden names (starting with `.`) only on request.
//!
//! Reading the directory is left to the caller, which hands over its entries.
use vstd::prelude::*;
use crate::draw::{Attr, Cell, DrawBuffer, DrawLine};
use crate::event::{Event, EventType, KB_ENTER};
use crate::geometry::{clamp_extent, spec_height, spec_width, Rect};
use crate::state::SF_FOCUSED;
use crate::text::{
    compare_chars, decimal, decimal_chars, extend_chars, matches_at, seq_lt, str_chars, string_chars,
    string_from_chars, sub_chars, Order,
};
use crate::views::dir_listbox::{lowercase, parent_path, path_parent};
use crate::views::list_viewer::{handle_list_event, lv_room, list_event_state, list_event_used, ListViewerState};

verus! {

/// One file or directory.
pub struct FileEntry {
    pub name: String,
    pub path: String,
    pub is_dir: bool,
    pub size: u64,
    /// Seconds since the Unix epoch of the last change, when known.
    pub modified: Option<u64>,
}

/// What an entry holds, its texts as characters.
pub struct FileEntryView {
    pub name: Seq<char>,
    pub path: Seq<char>,
    pub is_dir: bool,
    pub size: u64,
    pub modified: Option<u64>,
}

impl FileEntry {
    pub open spec fn view(&self) -> FileEntryView {
        FileEntryView { name: self.name@, path: self.path@, is_dir: self.is_dir, size: self.size, modified: self.modified }
    }
}

/// How an entry is shown: a directory bracketed, a file by its name.
pub open spec fn display_of(e: FileEntryView) -> Seq<char> {
    if e.is_dir { seq!['['] + e.name + seq![']'] } else { e.name }
}

/// A size in whole bytes, kilobytes, megabytes or gigabytes (rounded down).
pub open spec fn size_text(e: FileEntryView) -> Seq<char> {
    if e.is_dir {
        seq!['<', 'D', 'I', 'R', '>']
    } else if e.size < 1024 {
        decimal(e.size as nat) + seq![' ', 'B']
    } else if e.size < 1024 * 1024 {
        decimal((e.size / 1024) as nat) + seq![' ', 'K', 'B']
    } else if e.size < 1024 * 1024 * 1024 {
        decimal((e.size / 1048576u64) as nat) + seq![' ', 'M', 'B']
    } else {
        decimal((e.size / 1073741824u64) as nat) + seq![' ', 'G', 'B']
    }
}

impl FileEntry {
    pub fn display_name(&self) -> (s: String)
        ensures
            s@ == display_of(self.view()),
    {
        let n = string_chars(&self.name);
        if self.is_dir {
            let mut v: Vec<char> = Vec::new();
            v.push('[');
            extend_chars(&mut v, &n);
            v.push(']');
            assert(v@ =~= display_of(self.view()));
            string_from_chars(&v)
        } else {
            string_from_chars(&n)
        }
    }

    pub fn size_string(&self) -> (s: String)
        ensures
            s@ == size_text(self.view()),
    {
        let mut v: Vec<char> = Vec::new();
        if self.is_dir {
            v.push('<');
            v.push('D');
            v.push('I');
            v.push('R');
            v.push('>');
        } else if self.size < 1024 {
            v = decimal_chars(self.size);
            v.push(' ');
            v.push('B');
        } else if self.size < 1024 * 1024 {
            v = decimal_chars(self.size / 1024);
            v.push(' ');
            v.push('K');
            v.push('B');
        } else if self.size < 1024 * 1024 * 1024 {
            v = decimal_chars(self.size / (1024 * 1024));
            v.push(' ');
            v.push('M');
            v.push('B');
        } else {
            v = decimal_chars(self.size / (1024 * 1024 * 1024));
            v.push(' ');
            v.push('G');
            v.push('B');
        }
        assert(v@ =~= size_text(self.view()));
        string_from_chars(&v)
    }
}

/// Whether a file named `name` passes filter `wc`: `*` passes everything,
/// `*rest` asks for names ending in `rest`, anything else for that exact name.
pub open spec fn list_filter_matches(name: Seq<char>, wc: Seq<char>) -> bool {
    if wc =~= seq!['*'] {
        true
    } else if wc.len() > 0 && wc[0] == '*' {
        matches_at(name, name.len() - (wc.len() - 1), wc.skip(1))
    } else {
        name == wc
    }
}

/// Whether entry `e` is listed: hidden names only with `show_hidden`,
/// directories always, files when they pass the filter.
pub open spec fn listed(e: FileEntryView, wc: Seq<char>, show_hidden: bool) -> bool {
    if !show_hidden && e.name.len() > 0 && e.name[0] == '.' {
        false
    } else if e.is_dir {
        true
    } else {
        list_filter_matches(e.name, wc)
    }
}

/// Whether `a` sorts before `b`: directories first, then case-blind by name.
pub open spec fn entry_before(a: FileEntryView, b: FileEntryView) -> bool {
    (a.is_dir && !b.is_dir) || (a.is_dir == b.is_dir && seq_lt(lowercase(a.name), lowercase(b.name)))
}

/// Where `x` goes in `out`: before the first entry it sorts before.
pub open spec fn entry_position(out: Seq<FileEntryView>, x: FileEntryView, j: int) -> int
    decreases out.len() - j,
{
    if j >= out.len() || j < 0 {
        out.len() as int
    } else if entry_before(x, out[j]) {
        j
    } else {
        entry_position(out, x, j + 1)
    }
}

/// `es` sorted by `entry_before`, entries that tie keeping their order.
pub open spec fn sorted_entries(es: Seq<FileEntryView>) -> Seq<FileEntryView>
    decreases es.len(),
{
    if es.len() == 0 {
        Seq::empty()
    } else {
        let out = sorted_entries(es.drop_last());
        out.insert(entry_position(out, es.last(), 0), es.last())
    }
}

/// The listed entries of `es`, in order.
pub open spec fn listed_entries(es: Seq<FileEntryView>, wc: Seq<char>, show_hidden: bool) -> Seq<FileEntryView>
    decreases es.len(),
{
    if es.len() == 0 {
        Seq::empty()
    } else if listed(es.last(), wc, show_hidden) {
        listed_entries(es.drop_last(), wc, show_hidden).push(es.last())
    } else {
        listed_entries(es.drop_last(), wc, show_hidden)
    }
}

/// The list for directory `dir` holding `es`: `..` (leading to the
/// parent) when there is a parent, then the listed entries sorted.
pub open spec fn file_rows(dir: Seq<char>, es: Seq<FileEntryView>, wc: Seq<char>, show_hidden: bool) -> Seq<FileEntryView> {
    (match path_parent(dir) {
        Some(p) => seq![FileEntryView { name: seq!['.', '.'], path: p, is_dir: true, size: 0, modified: None }],
        None => Seq::empty(),
    }) + sorted_entries(listed_entries(es, wc, show_hidden))
}

/// `str::to_lowercase` on the entry's name.
fn lower_name(e: &FileEntry) -> (k: Vec<char>)
    ensures
        k@ == lowercase(e.name@),
{
    crate::views::dir_listbox::lowercase_chars(&e.name)
}

/// Whether `a` sorts before `b`.
fn before(a: &FileEntry, b: &FileEntry) -> (r: bool)
    ensures
        r == entry_before(a.view(), b.view()),
{
    if a.is_dir && !b.is_dir {
        return true;
    }
    if a.is_dir != b.is_dir {
        return false;
    }
    let ka = lower_name(a);
    let kb = lower_name(b);
    compare_chars(&ka, &kb) == Order::Before
}

/// A copy of `e`.
fn copy_entry(e: &FileEntry) -> (c: FileEntry)
    ensures
        c.view() == e.view(),
{
    let n = string_chars(&e.name);
    let p = string_chars(&e.path);
    FileEntry { name: string_from_chars(&n), path: string_from_chars(&p), is_dir: e.is_dir, size: e.size, modified: e.modified }
}

pub open spec fn entries_view(v: Seq<FileEntry>) -> Seq<FileEntryView> {
    v.map_values(|e: FileEntry| e.view())
}

/// Whether file `name` passes filter `wc`.
fn filter_matches(name: &Vec<char>, wc: &Vec<char>) -> (b: bool)
    ensures
        b == list_filter_matches(name@, wc@),
{
    if wc.len() == 1 && wc[0] == '*' {
        assert(wc@ =~= seq!['*']);
        return true;
    }
    assert(!(wc@ =~= seq!['*']) || !(wc@.len() == 1 && wc@[0] == '*'));
    if wc.len() > 0 && wc[0] == '*' {
        let rest = sub_chars(wc, 1, wc.len());
        assert(rest@ =~= wc@.skip(1));
        if rest.len() > name.len() {
            return false;
        }
        crate::text::chars_match_at(name, name.len() - rest.len(), &rest)
    } else {
        crate::text::chars_equal(name, wc)
    }
}

/// Under a filter `*` followed by a suffix, every file listed ends with that
/// suffix; under any other filter but `*`, every file listed bears exactly
/// the filter's name. Directories are listed whatever the filter.
pub proof fn law_listed_files_pass_the_filter(es: Seq<FileEntryView>, wc: Seq<char>, show_hidden: bool)
    ensures
        forall|k: int| 0 <= k < listed_entries(es, wc, show_hidden).len() && !(#[trigger] listed_entries(es, wc, show_hidden)[k]).is_dir ==> {
            let name = listed_entries(es, wc, show_hidden)[k].name;
            &&& wc.len() > 1 && wc[0] == '*' ==> {
                &&& name.len() >= wc.len() - 1
                &&& name.subrange(name.len() - (wc.len() - 1), name.len() as int) == wc.skip(1)
            }
            &&& (wc.len() == 0 || wc[0] != '*') ==> name == wc
        },
    decreases es.len(),
{
    if es.len() > 0 {
        law_listed_files_pass_the_filter(es.drop_last(), wc, show_hidden);
        let prev = listed_entries(es.drop_last(), wc, show_hidden);
        let cur = listed_entries(es, wc, show_hidden);
        if listed(es.last(), wc, show_hidden) {
            assert forall|k: int| 0 <= k < cur.len() - 1 implies cur[k] == prev[k] by {}
            if wc.len() > 1 && wc[0] == '*' {
                assert(!(wc =~= seq!['*']));
            }
        }
    }
}

pub struct FileList {
    bounds: Rect,
    state: u16,
    list_state: ListViewerState,
    files: Vec<FileEntry>,
    current_path: Vec<char>,
    wildcard: Vec<char>,
    show_hidden: bool,
}

impl FileList {
    pub closed spec fn spec_bounds(&self) -> Rect {
        self.bounds
    }

    pub closed spec fn spec_state(&self) -> u16 {
        self.state
    }

    pub closed spec fn spec_list(&self) -> ListViewerState {
        self.list_state
    }

    pub closed spec fn spec_rows(&self) -> Seq<FileEntryView> {
        entries_view(self.files@)
    }

    pub closed spec fn spec_path(&self) -> Seq<char> {
        self.current_path@
    }

    pub closed spec fn spec_wildcard(&self) -> Seq<char> {
        self.wildcard@
    }

    pub closed spec fn spec_show_hidden(&self) -> bool {
        self.show_hidden
    }

    /// An empty list for directory `path`, filter `*`, hidden names left out.
    pub fn new(bounds: Rect, path: &str) -> (l: FileList)
        ensures
            l.spec_bounds() == bounds,
            l.spec_state() == 0,
            l.spec_path() == path@,
            l.spec_wildcard() == seq!['*'],
            !l.spec_show_hidden(),
            l.spec_rows().len() == 0,
            l.spec_list() == ListViewerState::spec_new(),
    {
        let mut w: Vec<char> = Vec::new();
        w.push('*');
        assert(w@ =~= seq!['*']);
        FileList {
            bounds,
            state: 0,
            list_state: ListViewerState::new(),
            files: Vec::new(),
            current_path: str_chars(path),
            wildcard: w,
            show_hidden: false,
        }
    }

    /// Rebuild the list from `entries`, what the current directory holds.
    pub fn refresh(&mut self, entries: &Vec<FileEntry>)
        ensures
            final(self).spec_rows() == file_rows(old(self).spec_path(), entries_view(entries@), old(self).spec_wildcard(), old(self).spec_show_hidden()),
            final(self).spec_list().range == final(self).spec_rows().len(),
            final(self).spec_path() == old(self).spec_path(),
            final(self).spec_wildcard() == old(self).spec_wildcard(),
            final(self).spec_show_hidden() == old(self).spec_show_hidden(),
            final(self).spec_bounds() == old(self).spec_bounds(),
            final(self).spec_state() == old(self).spec_state(),
    {
        let ghost ev = entries_view(entries@);
        let mut kept: Vec<FileEntry> = Vec::new();
        let mut i: usize = 0;
        while i < entries.len()
            invariant
                i <= entries@.len(),
                ev == entries_view(entries@),
                entries_view(kept@) == listed_entries(ev.take(i as int), self.wildcard@, self.show_hidden),
            decreases entries.len() - i,
        {
            let e = &entries[i];
            let name = string_chars(&e.name);
            let hidden = !self.show_hidden && name.len() > 0 && name[0] == '.';
            let keep = if hidden { false } else if e.is_dir { true } else { filter_matches(&name, &self.wildcard) };
            assert(ev.take(i + 1).drop_last() =~= ev.take(i as int));
            assert(ev[i as int] == e.view());
            if keep {
                let ghost before_v = entries_view(kept@);
                kept.push(copy_entry(e));
                assert(entries_view(kept@) =~= before_v.push(e.view()));
            }
            i = i + 1;
        }
        assert(ev.take(entries@.len() as int) =~= ev);
        let ghost lv = entries_view(kept@);
        let mut sorted: Vec<FileEntry> = Vec::new();
        let mut k: usize = 0;
        while k < kept.len()
            invariant
                k <= kept@.len(),
                lv == entries_view(kept@),
                entries_view(sorted@) == sorted_entries(lv.take(k as int)),
            decreases kept.len() - k,
        {
            let ghost sv = entries_view(sorted@);
            let mut j: usize = 0;
            while j < sorted.len()
                invariant
                    j <= sorted@.len(),
                    sv == entries_view(sorted@),
                    k < kept@.len(),
                    lv == entries_view(kept@),
                    entry_position(sv, lv[k as int], j as int) == entry_position(sv, lv[k as int], 0),
                ensures
                    j <= sorted@.len(),
                    entry_position(sv, lv[k as int], 0) == j,
                decreases sorted.len() - j,
            {
                if before(&kept[k], &sorted[j]) {
                    break;
                }
                j = j + 1;
            }
            sorted.insert(j, copy_entry(&kept[k]));
            assert(lv.take(k + 1).drop_last() =~= lv.take(k as int));
            assert(entries_view(sorted@) =~= sv.insert(j as int, lv[k as int]));
            k = k + 1;
        }
        assert(lv.take(kept@.len() as int) =~= lv);
        let mut files: Vec<FileEntry> = Vec::new();
        match parent_path(&self.current_path) {
            Some(p) => {
                let mut dd: Vec<char> = Vec::new();
                dd.push('.');
                dd.push('.');
                assert(dd@ =~= seq!['.', '.']);
                files.push(FileEntry { name: string_from_chars(&dd), path: string_from_chars(&p), is_dir: true, size: 0, modified: None });
            },
            None => {},
        }
        let ghost head = entries_view(files@);
        let mut q: usize = 0;
        while q < sorted.len()
            invariant
                q <= sorted@.len(),
                entries_view(files@) == head + entries_view(sorted@).take(q as int),
            decreases sorted.len() - q,
        {
            let ghost before_v = entries_view(files@);
            files.push(copy_entry(&sorted[q]));
            assert(entries_view(files@) =~= before_v.push(sorted@[q as int].view()));
            assert(entries_view(sorted@).take(q + 1) =~= entries_view(sorted@).take(q as int).push(sorted@[q as int].view()));
            q = q + 1;
        }
        assert(entries_view(sorted@).take(sorted@.len() as int) =~= entries_view(sorted@));
        let n = files.len();
        self.files = files;
        self.list_state.set_range(n);
    }

    /// Whether a file named `filename` passes the filter: everything under
    /// `*`; under `*` and a suffix, names ending in the suffix; otherwise
    /// that exact name.
    pub fn matches_wildcard(&self, filename: &str) -> (b: bool)
        ensures
            b == list_filter_matches(filename@, self.spec_wildcard()),
            self.spec_wildcard() =~= seq!['*'] ==> b,
            self.spec_wildcard().len() > 1 && self.spec_wildcard()[0] == '*' ==> (b <==> (filename@.len()
                >= self.spec_wildcard().len() - 1 && filename@.subrange(
                filename@.len() - (self.spec_wildcard().len() - 1),
                filename@.len() as int,
            ) == self.spec_wildcard().skip(1))),
            (self.spec_wildcard().len() == 0 || self.spec_wildcard()[0] != '*') ==> (b <==> filename@ == self.spec_wildcard()),
    {
        let name = str_chars(filename);
        let b = filter_matches(&name, &self.wildcard);
        proof {
            if self.wildcard@.len() > 1 && self.wildcard@[0] == '*' {
                assert(!(self.wildcard@ =~= seq!['*']));
            }
        }
        b
    }

    /// Filter files by `wildcard` from now on, and rebuild from `entries`.
    pub fn set_wildcard(&mut self, wildcard: &str, entries: &Vec<FileEntry>)
        ensures
            final(self).spec_wildcard() == wildcard@,
            final(self).spec_rows() == file_rows(old(self).spec_path(), entries_view(entries@), wildcard@, old(self).spec_show_hidden()),
            final(self).spec_path() == old(self).spec_path(),
            final(self).spec_show_hidden() == old(self).spec_show_hidden(),
    {
        self.wildcard = str_chars(wildcard);
        self.refresh(entries);
    }

    /// Show hidden names or not from now on, and rebuild from `entries`.
    pub fn set_show_hidden(&mut self, show: bool, entries: &Vec<FileEntry>)
        ensures
            final(self).spec_show_hidden() == show,
            final(self).spec_rows() == file_rows(old(self).spec_path(), entries_view(entries@), old(self).spec_wildcard(), show),
            final(self).spec_path() == old(self).spec_path(),
            final(self).spec_wildcard() == old(self).spec_wildcard(),
    {
        self.show_hidden = show;
        self.refresh(entries);
    }

    /// Show directory `path`, which holds `entries`.
    pub fn change_dir(&mut self, path: &str, entries: &Vec<FileEntry>)
        ensures
            final(self).spec_path() == path@,
            final(self).spec_rows() == file_rows(path@, entries_view(entries@), old(self).spec_wildcard(), old(self).spec_show_hidden()),
            final(self).spec_wildcard() == old(self).spec_wildcard(),
            final(self).spec_show_hidden() == old(self).spec_show_hidden(),
    {
        self.current_path = str_chars(path);
        self.refresh(entries);
    }

    pub fn current_path(&self) -> (s: String)
        ensures
            s@ == self.spec_path(),
    {
        string_from_chars(&self.current_path)
    }

    pub fn get_focused_entry(&self) -> (r: Option<&FileEntry>)
        ensures
            r matches Some(e) ==> (self.spec_list().focused matches Some(f) && f < self.spec_rows().len() && e.view() == self.spec_rows()[f as int]),
            r is None ==> !(self.spec_list().focused matches Some(f) && f < self.spec_rows().len()),
    {
        match self.list_state.focused {
            Some(f) => {
                if f < self.files.len() {
                    Some(&self.files[f])
                } else {
                    None
                }
            },
            None => None,
        }
    }

    /// The focused file's path; none for a directory or without a focus.
    pub fn get_selected_file(&self) -> (r: Option<String>)
        ensures
            r matches Some(p) ==> (self.spec_list().focused matches Some(f) && f < self.spec_rows().len()
                && !self.spec_rows()[f as int].is_dir && p@ == self.spec_rows()[f as int].path),
            r is None ==> !(self.spec_list().focused matches Some(f) && f < self.spec_rows().len() && !self.spec_rows()[f as int].is_dir),
    {
        match self.get_focused_entry() {
            Some(e) => {
                if e.is_dir {
                    None
                } else {
                    let c = string_chars(&e.path);
                    Some(string_from_chars(&c))
                }
            },
            None => None,
        }
    }

    /// The directory to enter for the focused row, if it is a directory.
    pub fn enter_focused_dir(&self) -> (r: Option<String>)
        ensures
            r matches Some(p) ==> (self.spec_list().focused matches Some(f) && f < self.spec_rows().len()
                && self.spec_rows()[f as int].is_dir && p@ == self.spec_rows()[f as int].path),
            r is None ==> !(self.spec_list().focused matches Some(f) && f < self.spec_rows().len() && self.spec_rows()[f as int].is_dir),
    {
        match self.get_focused_entry() {
            Some(e) => {
                if e.is_dir {
                    let c = string_chars(&e.path);
                    Some(string_from_chars(&c))
                } else {
                    None
                }
            },
            None => None,
        }
    }

    pub fn file_count(&self) -> (n: usize)
        ensures
            n == self.spec_rows().len(),
    {
        self.files.len()
    }

    /// The text of row `item`; empty past the end.
    pub fn get_text(&self, item: usize) -> (s: String)
        ensures
            item < self.spec_rows().len() ==> s@ == display_of(self.spec_rows()[item as int]),
            item >= self.spec_rows().len() ==> s@.len() == 0,
    {
        if item < self.files.len() {
            self.files[item].display_name()
        } else {
            String::new()
        }
    }

    pub fn set_state(&mut self, state: u16)
        ensures
            final(self).spec_state() == state,
            final(self).spec_rows() == old(self).spec_rows(),
            final(self).spec_list() == old(self).spec_list(),
            final(self).spec_path() == old(self).spec_path(),
            final(self).spec_bounds() == old(self).spec_bounds(),
    {
        self.state = state;
    }

    /// A focused list applies the list navigation, then takes an Enter
    /// nobody used: it is cleared and `true` asks the caller to enter the
    /// focused directory (see `enter_focused_dir`).
    pub fn handle_event(&mut self, event: &mut Event) -> (enter: bool)
        requires
            lv_room(old(self).spec_list()),
        ensures
            final(self).spec_rows() == old(self).spec_rows(),
            final(self).spec_path() == old(self).spec_path(),
            final(self).spec_bounds() == old(self).spec_bounds(),
            final(self).spec_state() == old(self).spec_state(),
            old(self).spec_state() & SF_FOCUSED == 0 ==> !enter && *final(event) == *old(event) && final(self).spec_list()
                == old(self).spec_list(),
            old(self).spec_state() & SF_FOCUSED != 0 ==> ({
                let used = list_event_used(old(self).spec_list(), old(self).spec_bounds(), *old(event));
                let after = if used { Event { what: EventType::Nothing, ..*old(event) } } else { *old(event) };
                &&& final(self).spec_list() == list_event_state(old(self).spec_list(), old(self).spec_bounds(), *old(event))
                &&& enter == (after.what == EventType::Keyboard && after.key_code == KB_ENTER)
                &&& *final(event) == (if enter { Event { what: EventType::Nothing, ..after } } else { after })
            }),
    {
        if self.state & SF_FOCUSED == 0 {
            return false;
        }
        handle_list_event(&mut self.list_state, self.bounds, event);
        if event.what == EventType::Keyboard && event.key_code == KB_ENTER {
            event.clear();
            return true;
        }
        false
    }
}

/// Builder for file lists; bounds and path must be given.
pub struct FileListBuilder {
    bounds: Option<Rect>,
    path: Option<Vec<char>>,
}

impl FileListBuilder {
    pub closed spec fn spec_bounds(&self) -> Option<Rect> {
        self.bounds
    }

    pub closed spec fn spec_path(&self) -> Option<Seq<char>> {
        match self.path {
            Some(p) => Some(p@),
            None => None,
        }
    }

    pub fn new() -> (b: Self)
        ensures
            b.spec_bounds() is None,
            b.spec_path() is None,
    {
        FileListBuilder { bounds: None, path: None }
    }

    pub fn bounds(self, bounds: Rect) -> (b: Self)
        ensures
            b.spec_bounds() == Some(bounds),
            b.spec_path() == self.spec_path(),
    {
        FileListBuilder { bounds: Some(bounds), ..self }
    }

    pub fn path(self, path: &str) -> (b: Self)
        ensures
            b.spec_path() == Some(path@),
            b.spec_bounds() == self.spec_bounds(),
    {
        FileListBuilder { path: Some(str_chars(path)), ..self }
    }

    pub fn build(self) -> (l: FileList)
        requires
            self.spec_bounds() is Some,
            self.spec_path() is Some,
        ensures
            l.spec_bounds() == self.spec_bounds()->0,
            l.spec_path() == self.spec_path()->0,
            l.spec_rows().len() == 0,
    {
        let b = self.bounds.unwrap();
        let p = string_from_chars(&self.path.unwrap());
        FileList::new(b, p.as_str())
    }

    pub fn build_boxed(self) -> (l: Box<FileList>)
        requires
            self.spec_bounds() is Some,
            self.spec_path() is Some,
        ensures
            l.spec_bounds() == self.spec_bounds()->0,
            l.spec_path() == self.spec_path()->0,
    {
        Box::new(self.build())
    }
}

} // verus!
