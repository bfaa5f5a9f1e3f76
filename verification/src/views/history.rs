//! Input history: lists of earlier entries kept per history id, the small
//! button beside an input line that opens its list, and the popup that
//! shows the list.
use vstd::prelude::*;
use crate::command::CM_SHOW_HISTORY;
use crate::event::{Event, EventType, MB_LEFT_BUTTON};
use crate::geometry::{spec_contains, Point, Rect};
use crate::text::{str_chars, string_chars, string_from_chars};
use crate::views::handle::{Handle, ViewId};
use crate::views::input_line::InputLine;

verus! {

/// The entries of one history list.
pub struct HistoryList {
    pub id: u16,
    pub items: Vec<String>,
}

/// All history lists, by id.
pub struct HistoryManager {
    lists: Vec<HistoryList>,
}

/// The entries recorded under `id` in `lists`, from the first list with that id.
pub open spec fn entries_of(lists: Seq<(u16, Seq<Seq<char>>)>, id: u16) -> Seq<Seq<char>>
    decreases lists.len(),
{
    if lists.len() == 0 {
        Seq::empty()
    } else if lists[0].0 == id {
        lists[0].1
    } else {
        entries_of(lists.drop_first(), id)
    }
}

impl HistoryManager {
    /// The lists as (id, entries) pairs.
    pub closed spec fn spec_lists(&self) -> Seq<(u16, Seq<Seq<char>>)> {
        self.lists@.map_values(|l: HistoryList| (l.id, l.items@.map_values(|s: String| s@)))
    }

    /// The entries of list `id`; empty when nothing was recorded.
    pub open spec fn spec_entries(&self, id: u16) -> Seq<Seq<char>> {
        entries_of(self.spec_lists(), id)
    }

    /// No lists.
    pub fn new() -> (m: HistoryManager)
        ensures
            m.spec_lists().len() == 0,
            forall|id: u16| m.spec_entries(id).len() == 0,
    {
        let m = HistoryManager { lists: Vec::new() };
        assert(m.spec_lists() =~= Seq::empty());
        m
    }

    /// Forget every list.
    pub fn clear_all(&mut self)
        ensures
            forall|id: u16| final(self).spec_entries(id).len() == 0,
    {
        self.lists = Vec::new();
        assert(self.spec_lists() =~= Seq::empty());
    }

    /// Where list `id` is.
    fn find(&self, id: u16) -> (r: Option<usize>)
        ensures
            r matches Some(k) ==> k < self.lists@.len() && self.lists@[k as int].id == id && forall|j: int|
                0 <= j < k ==> (#[trigger] self.lists@[j]).id != id,
            r is None ==> forall|j: int| 0 <= j < self.lists@.len() ==> (#[trigger] self.lists@[j]).id != id,
    {
        let mut k: usize = 0;
        while k < self.lists.len()
            invariant
                k <= self.lists@.len(),
                forall|j: int| 0 <= j < k ==> (#[trigger] self.lists@[j]).id != id,
            decreases self.lists.len() - k,
        {
            if self.lists[k].id == id {
                return Some(k);
            }
            k = k + 1;
        }
        None
    }

    proof fn lemma_entries_at(lists: Seq<(u16, Seq<Seq<char>>)>, id: u16, k: int)
        requires
            0 <= k < lists.len(),
            lists[k].0 == id,
            forall|j: int| 0 <= j < k ==> (#[trigger] lists[j]).0 != id,
        ensures
            entries_of(lists, id) == lists[k].1,
        decreases k,
    {
        if k > 0 {
            Self::lemma_entries_at(lists.drop_first(), id, k - 1);
        }
    }

    proof fn lemma_entries_absent(lists: Seq<(u16, Seq<Seq<char>>)>, id: u16)
        requires
            forall|j: int| 0 <= j < lists.len() ==> (#[trigger] lists[j]).0 != id,
        ensures
            entries_of(lists, id).len() == 0,
        decreases lists.len(),
    {
        if lists.len() > 0 {
            Self::lemma_entries_absent(lists.drop_first(), id);
        }
    }

    /// The entries of list `id`, oldest first.
    pub fn get_list(&self, id: u16) -> (v: Vec<String>)
        ensures
            v@.map_values(|s: String| s@) == self.spec_entries(id),
    {
        match self.find(id) {
            Some(k) => {
                proof {
                    Self::lemma_entries_at(self.spec_lists(), id, k as int);
                }
                let items = &self.lists[k].items;
                let mut out: Vec<String> = Vec::new();
                let mut i: usize = 0;
                while i < items.len()
                    invariant
                        i <= items@.len(),
                        out@.map_values(|s: String| s@) == items@.map_values(|s: String| s@).take(i as int),
                    decreases items.len() - i,
                {
                    let c = string_chars(&items[i]);
                    let ghost before = out@.map_values(|s: String| s@);
                    out.push(string_from_chars(&c));
                    assert(out@.map_values(|s: String| s@) =~= before.push(items@[i as int]@));
                    assert(items@.map_values(|s: String| s@).take(i + 1) =~= items@.map_values(|s: String| s@).take(i as int).push(items@[i as int]@));
                    i = i + 1;
                }
                assert(items@.map_values(|s: String| s@).take(items@.len() as int) =~= items@.map_values(|s: String| s@));
                out
            },
            None => {
                proof {
                    Self::lemma_entries_absent(self.spec_lists(), id);
                }
                Vec::new()
            },
        }
    }

    /// The number of entries in list `id`.
    pub fn count(&self, id: u16) -> (n: usize)
        ensures
            n == self.spec_entries(id).len(),
    {
        match self.find(id) {
            Some(k) => {
                proof {
                    Self::lemma_entries_at(self.spec_lists(), id, k as int);
                }
                self.lists[k].items.len()
            },
            None => {
                proof {
                    Self::lemma_entries_absent(self.spec_lists(), id);
                }
                0
            },
        }
    }

    /// Whether list `id` has entries.
    pub fn has_history(&self, id: u16) -> (b: bool)
        ensures
            b == (self.spec_entries(id).len() > 0),
    {
        self.count(id) > 0
    }

    proof fn lemma_entries_update(lists: Seq<(u16, Seq<Seq<char>>)>, k: int, v: (u16, Seq<Seq<char>>), other: u16)
        requires
            0 <= k < lists.len(),
            lists[k].0 == v.0,
            v.0 != other,
        ensures
            entries_of(lists.update(k, v), other) == entries_of(lists, other),
        decreases k,
    {
        let u = lists.update(k, v);
        if k == 0 {
            assert(u.drop_first() =~= lists.drop_first());
            assert(entries_of(u, other) == entries_of(u.drop_first(), other));
            assert(entries_of(lists, other) == entries_of(lists.drop_first(), other));
        } else if lists[0].0 != other {
            assert(u.drop_first() =~= lists.drop_first().update(k - 1, v));
            Self::lemma_entries_update(lists.drop_first(), k - 1, v, other);
            assert(u[0] == lists[0]);
        } else {
            assert(u[0] == lists[0]);
        }
    }

    proof fn lemma_entries_push(lists: Seq<(u16, Seq<Seq<char>>)>, v: (u16, Seq<Seq<char>>), other: u16)
        requires
            v.0 != other,
        ensures
            entries_of(lists.push(v), other) == entries_of(lists, other),
        decreases lists.len(),
    {
        let p = lists.push(v);
        if lists.len() > 0 && lists[0].0 != other {
            assert(p.drop_first() =~= lists.drop_first().push(v));
            Self::lemma_entries_push(lists.drop_first(), v, other);
            assert(p[0] == lists[0]);
        } else if lists.len() == 0 {
            assert(p.drop_first() =~= Seq::<(u16, Seq<Seq<char>>)>::empty());
            assert(p[0] == v);
            assert(entries_of(p.drop_first(), other) == Seq::<Seq<char>>::empty());
        } else {
            assert(p[0] == lists[0]);
        }
    }

    /// Append `text` to list `id`; the other lists keep their entries.
    pub fn add(&mut self, id: u16, text: &str)
        ensures
            final(self).spec_entries(id) == old(self).spec_entries(id).push(text@),
            forall|other: u16| other != id ==> final(self).spec_entries(other) == old(self).spec_entries(other),
    {
        let ghost before = self.spec_lists();
        let c = str_chars(text);
        let entry_text = string_from_chars(&c);
        match self.find(id) {
            Some(k) => {
                proof {
                    Self::lemma_entries_at(before, id, k as int);
                }
                let mut items = copy_strings(&self.lists[k].items);
                let ghost old_items = items@.map_values(|s: String| s@);
                items.push(entry_text);
                assert(items@.map_values(|s: String| s@) =~= old_items.push(text@));
                self.lists.set(k, HistoryList { id, items });
                let ghost v = (id, old_items.push(text@));
                assert(self.spec_lists() =~= before.update(k as int, v));
                proof {
                    Self::lemma_entries_at(self.spec_lists(), id, k as int);
                    assert forall|other: u16| other != id implies #[trigger] entries_of(self.spec_lists(), other) == entries_of(before, other) by {
                        Self::lemma_entries_update(before, k as int, v, other);
                    }
                }
            },
            None => {
                proof {
                    Self::lemma_entries_absent(before, id);
                }
                let mut items: Vec<String> = Vec::new();
                items.push(entry_text);
                let ghost v = (id, seq![text@]);
                assert(items@.map_values(|s: String| s@) =~= seq![text@]);
                self.lists.push(HistoryList { id, items });
                assert(self.spec_lists() =~= before.push(v));
                proof {
                    assert(forall|j: int| 0 <= j < before.len() ==> (#[trigger] self.spec_lists()[j]).0 != id);
                    Self::lemma_entries_at(self.spec_lists(), id, before.len() as int);
                    assert(old(self).spec_entries(id).push(text@) =~= seq![text@]);
                    assert forall|other: u16| other != id implies #[trigger] entries_of(self.spec_lists(), other) == entries_of(before, other) by {
                        Self::lemma_entries_push(before, v, other);
                    }
                }
            },
        }
    }
}

/// A copy of `v`.
fn copy_strings(v: &Vec<String>) -> (out: Vec<String>)
    ensures
        out@.map_values(|s: String| s@) == v@.map_values(|s: String| s@),
{
    let mut out: Vec<String> = Vec::new();
    let mut i: usize = 0;
    while i < v.len()
        invariant
            i <= v@.len(),
            out@.map_values(|s: String| s@) == v@.map_values(|s: String| s@).take(i as int),
        decreases v.len() - i,
    {
        let c = string_chars(&v[i]);
        let ghost before = out@.map_values(|s: String| s@);
        out.push(string_from_chars(&c));
        assert(out@.map_values(|s: String| s@) =~= before.push(v@[i as int]@));
        assert(v@.map_values(|s: String| s@).take(i + 1) =~= v@.map_values(|s: String| s@).take(i as int).push(v@[i as int]@));
        i = i + 1;
    }
    assert(v@.map_values(|s: String| s@).take(v@.len() as int) =~= v@.map_values(|s: String| s@));
    out
}


/// The button beside an input line that opens its history list.
pub struct History {
    bounds: Rect,
    state: u16,
    history_id: u16,
    link: Handle<InputLine>,
}

impl History {
    pub closed spec fn spec_bounds(&self) -> Rect {
        self.bounds
    }

    pub closed spec fn spec_history_id(&self) -> u16 {
        self.history_id
    }

    pub closed spec fn spec_link(&self) -> Handle<InputLine> {
        self.link
    }

    /// A two-cell button at `pos` for list `history_id`, linked to the input `link`.
    pub fn new(pos: Point, history_id: u16, link: Handle<InputLine>) -> (h: History)
        requires
            pos.x + 2 <= i16::MAX,
            pos.y + 1 <= i16::MAX,
        ensures
            h.spec_bounds() == (Rect { a: pos, b: Point { x: (pos.x + 2) as i16, y: (pos.y + 1) as i16 } }),
            h.spec_history_id() == history_id,
            h.spec_link() == link,
    {
        History {
            bounds: Rect { a: pos, b: Point { x: pos.x + 2, y: pos.y + 1 } },
            state: 0,
            history_id,
            link,
        }
    }

    pub fn bounds(&self) -> (r: Rect)
        ensures
            r == self.spec_bounds(),
    {
        self.bounds
    }

    /// Whether the button's list has entries.
    pub fn has_items(&self, manager: &HistoryManager) -> (b: bool)
        ensures
            b == (manager.spec_entries(self.spec_history_id()).len() > 0),
    {
        manager.has_history(self.history_id)
    }

    pub fn history_id(&self) -> (id: u16)
        ensures
            id == self.spec_history_id(),
    {
        self.history_id
    }

    pub fn link(&self) -> (h: &Handle<InputLine>)
        ensures
            *h == self.spec_link(),
    {
        &self.link
    }

    /// A left click on the button becomes a show-history command carrying
    /// the list id (the mouse position kept, for placing the popup) when the
    /// list has entries, and is used up otherwise. Other events are left alone.
    pub fn handle_event(&self, event: &mut Event, manager: &HistoryManager)
        ensures
            ({
                let e = *old(event);
                if e.what == EventType::MouseDown && spec_contains(self.spec_bounds(), e.mouse.pos) && e.mouse.buttons
                    & MB_LEFT_BUTTON != 0 {
                    if manager.spec_entries(self.spec_history_id()).len() > 0 {
                        *final(event) == (Event {
                            what: EventType::Command,
                            command: CM_SHOW_HISTORY,
                            info: self.spec_history_id(),
                            ..e
                        })
                    } else {
                        *final(event) == (Event { what: EventType::Nothing, ..e })
                    }
                } else {
                    *final(event) == e
                }
            }),
    {
        if event.what == EventType::MouseDown && self.bounds.contains(event.mouse.pos) && event.mouse.buttons
            & MB_LEFT_BUTTON != 0 {
            if self.has_items(manager) {
                event.what = EventType::Command;
                event.command = CM_SHOW_HISTORY;
                event.info = self.history_id;
            } else {
                event.clear();
            }
        }
    }
}

/// Record the text of an accepted input line in list `id`; an empty text
/// is not recorded.
pub fn record_history(manager: &mut HistoryManager, id: u16, text: &str)
    ensures
        text@.len() > 0 ==> final(manager).spec_entries(id) == old(manager).spec_entries(id).push(text@),
        text@.len() == 0 ==> final(manager).spec_entries(id) == old(manager).spec_entries(id),
        forall|other: u16| other != id ==> final(manager).spec_entries(other) == old(manager).spec_entries(other),
{
    if !text.is_empty() {
        manager.add(id, text);
    }
}

/// Builder for history buttons; position, id and link must be given.
pub struct HistoryBuilder {
    pos: Option<Point>,
    history_id: Option<u16>,
    link: Option<Handle<InputLine>>,
}

impl HistoryBuilder {
    pub closed spec fn spec_pos(&self) -> Option<Point> {
        self.pos
    }

    pub closed spec fn spec_history_id(&self) -> Option<u16> {
        self.history_id
    }

    pub closed spec fn spec_link(&self) -> Option<Handle<InputLine>> {
        self.link
    }

    pub fn new() -> (b: Self)
        ensures
            b.spec_pos() is None,
            b.spec_history_id() is None,
            b.spec_link() is None,
    {
        HistoryBuilder { pos: None, history_id: None, link: None }
    }

    pub fn link(self, link: Handle<InputLine>) -> (b: Self)
        ensures
            b.spec_link() == Some(link),
            b.spec_pos() == self.spec_pos(),
            b.spec_history_id() == self.spec_history_id(),
    {
        HistoryBuilder { link: Some(link), ..self }
    }

    pub fn pos(self, pos: Point) -> (b: Self)
        ensures
            b.spec_pos() == Some(pos),
            b.spec_link() == self.spec_link(),
            b.spec_history_id() == self.spec_history_id(),
    {
        HistoryBuilder { pos: Some(pos), ..self }
    }

    pub fn history_id(self, history_id: u16) -> (b: Self)
        ensures
            b.spec_history_id() == Some(history_id),
            b.spec_pos() == self.spec_pos(),
            b.spec_link() == self.spec_link(),
    {
        HistoryBuilder { history_id: Some(history_id), ..self }
    }

    pub fn build(self) -> (h: History)
        requires
            self.spec_pos() is Some,
            self.spec_history_id() is Some,
            self.spec_link() is Some,
            self.spec_pos()->0.x + 2 <= i16::MAX,
            self.spec_pos()->0.y + 1 <= i16::MAX,
        ensures
            h.spec_bounds().a == self.spec_pos()->0,
            h.spec_history_id() == self.spec_history_id()->0,
            h.spec_link() == self.spec_link()->0,
    {
        History::new(self.pos.unwrap(), self.history_id.unwrap(), self.link.unwrap())
    }

    pub fn build_boxed(self) -> (h: Box<History>)
        requires
            self.spec_pos() is Some,
            self.spec_history_id() is Some,
            self.spec_link() is Some,
            self.spec_pos()->0.x + 2 <= i16::MAX,
            self.spec_pos()->0.y + 1 <= i16::MAX,
        ensures
            h.spec_bounds().a == self.spec_pos()->0,
            h.spec_history_id() == self.spec_history_id()->0,
            h.spec_link() == self.spec_link()->0,
    {
        Box::new(self.build())
    }
}

/// An input line a dialog holds, under its view id.
pub struct LinkedInput {
    pub id: ViewId,
    pub input: InputLine,
}

/// Input `j` is the first of `inputs` with id `id`.
pub open spec fn is_first_input(inputs: Seq<LinkedInput>, id: ViewId, j: int) -> bool {
    &&& 0 <= j < inputs.len()
    &&& inputs[j].id == id
    &&& forall|k: int| 0 <= k < j ==> (#[trigger] inputs[k]).id != id
}

/// The text of the first input with id `id`, if there is one.
pub open spec fn linked_text(inputs: Seq<LinkedInput>, id: ViewId) -> Option<Seq<char>> {
    if exists|j: int| is_first_input(inputs, id, j) {
        Some(inputs[choose|j: int| is_first_input(inputs, id, j)].input.spec_text())
    } else {
        None
    }
}

/// The texts the first `n` history buttons record in list `id`: for each
/// button of that list, the text of its linked input when it has one and
/// it is not empty.
pub open spec fn recorded_texts(hs: Seq<History>, inputs: Seq<LinkedInput>, id: u16, n: int) -> Seq<Seq<char>>
    decreases n,
{
    if n <= 0 {
        Seq::empty()
    } else {
        let prev = recorded_texts(hs, inputs, id, n - 1);
        let h = hs[n - 1];
        if h.spec_history_id() == id {
            match linked_text(inputs, h.spec_link().spec_id()) {
                Some(t) => if t.len() > 0 { prev.push(t) } else { prev },
                None => prev,
            }
        } else {
            prev
        }
    }
}

/// The first input with id `id`, told by its position.
proof fn lemma_first_input(inputs: Seq<LinkedInput>, id: ViewId, j: int)
    requires
        is_first_input(inputs, id, j),
    ensures
        linked_text(inputs, id) == Some(inputs[j].input.spec_text()),
{
    let k = choose|k: int| is_first_input(inputs, id, k);
    if k < j {
        assert(inputs[k].id != id);
    } else if k > j {
        assert(inputs[j].id != id);
    }
}

/// The position of the first input with id `id`.
fn find_input(inputs: &Vec<LinkedInput>, id: ViewId) -> (r: Option<usize>)
    ensures
        r matches Some(j) ==> is_first_input(inputs@, id, j as int),
        r is None ==> forall|k: int| 0 <= k < inputs@.len() ==> (#[trigger] inputs@[k]).id != id,
{
    let mut j: usize = 0;
    while j < inputs.len()
        invariant
            j <= inputs@.len(),
            forall|k: int| 0 <= k < j ==> (#[trigger] inputs@[k]).id != id,
        decreases inputs.len() - j,
    {
        if inputs[j].id.value == id.value {
            return Some(j);
        }
        j = j + 1;
    }
    None
}

/// The dialog was accepted: every history button records the text of the
/// input it is linked to in its list, in the order of the buttons; empty
/// texts and buttons whose input is missing record nothing.
pub fn record_linked_inputs(manager: &mut HistoryManager, histories: &Vec<History>, inputs: &Vec<LinkedInput>)
    ensures
        forall|id: u16| #[trigger] final(manager).spec_entries(id) == old(manager).spec_entries(id) + recorded_texts(
            histories@,
            inputs@,
            id,
            histories@.len() as int,
        ),
{
    let mut i: usize = 0;
    while i < histories.len()
        invariant
            i <= histories@.len(),
            forall|id: u16| #[trigger] manager.spec_entries(id) == old(manager).spec_entries(id) + recorded_texts(
                histories@,
                inputs@,
                id,
                i as int,
            ),
        decreases histories.len() - i,
    {
        let h = &histories[i];
        let hid = h.history_id();
        let link = h.link().id();
        match find_input(inputs, link) {
            Some(j) => {
                proof {
                    lemma_first_input(inputs@, link, j as int);
                }
                let text = inputs[j].input.get_text();
                let ghost before = *manager;
                record_history(manager, hid, text.as_str());
                proof {
                    assert forall|id: u16| #[trigger] manager.spec_entries(id) == old(manager).spec_entries(id)
                        + recorded_texts(histories@, inputs@, id, i + 1) by {
                        if id == hid && text@.len() > 0 {
                            assert(old(manager).spec_entries(id) + recorded_texts(histories@, inputs@, id, i + 1)
                                =~= (old(manager).spec_entries(id) + recorded_texts(histories@, inputs@, id, i as int)).push(text@));
                        }
                    }
                }
            },
            None => {
                proof {
                    assert(!exists|j: int| is_first_input(inputs@, link, j));
                }
            },
        }
        i = i + 1;
    }
}

/// The first history button of list `history_id`.
pub open spec fn is_first_button(hs: Seq<History>, history_id: u16, i: int) -> bool {
    &&& 0 <= i < hs.len()
    &&& hs[i].spec_history_id() == history_id
    &&& forall|k: int| 0 <= k < i ==> (#[trigger] hs[k]).spec_history_id() != history_id
}

/// `item`, picked in the popup of list `history_id`, goes into the input
/// linked to the first history button of that list. Tells whether there was
/// such an input; every other input, and everything else of that one but
/// its text, stays.
pub fn apply_history_selection(histories: &Vec<History>, inputs: &mut Vec<LinkedInput>, history_id: u16, item: &str) -> (found: bool)
    ensures
        final(inputs)@.len() == old(inputs)@.len(),
        found <==> exists|i: int, j: int| is_first_button(histories@, history_id, i)
            && is_first_input(old(inputs)@, histories@[i].spec_link().spec_id(), j),
        forall|i: int, j: int| is_first_button(histories@, history_id, i)
            && is_first_input(old(inputs)@, histories@[i].spec_link().spec_id(), j) ==> {
            &&& final(inputs)@[j].id == old(inputs)@[j].id
            &&& final(inputs)@[j].input.spec_text() == item@
            &&& final(inputs)@[j].input.spec_bounds() == old(inputs)@[j].input.spec_bounds()
            &&& final(inputs)@[j].input.spec_max_length() == old(inputs)@[j].input.spec_max_length()
            &&& forall|k: int| 0 <= k < old(inputs)@.len() && k != j ==> final(inputs)@[k] == old(inputs)@[k]
        },
        !found ==> final(inputs)@ == old(inputs)@,
{
    let mut i: usize = 0;
    while i < histories.len()
        invariant
            i <= histories@.len(),
            inputs@ == old(inputs)@,
            forall|k: int| 0 <= k < i ==> (#[trigger] histories@[k]).spec_history_id() != history_id,
        decreases histories.len() - i,
    {
        if histories[i].history_id() == history_id {
            let link = histories[i].link().id();
            assert(is_first_button(histories@, history_id, i as int));
            match find_input(inputs, link) {
                Some(j) => {
                    let mut entry = inputs.remove(j);
                    entry.input.set_text(item);
                    inputs.insert(j, entry);
                    proof {
                        assert forall|a: int, b: int| is_first_button(histories@, history_id, a)
                            && is_first_input(old(inputs)@, histories@[a].spec_link().spec_id(), b) implies b == j && a == i by {
                            if a < i {
                                assert(histories@[a].spec_history_id() != history_id);
                            } else if a > i {
                                assert(histories@[i as int].spec_history_id() != history_id);
                            }
                            if b < j {
                                assert(old(inputs)@[b].id != link);
                            } else if b > j {
                                assert(old(inputs)@[j as int].id != link);
                            }
                        }
                        assert forall|k: int| 0 <= k < old(inputs)@.len() && k != j implies inputs@[k] == old(inputs)@[k] by {
                            if k < j {
                                assert(inputs@[k] == old(inputs)@.remove(j as int)[k]);
                            } else {
                                assert(inputs@[k] == old(inputs)@.remove(j as int)[k - 1]);
                            }
                        }
                    }
                    return true;
                },
                None => {
                    proof {
                        assert forall|a: int, b: int| is_first_button(histories@, history_id, a)
                            && is_first_input(old(inputs)@, histories@[a].spec_link().spec_id(), b) implies false by {
                            if a < i {
                                assert(histories@[a].spec_history_id() != history_id);
                            } else if a > i {
                                assert(histories@[i as int].spec_history_id() != history_id);
                            }
                            assert(old(inputs)@[b].id != link);
                        }
                    }
                    return false;
                },
            }
        }
        i = i + 1;
    }
    false
}

} // verus!
