//! Check boxes and radio buttons: one focusable control holding several items.
use vstd::prelude::*;
use crate::command::CommandId;
use crate::event::{Event, EventType, KB_DOWN, KB_END, KB_HOME, KB_SPACE, KB_UP, KM_ALT, MB_LEFT_BUTTON, spec_broadcast, has_modifier, modifiers_have};
use crate::geometry::{Point, Rect, spec_contains};
use crate::state::{SF_FOCUSED, has_flag, flag_set};
use crate::text::{spec_to_lower, str_chars, string_chars, string_from_chars, take_chars, to_ascii_lower};
use crate::draw::{Attr, Cell, DrawBuffer, DrawLine, blank_cell, fill_cells, put_text};
use crate::geometry::{clamp_extent, spec_height, spec_width};

verus! {

broadcast use vstd::string::group_string_axioms;

/// The largest number of items a cluster holds, one per bit of its value.
pub const MAX_CLUSTER_ITEMS: usize = 32;

/// One item: its drawn label and the hotkey taken out of the tildes.
pub struct Item {
    /// Label with the tilde markers removed.
    pub label: String,
    /// The letter between tildes, lower-cased.
    pub hotkey: Option<char>,
    /// Where that letter sits in `label`.
    pub hotkey_pos: Option<usize>,
    /// Disabled items are drawn dimmed and cannot be chosen.
    pub enabled: bool,
}

/// The label drawn for `s`: a tilde and the tilde after the next character
/// are dropped; a trailing tilde is dropped too.
pub open spec fn strip_label(s: Seq<char>) -> Seq<char>
    decreases s.len(),
{
    if s.len() == 0 {
        seq![]
    } else if s[0] != '~' {
        seq![s[0]] + strip_label(s.subrange(1, s.len() as int))
    } else if s.len() == 1 {
        seq![]
    } else if s.len() >= 3 && s[2] == '~' {
        seq![s[1]] + strip_label(s.subrange(3, s.len() as int))
    } else {
        seq![s[1]] + strip_label(s.subrange(2, s.len() as int))
    }
}

/// The hotkey of a label and its index in the drawn label: the first
/// character marked by a tilde on each side, lower-cased. A character after
/// a tilde with no closing tilde is drawn but marks no hotkey.
pub open spec fn label_hotkey(s: Seq<char>) -> Option<(char, int)>
    decreases s.len(),
{
    if s.len() == 0 {
        None
    } else if s[0] != '~' {
        match label_hotkey(s.subrange(1, s.len() as int)) {
            Some(h) => Some((h.0, h.1 + 1)),
            None => None,
        }
    } else if s.len() == 1 {
        None
    } else if s.len() >= 3 && s[2] == '~' {
        Some((spec_to_lower(s[1]), 0))
    } else {
        match label_hotkey(s.subrange(2, s.len() as int)) {
            Some(h) => Some((h.0, h.1 + 1)),
            None => None,
        }
    }
}

/// Split `"~B~old"` into its drawn label `"Bold"`, hotkey `'b'` and position 0.
/// A label without tildes, or with an unterminated one, has no hotkey.
pub fn parse_label(text: &str) -> (item: Item)
    ensures
        item.label@ == strip_label(text@),
        item.hotkey == (match label_hotkey(text@) {
            Some(h) => Some(h.0),
            None => None,
        }),
        item.hotkey_pos == (match label_hotkey(text@) {
            Some(h) => Some(h.1 as usize),
            None => None,
        }),
        label_hotkey(text@) matches Some(h) ==> 0 <= h.1 < strip_label(text@).len(),
        item.enabled,
{
    let s = str_chars(text);
    let n = s.len();
    let mut label: Vec<char> = Vec::new();
    let mut hotkey: Option<char> = None;
    let mut hotkey_pos: Option<usize> = None;
    let mut i: usize = 0;
    assert(s@.subrange(0, n as int) =~= s@);
    assert(label@ + strip_label(s@) =~= strip_label(s@));
    while i < n
        invariant
            n == s@.len(),
            s@ == text@,
            i <= n,
            label@ + strip_label(s@.subrange(i as int, n as int)) == strip_label(s@),
            label@.len() <= i,
            hotkey is None <==> hotkey_pos is None,
            hotkey is None ==> label_hotkey(s@) == (match label_hotkey(s@.subrange(i as int, n as int)) {
                Some(h) => Some((h.0, h.1 + label@.len())),
                None => None,
            }),
            hotkey matches Some(c) ==> label_hotkey(s@) == Some((c, hotkey_pos->0 as int)),
            hotkey matches Some(c) ==> hotkey_pos->0 < label@.len(),
        decreases n - i,
    {
        let ghost rest = s@.subrange(i as int, n as int);
        let ghost lab = label@;
        let ch = s[i];
        if ch != '~' {
            assert(rest.subrange(1, rest.len() as int) =~= s@.subrange(i + 1, n as int));
            label.push(ch);
            assert(label@ + strip_label(s@.subrange(i + 1, n as int)) =~= lab + strip_label(rest));
            i = i + 1;
        } else if i + 1 < n {
            let letter = s[i + 1];
            let closed = i + 2 < n && s[i + 2] == '~';
            if hotkey.is_none() && closed {
                hotkey = Some(to_ascii_lower(letter));
                hotkey_pos = Some(label.len());
            }
            label.push(letter);
            if closed {
                assert(rest.subrange(3, rest.len() as int) =~= s@.subrange(i + 3, n as int));
                assert(label@ + strip_label(s@.subrange(i + 3, n as int)) =~= lab + strip_label(rest));
                i = i + 3;
            } else {
                assert(rest.subrange(2, rest.len() as int) =~= s@.subrange(i + 2, n as int));
                assert(label@ + strip_label(s@.subrange(i + 2, n as int)) =~= lab + strip_label(rest));
                i = i + 2;
            }
        } else {
            assert(label@ + strip_label(s@.subrange(i + 1, n as int)) =~= lab + strip_label(rest));
            i = i + 1;
        }
    }
    assert(label@ =~= strip_label(s@)) by {
        assert(s@.subrange(i as int, n as int) =~= Seq::<char>::empty());
    }
    Item { label: string_from_chars(&label), hotkey, hotkey_pos, enabled: true }
}


/// What the marker looks like and how choosing behaves.
#[derive(Clone, Copy, Debug, PartialEq, Eq, Structural)]
pub enum Kind {
    /// Square brackets; any number of items can be on.
    Check,
    /// Round brackets; choosing an item turns the others off.
    Radio,
}

/// The abstract content of one item.
pub struct ItemView {
    pub label: Seq<char>,
    pub hotkey: Option<char>,
    pub hotkey_pos: Option<usize>,
    pub enabled: bool,
}

impl View for Item {
    type V = ItemView;

    open spec fn view(&self) -> ItemView {
        ItemView {
            label: self.label@,
            hotkey: self.hotkey,
            hotkey_pos: self.hotkey_pos,
            enabled: self.enabled,
        }
    }
}

/// The abstract state of a cluster.
pub struct ClusterView {
    pub kind: Kind,
    pub items: Seq<ItemView>,
    pub value: u32,
    pub focused: usize,
    pub on_change: u16,
    pub state: u16,
    pub bounds: Rect,
}

/// The machinery shared by [`CheckBoxes`] and [`RadioButtons`].
pub struct ClusterGroup {
    bounds: Rect,
    kind: Kind,
    items: Vec<Item>,
    value: u32,
    focused_item: usize,
    on_change: CommandId,
    view_state: u16,
}

/// Bits of the value that belong to real items, for `n <= 32` items.
pub open spec fn item_mask(n: int) -> u32 {
    if n >= 32 {
        0xFFFF_FFFFu32
    } else {
        ((1u32 << (n as u32)) - 1) as u32
    }
}

/// Whether bit `i < 32` of `v` is set.
pub open spec fn bit_set(v: u32, i: int) -> bool {
    v & (1u32 << (i as u32)) != 0
}

/// The value after turning item `index` on or off, for a cluster of `n` items.
pub open spec fn value_after_set(kind: Kind, value: u32, n: int, index: int, on: bool) -> u32 {
    if index >= n {
        value
    } else {
        match (kind, on) {
            (Kind::Radio, true) => 1u32 << (index as u32),
            (Kind::Radio, false) => value,
            (Kind::Check, true) => value | (1u32 << (index as u32)),
            (Kind::Check, false) => value & !(1u32 << (index as u32)),
        }
    }
}

/// The value after activating item `index`: a check flips, a radio is chosen;
/// disabled and missing items change nothing.
pub open spec fn value_after_activate(v: ClusterView, index: int) -> u32 {
    if 0 <= index < v.items.len() && v.items[index].enabled {
        match v.kind {
            Kind::Check => value_after_set(v.kind, v.value, v.items.len() as int, index, !bit_set(v.value, index)),
            Kind::Radio => value_after_set(v.kind, v.value, v.items.len() as int, index, true),
        }
    } else {
        v.value
    }
}

/// The first enabled item whose hotkey is `letter`, ignoring ASCII case.
pub open spec fn is_hotkey_match(v: ClusterView, i: int, letter: char) -> bool {
    v.items[i].enabled && v.items[i].hotkey == Some(spec_to_lower(letter))
}

pub open spec fn first_hotkey(v: ClusterView, letter: char) -> Option<usize> {
    if exists|i: int| 0 <= i < v.items.len() && is_hotkey_match(v, i, letter) {
        let i = choose|i: int| 0 <= i < v.items.len() && is_hotkey_match(v, i, letter)
            && forall|j: int| 0 <= j < i ==> !is_hotkey_match(v, j, letter);
        Some(i as usize)
    } else {
        None
    }
}

/// The focus after moving it by `delta`, clamped to the items.
pub open spec fn moved_focus(v: ClusterView, delta: int) -> usize {
    if v.items.len() == 0 {
        v.focused
    } else {
        let t = v.focused + delta;
        (if t < 0 { 0 } else if t > v.items.len() - 1 { v.items.len() - 1 } else { t }) as usize
    }
}

/// The event reporting a value change: the change command, or a cleared event.
pub open spec fn reported(e: Event, on_change: u16, changed: bool) -> Event {
    if changed && on_change != 0 {
        spec_broadcast(on_change, 0)
    } else {
        Event { what: EventType::Nothing, ..e }
    }
}

/// The item shown on the screen row of `pos`, if `pos` is on an item.
pub open spec fn item_at_pos(v: ClusterView, pos: Point) -> Option<usize> {
    if spec_contains(v.bounds, pos) && pos.y - v.bounds.a.y < v.items.len() {
        Some((pos.y - v.bounds.a.y) as usize)
    } else {
        None
    }
}

impl View for ClusterGroup {
    type V = ClusterView;

    closed spec fn view(&self) -> ClusterView {
        ClusterView {
            kind: self.kind,
            items: self.items@.map_values(|it: Item| it@),
            value: self.value,
            focused: self.focused_item,
            on_change: self.on_change,
            state: self.view_state,
            bounds: self.bounds,
        }
    }
}

/// The parsed items of the first 32 labels.
pub open spec fn parsed_items(labels: Seq<String>) -> Seq<ItemView> {
    let n = if labels.len() > 32 { 32 } else { labels.len() as int };
    Seq::new(n as nat, |i: int| parsed_item(labels[i]@))
}

/// The item parsed from one label.
pub open spec fn parsed_item(text: Seq<char>) -> ItemView {
    ItemView {
        label: strip_label(text),
        hotkey: match label_hotkey(text) {
            Some(h) => Some(h.0),
            None => None,
        },
        hotkey_pos: match label_hotkey(text) {
            Some(h) => Some(h.1 as usize),
            None => None,
        },
        enabled: true,
    }
}

impl ClusterGroup {
    /// At most 32 items, and the focus on an item (or 0 when empty).
    pub closed spec fn wf(&self) -> bool {
        &&& self.items@.len() <= 32
        &&& (self.focused_item < self.items@.len() || self.focused_item == 0)
        &&& self.value & item_mask(self.items@.len() as int) == self.value
        &&& (self.kind == Kind::Radio ==> radio_one(self.value, self.items@.len() as int))
    }

    /// A well-formed cluster has at most 32 items, one value bit each.
    pub proof fn lemma_at_most_32_items(&self)
        requires
            self.wf(),
        ensures
            self@.items.len() <= 32,
    {
    }

    proof fn lemma_view_len(&self)
        ensures
            self@.items.len() == self.items@.len(),
            forall|i: int| 0 <= i < self.items@.len() ==> #[trigger] self@.items[i] == self.items@[i]@,
    {
    }

    pub fn new(bounds: Rect, kind: Kind, labels: Vec<String>) -> (g: ClusterGroup)
        ensures
            g.wf(),
            g@.kind == kind,
            g@.items == parsed_items(labels@),
            g@.value == (if kind == Kind::Radio && labels@.len() > 0 { 1u32 } else { 0u32 }),
            g@.focused == 0,
            g@.on_change == 0,
            g@.state == 0,
            g@.bounds == bounds,
    {
        proof {
            let m = item_mask(if labels@.len() > 32 { 32 } else { labels@.len() as int });
            assert(0u32 & m == 0u32) by (bit_vector);
        }
        let mut group = ClusterGroup {
            bounds,
            kind,
            items: Vec::new(),
            value: 0,
            focused_item: 0,
            on_change: 0,
            view_state: 0,
        };
        proof {
            lemma_mask(0u32, 0, 0);
        }
        group.set_labels(labels);
        group
    }

    /// Replace the labels; labels past the 32nd are dropped, the focus is pulled
    /// back onto an item and value bits without an item are cleared.
    pub fn set_labels(&mut self, labels: Vec<String>)
        requires
            old(self).wf(),
        ensures
            final(self).wf(),
            final(self)@ == (ClusterView {
                items: parsed_items(labels@),
                focused: ({
                    let n = parsed_items(labels@).len();
                    if old(self)@.focused <= (if n > 0 { n - 1 } else { 0 }) {
                        old(self)@.focused
                    } else {
                        (if n > 0 { n - 1 } else { 0 }) as usize
                    }
                }),
                value: ({
                    let masked = old(self)@.value & item_mask(parsed_items(labels@).len() as int);
                    if old(self)@.kind == Kind::Radio && masked == 0 && parsed_items(labels@).len() > 0 {
                        1u32
                    } else {
                        masked
                    }
                }),
                ..old(self)@
            }),
    {
        let mut items: Vec<Item> = Vec::new();
        let mut i: usize = 0;
        let n: usize = if labels.len() > MAX_CLUSTER_ITEMS { MAX_CLUSTER_ITEMS } else { labels.len() };
        while i < n
            invariant
                n <= labels@.len(),
                n == parsed_items(labels@).len(),
                i <= n,
                items@.len() == i,
                forall|k: int| 0 <= k < i ==> #[trigger] items@[k]@ == parsed_item(labels@[k]@),
            decreases n - i,
        {
            let item = parse_label(labels[i].as_str());
            items.push(item);
            i = i + 1;
        }
        self.items = items;
        let last = if n > 0 { n - 1 } else { 0 };
        if self.focused_item > last {
            self.focused_item = last;
        }
        let ghost v0 = self.value;
        let ghost n0 = old(self).items@.len() as int;
        let mask = self.mask();
        self.value = self.value & mask;
        proof {
            lemma_mask(v0, n as int, 0);
            if self.kind == Kind::Radio {
                lemma_radio_relabel(v0, n0, n as int);
            }
        }
        if self.kind == Kind::Radio && self.value == 0 && n > 0 {
            self.value = 1;
            proof {
                lemma_mask(0u32, n as int, 0);
                lemma_trailing_zeros_of_bit(0);
                assert(1u32 << 0u32 == 1u32) by (bit_vector);
            }
        }
        assert(self@.items =~= parsed_items(labels@));
        assert(self.items@.len() == n);
        assert(self.value & item_mask(n as int) == self.value);
        assert(self.kind == Kind::Radio ==> radio_one(self.value, n as int));
    }

    /// Bits that correspond to real items.
    fn mask(&self) -> (m: u32)
        requires
            self.items@.len() <= 32,
        ensures
            m == item_mask(self.items@.len() as int),
    {
        if self.items.len() >= MAX_CLUSTER_ITEMS {
            0xFFFF_FFFF
        } else {
            let n = self.items.len() as u32;
            assert(n < 32 ==> (1u32 << n) >= 1u32) by (bit_vector);
            (1u32 << n) - 1
        }
    }

    /// Whether item `index` exists and its bit is set.
    pub fn is_set(&self, index: usize) -> (b: bool)
        requires
            self.wf(),
        ensures
            b == (index < self@.items.len() && bit_set(self@.value, index as int)),
    {
        index < self.items.len() && self.value & (1u32 << (index as u32)) != 0
    }

    /// Turn one item on or off; out-of-range indices are ignored.
    /// Returns whether the value changed.
    pub fn set_bit(&mut self, index: usize, on: bool) -> (changed: bool)
        requires
            old(self).wf(),
        ensures
            final(self).wf(),
            final(self)@ == (ClusterView {
                value: value_after_set(old(self)@.kind, old(self)@.value, old(self)@.items.len() as int, index as int, on),
                ..old(self)@
            }),
            changed == (final(self)@.value != old(self)@.value),
    {
        if index >= self.items.len() {
            return false;
        }
        let before = self.value;
        let bit = 1u32 << (index as u32);
        proof {
            lemma_mask(self.value, self.items@.len() as int, index as int);
            lemma_trailing_zeros_of_bit(index as int);
        }
        match (self.kind, on) {
            (Kind::Radio, true) => self.value = bit,
            (Kind::Radio, false) => {},
            (Kind::Check, true) => self.value = self.value | bit,
            (Kind::Check, false) => self.value = self.value & !bit,
        }
        self.value != before
    }

    /// Act on one item as Space would: flip a check, choose a radio.
    pub fn activate(&mut self, index: usize) -> (changed: bool)
        requires
            old(self).wf(),
        ensures
            final(self).wf(),
            final(self)@ == (ClusterView { value: value_after_activate(old(self)@, index as int), ..old(self)@ }),
            changed == (final(self)@.value != old(self)@.value),
    {
        proof { self.lemma_view_len(); }
        if index >= self.items.len() || !self.items[index].enabled {
            return false;
        }
        match self.kind {
            Kind::Check => {
                let on = self.is_set(index);
                self.set_bit(index, !on)
            },
            Kind::Radio => self.set_bit(index, true),
        }
    }

    /// Move the focused item by `delta`, clamping at both ends.
    pub fn move_focus(&mut self, delta: i32)
        requires
            old(self).wf(),
        ensures
            final(self).wf(),
            final(self)@ == (ClusterView { focused: moved_focus(old(self)@, delta as int), ..old(self)@ }),
    {
        proof { self.lemma_view_len(); }
        if self.items.len() == 0 {
            return;
        }
        let last: i64 = self.items.len() as i64 - 1;
        let t: i64 = self.focused_item as i64 + delta as i64;
        let c: i64 = if t < 0 { 0 } else if t > last { last } else { t };
        self.focused_item = c as usize;
    }

    /// Index of the first enabled item whose hotkey is `letter`.
    pub fn item_for_hotkey(&self, letter: char) -> (r: Option<usize>)
        ensures
            r == first_hotkey(self@, letter),
    {
        proof { self.lemma_view_len(); }
        let lower = to_ascii_lower(letter);
        let mut i: usize = 0;
        while i < self.items.len()
            invariant
                i <= self.items@.len(),
                lower == spec_to_lower(letter),
                self@.items.len() == self.items@.len(),
                forall|k: int| 0 <= k < self.items@.len() ==> #[trigger] self@.items[k] == self.items@[k]@,
                forall|j: int| 0 <= j < i ==> !is_hotkey_match(self@, j, letter),
            decreases self.items.len() - i,
        {
            let item = &self.items[i];
            if item.enabled && item.hotkey == Some(lower) {
                assert(is_hotkey_match(self@, i as int, letter));
                let ghost c = choose|c: int| 0 <= c < self@.items.len() && is_hotkey_match(self@, c, letter)
                    && forall|j: int| 0 <= j < c ==> !is_hotkey_match(self@, j, letter);
                assert(c == i) by {
                    if c < i { } else if c > i { assert(!is_hotkey_match(self@, i as int, letter)); }
                }
                return Some(i);
            }
            i = i + 1;
        }
        None
    }

    /// The item under a screen point, if the point is on one.
    pub fn item_at(&self, pos: Point) -> (r: Option<usize>)
        ensures
            r == item_at_pos(self@, pos),
    {
        proof { self.lemma_view_len(); }
        if !self.bounds.contains(pos) {
            return None;
        }
        let row = (pos.y as i32 - self.bounds.a.y as i32) as usize;
        if row < self.items.len() { Some(row) } else { None }
    }

    /// Whether the cluster itself holds the focus.
    pub fn is_focused_view(&self) -> (b: bool)
        ensures
            b == has_flag(self@.state, SF_FOCUSED),
    {
        flag_set(self.view_state, SF_FOCUSED)
    }

    /// Turn a value change into the outgoing event.
    pub fn report(&self, event: &mut Event, changed: bool)
        ensures
            *final(event) == reported(*old(event), self@.on_change, changed),
    {
        if changed && self.on_change != 0 {
            *event = Event::broadcast(self.on_change);
        } else {
            event.clear();
        }
    }

    /// React to a click, an Alt hotkey, or a key while focused.
    pub fn handle(&mut self, event: &mut Event)
        requires
            old(self).wf(),
        ensures
            final(self).wf(),
            (final(self)@, *final(event)) == cluster_handled(old(self)@, *old(event)),
    {
        proof { self.lemma_view_len(); }
        if event.what == EventType::MouseDown && event.mouse.buttons & MB_LEFT_BUTTON != 0 {
            match self.item_at(event.mouse.pos) {
                Some(index) => {
                    self.focused_item = index;
                    let changed = self.activate(index);
                    self.report(event, changed);
                },
                None => {},
            }
            return;
        }
        if event.what != EventType::Keyboard {
            return;
        }
        if modifiers_have(event.key_modifiers, KM_ALT) {
            let letter = ((event.key_code & 0xFF) as u8) as char;
            match self.item_for_hotkey(letter) {
                Some(index) => {
                    self.focused_item = index;
                    let changed = self.activate(index);
                    self.report(event, changed);
                    return;
                },
                None => {},
            }
        }
        if !self.is_focused_view() {
            return;
        }
        let code = event.key_code;
        if code == KB_UP {
            self.move_focus(-1);
        } else if code == KB_DOWN {
            self.move_focus(1);
        } else if code == KB_HOME {
            self.move_focus(i32::MIN / 2);
        } else if code == KB_END {
            self.move_focus(i32::MAX / 2);
        } else if code == KB_SPACE {
            let index = self.focused_item;
            let changed = self.activate(index);
            self.report(event, changed);
            return;
        } else {
            return;
        }
        event.clear();
    }
}

/// The letter an Alt key event carries in its low byte.
pub open spec fn alt_letter(e: Event) -> char {
    ((e.key_code & 0xFF) as u8) as char
}

/// Focus item `i` and activate it, reporting the change.
pub open spec fn choose_item(v: ClusterView, e: Event, i: usize) -> (ClusterView, Event) {
    let w = ClusterView { focused: i, ..v };
    let nv = value_after_activate(w, i as int);
    (ClusterView { value: nv, ..w }, reported(e, v.on_change, nv != v.value))
}

/// What a cluster does with an event: its new state and the event passed on.
pub open spec fn cluster_handled(v: ClusterView, e: Event) -> (ClusterView, Event) {
    if e.what == EventType::MouseDown && e.mouse.buttons & MB_LEFT_BUTTON != 0 {
        match item_at_pos(v, e.mouse.pos) {
            Some(i) => choose_item(v, e, i),
            None => (v, e),
        }
    } else if e.what != EventType::Keyboard {
        (v, e)
    } else if has_modifier(e.key_modifiers, KM_ALT) && first_hotkey(v, alt_letter(e)) is Some {
        choose_item(v, e, first_hotkey(v, alt_letter(e))->0)
    } else if !has_flag(v.state, SF_FOCUSED) {
        (v, e)
    } else if e.key_code == KB_UP {
        (ClusterView { focused: moved_focus(v, -1), ..v }, Event { what: EventType::Nothing, ..e })
    } else if e.key_code == KB_DOWN {
        (ClusterView { focused: moved_focus(v, 1), ..v }, Event { what: EventType::Nothing, ..e })
    } else if e.key_code == KB_HOME {
        (ClusterView { focused: moved_focus(v, i32::MIN / 2), ..v }, Event { what: EventType::Nothing, ..e })
    } else if e.key_code == KB_END {
        (ClusterView { focused: moved_focus(v, i32::MAX / 2), ..v }, Event { what: EventType::Nothing, ..e })
    } else if e.key_code == KB_SPACE {
        choose_item(v, e, v.focused)
    } else {
        (v, e)
    }
}


/// The four cells drawn before an item's label.
pub open spec fn marker_text(kind: Kind, on: bool) -> Seq<char> {
    match (kind, on) {
        (Kind::Check, true) => "[X] "@,
        (Kind::Check, false) => "[ ] "@,
        (Kind::Radio, true) => "(\u{2022}) "@,
        (Kind::Radio, false) => "( ) "@,
    }
}

/// Colours of a cluster's rows.
#[derive(Clone, Copy)]
pub struct ClusterColors {
    pub normal: Attr,
    pub focused: Attr,
    pub shortcut: Attr,
    pub disabled: Attr,
}

/// The cells of screen row `row` of a cluster `width` cells wide.
pub open spec fn cluster_row(v: ClusterView, row: int, width: int, c: ClusterColors) -> Seq<Cell> {
    let base = fill_cells(Seq::new(width as nat, |i: int| blank_cell()), 0, Cell { ch: ' ', attr: c.normal }, width);
    if row < v.items.len() {
        let it = v.items[row];
        let attr = if !it.enabled {
            c.disabled
        } else if has_flag(v.state, SF_FOCUSED) && row == v.focused {
            c.focused
        } else {
            c.normal
        };
        let r1 = put_text(base, 0, marker_text(v.kind, row < v.items.len() && bit_set(v.value, row)), attr);
        if 4 < width {
            let shown = if width - 4 < it.label.len() { it.label.take(width - 4) } else { it.label };
            let r2 = put_text(r1, 4, shown, attr);
            if it.enabled && it.hotkey_pos is Some && (it.hotkey_pos->0 as int) < it.label.len()
                && 4 + it.hotkey_pos->0 < width {
                fill_cells(r2, 4 + it.hotkey_pos->0, shortcut_cell(it.label, it.hotkey_pos->0 as int, c.shortcut), 1)
            } else {
                r2
            }
        } else {
            r1
        }
    } else {
        base
    }
}

/// `lines` are the rows of the cluster `v`: one per row of its bounds.
pub open spec fn cluster_drawn(v: ClusterView, colors: ClusterColors, lines: Seq<DrawLine>) -> bool {
    let w = clamp_extent(spec_width(v.bounds));
    let h = clamp_extent(spec_height(v.bounds));
    if w == 0 || h == 0 {
        lines.len() == 0
    } else {
        &&& lines.len() == h
        &&& forall|r: int| 0 <= r < h ==> {
            &&& #[trigger] lines[r].x == v.bounds.a.x
            &&& lines[r].y == v.bounds.a.y + r
            &&& lines[r].buf.data@ == cluster_row(v, r, w, colors)
        }
    }
}

/// Character `k` of `label` drawn in `attr`.
pub open spec fn shortcut_cell(label: Seq<char>, k: int, attr: Attr) -> Cell {
    Cell { ch: label[k], attr: attr }
}

impl ClusterGroup {
    /// The marker drawn before item `index`.
    pub fn marker(&self, index: usize) -> (m: &'static str)
        requires
            self.wf(),
        ensures
            m@ == marker_text(self@.kind, index < self@.items.len() && bit_set(self@.value, index as int)),
    {
        let on = self.is_set(index);
        match (self.kind, on) {
            (Kind::Check, true) => "[X] ",
            (Kind::Check, false) => "[ ] ",
            (Kind::Radio, true) => "(\u{2022}) ",
            (Kind::Radio, false) => "( ) ",
        }
    }

    /// The rows of the cluster: a marker and label per item, the focused item
    /// highlighted when the cluster has the focus, hotkey letters in the
    /// shortcut colour, disabled items dimmed.
    pub fn draw_group(&self, colors: ClusterColors) -> (lines: Vec<DrawLine>)
        requires
            self.wf(),
        ensures
            cluster_drawn(self@, colors, lines@),
    {
        proof { self.lemma_view_len(); }
        let width = self.bounds.width_clamped() as usize;
        let height = self.bounds.height_clamped() as usize;
        let mut lines: Vec<DrawLine> = Vec::new();
        if width == 0 || height == 0 {
            return lines;
        }
        let mut row: usize = 0;
        while row < height
            invariant
                self.wf(),
                width == clamp_extent(spec_width(self@.bounds)),
                height == clamp_extent(spec_height(self@.bounds)),
                row <= height,
                self@.items.len() == self.items@.len(),
                forall|k: int| 0 <= k < self.items@.len() ==> #[trigger] self@.items[k] == self.items@[k]@,
                lines@.len() == row,
                forall|r: int| 0 <= r < row ==> {
                    &&& #[trigger] lines@[r].x == self@.bounds.a.x
                    &&& lines@[r].y == self@.bounds.a.y + r
                    &&& lines@[r].buf.data@ == cluster_row(self@, r, width as int, colors)
                },
            decreases height - row,
        {
            let mut buf = DrawBuffer::new(width);
            buf.move_char(0, ' ', colors.normal, width);
            if row < self.items.len() {
                let item = &self.items[row];
                let attr = if !item.enabled {
                    colors.disabled
                } else if self.is_focused_view() && row == self.focused_item {
                    colors.focused
                } else {
                    colors.normal
                };
                let m = str_chars(self.marker(row));
                buf.move_chars(0, &m, attr);
                if 4 < width {
                    let label = string_chars(&item.label);
                    let shown = take_chars(&label, width - 4);
                    buf.move_chars(4, &shown, attr);
                    if item.enabled {
                        match item.hotkey_pos {
                            Some(pos) => {
                                if pos < label.len() && pos < width - 4 {
                                    buf.put_char(4 + pos, label[pos], colors.shortcut);
                                }
                            },
                            None => {},
                        }
                    }
                }
            }
            assert(buf.data@ =~= cluster_row(self@, row as int, width as int, colors));
            assert(self@.bounds.a.y + row < self@.bounds.b.y);
            let y: i16 = (self.bounds.a.y as i32 + row as i32) as i16;
            let ghost cells = buf.data@;
            lines.push(DrawLine::new(self.bounds.a.x, y, buf));
            assert(lines@[row as int].buf.data@ == cells);
            assert(lines@[row as int].y == self@.bounds.a.y + row);
            row = row + 1;
        }
        lines
    }
}


/// Several check boxes in one focusable control, one bit of the value each.
pub struct CheckBoxes {
    inner: ClusterGroup,
}

impl View for CheckBoxes {
    type V = ClusterView;

    closed spec fn view(&self) -> ClusterView {
        self.inner@
    }
}

impl CheckBoxes {

    /// Create the cluster from labels, one per row; at most 32 are kept.
    pub fn new(bounds: Rect, labels: Vec<String>) -> (c: Self)
        ensures
            c.wf(),
            c@ == (ClusterView {
                kind: Kind::Check,
                items: parsed_items(labels@),
                value: if Kind::Check == Kind::Radio && labels@.len() > 0 { 1u32 } else { 0u32 },
                focused: 0,
                on_change: 0,
                state: 0,
                bounds: bounds,
            }),
    {
        CheckBoxes { inner: ClusterGroup::new(bounds, Kind::Check, labels) }
    }

    pub closed spec fn wf(&self) -> bool {
        self.inner.wf() && self.inner@.kind == Kind::Check
    }

    proof fn lemma_view(&self)
        ensures
            self@ == self.inner@,
    {
    }

    /// Replace the labels, keeping the value bits that still apply.
    pub fn set_labels(&mut self, labels: Vec<String>)
        requires
            old(self).wf(),
        ensures
            final(self).wf(),
            final(self)@ == (ClusterView {
                items: parsed_items(labels@),
                focused: ({
                    let n = parsed_items(labels@).len();
                    if old(self)@.focused <= (if n > 0 { n - 1 } else { 0 }) {
                        old(self)@.focused
                    } else {
                        (if n > 0 { n - 1 } else { 0 }) as usize
                    }
                }),
                value: ({
                    let masked = old(self)@.value & item_mask(parsed_items(labels@).len() as int);
                    if old(self)@.kind == Kind::Radio && masked == 0 && parsed_items(labels@).len() > 0 {
                        1u32
                    } else {
                        masked
                    }
                }),
                ..old(self)@
            }),
    {
        self.inner.set_labels(labels);
    }

    /// Number of items.
    pub fn item_count(&self) -> (n: usize)
        ensures
            n == self@.items.len(),
    {
        proof { self.inner.lemma_view_len(); }
        self.inner.items.len()
    }

    /// The raw bitmask: bit n is item n.
    pub fn value(&self) -> (v: u32)
        ensures
            v == self@.value,
    {
        self.inner.value
    }

    /// Set the raw bitmask; bits past the last item are dropped.
    pub fn set_value(&mut self, value: u32)
        requires
            old(self).wf(),
        ensures
            final(self).wf(),
            final(self)@ == (ClusterView { value: value & item_mask(old(self)@.items.len() as int), ..old(self)@ }),
    {
        proof {
            self.inner.lemma_view_len();
            lemma_mask(value, self@.items.len() as int, 0);
        }
        let m = self.inner.mask();
        self.inner.value = value & m;
    }

    /// Index of the item the arrow keys are on.
    pub fn focused_item(&self) -> (i: usize)
        ensures
            i == self@.focused,
    {
        self.inner.focused_item
    }

    /// Move the arrow-key focus; indices past the items are ignored.
    pub fn set_focused_item(&mut self, index: usize)
        requires
            old(self).wf(),
        ensures
            final(self).wf(),
            final(self)@ == (if index < old(self)@.items.len() {
                ClusterView { focused: index, ..old(self)@ }
            } else {
                old(self)@
            }),
    {
        proof { self.inner.lemma_view_len(); }
        if index < self.inner.items.len() {
            self.inner.focused_item = index;
        }
    }

    /// Whether one item can be chosen.
    pub fn set_enabled(&mut self, index: usize, enabled: bool)
        requires
            old(self).wf(),
        ensures
            final(self).wf(),
            final(self)@ == (if index < old(self)@.items.len() {
                ClusterView {
                    items: old(self)@.items.update(index as int, ItemView { enabled: enabled, ..old(self)@.items[index as int] }),
                    ..old(self)@
                }
            } else {
                old(self)@
            }),
    {
        self.inner.set_item_enabled(index, enabled);
    }

    /// Whether item `index` exists and can be chosen.
    pub fn is_enabled(&self, index: usize) -> (b: bool)
        ensures
            b == (index < self@.items.len() && self@.items[index as int].enabled),
    {
        proof { self.inner.lemma_view_len(); }
        index < self.inner.items.len() && self.inner.items[index].enabled
    }

    /// Command broadcast when the value changes; zero sends none.
    pub fn set_on_change(&mut self, command: CommandId)
        ensures
            final(self).wf() == old(self).wf(),
            final(self)@ == (ClusterView { on_change: command, ..old(self)@ }),
    {
        self.inner.on_change = command;
    }

    pub fn bounds(&self) -> (r: Rect)
        ensures
            r == self@.bounds,
    {
        self.inner.bounds
    }

    pub fn set_bounds(&mut self, bounds: Rect)
        ensures
            final(self).wf() == old(self).wf(),
            final(self)@ == (ClusterView { bounds: bounds, ..old(self)@ }),
    {
        self.inner.bounds = bounds;
    }

    pub fn state(&self) -> (s: u16)
        ensures
            s == self@.state,
    {
        self.inner.view_state
    }

    pub fn set_state(&mut self, state: u16)
        ensures
            final(self).wf() == old(self).wf(),
            final(self)@ == (ClusterView { state: state, ..old(self)@ }),
    {
        self.inner.view_state = state;
    }

    /// The whole cluster is one focus stop.
    pub fn can_focus(&self) -> (b: bool)
        ensures
            b,
    {
        true
    }

    /// React to a click, an Alt hotkey, or a key while focused.
    pub fn handle_event(&mut self, event: &mut Event)
        requires
            old(self).wf(),
        ensures
            final(self).wf(),
            (final(self)@, *final(event)) == cluster_handled(old(self)@, *old(event)),
    {
        self.inner.handle(event);
    }

    /// The rows of the cluster.
    pub fn draw(&self, colors: ClusterColors) -> (lines: Vec<DrawLine>)
        requires
            self.wf(),
        ensures
            cluster_drawn(self@, colors, lines@),
    {
        proof { self.lemma_view(); }
        self.inner.draw_group(colors)
    }
}

/// Several radio buttons in one focusable control; choosing one turns the others off.
pub struct RadioButtons {
    inner: ClusterGroup,
}

impl View for RadioButtons {
    type V = ClusterView;

    closed spec fn view(&self) -> ClusterView {
        self.inner@
    }
}

impl RadioButtons {

    /// Create the cluster from labels, one per row; at most 32 are kept.
    pub fn new(bounds: Rect, labels: Vec<String>) -> (c: Self)
        ensures
            c.wf(),
            c@ == (ClusterView {
                kind: Kind::Radio,
                items: parsed_items(labels@),
                value: if Kind::Radio == Kind::Radio && labels@.len() > 0 { 1u32 } else { 0u32 },
                focused: 0,
                on_change: 0,
                state: 0,
                bounds: bounds,
            }),
    {
        RadioButtons { inner: ClusterGroup::new(bounds, Kind::Radio, labels) }
    }

    pub closed spec fn wf(&self) -> bool {
        self.inner.wf() && self.inner@.kind == Kind::Radio
    }

    proof fn lemma_view(&self)
        ensures
            self@ == self.inner@,
    {
    }

    /// Replace the labels, keeping the value bits that still apply.
    pub fn set_labels(&mut self, labels: Vec<String>)
        requires
            old(self).wf(),
        ensures
            final(self).wf(),
            final(self)@ == (ClusterView {
                items: parsed_items(labels@),
                focused: ({
                    let n = parsed_items(labels@).len();
                    if old(self)@.focused <= (if n > 0 { n - 1 } else { 0 }) {
                        old(self)@.focused
                    } else {
                        (if n > 0 { n - 1 } else { 0 }) as usize
                    }
                }),
                value: ({
                    let masked = old(self)@.value & item_mask(parsed_items(labels@).len() as int);
                    if old(self)@.kind == Kind::Radio && masked == 0 && parsed_items(labels@).len() > 0 {
                        1u32
                    } else {
                        masked
                    }
                }),
                ..old(self)@
            }),
    {
        self.inner.set_labels(labels);
    }

    /// Number of items.
    pub fn item_count(&self) -> (n: usize)
        ensures
            n == self@.items.len(),
    {
        proof { self.inner.lemma_view_len(); }
        self.inner.items.len()
    }

    /// The raw bitmask: bit n is item n.
    pub fn value(&self) -> (v: u32)
        ensures
            v == self@.value,
    {
        self.inner.value
    }

    /// Set the value from a raw bitmask, keeping one button chosen: the lowest
    /// item whose bit is set in `value` is chosen; bits past the last item
    /// are dropped, and a value with no item bit leaves the choice as it was.
    pub fn set_value(&mut self, value: u32)
        requires
            old(self).wf(),
        ensures
            final(self).wf(),
            final(self)@ == (ClusterView {
                value: radio_value_from(value, old(self)@.items.len() as int, old(self)@.value),
                ..old(self)@
            }),
    {
        proof { self.inner.lemma_view_len(); }
        let m = self.inner.mask();
        let masked = value & m;
        if masked != 0 {
            let k = count_trailing_zeros(masked);
            proof {
                lemma_trailing_zeros_found(masked);
                lemma_mask(value, self@.items.len() as int, 0);
                lemma_mask(masked, self@.items.len() as int, k as int);
                lemma_mask(masked, self@.items.len() as int, k as int);
                lemma_trailing_zeros_of_bit(k as int);
                lemma_mask(0u32, self@.items.len() as int, k as int);
            }
            self.inner.value = 1u32 << k;
        }
    }

    /// Index of the item the arrow keys are on.
    pub fn focused_item(&self) -> (i: usize)
        ensures
            i == self@.focused,
    {
        self.inner.focused_item
    }

    /// Move the arrow-key focus; indices past the items are ignored.
    pub fn set_focused_item(&mut self, index: usize)
        requires
            old(self).wf(),
        ensures
            final(self).wf(),
            final(self)@ == (if index < old(self)@.items.len() {
                ClusterView { focused: index, ..old(self)@ }
            } else {
                old(self)@
            }),
    {
        proof { self.inner.lemma_view_len(); }
        if index < self.inner.items.len() {
            self.inner.focused_item = index;
        }
    }

    /// Whether one item can be chosen.
    pub fn set_enabled(&mut self, index: usize, enabled: bool)
        requires
            old(self).wf(),
        ensures
            final(self).wf(),
            final(self)@ == (if index < old(self)@.items.len() {
                ClusterView {
                    items: old(self)@.items.update(index as int, ItemView { enabled: enabled, ..old(self)@.items[index as int] }),
                    ..old(self)@
                }
            } else {
                old(self)@
            }),
    {
        self.inner.set_item_enabled(index, enabled);
    }

    /// Whether item `index` exists and can be chosen.
    pub fn is_enabled(&self, index: usize) -> (b: bool)
        ensures
            b == (index < self@.items.len() && self@.items[index as int].enabled),
    {
        proof { self.inner.lemma_view_len(); }
        index < self.inner.items.len() && self.inner.items[index].enabled
    }

    /// Command broadcast when the value changes; zero sends none.
    pub fn set_on_change(&mut self, command: CommandId)
        ensures
            final(self).wf() == old(self).wf(),
            final(self)@ == (ClusterView { on_change: command, ..old(self)@ }),
    {
        self.inner.on_change = command;
    }

    pub fn bounds(&self) -> (r: Rect)
        ensures
            r == self@.bounds,
    {
        self.inner.bounds
    }

    pub fn set_bounds(&mut self, bounds: Rect)
        ensures
            final(self).wf() == old(self).wf(),
            final(self)@ == (ClusterView { bounds: bounds, ..old(self)@ }),
    {
        self.inner.bounds = bounds;
    }

    pub fn state(&self) -> (s: u16)
        ensures
            s == self@.state,
    {
        self.inner.view_state
    }

    pub fn set_state(&mut self, state: u16)
        ensures
            final(self).wf() == old(self).wf(),
            final(self)@ == (ClusterView { state: state, ..old(self)@ }),
    {
        self.inner.view_state = state;
    }

    /// The whole cluster is one focus stop.
    pub fn can_focus(&self) -> (b: bool)
        ensures
            b,
    {
        true
    }

    /// React to a click, an Alt hotkey, or a key while focused.
    pub fn handle_event(&mut self, event: &mut Event)
        requires
            old(self).wf(),
        ensures
            final(self).wf(),
            (final(self)@, *final(event)) == cluster_handled(old(self)@, *old(event)),
    {
        self.inner.handle(event);
    }

    /// The rows of the cluster.
    pub fn draw(&self, colors: ClusterColors) -> (lines: Vec<DrawLine>)
        requires
            self.wf(),
        ensures
            cluster_drawn(self@, colors, lines@),
    {
        proof { self.lemma_view(); }
        self.inner.draw_group(colors)
    }
}

/// The indices below `n` whose bit is set in `v`, in increasing order.
pub open spec fn set_bits(v: u32, n: int) -> Seq<usize>
    decreases n,
{
    if n <= 0 {
        seq![]
    } else if bit_set(v, n - 1) {
        set_bits(v, n - 1).push((n - 1) as usize)
    } else {
        set_bits(v, n - 1)
    }
}

/// The index of the lowest set bit of `v` at or above `i`, 32 when there is none.
pub open spec fn lowest_bit_from(v: u32, i: int) -> int
    decreases 32 - i,
{
    if i >= 32 {
        32
    } else if bit_set(v, i) {
        i
    } else {
        lowest_bit_from(v, i + 1)
    }
}

/// The number of low zero bits of `v`, 32 when `v` is zero.
pub open spec fn trailing_zeros(v: u32) -> int {
    lowest_bit_from(v, 0)
}

/// The radio value after setting the raw bitmask `value` on a cluster of `n`
/// items whose value was `old`: the bit of the lowest item set in `value`, or
/// `old` when `value` sets no item.
pub open spec fn radio_value_from(value: u32, n: int, old: u32) -> u32 {
    let masked = value & item_mask(n);
    if masked == 0 {
        old
    } else {
        1u32 << (trailing_zeros(masked) as u32)
    }
}

/// Exactly one item is chosen in a radio cluster with `n` items: the value is
/// the bit of its lowest set bit, which names an item (nothing is chosen only
/// when there are no items).
pub open spec fn radio_one(v: u32, n: int) -> bool {
    n > 0 ==> (0 <= trailing_zeros(v) < n && v == 1u32 << (trailing_zeros(v) as u32))
}

/// The bit of item `i` is set in `1 << k` exactly when `i` is `k`.
proof fn lemma_pow_bit(k: int, i: int)
    requires
        0 <= k < 32,
        0 <= i < 32,
    ensures
        bit_set(1u32 << (k as u32), i) == (i == k),
{
    let kk = k as u32;
    let ii = i as u32;
    assert(((1u32 << kk) & (1u32 << ii) != 0) == (ii == kk)) by (bit_vector)
        requires
            kk < 32,
            ii < 32,
    ;
}

/// From any `i <= k`, the lowest set bit of `1 << k` is `k`.
proof fn lemma_lowest_of_bit(k: int, i: int)
    requires
        0 <= i <= k < 32,
    ensures
        lowest_bit_from(1u32 << (k as u32), i) == k,
    decreases k - i,
{
    lemma_pow_bit(k, i);
    if i < k {
        lemma_lowest_of_bit(k, i + 1);
    }
}

/// The lowest set bit of `1 << k` is `k`.
proof fn lemma_trailing_zeros_of_bit(k: int)
    requires
        0 <= k < 32,
    ensures
        trailing_zeros(1u32 << (k as u32)) == k,
{
    lemma_lowest_of_bit(k, 0);
}

/// Masking a radio value to fewer items leaves either nothing or the same
/// single chosen item.
proof fn lemma_radio_relabel(v0: u32, n0: int, n: int)
    requires
        0 <= n0 <= 32,
        0 <= n <= 32,
        v0 & item_mask(n0) == v0,
        radio_one(v0, n0),
    ensures
        (v0 & item_mask(n)) != 0 ==> radio_one(v0 & item_mask(n), n),
{
    lemma_mask(v0, n0, 0);
    if n0 == 0 {
        assert(v0 == 0u32);
        lemma_mask(0u32, n, 0);
        assert(0u32 & item_mask(n) == 0u32) by (bit_vector);
    } else {
        let k = trailing_zeros(v0);
        lemma_mask(v0, n, k);
        if k < n {
            assert(v0 & item_mask(n) == v0);
        } else {
            assert(v0 & item_mask(n) == 0);
        }
    }
}

/// With no set bit from `i` on, none of the bits `i..32` is set.
proof fn lemma_no_bit_from(v: u32, i: int)
    requires
        0 <= i,
        lowest_bit_from(v, i) == 32,
    ensures
        forall|j: int| i <= j < 32 ==> !bit_set(v, j),
    decreases 32 - i,
{
    if i < 32 {
        lemma_no_bit_from(v, i + 1);
    }
}

/// A value with a set bit has its lowest set bit below 32.
proof fn lemma_trailing_zeros_found(v: u32)
    requires
        v != 0,
    ensures
        0 <= trailing_zeros(v) < 32,
        bit_set(v, trailing_zeros(v)),
{
    lemma_lowest_bit_range(v, 0);
    if trailing_zeros(v) == 32 {
        lemma_no_bit_from(v, 0);
        assert(!bit_set(v, 0));
        assert(!bit_set(v, 1));
        assert(!bit_set(v, 2));
        assert(!bit_set(v, 3));
        assert(!bit_set(v, 4));
        assert(!bit_set(v, 5));
        assert(!bit_set(v, 6));
        assert(!bit_set(v, 7));
        assert(!bit_set(v, 8));
        assert(!bit_set(v, 9));
        assert(!bit_set(v, 10));
        assert(!bit_set(v, 11));
        assert(!bit_set(v, 12));
        assert(!bit_set(v, 13));
        assert(!bit_set(v, 14));
        assert(!bit_set(v, 15));
        assert(!bit_set(v, 16));
        assert(!bit_set(v, 17));
        assert(!bit_set(v, 18));
        assert(!bit_set(v, 19));
        assert(!bit_set(v, 20));
        assert(!bit_set(v, 21));
        assert(!bit_set(v, 22));
        assert(!bit_set(v, 23));
        assert(!bit_set(v, 24));
        assert(!bit_set(v, 25));
        assert(!bit_set(v, 26));
        assert(!bit_set(v, 27));
        assert(!bit_set(v, 28));
        assert(!bit_set(v, 29));
        assert(!bit_set(v, 30));
        assert(!bit_set(v, 31));
        assert(v == 0) by (bit_vector)
            requires
                v & (1u32 << 0u32) == 0,
                v & (1u32 << 1u32) == 0,
                v & (1u32 << 2u32) == 0,
                v & (1u32 << 3u32) == 0,
                v & (1u32 << 4u32) == 0,
                v & (1u32 << 5u32) == 0,
                v & (1u32 << 6u32) == 0,
                v & (1u32 << 7u32) == 0,
                v & (1u32 << 8u32) == 0,
                v & (1u32 << 9u32) == 0,
                v & (1u32 << 10u32) == 0,
                v & (1u32 << 11u32) == 0,
                v & (1u32 << 12u32) == 0,
                v & (1u32 << 13u32) == 0,
                v & (1u32 << 14u32) == 0,
                v & (1u32 << 15u32) == 0,
                v & (1u32 << 16u32) == 0,
                v & (1u32 << 17u32) == 0,
                v & (1u32 << 18u32) == 0,
                v & (1u32 << 19u32) == 0,
                v & (1u32 << 20u32) == 0,
                v & (1u32 << 21u32) == 0,
                v & (1u32 << 22u32) == 0,
                v & (1u32 << 23u32) == 0,
                v & (1u32 << 24u32) == 0,
                v & (1u32 << 25u32) == 0,
                v & (1u32 << 26u32) == 0,
                v & (1u32 << 27u32) == 0,
                v & (1u32 << 28u32) == 0,
                v & (1u32 << 29u32) == 0,
                v & (1u32 << 30u32) == 0,
                v & (1u32 << 31u32) == 0,
        ;
    } else {
        lemma_found_bit(v, 0);
    }
}

/// Where the lowest set bit from `i` on lies below 32, that bit is set.
proof fn lemma_found_bit(v: u32, i: int)
    requires
        0 <= i,
        lowest_bit_from(v, i) < 32,
    ensures
        bit_set(v, lowest_bit_from(v, i)),
    decreases 32 - i,
{
    if i < 32 && !bit_set(v, i) {
        lemma_found_bit(v, i + 1);
    }
}

/// The mask of `n` items keeps its own bits, keeps the bit of an item, and
/// has no bit at or past `n`.
proof fn lemma_mask(v: u32, n: int, i: int)
    requires
        0 <= n <= 32,
        0 <= i < 32,
    ensures
        (v & item_mask(n)) & item_mask(n) == v & item_mask(n),
        i < n ==> (1u32 << (i as u32)) & item_mask(n) == 1u32 << (i as u32),
        i >= n ==> (1u32 << (i as u32)) & item_mask(n) == 0,
        v & item_mask(n) == v && bit_set(v, i) ==> i < n,
        v & item_mask(n) == v && i < n ==> (v | (1u32 << (i as u32))) & item_mask(n) == v | (1u32 << (i as u32)),
        v & item_mask(n) == v ==> (v & !(1u32 << (i as u32))) & item_mask(n) == v & !(1u32 << (i as u32)),
        item_mask(0) == 0u32,
        v & 0u32 == 0u32,
{
    assert(((1u32 << 0u32) - 1) as u32 == 0u32) by (bit_vector);
    assert(v & 0u32 == 0u32) by (bit_vector);
    let m = item_mask(n);
    let ii = i as u32;
    assert((v & m) & m == v & m) by (bit_vector);
    assert(v & m == v ==> (v & !(1u32 << ii)) & m == v & !(1u32 << ii)) by (bit_vector);
    if n >= 32 {
        assert(m == 0xFFFF_FFFFu32);
        assert((1u32 << ii) & 0xFFFF_FFFFu32 == 1u32 << ii) by (bit_vector);
        assert((v | (1u32 << ii)) & 0xFFFF_FFFFu32 == v | (1u32 << ii)) by (bit_vector);
    } else {
        let nn = n as u32;
        assert(m + 1 == 1u32 << nn) by (bit_vector)
            requires
                nn < 32,
                m == ((1u32 << nn) - 1) as u32,
        ;
        assert(ii < nn ==> (1u32 << ii) & m == 1u32 << ii) by (bit_vector)
            requires
                nn < 32,
                ii < 32,
                m + 1 == 1u32 << nn,
        ;
        assert(ii >= nn ==> (1u32 << ii) & m == 0) by (bit_vector)
            requires
                nn < 32,
                ii < 32,
                m + 1 == 1u32 << nn,
        ;
        assert(v & m == v && (v & (1u32 << ii)) != 0 ==> ii < nn) by (bit_vector)
            requires
                nn < 32,
                ii < 32,
                m + 1 == 1u32 << nn,
        ;
        assert(v & m == v && ii < nn ==> (v | (1u32 << ii)) & m == v | (1u32 << ii)) by (bit_vector)
            requires
                nn < 32,
                ii < 32,
                m + 1 == 1u32 << nn,
        ;
    }
}

proof fn lemma_lowest_bit_range(v: u32, i: int)
    requires
        0 <= i,
    ensures
        i <= lowest_bit_from(v, i) <= 32 || (i > 32 && lowest_bit_from(v, i) == 32),
    decreases 32 - i,
{
    if i < 32 && !bit_set(v, i) {
        lemma_lowest_bit_range(v, i + 1);
    }
}

fn count_trailing_zeros(v: u32) -> (n: u32)
    ensures
        n == trailing_zeros(v),
        n <= 32,
{
    let mut i: u32 = 0;
    while i < 32
        invariant
            i <= 32,
            trailing_zeros(v) == lowest_bit_from(v, i as int),
        decreases 32 - i,
    {
        if v & (1u32 << i) != 0 {
            return i;
        }
        i = i + 1;
    }
    32
}

impl CheckBoxes {
    /// Whether box `index` exists and is ticked.
    pub fn is_checked(&self, index: usize) -> (b: bool)
        requires
            self.wf(),
        ensures
            b == (index < self@.items.len() && bit_set(self@.value, index as int)),
    {
        self.inner.is_set(index)
    }

    /// Tick or untick one box; out-of-range indices are ignored.
    pub fn set_checked(&mut self, index: usize, checked: bool)
        requires
            old(self).wf(),
        ensures
            final(self).wf(),
            final(self)@ == (ClusterView {
                value: value_after_set(Kind::Check, old(self)@.value, old(self)@.items.len() as int, index as int, checked),
                ..old(self)@
            }),
    {
        self.inner.set_bit(index, checked);
    }

    /// The ticked boxes, in order.
    pub fn checked_items(&self) -> (v: Vec<usize>)
        requires
            self.wf(),
        ensures
            v@ == set_bits(self@.value, self@.items.len() as int),
    {
        proof { self.inner.lemma_view_len(); }
        let n = self.inner.items.len();
        let mut out: Vec<usize> = Vec::new();
        let mut i: usize = 0;
        while i < n
            invariant
                self.wf(),
                n == self@.items.len(),
                i <= n,
                out@ == set_bits(self@.value, i as int),
            decreases n - i,
        {
            if self.inner.is_set(i) {
                out.push(i);
            }
            i = i + 1;
        }
        out
    }
}

impl RadioButtons {
    /// Index of the chosen button (the lowest set bit), or `None` when empty.
    pub fn selected(&self) -> (r: Option<usize>)
        ensures
            r == (if self@.items.len() == 0 { None } else { Some(trailing_zeros(self@.value) as usize) }),
            0 <= trailing_zeros(self@.value) <= 32,
    {
        proof { lemma_lowest_bit_range(self@.value, 0); }
        proof { self.inner.lemma_view_len(); }
        if self.inner.items.len() == 0 {
            return None;
        }
        Some(count_trailing_zeros(self.inner.value) as usize)
    }

    /// Choose one button; out-of-range indices are ignored.
    pub fn set_selected(&mut self, index: usize)
        requires
            old(self).wf(),
        ensures
            final(self).wf(),
            final(self)@ == (ClusterView {
                value: value_after_set(Kind::Radio, old(self)@.value, old(self)@.items.len() as int, index as int, true),
                ..old(self)@
            }),
    {
        self.inner.set_bit(index, true);
    }

    /// Label of the chosen button.
    pub fn selected_label(&self) -> (r: Option<&str>)
        ensures
            r is Some <==> (self@.items.len() > 0 && trailing_zeros(self@.value) < self@.items.len()),
            r matches Some(t) ==> t@ == self@.items[trailing_zeros(self@.value)].label,
    {
        proof { self.inner.lemma_view_len(); }
        match self.selected() {
            Some(i) => {
                if i < self.inner.items.len() {
                    Some(self.inner.items[i].label.as_str())
                } else {
                    None
                }
            },
            None => None,
        }
    }
}

impl ClusterGroup {
    /// Enable or disable item `index`; out-of-range indices are ignored.
    pub fn set_item_enabled(&mut self, index: usize, enabled: bool)
        requires
            old(self).wf(),
        ensures
            final(self).wf(),
            final(self)@ == (if index < old(self)@.items.len() {
                ClusterView {
                    items: old(self)@.items.update(index as int, ItemView { enabled: enabled, ..old(self)@.items[index as int] }),
                    ..old(self)@
                }
            } else {
                old(self)@
            }),
    {
        proof { self.lemma_view_len(); }
        if index < self.items.len() {
            let mut it = self.items.remove(index);
            it.enabled = enabled;
            self.items.insert(index, it);
            assert(self@.items =~= old(self)@.items.update(index as int, ItemView { enabled: enabled, ..old(self)@.items[index as int] }));
        }
    }
}

/// The set bits below `k` are those below `n` when no bit from `n` to `k` is set.
proof fn lemma_set_bits_stop(v: u32, n: int, k: int)
    requires
        0 <= n <= k <= 32,
        forall|j: int| n <= j < 32 ==> !bit_set(v, j),
    ensures
        set_bits(v, k) == set_bits(v, n),
    decreases k - n,
{
    if k > n {
        lemma_set_bits_stop(v, n, k - 1);
    }
}

/// No box past the last one is ever ticked: in a check box cluster no bit of
/// the value at or past the number of items is set, so the ticked boxes are
/// exactly the set bits of the value.
pub proof fn law_no_tick_past_the_last_box(c: CheckBoxes)
    requires
        c.wf(),
    ensures
        forall|j: int| c@.items.len() <= j < 32 ==> !bit_set(c@.value, j),
        set_bits(c@.value, 32) == set_bits(c@.value, c@.items.len() as int),
{
    c.lemma_view();
    c.inner.lemma_view_len();
    let n = c@.items.len() as int;
    assert forall|j: int| n <= j < 32 implies !bit_set(c@.value, j) by {
        lemma_mask(c@.value, n, j);
    }
    lemma_set_bits_stop(c@.value, n, 32);
}

/// A radio cluster with items always has exactly one button chosen: its
/// value is the bit of its lowest set bit, and that bit names an item.
pub proof fn law_one_radio_button_is_chosen(r: RadioButtons)
    requires
        r.wf(),
        r@.items.len() > 0,
    ensures
        0 <= trailing_zeros(r@.value) < r@.items.len(),
        r@.value == 1u32 << (trailing_zeros(r@.value) as u32),
{
    r.lemma_view();
    r.inner.lemma_view_len();
}

/// Choosing button `i` of a radio cluster with more than `i` items makes
/// `i` the chosen one, alone.
pub proof fn law_set_selected_chooses_that_button(value: u32, n: int, i: int)
    requires
        0 <= i < n <= 32,
    ensures
        value_after_set(Kind::Radio, value, n, i, true) == 1u32 << (i as u32),
        trailing_zeros(value_after_set(Kind::Radio, value, n, i, true)) == i,
{
    lemma_trailing_zeros_of_bit(i);
}


/// The set bits of `v` below `n`, in order: each below `n`, each bigger than
/// the one before, and every set bit below `n` among them.
proof fn lemma_set_bits_facts(v: u32, n: int)
    requires
        0 <= n <= 32,
    ensures
        forall|k: int| 0 <= k < set_bits(v, n).len() ==> 0 <= #[trigger] set_bits(v, n)[k] < n,
        forall|a: int, b: int| 0 <= a < b < set_bits(v, n).len() ==> set_bits(v, n)[a] < set_bits(v, n)[b],
        forall|i: int| 0 <= i < n ==> (set_bits(v, n).contains(i as usize) <==> bit_set(v, i)),
    decreases n,
{
    if n > 0 {
        lemma_set_bits_facts(v, n - 1);
        let prev = set_bits(v, n - 1);
        let cur = set_bits(v, n);
        assert forall|k: int| 0 <= k < cur.len() implies 0 <= #[trigger] cur[k] < n by {
            if k < prev.len() {
                assert(cur[k] == prev[k]);
            }
        }
        assert forall|a: int, b: int| 0 <= a < b < cur.len() implies cur[a] < cur[b] by {
            if b < prev.len() {
                assert(cur[a] == prev[a] && cur[b] == prev[b]);
            } else {
                assert(cur[a] == prev[a]);
                assert(prev[a] < n - 1);
            }
        }
        assert forall|i: int| 0 <= i < n implies (cur.contains(i as usize) <==> bit_set(v, i)) by {
            if i < n - 1 {
                if cur.contains(i as usize) {
                    let k = choose|k: int| 0 <= k < cur.len() && cur[k] == i as usize;
                    if k < prev.len() {
                        assert(prev[k] == cur[k]);
                    }
                }
                if prev.contains(i as usize) {
                    let k = choose|k: int| 0 <= k < prev.len() && prev[k] == i as usize;
                    assert(cur[k] == prev[k]);
                }
            } else {
                if bit_set(v, i) {
                    assert(cur[cur.len() - 1] == i as usize);
                } else if cur.contains(i as usize) {
                    let k = choose|k: int| 0 <= k < cur.len() && cur[k] == i as usize;
                    assert(cur[k] == prev[k]);
                }
            }
        }
    }
}

/// The ticked boxes of a check box cluster, as `checked_items` lists them:
/// in increasing order, each one an item, exactly the items whose box is
/// ticked, and as many as the value has set bits (none lies past the last
/// item).
pub proof fn law_checked_items_are_the_ticked_boxes(c: CheckBoxes)
    requires
        c.wf(),
    ensures
        ({
            let r = set_bits(c@.value, c@.items.len() as int);
            &&& forall|a: int, b: int| 0 <= a < b < r.len() ==> r[a] < r[b]
            &&& forall|k: int| 0 <= k < r.len() ==> #[trigger] r[k] < c@.items.len()
            &&& forall|i: int| 0 <= i < c@.items.len() ==> (r.contains(i as usize) <==> bit_set(c@.value, i))
            &&& r.len() == set_bits(c@.value, 32).len()
        }),
{
    law_no_tick_past_the_last_box(c);
    lemma_set_bits_facts(c@.value, c@.items.len() as int);
}


/// Activating an enabled item of a cluster flips its bit in a check box
/// cluster and makes it the only bit in a radio cluster; a disabled or
/// missing item changes nothing.
pub proof fn law_activate_flips_or_chooses(g: ClusterGroup, index: int)
    requires
        g.wf(),
    ensures
        ({
            let v = g@;
            if 0 <= index < v.items.len() && v.items[index].enabled {
                match v.kind {
                    Kind::Check => value_after_activate(v, index) == v.value ^ (1u32 << (index as u32)),
                    Kind::Radio => value_after_activate(v, index) == 1u32 << (index as u32),
                }
            } else {
                value_after_activate(v, index) == v.value
            }
        }),
{
    g.lemma_at_most_32_items();
    let v = g@;
    if 0 <= index < v.items.len() && v.items[index].enabled && v.kind == Kind::Check {
        let x = v.value;
        let i = index as u32;
        assert(i < 32);
        assert(x & (1u32 << i) != 0 ==> x & !(1u32 << i) == x ^ (1u32 << i)) by (bit_vector)
            requires
                i < 32,
        ;
        assert(x & (1u32 << i) == 0 ==> x | (1u32 << i) == x ^ (1u32 << i)) by (bit_vector)
            requires
                i < 32,
        ;
    }
}


/// The focus keys of a focused cluster without Alt, in terms of the focus
/// before them: Up moves the focus one item up and Down one item down,
/// stopping at the first and last items; Home goes to the first item and
/// End to the last; none of them changes the value, and the key is used up.
pub proof fn law_focus_keys_move_the_focus(g: ClusterGroup, e: Event)
    requires
        g.wf(),
        e.what == EventType::Keyboard,
        !has_modifier(e.key_modifiers, KM_ALT),
        has_flag(g@.state, SF_FOCUSED),
        g@.focused < g@.items.len(),
    ensures
        ({
            let v = g@;
            let r = cluster_handled(v, e);
            let f = v.focused as int;
            let last = v.items.len() - 1;
            &&& e.key_code == KB_UP ==> r.0.focused == (if f > 0 { f - 1 } else { 0 }) && r.0.value == v.value
                && r.1.what == EventType::Nothing
            &&& e.key_code == KB_DOWN ==> r.0.focused == (if f < last { f + 1 } else { last }) && r.0.value
                == v.value && r.1.what == EventType::Nothing
            &&& e.key_code == KB_HOME ==> r.0.focused == 0 && r.0.value == v.value
            &&& e.key_code == KB_END ==> r.0.focused == last && r.0.value == v.value
        }),
{
    g.lemma_at_most_32_items();
}

} // verus!
