//! The state every menu view shares: the menu shown and its highlighted item,
//! with the moves between selectable items.
//!
//! Moving down from item `s` tries `s+1, s+2, ...` round the end of the menu
//! and stops at the first selectable item, or gives up on coming back to `s`;
//! moving up does the same downwards.
use vstd::prelude::*;
use crate::menu_data::{accelerator_of, Menu, MenuItem};
use crate::text::{spec_to_lower, to_ascii_lower};

verus! {

/// Position `j` steps up from `b` round a ring of `n` positions.
pub open spec fn ring_up(b: int, j: int, n: int) -> int {
    if b + j < n {
        b + j
    } else {
        b + j - n
    }
}

/// Position `j` steps down from `b` round a ring of `n` positions.
pub open spec fn ring_down(b: int, j: int, n: int) -> int {
    if b - j >= 0 {
        b - j
    } else {
        b - j + n
    }
}

/// The first selectable item met going up from `b`, trying steps `j..lim`.
pub open spec fn first_up(items: Seq<MenuItem>, b: int, j: int, lim: int) -> Option<int>
    decreases lim - j,
{
    if j >= lim {
        None
    } else if items[ring_up(b, j, items.len() as int)].spec_selectable() {
        Some(ring_up(b, j, items.len() as int))
    } else {
        first_up(items, b, j + 1, lim)
    }
}

/// The first selectable item met going down from `b`, trying steps `j..lim`.
pub open spec fn first_down(items: Seq<MenuItem>, b: int, j: int, lim: int) -> Option<int>
    decreases lim - j,
{
    if j >= lim {
        None
    } else if items[ring_down(b, j, items.len() as int)].spec_selectable() {
        Some(ring_down(b, j, items.len() as int))
    } else {
        first_down(items, b, j + 1, lim)
    }
}

/// Whether some item of `items` is selectable.
pub open spec fn any_selectable(items: Seq<MenuItem>) -> bool {
    exists|i: int| 0 <= i < items.len() && #[trigger] items[i].spec_selectable()
}

/// The highlighted item after moving down through `items` from `current`:
/// unchanged when no other selectable item is met.
pub open spec fn next_current(items: Seq<MenuItem>, current: Option<usize>) -> Option<usize> {
    let n = items.len() as int;
    let start: int = match current {
        Some(c) => c as int,
        None => 0,
    };
    if n == 0 {
        current
    } else {
        match first_up(items, (start + 1) % n, 0, if start < n { n - 1 } else { n }) {
            Some(i) => Some(i as usize),
            None => current,
        }
    }
}

/// The highlighted item after moving up through `items` from `current`.
pub open spec fn prev_current(items: Seq<MenuItem>, current: Option<usize>) -> Option<usize> {
    let n = items.len() as int;
    let start: int = match current {
        Some(c) => c as int,
        None => 0,
    };
    if n == 0 {
        current
    } else {
        match first_down(items, if start == 0 { n - 1 } else { start - 1 }, 0, if start < n { n - 1 } else { n }) {
            Some(i) => Some(i as usize),
            None => current,
        }
    }
}

/// Whether item `it` answers accelerator `c`.
pub open spec fn answers_char(it: MenuItem, c: char) -> bool {
    accelerator_of(it.spec_text()) == Some(spec_to_lower(c)) && it.spec_selectable()
}

/// Whether item `it` answers hot key `key`.
pub open spec fn answers_key(it: MenuItem, key: u16) -> bool {
    it.spec_selectable() && it.spec_key_code() == Some(key)
}

/// A selectable item met going up from `b` in steps `j0..lim` makes the search find one.
proof fn lemma_first_up_found(items: Seq<MenuItem>, b: int, j0: int, jt: int, lim: int)
    requires
        0 <= b < items.len(),
        0 <= j0 <= jt < lim <= items.len(),
        items[ring_up(b, jt, items.len() as int)].spec_selectable(),
    ensures
        first_up(items, b, j0, lim) is Some,
    decreases jt - j0,
{
    if j0 < jt && !items[ring_up(b, j0, items.len() as int)].spec_selectable() {
        lemma_first_up_found(items, b, j0 + 1, jt, lim);
    }
}

/// A selectable item met going down from `b` in steps `j0..lim` makes the search find one.
proof fn lemma_first_down_found(items: Seq<MenuItem>, b: int, j0: int, jt: int, lim: int)
    requires
        0 <= b < items.len(),
        0 <= j0 <= jt < lim <= items.len(),
        items[ring_down(b, jt, items.len() as int)].spec_selectable(),
    ensures
        first_down(items, b, j0, lim) is Some,
    decreases jt - j0,
{
    if j0 < jt && !items[ring_down(b, j0, items.len() as int)].spec_selectable() {
        lemma_first_down_found(items, b, j0 + 1, jt, lim);
    }
}

/// What was found keeps to the ring.
proof fn lemma_first_up_range(items: Seq<MenuItem>, b: int, j: int, lim: int)
    requires
        0 <= b < items.len(),
        0 <= j,
        lim <= items.len(),
    ensures
        first_up(items, b, j, lim) matches Some(i) ==> 0 <= i < items.len() && items[i].spec_selectable(),
        first_up(items, b, j, lim) is Some ==> j < lim,
    decreases lim - j,
{
    if j < lim && !items[ring_up(b, j, items.len() as int)].spec_selectable() {
        lemma_first_up_range(items, b, j + 1, lim);
    }
}

proof fn lemma_first_down_range(items: Seq<MenuItem>, b: int, j: int, lim: int)
    requires
        0 <= b < items.len(),
        0 <= j,
        lim <= items.len(),
    ensures
        first_down(items, b, j, lim) matches Some(i) ==> 0 <= i < items.len() && items[i].spec_selectable(),
        first_down(items, b, j, lim) is Some ==> j < lim,
    decreases lim - j,
{
    if j < lim && !items[ring_down(b, j, items.len() as int)].spec_selectable() {
        lemma_first_down_range(items, b, j + 1, lim);
    }
}


/// Moving the highlight down or up lands on a selectable item whenever it
/// moves at all.
pub proof fn law_moves_land_on_selectable_items(items: Seq<MenuItem>, current: Option<usize>)
    requires
        current matches Some(c) ==> c < items.len(),
        items.len() <= usize::MAX,
    ensures
        next_current(items, current) != current ==> (next_current(items, current) matches Some(i) && i < items.len()
            && items[i as int].spec_selectable()),
        prev_current(items, current) != current ==> (prev_current(items, current) matches Some(i) && i < items.len()
            && items[i as int].spec_selectable()),
{
    let n = items.len() as int;
    if n > 0 {
        let start: int = match current {
            Some(c) => c as int,
            None => 0,
        };
        let b = (start + 1) % n;
        lemma_first_up_range(items, b, 0, n - 1);
        let b2 = if start == 0 { n - 1 } else { start - 1 };
        lemma_first_down_range(items, b2, 0, n - 1);
    }
}

/// The menu shown by a menu view, its highlighted item, and whether it is
/// drawn compactly.
pub struct MenuViewerState {
    pub menu: Option<Menu>,
    pub current: Option<usize>,
    pub compact_menu: bool,
}

impl MenuViewerState {
    /// The items of the menu shown; none without a menu.
    pub open spec fn spec_items(&self) -> Seq<MenuItem> {
        match self.menu {
            Some(m) => m.items@,
            None => Seq::empty(),
        }
    }

    /// No menu and nothing highlighted.
    pub fn new() -> (s: Self)
        ensures
            s.menu is None,
            s.current is None,
            !s.compact_menu,
    {
        MenuViewerState { menu: None, current: None, compact_menu: false }
    }

    /// Show `menu` with its first item highlighted, if it has one.
    pub fn with_menu(menu: Menu) -> (s: Self)
        ensures
            s.menu == Some(menu),
            s.current == (if menu.items@.len() > 0 { Some(0usize) } else { None }),
            !s.compact_menu,
    {
        let has_items = menu.items.len() > 0;
        MenuViewerState { menu: Some(menu), current: if has_items { Some(0) } else { None }, compact_menu: false }
    }

    /// The first selectable item.
    fn find_first_selectable(&self) -> (r: Option<usize>)
        ensures
            r matches Some(i) ==> i < self.spec_items().len() && self.spec_items()[i as int].spec_selectable()
                && forall|j: int| 0 <= j < i ==> !(#[trigger] self.spec_items()[j]).spec_selectable(),
            r is None ==> !any_selectable(self.spec_items()),
    {
        match &self.menu {
            Some(menu) => {
                let mut i: usize = 0;
                while i < menu.items.len()
                    invariant
                        self.spec_items() == menu.items@,
                        i <= menu.items@.len(),
                        forall|j: int| 0 <= j < i ==> !(#[trigger] menu.items@[j]).spec_selectable(),
                    decreases menu.items.len() - i,
                {
                    if menu.items[i].is_selectable() {
                        return Some(i);
                    }
                    i = i + 1;
                }
                None
            },
            None => None,
        }
    }

    /// Show `menu`, highlighting its first selectable item (nothing if it has none).
    pub fn set_menu(&mut self, menu: Menu)
        ensures
            final(self).menu == Some(menu),
            final(self).compact_menu == old(self).compact_menu,
            final(self).current matches Some(i) ==> i < menu.items@.len() && menu.items@[i as int].spec_selectable()
                && forall|j: int| 0 <= j < i ==> !(#[trigger] menu.items@[j]).spec_selectable(),
            final(self).current is None ==> !any_selectable(menu.items@),
    {
        let has_items = menu.items.len() > 0;
        self.menu = Some(menu);
        self.current = if has_items { self.find_first_selectable() } else { None };
    }

    pub fn get_menu(&self) -> (m: Option<&Menu>)
        ensures
            m matches Some(x) ==> self.menu == Some(*x),
            m is None <==> self.menu is None,
    {
        match &self.menu {
            Some(m) => Some(m),
            None => None,
        }
    }

    pub fn get_menu_mut(&mut self) -> (m: Option<&mut Menu>)
        ensures
            final(self).current == old(self).current,
            final(self).compact_menu == old(self).compact_menu,
            (match old(self).menu {
                None => final(self).menu is None && m is None,
                Some(x) => final(self).menu is Some && m is Some && *m->0 == x
                    && *final(m->0) == final(self).menu->0,
            }),
    {
        self.menu.as_mut()
    }

    /// The highlighted item, if there is one.
    pub fn get_current_item(&self) -> (r: Option<&MenuItem>)
        ensures
            r matches Some(it) ==> (self.current matches Some(i) && i < self.spec_items().len() && *it
                == self.spec_items()[i as int]),
            r is None ==> (self.menu is None || !(self.current matches Some(i) && i < self.spec_items().len())),
    {
        match (&self.menu, self.current) {
            (Some(menu), Some(idx)) => {
                if idx < menu.items.len() {
                    Some(&menu.items[idx])
                } else {
                    None
                }
            },
            _ => None,
        }
    }

    /// Highlight the next selectable item, going round the end of the menu.
    pub fn select_next(&mut self)
        requires
            old(self).spec_items().len() > 0 ==> (old(self).current matches Some(c) ==> (c >= old(self).spec_items().len()
                ==> c < usize::MAX && any_selectable(old(self).spec_items()))),
        ensures
            final(self).menu == old(self).menu,
            final(self).compact_menu == old(self).compact_menu,
            final(self).current == next_current(old(self).spec_items(), old(self).current),
    {
        match &self.menu {
            None => {},
            Some(menu) => {
                let n = menu.items.len();
                if n == 0 {
                    return;
                }
                let ghost items = menu.items@;
                let start: usize = match self.current {
                    Some(c) => c,
                    None => 0,
                };
                let mut idx: usize = if start + 1 < n {
                    start + 1
                } else if start + 1 == n {
                    0
                } else {
                    (start + 1) % n
                };
                let ghost b = idx as int;
                let ghost lim: int = if start < n { n - 1 } else { n as int };
                proof {
                    if start + 1 < n {
                        vstd::arithmetic::div_mod::lemma_small_mod((start + 1) as nat, n as nat);
                    } else if start + 1 == n {
                        vstd::arithmetic::div_mod::lemma_mod_self_0(n as int);
                    }
                }
                assert(b == (start + 1) % (n as int));
                let ghost mut j: int = 0;
                if start >= n {
                    let ghost i = choose|i: int| 0 <= i < items.len() && #[trigger] items[i].spec_selectable();
                    let ghost jt = if i >= b { i - b } else { i + n - b };
                    proof {
                        lemma_first_up_found(items, b, 0, jt, lim);
                    }
                }
                while idx != start
                    invariant
                        items == menu.items@,
                        self.menu == old(self).menu,
                        self.current == old(self).current,
                        self.compact_menu == old(self).compact_menu,
                        self.spec_items() == items,
                        n == items.len(),
                        0 <= b < n,
                        start == (match self.current {
                            Some(c) => c as int,
                            None => 0,
                        }),
                        lim == (if start < n { n - 1 } else { n as int }),
                        0 <= j <= lim,
                        idx == ring_up(b, j, n as int),
                        b == (start + 1) % (n as int),
                        start < n ==> b == (if start + 1 < n { start + 1 } else { 0 }),
                        first_up(items, b, j, lim) == first_up(items, b, 0, lim),
                        start < n ==> (j == lim <==> idx == start),
                        start >= n ==> first_up(items, b, j, lim) is Some,
                    decreases lim - j,
                {
                    proof {
                        lemma_first_up_range(items, b, j, lim);
                    }
                    if menu.items[idx].is_selectable() {
                        self.current = Some(idx);
                        return;
                    }
                    idx = if idx + 1 < n { idx + 1 } else { 0 };
                    proof {
                        j = j + 1;
                    }
                }
            },
        }
    }

    /// Highlight the previous selectable item, going round the start of the menu.
    pub fn select_prev(&mut self)
        requires
            old(self).spec_items().len() > 0 ==> (old(self).current matches Some(c) ==> (c >= old(self).spec_items().len()
                ==> c == old(self).spec_items().len() && any_selectable(old(self).spec_items()))),
        ensures
            final(self).menu == old(self).menu,
            final(self).compact_menu == old(self).compact_menu,
            final(self).current == prev_current(old(self).spec_items(), old(self).current),
    {
        match &self.menu {
            None => {},
            Some(menu) => {
                let n = menu.items.len();
                if n == 0 {
                    return;
                }
                let ghost items = menu.items@;
                let start: usize = match self.current {
                    Some(c) => c,
                    None => 0,
                };
                let mut idx: usize = if start == 0 { n - 1 } else { start - 1 };
                let ghost b = idx as int;
                let ghost lim: int = if start < n { n - 1 } else { n as int };
                let ghost mut j: int = 0;
                if start >= n {
                    let ghost i = choose|i: int| 0 <= i < items.len() && #[trigger] items[i].spec_selectable();
                    let ghost jt = if i <= b { b - i } else { b - i + n };
                    proof {
                        lemma_first_down_found(items, b, 0, jt, lim);
                    }
                }
                while idx != start
                    invariant
                        items == menu.items@,
                        self.menu == old(self).menu,
                        self.current == old(self).current,
                        self.compact_menu == old(self).compact_menu,
                        self.spec_items() == items,
                        n == items.len(),
                        0 <= b < n,
                        start == (match self.current {
                            Some(c) => c as int,
                            None => 0,
                        }),
                        start <= n,
                        lim == (if start < n { n - 1 } else { n as int }),
                        0 <= j <= lim,
                        idx == ring_down(b, j, n as int),
                        b == (if start == 0 { n - 1 } else { start - 1 }),
                        first_down(items, b, j, lim) == first_down(items, b, 0, lim),
                        start < n ==> (j == lim <==> idx == start),
                        start >= n ==> first_down(items, b, j, lim) is Some,
                    decreases lim - j,
                {
                    proof {
                        lemma_first_down_range(items, b, j, lim);
                    }
                    if menu.items[idx].is_selectable() {
                        self.current = Some(idx);
                        return;
                    }
                    idx = if idx == 0 { n - 1 } else { idx - 1 };
                    proof {
                        j = j + 1;
                    }
                }
            },
        }
    }

    /// The first selectable item whose accelerator is `ch`, in any case.
    pub fn find_item_by_char(&self, ch: char) -> (r: Option<usize>)
        ensures
            r matches Some(i) ==> i < self.spec_items().len() && answers_char(self.spec_items()[i as int], ch)
                && forall|j: int| 0 <= j < i ==> !answers_char(#[trigger] self.spec_items()[j], ch),
            r is None ==> forall|j: int| 0 <= j < self.spec_items().len() ==> !answers_char(#[trigger] self.spec_items()[j], ch),
    {
        match &self.menu {
            Some(menu) => {
                let lower = to_ascii_lower(ch);
                let mut i: usize = 0;
                while i < menu.items.len()
                    invariant
                        self.spec_items() == menu.items@,
                        lower == spec_to_lower(ch),
                        i <= menu.items@.len(),
                        forall|j: int| 0 <= j < i ==> !answers_char(#[trigger] menu.items@[j], ch),
                    decreases menu.items.len() - i,
                {
                    let item = &menu.items[i];
                    match item.get_accelerator() {
                        Some(a) => {
                            if a == lower && item.is_selectable() {
                                return Some(i);
                            }
                        },
                        None => {},
                    }
                    i = i + 1;
                }
                None
            },
            None => None,
        }
    }

    /// The first selectable item whose hot key is `key_code`.
    pub fn find_item_by_hotkey(&self, key_code: u16) -> (r: Option<usize>)
        ensures
            r matches Some(i) ==> i < self.spec_items().len() && answers_key(self.spec_items()[i as int], key_code)
                && forall|j: int| 0 <= j < i ==> !answers_key(#[trigger] self.spec_items()[j], key_code),
            r is None ==> forall|j: int| 0 <= j < self.spec_items().len() ==> !answers_key(#[trigger] self.spec_items()[j], key_code),
    {
        match &self.menu {
            Some(menu) => {
                let mut i: usize = 0;
                while i < menu.items.len()
                    invariant
                        self.spec_items() == menu.items@,
                        i <= menu.items@.len(),
                        forall|j: int| 0 <= j < i ==> !answers_key(#[trigger] menu.items@[j], key_code),
                    decreases menu.items.len() - i,
                {
                    let item = &menu.items[i];
                    if item.is_selectable() {
                        match item.key_code() {
                            Some(k) => {
                                if k == key_code {
                                    return Some(i);
                                }
                            },
                            None => {},
                        }
                    }
                    i = i + 1;
                }
                None
            },
            None => None,
        }
    }

    /// The number of items; 0 without a menu.
    pub fn item_count(&self) -> (n: usize)
        ensures
            n == self.spec_items().len(),
    {
        match &self.menu {
            Some(m) => m.items.len(),
            None => 0,
        }
    }
}

} // verus!
