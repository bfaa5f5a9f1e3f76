//! Menus as data: items with a command, a submenu or a separator line.
//!
//! An item's text marks its accelerator with tildes: in `"~O~pen"` the
//! accelerator is `o`.
use vstd::prelude::*;
use crate::text::{str_chars, string_chars, spec_to_lower, to_ascii_lower};

verus! {

/// One entry of a menu.
pub enum MenuItem {
    /// An item that issues `command`; `key_code` is its hot key, 0 for none.
    Regular { text: String, command: u16, key_code: u16, help_ctx: u16, enabled: bool, shortcut: Option<String> },
    /// An item that opens `menu`.
    SubMenu { text: String, key_code: u16, help_ctx: u16, menu: Menu },
    /// A dividing line.
    Separator,
}

/// A list of menu items.
pub struct Menu {
    pub items: Vec<MenuItem>,
}

/// The accelerator marked in `t`: the character after its first `~`, in lower case.
pub open spec fn accelerator_of(t: Seq<char>) -> Option<char>
    decreases t.len(),
{
    if t.len() < 2 {
        None
    } else if t[0] == '~' {
        Some(spec_to_lower(t[1]))
    } else {
        accelerator_of(t.drop_first())
    }
}

impl MenuItem {
    /// The item's text; empty for a separator.
    pub open spec fn spec_text(&self) -> Seq<char> {
        match self {
            MenuItem::Regular { text, .. } => text@,
            MenuItem::SubMenu { text, .. } => text@,
            MenuItem::Separator => Seq::empty(),
        }
    }

    /// Whether the item can be highlighted: enabled command items and submenus.
    pub open spec fn spec_selectable(&self) -> bool {
        match self {
            MenuItem::Regular { enabled, .. } => *enabled,
            MenuItem::SubMenu { .. } => true,
            MenuItem::Separator => false,
        }
    }

    /// The hot key of a command item or submenu.
    pub open spec fn spec_key_code(&self) -> Option<u16> {
        match self {
            MenuItem::Regular { key_code, .. } => Some(*key_code),
            MenuItem::SubMenu { key_code, .. } => Some(*key_code),
            MenuItem::Separator => None,
        }
    }

    /// The command of a command item.
    pub open spec fn spec_command(&self) -> Option<u16> {
        match self {
            MenuItem::Regular { command, .. } => Some(*command),
            _ => None,
        }
    }

    /// An enabled command item without a shortcut label.
    pub fn new(text: &str, command: u16, key_code: u16, help_ctx: u16) -> (it: MenuItem)
        ensures
            it matches MenuItem::Regular { text: t, command: c, key_code: k, help_ctx: h, enabled: true, shortcut: None }
                && t@ == text@ && c == command && k == key_code && h == help_ctx,
    {
        MenuItem::Regular {
            text: text.to_string(),
            command,
            key_code,
            help_ctx,
            enabled: true,
            shortcut: None,
        }
    }

    /// A separator line.
    pub fn separator() -> (it: MenuItem)
        ensures
            it is Separator,
    {
        MenuItem::Separator
    }

    /// An item opening `menu`.
    pub fn submenu(text: &str, key_code: u16, menu: Menu) -> (it: MenuItem)
        ensures
            it matches MenuItem::SubMenu { text: t, key_code: k, help_ctx: 0, menu: m } && t@ == text@ && k
                == key_code && m == menu,
    {
        MenuItem::SubMenu { text: text.to_string(), key_code, help_ctx: 0, menu }
    }

    /// The item's text; empty for a separator.
    pub fn text(&self) -> (s: String)
        ensures
            s@ == self.spec_text(),
    {
        match self {
            MenuItem::Regular { text, .. } => {
                let c = string_chars(text);
                crate::text::string_from_chars(&c)
            },
            MenuItem::SubMenu { text, .. } => {
                let c = string_chars(text);
                crate::text::string_from_chars(&c)
            },
            MenuItem::Separator => String::new(),
        }
    }

    /// The command of a command item.
    pub fn command(&self) -> (c: Option<u16>)
        ensures
            c == self.spec_command(),
    {
        match self {
            MenuItem::Regular { command, .. } => Some(*command),
            _ => None,
        }
    }

    pub fn is_selectable(&self) -> (b: bool)
        ensures
            b == self.spec_selectable(),
    {
        match self {
            MenuItem::Regular { enabled, .. } => *enabled,
            MenuItem::SubMenu { .. } => true,
            MenuItem::Separator => false,
        }
    }

    /// The hot key of a command item or submenu.
    pub fn key_code(&self) -> (k: Option<u16>)
        ensures
            k == self.spec_key_code(),
    {
        match self {
            MenuItem::Regular { key_code, .. } => Some(*key_code),
            MenuItem::SubMenu { key_code, .. } => Some(*key_code),
            MenuItem::Separator => None,
        }
    }

    /// The accelerator marked in the item's text.
    pub fn get_accelerator(&self) -> (a: Option<char>)
        ensures
            a == accelerator_of(self.spec_text()),
    {
        let t = match self {
            MenuItem::Regular { text, .. } => string_chars(text),
            MenuItem::SubMenu { text, .. } => string_chars(text),
            MenuItem::Separator => Vec::new(),
        };
        let mut i: usize = 0;
        assert(t@.skip(0) =~= t@);
        while i < t.len() && t.len() - i > 1
            invariant
                t@ == self.spec_text(),
                i <= t@.len(),
                accelerator_of(t@.skip(i as int)) == accelerator_of(t@),
            decreases t.len() - i,
        {
            assert(t@.skip(i as int).drop_first() =~= t@.skip(i as int + 1));
            if t[i] == '~' {
                return Some(to_ascii_lower(t[i + 1]));
            }
            i = i + 1;
        }
        None
    }
}

impl Menu {
    /// An empty menu.
    pub fn new() -> (m: Menu)
        ensures
            m.items@.len() == 0,
    {
        Menu { items: Vec::new() }
    }

    /// A menu of `items`.
    pub fn from_items(items: Vec<MenuItem>) -> (m: Menu)
        ensures
            m.items@ == items@,
    {
        Menu { items }
    }
}

/// Builds a menu item by item.
pub struct MenuBuilder {
    items: Vec<MenuItem>,
}

impl MenuBuilder {
    pub closed spec fn spec_items(&self) -> Seq<MenuItem> {
        self.items@
    }

    pub fn new() -> (b: MenuBuilder)
        ensures
            b.spec_items().len() == 0,
    {
        MenuBuilder { items: Vec::new() }
    }

    /// Add an enabled command item.
    pub fn item(self, text: &str, command: u16, key_code: u16) -> (b: MenuBuilder)
        ensures
            b.spec_items().len() == self.spec_items().len() + 1,
            b.spec_items().take(self.spec_items().len() as int) == self.spec_items(),
            b.spec_items().last() matches MenuItem::Regular { text: t, command: c, key_code: k, help_ctx: 0, enabled: true, shortcut: None }
                && t@ == text@ && c == command && k == key_code,
    {
        let mut items = self.items;
        items.push(MenuItem::new(text, command, key_code, 0));
        MenuBuilder { items }
    }

    /// Add a separator line.
    pub fn separator(self) -> (b: MenuBuilder)
        ensures
            b.spec_items() == self.spec_items().push(MenuItem::Separator),
    {
        let mut items = self.items;
        items.push(MenuItem::Separator);
        MenuBuilder { items }
    }

    /// Add an item opening `menu`.
    pub fn submenu(self, text: &str, key_code: u16, menu: Menu) -> (b: MenuBuilder)
        ensures
            b.spec_items().len() == self.spec_items().len() + 1,
            b.spec_items().take(self.spec_items().len() as int) == self.spec_items(),
            b.spec_items().last() matches MenuItem::SubMenu { text: t, key_code: k, help_ctx: 0, menu: m }
                && t@ == text@ && k == key_code && m == menu,
    {
        let mut items = self.items;
        items.push(MenuItem::submenu(text, key_code, menu));
        MenuBuilder { items }
    }

    pub fn build(self) -> (m: Menu)
        ensures
            m.items@ == self.spec_items(),
    {
        Menu { items: self.items }
    }
}

} // verus!
