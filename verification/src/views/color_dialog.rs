//! A dialog for picking foreground and background colours: a prompt, a
//! selector for each, a preview and OK and Cancel buttons.
use vstd::prelude::*;
use crate::command::{CM_CANCEL, CM_OK};
use crate::draw::Attr;
use crate::geometry::{spec_height, spec_width, Point, Rect};
use crate::views::dialog::Dialog;
use crate::views::group::ChildInfo;

verus! {

/// Where the parts of a colour dialog `w` by `h` go: the prompt, the
/// foreground label and selector, the background label and selector, the
/// preview label and sample, and the OK and Cancel buttons.
pub open spec fn color_dialog_layout(w: int, h: int) -> Seq<Rect> {
    seq![
        Rect { a: Point { x: 2, y: 2 }, b: Point { x: (w - 4) as i16, y: 3 } },
        Rect { a: Point { x: 2, y: 4 }, b: Point { x: 20, y: 5 } },
        Rect { a: Point { x: 2, y: 5 }, b: Point { x: 26, y: 8 } },
        Rect { a: Point { x: 2, y: 9 }, b: Point { x: 20, y: 10 } },
        Rect { a: Point { x: 2, y: 10 }, b: Point { x: 26, y: 13 } },
        Rect { a: Point { x: 28, y: 5 }, b: Point { x: (w - 4) as i16, y: 6 } },
        Rect { a: Point { x: 28, y: 6 }, b: Point { x: (w - 4) as i16, y: 8 } },
        Rect { a: Point { x: (w - 24) as i16, y: (h - 4) as i16 }, b: Point { x: (w - 14) as i16, y: (h - 2) as i16 } },
        Rect { a: Point { x: (w - 12) as i16, y: (h - 4) as i16 }, b: Point { x: (w - 2) as i16, y: (h - 2) as i16 } },
    ]
}

pub struct ColorDialog {
    dialog: Dialog,
    fg_selector_idx: usize,
    bg_selector_idx: usize,
    initial_attr: Attr,
    /// The colour the foreground selector shows, `0..16`.
    foreground: u8,
    /// The colour the background selector shows, `0..16`.
    background: u8,
    selected_attr: Option<Attr>,
}

impl ColorDialog {
    pub closed spec fn spec_dialog(&self) -> Dialog {
        self.dialog
    }

    pub closed spec fn spec_initial(&self) -> Attr {
        self.initial_attr
    }

    pub closed spec fn spec_selected(&self) -> Option<Attr> {
        self.selected_attr
    }

    /// The colours the two selectors show: foreground, background.
    pub closed spec fn spec_picked(&self) -> (u8, u8) {
        (self.foreground, self.background)
    }

    /// The attribute the selectors make together.
    pub open spec fn spec_picked_attr(&self) -> Attr {
        Attr { value: (self.spec_picked().0 + 16 * self.spec_picked().1) as u8 }
    }

    /// The children holding the foreground and background selectors.
    pub closed spec fn spec_selectors(&self) -> (usize, usize) {
        (self.fg_selector_idx, self.bg_selector_idx)
    }

    pub open spec fn wf(&self) -> bool {
        &&& self.spec_dialog().wf()
        &&& self.spec_picked().0 < 16
        &&& self.spec_picked().1 < 16
    }

    /// A colour dialog in `bounds` titled `title`, starting from `initial_attr`.
    pub fn new(bounds: Rect, title: &str, initial_attr: Attr) -> (c: Self)
        requires
            i16::MIN + 24 <= spec_width(bounds) <= i16::MAX,
            i16::MIN + 4 <= spec_height(bounds) <= i16::MAX,
        ensures
            c.wf(),
            c.spec_dialog().spec_title() == title@,
            c.spec_dialog().spec_group().spec_bounds() == bounds,
            c.spec_dialog().spec_group().spec_children().len() == 9,
            forall|i: int| 0 <= i < 9 ==> (#[trigger] c.spec_dialog().spec_group().spec_children()[i]).bounds
                == color_dialog_layout(spec_width(bounds), spec_height(bounds))[i],
            c.spec_dialog().spec_button_commands() == seq![CM_OK, CM_CANCEL],
            c.spec_selectors() == (2usize, 4usize),
            c.spec_initial() == initial_attr,
            c.spec_picked() == (initial_attr.value % 16, initial_attr.value / 16),
            c.spec_picked_attr() == initial_attr,
            c.spec_selected() is None,
    {
        let mut dialog = Dialog::new(bounds, title);
        let w = bounds.width();
        let h = bounds.height();
        dialog.add_boxed(ChildInfo::new(Rect::new(2, 2, w - 4, 3), false));
        dialog.add_boxed(ChildInfo::new(Rect::new(2, 4, 20, 5), false));
        dialog.add_boxed(ChildInfo::new(Rect::new(2, 5, 26, 8), true));
        let fg_selector_idx: usize = 2;
        dialog.add_boxed(ChildInfo::new(Rect::new(2, 9, 20, 10), false));
        dialog.add_boxed(ChildInfo::new(Rect::new(2, 10, 26, 13), true));
        let bg_selector_idx: usize = 4;
        dialog.add_boxed(ChildInfo::new(Rect::new(28, 5, w - 4, 6), false));
        dialog.add_boxed(ChildInfo::new(Rect::new(28, 6, w - 4, 8), false));
        dialog.add_button(ChildInfo::new(Rect::new(w - 24, h - 4, w - 14, h - 2), true), CM_OK, true, false);
        dialog.add_button(ChildInfo::new(Rect::new(w - 12, h - 4, w - 2, h - 2), true), CM_CANCEL, false, false);
        assert(dialog.spec_button_commands() =~= seq![CM_OK, CM_CANCEL]);
        let foreground = initial_attr.value % 16;
        let background = initial_attr.value / 16;
        ColorDialog {
            dialog,
            fg_selector_idx,
            bg_selector_idx,
            initial_attr,
            foreground,
            background,
            selected_attr: None,
        }
    }

    pub fn dialog(&self) -> (d: &Dialog)
        ensures
            *d == self.spec_dialog(),
    {
        &self.dialog
    }

    pub fn dialog_mut(&mut self) -> (d: &mut Dialog)
        ensures
            *d == old(self).spec_dialog(),
            final(self).spec_dialog() == *final(d),
            final(self).spec_initial() == old(self).spec_initial(),
            final(self).spec_selected() == old(self).spec_selected(),
            final(self).spec_selectors() == old(self).spec_selectors(),
            final(self).spec_picked() == old(self).spec_picked(),
    {
        &mut self.dialog
    }

    /// The foreground selector moves to colour `color`; a colour outside
    /// `0..16` is not offered and changes nothing.
    pub fn set_foreground(&mut self, color: u8)
        requires
            old(self).wf(),
        ensures
            final(self).wf(),
            final(self).spec_picked() == (if color < 16 { (color, old(self).spec_picked().1) } else {
                old(self).spec_picked()
            }),
            final(self).spec_dialog() == old(self).spec_dialog(),
            final(self).spec_initial() == old(self).spec_initial(),
            final(self).spec_selected() == old(self).spec_selected(),
    {
        if color < 16 {
            self.foreground = color;
        }
    }

    /// The background selector moves to colour `color`; a colour outside
    /// `0..16` is not offered and changes nothing.
    pub fn set_background(&mut self, color: u8)
        requires
            old(self).wf(),
        ensures
            final(self).wf(),
            final(self).spec_picked() == (if color < 16 { (old(self).spec_picked().0, color) } else {
                old(self).spec_picked()
            }),
            final(self).spec_dialog() == old(self).spec_dialog(),
            final(self).spec_initial() == old(self).spec_initial(),
            final(self).spec_selected() == old(self).spec_selected(),
    {
        if color < 16 {
            self.background = color;
        }
    }

    /// The colours the selectors show: foreground, background.
    pub fn picked(&self) -> (p: (u8, u8))
        ensures
            p == self.spec_picked(),
    {
        (self.foreground, self.background)
    }

    /// The colours the dialog answers once it has ended with `result`: with
    /// OK, the colours the selectors show, which become the picked colours;
    /// otherwise none, and nothing is picked.
    pub fn answer(&mut self, result: u16) -> (a: Option<Attr>)
        requires
            old(self).wf(),
        ensures
            final(self).wf(),
            result == CM_OK ==> a == Some(old(self).spec_picked_attr()) && final(self).spec_selected() == a,
            result != CM_OK ==> a is None && final(self).spec_selected() == old(self).spec_selected(),
            final(self).spec_picked() == old(self).spec_picked(),
            final(self).spec_dialog() == old(self).spec_dialog(),
            final(self).spec_initial() == old(self).spec_initial(),
    {
        if result == CM_OK {
            let a = Attr::new(self.foreground, self.background);
            self.selected_attr = Some(a);
            Some(a)
        } else {
            None
        }
    }

    /// The colours picked, if any.
    pub fn get_selected_attr(&self) -> (a: Option<Attr>)
        ensures
            a == self.spec_selected(),
    {
        self.selected_attr
    }
}

} // verus!
