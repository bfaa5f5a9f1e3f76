//! The change-directory dialog: a directory name field, the directory
//! tree, and OK, Chdir and Revert buttons.
//!
//! Checking a directory, reading its subdirectories and changing the
//! process's directory are left to the caller; the dialog says when they are
//! wanted and takes the results.
use vstd::prelude::*;
use crate::command::CM_OK;
use crate::event::{Event, EventType};
use crate::geometry::Rect;
use crate::text::{str_chars, string_from_chars};
use crate::views::dialog::Dialog;
use crate::views::dir_listbox::{path_root, sorted_names, tree_rows, DirListBox};
use crate::views::file_dialog::rect;
use crate::views::group::ChildInfo;

verus! {

/// The Chdir button's command.
pub const CM_CHANGE_DIR: u16 = 200;
/// The Revert button's command.
pub const CM_REVERT: u16 = 201;

/// The change-directory dialog's bounds.
pub open spec fn chdir_bounds() -> Rect {
    rect(16, 2, 64, 21)
}

/// The bounds of the dialog's children: name field, its label, the two
/// scroll bars, the tree, its label, then OK, Chdir and Revert.
pub open spec fn chdir_layout() -> Seq<Rect> {
    seq![
        rect(3, 3, 30, 4),
        rect(2, 2, 20, 3),
        rect(32, 6, 33, 16),
        rect(3, 16, 32, 17),
        rect(3, 6, 32, 16),
        rect(2, 5, 20, 6),
        rect(35, 6, 45, 8),
        rect(35, 9, 45, 11),
        rect(35, 12, 45, 14),
    ]
}

/// What the caller does for a command the dialog took.
pub enum ChDirAction {
    /// Nothing.
    Nothing,
    /// Check that this path is a directory, read it, and hand it over with
    /// `dir_changed`.
    ChangeDir(String),
    /// Read the process's current directory and hand it over with `revert`.
    Revert,
}

pub struct ChDirDialog {
    dialog: Dialog,
    dir_input: Vec<char>,
    dir_listbox: DirListBox,
    selected_directory: Option<Vec<char>>,
}

impl ChDirDialog {
    pub closed spec fn spec_dialog(&self) -> Dialog {
        self.dialog
    }

    /// The directory name field's text.
    pub closed spec fn spec_input(&self) -> Seq<char> {
        self.dir_input@
    }

    pub closed spec fn spec_tree(&self) -> DirListBox {
        self.dir_listbox
    }

    pub closed spec fn spec_selected(&self) -> Option<Seq<char>> {
        match self.selected_directory {
            Some(d) => Some(d@),
            None => None,
        }
    }

    pub closed spec fn wf(&self) -> bool {
        self.dialog.wf()
    }

    /// The dialog opened on directory `cwd`, whose subdirectories are `subdirs`.
    pub fn new(cwd: &str, subdirs: &Vec<String>) -> (d: ChDirDialog)
        ensures
            d.wf(),
            d.spec_dialog().spec_group().spec_bounds() == chdir_bounds(),
            d.spec_dialog().spec_title() == "Change Directory"@,
            d.spec_dialog().spec_group().spec_children().len() == 9,
            forall|i: int| 0 <= i < 9 ==> (#[trigger] d.spec_dialog().spec_group().spec_children()[i]).bounds == chdir_layout()[i],
            d.spec_input() == cwd@,
            d.spec_tree().spec_current() == cwd@,
            d.spec_tree().spec_rows() == tree_rows(cwd@, path_root(cwd@), sorted_names(subdirs@.map_values(|s: String| s@))),
            d.spec_selected() is None,
    {
        let mut dialog = Dialog::new(Rect::new(16, 2, 64, 21), "Change Directory");
        dialog.add_boxed(ChildInfo::new(Rect::new(3, 3, 30, 4), true));
        dialog.add_boxed(ChildInfo::new(Rect::new(2, 2, 20, 3), false));
        dialog.add_boxed(ChildInfo::new(Rect::new(32, 6, 33, 16), false));
        dialog.add_boxed(ChildInfo::new(Rect::new(3, 16, 32, 17), false));
        dialog.add_boxed(ChildInfo::new(Rect::new(3, 6, 32, 16), true));
        dialog.add_boxed(ChildInfo::new(Rect::new(2, 5, 20, 6), false));
        dialog.add_button(ChildInfo::new(Rect::new(35, 6, 45, 8), true), CM_OK, true, false);
        dialog.add_button(ChildInfo::new(Rect::new(35, 9, 45, 11), true), CM_CHANGE_DIR, false, false);
        dialog.add_button(ChildInfo::new(Rect::new(35, 12, 45, 14), true), CM_REVERT, false, false);
        let tree = DirListBox::new(Rect::new(3, 6, 32, 16), cwd, subdirs);
        ChDirDialog { dialog, dir_input: str_chars(cwd), dir_listbox: tree, selected_directory: None }
    }

    /// Take a command the dialog left pending: Chdir asks to change to the
    /// focused tree row's directory (if a row is focused), Revert to go back
    /// to the process's directory; both are cleared. Anything else is left.
    pub fn handle_event(&mut self, event: &mut Event) -> (action: ChDirAction)
        ensures
            final(self).spec_dialog() == old(self).spec_dialog(),
            final(self).spec_input() == old(self).spec_input(),
            final(self).spec_tree() == old(self).spec_tree(),
            old(event).what == EventType::Command && old(event).command == CM_CHANGE_DIR ==> {
                &&& *final(event) == (Event { what: EventType::Nothing, ..*old(event) })
                &&& (old(self).spec_tree().spec_list().focused matches Some(f) && f < old(self).spec_tree().spec_rows().len())
                    ==> (action matches ChDirAction::ChangeDir(p) && p@ == old(self).spec_tree().spec_rows()[
                    old(self).spec_tree().spec_list().focused->0 as int].path)
                &&& !(old(self).spec_tree().spec_list().focused matches Some(f) && f < old(self).spec_tree().spec_rows().len())
                    ==> action is Nothing
            },
            old(event).what == EventType::Command && old(event).command == CM_REVERT ==> {
                &&& *final(event) == (Event { what: EventType::Nothing, ..*old(event) })
                &&& action is Revert
            },
            !(old(event).what == EventType::Command && (old(event).command == CM_CHANGE_DIR || old(event).command
                == CM_REVERT)) ==> *final(event) == *old(event) && action is Nothing,
    {
        if event.what == EventType::Command {
            if event.command == CM_CHANGE_DIR {
                let a = match self.dir_listbox.enter_focused_dir() {
                    Some(p) => ChDirAction::ChangeDir(p),
                    None => ChDirAction::Nothing,
                };
                event.clear();
                return a;
            } else if event.command == CM_REVERT {
                event.clear();
                return ChDirAction::Revert;
            }
        }
        ChDirAction::Nothing
    }

    /// The tree changed to directory `path`, whose subdirectories are
    /// `subdirs`; the name field shows the path.
    pub fn dir_changed(&mut self, path: &str, subdirs: &Vec<String>)
        ensures
            final(self).spec_input() == path@,
            final(self).spec_tree().spec_current() == path@,
            final(self).spec_tree().spec_rows() == tree_rows(
                path@,
                old(self).spec_tree().spec_root(),
                sorted_names(subdirs@.map_values(|s: String| s@)),
            ),
            final(self).spec_dialog() == old(self).spec_dialog(),
            final(self).spec_selected() == old(self).spec_selected(),
    {
        self.dir_listbox.change_dir(path, subdirs);
        self.dir_input = str_chars(path);
    }

    /// Back to the process's directory `cwd`, whose subdirectories are `subdirs`.
    pub fn revert(&mut self, cwd: &str, subdirs: &Vec<String>)
        ensures
            final(self).spec_input() == cwd@,
            final(self).spec_tree().spec_current() == cwd@,
            final(self).spec_tree().spec_rows() == tree_rows(
                cwd@,
                old(self).spec_tree().spec_root(),
                sorted_names(subdirs@.map_values(|s: String| s@)),
            ),
            final(self).spec_dialog() == old(self).spec_dialog(),
            final(self).spec_selected() == old(self).spec_selected(),
    {
        self.dir_input = str_chars(cwd);
        self.dir_listbox.change_dir(cwd, subdirs);
    }

    /// The name field changed to `text`.
    pub fn set_input(&mut self, text: &str)
        ensures
            final(self).spec_input() == text@,
            final(self).spec_tree() == old(self).spec_tree(),
            final(self).spec_dialog() == old(self).spec_dialog(),
            final(self).spec_selected() == old(self).spec_selected(),
    {
        self.dir_input = str_chars(text);
    }

    /// The directory named in the field, to try when OK closes the dialog.
    pub fn input(&self) -> (s: String)
        ensures
            s@ == self.spec_input(),
    {
        string_from_chars(&self.dir_input)
    }

    /// OK closed the dialog and changing to the named directory worked:
    /// that directory is the dialog's result.
    pub fn accept(&mut self) -> (dir: String)
        ensures
            dir@ == old(self).spec_input(),
            final(self).spec_selected() == Some(old(self).spec_input()),
            final(self).spec_input() == old(self).spec_input(),
            final(self).spec_dialog() == old(self).spec_dialog(),
    {
        let copy = str_chars(string_from_chars(&self.dir_input).as_str());
        self.selected_directory = Some(copy);
        string_from_chars(&self.dir_input)
    }

    pub fn get_directory(&self) -> (r: Option<String>)
        ensures
            (match r {
                Some(s) => self.spec_selected() == Some(s@),
                None => self.spec_selected() is None,
            }),
    {
        match &self.selected_directory {
            Some(d) => Some(string_from_chars(d)),
            None => None,
        }
    }

    pub fn get_end_state(&self) -> (c: u16)
        ensures
            c == self.spec_dialog().spec_group().spec_end_state(),
    {
        self.dialog.end_state()
    }

    pub fn dialog_mut(&mut self) -> (d: &mut Dialog)
        ensures
            *d == old(self).spec_dialog(),
            final(self).spec_dialog() == *final(d),
            final(self).spec_input() == old(self).spec_input(),
            final(self).spec_tree() == old(self).spec_tree(),
            final(self).spec_selected() == old(self).spec_selected(),
    {
        &mut self.dialog
    }

    pub fn tree_mut(&mut self) -> (t: &mut DirListBox)
        ensures
            *t == old(self).spec_tree(),
            final(self).spec_tree() == *final(t),
            final(self).spec_input() == old(self).spec_input(),
            final(self).spec_dialog() == old(self).spec_dialog(),
            final(self).spec_selected() == old(self).spec_selected(),
    {
        &mut self.dir_listbox
    }
}

/// Builder for the change-directory dialog, which has a fixed layout.
pub struct ChDirDialogBuilder {}

impl ChDirDialogBuilder {
    pub fn new() -> (b: Self) {
        ChDirDialogBuilder {}
    }

    /// The dialog opened on `cwd`, whose subdirectories are `subdirs`.
    pub fn build(self, cwd: &str, subdirs: &Vec<String>) -> (d: ChDirDialog)
        ensures
            d.wf(),
            d.spec_input() == cwd@,
            d.spec_tree().spec_current() == cwd@,
            d.spec_dialog().spec_group().spec_bounds() == chdir_bounds(),
            d.spec_selected() is None,
    {
        ChDirDialog::new(cwd, subdirs)
    }

    pub fn build_boxed(self, cwd: &str, subdirs: &Vec<String>) -> (d: Box<ChDirDialog>)
        ensures
            d.wf(),
            d.spec_input() == cwd@,
            d.spec_tree().spec_current() == cwd@,
            d.spec_dialog().spec_group().spec_bounds() == chdir_bounds(),
            d.spec_selected() is None,
    {
        Box::new(self.build(cwd, subdirs))
    }
}

} // verus!
