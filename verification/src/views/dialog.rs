//! Dialogs: a group of controls that, while modal, closes on the standard
//! commands (and, by default, on the commands of its own buttons), turns
//! Esc-Esc into Cancel and Enter into its default button's command.
//!
//! The dialog's part of event handling runs after its children had the
//! event; when it rewrites the event into a command, the caller hands the
//! command to the children and the dialog again.
use vstd::prelude::*;
use std::time::Duration;
use crate::command::{CM_CANCEL, CM_NO, CM_OK, CM_SHOW_DROPDOWN, CM_SHOW_HISTORY, CM_YES};
use crate::event::{spec_command, Event, EventType, KB_ENTER};
use crate::geometry::Rect;
use crate::state::{SF_DISABLED, SF_FOCUSED, SF_MODAL};
use crate::text::{str_chars, string_from_chars};
use crate::views::group::{focusable, ChildInfo, Group};
use crate::views::handle::ViewId;

verus! {

/// The key code of Esc pressed twice.
pub const KB_ESC_ESC: u16 = 0x011C;

/// Which commands close a modal dialog.
pub enum CloseOn {
    /// OK, Cancel, Yes and No.
    Standard,
    /// The standard four and the command of every (non-broadcast) button
    /// added to the dialog.
    StandardAndButtons,
    /// Exactly these.
    Commands(Vec<u16>),
}

/// Whether `c` is OK, Cancel, Yes or No.
pub open spec fn is_standard_close(c: u16) -> bool {
    c == CM_OK || c == CM_CANCEL || c == CM_YES || c == CM_NO
}

/// What a button child of the dialog carries.
#[derive(Clone, Copy, Debug, PartialEq, Eq, Structural)]
pub struct ButtonFacts {
    pub id: ViewId,
    pub command: u16,
    pub is_default: bool,
}

/// What the caller does after the dialog's part of event handling.
#[derive(Clone, Copy, Debug, PartialEq, Eq, Structural)]
pub enum DialogReply {
    /// Nothing more.
    Done,
    /// The event was turned into a command: hand it to the children and the
    /// dialog again.
    Reprocess,
    /// The modal loop ends; the linked histories record their input first
    /// when `record` holds (the dialog was accepted).
    Closed { record: bool },
}

pub struct Dialog {
    group: Group,
    title: Vec<char>,
    resizable: bool,
    result: u16,
    close_on: CloseOn,
    button_commands: Vec<u16>,
    buttons: Vec<ButtonFacts>,
    auto_dismiss: Option<(Duration, u16)>,
}

/// Whether `cmd` closes a dialog with policy `p` whose buttons carry `buttons`.
pub open spec fn closes_with(p: Seq<u16>, policy_kind: int, buttons: Seq<u16>, cmd: u16) -> bool {
    if policy_kind == 0 {
        is_standard_close(cmd)
    } else if policy_kind == 1 {
        is_standard_close(cmd) || buttons.contains(cmd)
    } else {
        p.contains(cmd)
    }
}

/// The first button among `buttons[k..]` whose id is `id`.
pub open spec fn button_with_id(buttons: Seq<ButtonFacts>, id: ViewId, k: int) -> Option<ButtonFacts>
    decreases buttons.len() - k,
{
    if k >= buttons.len() || k < 0 {
        None
    } else if buttons[k].id == id {
        Some(buttons[k])
    } else {
        button_with_id(buttons, id, k + 1)
    }
}

/// The command of the first default button among children `i..`, if that
/// button can be chosen; none when it is disabled or there is none.
pub open spec fn default_command_from(s: Seq<ChildInfo>, buttons: Seq<ButtonFacts>, i: int) -> Option<u16>
    decreases s.len() - i,
{
    if i >= s.len() || i < 0 {
        None
    } else {
        match button_with_id(buttons, s[i].id, 0) {
            Some(b) => if b.is_default {
                if focusable(s[i]) { Some(b.command) } else { None }
            } else {
                default_command_from(s, buttons, i + 1)
            },
            None => default_command_from(s, buttons, i + 1),
        }
    }
}


/// Under the default policy a modal dialog closes on each of OK, Cancel,
/// Yes and No, and on the command of every (non-broadcast) button added.
pub proof fn law_default_policy_closes_on_standard_and_buttons(buttons: Seq<u16>, c: u16)
    requires
        is_standard_close(c) || buttons.contains(c),
    ensures
        closes_with(Seq::empty(), 1, buttons, c),
{
}

/// Under the standard policy a modal dialog closes on exactly OK, Cancel,
/// Yes and No, whatever its buttons carry.
pub proof fn law_standard_policy_ignores_buttons(list: Seq<u16>, buttons: Seq<u16>, c: u16)
    ensures
        closes_with(list, 0, buttons, c) == is_standard_close(c),
{
}

impl Dialog {
    pub closed spec fn spec_group(&self) -> Group {
        self.group
    }

    pub closed spec fn spec_title(&self) -> Seq<char> {
        self.title@
    }

    pub closed spec fn spec_resizable(&self) -> bool {
        self.resizable
    }

    /// The command `execute` last returned; Cancel until then.
    pub closed spec fn spec_result(&self) -> u16 {
        self.result
    }

    /// The close policy: 0 standard, 1 standard and buttons, 2 a list.
    pub closed spec fn spec_policy_kind(&self) -> int {
        match self.close_on {
            CloseOn::Standard => 0,
            CloseOn::StandardAndButtons => 1,
            CloseOn::Commands(_) => 2,
        }
    }

    /// The commands of a listed close policy.
    pub closed spec fn spec_policy_list(&self) -> Seq<u16> {
        match self.close_on {
            CloseOn::Commands(v) => v@,
            _ => Seq::empty(),
        }
    }

    /// The commands of the non-broadcast buttons added so far.
    pub closed spec fn spec_button_commands(&self) -> Seq<u16> {
        self.button_commands@
    }

    /// The button children, each with its id.
    pub closed spec fn spec_buttons(&self) -> Seq<ButtonFacts> {
        self.buttons@
    }

    pub closed spec fn spec_auto_dismiss(&self) -> Option<(Duration, u16)> {
        self.auto_dismiss
    }

    pub closed spec fn wf(&self) -> bool {
        self.group.wf()
    }

    pub open spec fn spec_modal(&self) -> bool {
        self.spec_group().spec_state() & SF_MODAL != 0
    }

    /// Whether command `c` closes this dialog while modal.
    pub open spec fn spec_closes_on(&self, c: u16) -> bool {
        closes_with(self.spec_policy_list(), self.spec_policy_kind(), self.spec_button_commands(), c)
    }

    /// A dialog in `bounds` titled `title`, closing on the standard commands
    /// and its buttons', with Cancel as its result until it runs.
    pub fn new(bounds: Rect, title: &str) -> (d: Dialog)
        ensures
            d.wf(),
            d.spec_group().spec_bounds() == bounds,
            d.spec_group().spec_children().len() == 0,
            d.spec_group().spec_state() == 0,
            d.spec_group().spec_end_state() == 0,
            d.spec_group().spec_next_id() == 1,
            d.spec_group().spec_focused() == 0,
            d.spec_title() == title@,
            !d.spec_resizable(),
            d.spec_result() == CM_CANCEL,
            d.spec_policy_kind() == 1,
            d.spec_button_commands().len() == 0,
            d.spec_buttons().len() == 0,
            d.spec_auto_dismiss() is None,
    {
        Dialog {
            group: Group::new(bounds),
            title: str_chars(title),
            resizable: false,
            result: CM_CANCEL,
            close_on: CloseOn::StandardAndButtons,
            button_commands: Vec::new(),
            buttons: Vec::new(),
            auto_dismiss: None,
        }
    }

    /// As `new`, already modal.
    pub fn new_modal(bounds: Rect, title: &str) -> (d: Box<Dialog>)
        ensures
            d.wf(),
            d.spec_group().spec_bounds() == bounds,
            d.spec_group().spec_children().len() == 0,
            d.spec_group().spec_state() == SF_MODAL,
            d.spec_group().spec_end_state() == 0,
            d.spec_title() == title@,
            d.spec_result() == CM_CANCEL,
            d.spec_policy_kind() == 1,
            d.spec_buttons().len() == 0,
    {
        let mut d = Dialog::new(bounds, title);
        let s = d.group.state();
        d.group.set_state(s | SF_MODAL);
        assert(0u16 | SF_MODAL == SF_MODAL) by (bit_vector);
        Box::new(d)
    }

    /// Choose which commands close the dialog.
    pub fn set_close_on(&mut self, policy: CloseOn)
        ensures
            final(self).spec_policy_kind() == (match policy {
                CloseOn::Standard => 0int,
                CloseOn::StandardAndButtons => 1int,
                CloseOn::Commands(_) => 2int,
            }),
            final(self).spec_policy_list() == (match policy {
                CloseOn::Commands(v) => v@,
                _ => Seq::empty(),
            }),
            final(self).spec_group() == old(self).spec_group(),
            final(self).spec_button_commands() == old(self).spec_button_commands(),
            final(self).spec_buttons() == old(self).spec_buttons(),
            final(self).spec_result() == old(self).spec_result(),
            final(self).spec_auto_dismiss() == old(self).spec_auto_dismiss(),
            final(self).spec_title() == old(self).spec_title(),
            final(self).spec_resizable() == old(self).spec_resizable(),
            final(self).wf() == old(self).wf(),
    {
        self.close_on = policy;
    }

    pub fn close_on(&self) -> (p: &CloseOn)
        ensures
            (match *p {
                CloseOn::Standard => 0int,
                CloseOn::StandardAndButtons => 1int,
                CloseOn::Commands(_) => 2int,
            }) == self.spec_policy_kind(),
            (match *p {
                CloseOn::Commands(v) => v@,
                _ => Seq::empty(),
            }) == self.spec_policy_list(),
    {
        &self.close_on
    }

    /// Whether `command` closes the dialog while modal.
    pub fn closes_on(&self, command: u16) -> (b: bool)
        ensures
            b == self.spec_closes_on(command),
    {
        let standard = command == CM_OK || command == CM_CANCEL || command == CM_YES || command == CM_NO;
        match &self.close_on {
            CloseOn::Standard => standard,
            CloseOn::StandardAndButtons => standard || contains_u16(&self.button_commands, command),
            CloseOn::Commands(list) => contains_u16(list, command),
        }
    }

    /// Close the dialog with `command` once `timeout` has passed in `execute`.
    pub fn set_auto_dismiss(&mut self, timeout: Duration, command: u16)
        ensures
            final(self).spec_auto_dismiss() == Some((timeout, command)),
            final(self).spec_group() == old(self).spec_group(),
            final(self).spec_policy_kind() == old(self).spec_policy_kind(),
            final(self).spec_policy_list() == old(self).spec_policy_list(),
            final(self).spec_button_commands() == old(self).spec_button_commands(),
            final(self).spec_buttons() == old(self).spec_buttons(),
            final(self).spec_result() == old(self).spec_result(),
            final(self).wf() == old(self).wf(),
    {
        self.auto_dismiss = Some((timeout, command));
    }

    pub fn auto_dismiss(&self) -> (a: Option<(Duration, u16)>)
        ensures
            a == self.spec_auto_dismiss(),
    {
        self.auto_dismiss
    }

    pub fn bounds(&self) -> (r: Rect)
        ensures
            r == self.spec_group().spec_bounds(),
    {
        self.group.bounds()
    }

    pub fn state(&self) -> (s: u16)
        ensures
            s == self.spec_group().spec_state(),
    {
        self.group.state()
    }

    pub fn set_state(&mut self, state: u16)
        requires
            old(self).wf(),
        ensures
            final(self).wf(),
            final(self).spec_group().spec_state() == state,
            final(self).spec_group().spec_children() == old(self).spec_group().spec_children(),
            final(self).spec_group().spec_focused() == old(self).spec_group().spec_focused(),
            final(self).spec_group().spec_end_state() == old(self).spec_group().spec_end_state(),
            final(self).spec_policy_kind() == old(self).spec_policy_kind(),
            final(self).spec_policy_list() == old(self).spec_policy_list(),
            final(self).spec_button_commands() == old(self).spec_button_commands(),
            final(self).spec_buttons() == old(self).spec_buttons(),
            final(self).spec_result() == old(self).spec_result(),
    {
        self.group.set_state(state);
    }

    /// The command the modal loop ended with; 0 while it runs.
    pub fn end_state(&self) -> (c: u16)
        ensures
            c == self.spec_group().spec_end_state(),
    {
        self.group.end_state()
    }

    /// The dialog's children.
    pub fn group(&self) -> (g: &Group)
        ensures
            *g == self.spec_group(),
    {
        &self.group
    }

    /// The dialog's children, to deliver an event to them; the rest of the
    /// dialog stays.
    pub fn group_mut(&mut self) -> (g: &mut Group)
        ensures
            *g == old(self).spec_group(),
            final(self).spec_group() == *final(g),
            final(self).spec_title() == old(self).spec_title(),
            final(self).spec_buttons() == old(self).spec_buttons(),
            final(self).spec_button_commands() == old(self).spec_button_commands(),
            final(self).spec_policy_kind() == old(self).spec_policy_kind(),
            final(self).spec_policy_list() == old(self).spec_policy_list(),
            final(self).spec_result() == old(self).spec_result(),
            final(self).spec_resizable() == old(self).spec_resizable(),
            final(self).spec_auto_dismiss() == old(self).spec_auto_dismiss(),
    {
        &mut self.group
    }

    /// Add a child that is not a button.
    pub fn add_boxed(&mut self, child: ChildInfo) -> (id: ViewId)
        requires
            old(self).wf(),
            old(self).spec_group().spec_next_id() < u16::MAX,
        ensures
            final(self).wf(),
            id.value == old(self).spec_group().spec_next_id(),
            final(self).spec_group().spec_children() == old(self).spec_group().spec_children().push(
                ChildInfo { id: id, ..child },
            ),
            final(self).spec_group().spec_focused() == old(self).spec_group().spec_focused(),
            final(self).spec_group().spec_state() == old(self).spec_group().spec_state(),
            final(self).spec_group().spec_end_state() == old(self).spec_group().spec_end_state(),
            final(self).spec_group().spec_next_id() == old(self).spec_group().spec_next_id() + 1,
            final(self).spec_group().spec_bounds() == old(self).spec_group().spec_bounds(),
            final(self).spec_title() == old(self).spec_title(),
            final(self).spec_buttons() == old(self).spec_buttons(),
            final(self).spec_button_commands() == old(self).spec_button_commands(),
            final(self).spec_policy_kind() == old(self).spec_policy_kind(),
            final(self).spec_policy_list() == old(self).spec_policy_list(),
            final(self).spec_result() == old(self).spec_result(),
    {
        self.group.add_boxed(child)
    }

    /// Add a button issuing `command`; unless it only broadcasts, its command
    /// closes the dialog under the default policy.
    pub fn add_button(&mut self, child: ChildInfo, command: u16, is_default: bool, broadcast: bool) -> (id: ViewId)
        requires
            old(self).wf(),
            old(self).spec_group().spec_next_id() < u16::MAX,
        ensures
            final(self).wf(),
            id.value == old(self).spec_group().spec_next_id(),
            final(self).spec_group().spec_children() == old(self).spec_group().spec_children().push(
                ChildInfo { id: id, ..child },
            ),
            final(self).spec_group().spec_focused() == old(self).spec_group().spec_focused(),
            final(self).spec_group().spec_state() == old(self).spec_group().spec_state(),
            final(self).spec_group().spec_end_state() == old(self).spec_group().spec_end_state(),
            final(self).spec_group().spec_next_id() == old(self).spec_group().spec_next_id() + 1,
            final(self).spec_group().spec_bounds() == old(self).spec_group().spec_bounds(),
            final(self).spec_title() == old(self).spec_title(),
            final(self).spec_buttons() == old(self).spec_buttons().push(
                ButtonFacts { id: id, command: command, is_default: is_default },
            ),
            final(self).spec_button_commands() == (if broadcast {
                old(self).spec_button_commands()
            } else {
                old(self).spec_button_commands().push(command)
            }),
            final(self).spec_policy_kind() == old(self).spec_policy_kind(),
            final(self).spec_policy_list() == old(self).spec_policy_list(),
            final(self).spec_result() == old(self).spec_result(),
    {
        let id = self.group.add_boxed(child);
        if !broadcast {
            self.button_commands.push(command);
        }
        self.buttons.push(ButtonFacts { id, command, is_default });
        id
    }

    /// Focus child `index` alone, if it takes focus.
    pub fn set_focus_to_child(&mut self, index: usize)
        requires
            old(self).wf(),
        ensures
            final(self).wf(),
            final(self).spec_buttons() == old(self).spec_buttons(),
            final(self).spec_button_commands() == old(self).spec_button_commands(),
            final(self).spec_policy_kind() == old(self).spec_policy_kind(),
            final(self).spec_policy_list() == old(self).spec_policy_list(),
            final(self).spec_group().same_frame(&old(self).spec_group()),
            index < old(self).spec_group().spec_children().len() && old(self).spec_group().spec_children()[index as int].can_focus ==> {
                &&& final(self).spec_group().spec_focused() == index
                &&& final(self).spec_group().spec_children() == crate::views::group::focus_only(old(self).spec_group().spec_children(), index as int)
            },
            !(index < old(self).spec_group().spec_children().len() && old(self).spec_group().spec_children()[index as int].can_focus) ==> {
                &&& final(self).spec_group().spec_focused() == old(self).spec_group().spec_focused()
                &&& final(self).spec_group().spec_children() == old(self).spec_group().spec_children()
            },
    {
        self.group.set_focus_to(index);
    }

    pub fn set_title(&mut self, title: &str)
        ensures
            final(self).spec_title() == title@,
            final(self).spec_group() == old(self).spec_group(),
            final(self).spec_buttons() == old(self).spec_buttons(),
            final(self).spec_button_commands() == old(self).spec_button_commands(),
            final(self).spec_policy_kind() == old(self).spec_policy_kind(),
            final(self).spec_policy_list() == old(self).spec_policy_list(),
            final(self).spec_result() == old(self).spec_result(),
            final(self).wf() == old(self).wf(),
    {
        self.title = str_chars(title);
    }

    pub fn title(&self) -> (s: String)
        ensures
            s@ == self.spec_title(),
    {
        string_from_chars(&self.title)
    }

    pub fn set_resizable(&mut self, resizable: bool)
        ensures
            final(self).spec_resizable() == resizable,
            final(self).spec_title() == old(self).spec_title(),
            final(self).spec_group() == old(self).spec_group(),
            final(self).spec_buttons() == old(self).spec_buttons(),
            final(self).spec_button_commands() == old(self).spec_button_commands(),
            final(self).spec_policy_kind() == old(self).spec_policy_kind(),
            final(self).spec_policy_list() == old(self).spec_policy_list(),
            final(self).spec_result() == old(self).spec_result(),
            final(self).wf() == old(self).wf(),
    {
        self.resizable = resizable;
    }

    pub fn is_resizable(&self) -> (b: bool)
        ensures
            b == self.spec_resizable(),
    {
        self.resizable
    }

    /// The button among the dialog's buttons with `id`.
    fn button_by_id(&self, id: ViewId) -> (r: Option<ButtonFacts>)
        ensures
            r == button_with_id(self.spec_buttons(), id, 0),
    {
        let mut k: usize = 0;
        while k < self.buttons.len()
            invariant
                k <= self.buttons@.len(),
                button_with_id(self.buttons@, id, k as int) == button_with_id(self.buttons@, id, 0),
            decreases self.buttons.len() - k,
        {
            if self.buttons[k].id == id {
                return Some(self.buttons[k]);
            }
            k = k + 1;
        }
        None
    }

    /// The command of the first default button, if it can be chosen.
    pub fn find_default_button_command(&self) -> (r: Option<u16>)
        ensures
            r == default_command_from(self.spec_group().spec_children(), self.spec_buttons(), 0),
    {
        let n = self.group.len();
        let mut i: usize = 0;
        while i < n
            invariant
                n == self.spec_group().spec_children().len(),
                i <= n,
                default_command_from(self.spec_group().spec_children(), self.spec_buttons(), i as int)
                    == default_command_from(self.spec_group().spec_children(), self.spec_buttons(), 0),
            decreases n - i,
        {
            let c = *self.group.child_at(i);
            match self.button_by_id(c.id) {
                Some(b) => {
                    if b.is_default {
                        if c.can_focus && c.state & SF_DISABLED == 0 {
                            return Some(b.command);
                        } else {
                            return None;
                        }
                    }
                },
                None => {},
            }
            i = i + 1;
        }
        None
    }

    /// Whether the focused child is a button and has the focus flag.
    pub open spec fn spec_focused_is_button(&self) -> bool {
        let g = self.spec_group();
        &&& g.spec_focused() < g.spec_children().len()
        &&& g.spec_children()[g.spec_focused()].state & SF_FOCUSED != 0
        &&& button_with_id(self.spec_buttons(), g.spec_children()[g.spec_focused()].id, 0) is Some
    }

    fn focused_child_is_button(&self) -> (b: bool)
        ensures
            b == self.spec_focused_is_button(),
    {
        match self.group.focused_child() {
            Some(c) => c.state & SF_FOCUSED != 0 && self.button_by_id(c.id).is_some(),
            None => false,
        }
    }

    /// The dialog's part of event handling, after its children had the event.
    ///
    /// While modal: Esc-Esc becomes a Cancel command and Enter, unless a
    /// focused button has it, the default button's command (if one can be
    /// chosen), both to go round again. A command the dialog closes on ends
    /// the modal loop with it and is cleared; OK and Yes ask the histories
    /// to record first. The history and drop-down commands are left for the
    /// modal loop. A non-modal dialog leaves every event alone.
    pub fn handle_event(&mut self, event: &mut Event) -> (reply: DialogReply)
        requires
            old(self).wf(),
        ensures
            final(self).wf(),
            final(self).spec_buttons() == old(self).spec_buttons(),
            final(self).spec_button_commands() == old(self).spec_button_commands(),
            final(self).spec_policy_kind() == old(self).spec_policy_kind(),
            final(self).spec_policy_list() == old(self).spec_policy_list(),
            final(self).spec_group().spec_children() == old(self).spec_group().spec_children(),
            final(self).spec_group().spec_focused() == old(self).spec_group().spec_focused(),
            final(self).spec_group().spec_state() == old(self).spec_group().spec_state(),
            ({
                let e = *old(event);
                let modal = old(self).spec_modal();
                let d = default_command_from(old(self).spec_group().spec_children(), old(self).spec_buttons(), 0);
                if modal && e.what == EventType::Keyboard && e.key_code == KB_ESC_ESC {
                    &&& reply == DialogReply::Reprocess
                    &&& *final(event) == spec_command(CM_CANCEL)
                    &&& final(self).spec_group().spec_end_state() == old(self).spec_group().spec_end_state()
                } else if modal && e.what == EventType::Keyboard && e.key_code == KB_ENTER && !old(self).spec_focused_is_button() && d is Some {
                    &&& reply == DialogReply::Reprocess
                    &&& *final(event) == spec_command(d->0)
                    &&& final(self).spec_group().spec_end_state() == old(self).spec_group().spec_end_state()
                } else if modal && e.what == EventType::Command && old(self).spec_closes_on(e.command)
                    && e.command != CM_SHOW_HISTORY && e.command != CM_SHOW_DROPDOWN {
                    &&& reply == (DialogReply::Closed { record: e.command == CM_OK || e.command == CM_YES })
                    &&& *final(event) == (Event { what: EventType::Nothing, ..e })
                    &&& final(self).spec_group().spec_end_state() == e.command
                } else {
                    &&& reply == DialogReply::Done
                    &&& *final(event) == e
                    &&& final(self).spec_group().spec_end_state() == old(self).spec_group().spec_end_state()
                }
            }),
    {
        let modal = self.group.state() & SF_MODAL != 0;
        if event.what == EventType::Keyboard && modal {
            if event.key_code == KB_ESC_ESC {
                *event = Event::command(CM_CANCEL);
                return DialogReply::Reprocess;
            }
            if event.key_code == KB_ENTER {
                if !self.focused_child_is_button() {
                    match self.find_default_button_command() {
                        Some(c) => {
                            *event = Event::command(c);
                            return DialogReply::Reprocess;
                        },
                        None => {},
                    }
                }
                return DialogReply::Done;
            }
        }
        if event.what == EventType::Command && modal {
            let c = event.command;
            if c != CM_SHOW_HISTORY && c != CM_SHOW_DROPDOWN && self.closes_on(c) {
                self.group.end_modal(c);
                event.clear();
                return DialogReply::Closed { record: c == CM_OK || c == CM_YES };
            }
        }
        DialogReply::Done
    }

    /// Make the dialog modal before its loop runs: the result starts as
    /// Cancel, the modal flag is set and the first child that takes focus
    /// gets it.
    pub fn prepare_modal(&mut self)
        requires
            old(self).wf(),
        ensures
            final(self).wf(),
            final(self).spec_result() == CM_CANCEL,
            final(self).spec_group().spec_state() == old(self).spec_group().spec_state() | SF_MODAL,
            final(self).spec_buttons() == old(self).spec_buttons(),
            final(self).spec_button_commands() == old(self).spec_button_commands(),
            final(self).spec_policy_kind() == old(self).spec_policy_kind(),
            final(self).spec_policy_list() == old(self).spec_policy_list(),
            final(self).spec_group().spec_children().len() == old(self).spec_group().spec_children().len(),
    {
        self.result = CM_CANCEL;
        let s = self.group.state();
        self.group.set_state(s | SF_MODAL);
        self.group.set_initial_focus();
    }

    /// Record the command the modal loop ended with as the dialog's result.
    pub fn finish_modal(&mut self, command: u16)
        ensures
            final(self).spec_result() == command,
            final(self).spec_group() == old(self).spec_group(),
            final(self).spec_buttons() == old(self).spec_buttons(),
            final(self).wf() == old(self).wf(),
    {
        self.result = command;
    }

    pub fn result(&self) -> (c: u16)
        ensures
            c == self.spec_result(),
    {
        self.result
    }

    /// The children to ask before `command` goes ahead; none for Cancel and
    /// No, which always may.
    pub fn valid_plan(&self, command: u16) -> (plan: Vec<usize>)
        requires
            self.wf(),
        ensures
            command == CM_CANCEL || command == CM_NO ==> plan@.len() == 0,
            !(command == CM_CANCEL || command == CM_NO) ==> plan@ == ({
                let s = self.spec_group().spec_children();
                let f = self.spec_group().spec_focused();
                if command == crate::command::CM_RELEASED_FOCUS {
                    if f < s.len() && s[f].options & crate::state::OF_VALIDATE != 0 {
                        seq![f as usize]
                    } else {
                        Seq::empty()
                    }
                } else {
                    crate::views::group::all_but(s.len() as int, None)
                }
            }),
    {
        if command == CM_CANCEL || command == CM_NO {
            Vec::new()
        } else {
            self.group.validation_plan(command)
        }
    }
}


/// Builder for dialogs; bounds and title must be given.
pub struct DialogBuilder {
    bounds: Option<Rect>,
    title: Option<Vec<char>>,
    modal: bool,
    resizable: bool,
    close_on: CloseOn,
}

impl DialogBuilder {
    pub closed spec fn spec_bounds(&self) -> Option<Rect> {
        self.bounds
    }

    pub closed spec fn spec_title(&self) -> Option<Seq<char>> {
        match self.title {
            Some(t) => Some(t@),
            None => None,
        }
    }

    pub closed spec fn spec_modal(&self) -> bool {
        self.modal
    }

    pub closed spec fn spec_resizable(&self) -> bool {
        self.resizable
    }

    pub closed spec fn spec_policy_kind(&self) -> int {
        match self.close_on {
            CloseOn::Standard => 0,
            CloseOn::StandardAndButtons => 1,
            CloseOn::Commands(_) => 2,
        }
    }

    pub closed spec fn spec_policy_list(&self) -> Seq<u16> {
        match self.close_on {
            CloseOn::Commands(v) => v@,
            _ => Seq::empty(),
        }
    }

    pub fn new() -> (b: Self)
        ensures
            b.spec_bounds() is None,
            b.spec_title() is None,
            !b.spec_modal(),
            !b.spec_resizable(),
            b.spec_policy_kind() == 1,
    {
        DialogBuilder { bounds: None, title: None, modal: false, resizable: false, close_on: CloseOn::StandardAndButtons }
    }

    pub fn close_on(self, policy: CloseOn) -> (b: Self)
        ensures
            b.spec_policy_kind() == (match policy {
                CloseOn::Standard => 0int,
                CloseOn::StandardAndButtons => 1int,
                CloseOn::Commands(_) => 2int,
            }),
            b.spec_policy_list() == (match policy {
                CloseOn::Commands(v) => v@,
                _ => Seq::empty(),
            }),
            b.spec_bounds() == self.spec_bounds(),
            b.spec_title() == self.spec_title(),
            b.spec_modal() == self.spec_modal(),
            b.spec_resizable() == self.spec_resizable(),
    {
        DialogBuilder { close_on: policy, ..self }
    }

    pub fn bounds(self, bounds: Rect) -> (b: Self)
        ensures
            b.spec_bounds() == Some(bounds),
            b.spec_title() == self.spec_title(),
            b.spec_modal() == self.spec_modal(),
            b.spec_resizable() == self.spec_resizable(),
            b.spec_policy_kind() == self.spec_policy_kind(),
            b.spec_policy_list() == self.spec_policy_list(),
    {
        DialogBuilder { bounds: Some(bounds), ..self }
    }

    pub fn title(self, title: &str) -> (b: Self)
        ensures
            b.spec_title() == Some(title@),
            b.spec_bounds() == self.spec_bounds(),
            b.spec_modal() == self.spec_modal(),
            b.spec_resizable() == self.spec_resizable(),
            b.spec_policy_kind() == self.spec_policy_kind(),
            b.spec_policy_list() == self.spec_policy_list(),
    {
        DialogBuilder { title: Some(str_chars(title)), ..self }
    }

    pub fn modal(self, modal: bool) -> (b: Self)
        ensures
            b.spec_modal() == modal,
            b.spec_bounds() == self.spec_bounds(),
            b.spec_title() == self.spec_title(),
            b.spec_resizable() == self.spec_resizable(),
            b.spec_policy_kind() == self.spec_policy_kind(),
            b.spec_policy_list() == self.spec_policy_list(),
    {
        DialogBuilder { modal, ..self }
    }

    pub fn resizable(self, resizable: bool) -> (b: Self)
        ensures
            b.spec_resizable() == resizable,
            b.spec_bounds() == self.spec_bounds(),
            b.spec_title() == self.spec_title(),
            b.spec_modal() == self.spec_modal(),
            b.spec_policy_kind() == self.spec_policy_kind(),
            b.spec_policy_list() == self.spec_policy_list(),
    {
        DialogBuilder { resizable, ..self }
    }

    /// The dialog; bounds and title must have been given.
    pub fn build(self) -> (d: Dialog)
        requires
            self.spec_bounds() is Some,
            self.spec_title() is Some,
        ensures
            d.wf(),
            d.spec_group().spec_bounds() == self.spec_bounds()->0,
            d.spec_title() == self.spec_title()->0,
            d.spec_resizable() == self.spec_resizable(),
            d.spec_modal() == self.spec_modal(),
            d.spec_policy_kind() == self.spec_policy_kind(),
            d.spec_policy_list() == self.spec_policy_list(),
            d.spec_group().spec_children().len() == 0,
            d.spec_group().spec_end_state() == 0,
            d.spec_result() == CM_CANCEL,
    {
        let bounds = self.bounds.unwrap();
        let title = self.title.unwrap();
        let state: u16 = if self.modal { SF_MODAL } else { 0 };
        let mut group = Group::new(bounds);
        group.set_state(state);
        assert(SF_MODAL & SF_MODAL != 0 && 0u16 & SF_MODAL == 0) by (bit_vector);
        Dialog {
            group,
            title,
            resizable: self.resizable,
            result: CM_CANCEL,
            close_on: self.close_on,
            button_commands: Vec::new(),
            buttons: Vec::new(),
            auto_dismiss: None,
        }
    }

    pub fn build_boxed(self) -> (d: Box<Dialog>)
        requires
            self.spec_bounds() is Some,
            self.spec_title() is Some,
        ensures
            d.wf(),
            d.spec_group().spec_bounds() == self.spec_bounds()->0,
            d.spec_title() == self.spec_title()->0,
            d.spec_resizable() == self.spec_resizable(),
            d.spec_modal() == self.spec_modal(),
            d.spec_policy_kind() == self.spec_policy_kind(),
            d.spec_policy_list() == self.spec_policy_list(),
            d.spec_group().spec_children().len() == 0,
            d.spec_group().spec_end_state() == 0,
            d.spec_result() == CM_CANCEL,
    {
        Box::new(self.build())
    }
}

/// Whether `v` holds `x`.
pub fn contains_u16(v: &Vec<u16>, x: u16) -> (b: bool)
    ensures
        b == v@.contains(x),
{
    let mut i: usize = 0;
    while i < v.len()
        invariant
            i <= v@.len(),
            forall|j: int| 0 <= j < i ==> v@[j] != x,
        decreases v.len() - i,
    {
        if v[i] == x {
            assert(v@[i as int] == x);
            return true;
        }
        i = i + 1;
    }
    false
}

} // verus!
