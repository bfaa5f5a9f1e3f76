//! Command identifiers and the set of enabled commands.
use vstd::prelude::*;

verus! {

pub type CommandId = u16;

pub const CM_VALID: u16 = 0;
pub const CM_QUIT: u16 = 1;
pub const CM_ERROR: u16 = 2;
pub const CM_MENU: u16 = 3;
pub const CM_CLOSE: u16 = 4;
pub const CM_ZOOM: u16 = 5;
pub const CM_RESIZE: u16 = 6;
pub const CM_NEXT: u16 = 7;
pub const CM_PREV: u16 = 8;
pub const CM_HELP: u16 = 9;
pub const CM_OK: u16 = 10;
pub const CM_CANCEL: u16 = 11;
pub const CM_YES: u16 = 12;
pub const CM_NO: u16 = 13;
pub const CM_DEFAULT: u16 = 14;
pub const CM_RELEASED_FOCUS: u16 = 51;
pub const CM_COMMAND_SET_CHANGED: u16 = 52;
pub const CM_FOCUS_LINK: u16 = 58;
pub const CM_RECORD_HISTORY: u16 = 60;
pub const CM_FILE_FOCUSED: u16 = 102;
pub const CM_FILE_DOUBLE_CLICKED: u16 = 103;
pub const CM_SHOW_HISTORY: u16 = 110;
pub const CM_SHOW_DROPDOWN: u16 = 111;

/// Which commands are currently disabled, one flag per command id up to the
/// largest id ever disabled; every other command is enabled.
pub struct CommandSet {
    disabled: Vec<bool>,
}

impl CommandSet {
    pub closed spec fn spec_enabled(&self, cmd: u16) -> bool {
        !(cmd < self.disabled@.len() && self.disabled@[cmd as int])
    }

    /// A set with every command enabled.
    pub fn new() -> (s: CommandSet)
        ensures
            forall|c: u16| s.spec_enabled(c),
    {
        CommandSet { disabled: Vec::new() }
    }

    pub fn command_enabled(&self, cmd: u16) -> (b: bool)
        ensures
            b == self.spec_enabled(cmd),
    {
        let i = cmd as usize;
        !(i < self.disabled.len() && self.disabled[i])
    }

    fn set_disabled(&mut self, cmd: u16, off: bool)
        ensures
            final(self).spec_enabled(cmd) == !off,
            forall|c: u16| c != cmd ==> final(self).spec_enabled(c) == old(self).spec_enabled(c),
    {
        let i = cmd as usize;
        while self.disabled.len() <= i
            invariant
                self.disabled@.len() >= old(self).disabled@.len(),
                forall|k: int|
                    0 <= k < self.disabled@.len() ==> #[trigger] self.disabled@[k] == (k < old(
                        self,
                    ).disabled@.len() && old(self).disabled@[k]),
            decreases i + 1 - self.disabled.len(),
        {
            self.disabled.push(false);
        }
        self.disabled.set(i, off);
        assert forall|c: u16| c != cmd implies final(self).spec_enabled(c) == old(self).spec_enabled(c) by {
            if (c as int) < self.disabled@.len() {
                assert(self.disabled@[c as int] == ((c as int) < old(self).disabled@.len() && old(self).disabled@[c as int]));
            }
        }
    }

    pub fn disable_command(&mut self, cmd: u16)
        ensures
            !final(self).spec_enabled(cmd),
            forall|c: u16| c != cmd ==> final(self).spec_enabled(c) == old(self).spec_enabled(c),
    {
        self.set_disabled(cmd, true);
    }

    pub fn enable_command(&mut self, cmd: u16)
        ensures
            final(self).spec_enabled(cmd),
            forall|c: u16| c != cmd ==> final(self).spec_enabled(c) == old(self).spec_enabled(c),
    {
        self.set_disabled(cmd, false);
    }
}

} // verus!
