//! View state, option and grow-mode flags.
use vstd::prelude::*;

verus! {

pub const SF_VISIBLE: u16 = 0x001;
pub const SF_CURSOR_VIS: u16 = 0x002;
pub const SF_CURSOR_INS: u16 = 0x004;
pub const SF_SHADOW: u16 = 0x008;
pub const SF_ACTIVE: u16 = 0x010;
pub const SF_SELECTED: u16 = 0x020;
pub const SF_FOCUSED: u16 = 0x040;
pub const SF_DRAGGING: u16 = 0x080;
pub const SF_DISABLED: u16 = 0x100;
pub const SF_MODAL: u16 = 0x200;
pub const SF_DEFAULT: u16 = 0x400;
pub const SF_EXPOSED: u16 = 0x800;
pub const SF_RESIZING: u16 = 0x1000;
/// Set by a window that asked to be closed; its owner removes it.
pub const SF_CLOSED: u16 = 0x2000;

pub const OF_SELECTABLE: u16 = 0x001;
pub const OF_TOP_SELECT: u16 = 0x002;
pub const OF_FIRST_CLICK: u16 = 0x004;
pub const OF_FRAMED: u16 = 0x008;
pub const OF_PRE_PROCESS: u16 = 0x010;
pub const OF_POST_PROCESS: u16 = 0x020;
pub const OF_CENTER_X: u16 = 0x100;
pub const OF_CENTER_Y: u16 = 0x200;
pub const OF_CENTERED: u16 = 0x300;
pub const OF_VALIDATE: u16 = 0x400;

pub const GF_GROW_LO_X: u8 = 0x01;
pub const GF_GROW_LO_Y: u8 = 0x02;
pub const GF_GROW_HI_X: u8 = 0x04;
pub const GF_GROW_HI_Y: u8 = 0x08;

/// Whether every bit of `flag` is set in `state`.
pub open spec fn has_flag(state: u16, flag: u16) -> bool {
    state & flag == flag
}

/// `state` with the bits of `flag` set or cleared.
pub open spec fn with_flag(state: u16, flag: u16, on: bool) -> u16 {
    if on { state | flag } else { state & !flag }
}

pub fn flag_set(state: u16, flag: u16) -> (b: bool)
    ensures
        b == has_flag(state, flag),
{
    state & flag == flag
}

pub fn set_flag(state: u16, flag: u16, on: bool) -> (s: u16)
    ensures
        s == with_flag(state, flag, on),
{
    if on { state | flag } else { state & !flag }
}

/// Setting a flag makes it read back set, clearing makes it read back clear.
pub proof fn law_flag_reads_back(state: u16, flag: u16, on: bool)
    requires
        flag != 0,
    ensures
        has_flag(with_flag(state, flag, on), flag) == on,
{
    if on {
        assert((state | flag) & flag == flag) by (bit_vector);
    } else {
        assert(flag != 0 ==> (state & !flag) & flag != flag) by (bit_vector);
    }
}

} // verus!
