//! The integer side of input-event translation: Android's meta-state bits,
//! motion actions, tool types and button bits mapped to a structured,
//! platform-independent description.
use vstd::prelude::*;

verus! {

pub const META_SHIFT_ON: u32 = 0x1;
pub const META_ALT_ON: u32 = 0x2;
pub const META_SYM_ON: u32 = 0x4;
pub const META_FUNCTION_ON: u32 = 0x8;
pub const META_CTRL_ON: u32 = 0x1000;
pub const META_META_ON: u32 = 0x10000;
pub const META_CAPS_LOCK_ON: u32 = 0x100000;
pub const META_NUM_LOCK_ON: u32 = 0x200000;
pub const META_SCROLL_LOCK_ON: u32 = 0x400000;

pub const ACTION_DOWN: i32 = 0;
pub const ACTION_UP: i32 = 1;
pub const ACTION_MOVE: i32 = 2;
pub const ACTION_CANCEL: i32 = 3;
pub const ACTION_POINTER_DOWN: i32 = 5;
pub const ACTION_POINTER_UP: i32 = 6;
pub const ACTION_HOVER_MOVE: i32 = 7;
pub const ACTION_SCROLL: i32 = 8;
pub const ACTION_HOVER_ENTER: i32 = 9;
pub const ACTION_HOVER_EXIT: i32 = 10;

pub const TOOL_TYPE_FINGER: i32 = 1;
pub const TOOL_TYPE_STYLUS: i32 = 2;
pub const TOOL_TYPE_MOUSE: i32 = 3;
pub const TOOL_TYPE_ERASER: i32 = 4;
pub const TOOL_TYPE_PALM: i32 = 5;

pub const BUTTON_PRIMARY: i32 = 0x1;
pub const BUTTON_SECONDARY: i32 = 0x2;
pub const BUTTON_TERTIARY: i32 = 0x4;
pub const BUTTON_BACK: i32 = 0x8;
pub const BUTTON_FORWARD: i32 = 0x10;
pub const BUTTON_STYLUS_PRIMARY: i32 = 0x20;
pub const BUTTON_STYLUS_SECONDARY: i32 = 0x40;

/// The modifier keys and locks in effect.
#[derive(Clone, Copy, Debug, PartialEq, Eq, Structural)]
pub struct Modifiers {
    pub shift: bool,
    pub alt: bool,
    pub ctrl: bool,
    pub meta: bool,
    pub caps_lock: bool,
    pub num_lock: bool,
    pub scroll_lock: bool,
    pub fn_key: bool,
    pub symbol: bool,
}

/// The modifiers that a platform meta-state bit mask says are on.
pub fn meta_state_to_modifiers(meta_state: u32) -> (r: Modifiers)
    ensures
        r.shift == (meta_state & META_SHIFT_ON != 0),
        r.alt == (meta_state & META_ALT_ON != 0),
        r.ctrl == (meta_state & META_CTRL_ON != 0),
        r.meta == (meta_state & META_META_ON != 0),
        r.caps_lock == (meta_state & META_CAPS_LOCK_ON != 0),
        r.num_lock == (meta_state & META_NUM_LOCK_ON != 0),
        r.scroll_lock == (meta_state & META_SCROLL_LOCK_ON != 0),
        r.fn_key == (meta_state & META_FUNCTION_ON != 0),
        r.symbol == (meta_state & META_SYM_ON != 0),
{
    Modifiers {
        shift: meta_state & META_SHIFT_ON != 0,
        alt: meta_state & META_ALT_ON != 0,
        ctrl: meta_state & META_CTRL_ON != 0,
        meta: meta_state & META_META_ON != 0,
        caps_lock: meta_state & META_CAPS_LOCK_ON != 0,
        num_lock: meta_state & META_NUM_LOCK_ON != 0,
        scroll_lock: meta_state & META_SCROLL_LOCK_ON != 0,
        fn_key: meta_state & META_FUNCTION_ON != 0,
        symbol: meta_state & META_SYM_ON != 0,
    }
}

/// The kind of pointer event that a motion action becomes.
#[derive(Clone, Copy, Debug, PartialEq, Eq, Structural)]
pub enum PointerKind {
    Down,
    Up,
    Move,
    Cancel,
    Enter,
    Leave,
    Scroll,
}

/// The pointer event kind of a masked motion action; none for the actions
/// that have no pointer meaning (outside touches, gamepad buttons).
pub fn pointer_kind(action_masked: i32) -> (r: Option<PointerKind>)
    ensures
        r == (if action_masked == ACTION_DOWN || action_masked == ACTION_POINTER_DOWN {
            Some(PointerKind::Down)
        } else if action_masked == ACTION_UP || action_masked == ACTION_POINTER_UP {
            Some(PointerKind::Up)
        } else if action_masked == ACTION_MOVE || action_masked == ACTION_HOVER_MOVE {
            Some(PointerKind::Move)
        } else if action_masked == ACTION_CANCEL {
            Some(PointerKind::Cancel)
        } else if action_masked == ACTION_HOVER_ENTER {
            Some(PointerKind::Enter)
        } else if action_masked == ACTION_HOVER_EXIT {
            Some(PointerKind::Leave)
        } else if action_masked == ACTION_SCROLL {
            Some(PointerKind::Scroll)
        } else {
            None
        }),
{
    if action_masked == ACTION_DOWN || action_masked == ACTION_POINTER_DOWN {
        Some(PointerKind::Down)
    } else if action_masked == ACTION_UP || action_masked == ACTION_POINTER_UP {
        Some(PointerKind::Up)
    } else if action_masked == ACTION_MOVE || action_masked == ACTION_HOVER_MOVE {
        Some(PointerKind::Move)
    } else if action_masked == ACTION_CANCEL {
        Some(PointerKind::Cancel)
    } else if action_masked == ACTION_HOVER_ENTER {
        Some(PointerKind::Enter)
    } else if action_masked == ACTION_HOVER_EXIT {
        Some(PointerKind::Leave)
    } else if action_masked == ACTION_SCROLL {
        Some(PointerKind::Scroll)
    } else {
        None
    }
}

/// What kind of device a pointer is.
#[derive(Clone, Copy, Debug, PartialEq, Eq, Structural)]
pub enum PointerType {
    Mouse,
    Touch,
    Pen,
    Unknown,
}

/// The pointer type of a tool type; none for a palm, which is rejected.
pub fn pointer_type(tool_type: i32) -> (r: Option<PointerType>)
    ensures
        r == (if tool_type == TOOL_TYPE_PALM {
            None
        } else if tool_type == TOOL_TYPE_MOUSE {
            Some(PointerType::Mouse)
        } else if tool_type == TOOL_TYPE_FINGER {
            Some(PointerType::Touch)
        } else if tool_type == TOOL_TYPE_STYLUS || tool_type == TOOL_TYPE_ERASER {
            Some(PointerType::Pen)
        } else {
            Some(PointerType::Unknown)
        }),
{
    if tool_type == TOOL_TYPE_PALM {
        None
    } else if tool_type == TOOL_TYPE_MOUSE {
        Some(PointerType::Mouse)
    } else if tool_type == TOOL_TYPE_FINGER {
        Some(PointerType::Touch)
    } else if tool_type == TOOL_TYPE_STYLUS || tool_type == TOOL_TYPE_ERASER {
        Some(PointerType::Pen)
    } else {
        Some(PointerType::Unknown)
    }
}

/// The pointer id of a platform pointer id: shifted up by one so that none
/// is zero; none for a negative id.
pub fn pointer_id(raw: i32) -> (r: Option<u64>)
    ensures
        raw < 0 ==> r is None,
        raw >= 0 ==> r == Some((raw + 1) as u64),
{
    if raw < 0 {
        None
    } else {
        Some(raw as u64 + 1)
    }
}

/// One pointer button.
#[derive(Clone, Copy, Debug, PartialEq, Eq, Structural)]
pub enum PointerButton {
    Primary,
    Secondary,
    Auxiliary,
    X1,
    X2,
    PenEraser,
}

/// The set of pressed pointer buttons.
#[derive(Clone, Copy, Debug, PartialEq, Eq, Structural)]
pub struct PointerButtons {
    pub primary: bool,
    pub secondary: bool,
    pub auxiliary: bool,
    pub x1: bool,
    pub x2: bool,
    pub pen_eraser: bool,
}

/// The buttons that a platform button state holds. The stylus's primary
/// button is the eraser button on an eraser tool; an eraser pressed down
/// (`eraser_pressed`: positive pressure) counts as the eraser button too.
pub fn pointer_buttons(button_state: i32, tool_type: i32, eraser_pressed: bool) -> (r:
    PointerButtons)
    ensures
        r.primary == (button_state & BUTTON_PRIMARY != 0 || (button_state & BUTTON_STYLUS_PRIMARY
            != 0 && tool_type != TOOL_TYPE_ERASER)),
        r.pen_eraser == (tool_type == TOOL_TYPE_ERASER && (button_state & BUTTON_STYLUS_PRIMARY
            != 0 || eraser_pressed)),
        r.secondary == (button_state & BUTTON_SECONDARY != 0 || button_state
            & BUTTON_STYLUS_SECONDARY != 0),
        r.auxiliary == (button_state & BUTTON_TERTIARY != 0),
        r.x1 == (button_state & BUTTON_BACK != 0),
        r.x2 == (button_state & BUTTON_FORWARD != 0),
{
    let eraser = tool_type == TOOL_TYPE_ERASER;
    let stylus_primary = button_state & BUTTON_STYLUS_PRIMARY != 0;
    PointerButtons {
        primary: button_state & BUTTON_PRIMARY != 0 || (stylus_primary && !eraser),
        secondary: button_state & BUTTON_SECONDARY != 0 || button_state & BUTTON_STYLUS_SECONDARY
            != 0,
        auxiliary: button_state & BUTTON_TERTIARY != 0,
        x1: button_state & BUTTON_BACK != 0,
        x2: button_state & BUTTON_FORWARD != 0,
        pen_eraser: eraser && (stylus_primary || eraser_pressed),
    }
}

/// The button that changed state in a press or release; for an eraser with
/// no known button, the eraser button.
pub fn action_button(button: i32, tool_type: i32) -> (r: Option<PointerButton>)
    ensures
        r == (if button == BUTTON_PRIMARY || button == BUTTON_STYLUS_PRIMARY {
            Some(PointerButton::Primary)
        } else if button == BUTTON_SECONDARY || button == BUTTON_STYLUS_SECONDARY {
            Some(PointerButton::Secondary)
        } else if button == BUTTON_TERTIARY {
            Some(PointerButton::Auxiliary)
        } else if button == BUTTON_BACK {
            Some(PointerButton::X1)
        } else if button == BUTTON_FORWARD {
            Some(PointerButton::X2)
        } else if tool_type == TOOL_TYPE_ERASER {
            Some(PointerButton::PenEraser)
        } else {
            None
        }),
{
    if button == BUTTON_PRIMARY || button == BUTTON_STYLUS_PRIMARY {
        Some(PointerButton::Primary)
    } else if button == BUTTON_SECONDARY || button == BUTTON_STYLUS_SECONDARY {
        Some(PointerButton::Secondary)
    } else if button == BUTTON_TERTIARY {
        Some(PointerButton::Auxiliary)
    } else if button == BUTTON_BACK {
        Some(PointerButton::X1)
    } else if button == BUTTON_FORWARD {
        Some(PointerButton::X2)
    } else if tool_type == TOOL_TYPE_ERASER {
        Some(PointerButton::PenEraser)
    } else {
        None
    }
}

} // verus!
