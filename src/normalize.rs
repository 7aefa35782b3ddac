//! Turning events of the capture source into protocol events.
use crate::protocol::InputEventType;
use vstd::prelude::*;

verus! {

/// An event as the capture source reports it, with pointer deltas and
/// scroll amounts already in whole units.
#[derive(Debug, Clone, Copy, PartialEq, Eq, Structural)]
pub enum RawEvent {
    /// A key changed state; `key` is a Linux key code.
    Key { key: u32, pressed: bool },
    /// Relative pointer motion.
    PointerMotion { dx: i32, dy: i32 },
    /// A pointer button changed state; `button` is a Linux button code.
    PointerButton { button: u32, pressed: bool },
    /// Scrolling, in the source's sign convention.
    PointerScroll { horizontal: i32, vertical: i32 },
    /// Anything else the source reports.
    Other,
}

/// Linux code of the primary (left) pointer button.
pub const BTN_LEFT: u32 = 0x110;

/// Linux code of the secondary (right) pointer button.
pub const BTN_RIGHT: u32 = 0x111;

/// Linux code of the middle pointer button.
pub const BTN_MIDDLE: u32 = 0x112;

/// The canonical button number of a raw button code: 1 primary, 2 secondary,
/// 3 middle; other buttons have none.
pub open spec fn canonical_button(raw: u32) -> Option<u8> {
    if raw == BTN_LEFT {
        Some(1u8)
    } else if raw == BTN_RIGHT {
        Some(2u8)
    } else if raw == BTN_MIDDLE {
        Some(3u8)
    } else {
        None
    }
}

/// The sign-inverted value; the one value without a negation saturates.
pub open spec fn inverted(v: i32) -> i32 {
    if v == i32::MIN {
        i32::MAX
    } else {
        (-v) as i32
    }
}

/// The protocol event that a raw event becomes, if any.
pub open spec fn normalized(e: RawEvent) -> Option<InputEventType> {
    match e {
        RawEvent::Key { key, pressed } => Some(
            if pressed {
                InputEventType::KeyPress { key_code: key as u16 }
            } else {
                InputEventType::KeyRelease { key_code: key as u16 }
            },
        ),
        RawEvent::PointerMotion { dx, dy } => if dx != 0 || dy != 0 {
            Some(InputEventType::MouseMove { x: dx, y: dy })
        } else {
            None
        },
        RawEvent::PointerButton { button, pressed } => match canonical_button(button) {
            Some(b) => Some(InputEventType::MouseButton { button: b, pressed }),
            None => None,
        },
        RawEvent::PointerScroll { horizontal, vertical } => if horizontal != 0 || vertical != 0 {
            Some(InputEventType::MouseScroll { dx: horizontal, dy: inverted(vertical) })
        } else {
            None
        },
        RawEvent::Other => None,
    }
}

/// The canonical button number of a raw button code.
pub fn button_number(raw: u32) -> (r: Option<u8>)
    ensures
        r == canonical_button(raw),
{
    if raw == BTN_LEFT {
        Some(1)
    } else if raw == BTN_RIGHT {
        Some(2)
    } else if raw == BTN_MIDDLE {
        Some(3)
    } else {
        None
    }
}

/// Negation that saturates at `i32::MAX`.
pub fn invert(v: i32) -> (r: i32)
    ensures
        r == inverted(v),
{
    if v == i32::MIN {
        i32::MAX
    } else {
        -v
    }
}

/// The protocol event for a raw event. Key codes pass through; motion and
/// scrolling of zero in both axes, unknown buttons and other kinds of event
/// give nothing; the vertical scroll direction is inverted.
pub fn normalize(e: &RawEvent) -> (r: Option<InputEventType>)
    ensures
        r == normalized(*e),
{
    match *e {
        RawEvent::Key { key, pressed } => {
            let key_code = key as u16;
            if pressed {
                Some(InputEventType::KeyPress { key_code })
            } else {
                Some(InputEventType::KeyRelease { key_code })
            }
        },
        RawEvent::PointerMotion { dx, dy } => {
            if dx != 0 || dy != 0 {
                Some(InputEventType::MouseMove { x: dx, y: dy })
            } else {
                None
            }
        },
        RawEvent::PointerButton { button, pressed } => match button_number(button) {
            Some(b) => Some(InputEventType::MouseButton { button: b, pressed }),
            None => None,
        },
        RawEvent::PointerScroll { horizontal, vertical } => {
            if horizontal != 0 || vertical != 0 {
                Some(InputEventType::MouseScroll { dx: horizontal, dy: invert(vertical) })
            } else {
                None
            }
        },
        RawEvent::Other => None,
    }
}

} // verus!
