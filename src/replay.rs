//! The replay plan: what the injection sink does for each received event.
use crate::protocol::{InputEvent, InputEventModel, InputEventType, Message, MessageModel, Packet};
use crate::text::same_text;
use vstd::prelude::*;

verus! {

/// A key the injection sink can press, in its own terms.
#[derive(Debug, Clone, Copy, PartialEq, Eq, Structural)]
pub enum ReplayKey {
    Char(char),
    Space,
    Return,
    Escape,
    Backspace,
    Tab,
    Shift,
    Control,
    Alt,
    UpArrow,
    DownArrow,
    LeftArrow,
    RightArrow,
    F1,
    F2,
    F3,
    F4,
    F5,
    F6,
    F7,
    F8,
    F9,
    F10,
    F11,
    F12,
}

/// A pointer button of the injection sink.
#[derive(Debug, Clone, Copy, PartialEq, Eq, Structural)]
pub enum ReplayButton {
    Left,
    Right,
    Middle,
}

/// A scroll axis of the injection sink.
#[derive(Debug, Clone, Copy, PartialEq, Eq, Structural)]
pub enum ScrollAxis {
    Horizontal,
    Vertical,
}

/// One synthetic input action.
#[derive(Debug, Clone, Copy, PartialEq, Eq, Structural)]
pub enum ReplayAction {
    /// Press (`true`) or release a key.
    Key { key: ReplayKey, press: bool },
    /// Move the pointer by a relative amount.
    MoveBy { dx: i32, dy: i32 },
    /// Press (`true`) or release a pointer button.
    Button { button: ReplayButton, press: bool },
    /// Scroll by an amount along an axis.
    Scroll { amount: i32, axis: ScrollAxis },
}

/// The key for a Linux key code, from a closed table; other codes have none.
pub open spec fn key_for_code(code: u16) -> Option<ReplayKey> {
    if code == 30 {
        Some(ReplayKey::Char('a'))
    } else if code == 48 {
        Some(ReplayKey::Char('b'))
    } else if code == 46 {
        Some(ReplayKey::Char('c'))
    } else if code == 32 {
        Some(ReplayKey::Char('d'))
    } else if code == 18 {
        Some(ReplayKey::Char('e'))
    } else if code == 33 {
        Some(ReplayKey::Char('f'))
    } else if code == 34 {
        Some(ReplayKey::Char('g'))
    } else if code == 35 {
        Some(ReplayKey::Char('h'))
    } else if code == 23 {
        Some(ReplayKey::Char('i'))
    } else if code == 36 {
        Some(ReplayKey::Char('j'))
    } else if code == 37 {
        Some(ReplayKey::Char('k'))
    } else if code == 38 {
        Some(ReplayKey::Char('l'))
    } else if code == 50 {
        Some(ReplayKey::Char('m'))
    } else if code == 49 {
        Some(ReplayKey::Char('n'))
    } else if code == 24 {
        Some(ReplayKey::Char('o'))
    } else if code == 25 {
        Some(ReplayKey::Char('p'))
    } else if code == 16 {
        Some(ReplayKey::Char('q'))
    } else if code == 19 {
        Some(ReplayKey::Char('r'))
    } else if code == 31 {
        Some(ReplayKey::Char('s'))
    } else if code == 20 {
        Some(ReplayKey::Char('t'))
    } else if code == 22 {
        Some(ReplayKey::Char('u'))
    } else if code == 47 {
        Some(ReplayKey::Char('v'))
    } else if code == 17 {
        Some(ReplayKey::Char('w'))
    } else if code == 45 {
        Some(ReplayKey::Char('x'))
    } else if code == 21 {
        Some(ReplayKey::Char('y'))
    } else if code == 44 {
        Some(ReplayKey::Char('z'))
    } else if code == 2 {
        Some(ReplayKey::Char('1'))
    } else if code == 3 {
        Some(ReplayKey::Char('2'))
    } else if code == 4 {
        Some(ReplayKey::Char('3'))
    } else if code == 5 {
        Some(ReplayKey::Char('4'))
    } else if code == 6 {
        Some(ReplayKey::Char('5'))
    } else if code == 7 {
        Some(ReplayKey::Char('6'))
    } else if code == 8 {
        Some(ReplayKey::Char('7'))
    } else if code == 9 {
        Some(ReplayKey::Char('8'))
    } else if code == 10 {
        Some(ReplayKey::Char('9'))
    } else if code == 11 {
        Some(ReplayKey::Char('0'))
    } else if code == 57 {
        Some(ReplayKey::Space)
    } else if code == 28 {
        Some(ReplayKey::Return)
    } else if code == 1 {
        Some(ReplayKey::Escape)
    } else if code == 14 {
        Some(ReplayKey::Backspace)
    } else if code == 15 {
        Some(ReplayKey::Tab)
    } else if code == 42 {
        Some(ReplayKey::Shift)
    } else if code == 54 {
        Some(ReplayKey::Shift)
    } else if code == 29 {
        Some(ReplayKey::Control)
    } else if code == 97 {
        Some(ReplayKey::Control)
    } else if code == 56 {
        Some(ReplayKey::Alt)
    } else if code == 100 {
        Some(ReplayKey::Alt)
    } else if code == 103 {
        Some(ReplayKey::UpArrow)
    } else if code == 108 {
        Some(ReplayKey::DownArrow)
    } else if code == 105 {
        Some(ReplayKey::LeftArrow)
    } else if code == 106 {
        Some(ReplayKey::RightArrow)
    } else if code == 59 {
        Some(ReplayKey::F1)
    } else if code == 60 {
        Some(ReplayKey::F2)
    } else if code == 61 {
        Some(ReplayKey::F3)
    } else if code == 62 {
        Some(ReplayKey::F4)
    } else if code == 63 {
        Some(ReplayKey::F5)
    } else if code == 64 {
        Some(ReplayKey::F6)
    } else if code == 65 {
        Some(ReplayKey::F7)
    } else if code == 66 {
        Some(ReplayKey::F8)
    } else if code == 67 {
        Some(ReplayKey::F9)
    } else if code == 68 {
        Some(ReplayKey::F10)
    } else if code == 87 {
        Some(ReplayKey::F11)
    } else if code == 88 {
        Some(ReplayKey::F12)
    } else {
        None
    }
}

/// Looks a Linux key code up in the key table.
pub fn linux_key(code: u16) -> (r: Option<ReplayKey>)
    ensures
        r == key_for_code(code),
{
    match code {
        30 => Some(ReplayKey::Char('a')),
        48 => Some(ReplayKey::Char('b')),
        46 => Some(ReplayKey::Char('c')),
        32 => Some(ReplayKey::Char('d')),
        18 => Some(ReplayKey::Char('e')),
        33 => Some(ReplayKey::Char('f')),
        34 => Some(ReplayKey::Char('g')),
        35 => Some(ReplayKey::Char('h')),
        23 => Some(ReplayKey::Char('i')),
        36 => Some(ReplayKey::Char('j')),
        37 => Some(ReplayKey::Char('k')),
        38 => Some(ReplayKey::Char('l')),
        50 => Some(ReplayKey::Char('m')),
        49 => Some(ReplayKey::Char('n')),
        24 => Some(ReplayKey::Char('o')),
        25 => Some(ReplayKey::Char('p')),
        16 => Some(ReplayKey::Char('q')),
        19 => Some(ReplayKey::Char('r')),
        31 => Some(ReplayKey::Char('s')),
        20 => Some(ReplayKey::Char('t')),
        22 => Some(ReplayKey::Char('u')),
        47 => Some(ReplayKey::Char('v')),
        17 => Some(ReplayKey::Char('w')),
        45 => Some(ReplayKey::Char('x')),
        21 => Some(ReplayKey::Char('y')),
        44 => Some(ReplayKey::Char('z')),
        2 => Some(ReplayKey::Char('1')),
        3 => Some(ReplayKey::Char('2')),
        4 => Some(ReplayKey::Char('3')),
        5 => Some(ReplayKey::Char('4')),
        6 => Some(ReplayKey::Char('5')),
        7 => Some(ReplayKey::Char('6')),
        8 => Some(ReplayKey::Char('7')),
        9 => Some(ReplayKey::Char('8')),
        10 => Some(ReplayKey::Char('9')),
        11 => Some(ReplayKey::Char('0')),
        57 => Some(ReplayKey::Space),
        28 => Some(ReplayKey::Return),
        1 => Some(ReplayKey::Escape),
        14 => Some(ReplayKey::Backspace),
        15 => Some(ReplayKey::Tab),
        42 => Some(ReplayKey::Shift),
        54 => Some(ReplayKey::Shift),
        29 => Some(ReplayKey::Control),
        97 => Some(ReplayKey::Control),
        56 => Some(ReplayKey::Alt),
        100 => Some(ReplayKey::Alt),
        103 => Some(ReplayKey::UpArrow),
        108 => Some(ReplayKey::DownArrow),
        105 => Some(ReplayKey::LeftArrow),
        106 => Some(ReplayKey::RightArrow),
        59 => Some(ReplayKey::F1),
        60 => Some(ReplayKey::F2),
        61 => Some(ReplayKey::F3),
        62 => Some(ReplayKey::F4),
        63 => Some(ReplayKey::F5),
        64 => Some(ReplayKey::F6),
        65 => Some(ReplayKey::F7),
        66 => Some(ReplayKey::F8),
        67 => Some(ReplayKey::F9),
        68 => Some(ReplayKey::F10),
        87 => Some(ReplayKey::F11),
        88 => Some(ReplayKey::F12),
        _ => None,
    }
}

/// The sink button for a canonical button number: 1 primary, 2 secondary,
/// 3 middle.
pub open spec fn button_for(button: u8) -> Option<ReplayButton> {
    if button == 1 {
        Some(ReplayButton::Left)
    } else if button == 2 {
        Some(ReplayButton::Right)
    } else if button == 3 {
        Some(ReplayButton::Middle)
    } else {
        None
    }
}

pub fn sink_button(button: u8) -> (r: Option<ReplayButton>)
    ensures
        r == button_for(button),
{
    if button == 1 {
        Some(ReplayButton::Left)
    } else if button == 2 {
        Some(ReplayButton::Right)
    } else if button == 3 {
        Some(ReplayButton::Middle)
    } else {
        None
    }
}

pub open spec fn key_actions(code: u16, press: bool) -> Seq<ReplayAction> {
    match key_for_code(code) {
        Some(key) => seq![ReplayAction::Key { key, press }],
        None => seq![],
    }
}

/// The actions that replay a structured event. Unmapped keys and buttons
/// give none; a scroll gives one action per nonzero axis, horizontal first.
pub open spec fn typed_actions(e: InputEventType) -> Seq<ReplayAction> {
    match e {
        InputEventType::KeyPress { key_code } => key_actions(key_code, true),
        InputEventType::KeyRelease { key_code } => key_actions(key_code, false),
        InputEventType::MouseMove { x, y } => seq![ReplayAction::MoveBy { dx: x, dy: y }],
        InputEventType::MouseButton { button, pressed } => match button_for(button) {
            Some(b) => seq![ReplayAction::Button { button: b, press: pressed }],
            None => seq![],
        },
        InputEventType::MouseScroll { dx, dy } => {
            let h = if dx != 0 {
                seq![ReplayAction::Scroll { amount: dx, axis: ScrollAxis::Horizontal }]
            } else {
                seq![]
            };
            let v = if dy != 0 {
                seq![ReplayAction::Scroll { amount: dy, axis: ScrollAxis::Vertical }]
            } else {
                seq![]
            };
            h + v
        },
    }
}

/// The actions that replay a raw event. Of the kinds, "EV_KEY" presses
/// (value 1) or releases (value 0) a mapped key; "EV_REL" moves along X
/// (code 0) or Y (code 1), or scrolls vertically (code 8) or horizontally
/// (code 6). Every other event gives none.
pub open spec fn raw_actions(e: InputEventModel) -> Seq<ReplayAction> {
    if e.event_type == "EV_KEY"@ {
        if e.value == 0 {
            key_actions(e.code, false)
        } else if e.value == 1 {
            key_actions(e.code, true)
        } else {
            seq![]
        }
    } else if e.event_type == "EV_REL"@ {
        if e.code == 0 {
            seq![ReplayAction::MoveBy { dx: e.value, dy: 0 }]
        } else if e.code == 1 {
            seq![ReplayAction::MoveBy { dx: 0, dy: e.value }]
        } else if e.code == 8 {
            seq![ReplayAction::Scroll { amount: e.value, axis: ScrollAxis::Vertical }]
        } else if e.code == 6 {
            seq![ReplayAction::Scroll { amount: e.value, axis: ScrollAxis::Horizontal }]
        } else {
            seq![]
        }
    } else {
        seq![]
    }
}

pub open spec fn message_actions(m: MessageModel) -> Seq<ReplayAction> {
    match m {
        MessageModel::Raw(e) => raw_actions(e),
        MessageModel::Typed(t) => typed_actions(t),
    }
}

fn key_plan(code: u16, press: bool) -> (r: Vec<ReplayAction>)
    ensures
        r@ == key_actions(code, press),
{
    let mut out: Vec<ReplayAction> = Vec::new();
    if let Some(key) = linux_key(code) {
        out.push(ReplayAction::Key { key, press });
    }
    assert(out@ =~= key_actions(code, press));
    out
}

/// The actions that replay a structured event.
pub fn replay_typed(e: &InputEventType) -> (r: Vec<ReplayAction>)
    ensures
        r@ == typed_actions(*e),
{
    match *e {
        InputEventType::KeyPress { key_code } => key_plan(key_code, true),
        InputEventType::KeyRelease { key_code } => key_plan(key_code, false),
        InputEventType::MouseMove { x, y } => {
            let mut out: Vec<ReplayAction> = Vec::new();
            out.push(ReplayAction::MoveBy { dx: x, dy: y });
            assert(out@ =~= typed_actions(*e));
            out
        },
        InputEventType::MouseButton { button, pressed } => {
            let mut out: Vec<ReplayAction> = Vec::new();
            if let Some(b) = sink_button(button) {
                out.push(ReplayAction::Button { button: b, press: pressed });
            }
            assert(out@ =~= typed_actions(*e));
            out
        },
        InputEventType::MouseScroll { dx, dy } => {
            let mut out: Vec<ReplayAction> = Vec::new();
            if dx != 0 {
                out.push(ReplayAction::Scroll { amount: dx, axis: ScrollAxis::Horizontal });
            }
            if dy != 0 {
                out.push(ReplayAction::Scroll { amount: dy, axis: ScrollAxis::Vertical });
            }
            assert(out@ =~= typed_actions(*e));
            out
        },
    }
}

/// The actions that replay a raw event.
pub fn replay_raw(e: &InputEvent) -> (r: Vec<ReplayAction>)
    ensures
        r@ == raw_actions(e@),
{
    let mut out: Vec<ReplayAction> = Vec::new();
    if same_text(e.event_type.as_str(), "EV_KEY") {
        if e.value == 0 {
            return key_plan(e.code, false);
        } else if e.value == 1 {
            return key_plan(e.code, true);
        }
    } else if same_text(e.event_type.as_str(), "EV_REL") {
        if e.code == 0 {
            out.push(ReplayAction::MoveBy { dx: e.value, dy: 0 });
        } else if e.code == 1 {
            out.push(ReplayAction::MoveBy { dx: 0, dy: e.value });
        } else if e.code == 8 {
            out.push(ReplayAction::Scroll { amount: e.value, axis: ScrollAxis::Vertical });
        } else if e.code == 6 {
            out.push(ReplayAction::Scroll { amount: e.value, axis: ScrollAxis::Horizontal });
        }
    }
    assert(out@ =~= raw_actions(e@)) by {
        if e.event_type@ == "EV_KEY"@ {
        } else if e.event_type@ == "EV_REL"@ {
        }
    }
    out
}

/// The actions that replay the event a packet carries.
pub fn replay_message(m: &Message) -> (r: Vec<ReplayAction>)
    ensures
        r@ == message_actions(m@),
{
    match m {
        Message::InputEvent(e) => replay_raw(e),
        Message::InputEventTyped(t) => replay_typed(t),
    }
}

/// The actions that replay the event a packet carries.
pub fn replay_packet(p: &Packet) -> (r: Vec<ReplayAction>)
    ensures
        r@ == message_actions(p@.message),
{
    replay_message(&p.message)
}

} // verus!
