//! Linux input key codes, as in `linux/input-event-codes.h`, and their
//! display names.
use crate::text::chars_of;
use vstd::prelude::*;

verus! {

pub const KEY_ESC: u32 = 1;
pub const KEY_1: u32 = 2;
pub const KEY_2: u32 = 3;
pub const KEY_3: u32 = 4;
pub const KEY_4: u32 = 5;
pub const KEY_5: u32 = 6;
pub const KEY_6: u32 = 7;
pub const KEY_7: u32 = 8;
pub const KEY_8: u32 = 9;
pub const KEY_9: u32 = 10;
pub const KEY_0: u32 = 11;
pub const KEY_MINUS: u32 = 12;
pub const KEY_EQUAL: u32 = 13;
pub const KEY_BACKSPACE: u32 = 14;
pub const KEY_TAB: u32 = 15;
pub const KEY_Q: u32 = 16;
pub const KEY_W: u32 = 17;
pub const KEY_E: u32 = 18;
pub const KEY_R: u32 = 19;
pub const KEY_T: u32 = 20;
pub const KEY_Y: u32 = 21;
pub const KEY_U: u32 = 22;
pub const KEY_I: u32 = 23;
pub const KEY_O: u32 = 24;
pub const KEY_P: u32 = 25;
pub const KEY_LEFTBRACE: u32 = 26;
pub const KEY_RIGHTBRACE: u32 = 27;
pub const KEY_ENTER: u32 = 28;
pub const KEY_LEFTCTRL: u32 = 29;
pub const KEY_A: u32 = 30;
pub const KEY_S: u32 = 31;
pub const KEY_D: u32 = 32;
pub const KEY_F: u32 = 33;
pub const KEY_G: u32 = 34;
pub const KEY_H: u32 = 35;
pub const KEY_J: u32 = 36;
pub const KEY_K: u32 = 37;
pub const KEY_L: u32 = 38;
pub const KEY_SEMICOLON: u32 = 39;
pub const KEY_APOSTROPHE: u32 = 40;
pub const KEY_GRAVE: u32 = 41;
pub const KEY_LEFTSHIFT: u32 = 42;
pub const KEY_BACKSLASH: u32 = 43;
pub const KEY_Z: u32 = 44;
pub const KEY_X: u32 = 45;
pub const KEY_C: u32 = 46;
pub const KEY_V: u32 = 47;
pub const KEY_B: u32 = 48;
pub const KEY_N: u32 = 49;
pub const KEY_M: u32 = 50;
pub const KEY_COMMA: u32 = 51;
pub const KEY_DOT: u32 = 52;
pub const KEY_SLASH: u32 = 53;
pub const KEY_RIGHTSHIFT: u32 = 54;
pub const KEY_KPASTERISK: u32 = 55;
pub const KEY_LEFTALT: u32 = 56;
pub const KEY_SPACE: u32 = 57;
pub const KEY_CAPSLOCK: u32 = 58;
pub const KEY_F1: u32 = 59;
pub const KEY_F2: u32 = 60;
pub const KEY_F3: u32 = 61;
pub const KEY_F4: u32 = 62;
pub const KEY_F5: u32 = 63;
pub const KEY_F6: u32 = 64;
pub const KEY_F7: u32 = 65;
pub const KEY_F8: u32 = 66;
pub const KEY_F9: u32 = 67;
pub const KEY_F10: u32 = 68;
pub const KEY_NUMLOCK: u32 = 69;
pub const KEY_SCROLLLOCK: u32 = 70;
pub const KEY_F11: u32 = 87;
pub const KEY_F12: u32 = 88;
pub const KEY_RIGHTCTRL: u32 = 97;
pub const KEY_RIGHTALT: u32 = 100;
pub const KEY_HOME: u32 = 102;
pub const KEY_UP: u32 = 103;
pub const KEY_PAGEUP: u32 = 104;
pub const KEY_LEFT: u32 = 105;
pub const KEY_RIGHT: u32 = 106;
pub const KEY_END: u32 = 107;
pub const KEY_DOWN: u32 = 108;
pub const KEY_PAGEDOWN: u32 = 109;
pub const KEY_INSERT: u32 = 110;
pub const KEY_DELETE: u32 = 111;
pub const KEY_LEFTMETA: u32 = 125;
pub const KEY_RIGHTMETA: u32 = 126;

/// The display name of a key code; codes without one are "Unknown".
pub open spec fn key_label(key_code: u32) -> Seq<char> {
    if key_code == KEY_ESC {
        "Escape"@
    } else if key_code == KEY_LEFTCTRL {
        "Left Ctrl"@
    } else if key_code == KEY_RIGHTCTRL {
        "Right Ctrl"@
    } else if key_code == KEY_LEFTALT {
        "Left Alt"@
    } else if key_code == KEY_RIGHTALT {
        "Right Alt"@
    } else if key_code == KEY_LEFTSHIFT {
        "Left Shift"@
    } else if key_code == KEY_RIGHTSHIFT {
        "Right Shift"@
    } else if key_code == KEY_LEFTMETA {
        "Left Meta/Super"@
    } else if key_code == KEY_RIGHTMETA {
        "Right Meta/Super"@
    } else if key_code == KEY_SPACE {
        "Space"@
    } else if key_code == KEY_ENTER {
        "Enter"@
    } else if key_code == KEY_TAB {
        "Tab"@
    } else if key_code == KEY_BACKSPACE {
        "Backspace"@
    } else if key_code == KEY_DELETE {
        "Delete"@
    } else if key_code == KEY_F1 {
        "F1"@
    } else if key_code == KEY_F2 {
        "F2"@
    } else if key_code == KEY_F3 {
        "F3"@
    } else if key_code == KEY_F4 {
        "F4"@
    } else if key_code == KEY_F5 {
        "F5"@
    } else if key_code == KEY_F6 {
        "F6"@
    } else if key_code == KEY_F7 {
        "F7"@
    } else if key_code == KEY_F8 {
        "F8"@
    } else if key_code == KEY_F9 {
        "F9"@
    } else if key_code == KEY_F10 {
        "F10"@
    } else if key_code == KEY_F11 {
        "F11"@
    } else if key_code == KEY_F12 {
        "F12"@
    } else {
        "Unknown"@
    }
}

/// A human-readable name for a key code.
pub fn key_name(key_code: u32) -> (r: &'static str)
    ensures
        r@ == key_label(key_code),
{
    match key_code {
        KEY_ESC => "Escape",
        KEY_LEFTCTRL => "Left Ctrl",
        KEY_RIGHTCTRL => "Right Ctrl",
        KEY_LEFTALT => "Left Alt",
        KEY_RIGHTALT => "Right Alt",
        KEY_LEFTSHIFT => "Left Shift",
        KEY_RIGHTSHIFT => "Right Shift",
        KEY_LEFTMETA => "Left Meta/Super",
        KEY_RIGHTMETA => "Right Meta/Super",
        KEY_SPACE => "Space",
        KEY_ENTER => "Enter",
        KEY_TAB => "Tab",
        KEY_BACKSPACE => "Backspace",
        KEY_DELETE => "Delete",
        KEY_F1 => "F1",
        KEY_F2 => "F2",
        KEY_F3 => "F3",
        KEY_F4 => "F4",
        KEY_F5 => "F5",
        KEY_F6 => "F6",
        KEY_F7 => "F7",
        KEY_F8 => "F8",
        KEY_F9 => "F9",
        KEY_F10 => "F10",
        KEY_F11 => "F11",
        KEY_F12 => "F12",
        _ => "Unknown",
    }
}

/// The value of one digit in base `radix` (10 or 16; hexadecimal digits in
/// either case).
pub open spec fn digit_of(c: char, radix: u32) -> Option<u32> {
    let v = c as u32;
    if 48 <= v <= 57 && v - 48 < radix {
        Some((v - 48) as u32)
    } else if radix == 16 && 97 <= v <= 102 {
        Some((v - 87) as u32)
    } else if radix == 16 && 65 <= v <= 70 {
        Some((v - 55) as u32)
    } else {
        None
    }
}

/// The value of a run of digits, if each is a digit.
pub open spec fn digits_value(s: Seq<char>, radix: u32) -> Option<int>
    decreases s.len(),
{
    if s.len() == 0 {
        Some(0)
    } else {
        match (digits_value(s.drop_last(), radix), digit_of(s.last(), radix)) {
            (Some(v), Some(d)) => Some(v * radix + d),
            _ => None,
        }
    }
}

/// An unsigned number in base `radix`: an optional `+`, then at least one
/// digit, with a value that fits in a `u32`.
pub open spec fn number_text(s: Seq<char>, radix: u32) -> Option<u32> {
    let body = if s.len() > 0 && s[0] == '+' {
        s.drop_first()
    } else {
        s
    };
    if body.len() == 0 {
        None
    } else {
        match digits_value(body, radix) {
            Some(v) => if v <= u32::MAX {
                Some(v as u32)
            } else {
                None
            },
            None => None,
        }
    }
}

/// A key code as written on the command line: hexadecimal after `0x`,
/// decimal otherwise.
pub open spec fn key_code_text(s: Seq<char>) -> Option<u32> {
    if s.len() >= 2 && s[0] == '0' && s[1] == 'x' {
        number_text(s.subrange(2, s.len() as int), 16)
    } else {
        number_text(s, 10)
    }
}

proof fn lemma_digits_prefix(s: Seq<char>, i: int, radix: u32)
    requires
        0 <= i <= s.len(),
        radix == 10 || radix == 16,
    ensures
        digits_value(s.subrange(0, i), radix) is None ==> digits_value(s, radix) is None,
        digits_value(s.subrange(0, i), radix) matches Some(p) ==> (digits_value(s, radix) matches Some(
            v,
        ) ==> v >= p),
    decreases s.len() - i,
{
    if i < s.len() {
        lemma_digits_prefix(s.drop_last(), i, radix);
        assert(s.drop_last().subrange(0, i) =~= s.subrange(0, i));
        lemma_digits_nonneg(s.drop_last(), radix);
    } else {
        assert(s.subrange(0, i) =~= s);
    }
}

proof fn lemma_digits_nonneg(s: Seq<char>, radix: u32)
    requires
        radix == 10 || radix == 16,
    ensures
        digits_value(s, radix) matches Some(v) ==> v >= 0,
    decreases s.len(),
{
    if s.len() > 0 {
        lemma_digits_nonneg(s.drop_last(), radix);
        if let Some(v) = digits_value(s.drop_last(), radix) {
            assert(v * radix >= v) by (nonlinear_arith)
                requires
                    v >= 0,
                    radix >= 1,
            ;
        }
    }
}

fn digit(c: char, radix: u32) -> (r: Option<u32>)
    ensures
        r == digit_of(c, radix),
{
    let v = c as u32;
    if 48 <= v && v <= 57 && v - 48 < radix {
        Some(v - 48)
    } else if radix == 16 && 97 <= v && v <= 102 {
        Some(v - 87)
    } else if radix == 16 && 65 <= v && v <= 70 {
        Some(v - 55)
    } else {
        None
    }
}

fn parse_number(c: &Vec<char>, start: usize, radix: u32) -> (r: Option<u32>)
    requires
        start <= c@.len(),
        radix == 10 || radix == 16,
    ensures
        r == number_text(c@.subrange(start as int, c@.len() as int), radix),
{
    let ghost s = c@.subrange(start as int, c@.len() as int);
    let mut i: usize = start;
    if i < c.len() && c[i] == '+' {
        i = i + 1;
    }
    let ghost body = c@.subrange(i as int, c@.len() as int);
    assert(body =~= (if s.len() > 0 && s[0] == '+' { s.drop_first() } else { s }));
    if i == c.len() {
        return None;
    }
    let first = i;
    let mut acc: u64 = 0;
    assert(body.subrange(0, 0) =~= Seq::<char>::empty());
    while i < c.len()
        invariant
            first <= i <= c@.len(),
            first < c@.len(),
            s == c@.subrange(start as int, c@.len() as int),
            body == c@.subrange(first as int, c@.len() as int),
            body == (if s.len() > 0 && s[0] == '+' {
                s.drop_first()
            } else {
                s
            }),
            radix == 10 || radix == 16,
            acc <= u32::MAX,
            digits_value(body.subrange(0, i - first), radix) == Some(acc as int),
        decreases c@.len() - i,
    {
        let ghost prefix = body.subrange(0, i - first);
        let ghost next = body.subrange(0, i - first + 1);
        assert(next.drop_last() =~= prefix);
        assert(next.last() == c@[i as int]);
        let d = match digit(c[i], radix) {
            Some(d) => d,
            None => {
                proof {
                    lemma_digits_prefix(body, i - first + 1, radix);
                }
                return None;
            },
        };
        let value = acc * (radix as u64) + d as u64;
        assert(digits_value(next, radix) == Some(value as int));
        if value > 0xffff_ffff {
            proof {
                lemma_digits_prefix(body, i - first + 1, radix);
            }
            return None;
        }
        acc = value;
        i = i + 1;
    }
    assert(body.subrange(0, i - first) =~= body);
    Some(acc as u32)
}

/// Reads a key code written in hexadecimal after `0x` (for example `0x1D`),
/// or in decimal.
pub fn parse_key_code(text: &str) -> (r: Option<u32>)
    ensures
        r == key_code_text(text@),
{
    let c = chars_of(text);
    if c.len() >= 2 && c[0] == '0' && c[1] == 'x' {
        parse_number(&c, 2, 16)
    } else {
        assert(c@.subrange(0, c@.len() as int) =~= c@);
        parse_number(&c, 0, 10)
    }
}

} // verus!
