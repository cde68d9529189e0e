//! Encoding of key presses into the bytes a terminal application expects.

use vstd::prelude::*;
use vstd::slice::slice_to_vec;
use vstd::string::StrSliceExecFns;
use vstd::utf8::encode_utf8;

verus! {

/// Keysym of the Return key.
pub const KEY_RETURN: u32 = 0xff0d;
/// Keysym of the keypad Enter key.
pub const KEY_KP_ENTER: u32 = 0xff8d;
/// Keysym of the BackSpace key.
pub const KEY_BACKSPACE: u32 = 0xff08;
/// Keysym of the Tab key.
pub const KEY_TAB: u32 = 0xff09;
/// Keysym of the Escape key.
pub const KEY_ESCAPE: u32 = 0xff1b;
/// Keysym of the Up arrow.
pub const KEY_UP: u32 = 0xff52;
/// Keysym of the Down arrow.
pub const KEY_DOWN: u32 = 0xff54;
/// Keysym of the Right arrow.
pub const KEY_RIGHT: u32 = 0xff53;
/// Keysym of the Left arrow.
pub const KEY_LEFT: u32 = 0xff51;
/// Keysym of the Home key.
pub const KEY_HOME: u32 = 0xff50;
/// Keysym of the End key.
pub const KEY_END: u32 = 0xff57;
/// Keysym of the Delete key.
pub const KEY_DELETE: u32 = 0xffff;
/// Keysym of the Page Up key.
pub const KEY_PAGE_UP: u32 = 0xff55;
/// Keysym of the Page Down key.
pub const KEY_PAGE_DOWN: u32 = 0xff56;
/// Keysym of F1; F2 ..= F12 follow consecutively.
pub const KEY_F1: u32 = 0xffbe;
/// Keysym of F12.
pub const KEY_F12: u32 = 0xffc9;

/// Keyboard modifier state.
#[derive(Clone, Copy, Debug, PartialEq, Eq, Structural)]
pub struct Modifiers {
    pub ctrl: bool,
    pub alt: bool,
    pub shift: bool,
    pub caps_lock: bool,
    pub logo: bool,
    pub num_lock: bool,
}

/// `ESC [` followed by `rest`.
pub open spec fn csi(rest: Seq<u8>) -> Seq<u8> {
    seq![0x1bu8, 0x5bu8] + rest
}

/// `ESC [ a b ~` for the two decimal digits `a`, `b`.
pub open spec fn csi_tilde2(a: u8, b: u8) -> Seq<u8> {
    csi(seq![a, b, 0x7eu8])
}

/// The fixed sequence a special key sends, whatever the modifiers or text.
pub open spec fn special_sequence(keysym: u32) -> Option<Seq<u8>> {
    if keysym == KEY_RETURN || keysym == KEY_KP_ENTER {
        Some(seq![0x0du8])
    } else if keysym == KEY_BACKSPACE {
        Some(seq![0x7fu8])
    } else if keysym == KEY_TAB {
        Some(seq![0x09u8])
    } else if keysym == KEY_ESCAPE {
        Some(seq![0x1bu8])
    } else if keysym == KEY_UP {
        Some(csi(seq![0x41u8]))
    } else if keysym == KEY_DOWN {
        Some(csi(seq![0x42u8]))
    } else if keysym == KEY_RIGHT {
        Some(csi(seq![0x43u8]))
    } else if keysym == KEY_LEFT {
        Some(csi(seq![0x44u8]))
    } else if keysym == KEY_HOME {
        Some(csi(seq![0x48u8]))
    } else if keysym == KEY_END {
        Some(csi(seq![0x46u8]))
    } else if keysym == KEY_DELETE {
        Some(csi(seq![0x33u8, 0x7eu8]))
    } else if keysym == KEY_PAGE_UP {
        Some(csi(seq![0x35u8, 0x7eu8]))
    } else if keysym == KEY_PAGE_DOWN {
        Some(csi(seq![0x36u8, 0x7eu8]))
    } else if keysym == KEY_F1 {
        Some(csi_tilde2(0x31, 0x31))
    } else if keysym == KEY_F1 + 1 {
        Some(csi_tilde2(0x31, 0x32))
    } else if keysym == KEY_F1 + 2 {
        Some(csi_tilde2(0x31, 0x33))
    } else if keysym == KEY_F1 + 3 {
        Some(csi_tilde2(0x31, 0x34))
    } else if keysym == KEY_F1 + 4 {
        Some(csi_tilde2(0x31, 0x35))
    } else if keysym == KEY_F1 + 5 {
        Some(csi_tilde2(0x31, 0x37))
    } else if keysym == KEY_F1 + 6 {
        Some(csi_tilde2(0x31, 0x38))
    } else if keysym == KEY_F1 + 7 {
        Some(csi_tilde2(0x31, 0x39))
    } else if keysym == KEY_F1 + 8 {
        Some(csi_tilde2(0x32, 0x30))
    } else if keysym == KEY_F1 + 9 {
        Some(csi_tilde2(0x32, 0x31))
    } else if keysym == KEY_F1 + 10 {
        Some(csi_tilde2(0x32, 0x33))
    } else if keysym == KEY_F12 {
        Some(csi_tilde2(0x32, 0x34))
    } else {
        None
    }
}

/// ASCII lower case of a code point; every other code point is unchanged.
pub open spec fn ascii_lower(u: u32) -> u32 {
    if 0x41 <= u <= 0x5a {
        (u + 0x20) as u32
    } else {
        u
    }
}

/// The control byte that Ctrl with character `c` sends: a letter `x` of
/// either case gives `x - 'a' + 1`; `@ [ \ ] ^ _` give 0x00 and 0x1b ..= 0x1f.
pub open spec fn ctrl_code(c: char) -> Option<u8> {
    let l = ascii_lower(c as u32);
    if 0x61 <= l <= 0x7a {
        Some((l - 0x61 + 1) as u8)
    } else if c == '@' {
        Some(0x00)
    } else if c == '[' {
        Some(0x1b)
    } else if c == '\\' {
        Some(0x1c)
    } else if c == ']' {
        Some(0x1d)
    } else if c == '^' {
        Some(0x1e)
    } else if c == '_' {
        Some(0x1f)
    } else {
        None
    }
}

/// What a key press sends: the key's fixed sequence if it is special; else,
/// with Ctrl held, the control byte of the first character of the text when
/// it has one; else the UTF-8 encoding of the text if there is any; else nothing.
pub open spec fn spec_key_to_bytes(keysym: u32, text: Option<Seq<char>>, ctrl: bool) -> Option<Seq<u8>> {
    match special_sequence(keysym) {
        Some(seq) => Some(seq),
        None => match text {
            Some(t) => if t.len() == 0 {
                None
            } else if ctrl && ctrl_code(t[0]) is Some {
                Some(seq![ctrl_code(t[0]).unwrap()])
            } else {
                Some(encode_utf8(t))
            },
            None => None,
        },
    }
}

/// The characters of optional text.
pub open spec fn text_of(utf8: Option<&str>) -> Option<Seq<char>> {
    match utf8 {
        Some(s) => Some(s@),
        None => None,
    }
}

/// The byte vectors as sequences.
pub open spec fn bytes_of(v: Option<Vec<u8>>) -> Option<Seq<u8>> {
    match v {
        Some(b) => Some(b@),
        None => None,
    }
}

fn special_bytes(keysym: u32) -> (r: Option<Vec<u8>>)
    ensures
        bytes_of(r) == special_sequence(keysym),
{
    let r = if keysym == KEY_RETURN || keysym == KEY_KP_ENTER {
        Some(vec![0x0du8])
    } else if keysym == KEY_BACKSPACE {
        Some(vec![0x7fu8])
    } else if keysym == KEY_TAB {
        Some(vec![0x09u8])
    } else if keysym == KEY_ESCAPE {
        Some(vec![0x1bu8])
    } else if keysym == KEY_UP {
        Some(vec![0x1bu8, 0x5b, 0x41])
    } else if keysym == KEY_DOWN {
        Some(vec![0x1bu8, 0x5b, 0x42])
    } else if keysym == KEY_RIGHT {
        Some(vec![0x1bu8, 0x5b, 0x43])
    } else if keysym == KEY_LEFT {
        Some(vec![0x1bu8, 0x5b, 0x44])
    } else if keysym == KEY_HOME {
        Some(vec![0x1bu8, 0x5b, 0x48])
    } else if keysym == KEY_END {
        Some(vec![0x1bu8, 0x5b, 0x46])
    } else if keysym == KEY_DELETE {
        Some(vec![0x1bu8, 0x5b, 0x33, 0x7e])
    } else if keysym == KEY_PAGE_UP {
        Some(vec![0x1bu8, 0x5b, 0x35, 0x7e])
    } else if keysym == KEY_PAGE_DOWN {
        Some(vec![0x1bu8, 0x5b, 0x36, 0x7e])
    } else if keysym == KEY_F1 {
        Some(vec![0x1bu8, 0x5b, 0x31, 0x31, 0x7e])
    } else if keysym == KEY_F1 + 1 {
        Some(vec![0x1bu8, 0x5b, 0x31, 0x32, 0x7e])
    } else if keysym == KEY_F1 + 2 {
        Some(vec![0x1bu8, 0x5b, 0x31, 0x33, 0x7e])
    } else if keysym == KEY_F1 + 3 {
        Some(vec![0x1bu8, 0x5b, 0x31, 0x34, 0x7e])
    } else if keysym == KEY_F1 + 4 {
        Some(vec![0x1bu8, 0x5b, 0x31, 0x35, 0x7e])
    } else if keysym == KEY_F1 + 5 {
        Some(vec![0x1bu8, 0x5b, 0x31, 0x37, 0x7e])
    } else if keysym == KEY_F1 + 6 {
        Some(vec![0x1bu8, 0x5b, 0x31, 0x38, 0x7e])
    } else if keysym == KEY_F1 + 7 {
        Some(vec![0x1bu8, 0x5b, 0x31, 0x39, 0x7e])
    } else if keysym == KEY_F1 + 8 {
        Some(vec![0x1bu8, 0x5b, 0x32, 0x30, 0x7e])
    } else if keysym == KEY_F1 + 9 {
        Some(vec![0x1bu8, 0x5b, 0x32, 0x31, 0x7e])
    } else if keysym == KEY_F1 + 10 {
        Some(vec![0x1bu8, 0x5b, 0x32, 0x33, 0x7e])
    } else if keysym == KEY_F12 {
        Some(vec![0x1bu8, 0x5b, 0x32, 0x34, 0x7e])
    } else {
        None
    };
    assert(bytes_of(r) =~~= special_sequence(keysym));
    r
}

fn ctrl_byte(c: char) -> (r: Option<u8>)
    ensures
        r == ctrl_code(c),
{
    let u = c as u32;
    if 0x61 <= u && u <= 0x7a {
        Some((u - 0x61 + 1) as u8)
    } else if 0x41 <= u && u <= 0x5a {
        Some((u - 0x41 + 1) as u8)
    } else if c == '@' {
        Some(0x00)
    } else if c == '[' {
        Some(0x1b)
    } else if c == '\\' {
        Some(0x1c)
    } else if c == ']' {
        Some(0x1d)
    } else if c == '^' {
        Some(0x1e)
    } else if c == '_' {
        Some(0x1f)
    } else {
        None
    }
}

/// Converts a key event into the byte sequence to send to the terminal;
/// `None` means the key is ignored. Only Ctrl among the modifiers matters.
pub fn key_to_bytes(keysym: u32, utf8: Option<&str>, modifiers: &Modifiers) -> (r: Option<Vec<u8>>)
    ensures
        bytes_of(r) == spec_key_to_bytes(keysym, text_of(utf8), modifiers.ctrl),
{
    let special = special_bytes(keysym);
    if special.is_some() {
        return special;
    }
    if modifiers.ctrl {
        if let Some(s) = utf8 {
            if !s.is_empty() {
                let ch = s.get_char(0);
                if let Some(b) = ctrl_byte(ch) {
                    let r = vec![b];
                    assert(r@ =~= seq![b]);
                    return Some(r);
                }
            }
        }
    }
    if let Some(s) = utf8 {
        if !s.is_empty() {
            return Some(slice_to_vec(s.as_bytes()));
        }
    }
    None
}


/// Law: a special key sends its fixed sequence whatever the modifiers and text.
pub proof fn lemma_special_keys_fixed(keysym: u32, text: Option<Seq<char>>, ctrl: bool)
    requires
        special_sequence(keysym) is Some,
    ensures
        spec_key_to_bytes(keysym, text, ctrl) == special_sequence(keysym),
        spec_key_to_bytes(keysym, text, ctrl) == spec_key_to_bytes(keysym, None, false),
{
}

/// Law: Ctrl with a letter sends one byte in 1 ..= 26, the same for the upper-
/// and the lower-case letter.
pub proof fn lemma_ctrl_letter_case_insensitive(keysym: u32, upper: Seq<char>, lower: Seq<char>)
    requires
        special_sequence(keysym) is None,
        upper.len() > 0,
        lower.len() > 0,
        0x41 <= upper[0] as u32 <= 0x5a,
        lower[0] as u32 == upper[0] as u32 + 0x20,
    ensures
        spec_key_to_bytes(keysym, Some(upper), true) == spec_key_to_bytes(keysym, Some(lower), true),
        spec_key_to_bytes(keysym, Some(upper), true) == Some(seq![(upper[0] as u32 - 0x40) as u8]),
        1 <= upper[0] as u32 - 0x40 <= 26,
{
}

/// Law: whenever Ctrl produces a control byte, the key sends exactly one
/// byte and it is a C0 control code (below 0x20).
pub proof fn lemma_ctrl_sends_control_code(keysym: u32, text: Seq<char>)
    requires
        special_sequence(keysym) is None,
        text.len() > 0,
        ctrl_code(text[0]) is Some,
    ensures
        spec_key_to_bytes(keysym, Some(text), true) matches Some(b) && b.len() == 1 && b[0] < 0x20,
{
}

/// Law: without Ctrl, an ordinary key sends the UTF-8 encoding of its text,
/// and no text means nothing is sent.
pub proof fn lemma_plain_text_is_utf8(keysym: u32, text: Seq<char>)
    requires
        special_sequence(keysym) is None,
    ensures
        text.len() > 0 ==> spec_key_to_bytes(keysym, Some(text), false) == Some(encode_utf8(text)),
        spec_key_to_bytes(keysym, None, false) is None,
        spec_key_to_bytes(keysym, None, true) is None,
{
}

} // verus!
