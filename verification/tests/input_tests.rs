use termix::keys::{
    key_to_bytes, Modifiers, KEY_BACKSPACE, KEY_DELETE, KEY_DOWN, KEY_END, KEY_ESCAPE, KEY_F1,
    KEY_F12, KEY_HOME, KEY_KP_ENTER, KEY_LEFT, KEY_PAGE_DOWN, KEY_PAGE_UP, KEY_RETURN, KEY_RIGHT,
    KEY_TAB, KEY_UP,
};

const KEY_A: u32 = 0x0061;

fn plain() -> Modifiers {
    Modifiers { ctrl: false, alt: false, shift: false, caps_lock: false, logo: false, num_lock: false }
}

fn ctrl() -> Modifiers {
    Modifiers { ctrl: true, ..plain() }
}

#[test]
fn special_keys() {
    let m = plain();
    assert_eq!(key_to_bytes(KEY_RETURN, None, &m), Some(b"\r".to_vec()));
    assert_eq!(key_to_bytes(KEY_KP_ENTER, None, &m), Some(b"\r".to_vec()));
    assert_eq!(key_to_bytes(KEY_BACKSPACE, None, &m), Some(b"\x7f".to_vec()));
    assert_eq!(key_to_bytes(KEY_TAB, None, &m), Some(b"\t".to_vec()));
    assert_eq!(key_to_bytes(KEY_ESCAPE, None, &m), Some(b"\x1b".to_vec()));
    assert_eq!(key_to_bytes(KEY_UP, None, &m), Some(b"\x1b[A".to_vec()));
    assert_eq!(key_to_bytes(KEY_DOWN, None, &m), Some(b"\x1b[B".to_vec()));
    assert_eq!(key_to_bytes(KEY_RIGHT, None, &m), Some(b"\x1b[C".to_vec()));
    assert_eq!(key_to_bytes(KEY_LEFT, None, &m), Some(b"\x1b[D".to_vec()));
    assert_eq!(key_to_bytes(KEY_HOME, None, &m), Some(b"\x1b[H".to_vec()));
    assert_eq!(key_to_bytes(KEY_END, None, &m), Some(b"\x1b[F".to_vec()));
    assert_eq!(key_to_bytes(KEY_DELETE, None, &m), Some(b"\x1b[3~".to_vec()));
    assert_eq!(key_to_bytes(KEY_PAGE_UP, None, &m), Some(b"\x1b[5~".to_vec()));
    assert_eq!(key_to_bytes(KEY_PAGE_DOWN, None, &m), Some(b"\x1b[6~".to_vec()));
}

#[test]
fn function_keys() {
    let expected: [&[u8]; 12] = [
        b"\x1b[11~", b"\x1b[12~", b"\x1b[13~", b"\x1b[14~", b"\x1b[15~", b"\x1b[17~",
        b"\x1b[18~", b"\x1b[19~", b"\x1b[20~", b"\x1b[21~", b"\x1b[23~", b"\x1b[24~",
    ];
    for (n, e) in expected.iter().enumerate() {
        assert_eq!(key_to_bytes(KEY_F1 + n as u32, None, &plain()), Some(e.to_vec()));
    }
    assert_eq!(KEY_F1 + 11, KEY_F12);
}

#[test]
fn special_keys_ignore_text_and_ctrl() {
    assert_eq!(key_to_bytes(KEY_RETURN, Some("x"), &ctrl()), Some(b"\r".to_vec()));
    assert_eq!(key_to_bytes(KEY_UP, Some("a"), &ctrl()), Some(b"\x1b[A".to_vec()));
}

#[test]
fn ctrl_letters() {
    assert_eq!(key_to_bytes(KEY_A, Some("a"), &ctrl()), Some(vec![1]));
    assert_eq!(key_to_bytes(KEY_A, Some("A"), &ctrl()), Some(vec![1]));
    assert_eq!(key_to_bytes(0x63, Some("c"), &ctrl()), Some(vec![3]));
    assert_eq!(key_to_bytes(0x63, Some("C"), &ctrl()), Some(vec![3]));
    assert_eq!(key_to_bytes(0x7a, Some("z"), &ctrl()), Some(vec![26]));
    for (c, b) in ('a'..='z').zip(1u8..) {
        let s = c.to_string();
        let u = c.to_ascii_uppercase().to_string();
        assert_eq!(key_to_bytes(KEY_A, Some(&s), &ctrl()), Some(vec![b]));
        assert_eq!(key_to_bytes(KEY_A, Some(&u), &ctrl()), Some(vec![b]));
    }
}

#[test]
fn ctrl_punctuation() {
    assert_eq!(key_to_bytes(0x40, Some("@"), &ctrl()), Some(vec![0x00]));
    assert_eq!(key_to_bytes(0x5b, Some("["), &ctrl()), Some(vec![0x1b]));
    assert_eq!(key_to_bytes(0x5c, Some("\\"), &ctrl()), Some(vec![0x1c]));
    assert_eq!(key_to_bytes(0x5d, Some("]"), &ctrl()), Some(vec![0x1d]));
    assert_eq!(key_to_bytes(0x5e, Some("^"), &ctrl()), Some(vec![0x1e]));
    assert_eq!(key_to_bytes(0x5f, Some("_"), &ctrl()), Some(vec![0x1f]));
}

#[test]
fn ctrl_without_control_code_sends_text() {
    assert_eq!(key_to_bytes(0x31, Some("1"), &ctrl()), Some(b"1".to_vec()));
    assert_eq!(key_to_bytes(0xe9, Some("é"), &ctrl()), Some(vec![0xc3, 0xa9]));
}

#[test]
fn plain_text_is_utf8() {
    assert_eq!(key_to_bytes(KEY_A, Some("a"), &plain()), Some(b"a".to_vec()));
    assert_eq!(key_to_bytes(0xe9, Some("é"), &plain()), Some(vec![0xc3, 0xa9]));
    assert_eq!(key_to_bytes(0, Some("€x"), &plain()), Some("€x".as_bytes().to_vec()));
    let alt = Modifiers { alt: true, shift: true, ..plain() };
    assert_eq!(key_to_bytes(KEY_A, Some("A"), &alt), Some(b"A".to_vec()));
}

#[test]
fn no_text_is_ignored() {
    assert_eq!(key_to_bytes(KEY_A, None, &plain()), None);
    assert_eq!(key_to_bytes(KEY_A, Some(""), &plain()), None);
    assert_eq!(key_to_bytes(KEY_A, Some(""), &ctrl()), None);
    assert_eq!(key_to_bytes(0xffe3, None, &ctrl()), None);
}
