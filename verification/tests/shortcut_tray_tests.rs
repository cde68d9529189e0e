use termix::shortcut::{is_toggle_action, qt_key, shortcut_registration};
use termix::tray::sni_service_name;

#[test]
fn qt_key_codes() {
    assert_eq!(qt_key("F1"), Some(0x01000030));
    assert_eq!(qt_key("F2"), Some(0x01000031));
    assert_eq!(qt_key("F9"), Some(0x01000038));
    assert_eq!(qt_key("F10"), Some(0x01000039));
    assert_eq!(qt_key("F11"), Some(0x0100003a));
    assert_eq!(qt_key("F12"), Some(0x0100003b));
}

#[test]
fn qt_key_unsupported() {
    for name in ["", "F", "F0", "F13", "F01", "f1", "F1 ", "G1", "F100", "Ctrl+F1", "Ｆ1"] {
        assert_eq!(qt_key(name), None, "{name}");
    }
}

#[test]
fn qt_key_consecutive_and_distinct() {
    for n in 1..=12u32 {
        assert_eq!(qt_key(&format!("F{n}")), Some(0x0100002f + n));
    }
}

#[test]
fn toggle_action_name() {
    assert!(is_toggle_action("toggle"));
    assert!(!is_toggle_action("Toggle"));
    assert!(!is_toggle_action("toggl"));
    assert!(!is_toggle_action("toggle2"));
    assert!(!is_toggle_action(""));
}

#[test]
fn registration_request() {
    let reg = shortcut_registration("F12").unwrap();
    assert_eq!(
        [reg.component, reg.action, reg.friendly_component, reg.friendly_action],
        ["termix", "toggle", "Termix", "Toggle dropdown"]
    );
    assert_eq!(reg.keys, vec![0x0100003b]);
    assert_eq!(reg.default_keys, vec![0x0100003b]);
    assert_eq!(reg.flags, 0x2);
    assert!(shortcut_registration("Escape").is_none());
}

#[test]
fn service_names() {
    assert_eq!(sni_service_name(1234), "org.kde.StatusNotifierItem-1234-1");
    assert_eq!(sni_service_name(0), "org.kde.StatusNotifierItem-0-1");
    assert_eq!(sni_service_name(7), "org.kde.StatusNotifierItem-7-1");
    assert_eq!(sni_service_name(10), "org.kde.StatusNotifierItem-10-1");
    assert_eq!(sni_service_name(u32::MAX), "org.kde.StatusNotifierItem-4294967295-1");
}

#[test]
fn service_name_digits_read_back() {
    for pid in [1u32, 9, 99, 100, 65535, 123456789] {
        let name = sni_service_name(pid);
        let digits = &name["org.kde.StatusNotifierItem-".len()..name.len() - 2];
        assert_eq!(digits.parse::<u32>().unwrap(), pid);
    }
}
