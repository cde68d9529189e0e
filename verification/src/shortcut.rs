//! The global shortcut: which key names can be bound, their key codes, and the
//! registration request sent to the desktop's shortcut service.

use vstd::prelude::*;
use vstd::string::StrSliceExecFns;

verus! {

/// Number `n` of a function-key name `F<n>` with `1 <= n <= 12`.
pub open spec fn function_key_number(name: Seq<char>) -> Option<int> {
    if name.len() == 2 && name[0] == 'F' && 0x31 <= name[1] as u32 <= 0x39 {
        Some(name[1] as u32 - 0x30)
    } else if name.len() == 3 && name[0] == 'F' && name[1] == '1' && 0x30 <= name[2] as u32
        <= 0x32 {
        Some(10 + (name[2] as u32 - 0x30))
    } else {
        None
    }
}

/// Qt key code of a key name: F1 ..= F12 are 0x01000030 ..= 0x0100003b; no
/// other name has one.
pub open spec fn spec_qt_key(name: Seq<char>) -> Option<u32> {
    match function_key_number(name) {
        Some(n) => Some((0x0100002f + n) as u32),
        None => None,
    }
}

/// Returns the Qt key code of a shortcut key name, if the name is supported.
pub fn qt_key(name: &str) -> (r: Option<u32>)
    ensures
        r == spec_qt_key(name@),
{
    let len = name.unicode_len();
    if len < 2 || len > 3 {
        return None;
    }
    if name.get_char(0) != 'F' {
        return None;
    }
    let d1 = name.get_char(1) as u32;
    if len == 2 {
        if 0x31 <= d1 && d1 <= 0x39 {
            return Some(0x0100002f + (d1 - 0x30));
        }
        return None;
    }
    let d2 = name.get_char(2) as u32;
    if d1 == 0x31 && 0x30 <= d2 && d2 <= 0x32 {
        return Some(0x01000039 + (d2 - 0x30));
    }
    None
}

/// Name of the only shortcut action the component offers.
pub open spec fn toggle_action() -> Seq<char> {
    seq!['t', 'o', 'g', 'g', 'l', 'e']
}

/// Whether an invoked shortcut is the toggle action.
pub fn is_toggle_action(name: &str) -> (r: bool)
    ensures
        r == (name@ == toggle_action()),
{
    let expected = ['t', 'o', 'g', 'g', 'l', 'e'];
    let len = name.unicode_len();
    if len != 6 {
        return false;
    }
    let mut i: usize = 0;
    while i < 6
        invariant
            len == 6,
            name@.len() == 6,
            expected@ == toggle_action(),
            i <= 6,
            forall|k: int| 0 <= k < i ==> name@[k] == toggle_action()[k],
        decreases 6 - i,
    {
        if name.get_char(i) != expected[i] {
            return false;
        }
        i = i + 1;
    }
    assert(name@ =~= toggle_action());
    true
}

/// The request that binds the toggle action to a key: action id
/// `[component, action, friendly component, friendly action]`, the active and
/// default key lists, and the registration flags.
pub struct ShortcutRegistration {
    pub component: &'static str,
    pub action: &'static str,
    pub friendly_component: &'static str,
    pub friendly_action: &'static str,
    pub keys: Vec<u32>,
    pub default_keys: Vec<u32>,
    pub flags: u32,
}

/// Builds the registration request for a shortcut key name; `None` when the
/// key name is not supported.
pub fn shortcut_registration(name: &str) -> (r: Option<ShortcutRegistration>)
    ensures
        r is None <==> spec_qt_key(name@) is None,
        r matches Some(reg) ==> {
            &&& reg.component@ == "termix"@
            &&& reg.action@ == "toggle"@
            &&& reg.friendly_component@ == "Termix"@
            &&& reg.friendly_action@ == "Toggle dropdown"@
            &&& reg.keys@ == seq![spec_qt_key(name@).unwrap()]
            &&& reg.default_keys@ == seq![spec_qt_key(name@).unwrap()]
            &&& reg.flags == 0x2
        },
{
    match qt_key(name) {
        Some(code) => {
            let keys = vec![code];
            let default_keys = vec![code];
            assert(keys@ =~= seq![code]);
            assert(default_keys@ =~= seq![code]);
            Some(
                ShortcutRegistration {
                    component: "termix",
                    action: "toggle",
                    friendly_component: "Termix",
                    friendly_action: "Toggle dropdown",
                    keys,
                    default_keys,
                    flags: 0x2,
                },
            )
        },
        None => None,
    }
}

/// Law: the twelve function keys have consecutive codes, F<n> having
/// `0x0100002f + n`, and any other key name has none.
pub proof fn lemma_function_key_codes(name: Seq<char>)
    ensures
        spec_qt_key(name) is Some <==> function_key_number(name) is Some,
        function_key_number(name) matches Some(n) ==> 1 <= n <= 12 && spec_qt_key(name) == Some(
            (0x0100002f + n) as u32,
        ),
{
}


/// Law: two key names that get the same key code are the same name.
pub proof fn lemma_qt_key_injective(a: Seq<char>, b: Seq<char>)
    requires
        spec_qt_key(a) is Some,
        spec_qt_key(a) == spec_qt_key(b),
    ensures
        a == b,
{
    let k = (a.len() - 1) as int;
    vstd::utf8::char_u32_cast(a[k], a[k] as u32);
    vstd::utf8::char_u32_cast(b[k], b[k] as u32);
    assert(a[k] == b[k]);
    assert(a =~= b);
}

} // verus!
