use vstd::prelude::*;

use vstd::string::StringExecFns;

use crate::text::{chars_of, str_eq};

verus! {

/// What one key press sends to the server: a raw key code, or text typed.
#[derive(Debug, PartialEq, Eq)]
pub enum KeyInput {
    Keycode(u8),
    Text(String),
}

/// The key code of a named control key: `key_ctrl_a` to `key_ctrl_z` give
/// 1 to 26, `key_tab` gives 9 and `key_esc` 27.
pub open spec fn keycode_of(key: Seq<char>) -> Option<u8> {
    if key.len() == 10 && key.subrange(0, 9) == "key_ctrl_"@ && 'a' <= key[9] <= 'z' {
        Some((key[9] as u32 - 'a' as u32 + 1) as u8)
    } else if key == "key_tab"@ {
        Some(9u8)
    } else if key == "key_esc"@ {
        Some(27u8)
    } else {
        None
    }
}

/// The text that a named movement or confirmation key types.
pub open spec fn text_of(key: Seq<char>) -> Option<Seq<char>> {
    if key == "key_dir_n"@ {
        Some("8"@)
    } else if key == "key_dir_ne"@ {
        Some("9"@)
    } else if key == "key_dir_e"@ {
        Some("6"@)
    } else if key == "key_dir_se"@ {
        Some("3"@)
    } else if key == "key_dir_s"@ {
        Some("2"@)
    } else if key == "key_dir_sw"@ {
        Some("1"@)
    } else if key == "key_dir_w"@ {
        Some("4"@)
    } else if key == "key_dir_nw"@ {
        Some("7"@)
    } else if key == "key_stair_down"@ {
        Some(">"@)
    } else if key == "key_stair_up"@ {
        Some("<"@)
    } else if key == "key_enter"@ {
        Some("\r"@)
    } else {
        None
    }
}

/// The text a named key types.
fn named_text(key: &str) -> (r: Option<&'static str>)
    ensures
        match r {
            Some(t) => text_of(key@) == Some(t@),
            None => text_of(key@) is None,
        },
{
    if str_eq(key, "key_dir_n") {
        Some("8")
    } else if str_eq(key, "key_dir_ne") {
        Some("9")
    } else if str_eq(key, "key_dir_e") {
        Some("6")
    } else if str_eq(key, "key_dir_se") {
        Some("3")
    } else if str_eq(key, "key_dir_s") {
        Some("2")
    } else if str_eq(key, "key_dir_sw") {
        Some("1")
    } else if str_eq(key, "key_dir_w") {
        Some("4")
    } else if str_eq(key, "key_dir_nw") {
        Some("7")
    } else if str_eq(key, "key_stair_down") {
        Some(">")
    } else if str_eq(key, "key_stair_up") {
        Some("<")
    } else if str_eq(key, "key_enter") {
        Some("\r")
    } else {
        None
    }
}

/// The key code of a named control key.
fn named_keycode(key: &str) -> (r: Option<u8>)
    ensures
        r == keycode_of(key@),
{
    let cs = chars_of(key);
    if cs.len() == 10 {
        let prefix = chars_of("key_ctrl_");
        let mut same = true;
        let mut i: usize = 0;
        proof {
            reveal_strlit("key_ctrl_");
        }
        while i < 9
            invariant
                cs@ == key@,
                cs.len() == 10,
                prefix@ == "key_ctrl_"@,
                prefix@.len() == 9,
                i <= 9,
                same == forall|j: int| 0 <= j < i ==> cs@[j] == prefix@[j],
            decreases 9 - i,
        {
            if cs[i] != prefix[i] {
                same = false;
            }
            i += 1;
        }
        assert(same == (key@.subrange(0, 9) == "key_ctrl_"@)) by {
            if same {
                assert(key@.subrange(0, 9) =~= "key_ctrl_"@);
            } else {
                let j = choose|j: int| 0 <= j < 9 && cs@[j] != prefix@[j];
                assert(key@.subrange(0, 9)[j] != "key_ctrl_"@[j]);
            }
        }
        let last = cs[9];
        if same && 'a' <= last && last <= 'z' {
            return Some((last as u32 - 'a' as u32 + 1) as u8);
        }
    }
    if str_eq(key, "key_tab") {
        Some(9u8)
    } else if str_eq(key, "key_esc") {
        Some(27u8)
    } else {
        None
    }
}

/// Turns a key name into what the server is sent: named control keys become
/// key codes, named movement and confirmation keys become the text they
/// type, and anything else is sent as the text it is.
pub fn keys(key: &str) -> (r: KeyInput)
    ensures
        match keycode_of(key@) {
            Some(code) => r == KeyInput::Keycode(code),
            None => match text_of(key@) {
                Some(t) => r matches KeyInput::Text(s) && s@ == t,
                None => r matches KeyInput::Text(s) && s@ == key@,
            },
        },
{
    if let Some(code) = named_keycode(key) {
        return KeyInput::Keycode(code);
    }
    match named_text(key) {
        Some(t) => KeyInput::Text(String::from_str(t)),
        None => KeyInput::Text(String::from_str(key)),
    }
}

}
