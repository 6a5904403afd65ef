use vstd::prelude::*;

use crate::errors::{BlockingError, Condition, Error};
use crate::json::{same_json, Json};
use crate::text::{is_substring, str_contains, str_eq};

verus! {

/// The text of member `key` of `m`, when it is a string.
pub open spec fn text_field(m: Json, key: Seq<char>) -> Option<Seq<char>> {
    match m.field(key) {
        Some(v) => v.str_value(),
        None => None,
    }
}

/// Whether member `key` of `m` is the string `value`.
pub open spec fn text_field_is(m: Json, key: Seq<char>, value: Seq<char>) -> bool {
    text_field(m, key) == Some(value)
}

/// The condition announced by one line of the game log.
pub open spec fn log_line_condition(text: Seq<char>) -> Option<Condition> {
    if is_substring("You die..."@, text) {
        Some(Condition::Died)
    } else if is_substring("Blink to where?"@, text) {
        Some(Condition::Blink)
    } else if is_substring("Really read the scroll of noise?"@, text) {
        Some(Condition::Noise)
    } else if is_substring("Keep equipping yourself?"@, text) {
        Some(Condition::Equipping)
    } else if is_substring("Keep disrobing?"@, text) {
        Some(Condition::Disrobing)
    } else {
        None
    }
}

/// The condition of the first log line, from position `i` on, that announces one.
/// Lines without a `text` string announce nothing.
pub open spec fn log_condition_from(lines: Seq<Json>, i: int) -> Option<Condition>
    decreases lines.len() - i,
{
    if i < 0 || i >= lines.len() {
        None
    } else {
        let here = match text_field(lines[i], "text"@) {
            Some(t) => log_line_condition(t),
            None => None,
        };
        if here is Some {
            here
        } else {
            log_condition_from(lines, i + 1)
        }
    }
}

/// The popup that a `use_item` menu with this title stands for.
pub open spec fn use_item_condition(title: Seq<char>) -> Option<Condition> {
    if is_substring("Identify which item?"@, title) {
        Some(Condition::Identify)
    } else if is_substring("Enchant which weapon?"@, title) {
        Some(Condition::EnchantWeapon)
    } else if is_substring("Enchant which item?"@, title) {
        Some(Condition::EnchantItem)
    } else if is_substring("Brand which weapon?"@, title) {
        Some(Condition::BrandWeapon)
    } else {
        None
    }
}

/// The condition that event `m` raises, by its kind (member `msg`).
pub open spec fn condition_of(m: Json) -> Option<Condition> {
    let kind = text_field(m, "msg"@);
    if kind == Some("input_mode"@) {
        match m.field("mode"@) {
            Some(v) => if v.u64_value() == Some(5u64) {
                Some(Condition::More)
            } else if v.u64_value() == Some(7u64) {
                Some(Condition::TextInput)
            } else {
                None
            },
            None => None,
        }
    } else if kind == Some("menu"@) {
        if text_field_is(m, "tag"@, "pickup"@) {
            Some(Condition::Pickup)
        } else if text_field_is(m, "tag"@, "acquirement"@) {
            Some(Condition::Acquirement)
        } else if text_field_is(m, "tag"@, "use_item"@) {
            match m.field("title"@) {
                Some(t) => match text_field(t, "text"@) {
                    Some(title) => use_item_condition(title),
                    None => None,
                },
                None => None,
            }
        } else {
            None
        }
    } else if kind == Some("txt"@) {
        match m.field("lines"@) {
            Some(lines) => match text_field(lines, "0"@) {
                Some(first) => if is_substring("Select the skills to train"@, first) {
                    Some(Condition::Skill)
                } else {
                    None
                },
                None => None,
            },
            None => None,
        }
    } else if kind == Some("msgs"@) {
        match m.field("messages"@) {
            Some(v) => match v.elements() {
                Some(lines) => log_condition_from(lines, 0),
                None => None,
            },
            None => None,
        }
    } else if kind == Some("login_fail"@) {
        Some(Condition::LoginFailed)
    } else if kind == Some("register_fail"@) {
        Some(Condition::RegisterFailed)
    } else if kind == Some("ui-push"@) {
        if text_field_is(m, "type"@, "seed-selection"@) {
            Some(Condition::SeedSelection)
        } else if text_field_is(m, "type"@, "newgame-choice"@) {
            Some(Condition::NewGameChoice)
        } else {
            None
        }
    } else {
        None
    }
}

/// The text of member `key` of `m`, when it is a string.
pub fn field_text<'a>(m: &'a Json, key: &str) -> (r: Option<&'a str>)
    ensures
        match r {
            Some(s) => text_field(*m, key@) == Some(s@),
            None => text_field(*m, key@) is None,
        },
{
    match m.get(key) {
        Some(v) => v.as_str(),
        None => None,
    }
}

/// Whether member `key` of `m` is the string `value`.
pub fn field_is(m: &Json, key: &str, value: &str) -> (r: bool)
    ensures
        r == text_field_is(*m, key@, value@),
{
    match field_text(m, key) {
        Some(s) => str_eq(s, value),
        None => false,
    }
}

/// The condition announced by one line of the game log.
fn log_line_check(text: &str) -> (r: Option<Condition>)
    ensures
        r == log_line_condition(text@),
{
    if str_contains(text, "You die...") {
        Some(Condition::Died)
    } else if str_contains(text, "Blink to where?") {
        Some(Condition::Blink)
    } else if str_contains(text, "Really read the scroll of noise?") {
        Some(Condition::Noise)
    } else if str_contains(text, "Keep equipping yourself?") {
        Some(Condition::Equipping)
    } else if str_contains(text, "Keep disrobing?") {
        Some(Condition::Disrobing)
    } else {
        None
    }
}

/// The condition of the first log line that announces one.
fn log_check(lines: &Vec<Json>) -> (r: Option<Condition>)
    ensures
        r == log_condition_from(lines@, 0),
{
    let mut i: usize = 0;
    while i < lines.len()
        invariant
            i <= lines.len(),
            log_condition_from(lines@, 0) == log_condition_from(lines@, i as int),
        decreases lines.len() - i,
    {
        let here = match field_text(&lines[i], "text") {
            Some(t) => log_line_check(t),
            None => None,
        };
        if here.is_some() {
            return here;
        }
        i += 1;
    }
    None
}

/// The popup that a `use_item` menu with this title stands for.
fn use_item_check(title: &str) -> (r: Option<Condition>)
    ensures
        r == use_item_condition(title@),
{
    if str_contains(title, "Identify which item?") {
        Some(Condition::Identify)
    } else if str_contains(title, "Enchant which weapon?") {
        Some(Condition::EnchantWeapon)
    } else if str_contains(title, "Enchant which item?") {
        Some(Condition::EnchantItem)
    } else if str_contains(title, "Brand which weapon?") {
        Some(Condition::BrandWeapon)
    } else {
        None
    }
}

/// The condition that event `m` raises, if any. Reads nothing but `m`.
pub fn classify(m: &Json) -> (r: Option<Condition>)
    ensures
        r == condition_of(*m),
{
    let kind = field_text(m, "msg");
    let kind = match kind {
        Some(k) => k,
        None => {
            return None;
        },
    };
    if str_eq(kind, "input_mode") {
        match m.get("mode") {
            Some(v) => {
                let mode = v.as_u64();
                if mode == Some(5u64) {
                    Some(Condition::More)
                } else if mode == Some(7u64) {
                    Some(Condition::TextInput)
                } else {
                    None
                }
            },
            None => None,
        }
    } else if str_eq(kind, "menu") {
        if field_is(m, "tag", "pickup") {
            Some(Condition::Pickup)
        } else if field_is(m, "tag", "acquirement") {
            Some(Condition::Acquirement)
        } else if field_is(m, "tag", "use_item") {
            match m.get("title") {
                Some(t) => match field_text(t, "text") {
                    Some(title) => use_item_check(title),
                    None => None,
                },
                None => None,
            }
        } else {
            None
        }
    } else if str_eq(kind, "txt") {
        match m.get("lines") {
            Some(lines) => match field_text(lines, "0") {
                Some(first) => if str_contains(first, "Select the skills to train") {
                    Some(Condition::Skill)
                } else {
                    None
                },
                None => None,
            },
            None => None,
        }
    } else if str_eq(kind, "msgs") {
        match m.get("messages") {
            Some(v) => match v.as_array() {
                Some(lines) => log_check(lines),
                None => None,
            },
            None => None,
        }
    } else if str_eq(kind, "login_fail") {
        Some(Condition::LoginFailed)
    } else if str_eq(kind, "register_fail") {
        Some(Condition::RegisterFailed)
    } else if str_eq(kind, "ui-push") {
        if field_is(m, "type", "seed-selection") {
            Some(Condition::SeedSelection)
        } else if field_is(m, "type", "newgame-choice") {
            Some(Condition::NewGameChoice)
        } else {
            None
        }
    } else {
        None
    }
}

/// The error that reports condition `c`, raised by event `m`.
pub fn condition_error(c: Condition, m: &Json) -> (r: Error)
    ensures
        r.condition() == Some(c),
        match r {
            Error::Blocking(b) => c.carries_event() == (b.event() is Some) && (b.event() is Some
                ==> same_json(b.event()->0, *m)),
            _ => !c.carries_event(),
        },
{
    match c {
        Condition::SeedSelection => Error::Blocking(BlockingError::SeedSelection),
        Condition::NewGameChoice => Error::Blocking(BlockingError::NewGameChoice),
        Condition::More => Error::Blocking(BlockingError::More),
        Condition::TextInput => Error::Blocking(BlockingError::TextInput),
        Condition::Pickup => Error::Blocking(BlockingError::Pickup),
        Condition::Acquirement => Error::Blocking(BlockingError::Acquirement(m.duplicate())),
        Condition::Identify => Error::Blocking(BlockingError::Identify(m.duplicate())),
        Condition::EnchantWeapon => Error::Blocking(BlockingError::EnchantWeapon(m.duplicate())),
        Condition::EnchantItem => Error::Blocking(BlockingError::EnchantItem(m.duplicate())),
        Condition::BrandWeapon => Error::Blocking(BlockingError::BrandWeapon(m.duplicate())),
        Condition::Skill => Error::Blocking(BlockingError::Skill),
        Condition::Blink => Error::Blocking(BlockingError::Blink),
        Condition::Equipping => Error::Blocking(BlockingError::Equipping),
        Condition::Disrobing => Error::Blocking(BlockingError::Disrobing),
        Condition::Noise => Error::Blocking(BlockingError::Noise),
        Condition::Died => Error::Blocking(BlockingError::Died),
        Condition::LoginFailed => Error::LoginFailed,
        Condition::RegisterFailed => Error::RegisterFailed,
    }
}

/// Checks one event for a state that blocks the caller: `Ok` when it raises
/// none, else the error that reports it, carrying a copy of the event for popups.
pub fn blocking_messages(message: &Json) -> (r: Result<(), Error>)
    ensures
        match r {
            Ok(()) => condition_of(*message) is None,
            Err(e) => condition_of(*message) == e.condition() && e.condition() is Some,
        },
        r matches Err(Error::Blocking(b)) ==> (b.event() is Some ==> same_json(
            b.event()->0,
            *message,
        )),
{
    match classify(message) {
        Some(c) => Err(condition_error(c, message)),
        None => Ok(()),
    }
}

}
