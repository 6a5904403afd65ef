use vstd::prelude::*;

use crate::json::Json;
use serde_json::Error as JsonReadError;
use tungstenite::Error as WebsocketError;

verus! {

/// The websocket layer's error type, carried through unchanged.
#[verifier::external_type_specification]
#[verifier::external_body]
pub struct ExWebsocketError(WebsocketError);

/// The inflater's error type, carried through unchanged.
#[verifier::external_type_specification]
#[verifier::external_body]
pub struct ExDecompressError(flate2::DecompressError);

/// std's error for bytes that are not UTF-8, carried through unchanged.
#[verifier::external_type_specification]
#[verifier::external_body]
pub struct ExUtf8Error(std::str::Utf8Error);

/// The JSON reader's error type, carried through unchanged.
#[verifier::external_type_specification]
#[verifier::external_body]
pub struct ExJsonError(JsonReadError);

/// Errors that can be raised while talking to the server.
#[derive(Debug)]
pub enum Error {
    Websocket(WebsocketError),
    Decompress(flate2::DecompressError),
    Utf8(std::str::Utf8Error),
    JSON(JsonReadError),
    Blocking(BlockingError),
    LoginFailed,
    RegisterFailed,
}

/// States in which the server waits on an answer that the caller has not yet
/// given, so that the event the caller waits for cannot come yet. Popups that
/// the caller must inspect carry the event that opened them.
#[derive(Debug)]
pub enum BlockingError {
    SeedSelection,
    NewGameChoice,
    More,
    TextInput,
    Pickup,
    Acquirement(Json),
    Identify(Json),
    EnchantWeapon(Json),
    EnchantItem(Json),
    BrandWeapon(Json),
    Skill,
    Blink,
    Equipping,
    Disrobing,
    Noise,
    Died,
}

/// The kinds of condition that an event can raise, without their payload.
#[derive(Clone, Copy, Debug, PartialEq, Eq, Structural)]
pub enum Condition {
    SeedSelection,
    NewGameChoice,
    More,
    TextInput,
    Pickup,
    Acquirement,
    Identify,
    EnchantWeapon,
    EnchantItem,
    BrandWeapon,
    Skill,
    Blink,
    Equipping,
    Disrobing,
    Noise,
    Died,
    LoginFailed,
    RegisterFailed,
}

impl Condition {
    /// Whether this kind of condition carries the event that raised it.
    pub open spec fn carries_event(self) -> bool {
        match self {
            Condition::Acquirement | Condition::Identify | Condition::EnchantWeapon
            | Condition::EnchantItem | Condition::BrandWeapon => true,
            _ => false,
        }
    }
}

impl BlockingError {
    /// The kind of this condition.
    pub open spec fn condition(&self) -> Condition {
        match self {
            BlockingError::SeedSelection => Condition::SeedSelection,
            BlockingError::NewGameChoice => Condition::NewGameChoice,
            BlockingError::More => Condition::More,
            BlockingError::TextInput => Condition::TextInput,
            BlockingError::Pickup => Condition::Pickup,
            BlockingError::Acquirement(_) => Condition::Acquirement,
            BlockingError::Identify(_) => Condition::Identify,
            BlockingError::EnchantWeapon(_) => Condition::EnchantWeapon,
            BlockingError::EnchantItem(_) => Condition::EnchantItem,
            BlockingError::BrandWeapon(_) => Condition::BrandWeapon,
            BlockingError::Skill => Condition::Skill,
            BlockingError::Blink => Condition::Blink,
            BlockingError::Equipping => Condition::Equipping,
            BlockingError::Disrobing => Condition::Disrobing,
            BlockingError::Noise => Condition::Noise,
            BlockingError::Died => Condition::Died,
        }
    }

    /// The event that a popup condition carries.
    pub open spec fn event(&self) -> Option<Json> {
        match self {
            BlockingError::Acquirement(e) => Some(*e),
            BlockingError::Identify(e) => Some(*e),
            BlockingError::EnchantWeapon(e) => Some(*e),
            BlockingError::EnchantItem(e) => Some(*e),
            BlockingError::BrandWeapon(e) => Some(*e),
            _ => None,
        }
    }
}

impl Error {
    /// The condition this error reports, if it reports one.
    pub open spec fn condition(&self) -> Option<Condition> {
        match self {
            Error::Blocking(b) => Some(b.condition()),
            Error::LoginFailed => Some(Condition::LoginFailed),
            Error::RegisterFailed => Some(Condition::RegisterFailed),
            _ => None,
        }
    }

    /// Whether this error reports that the character died.
    pub fn is_death(&self) -> (r: bool)
        ensures
            r == (self.condition() == Some(Condition::Died)),
    {
        match self {
            Error::Blocking(BlockingError::Died) => true,
            _ => false,
        }
    }
}

}
