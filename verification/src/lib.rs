//! Global-hotkey bookkeeping: a parser that turns human-written hotkey
//! specifications into canonical `Hotkey` values, and a verified registry
//! that shares one native hotkey slot among any number of registrants.

pub mod hotkey;
pub mod laws;
pub mod manager;
pub mod keys;
pub mod parser;
pub mod service;
pub mod text;

use vstd::prelude::*;
use vstd::string::StringExecFns;

pub use crate::hotkey::Hotkey;
pub use crate::keys::{Key, Modifier};
pub use crate::manager::HotkeyManager;
pub use crate::parser::parse_hotkey;
pub use crate::service::HotkeyService;

verus! {

/// The platform encoding of a hotkey: its modifier bits and its key code
/// bits, as the native register call takes them.
#[derive(Debug, Copy, Clone, PartialEq, Eq, Structural, Hash)]
pub struct NativeHotkey {
    pub modifiers: u32,
    pub key: u32,
}

/// A failure out of the native layer or the worker that serializes access
/// to it.
#[derive(Debug, Copy, Clone, PartialEq, Eq, Structural)]
pub enum HotkeyError {
    /// The native call itself failed; carries the native status code.
    BackendApiError(u64),
    /// The worker is unreachable; no further native call can be made.
    ChannelError,
    /// The worker already holds a registration with this exact encoding.
    HotkeyAlreadyRegistered(NativeHotkey),
    /// The worker holds no registration with this encoding.
    HotkeyNotRegistered(NativeHotkey),
    Unknown,
}

/// Every failure a caller of this library can see.
#[derive(Debug)]
pub enum Error {
    /// The registry's native backend failed.
    System(HotkeyError),
    /// This manager already owns the hotkey it tried to register.
    HotkeyAlreadyRegistered(Hotkey),
    /// This manager never owned the hotkey it tried to release.
    HotkeyNotRegistered(Hotkey),
    /// The specification string does not denote a hotkey.
    InvalidHotkey(String),
}

impl HotkeyError {
    pub open spec fn message_spec(self) -> Seq<char> {
        match self {
            HotkeyError::BackendApiError(_) => "backend api error"@,
            HotkeyError::ChannelError => "channel error"@,
            HotkeyError::HotkeyAlreadyRegistered(_) => "hotkey already registered natively"@,
            HotkeyError::HotkeyNotRegistered(_) => "hotkey not registered natively"@,
            HotkeyError::Unknown => "unknown error"@,
        }
    }

    /// A short description of this failure.
    pub fn message(&self) -> (r: String)
        ensures
            r@ == self.message_spec(),
    {
        match self {
            HotkeyError::BackendApiError(_) => String::from_str("backend api error"),
            HotkeyError::ChannelError => String::from_str("channel error"),
            HotkeyError::HotkeyAlreadyRegistered(_) => String::from_str(
                "hotkey already registered natively",
            ),
            HotkeyError::HotkeyNotRegistered(_) => String::from_str(
                "hotkey not registered natively",
            ),
            HotkeyError::Unknown => String::from_str("unknown error"),
        }
    }
}

impl Error {
    pub open spec fn message_spec(self) -> Seq<char> {
        match self {
            Error::System(e) => "Hotkey system error: "@ + e.message_spec(),
            Error::HotkeyAlreadyRegistered(_) => "Hotkey already registered"@,
            Error::HotkeyNotRegistered(_) => "Hotkey is not registered"@,
            Error::InvalidHotkey(s) => "failed to parse hotkey: "@ + s@,
        }
    }

    /// The full error text, as callers would print it.
    pub fn message(&self) -> (r: String)
        ensures
            r@ == self.message_spec(),
    {
        match self {
            Error::System(e) => {
                let head = String::from_str("Hotkey system error: ");
                let tail = e.message();
                head.concat(tail.as_str())
            },
            Error::HotkeyAlreadyRegistered(_) => String::from_str("Hotkey already registered"),
            Error::HotkeyNotRegistered(_) => String::from_str("Hotkey is not registered"),
            Error::InvalidHotkey(s) => {
                let head = String::from_str("failed to parse hotkey: ");
                head.concat(s.as_str())
            },
        }
    }
}

} // verus!
