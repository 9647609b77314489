//! Rules of the Linux daemon: its private runtime directory, the one-byte
//! control protocol, and which reports become desktop notifications.
use vstd::prelude::*;
use crate::config::Notifications;
use crate::controller::Command;
use crate::text::{starts_with, starts_with_str};

verus! {

/// The byte a client sends to toggle recording.
pub const TOGGLE_REQUEST: u8 = 84;

/// The byte the daemon answers once the toggle is queued.
pub const ACCEPTED: u8 = 75;

/// The command a control request asks for; only the toggle byte is valid.
pub fn decode_request(byte: u8) -> (c: Option<Command>)
    ensures
        byte == TOGGLE_REQUEST ==> c == Some(Command::Toggle),
        byte != TOGGLE_REQUEST ==> c.is_none(),
{
    if byte == TOGGLE_REQUEST {
        Some(Command::Toggle)
    } else {
        None
    }
}

/// Whether the daemon's answer confirms a toggle.
pub fn toggle_accepted(reply: u8) -> (b: bool)
    ensures
        b == (reply == ACCEPTED),
{
    reply == ACCEPTED
}

/// The runtime directory may hold the control socket only when it is a
/// directory owned by the current user and closed to group and others.
pub fn runtime_dir_secure(is_dir: bool, owner: u32, euid: u32, mode: u32) -> (b: bool)
    ensures
        b == (is_dir && owner == euid && mode & 0o077 == 0),
{
    is_dir && owner == euid && mode & 0o077 == 0
}

/// Whether a status report also goes to the desktop: all reports when
/// notifications are on, errors always.
pub fn should_notify(mode: Notifications, message: &str) -> (b: bool)
    ensures
        b == (mode == Notifications::All || starts_with(message@, "Error:"@)),
{
    match mode {
        Notifications::All => true,
        Notifications::Quiet => starts_with_str(message, "Error:"),
    }
}

} // verus!
