//! Choice of the typing backend for the Wayland desktop in use.
use vstd::prelude::*;
use crate::text::{contains, contains_str};

verus! {

/// The desktop has no supported typing backend.
#[derive(Clone, Copy, Debug, PartialEq, Eq, Structural)]
pub enum OutputError {
    /// Neither KDE Plasma nor Hyprland.
    UnsupportedDesktop,
}

impl OutputError {
    /// The message shown to the user.
    pub fn message(&self) -> (s: String)
        ensures
            s@ == "Unsupported desktop: KDE Plasma or Hyprland Wayland is required"@,
    {
        String::from_str("Unsupported desktop: KDE Plasma or Hyprland Wayland is required")
    }
}

/// The backend for a desktop: `wtype` on Hyprland, `kwtype` on KDE Plasma,
/// and no fallback otherwise. `desktop` is the lower-cased session names;
/// `hyprland` and `kde` say whether those sessions announced themselves.
pub open spec fn driver_for(desktop: Seq<char>, hyprland: bool, kde: bool) -> Result<
    Seq<char>,
    OutputError,
> {
    if hyprland || contains(desktop, "hyprland"@) {
        Ok("wtype"@)
    } else if kde || contains(desktop, "kde"@) || contains(desktop, "plasma"@) {
        Ok("kwtype"@)
    } else {
        Err(OutputError::UnsupportedDesktop)
    }
}

/// The typing backend for a desktop (see `driver_for`).
pub fn select_driver(desktop: &str, hyprland: bool, kde: bool) -> (r: Result<&'static str, OutputError>)
    ensures
        match driver_for(desktop@, hyprland, kde) {
            Ok(name) => r matches Ok(s) && s@ == name,
            Err(e) => r == Err::<&'static str, OutputError>(e),
        },
{
    if hyprland || contains_str(desktop, "hyprland") {
        Ok("wtype")
    } else if kde || contains_str(desktop, "kde") || contains_str(desktop, "plasma") {
        Ok("kwtype")
    } else {
        Err(OutputError::UnsupportedDesktop)
    }
}

} // verus!
