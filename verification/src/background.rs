//! Decisions about the background service: whether it runs, and what the
//! service manager's answers mean. The service manager itself is called by
//! the application.
use vstd::prelude::*;
use crate::text::{push_str, trim, trim_str, str_equal};

verus! {

/// The user service that runs the daemon.
pub const SERVICE: &'static str = "ai-dikte.service";

/// Why a background-service request failed.
#[derive(Debug)]
pub enum BackgroundError {
    /// The service did not start.
    Start,
    /// The service did not stop.
    Stop,
    /// Its start at sign-in could not be changed.
    Startup,
    /// The service manager reported a state other than enabled or disabled.
    UnknownState(String),
    /// The daemon's lock could not be inspected; the message says why.
    Inspect(String),
}

/// The message shown for a background-service error.
pub open spec fn background_message(e: &BackgroundError) -> Seq<char> {
    match e {
        BackgroundError::Start => "Cannot start user service; check systemctl --user status ai-dikte.service"@,
        BackgroundError::Stop => "Cannot stop user service; check systemctl --user status ai-dikte.service"@,
        BackgroundError::Startup => "Cannot change user-service startup; check systemctl --user status ai-dikte.service"@,
        BackgroundError::UnknownState(s) => "Cannot manage startup (service state: "@ + s@
            + "); install the user service first"@,
        BackgroundError::Inspect(m) => m@,
    }
}

impl BackgroundError {
    /// The message shown to the user (see `background_message`).
    pub fn message(&self) -> (s: String)
        ensures
            s@ == background_message(self),
    {
        match self {
            BackgroundError::Start => String::from_str(
                "Cannot start user service; check systemctl --user status ai-dikte.service",
            ),
            BackgroundError::Stop => String::from_str(
                "Cannot stop user service; check systemctl --user status ai-dikte.service",
            ),
            BackgroundError::Startup => String::from_str(
                "Cannot change user-service startup; check systemctl --user status ai-dikte.service",
            ),
            BackgroundError::UnknownState(state) => {
                let mut s = String::from_str("Cannot manage startup (service state: ");
                push_str(&mut s, state.as_str());
                push_str(&mut s, "); install the user service first");
                s
            },
            BackgroundError::Inspect(m) => {
                let mut s = String::new();
                push_str(&mut s, m.as_str());
                s
            },
        }
    }
}

/// What trying the daemon's lock file found.
#[derive(Debug)]
pub enum LockProbe {
    /// No lock file: no daemon ever ran here.
    Missing,
    /// The lock was free and is now released again: no daemon runs.
    Acquired,
    /// Another process holds the lock: the daemon runs.
    Held,
    /// The lock could not be tried; the message says why.
    Failed(String),
}

/// Whether the daemon runs, from the lock probe.
pub fn running(probe: LockProbe) -> (r: Result<bool, BackgroundError>)
    ensures
        match probe {
            LockProbe::Missing => r == Ok::<bool, BackgroundError>(false),
            LockProbe::Acquired => r == Ok::<bool, BackgroundError>(false),
            LockProbe::Held => r == Ok::<bool, BackgroundError>(true),
            LockProbe::Failed(m) => r matches Err(BackgroundError::Inspect(s)) && s == m,
        },
{
    match probe {
        LockProbe::Missing => Ok(false),
        LockProbe::Acquired => Ok(false),
        LockProbe::Held => Ok(true),
        LockProbe::Failed(m) => Err(BackgroundError::Inspect(m)),
    }
}

/// The result of `systemctl --user start`, from its exit status.
pub fn start(exit_success: bool) -> (r: Result<(), BackgroundError>)
    ensures
        exit_success ==> r is Ok,
        !exit_success ==> r matches Err(BackgroundError::Start),
{
    if exit_success {
        Ok(())
    } else {
        Err(BackgroundError::Start)
    }
}

/// The result of `systemctl --user stop`, from its exit status.
pub fn stop(exit_success: bool) -> (r: Result<(), BackgroundError>)
    ensures
        exit_success ==> r is Ok,
        !exit_success ==> r matches Err(BackgroundError::Stop),
{
    if exit_success {
        Ok(())
    } else {
        Err(BackgroundError::Stop)
    }
}

/// The `systemctl --user` verb that turns start at sign-in on or off.
pub fn startup_verb(enabled: bool) -> (v: &'static str)
    ensures
        v@ == if enabled {
            "enable"@
        } else {
            "disable"@
        },
{
    if enabled {
        "enable"
    } else {
        "disable"
    }
}

/// The result of changing start at sign-in, from the exit status of
/// `systemctl --user enable` or `disable`.
pub fn set_startup(exit_success: bool) -> (r: Result<(), BackgroundError>)
    ensures
        exit_success ==> r is Ok,
        !exit_success ==> r matches Err(BackgroundError::Startup),
{
    if exit_success {
        Ok(())
    } else {
        Err(BackgroundError::Startup)
    }
}

/// Whether the service starts at sign-in, from what `systemctl --user
/// is-enabled` printed: `enabled` and `enabled-runtime` mean yes, `disabled`
/// means no, any other state is refused.
pub fn startup_enabled(output: &str) -> (r: Result<bool, BackgroundError>)
    ensures
        trim(output@) == "enabled"@ || trim(output@) == "enabled-runtime"@ ==> r == Ok::<
            bool,
            BackgroundError,
        >(true),
        trim(output@) == "disabled"@ ==> r == Ok::<bool, BackgroundError>(false),
        trim(output@) != "enabled"@ && trim(output@) != "enabled-runtime"@ && trim(output@)
            != "disabled"@ ==> (r matches Err(BackgroundError::UnknownState(s)) && s@ == trim(
            output@,
        )),
{
    let state = trim_str(output);
    proof {
        reveal_strlit("enabled");
        reveal_strlit("enabled-runtime");
        reveal_strlit("disabled");
        assert("disabled"@[0] != "enabled"@[0]);
        assert("disabled"@[0] != "enabled-runtime"@[0]);
    }
    if str_equal(state.as_str(), "enabled") || str_equal(state.as_str(), "enabled-runtime") {
        Ok(true)
    } else if str_equal(state.as_str(), "disabled") {
        Ok(false)
    } else {
        Err(BackgroundError::UnknownState(state))
    }
}

} // verus!
