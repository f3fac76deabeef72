//! System-audio-recording permission status.
//!
//! Windows and Linux need no permission for loopback and report `NotRequired`.
//!
//! macOS gates process taps behind the System Audio Recording grant, with no public API to
//! request or check it. The prompt appears on its own the first time a tap is started, and a
//! denial shows up as silence rather than an error, so the usable signal is "no frames arrived
//! shortly after start". A build that reads the grant up front passes on the raw answer; every
//! answer that settles nothing is `Unknown`.
use vstd::prelude::*;

verus! {

#[derive(Debug, Clone, Copy, PartialEq, Eq, Structural)]
pub enum Status {
    Granted,
    Denied,
    Unknown,
    NotRequired,
}

/// Where the library runs, as far as the permission depends on it.
#[derive(Debug, Clone, Copy, PartialEq, Eq, Structural)]
pub enum Platform {
    /// Anything but macOS.
    Ungated,
    /// macOS, and the grant is not read.
    MacOs,
    /// macOS with the raw answer of the access preflight, absent where it cannot be asked.
    MacOsPreflight(Option<i32>),
}

/// What the raw answer of the access preflight means.
pub open spec fn preflight_meaning(answer: Option<i32>) -> Status {
    match answer {
        Some(0) => Status::Granted,
        Some(1) => Status::Denied,
        _ => Status::Unknown,
    }
}

/// What is known of the permission on a platform.
pub open spec fn status_on(platform: Platform) -> Status {
    match platform {
        Platform::Ungated => Status::NotRequired,
        Platform::MacOs => Status::Unknown,
        Platform::MacOsPreflight(answer) => preflight_meaning(answer),
    }
}

/// Reads the raw answer of the access preflight: 0 is granted, 1 is denied, 2 is "not
/// determined" and anything else is undocumented. The last two, and no answer at all, mean "find
/// out by trying".
pub fn preflight(answer: Option<i32>) -> (status: Status)
    ensures
        status == preflight_meaning(answer),
{
    match answer {
        Some(0) => Status::Granted,
        Some(1) => Status::Denied,
        _ => Status::Unknown,
    }
}

/// What is known of the permission on the given platform.
pub fn status(platform: Platform) -> (status: Status)
    ensures
        status == status_on(platform),
{
    match platform {
        Platform::Ungated => Status::NotRequired,
        // Knowable only by trying.
        Platform::MacOs => Status::Unknown,
        Platform::MacOsPreflight(answer) => preflight(answer),
    }
}

/// Law: a permission is reported as not required exactly off macOS. Reporting it on macOS would
/// skip a prompt that does exist.
pub proof fn law_not_required_only_off_macos(platform: Platform)
    ensures
        status_on(platform) == Status::NotRequired <==> platform == Platform::Ungated,
{
}

/// Law: the grant is believed only where the system gave it. A status of granted or denied comes
/// from that very answer and from no other, everything else on macOS is unknown.
pub proof fn law_only_clear_answers_settle_the_grant(platform: Platform)
    ensures
        status_on(platform) == Status::Granted <==> platform == Platform::MacOsPreflight(Some(0)),
        status_on(platform) == Status::Denied <==> platform == Platform::MacOsPreflight(Some(1)),
        status_on(platform) == Status::NotRequired <==> platform == Platform::Ungated,
        platform matches Platform::MacOsPreflight(answer) ==> status_on(platform)
            == preflight_meaning(answer),
{
}

} // verus!
