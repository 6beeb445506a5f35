//! The device fingerprint: a best-effort machine identifier with fixed
//! sentinel fallbacks.
//!
//! The platform is detected once by the caller and passed in as a tag; the
//! raw identifier (the contents of a machine-identity file on Unix-like
//! systems) is likewise read by the caller, since reading it is plain file
//! I/O. On Windows-like systems the identifier is the OS release string,
//! which is queried here. Every failure is absorbed into a sentinel value:
//! fingerprinting itself cannot fail.

use vstd::prelude::*;

verus! {

/// The platform capability the fingerprint source is chosen by.
#[derive(Clone, Copy, Debug)]
pub enum Platform {
    /// A machine-identity file is readable (Linux and relatives).
    LinuxLike,
    /// A system-configuration file is readable (macOS and relatives).
    MacosLike,
    /// An OS release string can be queried.
    WindowsLike,
    /// None of the above.
    Unsupported,
}

/// The view of an optional string as an optional character sequence.
pub open spec fn opt_view(o: Option<String>) -> Option<Seq<char>> {
    match o {
        Some(s) => Some(s@),
        None => None,
    }
}

/// A raw identifier when one was read, the sentinel otherwise.
pub open spec fn fallback_spec(raw: Option<Seq<char>>) -> Seq<char> {
    match raw {
        Some(s) => s,
        None => "unknown-device"@,
    }
}

/// Absorbs a failed identifier read into the sentinel value.
pub fn fingerprint_or_sentinel(raw: Option<String>) -> (r: String)
    ensures
        r@ == fallback_spec(opt_view(raw)),
{
    match raw {
        Some(s) => s,
        None => "unknown-device".to_owned(),
    }
}

/// Relies on `sys_info::os_release`: the OS release string of the running
/// machine, when it can be queried. The value is machine-dependent, so
/// nothing is assumed of it.
#[verifier::external_body]
fn os_release_raw() -> Option<String> {
    sys_info::os_release().ok()
}

/// Produces the device fingerprint for the given platform.
///
/// On an unsupported platform the fingerprint is its fixed sentinel. On
/// Linux-like and macOS-like platforms it is the raw identifier the caller
/// read, with the read-failure sentinel. On Windows-like platforms it is the
/// queried OS release string with the same fallback; which string the query
/// returns depends on the machine, so only the other arms are pinned down.
pub fn device_fingerprint(platform: Platform, raw: Option<String>) -> (r: String)
    ensures
        platform is Unsupported ==> r@ == "unsupported-os"@,
        platform is LinuxLike || platform is MacosLike ==> r@ == fallback_spec(opt_view(raw)),
{
    match platform {
        Platform::LinuxLike | Platform::MacosLike => fingerprint_or_sentinel(raw),
        Platform::WindowsLike => fingerprint_or_sentinel(os_release_raw()),
        Platform::Unsupported => "unsupported-os".to_owned(),
    }
}

} // verus!
