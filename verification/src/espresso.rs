use vstd::prelude::*;

use crate::consts::LEASE;
use crate::text::{contains_text, decimal, push_decimal, text_contains};

verus! {

/// `std::io::Error`, carried opaquely inside the library's errors.
#[verifier::external_type_specification]
#[verifier::external_body]
pub struct ExIoError(std::io::Error);

/// Why a new espresso hold could not be started.
#[derive(Debug)]
pub enum EspressoError {
    /// The `espresso` binary is not on `PATH`.
    NotFound,
    /// Spawning failed otherwise, or the child exited at once.
    Spawn(std::io::Error),
}

/// The lease length in whole seconds, as passed to `espresso -- sleep`.
pub fn lease_secs() -> (s: String)
    ensures
        s@ == decimal((LEASE / 1000) as nat),
{
    let mut s = String::new();
    push_decimal(&mut s, LEASE / 1000);
    s
}

/// The error for a spawn of `espresso` that failed with `e`: not found when
/// the binary is `missing` from `PATH`, a spawn failure otherwise.
pub fn spawn_error(missing: bool, e: std::io::Error) -> (r: EspressoError)
    ensures
        missing ==> r is NotFound,
        !missing ==> r == EspressoError::Spawn(e),
{
    if missing {
        EspressoError::NotFound
    } else {
        EspressoError::Spawn(e)
    }
}

/// How one rotation of the hold ended.
pub enum RotateOutcome {
    /// A fresh lease is held.
    Started,
    /// The `espresso` binary is not on `PATH`.
    Missing,
    /// Spawning failed otherwise.
    Failed,
}

/// One request made of an espresso hold.
pub enum EspCall {
    /// A rotation, with how it ended.
    Rotate(RotateOutcome),
    /// A release.
    Kill,
}

/// How a rotation that returned `r` ended.
pub open spec fn rotate_outcome(r: Result<(), EspressoError>) -> RotateOutcome {
    match r {
        Ok(()) => RotateOutcome::Started,
        Err(EspressoError::NotFound) => RotateOutcome::Missing,
        Err(EspressoError::Spawn(_)) => RotateOutcome::Failed,
    }
}

/// Control of the espresso hold of one pane. Implementations keep `held`
/// equal to what `is_up` reports. `calls` is the ghost history of the requests
/// made of the hold, oldest first: each method's contract says how it grows
/// (a verified implementation defines it; the default only gives it a type).
pub trait EspressoCtl {
    /// A lease is currently held.
    spec fn held(&self) -> bool;

    /// The requests made of this hold so far, oldest first.
    closed spec fn calls(&self) -> Seq<EspCall> {
        Seq::empty()
    }

    /// Starts a fresh lease; on success the new lease is held (and the previous
    /// one released), on failure the hold is as it was.
    fn rotate(&mut self) -> (r: Result<(), EspressoError>)
        ensures
            final(self).calls() == old(self).calls().push(EspCall::Rotate(rotate_outcome(r))),
            r is Ok ==> final(self).held(),
            r is Err ==> final(self).held() == old(self).held(),
    ;

    /// Releases espresso, if held.
    fn kill(&mut self)
        ensures
            !final(self).held(),
            final(self).calls() == old(self).calls().push(EspCall::Kill),
    ;

    /// Whether a lease is currently held.
    fn is_up(&self) -> (b: bool)
        ensures
            b == self.held(),
    ;
}

/// What `str::to_lowercase` makes of a text (Unicode lower-case mapping).
pub uninterp spec fn lowercased(s: Seq<char>) -> Seq<char>;

/// `str::to_lowercase` (std): the text with every character mapped to its
/// Unicode lower case. Its result is named, not spelled out: it depends on the
/// text alone.
#[verifier::external_body]
fn to_lowercase(s: &str) -> (r: String)
    ensures
        r@ == lowercased(s@),
{
    s.to_lowercase()
}

/// What `String::from_utf8_lossy` makes of a byte string (invalid sequences
/// replaced by U+FFFD).
pub uninterp spec fn lossy_text(bytes: Seq<u8>) -> Seq<char>;

/// `String::from_utf8_lossy` (std): the bytes read as UTF-8, each invalid
/// sequence replaced by U+FFFD. Its result is named: it depends on the bytes
/// alone.
#[verifier::external_body]
fn from_utf8_lossy(bytes: &[u8]) -> (r: String)
    ensures
        r@ == lossy_text(bytes@),
{
    String::from_utf8_lossy(bytes).into_owned()
}

/// `espresso daemon status` output (lower-cased) that reports the lid-closed
/// helper as installed.
pub open spec fn says_installed(lower: Seq<char>) -> bool {
    contains_text(lower, "installed"@) && !contains_text(lower, "not installed"@)
}

/// Whether lower-cased status output reports the helper installed.
pub fn status_says_installed(lower: &str) -> (r: bool)
    ensures
        r == says_installed(lower@),
{
    text_contains(lower, "installed") && !text_contains(lower, "not installed")
}

/// Reads the result of `espresso daemon status`: installed when the command
/// succeeded and its standard output, read as UTF-8 and lower-cased, says
/// `installed` but not `not installed`.
pub fn daemon_reports_installed(success: bool, stdout: &[u8]) -> (r: bool)
    ensures
        r == (success && says_installed(lowercased(lossy_text(stdout@)))),
{
    let text = from_utf8_lossy(stdout);
    let lower = to_lowercase(text.as_str());
    success && status_says_installed(lower.as_str())
}

} // verus!
