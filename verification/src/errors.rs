//! The error taxonomy of the verification gate.
//!
//! Every error is a terminal, caller-visible outcome: there are no internal
//! failure modes, so each operation either succeeds or reports exactly one of
//! these conditions.

use vstd::prelude::*;

verus! {

/// Why a submitted post failed field validation.
#[derive(Clone, Copy, Debug, PartialEq, Eq, Structural)]
pub enum ValidationFault {
    /// Title or content is empty once surrounding whitespace is removed.
    MissingText,
    /// Title exceeds the 200-byte ceiling.
    TitleTooLong,
    /// Content exceeds the 5000-byte ceiling.
    ContentTooLong,
}

/// Every failure a verification-gate operation can report.
#[derive(Clone, Copy, Debug, PartialEq, Eq, Structural)]
pub enum GateError {
    /// The identity already completed verification once and may never
    /// start a session again.
    AlreadyVerified,
    /// The operation needs a session, and the identity has none.
    NoActiveSession,
    /// The requested challenge slot is not one of 1, 2 or 3.
    InvalidSlot,
    /// The submitted challenge id does not match the session's current
    /// challenge (or the session has no current challenge).
    InvalidChallenge,
    /// Minting needs at least three completed challenges.
    IncompleteChallenges,
    /// Refreshing needs at least one completed challenge.
    NotEligible,
    /// Posting needs a valid humanity token; the caller must (re-)verify.
    ChallengeRequired,
    /// The post fields themselves are unacceptable.
    ValidationError(ValidationFault),
    /// No humanity token exists for the identity.
    NotFound,
    /// A humanity token exists but its expiry time has passed.
    Expired,
}

} // verus!
