use vstd::prelude::*;

verus! {

/// Errors of the challenge/proof/token protocol.
///
/// Redemption never reports an error: every failure on that path collapses
/// into a `valid: false` answer, so that a caller cannot probe why a
/// redemption was refused.
#[derive(Clone, Copy, Debug, PartialEq, Eq, Structural)]
pub enum CaptchaError {
    /// The requested site key is not registered.
    Configuration,
    /// The submitted work does not prove the required computation: the proof
    /// fails the difficulty predicate, or the challenge it names is expired,
    /// mismatched or already spent.
    InvalidProof,
    /// A freshly minted token collided with one already outstanding; handled
    /// internally by drawing a new token, never surfaced to a caller.
    DuplicateToken,
}

} // verus!
