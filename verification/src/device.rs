//! Which badge firmware family a send operation targets, and the rule the
//! automatic selection follows.

use crate::error::BadgeError;
use vstd::prelude::*;

verus! {

/// Badge type: a fixed firmware family, or automatic detection, which tries
/// each family in order and keeps the first whose device is present.
#[derive(Debug, PartialEq, Eq, Structural, Copy, Clone)]
pub enum BadgeType {
    Auto,
    S1144,
    B1248,
}

/// The automatic selection rule: after one family's send attempt, go on to
/// the next family exactly when this family's device was not found; any
/// other outcome — success or a different error — is final.
pub fn try_next_family(result: &Result<(), BadgeError>) -> (b: bool)
    ensures
        b == (result matches Err(BadgeError::BadgeNotFound)),
{
    match result {
        Err(BadgeError::BadgeNotFound) => true,
        _ => false,
    }
}

} // verus!
