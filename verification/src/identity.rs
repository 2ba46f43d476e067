//! Identifiers of plates and transfers: universally unique identifiers,
//! held as the 128-bit number that their sixteen bytes spell.

use vstd::prelude::*;
use uuid::Uuid;

verus! {

/// The identifier that names nothing: a plate or transfer not chosen yet.
pub const NIL_ID: u128 = 0;

/// A new identifier: `Uuid::now_v7` makes it from the system's clock and
/// random bits, and `Uuid::as_u128` packs its bytes into a number. What
/// comes back differs from call to call, so nothing is promised of it. The
/// call panics on a machine whose clock stands before 1970.
#[verifier::external_body]
pub(crate) fn fresh_id() -> u128 {
    Uuid::now_v7().as_u128()
}

} // verus!
