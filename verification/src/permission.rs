//! The permission evaluator: pure decisions from an identity and a target
//! VEN to allow or deny.
//!
//! Evaluation is synchronous, deterministic and side-effect-free, and is
//! re-run on every operation; nothing is cached, because each request can
//! carry a different role set.

use vstd::prelude::*;

use crate::error::AppError;
use crate::identity::Identity;
use crate::ven::VenId;

verus! {

/// Whether `user` may write (create, update or delete) a record owned by
/// the VEN named `ven`: allowed for a VEN manager, and for a VEN-scoped
/// role held for exactly that VEN.
pub open spec fn write_allowed(user: Identity, ven: Seq<char>) -> bool {
    user.spec_is_ven_manager() || (user.spec_is_ven() && user.spec_holds_ven(ven))
}

/// Whether `user` may read a record owned by the VEN named `ven`.
///
/// Reads use the same rule as writes: no broader read-only grant exists
/// for VEN-owned records in this design, a known deviation from stricter
/// interpretations that intend VEN-only write access with broader read
/// access.
pub open spec fn read_allowed(user: Identity, ven: Seq<char>) -> bool {
    write_allowed(user, ven)
}

/// The message every denied VEN-scoped operation carries.
pub open spec fn forbidden_msg() -> Seq<char> {
    "User not authorized to access this resource"@
}

/// Gate of every VEN-scoped operation: `Ok` exactly when `user` may write
/// records owned by the VEN named by `ven_id`, and a `Forbidden` error
/// otherwise.
pub fn has_write_permission(user: &Identity, ven_id: &VenId) -> (r: Result<(), AppError>)
    ensures
        r is Ok <==> write_allowed(*user, ven_id@),
        r matches Err(e) ==> e matches AppError::Forbidden(m) && m@ == forbidden_msg(),
{
    if user.is_ven_manager() {
        return Ok(());
    }
    if user.is_ven() && user.holds_ven(ven_id) {
        return Ok(());
    }
    Err(AppError::Forbidden("User not authorized to access this resource".to_owned()))
}

} // verus!
