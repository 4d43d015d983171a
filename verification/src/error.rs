use vstd::prelude::*;

verus! {

/// Every way an operation can be rejected.  A rejected operation leaves the
/// ledger exactly as it was; no error is ever absorbed silently.
#[derive(Clone, Copy, Debug, PartialEq, Eq, Structural)]
pub enum OtoError {
    /// A claim asked for zero units or for more than the user has accrued.
    InsufficientClaimable,
    /// A checked addition would wrap a 64-bit counter.
    ArithmeticOverflow,
    /// The asset's language fails the purchase request's language filter.
    FilterLanguageMismatch,
    /// The asset's date lies outside the purchase request's date range.
    FilterDateMismatch,
    /// The purchase request's remaining budget is below its unit price.
    BudgetExhausted,
    /// The acting identity does not match the required role
    /// (administrator, user owner, or the offer's named provider).
    AuthorizationMismatch,
    /// The operation would create a record at a derived address that is
    /// already occupied (duplicate offer, proof, or registration).
    StructuralDuplicate,
    /// A token transfer asked for more units than the paying balance holds.
    InsufficientFunds,
    /// An operation named a record that does not exist.
    RecordNotFound,
}

} // verus!
