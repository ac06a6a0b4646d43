//! Error taxonomy shared by every operation of the platform.

use vstd::prelude::*;

verus! {

/// Typed failure returned by every fallible operation.
///
/// - `AuthError`: the caller is unauthenticated (the anonymous sentinel) or
///   lacks a required permission.
/// - `ValidationError`: malformed or out-of-range input.
/// - `ConflictError`: duplicate creation (wallet, inner-circle member) or a
///   write to a transaction already in a terminal state.
/// - `NotFoundError`: a wallet, alert or record that does not exist.
/// - `InsufficientFundsError`: a balance check failed at the moment of debit.
/// - `AdapterError`: the external payment adapter reported failure.
#[derive(Clone, Copy, Debug, PartialEq, Eq, Structural)]
pub enum CafeError {
    AuthError,
    ValidationError,
    ConflictError,
    NotFoundError,
    InsufficientFundsError,
    AdapterError,
}

} // verus!
