use vstd::prelude::*;

verus! {

/// Every way a marketplace operation can fail.
///
/// Each operation aborts with one of these and leaves the state unchanged;
/// nothing partially commits.
#[derive(Clone, Copy, Debug, PartialEq, Eq, Structural)]
pub enum DropError {
    /// The caller is not the party authorized for this operation.
    AccessDenied,
    /// No request with the given id (or none in the state the operation needs).
    RequestNotFound,
    /// No token with the given id.
    TokenNotFound,
    /// No holding recorded for the given (token, account) pair.
    HolderNotFound,
    /// A pending or approved request already exists for the same
    /// (producer, publisher, token) triple.
    DuplicateRequest,
    /// The oracle attestation failed cryptographic verification.
    InvalidSignature,
    /// The oracle attestation is older than the allowed heartbeat window.
    StalePrice,
    /// The attached payment is below the computed total.
    InsufficientPayment,
    /// The purchase amount exceeds the token's available supply.
    InsufficientSupply,
    /// A zero or otherwise nonsensical quantity was supplied.
    InvalidAmount,
}

} // verus!
