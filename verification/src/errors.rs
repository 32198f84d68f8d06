//! The two-level error taxonomy of the transaction family.
//!
//! `InvalidTransaction` rejects a transaction for a business-rule
//! violation; `InternalError` reports state corruption or a host fault.

use vstd::prelude::*;

verus! {

/// Result of applying a transaction: either a business-rule rejection,
/// visible to the client, or an internal (retryable) failure.
#[derive(Debug)]
pub enum ApplyError {
    InvalidTransaction(String),
    InternalError(String),
}

impl ApplyError {
    /// The human-readable message carried by either variant.
    pub fn message(&self) -> (r: &String)
        ensures
            r@ == self.msg_view(),
    {
        match self {
            ApplyError::InvalidTransaction(m) => m,
            ApplyError::InternalError(m) => m,
        }
    }

    /// True of a business-rule rejection.
    pub open spec fn is_invalid(&self) -> bool {
        self is InvalidTransaction
    }

    /// True of an internal (state-corruption or host) failure.
    pub open spec fn is_internal(&self) -> bool {
        self is InternalError
    }

    /// The message carried by either variant, as a sequence of characters.
    pub open spec fn msg_view(&self) -> Seq<char> {
        match self {
            ApplyError::InvalidTransaction(m) => m@,
            ApplyError::InternalError(m) => m@,
        }
    }
}

} // verus!
