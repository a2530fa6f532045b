//! Per-item business errors of the ledger operations. Validation errors are
//! returned inline per batch item; they never abort sibling items unless the
//! atomic-batch flag is set.

use vstd::prelude::*;

verus! {

/// One per-item error of a ledger operation.
#[derive(Debug)]
pub enum LedgerError {
    /// The token or approval is absent.
    NotFound,
    /// The caller is not the owner of the token or collection.
    NotOwner,
    /// The caller holds no applicable unexpired approval.
    NotAuthorized,
    /// A mint names a token id that was already minted (live or retired).
    DuplicateId,
    /// The mint would push the total supply past the supply cap.
    SupplyCapExceeded,
    /// The transfer names its own source as recipient.
    InvalidRecipient,
    /// The request's creation time falls before the dedup window.
    TooOld,
    /// The request's creation time lies too far in the future.
    CreatedInFuture,
    /// An identical recent request was already committed; carries its
    /// transaction index.
    Duplicate { duplicate_of: u128 },
    /// The approval-count limit cannot be satisfied even after eviction.
    TooManyApprovals,
    /// The approval's expiry is already in the past.
    ExpiredApproval,
    /// The memo exceeds the configured size limit.
    MemoTooLarge,
    /// Catch-all for conditions not otherwise enumerated.
    GenericBatchError { error_code: u128, message: String },
}

/// The mathematical model of a `LedgerError`.
pub enum LedgerErrorV {
    NotFound,
    NotOwner,
    NotAuthorized,
    DuplicateId,
    SupplyCapExceeded,
    InvalidRecipient,
    TooOld,
    CreatedInFuture,
    Duplicate { duplicate_of: u128 },
    TooManyApprovals,
    ExpiredApproval,
    MemoTooLarge,
    GenericBatchError { error_code: u128, message: Seq<char> },
}

impl View for LedgerError {
    type V = LedgerErrorV;

    open spec fn view(&self) -> LedgerErrorV {
        match self {
            LedgerError::NotFound => LedgerErrorV::NotFound,
            LedgerError::NotOwner => LedgerErrorV::NotOwner,
            LedgerError::NotAuthorized => LedgerErrorV::NotAuthorized,
            LedgerError::DuplicateId => LedgerErrorV::DuplicateId,
            LedgerError::SupplyCapExceeded => LedgerErrorV::SupplyCapExceeded,
            LedgerError::InvalidRecipient => LedgerErrorV::InvalidRecipient,
            LedgerError::TooOld => LedgerErrorV::TooOld,
            LedgerError::CreatedInFuture => LedgerErrorV::CreatedInFuture,
            LedgerError::Duplicate { duplicate_of } => LedgerErrorV::Duplicate {
                duplicate_of: *duplicate_of,
            },
            LedgerError::TooManyApprovals => LedgerErrorV::TooManyApprovals,
            LedgerError::ExpiredApproval => LedgerErrorV::ExpiredApproval,
            LedgerError::MemoTooLarge => LedgerErrorV::MemoTooLarge,
            LedgerError::GenericBatchError { error_code, message } =>
                LedgerErrorV::GenericBatchError { error_code: *error_code, message: message@ },
        }
    }
}

impl Clone for LedgerError {
    /// The copy models the same error.
    fn clone(&self) -> (res: Self)
        ensures
            res@ == self@,
    {
        match self {
            LedgerError::NotFound => LedgerError::NotFound,
            LedgerError::NotOwner => LedgerError::NotOwner,
            LedgerError::NotAuthorized => LedgerError::NotAuthorized,
            LedgerError::DuplicateId => LedgerError::DuplicateId,
            LedgerError::SupplyCapExceeded => LedgerError::SupplyCapExceeded,
            LedgerError::InvalidRecipient => LedgerError::InvalidRecipient,
            LedgerError::TooOld => LedgerError::TooOld,
            LedgerError::CreatedInFuture => LedgerError::CreatedInFuture,
            LedgerError::Duplicate { duplicate_of } => LedgerError::Duplicate {
                duplicate_of: *duplicate_of,
            },
            LedgerError::TooManyApprovals => LedgerError::TooManyApprovals,
            LedgerError::ExpiredApproval => LedgerError::ExpiredApproval,
            LedgerError::MemoTooLarge => LedgerError::MemoTooLarge,
            LedgerError::GenericBatchError { error_code, message } =>
                LedgerError::GenericBatchError {
                    error_code: *error_code,
                    message: message.clone(),
                },
        }
    }
}

impl PartialEq for LedgerError {
    fn eq(&self, other: &LedgerError) -> (r: bool) {
        match (self, other) {
            (LedgerError::NotFound, LedgerError::NotFound) => true,
            (LedgerError::NotOwner, LedgerError::NotOwner) => true,
            (LedgerError::NotAuthorized, LedgerError::NotAuthorized) => true,
            (LedgerError::DuplicateId, LedgerError::DuplicateId) => true,
            (LedgerError::SupplyCapExceeded, LedgerError::SupplyCapExceeded) => true,
            (LedgerError::InvalidRecipient, LedgerError::InvalidRecipient) => true,
            (LedgerError::TooOld, LedgerError::TooOld) => true,
            (LedgerError::CreatedInFuture, LedgerError::CreatedInFuture) => true,
            (
                LedgerError::Duplicate { duplicate_of: a },
                LedgerError::Duplicate { duplicate_of: b },
            ) => a == b,
            (LedgerError::TooManyApprovals, LedgerError::TooManyApprovals) => true,
            (LedgerError::ExpiredApproval, LedgerError::ExpiredApproval) => true,
            (LedgerError::MemoTooLarge, LedgerError::MemoTooLarge) => true,
            (
                LedgerError::GenericBatchError { error_code: a, message: m },
                LedgerError::GenericBatchError { error_code: b, message: n },
            ) => *a == *b && *m == *n,
            _ => false,
        }
    }
}

impl vstd::std_specs::cmp::PartialEqSpecImpl for LedgerError {
    open spec fn obeys_eq_spec() -> bool {
        true
    }

    open spec fn eq_spec(&self, other: &LedgerError) -> bool {
        self@ == other@
    }
}

} // verus!
