//! The closed set of failures that ledger operations report.

use vstd::prelude::*;

verus! {

/// Why an intent was rejected before the store was touched.
#[derive(Clone, Copy, Debug, PartialEq, Eq, Structural)]
pub enum Invalid {
    /// The quantity was zero or negative.
    NonPositiveQuantity,
    /// The movement kind was neither of the two known tags.
    UnknownKind,
}

/// A failed ledger operation.
#[derive(Clone, Debug, PartialEq, Eq)]
pub enum LedgerError {
    /// The intent was malformed; nothing was read or written.
    Validation(Invalid),
    /// The sale asked for more than the balance at settlement time.
    InsufficientStock { available: i64, requested: i32 },
    /// The store failed; any open transaction was rolled back.
    Storage { message: String },
    /// The store detected an overlapping write; the caller may retry.
    ConcurrencyConflict,
}

/// Mathematical form of a [`LedgerError`].
pub enum LedgerErrorView {
    Validation(Invalid),
    InsufficientStock { available: int, requested: int },
    Storage { message: Seq<char> },
    ConcurrencyConflict,
}

impl View for LedgerError {
    type V = LedgerErrorView;

    open spec fn view(&self) -> LedgerErrorView {
        match *self {
            LedgerError::Validation(why) => LedgerErrorView::Validation(why),
            LedgerError::InsufficientStock { available, requested } => {
                LedgerErrorView::InsufficientStock {
                    available: available as int,
                    requested: requested as int,
                }
            },
            LedgerError::Storage { message } => LedgerErrorView::Storage { message: message@ },
            LedgerError::ConcurrencyConflict => LedgerErrorView::ConcurrencyConflict,
        }
    }
}

} // verus!
