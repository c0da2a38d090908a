//! Shared value types: the opaque commitment word and the error taxonomy.

use vstd::prelude::*;

verus! {

/// A fixed-width opaque value of four 64-bit limbs.
///
/// Commitments, note hashes and deal identifiers are carried as words.
/// A commitment binds a set of private fields through a one-way function;
/// only its first limb is persisted in a ledger record, and the sentinel
/// for an absent record is a word whose first limb is zero.
#[derive(Clone, Copy, PartialEq, Eq, Structural, Debug)]
pub struct Word {
    pub e0: u64,
    pub e1: u64,
    pub e2: u64,
    pub e3: u64,
}

impl Word {
    pub fn new(e0: u64, e1: u64, e2: u64, e3: u64) -> (w: Word)
        ensures
            w == (Word { e0, e1, e2, e3 }),
    {
        Word { e0, e1, e2, e3 }
    }

    /// The all-zero word: the sentinel for "unset".
    pub fn zero() -> (w: Word)
        ensures
            w == (Word { e0: 0, e1: 0, e2: 0, e3: 0 }),
    {
        Word { e0: 0, e1: 0, e2: 0, e3: 0 }
    }
}

/// Why a ledger operation was rejected. Every operation either fully
/// succeeds or fully aborts with one of these; no partial mutation is
/// ever observable.
#[derive(Clone, Copy, PartialEq, Eq, Structural, Debug)]
pub enum LedgerError {
    /// A zero amount where a positive one is required.
    InvalidAmount,
    /// Offer bounds that do not satisfy `0 < min <= max`.
    InvalidBounds,
    /// A commitment whose stored limb is the unset sentinel.
    InvalidCommitment,
    /// The balance cannot cover the requested debit.
    InsufficientBalance,
    /// A credit would push a balance past the largest storable value.
    BalanceOverflow,
    /// The identifier counter has exhausted the id space.
    IdExhausted,
    /// No record exists under the given identifier.
    NotFound,
    /// The request was already matched and can no longer be cancelled.
    AlreadyMatched,
    /// The request is not matched, so settlement has nothing to release.
    NotMatched,
    /// The cooldown period has not elapsed yet.
    CooldownNotEnded,
    /// A stored term does not match the supplied expected term.
    CommitmentMismatch,
}

/// The three classes of the error taxonomy: parameter validation,
/// incompatible record state, and cross-ledger consistency.
#[derive(Clone, Copy, PartialEq, Eq, Structural, Debug)]
pub enum ErrorClass {
    Validation,
    State,
    Consistency,
}

/// The class an error belongs to.
pub open spec fn spec_class_of(e: LedgerError) -> ErrorClass {
    match e {
        LedgerError::InvalidAmount => ErrorClass::Validation,
        LedgerError::InvalidBounds => ErrorClass::Validation,
        LedgerError::InvalidCommitment => ErrorClass::Validation,
        LedgerError::InsufficientBalance => ErrorClass::Validation,
        LedgerError::BalanceOverflow => ErrorClass::Validation,
        LedgerError::IdExhausted => ErrorClass::State,
        LedgerError::NotFound => ErrorClass::State,
        LedgerError::AlreadyMatched => ErrorClass::State,
        LedgerError::NotMatched => ErrorClass::State,
        LedgerError::CooldownNotEnded => ErrorClass::State,
        LedgerError::CommitmentMismatch => ErrorClass::Consistency,
    }
}

impl LedgerError {
    pub fn class(&self) -> (c: ErrorClass)
        ensures
            c == spec_class_of(*self),
    {
        match self {
            LedgerError::InvalidAmount => ErrorClass::Validation,
            LedgerError::InvalidBounds => ErrorClass::Validation,
            LedgerError::InvalidCommitment => ErrorClass::Validation,
            LedgerError::InsufficientBalance => ErrorClass::Validation,
            LedgerError::BalanceOverflow => ErrorClass::Validation,
            LedgerError::IdExhausted => ErrorClass::State,
            LedgerError::NotFound => ErrorClass::State,
            LedgerError::AlreadyMatched => ErrorClass::State,
            LedgerError::NotMatched => ErrorClass::State,
            LedgerError::CooldownNotEnded => ErrorClass::State,
            LedgerError::CommitmentMismatch => ErrorClass::Consistency,
        }
    }
}

} // verus!
