use vstd::prelude::*;

verus! {

/// The step of an external query at which it failed.
#[derive(Clone, Copy, Debug, PartialEq, Eq, Structural)]
pub enum QueryFault {
    /// The query descriptor could not be serialized.
    Serialize,
    /// The host could not route or run the query.
    System,
    /// The queried contract answered with an error.
    Contract,
}

/// A part that an acknowledgment of account creation must have.
#[derive(Clone, Copy, Debug, PartialEq, Eq, Structural)]
pub enum AckPart {
    /// An event with the attribute `action` of value `instantiate`.
    InstantiateEvent,
    /// The attribute `owner` of that event.
    Owner,
    /// The attribute `contract_addr` of that event.
    ContractAddr,
}

/// Everything that can go wrong in the controller.
#[derive(Clone, Debug, PartialEq, Eq)]
pub enum ContractError {
    /// An external query did not produce a payload; `reason` is the
    /// diagnostic text, prefixed by the step that failed.
    QueryFailed { fault: QueryFault, reason: String },
    /// A payload was not readable text, not a document, or the value at the
    /// selected place is missing or of another type than the one asked for.
    DecodeError,
    /// Division or remainder with a zero divisor.
    DivisionByZero,
    /// A checked operation left the range of its domain.
    Overflow,
    /// No pending job has the given id.
    JobNotFound,
    /// The job has already reached a final state.
    JobAlreadyFinished,
    /// The job's condition does not hold at present.
    ConditionNotMet,
    /// No account is registered for the given owner.
    AccountNotFound,
    /// The owner already has an account.
    AccountAlreadyExists,
    /// The account could not be created; `reason` is what the sub-call reported.
    AccountCreationFailed { reason: String },
    /// An acknowledgment lacks the part `missing`.
    MalformedAcknowledgment { missing: AckPart },
    /// The creation fee is above one hundred percent.
    CreationFeeTooHigh,
    /// The cancellation fee is above one hundred percent.
    CancellationFeeTooHigh,
    /// The host does not accept the text as an address.
    InvalidAddress,
    /// No further job id is left to give out.
    JobIdsExhausted,
    /// The records handed over contradict one another: a job in two places,
    /// under two ids or in the wrong state, or an account that clashes with
    /// another.
    InvalidState,
}

} // verus!
