use vstd::prelude::*;

verus! {

/// Why an incoming payment was refused.
#[derive(Debug, Clone, PartialEq, Eq)]
pub enum PaymentError {
    /// A single coin was sent, but not of the requested denomination
    /// (the payload is the denomination that was asked for).
    MissingDenom(String),
    /// A coin of an unsupported denomination was sent.
    ExtraDenom(String),
    /// More than one denomination was sent.
    MultipleDenoms,
    /// Nothing was sent, or the single coin sent had a zero amount.
    NoFunds,
    /// The operation accepts no funds at all.
    NonPayable,
}

/// Every way an operation of the voting machine or of a proxy account can
/// fail. Validation and authorization errors are raised before any state is
/// written; the protocol-invariant errors mark a violated continuation
/// protocol and abort the whole unit of work.
#[derive(Debug, Clone, PartialEq, Eq)]
pub enum ContractError {
    /// A failure reported by the host or by a sub-operation, carried verbatim.
    Std(String),
    /// A continuation result payload that could not be decoded.
    ParseReplyError(String),
    /// Bootstrap was asked to start with fewer initial members than the
    /// acceptance threshold.
    NotEnoughInitialMembers,
    /// Bootstrap was asked for an acceptance threshold below two.
    NotEnoughRequiredAcceptances,
    /// The caller is not a member, or not the owner of the proxy account.
    Unauthorized,
    /// A continuation that must carry a result payload arrived without one.
    MissingData,
    /// A continuation arrived under a correlation tag nobody issued.
    UnrecognizedReplyId(u64),
    /// The (voter, candidate) pair has already cast this vote.
    AlreadyVoted,
    /// The candidate's owner already controls an existing proxy account.
    AlreadyAMember,
    /// The funds attached to the operation were refused.
    Payment(PaymentError),
    /// A bootstrap continuation arrived although none is awaited any more:
    /// the barrier counter would fall below zero.
    UnexpectedInitialReply,
    /// A withdrawal continuation arrived with no staged withdrawal intent.
    MissingPendingState,
    /// A withdrawal was requested while an earlier intent is still
    /// outstanding.
    WithdrawalPending,
    /// A state-mutating operation was attempted on a closed proxy account.
    AlreadyClosed,
    /// The fund custodian reference has already been backfilled.
    CustodianAlreadySet,
}

} // verus!
