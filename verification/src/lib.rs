//! A two-tier governance and fund-custody core for ledger-resident state
//! machines: a membership registry that admits new participants by weighted
//! vote, and per-participant proxy accounts that hold and disburse funds on a
//! decaying-weight schedule.
//!
//! Every operation is a pure transition: it takes the machine's state and the
//! plain values the host hands it, and yields the new state together with the
//! sub-operations to dispatch. The host (ledger runtime) performs storage,
//! message dispatch and remote queries, and later delivers each sub-operation's
//! result as a continuation event, routed back here by its correlation tag.

pub mod error;
pub mod fraction;
pub mod membership;
pub mod msg;
pub mod proxy;
