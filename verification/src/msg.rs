use vstd::prelude::*;

use crate::fraction::Fraction;

verus! {

/// Identifier of a stored contract template on the host ledger. The voting
/// machine holds one for the proxy template it spawns children from.
#[derive(Clone, Copy, Debug, PartialEq, Eq, Structural)]
pub struct CodeId(u64);

impl CodeId {
    /// The raw template identifier.
    pub closed spec fn spec_id(self) -> u64 {
        self.0
    }

    pub fn new(id: u64) -> (r: CodeId)
        ensures
            r.spec_id() == id,
    {
        CodeId(id)
    }

    pub fn id(self) -> (r: u64)
        ensures
            r == self.spec_id(),
    {
        self.0
    }
}

impl From<CodeId> for u64 {
    fn from(value: CodeId) -> (r: u64)
        ensures
            r == value.spec_id(),
    {
        value.0
    }
}

impl vstd::std_specs::convert::FromSpecImpl<CodeId> for u64 {
    open spec fn obeys_from_spec() -> bool {
        true
    }

    open spec fn from_spec(value: CodeId) -> u64 {
        value.spec_id()
    }
}

/// One coin of the host ledger: a denomination and a whole amount.
#[derive(Debug, Clone, PartialEq, Eq)]
pub struct Coin {
    pub denom: String,
    pub amount: u128,
}

/// The configuration a voting machine is bootstrapped with.
#[derive(Debug, Clone, PartialEq, Eq)]
pub struct InstantiateMsg {
    pub starting_weight: u64,
    pub denom: String,
    pub direct_part: Fraction,
    pub halftime: u64,
    pub proxy_code_id: CodeId,
    pub distribution_code_id: u64,
    pub minimal_acceptance: u64,
    pub initial_members: Vec<String>,
}

/// The operations of the voting machine.
#[derive(Debug, Clone, PartialEq, Eq)]
pub enum ExecMsg {
    ProposeMember { addr: String },
}

/// The queries of the voting machine.
#[derive(Debug, Clone, PartialEq, Eq)]
pub enum QueryMsg {
    IsMember { addr: String },
}

/// Answer to [`QueryMsg::IsMember`].
#[derive(Debug, Clone, Copy, PartialEq, Eq, Structural)]
pub struct IsMemberResponse {
    pub is_member: bool,
}

/// The values a newly spawned proxy account is initialized with. An empty
/// `distribution_contract` stands for a custodian not yet provisioned.
#[derive(Debug, Clone, PartialEq, Eq)]
pub struct ProxyInstantiateMsg {
    pub owner: String,
    pub weight: u64,
    pub denom: String,
    pub direct_part: Fraction,
    pub distribution_contract: String,
    pub membership_contract: String,
    pub halftime: u64,
}

/// One admitted participant: the owning address and its proxy account.
#[derive(Debug, Clone, PartialEq, Eq)]
pub struct ProposeMemberData {
    pub owner_addr: String,
    pub proxy_addr: String,
}

/// The finalized bootstrap result: every initial participant with its proxy.
#[derive(Debug, Clone, PartialEq, Eq)]
pub struct InstantiationData {
    pub members: Vec<ProposeMemberData>,
}

} // verus!
