//! The membership voting machine: admits new participants by vote and
//! coordinates the bootstrap barrier over the initial proxy creations.
//!
//! Each operation is a pure transition on [`MembershipState`]. Sub-operations
//! to the host come back as [`ProxyInstantiation`] requests; the host executes
//! them and later delivers each result as a continuation, which the transition
//! for its correlation tag consumes.

use vstd::prelude::*;

use crate::error::ContractError;
use crate::fraction::Fraction;
use crate::msg::{CodeId, InstantiateMsg, InstantiationData, ProposeMemberData, ProxyInstantiateMsg};

verus! {

/// Correlation tag on the proxy creations issued during bootstrap.
pub const INITIAL_PROXY_INSTANTIATION_REPLY_ID: u64 = 1;
/// Correlation tag on the proxy creation issued by an accepted proposal.
pub const PROXY_INSTANTIATION_REPLY_ID: u64 = 2;

/// Immutable admission and distribution parameters of one voting machine.
/// Only the custodian reference may be backfilled after creation.
#[derive(Debug, Clone, PartialEq, Eq)]
pub struct Config {
    pub starting_weight: u64,
    pub denom: String,
    pub direct_part: Fraction,
    pub halftime: u64,
    pub proxy_code_id: CodeId,
    /// The fund custodian, once provisioned. `None` until backfilled.
    pub distribution_contract: Option<String>,
    pub minimal_acceptances: u64,
}

/// An in-flight candidacy: a candidate and its distinct-voter tally.
#[derive(Debug, Clone, PartialEq, Eq)]
pub struct Proposal {
    pub candidate: String,
    pub votes: u64,
}

/// A cast (voter, candidate) pair. Its existence marks "already voted";
/// votes are never retracted.
#[derive(Debug, Clone, PartialEq, Eq)]
pub struct Vote {
    pub voter: String,
    pub candidate: String,
}

/// The mathematical model of a [`Config`].
pub struct ConfigView {
    pub starting_weight: u64,
    pub denom: Seq<char>,
    pub direct_part: Fraction,
    pub halftime: u64,
    pub proxy_code_id: CodeId,
    pub distribution_contract: Option<Seq<char>>,
    pub minimal_acceptances: u64,
}

impl View for Config {
    type V = ConfigView;

    open spec fn view(&self) -> ConfigView {
        ConfigView {
            starting_weight: self.starting_weight,
            denom: self.denom@,
            direct_part: self.direct_part,
            halftime: self.halftime,
            proxy_code_id: self.proxy_code_id,
            distribution_contract: match self.distribution_contract {
                Some(d) => Some(d@),
                None => None,
            },
            minimal_acceptances: self.minimal_acceptances,
        }
    }
}

/// Whether some element of `s` reads `x`.
pub open spec fn contains_string(s: Seq<String>, x: Seq<char>) -> bool {
    exists|i: int| 0 <= i < s.len() && s[i]@ == x
}

/// The tally recorded for candidate `c`, if a proposal for it is on file.
pub open spec fn proposal_votes(s: Seq<Proposal>, c: Seq<char>) -> Option<u64>
    decreases s.len(),
{
    if s.len() == 0 {
        None
    } else if s.last().candidate@ == c {
        Some(s.last().votes)
    } else {
        proposal_votes(s.drop_last(), c)
    }
}

/// Whether a proposal for candidate `c` is on file.
pub open spec fn has_candidate(s: Seq<Proposal>, c: Seq<char>) -> bool {
    exists|i: int| 0 <= i < s.len() && s[i].candidate@ == c
}

/// Whether `voter` has already voted for `candidate`.
pub open spec fn has_vote(s: Seq<Vote>, voter: Seq<char>, candidate: Seq<char>) -> bool {
    exists|i: int|
        0 <= i < s.len() && s[i].voter@ == voter && s[i].candidate@ == candidate
}

/// No two elements of `s` read alike.
pub open spec fn distinct_strings(s: Seq<String>) -> bool {
    forall|i: int, j: int| 0 <= i < j < s.len() ==> s[i]@ != s[j]@
}

/// No two proposals in `s` concern the same candidate.
pub open spec fn distinct_candidates(s: Seq<Proposal>) -> bool {
    forall|i: int, j: int| 0 <= i < j < s.len() ==> s[i].candidate@ != s[j].candidate@
}

/// No (voter, candidate) pair is recorded twice in `s`.
pub open spec fn distinct_votes(s: Seq<Vote>) -> bool {
    forall|i: int, j: int|
        0 <= i < j < s.len() ==> !(s[i].voter@ == s[j].voter@ && s[i].candidate@
            == s[j].candidate@)
}

/// The proposal list read as a map from candidate to tally.
pub open spec fn proposals_map(s: Seq<Proposal>) -> Map<Seq<char>, u64> {
    Map::new(
        |c: Seq<char>| proposal_votes(s, c) is Some,
        |c: Seq<char>| proposal_votes(s, c)->0,
    )
}

/// The vote records read as a set of (voter, candidate) pairs.
pub open spec fn votes_set(s: Seq<Vote>) -> Set<(Seq<char>, Seq<char>)> {
    Set::new(|p: (Seq<char>, Seq<char>)| has_vote(s, p.0, p.1))
}

/// The mathematical model of a voting machine: the member set (as the
/// sequence of admitted proxy addresses), the open proposals, the cast
/// votes, and the bootstrap barrier counter.
pub struct MembershipView {
    pub config: ConfigView,
    pub members: Seq<Seq<char>>,
    pub proposals: Map<Seq<char>, u64>,
    pub votes: Set<(Seq<char>, Seq<char>)>,
    pub awaiting_initial_resps: u64,
}

/// The persistent state of one voting machine instance.
#[derive(Debug, Clone, PartialEq, Eq)]
pub struct MembershipState {
    pub config: Config,
    /// Admitted proxy account addresses.
    pub members: Vec<String>,
    /// Open candidacies, keyed by candidate address.
    pub proposals: Vec<Proposal>,
    /// Cast (voter, candidate) pairs.
    pub votes: Vec<Vote>,
    /// Bootstrap continuations still unconfirmed.
    pub awaiting_initial_resps: u64,
}

impl View for MembershipState {
    type V = MembershipView;

    open spec fn view(&self) -> MembershipView {
        MembershipView {
            config: self.config@,
            members: self.members@.map_values(|m: String| m@),
            proposals: proposals_map(self.proposals@),
            votes: votes_set(self.votes@),
            awaiting_initial_resps: self.awaiting_initial_resps,
        }
    }
}

impl MembershipState {
    /// Internal consistency: the threshold is meaningful, members and
    /// candidacies are free of duplicates, every open tally is at least one
    /// and still short of the threshold (a candidacy that reaches it is
    /// resolved at once and never persists), and no vote is on file twice.
    pub open spec fn wf(&self) -> bool {
        &&& self.config.minimal_acceptances >= 2
        &&& distinct_strings(self.members@)
        &&& distinct_candidates(self.proposals@)
        &&& forall|i: int|
            0 <= i < self.proposals@.len()
                ==> 1 <= #[trigger] self.proposals@[i].votes < self.config.minimal_acceptances
        &&& distinct_votes(self.votes@)
    }

    /// Pure membership query: whether `addr` is an admitted proxy address.
    pub fn is_member(&self, addr: &String) -> (r: bool)
        ensures
            r == self@.members.contains(addr@),
    {
        let r = vec_contains_string(&self.members, addr);
        proof {
            let ms = self.members@.map_values(|m: String| m@);
            assert(contains_string(self.members@, addr@) == ms.contains(addr@)) by {
                if contains_string(self.members@, addr@) {
                    let i = choose|i: int|
                        0 <= i < self.members@.len() && self.members@[i]@ == addr@;
                    assert(ms[i] == addr@);
                }
                if ms.contains(addr@) {
                    let i = choose|i: int| 0 <= i < ms.len() && ms[i] == addr@;
                    assert(self.members@[i]@ == addr@);
                }
            }
        }
        r
    }
}

/// A request to the host to spawn one proxy account from the stored
/// template, with the continuation tag its result must come back under.
#[derive(Debug, Clone, PartialEq, Eq)]
pub struct ProxyInstantiation {
    pub code_id: CodeId,
    pub reply_id: u64,
    pub msg: ProxyInstantiateMsg,
}

/// What `a` must read to be the bootstrap creation request for the `j`-th
/// initial member of `msg`, issued by the machine at `self_addr`.
pub open spec fn is_initial_instantiation(
    a: ProxyInstantiation,
    msg: InstantiateMsg,
    self_addr: Seq<char>,
    j: int,
) -> bool {
    &&& a.code_id == msg.proxy_code_id
    &&& a.reply_id == INITIAL_PROXY_INSTANTIATION_REPLY_ID
    &&& a.msg.owner@ == msg.initial_members@[j]@
    &&& a.msg.weight == msg.starting_weight
    &&& a.msg.denom@ == msg.denom@
    &&& a.msg.direct_part == msg.direct_part
    &&& a.msg.distribution_contract@ == Seq::<char>::empty()
    &&& a.msg.membership_contract@ == self_addr
    &&& a.msg.halftime == msg.halftime
}

/// The model of the state `instantiate` leaves behind on success.
pub open spec fn bootstrapped_view(msg: InstantiateMsg) -> MembershipView {
    MembershipView {
        config: ConfigView {
            starting_weight: msg.starting_weight,
            denom: msg.denom@,
            direct_part: msg.direct_part,
            halftime: msg.halftime,
            proxy_code_id: msg.proxy_code_id,
            distribution_contract: None,
            minimal_acceptances: msg.minimal_acceptance,
        },
        members: Seq::empty(),
        proposals: Map::empty(),
        votes: Set::empty(),
        awaiting_initial_resps: msg.initial_members@.len() as u64,
    }
}

impl MembershipState {
    /// Bootstrap a voting machine at address `self_addr`. The configuration
    /// is validated before any state exists: the acceptance threshold must be
    /// at least two and met by the initial member count. On success, one
    /// creation request per initial member is issued, all under the
    /// bootstrap correlation tag, and the barrier counter starts at their
    /// number. The member set stays empty until the continuations confirm
    /// the created accounts.
    pub fn instantiate(msg: InstantiateMsg, self_addr: &String) -> (r: Result<
        (MembershipState, Vec<ProxyInstantiation>),
        ContractError,
    >)
        ensures
            msg.minimal_acceptance < 2 ==> r == Err::<(MembershipState, Vec<ProxyInstantiation>),
                _,
            >(ContractError::NotEnoughRequiredAcceptances),
            msg.minimal_acceptance >= 2 && msg.initial_members@.len() < msg.minimal_acceptance
                ==> r == Err::<(MembershipState, Vec<ProxyInstantiation>), _>(
                ContractError::NotEnoughInitialMembers,
            ),
            msg.minimal_acceptance >= 2 && msg.initial_members@.len() >= msg.minimal_acceptance
                ==> {
                &&& r is Ok
                &&& r->Ok_0.0.wf()
                &&& r->Ok_0.0@ == bootstrapped_view(msg)
                &&& r->Ok_0.1@.len() == msg.initial_members@.len()
                &&& forall|j: int|
                    0 <= j < msg.initial_members@.len()
                        ==> is_initial_instantiation(#[trigger] r->Ok_0.1@[j], msg, self_addr@, j)
            },
    {
        if msg.minimal_acceptance < 2 {
            return Err(ContractError::NotEnoughRequiredAcceptances);
        }
        if (msg.initial_members.len() as u64) < msg.minimal_acceptance {
            return Err(ContractError::NotEnoughInitialMembers);
        }
        let mut requests: Vec<ProxyInstantiation> = Vec::new();
        let mut i: usize = 0;
        while i < msg.initial_members.len()
            invariant
                i <= msg.initial_members@.len(),
                requests@.len() == i,
                forall|j: int|
                    0 <= j < i ==> is_initial_instantiation(
                        #[trigger] requests@[j],
                        msg,
                        self_addr@,
                        j,
                    ),
            decreases msg.initial_members@.len() - i,
        {
            requests.push(
                ProxyInstantiation {
                    code_id: msg.proxy_code_id,
                    reply_id: INITIAL_PROXY_INSTANTIATION_REPLY_ID,
                    msg: ProxyInstantiateMsg {
                        owner: msg.initial_members[i].clone(),
                        weight: msg.starting_weight,
                        denom: msg.denom.clone(),
                        direct_part: msg.direct_part,
                        distribution_contract: String::new(),
                        membership_contract: self_addr.clone(),
                        halftime: msg.halftime,
                    },
                },
            );
            i += 1;
        }
        let awaiting = msg.initial_members.len() as u64;
        let state = MembershipState {
            config: Config {
                starting_weight: msg.starting_weight,
                denom: msg.denom,
                direct_part: msg.direct_part,
                halftime: msg.halftime,
                proxy_code_id: msg.proxy_code_id,
                distribution_contract: None,
                minimal_acceptances: msg.minimal_acceptance,
            },
            members: Vec::new(),
            proposals: Vec::new(),
            votes: Vec::new(),
            awaiting_initial_resps: awaiting,
        };
        proof {
            assert(state@.members =~= Seq::<Seq<char>>::empty());
            assert(state@.proposals =~= Map::<Seq<char>, u64>::empty());
            assert(state@.votes =~= Set::<(Seq<char>, Seq<char>)>::empty());
            assert(state@ == bootstrapped_view(msg));
        }
        Ok((state, requests))
    }

    /// Backfill the fund-custodian reference, the one mutation `Config`
    /// admits after creation. It is set exactly once.
    pub fn set_distribution_contract(&mut self, addr: String) -> (r: Result<(), ContractError>)
        ensures
            match old(self).config.distribution_contract {
                Some(_) => r == Err::<(), _>(ContractError::CustodianAlreadySet) && *final(self)
                    == *old(self),
                None => {
                    &&& r == Ok::<_, ContractError>(())
                    &&& final(self)@ == MembershipView {
                        config: ConfigView {
                            distribution_contract: Some(addr@),
                            ..old(self)@.config
                        },
                        ..old(self)@
                    }
                    &&& old(self).wf() ==> final(self).wf()
                },
            },
    {
        if self.config.distribution_contract.is_some() {
            return Err(ContractError::CustodianAlreadySet);
        }
        self.config.distribution_contract = Some(addr);
        Ok(())
    }
}

/// The caller-visible outcome of a vote: the candidacy is still pending with
/// its running tally, or the threshold was reached and the admission's proxy
/// creation has been issued.
#[derive(Debug, Clone, PartialEq, Eq)]
pub enum ProposeOutcome {
    Pending { votes: u64 },
    Admitted { instantiation: ProxyInstantiation },
}

/// What `a` must read to be the creation request for an admitted candidate,
/// spawned under configuration `cfg` by the machine at `self_addr`. A
/// custodian not yet backfilled is handed down as the empty sentinel.
pub open spec fn is_admission_instantiation(
    a: ProxyInstantiation,
    cfg: ConfigView,
    candidate: Seq<char>,
    self_addr: Seq<char>,
) -> bool {
    &&& a.code_id == cfg.proxy_code_id
    &&& a.reply_id == PROXY_INSTANTIATION_REPLY_ID
    &&& a.msg.owner@ == candidate
    &&& a.msg.weight == cfg.starting_weight
    &&& a.msg.denom@ == cfg.denom
    &&& a.msg.direct_part == cfg.direct_part
    &&& a.msg.distribution_contract@ == match cfg.distribution_contract {
        Some(d) => d,
        None => Seq::<char>::empty(),
    }
    &&& a.msg.membership_contract@ == self_addr
    &&& a.msg.halftime == cfg.halftime
}

/// The tally `candidate` holds before a new vote, reading "no proposal on
/// file" as zero.
pub open spec fn prior_votes(v: MembershipView, candidate: Seq<char>) -> int {
    if v.proposals.dom().contains(candidate) {
        v.proposals[candidate] as int
    } else {
        0
    }
}

impl MembershipState {
    /// One member (`sender`, a proxy address) votes to admit `candidate`.
    /// `owners` are the owner addresses behind the current member proxies,
    /// as the host read them back; a candidate among them already controls a
    /// proxy and is refused. A vote below the threshold is only bookkeeping;
    /// the vote that reaches it resolves the candidacy: the proposal record
    /// is deleted and exactly one proxy creation is issued, tagged for the
    /// admission continuation.
    pub fn propose_member(
        &mut self,
        sender: &String,
        candidate: String,
        owners: &Vec<String>,
        self_addr: &String,
    ) -> (r: Result<ProposeOutcome, ContractError>)
        requires
            old(self).wf(),
        ensures
            final(self).wf(),
            !old(self)@.members.contains(sender@) ==> r == Err::<ProposeOutcome, _>(
                ContractError::Unauthorized,
            ) && *final(self) == *old(self),
            old(self)@.members.contains(sender@) && contains_string(owners@, candidate@) ==> r
                == Err::<ProposeOutcome, _>(ContractError::AlreadyAMember) && *final(self) == *old(self),
            old(self)@.members.contains(sender@) && !contains_string(owners@, candidate@) && old(self)@.votes.contains((sender@, candidate@)) ==> r == Err::<ProposeOutcome, _>(
                ContractError::AlreadyVoted,
            ) && *final(self) == *old(self),
            old(self)@.members.contains(sender@) && !contains_string(owners@, candidate@) && !old(self)@.votes.contains((sender@, candidate@)) ==> {
                let n = prior_votes(old(self)@, candidate@) + 1;
                &&& final(self)@.votes == old(self)@.votes.insert((sender@, candidate@))
                &&& final(self)@.members == old(self)@.members
                &&& final(self)@.config == old(self)@.config
                &&& final(self)@.awaiting_initial_resps == old(self)@.awaiting_initial_resps
                &&& n < old(self)@.config.minimal_acceptances ==> final(self)@.proposals == old(self)@.proposals.insert(candidate@, n as u64) && r == Ok::<_, ContractError>(
                    ProposeOutcome::Pending { votes: n as u64 },
                )
                &&& n >= old(self)@.config.minimal_acceptances ==> final(self)@.proposals == old(self)@.proposals.remove(candidate@) && (r matches Ok(ProposeOutcome::Admitted {
                    instantiation,
                }) && is_admission_instantiation(
                    instantiation,
                    old(self)@.config,
                    candidate@,
                    self_addr@,
                ))
            },
    {
        proof {
            lemma_contains_view(self.members@, sender@);
        }
        if !vec_contains_string(&self.members, sender) {
            return Err(ContractError::Unauthorized);
        }
        if vec_contains_string(owners, &candidate) {
            return Err(ContractError::AlreadyAMember);
        }
        if vote_exists(&self.votes, sender, &candidate) {
            return Err(ContractError::AlreadyVoted);
        }
        let prior = match proposal_get(&self.proposals, &candidate) {
            Some(p) => {
                proof {
                    lemma_votes_some_element(self.proposals@, candidate@);
                }
                p
            },
            None => 0,
        };
        let n = prior + 1;
        let ghost votes0 = self.votes@;
        let pushed = Vote { voter: sender.clone(), candidate: candidate.clone() };
        proof {
            lemma_votes_set_push(votes0, pushed);
            lemma_votes_distinct_push(votes0, pushed);
        }
        self.votes.push(pushed);
        if n < self.config.minimal_acceptances {
            let ghost props0 = self.proposals@;
            proposal_set(&mut self.proposals, &candidate, n);
            proof {
                assert(proposals_map(self.proposals@) =~= proposals_map(props0).insert(
                    candidate@,
                    n,
                ));
            }
            Ok(ProposeOutcome::Pending { votes: n })
        } else {
            let ghost props0 = self.proposals@;
            proposal_remove(&mut self.proposals, &candidate);
            proof {
                assert(proposals_map(self.proposals@) =~= proposals_map(props0).remove(
                    candidate@,
                ));
            }
            let instantiation = ProxyInstantiation {
                code_id: self.config.proxy_code_id,
                reply_id: PROXY_INSTANTIATION_REPLY_ID,
                msg: ProxyInstantiateMsg {
                    owner: candidate,
                    weight: self.config.starting_weight,
                    denom: self.config.denom.clone(),
                    direct_part: self.config.direct_part,
                    distribution_contract: match &self.config.distribution_contract {
                        Some(d) => d.clone(),
                        None => String::new(),
                    },
                    membership_contract: self_addr.clone(),
                    halftime: self.config.halftime,
                },
            };
            Ok(ProposeOutcome::Admitted { instantiation })
        }
    }
}

/// Which resumption logic an inbound continuation belongs to.
#[derive(Debug, Clone, Copy, PartialEq, Eq, Structural)]
pub enum ReplyTarget {
    InitialProxyInstantiated,
    ProxyInstantiated,
}

/// Dispatch an inbound continuation by its correlation tag. A tag nobody
/// issued marks a violated protocol and is refused.
pub fn route_reply(id: u64) -> (r: Result<ReplyTarget, ContractError>)
    ensures
        id == INITIAL_PROXY_INSTANTIATION_REPLY_ID ==> r == Ok::<_, ContractError>(
            ReplyTarget::InitialProxyInstantiated,
        ),
        id == PROXY_INSTANTIATION_REPLY_ID ==> r == Ok::<_, ContractError>(
            ReplyTarget::ProxyInstantiated,
        ),
        id != INITIAL_PROXY_INSTANTIATION_REPLY_ID && id != PROXY_INSTANTIATION_REPLY_ID ==> r
            == Err::<ReplyTarget, _>(ContractError::UnrecognizedReplyId(id)),
{
    if id == INITIAL_PROXY_INSTANTIATION_REPLY_ID {
        Ok(ReplyTarget::InitialProxyInstantiated)
    } else if id == PROXY_INSTANTIATION_REPLY_ID {
        Ok(ReplyTarget::ProxyInstantiated)
    } else {
        Err(ContractError::UnrecognizedReplyId(id))
    }
}

/// What `cw_utils::parse_instantiate_response_data` decodes out of a
/// creation continuation's payload: the created contract's address, or
/// nothing when the bytes do not parse. The decoding is a function of the
/// bytes alone.
pub uninterp spec fn parsed_proxy_addr(data: Seq<u8>) -> Option<Seq<char>>;

/// Relies on `cw_utils::parse_instantiate_response_data`: it decodes the
/// protobuf-encoded instantiation result carried by a creation continuation
/// and yields the created contract's address; the outcome depends on the
/// bytes alone.
#[verifier::external_body]
fn parse_instantiate_reply(data: &Vec<u8>) -> (r: Result<String, ContractError>)
    ensures
        match r {
            Ok(addr) => parsed_proxy_addr(data@) == Some(addr@),
            Err(e) => parsed_proxy_addr(data@) is None && e matches ContractError::ParseReplyError(
                _,
            ),
        },
{
    match cw_utils::parse_instantiate_response_data(data.as_slice()) {
        Ok(resp) => Ok(resp.contract_address),
        Err(cw_utils::ParseReplyError::SubMsgFailure(m)) => Err(ContractError::ParseReplyError(m)),
        Err(cw_utils::ParseReplyError::ParseFailure(m)) => Err(ContractError::ParseReplyError(m)),
        Err(cw_utils::ParseReplyError::BrokenUtf8(e)) => Err(
            ContractError::ParseReplyError(e.to_string()),
        ),
    }
}

/// One firing of the bootstrap barrier: either more continuations are still
/// awaited, or this firing was the terminal one and the member set is
/// complete.
#[derive(Debug, Clone, PartialEq, Eq)]
pub enum BootstrapStep {
    Progress { proxy_addr: String },
    Completed,
}

/// The model of one bootstrap firing: the created address joins the member
/// set and the barrier counter falls by one.
pub open spec fn initial_step(v: MembershipView, a: Seq<char>) -> MembershipView {
    MembershipView {
        members: if v.members.contains(a) {
            v.members
        } else {
            v.members.push(a)
        },
        awaiting_initial_resps: (v.awaiting_initial_resps - 1) as u64,
        ..v
    }
}

/// The model of a whole firing sequence, first event first.
pub open spec fn run_initial(v: MembershipView, addrs: Seq<Seq<char>>) -> MembershipView
    decreases addrs.len(),
{
    if addrs.len() == 0 {
        v
    } else {
        run_initial(initial_step(v, addrs[0]), addrs.skip(1))
    }
}

/// Pushing a string view commutes with taking views.
proof fn lemma_member_views_push(s: Seq<String>, x: String)
    ensures
        (s.push(x)).map_values(|m: String| m@) =~= s.map_values(|m: String| m@).push(x@),
{
    assert forall|i: int| #![trigger s.push(x)[i]] 0 <= i < s.len() implies (s.push(
        x,
    )).map_values(|m: String| m@)[i] == s.map_values(|m: String| m@).push(x@)[i] by {
        assert(s.push(x)[i] == s[i]);
    }
}

/// Appending an unseen string keeps the list duplicate-free.
proof fn lemma_distinct_strings_push(s: Seq<String>, x: String)
    requires
        distinct_strings(s),
        !contains_string(s, x@),
    ensures
        distinct_strings(s.push(x)),
{
    let t = s.push(x);
    assert forall|i: int, j: int| 0 <= i < j < t.len() implies t[i]@ != t[j]@ by {
        if j == s.len() {
            assert(t[i] == s[i]);
            if t[i]@ == x@ {
                assert(contains_string(s, x@));
            }
        } else {
            assert(t[i] == s[i] && t[j] == s[j]);
        }
    }
}

impl MembershipState {
    /// Admit `addr` into the member set, once; an address already admitted
    /// stays admitted (continuation idempotence at the set level).
    fn insert_member(&mut self, addr: &String)
        requires
            old(self).wf(),
        ensures
            final(self).wf(),
            final(self)@ == (MembershipView {
                members: if old(self)@.members.contains(addr@) {
                    old(self)@.members
                } else {
                    old(self)@.members.push(addr@)
                },
                ..old(self)@
            }),
    {
        proof {
            lemma_contains_view(self.members@, addr@);
        }
        if !vec_contains_string(&self.members, addr) {
            let a = addr.clone();
            proof {
                lemma_distinct_strings_push(self.members@, a);
                lemma_member_views_push(self.members@, a);
            }
            self.members.push(a);
        }
    }

    /// One bootstrap continuation confirmed the creation of `proxy_addr`.
    /// The address joins the member set and the barrier counter falls by
    /// one; the counter must never fall below zero, and a firing past the
    /// terminal one is a protocol violation. The terminal firing, and only
    /// it, reports the barrier complete.
    pub fn record_initial_member(&mut self, proxy_addr: String) -> (r: Result<
        BootstrapStep,
        ContractError,
    >)
        requires
            old(self).wf(),
        ensures
            final(self).wf(),
            old(self).awaiting_initial_resps == 0 ==> r == Err::<BootstrapStep, _>(
                ContractError::UnexpectedInitialReply,
            ) && *final(self) == *old(self),
            old(self).awaiting_initial_resps > 0 ==> {
                &&& final(self)@ == initial_step(old(self)@, proxy_addr@)
                &&& old(self).awaiting_initial_resps > 1 ==> (r matches Ok(
                    BootstrapStep::Progress { proxy_addr: a },
                ) && a@ == proxy_addr@)
                &&& old(self).awaiting_initial_resps == 1 ==> r == Ok::<_, ContractError>(
                    BootstrapStep::Completed,
                )
            },
    {
        if self.awaiting_initial_resps == 0 {
            return Err(ContractError::UnexpectedInitialReply);
        }
        self.insert_member(&proxy_addr);
        self.awaiting_initial_resps = self.awaiting_initial_resps - 1;
        if self.awaiting_initial_resps > 0 {
            Ok(BootstrapStep::Progress { proxy_addr })
        } else {
            Ok(BootstrapStep::Completed)
        }
    }

    /// Continuation of one bootstrap proxy creation. The payload is decoded,
    /// the created address admitted, and the barrier advanced as in
    /// [`Self::record_initial_member`]. A failed sub-operation, a missing
    /// payload or an undecodable one aborts the continuation with no state
    /// change.
    pub fn initial_proxy_instantiated(&mut self, reply: Result<Option<Vec<u8>>, String>) -> (r:
        Result<BootstrapStep, ContractError>)
        requires
            old(self).wf(),
        ensures
            final(self).wf(),
            reply matches Err(e) ==> r == Err::<BootstrapStep, _>(ContractError::Std(e)) && *final(self) == *old(self),
            reply matches Ok(None) ==> r == Err::<BootstrapStep, _>(ContractError::MissingData)
                && *final(self) == *old(self),
            reply matches Ok(Some(d)) && parsed_proxy_addr(d@) is None ==> (r matches Err(
                ContractError::ParseReplyError(_),
            )) && *final(self) == *old(self),
            reply matches Ok(Some(d)) ==> parsed_proxy_addr(d@) matches Some(a) ==> {
                &&& old(self).awaiting_initial_resps == 0 ==> r == Err::<BootstrapStep, _>(
                    ContractError::UnexpectedInitialReply,
                ) && *final(self) == *old(self)
                &&& old(self).awaiting_initial_resps > 0 ==> {
                    &&& final(self)@ == initial_step(old(self)@, a)
                    &&& old(self).awaiting_initial_resps > 1 ==> (r matches Ok(
                        BootstrapStep::Progress { proxy_addr },
                    ) && proxy_addr@ == a)
                    &&& old(self).awaiting_initial_resps == 1 ==> r == Ok::<_, ContractError>(
                        BootstrapStep::Completed,
                    )
                }
            },
    {
        let data = match reply {
            Err(e) => {
                return Err(ContractError::Std(e));
            },
            Ok(None) => {
                return Err(ContractError::MissingData);
            },
            Ok(Some(d)) => d,
        };
        let addr = match parse_instantiate_reply(&data) {
            Ok(a) => a,
            Err(e) => {
                return Err(e);
            },
        };
        self.record_initial_member(addr)
    }

    /// Continuation of the proxy creation issued by an accepted proposal:
    /// decode the created address, admit it, and hand it back so the caller
    /// can read the new account's owner and report {owner, proxy}. Exactly
    /// one member is added when the address is new. Failures abort the
    /// continuation with no state change.
    pub fn proxy_instantiated(&mut self, reply: Result<Option<Vec<u8>>, String>) -> (r: Result<
        String,
        ContractError,
    >)
        requires
            old(self).wf(),
        ensures
            final(self).wf(),
            reply matches Err(e) ==> r == Err::<String, _>(ContractError::Std(e)) && *final(self)
                == *old(self),
            reply matches Ok(None) ==> r == Err::<String, _>(ContractError::MissingData) && *final(self) == *old(self),
            reply matches Ok(Some(d)) && parsed_proxy_addr(d@) is None ==> (r matches Err(
                ContractError::ParseReplyError(_),
            )) && *final(self) == *old(self),
            reply matches Ok(Some(d)) ==> parsed_proxy_addr(d@) matches Some(a) ==> {
                &&& final(self)@ == (MembershipView {
                    members: if old(self)@.members.contains(a) {
                        old(self)@.members
                    } else {
                        old(self)@.members.push(a)
                    },
                    ..old(self)@
                })
                &&& r matches Ok(addr) && addr@ == a
            },
    {
        let data = match reply {
            Err(e) => {
                return Err(ContractError::Std(e));
            },
            Ok(None) => {
                return Err(ContractError::MissingData);
            },
            Ok(Some(d)) => d,
        };
        let addr = match parse_instantiate_reply(&data) {
            Ok(a) => a,
            Err(e) => {
                return Err(e);
            },
        };
        self.insert_member(&addr);
        Ok(addr)
    }

    /// The admitted proxy addresses, for the terminal bootstrap firing to
    /// enumerate.
    pub fn members(&self) -> (r: &Vec<String>)
        ensures
            r@.map_values(|m: String| m@) == self@.members,
    {
        &self.members
    }
}

/// Pair every member proxy with the owner the host read back for it, in
/// order: the finalized bootstrap result.
pub fn instantiation_data(members: &Vec<String>, owners: &Vec<String>) -> (r: InstantiationData)
    requires
        owners@.len() == members@.len(),
    ensures
        r.members@.len() == members@.len(),
        forall|j: int|
            0 <= j < members@.len() ==> #[trigger] r.members@[j].owner_addr@ == owners@[j]@
                && r.members@[j].proxy_addr@ == members@[j]@,
{
    let mut out: Vec<ProposeMemberData> = Vec::new();
    let mut i: usize = 0;
    while i < members.len()
        invariant
            i <= members@.len(),
            owners@.len() == members@.len(),
            out@.len() == i,
            forall|j: int|
                0 <= j < i ==> #[trigger] out@[j].owner_addr@ == owners@[j]@
                    && out@[j].proxy_addr@ == members@[j]@,
        decreases members@.len() - i,
    {
        out.push(
            ProposeMemberData { owner_addr: owners[i].clone(), proxy_addr: members[i].clone() },
        );
        i += 1;
    }
    InstantiationData { members: out }
}

/// Barrier law, generalized for induction: delivering pairwise-distinct
/// created addresses, none admitted yet, appends exactly those addresses to
/// the member set and lowers the counter by their number, whatever the
/// delivery order.
pub proof fn lemma_initial_run(v: MembershipView, addrs: Seq<Seq<char>>)
    requires
        v.awaiting_initial_resps >= addrs.len(),
        forall|i: int, j: int| 0 <= i < j < addrs.len() ==> addrs[i] != addrs[j],
        forall|i: int| 0 <= i < addrs.len() ==> !v.members.contains(#[trigger] addrs[i]),
    ensures
        run_initial(v, addrs).members =~= v.members + addrs,
        run_initial(v, addrs).awaiting_initial_resps == v.awaiting_initial_resps - addrs.len(),
        run_initial(v, addrs).config == v.config,
        run_initial(v, addrs).proposals == v.proposals,
        run_initial(v, addrs).votes == v.votes,
    decreases addrs.len(),
{
    if addrs.len() == 0 {
        assert(v.members + addrs =~= v.members);
    } else {
        let a0 = addrs[0];
        let v1 = initial_step(v, a0);
        assert(!v.members.contains(a0));
        assert(v1.members == v.members.push(a0));
        let rest = addrs.skip(1);
        assert forall|i: int| 0 <= i < rest.len() implies !v1.members.contains(
            #[trigger] rest[i],
        ) by {
            assert(rest[i] == addrs[i + 1]);
            assert(addrs[i + 1] != a0);
            if v1.members.contains(rest[i]) {
                let k = choose|k: int| 0 <= k < v1.members.len() && v1.members[k] == rest[i];
                if k < v.members.len() {
                    assert(v.members.contains(addrs[i + 1]));
                } else {
                    assert(v1.members[k] == a0);
                }
            }
        }
        lemma_initial_run(v1, rest);
        assert(run_initial(v, addrs) == run_initial(v1, rest));
        assert(v.members.push(a0) + rest =~= v.members + addrs);
    }
}

/// Bootstrap completion law: from the state `instantiate` leaves behind —
/// an empty member set and the barrier counter at the number of creation
/// requests issued — delivering the created proxy addresses (pairwise
/// distinct, in any order) ends with exactly that many members and the
/// barrier counter exactly at zero, and every firing before the terminal one
/// still finds the counter positive.
pub proof fn lemma_bootstrap_completes(v: MembershipView, addrs: Seq<Seq<char>>)
    requires
        v.members.len() == 0,
        v.awaiting_initial_resps == addrs.len(),
        forall|i: int, j: int| 0 <= i < j < addrs.len() ==> addrs[i] != addrs[j],
    ensures
        run_initial(v, addrs).members.len() == addrs.len(),
        run_initial(v, addrs).awaiting_initial_resps == 0,
        forall|k: int|
            0 <= k < addrs.len() ==> run_initial(
                v,
                #[trigger] addrs.take(k),
            ).awaiting_initial_resps > 0,
{
    lemma_initial_run(v, addrs);
    assert forall|k: int| 0 <= k < addrs.len() implies run_initial(
        v,
        #[trigger] addrs.take(k),
    ).awaiting_initial_resps > 0 by {
        let t = addrs.take(k);
        assert(forall|i: int| 0 <= i < t.len() ==> t[i] == addrs[i]);
        lemma_initial_run(v, t);
    }
}

/// A recorded tally is always carried by some proposal on file.
proof fn lemma_votes_some_element(s: Seq<Proposal>, c: Seq<char>)
    ensures
        proposal_votes(s, c) matches Some(n) ==> exists|i: int|
            0 <= i < s.len() && s[i].candidate@ == c && s[i].votes == n,
    decreases s.len(),
{
    if s.len() > 0 {
        if s.last().candidate@ == c {
            assert(s[s.len() - 1].candidate@ == c && s[s.len() - 1].votes == s.last().votes);
        } else {
            lemma_votes_some_element(s.drop_last(), c);
            if proposal_votes(s, c) is Some {
                let i = choose|i: int|
                    0 <= i < s.drop_last().len() && s.drop_last()[i].candidate@ == c
                        && s.drop_last()[i].votes == proposal_votes(s, c)->0;
                assert(s[i] == s.drop_last()[i]);
            }
        }
    }
}

/// The tally is absent exactly when no proposal concerns the candidate.
proof fn lemma_votes_none_iff(s: Seq<Proposal>, c: Seq<char>)
    ensures
        (proposal_votes(s, c) is None) <==> !has_candidate(s, c),
    decreases s.len(),
{
    if s.len() > 0 {
        lemma_votes_none_iff(s.drop_last(), c);
        if s.last().candidate@ == c {
            assert(s[s.len() - 1].candidate@ == c);
        } else {
            if has_candidate(s, c) {
                let i = choose|i: int| 0 <= i < s.len() && s[i].candidate@ == c;
                assert(i < s.len() - 1);
                assert(s.drop_last()[i] == s[i]);
                assert(has_candidate(s.drop_last(), c));
            }
            if has_candidate(s.drop_last(), c) {
                let i = choose|i: int|
                    0 <= i < s.drop_last().len() && s.drop_last()[i].candidate@ == c;
                assert(s[i] == s.drop_last()[i]);
            }
        }
    }
}

/// How appending one proposal changes every tally.
proof fn lemma_votes_push(s: Seq<Proposal>, p: Proposal, c: Seq<char>)
    ensures
        proposal_votes(s.push(p), c) == if c == p.candidate@ {
            Some(p.votes)
        } else {
            proposal_votes(s, c)
        },
{
    assert(s.push(p).last() == p);
    assert(s.push(p).drop_last() =~= s);
}

/// How removing the proposal at `i` changes every tally, when no two
/// proposals concern one candidate.
proof fn lemma_votes_remove(s: Seq<Proposal>, i: int, c: Seq<char>)
    requires
        distinct_candidates(s),
        0 <= i < s.len(),
    ensures
        proposal_votes(s.remove(i), c) == if c == s[i].candidate@ {
            None::<u64>
        } else {
            proposal_votes(s, c)
        },
    decreases s.len(),
{
    if i == s.len() - 1 {
        assert(s.remove(i) =~= s.drop_last());
        if c == s[i].candidate@ {
            lemma_votes_none_iff(s.drop_last(), c);
            if has_candidate(s.drop_last(), c) {
                let j = choose|j: int|
                    0 <= j < s.drop_last().len() && s.drop_last()[j].candidate@ == c;
                assert(s[j] == s.drop_last()[j]);
                assert(s[j].candidate@ == s[i].candidate@ && j < i);
            }
        }
    } else {
        assert(distinct_candidates(s.drop_last())) by {
            assert(forall|x: int, y: int|
                0 <= x < y < s.drop_last().len() ==> s.drop_last()[x] == s[x]
                    && s.drop_last()[y] == s[y]);
        }
        lemma_votes_remove(s.drop_last(), i, c);
        assert(s.remove(i).last() == s.last());
        assert(s.remove(i).drop_last() =~= s.drop_last().remove(i));
        if s.last().candidate@ == c {
            assert(s[i].candidate@ != c);
        }
    }
}

/// Whether `v` holds a string reading `x`, by linear scan.
fn vec_contains_string(v: &Vec<String>, x: &String) -> (r: bool)
    ensures
        r == contains_string(v@, x@),
{
    let mut i: usize = 0;
    while i < v.len()
        invariant
            i <= v@.len(),
            forall|j: int| 0 <= j < i ==> v@[j]@ != x@,
        decreases v@.len() - i,
    {
        if v[i] == *x {
            return true;
        }
        i += 1;
    }
    false
}

/// `contains_string` agrees with `contains` on the sequence of views.
proof fn lemma_contains_view(v: Seq<String>, x: Seq<char>)
    ensures
        contains_string(v, x) == v.map_values(|m: String| m@).contains(x),
{
    let ms = v.map_values(|m: String| m@);
    if contains_string(v, x) {
        let i = choose|i: int| 0 <= i < v.len() && v[i]@ == x;
        assert(ms[i] == x);
    }
    if ms.contains(x) {
        let i = choose|i: int| 0 <= i < ms.len() && ms[i] == x;
        assert(v[i]@ == x);
    }
}

/// Whether `voter` has a vote for `candidate` on file, by linear scan.
fn vote_exists(v: &Vec<Vote>, voter: &String, candidate: &String) -> (r: bool)
    ensures
        r == has_vote(v@, voter@, candidate@),
{
    let mut i: usize = 0;
    while i < v.len()
        invariant
            i <= v@.len(),
            forall|j: int|
                0 <= j < i ==> !(v@[j].voter@ == voter@ && v@[j].candidate@ == candidate@),
        decreases v@.len() - i,
    {
        if v[i].voter == *voter && v[i].candidate == *candidate {
            return true;
        }
        i += 1;
    }
    false
}

/// The index of the proposal for candidate `c`, if one is on file.
fn proposal_find(v: &Vec<Proposal>, c: &String) -> (r: Option<usize>)
    ensures
        match r {
            Some(i) => i < v@.len() && v@[i as int].candidate@ == c@,
            None => !has_candidate(v@, c@),
        },
{
    let mut i: usize = 0;
    while i < v.len()
        invariant
            i <= v@.len(),
            forall|j: int| 0 <= j < i ==> v@[j].candidate@ != c@,
        decreases v@.len() - i,
    {
        if v[i].candidate == *c {
            return Some(i);
        }
        i += 1;
    }
    None
}

/// The tally on file for candidate `c`, scanned from the latest entry.
fn proposal_get(v: &Vec<Proposal>, c: &String) -> (r: Option<u64>)
    ensures
        r == proposal_votes(v@, c@),
{
    let mut i: usize = v.len();
    proof {
        assert(v@.take(v@.len() as int) =~= v@);
    }
    while i > 0
        invariant
            i <= v@.len(),
            proposal_votes(v@, c@) == proposal_votes(v@.take(i as int), c@),
        decreases i,
    {
        i -= 1;
        proof {
            assert(v@.take(i + 1).last() == v@[i as int]);
            assert(v@.take(i + 1).drop_last() =~= v@.take(i as int));
        }
        if v[i].candidate == *c {
            return Some(v[i].votes);
        }
    }
    None
}

/// Record tally `n` for candidate `c`, replacing any earlier entry.
fn proposal_set(v: &mut Vec<Proposal>, c: &String, n: u64)
    requires
        distinct_candidates(old(v)@),
    ensures
        distinct_candidates(final(v)@),
        proposal_votes(final(v)@, c@) == Some(n),
        forall|k: Seq<char>|
            k != c@ ==> #[trigger] proposal_votes(final(v)@, k) == proposal_votes(old(v)@, k),
        forall|i: int| #![trigger final(v)@[i]]
            0 <= i < final(v)@.len() ==> final(v)@[i].votes == n || exists|j: int|
                #![trigger old(v)@[j]]
                0 <= j < old(v)@.len() && final(v)@[i] == old(v)@[j],
{
    let ghost s0 = v@;
    match proposal_find(v, c) {
        Some(i) => {
            v.remove(i);
            proof {
                let s1 = v@;
                assert forall|k: Seq<char>| true implies #[trigger] proposal_votes(s1, k) == (
                if k == s0[i as int].candidate@ {
                    None::<u64>
                } else {
                    proposal_votes(s0, k)
                }) by {
                    lemma_votes_remove(s0, i as int, k);
                }
                assert(distinct_candidates(s1)) by {
                    assert(forall|x: int|
                        0 <= x < s1.len() ==> s1[x] == (if x < i {
                            s0[x]
                        } else {
                            s0[x + 1]
                        }));
                }
                lemma_votes_none_iff(s1, c@);
            }
        },
        None => {
            proof {
                lemma_votes_none_iff(v@, c@);
            }
        },
    }
    let ghost s1 = v@;
    let p = Proposal { candidate: c.clone(), votes: n };
    v.push(p);
    proof {
        assert forall|k: Seq<char>| true implies #[trigger] proposal_votes(v@, k) == (if k == c@ {
            Some(n)
        } else {
            proposal_votes(s1, k)
        }) by {
            lemma_votes_push(s1, p, k);
        }
        assert(distinct_candidates(v@)) by {
            assert(!has_candidate(s1, c@));
            assert(forall|x: int| 0 <= x < s1.len() ==> v@[x] == s1[x]);
            assert(v@[s1.len() as int] == p);
        }
    }
}

/// Drop the proposal for candidate `c`, if one is on file.
fn proposal_remove(v: &mut Vec<Proposal>, c: &String)
    requires
        distinct_candidates(old(v)@),
    ensures
        distinct_candidates(final(v)@),
        proposal_votes(final(v)@, c@) is None,
        forall|k: Seq<char>|
            k != c@ ==> #[trigger] proposal_votes(final(v)@, k) == proposal_votes(old(v)@, k),
        forall|i: int| #![trigger final(v)@[i]]
            0 <= i < final(v)@.len() ==> exists|j: int|
                #![trigger old(v)@[j]]
                0 <= j < old(v)@.len() && final(v)@[i] == old(v)@[j],
{
    let ghost s0 = v@;
    match proposal_find(v, c) {
        Some(i) => {
            v.remove(i);
            proof {
                let s1 = v@;
                assert forall|k: Seq<char>| true implies #[trigger] proposal_votes(s1, k) == (
                if k == s0[i as int].candidate@ {
                    None::<u64>
                } else {
                    proposal_votes(s0, k)
                }) by {
                    lemma_votes_remove(s0, i as int, k);
                }
                assert(distinct_candidates(s1)) by {
                    assert(forall|x: int|
                        0 <= x < s1.len() ==> s1[x] == (if x < i {
                            s0[x]
                        } else {
                            s0[x + 1]
                        }));
                }
            }
        },
        None => {
            proof {
                lemma_votes_none_iff(v@, c@);
            }
        },
    }
}

/// How appending one vote record changes the set of cast pairs.
proof fn lemma_votes_set_push(s: Seq<Vote>, v: Vote)
    ensures
        votes_set(s.push(v)) =~= votes_set(s).insert((v.voter@, v.candidate@)),
{
    let t = s.push(v);
    assert forall|p: (Seq<char>, Seq<char>)| votes_set(t).contains(p) implies votes_set(
        s,
    ).insert((v.voter@, v.candidate@)).contains(p) by {
        let i = choose|i: int| 0 <= i < t.len() && t[i].voter@ == p.0 && t[i].candidate@ == p.1;
        if i < s.len() {
            assert(t[i] == s[i]);
            assert(has_vote(s, p.0, p.1));
        } else {
            assert(t[i] == v);
        }
    }
    assert forall|p: (Seq<char>, Seq<char>)|
        votes_set(s).insert((v.voter@, v.candidate@)).contains(p) implies votes_set(t).contains(
        p,
    ) by {
        if p == (v.voter@, v.candidate@) {
            assert(t[s.len() as int] == v);
            assert(has_vote(t, p.0, p.1));
        } else {
            let i = choose|i: int|
                0 <= i < s.len() && s[i].voter@ == p.0 && s[i].candidate@ == p.1;
            assert(t[i] == s[i]);
            assert(has_vote(t, p.0, p.1));
        }
    }
}

/// Appending a pair not yet on file keeps the records duplicate-free.
proof fn lemma_votes_distinct_push(s: Seq<Vote>, v: Vote)
    requires
        distinct_votes(s),
        !has_vote(s, v.voter@, v.candidate@),
    ensures
        distinct_votes(s.push(v)),
{
    let t = s.push(v);
    assert forall|i: int, j: int| 0 <= i < j < t.len() implies !(t[i].voter@ == t[j].voter@
        && t[i].candidate@ == t[j].candidate@) by {
        if j == s.len() {
            assert(t[i] == s[i]);
            assert(t[j] == v);
            if t[i].voter@ == v.voter@ && t[i].candidate@ == v.candidate@ {
                assert(has_vote(s, v.voter@, v.candidate@));
            }
        } else {
            assert(t[i] == s[i] && t[j] == s[j]);
        }
    }
}

} // verus!
