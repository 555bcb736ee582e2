//! The proxy account machine: per-participant custody of funds on a
//! decaying-weight schedule, plus the staged-withdrawal continuation.
//!
//! Like the voting machine, every operation is a pure transition on
//! [`ProxyState`]; the host dispatches the returned [`ProxyAction`] and later
//! delivers continuations. The withdrawal path stages its intent *before*
//! the custodian sub-operation is issued: the continuation can carry no
//! caller-supplied parameters, so what it must know is read back from the
//! staged record.

use vstd::prelude::*;

use crate::error::{ContractError, PaymentError};
use crate::fraction::Fraction;
use crate::msg::{Coin, ProxyInstantiateMsg};

verus! {

/// Correlation tag on the custodian settlement issued by a withdrawal.
pub const WITHDRAW_REPLY_ID: u64 = 1;
/// Correlation tag on a relayed membership proposal.
pub const PROPOSE_MEMBER_REPLY_ID: u64 = 2;

/// A staged withdrawal: who receives the funds and, when given, how much;
/// with no explicit amount the whole balance observed at settlement goes.
#[derive(Debug, Clone, PartialEq, Eq)]
pub struct WithdrawalIntent {
    pub receiver: String,
    pub amount: Option<u128>,
}

/// A sub-operation a proxy account asks the host to dispatch.
#[derive(Debug, Clone, PartialEq, Eq)]
pub enum ProxyAction {
    /// Hand the distribution share of a donation to the custodian.
    Distribute { contract: String, denom: String, amount: u128 },
    /// Tell the custodian a weight decay: the pre-decay weight and the
    /// signed change (negative, as the weight only falls).
    WithdrawShare { contract: String, weight: u64, diff: i64 },
    /// Ask the custodian to settle and forward this account's share; its
    /// continuation comes back under [`WITHDRAW_REPLY_ID`].
    Settle { contract: String },
    /// Relay a membership proposal to the voting machine on the owner's
    /// behalf; its continuation comes back under [`PROPOSE_MEMBER_REPLY_ID`].
    ForwardProposal { contract: String, addr: String },
    /// Pay funds out to a receiver.
    Send { to_address: String, denom: String, amount: u128 },
}

/// The mathematical model of a proxy account.
pub struct ProxyView {
    pub owner: Seq<char>,
    pub weight: u64,
    pub denom: Seq<char>,
    pub direct_part: Fraction,
    pub distribution_contract: Seq<char>,
    pub membership_contract: Seq<char>,
    pub halftime: u64,
    pub last_updated: u64,
    pub donations: u64,
    pub is_closed: bool,
    pub pending_withdrawal: Option<(Seq<char>, Option<u128>)>,
}

/// The persistent state of one proxy account instance.
#[derive(Debug, Clone, PartialEq, Eq)]
pub struct ProxyState {
    /// The participant this account belongs to; the only caller its
    /// operations obey.
    pub owner: String,
    /// Current distribution weight; decay only ever lowers it.
    pub weight: u64,
    /// The funding denomination.
    pub denom: String,
    /// Share of a donation retained directly by this account.
    pub direct_part: Fraction,
    /// The fund custodian (empty sentinel until provisioned).
    pub distribution_contract: String,
    /// The voting machine that spawned this account.
    pub membership_contract: String,
    /// Seconds that must elapse before the next decay.
    pub halftime: u64,
    /// Timestamp (seconds) of the last performed decay.
    pub last_updated: u64,
    /// How many donations were accepted.
    pub donations: u64,
    /// Terminal flag: no state-mutating operation succeeds once set.
    pub is_closed: bool,
    /// The staged withdrawal awaiting its settlement continuation, if any.
    pub pending_withdrawal: Option<WithdrawalIntent>,
}

impl View for ProxyState {
    type V = ProxyView;

    open spec fn view(&self) -> ProxyView {
        ProxyView {
            owner: self.owner@,
            weight: self.weight,
            denom: self.denom@,
            direct_part: self.direct_part,
            distribution_contract: self.distribution_contract@,
            membership_contract: self.membership_contract@,
            halftime: self.halftime,
            last_updated: self.last_updated,
            donations: self.donations,
            is_closed: self.is_closed,
            pending_withdrawal: match self.pending_withdrawal {
                Some(w) => Some((w.receiver@, w.amount)),
                None => None,
            },
        }
    }
}

/// Whether `funds` is exactly one non-empty coin of denomination `denom` —
/// the only payment `donate` accepts.
pub open spec fn one_valid_coin(funds: Seq<Coin>, denom: Seq<char>) -> bool {
    funds.len() == 1 && funds[0].amount > 0 && funds[0].denom@ == denom
}

impl ProxyState {
    /// Internal consistency: the direct share is a genuine fraction.
    pub open spec fn wf(&self) -> bool {
        self.direct_part.wf()
    }

    /// A fresh account, created by the host at time `now` from the values
    /// the spawning voting machine handed down.
    pub fn instantiate(msg: ProxyInstantiateMsg, now: u64) -> (r: ProxyState)
        ensures
            r@ == (ProxyView {
                owner: msg.owner@,
                weight: msg.weight,
                denom: msg.denom@,
                direct_part: msg.direct_part,
                distribution_contract: msg.distribution_contract@,
                membership_contract: msg.membership_contract@,
                halftime: msg.halftime,
                last_updated: now,
                donations: 0,
                is_closed: false,
                pending_withdrawal: None,
            }),
            msg.direct_part.wf() ==> r.wf(),
    {
        ProxyState {
            owner: msg.owner,
            weight: msg.weight,
            denom: msg.denom,
            direct_part: msg.direct_part,
            distribution_contract: msg.distribution_contract,
            membership_contract: msg.membership_contract,
            halftime: msg.halftime,
            last_updated: now,
            donations: 0,
            is_closed: false,
            pending_withdrawal: None,
        }
    }

    /// Accept a donation: exactly one coin of the funding denomination. The
    /// direct share (`amount` times `direct_part`, truncating) stays in the
    /// account's own balance with no transfer issued; only the remainder is
    /// handed to the custodian for distribution. Fire-and-forget: no
    /// continuation is awaited.
    pub fn donate(&mut self, funds: &Vec<Coin>) -> (r: Result<ProxyAction, ContractError>)
        requires
            old(self).wf(),
            old(self).donations < u64::MAX,
            one_valid_coin(funds@, old(self).denom@) ==> funds@[0].amount as int
                * old(self).direct_part.num as int <= u128::MAX,
        ensures
            old(self).is_closed ==> r == Err::<ProxyAction, _>(ContractError::AlreadyClosed)
                && *final(self) == *old(self),
            !old(self).is_closed ==> {
                &&& funds@.len() == 0 ==> r == Err::<ProxyAction, _>(
                    ContractError::Payment(PaymentError::NoFunds),
                ) && *final(self) == *old(self)
                &&& funds@.len() > 1 ==> r == Err::<ProxyAction, _>(
                    ContractError::Payment(PaymentError::MultipleDenoms),
                ) && *final(self) == *old(self)
                &&& funds@.len() == 1 && funds@[0].amount == 0 ==> r == Err::<ProxyAction, _>(
                    ContractError::Payment(PaymentError::NoFunds),
                ) && *final(self) == *old(self)
                &&& funds@.len() == 1 && funds@[0].amount > 0 && funds@[0].denom@ != old(
                    self,
                ).denom@ ==> (r matches Err(ContractError::Payment(PaymentError::MissingDenom(d)))
                    && d@ == old(self).denom@) && *final(self) == *old(self)
                &&& one_valid_coin(funds@, old(self).denom@) ==> {
                    let amount = funds@[0].amount as int;
                    let direct = amount * old(self).direct_part.num as int / (
                    old(self).direct_part.den as int);
                    &&& final(self)@ == (ProxyView {
                        donations: (old(self).donations + 1) as u64,
                        ..old(self)@
                    })
                    &&& r matches Ok(ProxyAction::Distribute { contract, denom, amount: a })
                        && contract@ == old(self).distribution_contract@ && denom@ == old(
                        self,
                    ).denom@ && a == amount - direct
                }
            },
    {
        if self.is_closed {
            return Err(ContractError::AlreadyClosed);
        }
        let amount = match must_pay_funds(funds, &self.denom) {
            Ok(a) => a,
            Err(e) => {
                return Err(ContractError::Payment(e));
            },
        };
        let direct_amount = self.direct_part.mul_floor(amount);
        let to_distribute = amount - direct_amount;
        self.donations = self.donations + 1;
        Ok(
            ProxyAction::Distribute {
                contract: self.distribution_contract.clone(),
                denom: self.denom.clone(),
                amount: to_distribute,
            },
        )
    }
}

/// The caller-visible outcome of a weight update: nothing was due yet, or
/// the weight was halved and the custodian told to withdraw the
/// differential share.
#[derive(Debug, Clone, PartialEq, Eq)]
pub enum WeightUpdate {
    Skipped,
    Halved { withdraw: ProxyAction },
}

impl ProxyState {
    /// Decay the weight, at most once per half-life. Before `halftime`
    /// seconds have elapsed since the last performed decay this is a no-op.
    /// Once due, the weight is halved — `weight - weight / 2`, both
    /// divisions truncating toward zero — the decay timestamp moves to
    /// `now`, and the custodian is asked to withdraw the differential
    /// share: the pre-decay weight together with the signed change
    /// `-(weight / 2)` (negative by convention, a decay only lowers the
    /// weight). The new weight is committed at once; no continuation is
    /// needed for the decay itself.
    pub fn update_weight(&mut self, now: u64) -> (r: Result<WeightUpdate, ContractError>)
        requires
            old(self).wf(),
            now >= old(self).last_updated,
            old(self).weight as int <= i64::MAX as int,
        ensures
            final(self).wf(),
            final(self).weight <= old(self).weight,
            old(self).is_closed ==> r == Err::<WeightUpdate, _>(ContractError::AlreadyClosed)
                && *final(self) == *old(self),
            !old(self).is_closed && now - old(self).last_updated < old(self).halftime ==> r
                == Ok::<_, ContractError>(WeightUpdate::Skipped) && *final(self) == *old(self),
            !old(self).is_closed && now - old(self).last_updated >= old(self).halftime ==> {
                &&& final(self)@ == (ProxyView {
                    weight: (old(self).weight - old(self).weight / 2) as u64,
                    last_updated: now,
                    ..old(self)@
                })
                &&& r matches Ok(WeightUpdate::Halved { withdraw }) && (withdraw matches
                    ProxyAction::WithdrawShare { contract, weight, diff } && contract@ == old(
                    self,
                ).distribution_contract@ && weight == old(self).weight && diff == -(old(
                    self,
                ).weight as int / 2))
            },
    {
        if self.is_closed {
            return Err(ContractError::AlreadyClosed);
        }
        let elapsed = now - self.last_updated;
        if self.halftime > elapsed {
            return Ok(WeightUpdate::Skipped);
        }
        let weight = self.weight;
        let half = weight / 2;
        let diff: i64 = -((half) as i64);
        self.weight = weight - half;
        self.last_updated = now;
        let withdraw = ProxyAction::WithdrawShare {
            contract: self.distribution_contract.clone(),
            weight,
            diff,
        };
        Ok(WeightUpdate::Halved { withdraw })
    }

    /// Relay a membership proposal for `addr` to the voting machine, on the
    /// owner's behalf. Owner-only; the account is a transparent relay, not a
    /// decision-maker, so nothing here changes.
    pub fn propose_member(&self, sender: &String, addr: String) -> (r: Result<
        ProxyAction,
        ContractError,
    >)
        ensures
            sender@ != self.owner@ ==> r == Err::<ProxyAction, _>(ContractError::Unauthorized),
            sender@ == self.owner@ ==> (r matches Ok(ProxyAction::ForwardProposal {
                contract,
                addr: a,
            }) && contract@ == self.membership_contract@ && a@ == addr@),
    {
        if !(*sender == self.owner) {
            return Err(ContractError::Unauthorized);
        }
        Ok(ProxyAction::ForwardProposal { contract: self.membership_contract.clone(), addr })
    }

    /// Stage a withdrawal and ask the custodian to settle this account's
    /// share. Owner-only; at most one intent may be outstanding. The intent
    /// — receiver (the owner when none is named) and optional amount — is
    /// staged *before* the sub-operation is issued: the settlement
    /// continuation recovers it from there.
    pub fn request_withdrawal(
        &mut self,
        sender: &String,
        receiver: Option<String>,
        amount: Option<u128>,
    ) -> (r: Result<ProxyAction, ContractError>)
        ensures
            sender@ != old(self).owner@ ==> r == Err::<ProxyAction, _>(ContractError::Unauthorized)
                && *final(self) == *old(self),
            sender@ == old(self).owner@ && old(self).is_closed ==> r == Err::<ProxyAction, _>(
                ContractError::AlreadyClosed,
            ) && *final(self) == *old(self),
            sender@ == old(self).owner@ && !old(self).is_closed && old(
                self,
            ).pending_withdrawal is Some ==> r == Err::<ProxyAction, _>(
                ContractError::WithdrawalPending,
            ) && *final(self) == *old(self),
            sender@ == old(self).owner@ && !old(self).is_closed && old(
                self,
            ).pending_withdrawal is None ==> {
                let recv = match receiver {
                    Some(rc) => rc@,
                    None => old(self).owner@,
                };
                &&& final(self)@ == (ProxyView {
                    pending_withdrawal: Some((recv, amount)),
                    ..old(self)@
                })
                &&& r matches Ok(ProxyAction::Settle { contract }) && contract@ == old(
                    self,
                ).distribution_contract@
            },
    {
        if !(*sender == self.owner) {
            return Err(ContractError::Unauthorized);
        }
        if self.is_closed {
            return Err(ContractError::AlreadyClosed);
        }
        if self.pending_withdrawal.is_some() {
            return Err(ContractError::WithdrawalPending);
        }
        let recv = match receiver {
            Some(rc) => rc,
            None => self.owner.clone(),
        };
        self.pending_withdrawal = Some(WithdrawalIntent { receiver: recv, amount });
        Ok(ProxyAction::Settle { contract: self.distribution_contract.clone() })
    }

    /// Continuation of the custodian settlement: the only point where funds
    /// leave the account toward an external party. The staged intent is
    /// consumed — a continuation finding none staged is a protocol
    /// violation — and the payout is the staged amount when one was given,
    /// else `balance`, the account's whole observed balance in the funding
    /// denomination.
    pub fn withdraw_settled(&mut self, balance: u128) -> (r: Result<ProxyAction, ContractError>)
        ensures
            old(self).pending_withdrawal is None ==> r == Err::<ProxyAction, _>(
                ContractError::MissingPendingState,
            ) && *final(self) == *old(self),
            old(self)@.pending_withdrawal matches Some((recv, amt)) ==> {
                &&& final(self)@ == (ProxyView { pending_withdrawal: None, ..old(self)@ })
                &&& r matches Ok(ProxyAction::Send { to_address, denom, amount }) && to_address@
                    == recv && denom@ == old(self).denom@ && amount == (match amt {
                    Some(a) => a,
                    None => balance,
                })
            },
    {
        let intent = match self.pending_withdrawal.take() {
            Some(w) => w,
            None => {
                return Err(ContractError::MissingPendingState);
            },
        };
        let amount = match intent.amount {
            Some(a) => a,
            None => balance,
        };
        Ok(
            ProxyAction::Send {
                to_address: intent.receiver,
                denom: self.denom.clone(),
                amount,
            },
        )
    }

    /// Set the terminal closed flag. Owner-only, and once: every further
    /// state-mutating operation, this one included, is refused afterwards.
    pub fn close(&mut self, sender: &String) -> (r: Result<(), ContractError>)
        ensures
            sender@ != old(self).owner@ ==> r == Err::<(), _>(ContractError::Unauthorized)
                && *final(self) == *old(self),
            sender@ == old(self).owner@ && old(self).is_closed ==> r == Err::<(), _>(
                ContractError::AlreadyClosed,
            ) && *final(self) == *old(self),
            sender@ == old(self).owner@ && !old(self).is_closed ==> r == Ok::<_, ContractError>(())
                && final(self)@ == (ProxyView { is_closed: true, ..old(self)@ }),
    {
        if !(*sender == self.owner) {
            return Err(ContractError::Unauthorized);
        }
        if self.is_closed {
            return Err(ContractError::AlreadyClosed);
        }
        self.is_closed = true;
        Ok(())
    }
}

/// Continuation of a relayed membership proposal: the voting machine's
/// response data is passed through unchanged as this account's own result; a
/// failed sub-operation propagates as an error.
pub fn proposal_forwarded(reply: Result<Option<Vec<u8>>, String>) -> (r: Result<
    Option<Vec<u8>>,
    ContractError,
>)
    ensures
        reply matches Err(e) ==> r == Err::<Option<Vec<u8>>, _>(ContractError::Std(e)),
        reply matches Ok(d) ==> r == Ok::<_, ContractError>(d),
{
    match reply {
        Err(e) => Err(ContractError::Std(e)),
        Ok(d) => Ok(d),
    }
}

/// Which resumption logic an inbound proxy continuation belongs to.
#[derive(Debug, Clone, Copy, PartialEq, Eq, Structural)]
pub enum ProxyReplyTarget {
    WithdrawSettled,
    ProposalForwarded,
}

/// Dispatch an inbound continuation by its correlation tag. A tag nobody
/// issued marks a violated protocol and is refused.
pub fn route_reply(id: u64) -> (r: Result<ProxyReplyTarget, ContractError>)
    ensures
        id == WITHDRAW_REPLY_ID ==> r == Ok::<_, ContractError>(ProxyReplyTarget::WithdrawSettled),
        id == PROPOSE_MEMBER_REPLY_ID ==> r == Ok::<_, ContractError>(
            ProxyReplyTarget::ProposalForwarded,
        ),
        id != WITHDRAW_REPLY_ID && id != PROPOSE_MEMBER_REPLY_ID ==> r == Err::<
            ProxyReplyTarget,
            _,
        >(ContractError::UnrecognizedReplyId(id)),
{
    if id == WITHDRAW_REPLY_ID {
        Ok(ProxyReplyTarget::WithdrawSettled)
    } else if id == PROPOSE_MEMBER_REPLY_ID {
        Ok(ProxyReplyTarget::ProposalForwarded)
    } else {
        Err(ContractError::UnrecognizedReplyId(id))
    }
}

/// Relies on `cw_utils::must_pay`: it returns the attached amount exactly
/// when the funds are a single coin of the requested denomination with a
/// non-zero amount, and says which way the payment is wrong otherwise. It
/// reads nothing but the funds and the denomination.
#[verifier::external_body]
fn must_pay_funds(funds: &Vec<Coin>, denom: &String) -> (r: Result<u128, PaymentError>)
    ensures
        match r {
            Ok(a) => one_valid_coin(funds@, denom@) && a == funds@[0].amount,
            Err(PaymentError::NoFunds) => funds@.len() == 0 || (funds@.len() == 1
                && funds@[0].amount == 0),
            Err(PaymentError::MultipleDenoms) => funds@.len() > 1,
            Err(PaymentError::MissingDenom(d)) => d@ == denom@ && funds@.len() == 1
                && funds@[0].amount > 0 && funds@[0].denom@ != denom@,
            Err(_) => false,
        },
{
    let info = cosmwasm_std::MessageInfo {
        sender: cosmwasm_std::Addr::unchecked(""),
        funds: funds.iter().map(
            |c| cosmwasm_std::Coin::new(c.amount, c.denom.clone()),
        ).collect(),
    };
    match cw_utils::must_pay(&info, denom.as_str()) {
        Ok(a) => Ok(a.u128()),
        Err(cw_utils::PaymentError::MissingDenom(d)) => Err(PaymentError::MissingDenom(d)),
        Err(cw_utils::PaymentError::ExtraDenom(d)) => Err(PaymentError::ExtraDenom(d)),
        Err(cw_utils::PaymentError::MultipleDenoms {}) => Err(PaymentError::MultipleDenoms),
        Err(cw_utils::PaymentError::NoFunds {}) => Err(PaymentError::NoFunds),
        Err(cw_utils::PaymentError::NonPayable {}) => Err(PaymentError::NonPayable),
    }
}

} // verus!
