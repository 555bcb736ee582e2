//! The proxy account machine: donations and their split, weight decay on
//! the half-life schedule, the staged-withdrawal protocol, the relay path,
//! and the closed flag.

use membership::error::{ContractError, PaymentError};
use membership::fraction::Fraction;
use membership::msg::{Coin, ProxyInstantiateMsg};
use membership::proxy::{
    proposal_forwarded, route_reply, ProxyAction, ProxyReplyTarget, ProxyState, WeightUpdate,
    PROPOSE_MEMBER_REPLY_ID, WITHDRAW_REPLY_ID,
};

fn init_msg() -> ProxyInstantiateMsg {
    ProxyInstantiateMsg {
        owner: "alice".to_string(),
        weight: 10,
        denom: "ORAI".to_string(),
        direct_part: Fraction::percent(15),
        distribution_contract: "dist".to_string(),
        membership_contract: "memb".to_string(),
        halftime: 100,
    }
}

fn coins(denom: &str, amount: u128) -> Vec<Coin> {
    vec![Coin { denom: denom.to_string(), amount }]
}

#[test]
fn instantiate_sets_the_account_up() {
    let p = ProxyState::instantiate(init_msg(), 1000);
    assert_eq!(p.owner, "alice");
    assert_eq!(p.weight, 10);
    assert_eq!(p.last_updated, 1000);
    assert_eq!(p.donations, 0);
    assert!(!p.is_closed);
    assert_eq!(p.pending_withdrawal, None);
}

#[test]
fn donate_splits_direct_share_from_distribution_share() {
    let mut p = ProxyState::instantiate(init_msg(), 0);
    let action = p.donate(&coins("ORAI", 100)).unwrap();
    // 15% of 100 is retained; 85 go to the custodian.
    assert_eq!(
        action,
        ProxyAction::Distribute {
            contract: "dist".to_string(),
            denom: "ORAI".to_string(),
            amount: 85,
        }
    );
    assert_eq!(p.donations, 1);

    // Truncation: 15% of 7 is 1 (truncating), 6 are distributed.
    let action = p.donate(&coins("ORAI", 7)).unwrap();
    assert_eq!(
        action,
        ProxyAction::Distribute {
            contract: "dist".to_string(),
            denom: "ORAI".to_string(),
            amount: 6,
        }
    );
    assert_eq!(p.donations, 2);
}

#[test]
fn donate_refuses_bad_payments() {
    let mut p = ProxyState::instantiate(init_msg(), 0);
    let err = p.donate(&vec![]).unwrap_err();
    assert_eq!(err, ContractError::Payment(PaymentError::NoFunds));

    let err = p.donate(&coins("ORAI", 0)).unwrap_err();
    assert_eq!(err, ContractError::Payment(PaymentError::NoFunds));

    let err = p.donate(&coins("ATOM", 5)).unwrap_err();
    assert_eq!(
        err,
        ContractError::Payment(PaymentError::MissingDenom("ORAI".to_string()))
    );

    let mut two = coins("ORAI", 5);
    two.extend(coins("ATOM", 5));
    let err = p.donate(&two).unwrap_err();
    assert_eq!(err, ContractError::Payment(PaymentError::MultipleDenoms));

    assert_eq!(p.donations, 0);
}

#[test]
fn weight_decays_once_per_halftime() {
    let mut p = ProxyState::instantiate(init_msg(), 1000);
    p.weight = 11;

    // Within the half-life: no decay, weight untouched.
    assert_eq!(p.update_weight(1050).unwrap(), WeightUpdate::Skipped);
    assert_eq!(p.weight, 11);

    // Exactly at the boundary the decay is due: 11 - 11/2 = 6, the
    // differential sent down is the signed change -5.
    let r = p.update_weight(1100).unwrap();
    assert_eq!(
        r,
        WeightUpdate::Halved {
            withdraw: ProxyAction::WithdrawShare {
                contract: "dist".to_string(),
                weight: 11,
                diff: -5,
            }
        }
    );
    assert_eq!(p.weight, 6);
    assert_eq!(p.last_updated, 1100);

    // A second call within the new half-life does nothing.
    assert_eq!(p.update_weight(1150).unwrap(), WeightUpdate::Skipped);
    assert_eq!(p.weight, 6);

    // After another full half-life it halves again: 6 - 3 = 3.
    let r = p.update_weight(1200).unwrap();
    assert_eq!(
        r,
        WeightUpdate::Halved {
            withdraw: ProxyAction::WithdrawShare {
                contract: "dist".to_string(),
                weight: 6,
                diff: -3,
            }
        }
    );
    assert_eq!(p.weight, 3);
}

#[test]
fn owner_relays_proposals() {
    let p = ProxyState::instantiate(init_msg(), 0);
    let err = p
        .propose_member(&"mallory".to_string(), "cand".to_string())
        .unwrap_err();
    assert_eq!(err, ContractError::Unauthorized);

    let action = p
        .propose_member(&"alice".to_string(), "cand".to_string())
        .unwrap();
    assert_eq!(
        action,
        ProxyAction::ForwardProposal {
            contract: "memb".to_string(),
            addr: "cand".to_string(),
        }
    );
}

#[test]
fn withdrawal_transfers_staged_amount() {
    let mut p = ProxyState::instantiate(init_msg(), 0);
    let action = p
        .request_withdrawal(&"alice".to_string(), Some("carol".to_string()), Some(40))
        .unwrap();
    assert_eq!(action, ProxyAction::Settle { contract: "dist".to_string() });

    // A second request while one intent is outstanding is refused.
    let err = p
        .request_withdrawal(&"alice".to_string(), None, None)
        .unwrap_err();
    assert_eq!(err, ContractError::WithdrawalPending);

    // The continuation pays out exactly the staged amount, to the staged
    // receiver, whatever balance it observes.
    let action = p.withdraw_settled(100).unwrap();
    assert_eq!(
        action,
        ProxyAction::Send {
            to_address: "carol".to_string(),
            denom: "ORAI".to_string(),
            amount: 40,
        }
    );

    // The intent is cleared: a second continuation finds nothing staged.
    let err = p.withdraw_settled(100).unwrap_err();
    assert_eq!(err, ContractError::MissingPendingState);
}

#[test]
fn withdrawal_without_amount_takes_whole_balance() {
    let mut p = ProxyState::instantiate(init_msg(), 0);
    // No receiver named: the owner receives.
    p.request_withdrawal(&"alice".to_string(), None, None).unwrap();
    let action = p.withdraw_settled(123).unwrap();
    assert_eq!(
        action,
        ProxyAction::Send {
            to_address: "alice".to_string(),
            denom: "ORAI".to_string(),
            amount: 123,
        }
    );
}

#[test]
fn withdrawal_is_owner_only() {
    let mut p = ProxyState::instantiate(init_msg(), 0);
    let err = p
        .request_withdrawal(&"mallory".to_string(), None, None)
        .unwrap_err();
    assert_eq!(err, ContractError::Unauthorized);
    assert_eq!(p.pending_withdrawal, None);
}

#[test]
fn closed_account_refuses_mutations() {
    let mut p = ProxyState::instantiate(init_msg(), 0);
    let err = p.close(&"mallory".to_string()).unwrap_err();
    assert_eq!(err, ContractError::Unauthorized);

    p.close(&"alice".to_string()).unwrap();
    assert!(p.is_closed);

    assert_eq!(
        p.close(&"alice".to_string()).unwrap_err(),
        ContractError::AlreadyClosed
    );
    assert_eq!(
        p.donate(&coins("ORAI", 100)).unwrap_err(),
        ContractError::AlreadyClosed
    );
    assert_eq!(
        p.update_weight(10_000).unwrap_err(),
        ContractError::AlreadyClosed
    );
    assert_eq!(
        p.request_withdrawal(&"alice".to_string(), None, None)
            .unwrap_err(),
        ContractError::AlreadyClosed
    );
}

#[test]
fn forwarded_proposal_passes_data_through() {
    let data = vec![1u8, 2, 3];
    assert_eq!(
        proposal_forwarded(Ok(Some(data.clone()))).unwrap(),
        Some(data)
    );
    assert_eq!(proposal_forwarded(Ok(None)).unwrap(), None);
    assert_eq!(
        proposal_forwarded(Err("boom".to_string())).unwrap_err(),
        ContractError::Std("boom".to_string())
    );
}

#[test]
fn proxy_reply_router() {
    assert_eq!(
        route_reply(WITHDRAW_REPLY_ID).unwrap(),
        ProxyReplyTarget::WithdrawSettled
    );
    assert_eq!(
        route_reply(PROPOSE_MEMBER_REPLY_ID).unwrap(),
        ProxyReplyTarget::ProposalForwarded
    );
    assert_eq!(
        route_reply(77).unwrap_err(),
        ContractError::UnrecognizedReplyId(77)
    );
}

#[test]
fn fraction_percent_truncates_toward_zero() {
    assert_eq!(Fraction::percent(15).mul_floor(100), 15);
    assert_eq!(Fraction::percent(15).mul_floor(7), 1);
    assert_eq!(Fraction::percent(0).mul_floor(1000), 0);
    assert_eq!(Fraction::percent(100).mul_floor(1000), 1000);
}
