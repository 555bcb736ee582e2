//! The bootstrap barrier and the end-to-end admission flow, driven the way
//! the host ledger would drive them: each creation request is answered by a
//! separately delivered continuation carrying a protobuf-encoded result.

use membership::error::ContractError;
use membership::fraction::Fraction;
use membership::membership::{
    instantiation_data, BootstrapStep, MembershipState, ProposeOutcome, ProxyInstantiation,
    INITIAL_PROXY_INSTANTIATION_REPLY_ID, PROXY_INSTANTIATION_REPLY_ID,
};
use membership::msg::{CodeId, InstantiateMsg};
use membership::proxy::ProxyState;

/// Protobuf-encode an instantiation result the way the ledger frames it:
/// field 1 (length-delimited) holds the created contract's address.
fn instantiate_reply_data(addr: &str) -> Vec<u8> {
    let mut out = vec![0x0a, addr.len() as u8];
    out.extend_from_slice(addr.as_bytes());
    out
}

fn test_msg(minimal_acceptance: u64, initial_members: &[&str]) -> InstantiateMsg {
    InstantiateMsg {
        starting_weight: 10,
        denom: "ORAI".to_string(),
        direct_part: Fraction::percent(15),
        halftime: 3600 * 24 * 30,
        proxy_code_id: CodeId::new(1),
        distribution_code_id: 0,
        minimal_acceptance,
        initial_members: initial_members.iter().map(|m| m.to_string()).collect(),
    }
}

/// The host's side of one creation request: spawn the proxy account and
/// invent its ledger address.
fn spawn_proxy(req: &ProxyInstantiation, n: usize) -> (String, ProxyState) {
    let addr = format!("contract{}", n);
    (addr, ProxyState::instantiate(req.msg.clone(), 0))
}

#[test]
fn adding_member() {
    let denom = "ORAI";
    let initial_members = ["member1", "member2"];
    let candidate = "candidate";

    let membership_addr = "Membership".to_string();
    let (mut state, requests) =
        MembershipState::instantiate(test_msg(2, &initial_members), &membership_addr).unwrap();

    assert_eq!(requests.len(), 2);
    for (i, req) in requests.iter().enumerate() {
        assert_eq!(req.reply_id, INITIAL_PROXY_INSTANTIATION_REPLY_ID);
        assert_eq!(req.msg.owner, initial_members[i]);
        assert_eq!(req.msg.weight, 10);
        assert_eq!(req.msg.denom, denom);
        assert_eq!(req.msg.direct_part, Fraction::percent(15));
        assert_eq!(req.msg.membership_contract, membership_addr);
    }

    // The host executes both creations and delivers the continuations.
    let mut proxies: Vec<(String, ProxyState)> = Vec::new();
    for (i, req) in requests.iter().enumerate() {
        proxies.push(spawn_proxy(req, i + 1));
    }
    let step = state
        .initial_proxy_instantiated(Ok(Some(instantiate_reply_data(&proxies[0].0))))
        .unwrap();
    assert_eq!(
        step,
        BootstrapStep::Progress { proxy_addr: proxies[0].0.clone() }
    );
    let step = state
        .initial_proxy_instantiated(Ok(Some(instantiate_reply_data(&proxies[1].0))))
        .unwrap();
    assert_eq!(step, BootstrapStep::Completed);

    // Terminal firing: enumerate members, read back their owners, report.
    let members = state.members().clone();
    let owners: Vec<String> = members
        .iter()
        .map(|m| {
            proxies
                .iter()
                .find(|(a, _)| a == m)
                .map(|(_, p)| p.owner.clone())
                .unwrap()
        })
        .collect();
    let data = instantiation_data(&members, &owners);
    assert_eq!(data.members.len(), 2);
    for member in &initial_members {
        let entry = data
            .members
            .iter()
            .find(|d| &d.owner_addr == member)
            .unwrap();
        assert!(state.is_member(&entry.proxy_addr));
    }

    // member1 votes for the candidate through its proxy: 1 of 2, pending.
    let proxy1 = &proxies[0].1;
    let forward = proxy1
        .propose_member(&initial_members[0].to_string(), candidate.to_string())
        .unwrap();
    let relayed = match forward {
        membership::proxy::ProxyAction::ForwardProposal { contract, addr } => {
            assert_eq!(contract, membership_addr);
            addr
        }
        other => panic!("not a relay: {:?}", other),
    };
    let outcome = state
        .propose_member(&proxies[0].0, relayed, &owners, &membership_addr)
        .unwrap();
    assert_eq!(outcome, ProposeOutcome::Pending { votes: 1 });

    // member2 votes: 2 of 2, admitted; a tagged creation goes out.
    let outcome = state
        .propose_member(
            &proxies[1].0,
            candidate.to_string(),
            &owners,
            &membership_addr,
        )
        .unwrap();
    let instantiation = match outcome {
        ProposeOutcome::Admitted { instantiation } => instantiation,
        other => panic!("not admitted: {:?}", other),
    };
    assert_eq!(instantiation.reply_id, PROXY_INSTANTIATION_REPLY_ID);
    assert_eq!(instantiation.msg.owner, candidate);

    // The host creates the proxy and the admission continuation lands.
    let (cand_addr, cand_proxy) = spawn_proxy(&instantiation, 3);
    let admitted = state
        .proxy_instantiated(Ok(Some(instantiate_reply_data(&cand_addr))))
        .unwrap();
    assert_eq!(admitted, cand_addr);
    assert_eq!(cand_proxy.owner, candidate);
    assert!(state.is_member(&cand_addr));
}

#[test]
fn bootstrap_refuses_low_threshold() {
    let r = MembershipState::instantiate(test_msg(1, &["a", "b"]), &"m".to_string());
    assert_eq!(r.unwrap_err(), ContractError::NotEnoughRequiredAcceptances);
}

#[test]
fn bootstrap_refuses_too_few_members() {
    let r = MembershipState::instantiate(test_msg(3, &["a", "b"]), &"m".to_string());
    assert_eq!(r.unwrap_err(), ContractError::NotEnoughInitialMembers);
}

#[test]
fn barrier_counts_to_zero_exactly_once() {
    let (mut state, requests) =
        MembershipState::instantiate(test_msg(2, &["a", "b", "c"]), &"m".to_string()).unwrap();
    assert_eq!(requests.len(), 3);

    // Out-of-order delivery is fine; only the count matters.
    let s1 = state.record_initial_member("contract3".to_string()).unwrap();
    assert_eq!(s1, BootstrapStep::Progress { proxy_addr: "contract3".to_string() });
    let s2 = state.record_initial_member("contract1".to_string()).unwrap();
    assert_eq!(s2, BootstrapStep::Progress { proxy_addr: "contract1".to_string() });
    assert_eq!(state.members().len(), 2);

    // The transition from one to zero is the terminal firing.
    let s3 = state.record_initial_member("contract2".to_string()).unwrap();
    assert_eq!(s3, BootstrapStep::Completed);
    assert_eq!(state.members().len(), 3);
    assert_eq!(state.awaiting_initial_resps, 0);

    // A duplicate delivery past zero is a protocol violation.
    let err = state.record_initial_member("contract4".to_string()).unwrap_err();
    assert_eq!(err, ContractError::UnexpectedInitialReply);
    assert_eq!(state.members().len(), 3);
}

#[test]
fn initial_reply_failures_leave_no_trace() {
    let (mut state, _) =
        MembershipState::instantiate(test_msg(2, &["a", "b"]), &"m".to_string()).unwrap();

    let err = state
        .initial_proxy_instantiated(Err("sub-operation failed".to_string()))
        .unwrap_err();
    assert_eq!(err, ContractError::Std("sub-operation failed".to_string()));

    let err = state.initial_proxy_instantiated(Ok(None)).unwrap_err();
    assert_eq!(err, ContractError::MissingData);

    // Field 2 where field 1 is owed: the payload does not decode.
    let err = state
        .initial_proxy_instantiated(Ok(Some(vec![0x12, 0x01, 0x41])))
        .unwrap_err();
    assert!(matches!(err, ContractError::ParseReplyError(_)));

    assert_eq!(state.members().len(), 0);
    assert_eq!(state.awaiting_initial_resps, 2);
}

#[test]
fn custodian_backfilled_once() {
    let (mut state, _) =
        MembershipState::instantiate(test_msg(2, &["a", "b"]), &"m".to_string()).unwrap();
    assert_eq!(state.config.distribution_contract, None);
    state.set_distribution_contract("dist".to_string()).unwrap();
    assert_eq!(state.config.distribution_contract, Some("dist".to_string()));
    let err = state
        .set_distribution_contract("other".to_string())
        .unwrap_err();
    assert_eq!(err, ContractError::CustodianAlreadySet);
    assert_eq!(state.config.distribution_contract, Some("dist".to_string()));
}
