use nft_registry::contract_source::ContractSourceMetadata;
use nft_registry::nft_core::PromiseOutcome;
use nft_registry::registry::Contract;
use nft_registry::str_map::StringMap;
use nft_registry::token::TokenMetadata;
use nft_registry::{Error, RequestContext};

fn ctx(who: &str, deposit: u128) -> RequestContext {
    RequestContext {
        predecessor_id: who.to_string(),
        attached_deposit: deposit,
        prepaid_gas: 300_000_000_000_000,
    }
}

fn empty_metadata() -> TokenMetadata {
    TokenMetadata {
        title: None,
        description: None,
        media: None,
        media_hash: None,
        copies: None,
        issued_at: None,
        expires_at: None,
        starts_at: None,
        updated_at: None,
        extra: None,
        reference: None,
        reference_hash: None,
    }
}

fn fresh_registry(owner: &str) -> Contract {
    Contract::new(
        owner.to_string(),
        nft_registry::token::NFTMetadata {
            spec: "nft-1.0.0".to_string(),
            name: "registry".to_string(),
            symbol: "REG".to_string(),
            icon: None,
            base_uri: None,
            reference: None,
            reference_hash: None,
        },
        ContractSourceMetadata {
            version: None,
            commit_hash: None,
            link: None,
        },
        StringMap::new(),
        Some(true),
    )
}

fn mint(c: &mut Contract, token: &str, owner: &str, royalty: &[(&str, u32)]) {
    let mut r: StringMap<u32> = StringMap::new();
    for (k, v) in royalty {
        r.insert(k.to_string(), *v);
    }
    c.add_token(
        token.to_string(),
        owner.to_string(),
        r,
        Some("art".to_string()),
        empty_metadata(),
    );
}

#[test]
fn payout_scenario_with_all_roles() {
    let mut c = fresh_registry("registry");
    mint(&mut c, "t1", "alice", &[("bob", 500)]);
    c.set_contract_royalty_owner(&ctx("registry", 0), 200).unwrap();
    c.set_contract_royalty_satori(&ctx("registry", 0), 100).unwrap();
    let p = c.nft_payout(&"t1".to_string(), 10000, 10).unwrap();
    assert_eq!(p.payout.get(&"bob".to_string()), Some(&500u128));
    assert_eq!(p.payout.get(&"registry".to_string()), Some(&200u128));
    assert_eq!(p.payout.get(&"snft.near".to_string()), Some(&100u128));
    assert_eq!(p.payout.get(&"alice".to_string()), Some(&9200u128));
    assert_eq!(p.payout.len(), 4);
}

#[test]
fn payout_omits_zero_remainder() {
    let mut c = fresh_registry("registry");
    mint(&mut c, "t1", "alice", &[("bob", 10000)]);
    let p = c.nft_payout(&"t1".to_string(), 10000, 10).unwrap();
    assert_eq!(p.payout.get(&"bob".to_string()), Some(&10000u128));
    assert_eq!(p.payout.get(&"alice".to_string()), None);
}

#[test]
fn payout_too_many_receivers() {
    let mut c = fresh_registry("registry");
    mint(&mut c, "t1", "alice", &[("bob", 100), ("carol", 100)]);
    assert!(matches!(
        c.nft_payout(&"t1".to_string(), 10000, 1),
        Err(Error::TooManyReceivers)
    ));
}

#[test]
fn payout_missing_token() {
    let c = fresh_registry("registry");
    assert!(matches!(
        c.nft_payout(&"nope".to_string(), 10000, 10),
        Err(Error::NotFound)
    ));
}

#[test]
fn payout_query_does_not_enforce_combined_cap() {
    // The read-only query accepts a royalty total far above the combined
    // caps; the transfer-time variant refuses the same configuration.
    // This asymmetry is deliberate and pinned down here.
    let mut c = fresh_registry("registry");
    mint(&mut c, "t1", "alice", &[("bob", 5000)]);
    c.nft_approve(&ctx("alice", 1_000_000_000_000_000_000_000), "t1".to_string(), "dave".to_string(), None)
        .unwrap();
    let p = c.nft_payout(&"t1".to_string(), 10000, 10).unwrap();
    assert_eq!(p.payout.get(&"bob".to_string()), Some(&5000u128));
    let r = c.nft_transfer_payout(
        &ctx("dave", 1),
        "erin1".to_string(),
        "t1".to_string(),
        0,
        None,
        Some(10000),
        Some(10),
    );
    assert!(matches!(r, Err(Error::RoyaltyCapExceeded)));
    // The refused transfer changed nothing: alice still owns t1.
    let j = c.nft_token("t1".to_string()).unwrap();
    assert_eq!(j.owner_id, "alice".to_string());
}

#[test]
fn transfer_payout_splits_balance() {
    let mut c = fresh_registry("registry");
    mint(&mut c, "t1", "alice", &[("bob", 500)]);
    c.nft_approve(&ctx("alice", 1_000_000_000_000_000_000_000), "t1".to_string(), "dave".to_string(), None)
        .unwrap();
    let (payout, event, _refund) = match c
        .nft_transfer_payout(
            &ctx("dave", 1),
            "erin1".to_string(),
            "t1".to_string(),
            0,
            None,
            Some(10000),
            Some(10),
        ) {
        Ok(v) => v,
        Err(e) => panic!("transfer refused: {:?}", e),
    };
    let payout = payout.unwrap();
    assert_eq!(payout.payout.get(&"bob".to_string()), Some(&500u128));
    assert_eq!(payout.payout.get(&"alice".to_string()), Some(&9500u128));
    assert_eq!(event.old_owner_id, "alice".to_string());
    assert_eq!(event.new_owner_id, "erin1".to_string());
    assert_eq!(event.token_id, "t1".to_string());
    let j = c.nft_token("t1".to_string()).unwrap();
    assert_eq!(j.owner_id, "erin1".to_string());
}

#[test]
fn transfer_errors_leave_state_alone() {
    let mut c = fresh_registry("registry");
    mint(&mut c, "t1", "alice", &[]);
    // Wrong deposit.
    assert_eq!(
        c.nft_transfer(&ctx("alice", 0), "bob".to_string(), "t1".to_string(), None, None),
        Err(Error::InsufficientDeposit)
    );
    // Missing token.
    assert_eq!(
        c.nft_transfer(&ctx("alice", 1), "bob".to_string(), "t2".to_string(), None, None),
        Err(Error::NotFound)
    );
    // A stranger may not transfer.
    assert_eq!(
        c.nft_transfer(&ctx("mallory", 1), "bob".to_string(), "t1".to_string(), None, None),
        Err(Error::Unauthorized)
    );
    // A transfer to the current owner is refused.
    assert_eq!(
        c.nft_transfer(&ctx("alice", 1), "alice".to_string(), "t1".to_string(), None, None),
        Err(Error::Unauthorized)
    );
    let j = c.nft_token("t1".to_string()).unwrap();
    assert_eq!(j.owner_id, "alice".to_string());
}

#[test]
fn approval_ids_increase_and_transfer_invalidates() {
    let mut c = fresh_registry("registry");
    mint(&mut c, "t1", "alice", &[]);
    let deposit = 1_000_000_000_000_000_000_000u128;
    let (_, notice) = c
        .nft_approve(
            &ctx("alice", deposit),
            "t1".to_string(),
            "carol".to_string(),
            Some("m".to_string()),
        )
        .unwrap();
    assert_eq!(notice.unwrap().approval_id, 0);
    let (_, notice) = c
        .nft_approve(
            &ctx("alice", deposit),
            "t1".to_string(),
            "dave".to_string(),
            Some("m".to_string()),
        )
        .unwrap();
    assert_eq!(notice.unwrap().approval_id, 1);
    // Alice transfers directly to erin1; carol's approval is cleared.
    c.nft_transfer(&ctx("alice", 1), "erin1".to_string(), "t1".to_string(), None, None)
        .unwrap();
    // Carol's old approval id no longer authorizes anything.
    assert_eq!(
        c.nft_transfer(
            &ctx("carol", 1),
            "frank".to_string(),
            "t1".to_string(),
            Some(0),
            None
        ),
        Err(Error::Unauthorized)
    );
    // The counter was not reset by the transfer: the next grant gets id 2.
    let (_, notice) = c
        .nft_approve(
            &ctx("erin1", deposit),
            "t1".to_string(),
            "carol".to_string(),
            Some("m".to_string()),
        )
        .unwrap();
    assert_eq!(notice.unwrap().approval_id, 2);
}

#[test]
fn approve_requires_owner_and_deposit() {
    let mut c = fresh_registry("registry");
    mint(&mut c, "t1", "alice", &[]);
    assert!(matches!(
        c.nft_approve(&ctx("bob", 10), "t1".to_string(), "carol".to_string(), None),
        Err(Error::Unauthorized)
    ));
    assert!(matches!(
        c.nft_approve(&ctx("alice", 0), "t1".to_string(), "carol".to_string(), None),
        Err(Error::InsufficientDeposit)
    ));
    // One attached unit is not enough to pay a new entry's storage.
    assert!(matches!(
        c.nft_approve(&ctx("alice", 1), "t1".to_string(), "carol".to_string(), None),
        Err(Error::InsufficientDeposit)
    ));
    assert!(matches!(
        c.nft_approve(&ctx("alice", 10), "missing".to_string(), "carol".to_string(), None),
        Err(Error::NotFound)
    ));
}

#[test]
fn approve_refunds_surplus_exactly() {
    let mut c = fresh_registry("registry");
    mint(&mut c, "t1", "alice", &[]);
    // "carol" is 5 characters; an approval entry costs (5 + 12) bytes.
    let price = 10_000_000_000_000_000_000u128;
    let cost = 17u128 * price;
    let (refund, _) = c
        .nft_approve(&ctx("alice", cost + 7), "t1".to_string(), "carol".to_string(), None)
        .unwrap();
    assert_eq!(refund, 7);
    // Overwriting the same grant needs no new storage.
    let (refund, _) = c
        .nft_approve(&ctx("alice", 9), "t1".to_string(), "carol".to_string(), None)
        .unwrap();
    assert_eq!(refund, 9);
}

#[test]
fn revoke_refunds_and_ignores_absent() {
    let mut c = fresh_registry("registry");
    mint(&mut c, "t1", "alice", &[]);
    let deposit = 1_000_000_000_000_000_000_000u128;
    c.nft_approve(&ctx("alice", deposit), "t1".to_string(), "carol".to_string(), None)
        .unwrap();
    let price = 10_000_000_000_000_000_000u128;
    let refund = c
        .nft_revoke(&ctx("alice", 1), "t1".to_string(), "carol".to_string())
        .unwrap();
    assert_eq!(refund, 17 * price);
    // Revoking an absent grant is a no-op, not an error.
    let refund = c
        .nft_revoke(&ctx("alice", 1), "t1".to_string(), "carol".to_string())
        .unwrap();
    assert_eq!(refund, 0);
    assert_eq!(
        c.nft_revoke(&ctx("bob", 1), "t1".to_string(), "carol".to_string()),
        Err(Error::Unauthorized)
    );
}

#[test]
fn revoke_all_clears_every_grant() {
    let mut c = fresh_registry("registry");
    mint(&mut c, "t1", "alice", &[]);
    let deposit = 1_000_000_000_000_000_000_000u128;
    c.nft_approve(&ctx("alice", deposit), "t1".to_string(), "carol".to_string(), None)
        .unwrap();
    c.nft_approve(&ctx("alice", deposit), "t1".to_string(), "dave".to_string(), None)
        .unwrap();
    let price = 10_000_000_000_000_000_000u128;
    let refund = c.nft_revoke_all(&ctx("alice", 1), "t1".to_string()).unwrap();
    // "carol" costs 17 bytes, "dave" costs 16.
    assert_eq!(refund, (17 + 16) * price);
    let j = c.nft_token("t1".to_string()).unwrap();
    assert_eq!(j.approved_account_ids.len(), 0);
}

#[test]
fn resolve_rollback_returns_token() {
    let mut c = fresh_registry("registry");
    mint(&mut c, "t1", "alice", &[]);
    let deposit = 1_000_000_000_000_000_000_000u128;
    c.nft_approve(&ctx("alice", deposit), "t1".to_string(), "carol".to_string(), None)
        .unwrap();
    let n = c
        .nft_transfer_call(
            &ctx("alice", 1),
            "erin1".to_string(),
            "t1".to_string(),
            99,
            None,
            "take it".to_string(),
        );
    // The owner needs no approval id match.
    let n = match n {
        Ok(n) => n,
        Err(e) => panic!("dispatch failed: {:?}", e),
    };
    assert_eq!(n.receiver_id, "erin1".to_string());
    assert_eq!(n.previous_owner_id, "alice".to_string());
    // While in flight the receiver owns it.
    assert_eq!(c.nft_token("t1".to_string()).unwrap().owner_id, "erin1".to_string());
    // The receiver reports "return": the transfer rolls back.
    let (returned, refund_to, _refund) = c
        .nft_resolve_transfer("t1".to_string(), PromiseOutcome::Successful(b"true".to_vec()))
        .unwrap();
    assert!(returned);
    assert_eq!(refund_to, "erin1".to_string());
    let j = c.nft_token("t1".to_string()).unwrap();
    assert_eq!(j.owner_id, "alice".to_string());
    // The approval set captured at dispatch time is restored.
    assert_eq!(j.approved_account_ids.get(&"carol".to_string()), Some(&0u64));
}

#[test]
fn resolve_kept_commits() {
    let mut c = fresh_registry("registry");
    mint(&mut c, "t1", "alice", &[]);
    c.nft_transfer_call(
        &ctx("alice", 1),
        "erin1".to_string(),
        "t1".to_string(),
        0,
        None,
        "keep it".to_string(),
    )
    .unwrap();
    let (returned, refund_to, _refund) = c
        .nft_resolve_transfer("t1".to_string(), PromiseOutcome::Successful(b"false".to_vec()))
        .unwrap();
    assert!(!returned);
    assert_eq!(refund_to, "alice".to_string());
    assert_eq!(c.nft_token("t1".to_string()).unwrap().owner_id, "erin1".to_string());
    // The pending record is consumed: a second callback finds nothing.
    assert_eq!(
        c.nft_resolve_transfer("t1".to_string(), PromiseOutcome::Failed),
        Err(Error::NotFound)
    );
}

#[test]
fn resolve_failed_outcome_rolls_back() {
    let mut c = fresh_registry("registry");
    mint(&mut c, "t1", "alice", &[]);
    c.nft_transfer_call(
        &ctx("alice", 1),
        "erin1".to_string(),
        "t1".to_string(),
        0,
        None,
        "m".to_string(),
    )
    .unwrap();
    let (returned, _, _) = c
        .nft_resolve_transfer("t1".to_string(), PromiseOutcome::Failed)
        .unwrap();
    assert!(returned);
    assert_eq!(c.nft_token("t1".to_string()).unwrap().owner_id, "alice".to_string());
}

#[test]
fn resolve_undecodable_payload_rolls_back() {
    let mut c = fresh_registry("registry");
    mint(&mut c, "t1", "alice", &[]);
    c.nft_transfer_call(
        &ctx("alice", 1),
        "erin1".to_string(),
        "t1".to_string(),
        0,
        None,
        "m".to_string(),
    )
    .unwrap();
    // Bytes that decode to no boolean are the failure branch, not "keep".
    let (returned, _, _) = c
        .nft_resolve_transfer("t1".to_string(), PromiseOutcome::Successful(b"junk".to_vec()))
        .unwrap();
    assert!(returned);
    assert_eq!(c.nft_token("t1".to_string()).unwrap().owner_id, "alice".to_string());
}

#[test]
fn resolve_forced_commit_when_token_moved_on() {
    let mut c = fresh_registry("registry");
    mint(&mut c, "t1", "alice", &[]);
    c.nft_transfer_call(
        &ctx("alice", 1),
        "erin1".to_string(),
        "t1".to_string(),
        0,
        None,
        "m".to_string(),
    )
    .unwrap();
    // Before the callback fires, the receiver passes the token onward.
    c.nft_transfer(&ctx("erin1", 1), "frank".to_string(), "t1".to_string(), None, None)
        .unwrap();
    // Reconciliation sees owner frank, not erin1: forced commit. The
    // report still says return was requested, but ownership stays put.
    let (returned, refund_to, _) = c
        .nft_resolve_transfer("t1".to_string(), PromiseOutcome::Successful(b"true".to_vec()))
        .unwrap();
    assert!(returned);
    assert_eq!(refund_to, "alice".to_string());
    assert_eq!(c.nft_token("t1".to_string()).unwrap().owner_id, "frank".to_string());
}

#[test]
fn nft_token_defaults_title_to_token_id() {
    let mut c = fresh_registry("registry");
    mint(&mut c, "t1", "alice", &[]);
    let j = c.nft_token("t1".to_string()).unwrap();
    assert_eq!(j.metadata.title, Some("t1".to_string()));
    assert_eq!(j.token_type, Some("art".to_string()));
    assert!(c.nft_token("t2".to_string()).is_none());
}

#[test]
fn total_supply_counts_minted_tokens() {
    let mut c = fresh_registry("registry");
    assert_eq!(c.nft_total_supply(), 0);
    mint(&mut c, "t1", "alice", &[]);
    mint(&mut c, "t2", "bob", &[]);
    assert_eq!(c.nft_total_supply(), 2);
}
