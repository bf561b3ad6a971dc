use nft_registry::contract_source::{
    ContractSourceMetadata, ContractSourceMetadataTrait, VersionedContractSourceMetadata,
};
use nft_registry::market::{Contract as MarketContract, STORAGE_PER_SALE};
use nft_registry::registry::{Contract, ContractV2};
use nft_registry::str_map::{StringMap, StringSet};
use nft_registry::{Error, RequestContext};

fn ctx(who: &str, deposit: u128) -> RequestContext {
    RequestContext {
        predecessor_id: who.to_string(),
        attached_deposit: deposit,
        prepaid_gas: 300_000_000_000_000,
    }
}

fn fresh(owner: &str) -> Contract {
    Contract::new_default_meta(owner.to_string(), StringMap::new())
}

#[test]
fn default_meta_is_fixed() {
    let c = fresh("registry");
    let m = c.metadata.as_ref().unwrap();
    assert_eq!(m.spec, "nft-1.0.0".to_string());
    assert_eq!(m.name, "Sonar by Satori".to_string());
    assert_eq!(m.symbol, "SONAR".to_string());
    assert!(m.icon.is_some());
    let s = c.source_metadata_record().unwrap();
    assert_eq!(s.version, Some("1.0.0".to_string()));
    assert_eq!(s.link, Some("https://github.com/satori-hq/nft-series".to_string()));
}

#[test]
fn royalty_rate_setters_enforce_caps_and_owner() {
    let mut c = fresh("registry");
    assert_eq!(
        c.set_contract_royalty_owner(&ctx("mallory", 0), 100),
        Err(Error::Unauthorized)
    );
    assert_eq!(
        c.set_contract_royalty_owner(&ctx("registry", 0), 1001),
        Err(Error::RoyaltyCapExceeded)
    );
    c.set_contract_royalty_owner(&ctx("registry", 0), 1000).unwrap();
    assert_eq!(
        c.set_contract_royalty_satori(&ctx("registry", 0), 251),
        Err(Error::RoyaltyCapExceeded)
    );
    c.set_contract_royalty_satori(&ctx("registry", 0), 250).unwrap();
    assert_eq!(c.get_contract_royalty(), 1250);
}

#[test]
fn token_types_lock_and_unlock() {
    let mut caps: StringMap<u64> = StringMap::new();
    caps.insert("art".to_string(), 10);
    let mut c = Contract::new(
        "registry".to_string(),
        nft_registry::token::NFTMetadata {
            spec: "nft-1.0.0".to_string(),
            name: "r".to_string(),
            symbol: "R".to_string(),
            icon: None,
            base_uri: None,
            reference: None,
            reference_hash: None,
        },
        ContractSourceMetadata { version: None, commit_hash: None, link: None },
        caps,
        None,
    );
    // Types are locked by default.
    let locked = c.get_token_types_locked();
    assert_eq!(locked, vec!["art".to_string()]);
    c.add_token(
        "t1".to_string(),
        "alice".to_string(),
        StringMap::new(),
        Some("art".to_string()),
        nft_registry::token::TokenMetadata {
            title: None,
            description: None,
            media: None,
            media_hash: None,
            copies: None,
            issued_at: None,
            expires_at: None,
            starts_at: None,
            updated_at: None,
            extra: None,
            reference: None,
            reference_hash: None,
        },
    );
    assert_eq!(c.is_token_locked(&"t1".to_string()), Ok(true));
    c.unlock_token_types(&ctx("registry", 0), vec!["art".to_string()]).unwrap();
    assert_eq!(c.is_token_locked(&"t1".to_string()), Ok(false));
    assert_eq!(c.is_token_locked(&"t2".to_string()), Err(Error::NotFound));
    // Adding a further type extends the caps.
    let mut more: StringMap<u64> = StringMap::new();
    more.insert("music".to_string(), 5);
    c.add_token_types(&ctx("registry", 0), more, None).unwrap();
    assert_eq!(c.get_supply_caps().get(&"music".to_string()), Some(&5u64));
    assert_eq!(c.get_token_types_locked(), vec!["music".to_string()]);
}

#[test]
fn set_token_royalty_is_owner_only() {
    let mut c = fresh("registry");
    c.add_token(
        "t1".to_string(),
        "alice".to_string(),
        StringMap::new(),
        None,
        nft_registry::token::TokenMetadata {
            title: None,
            description: None,
            media: None,
            media_hash: None,
            copies: None,
            issued_at: None,
            expires_at: None,
            starts_at: None,
            updated_at: None,
            extra: None,
            reference: None,
            reference_hash: None,
        },
    );
    let mut r: StringMap<u32> = StringMap::new();
    r.insert("bob".to_string(), 700);
    assert_eq!(
        c.set_token_royalty(&ctx("alice", 0), "t1".to_string(), StringMap::new()),
        Err(Error::Unauthorized)
    );
    c.set_token_royalty(&ctx("registry", 0), "t1".to_string(), r).unwrap();
    let p = c.nft_payout(&"t1".to_string(), 10000, 10).unwrap();
    assert_eq!(p.payout.get(&"bob".to_string()), Some(&700u128));
}

#[test]
fn patch_source_metadata_merges_fields() {
    let mut c = fresh("registry");
    assert!(matches!(
        c.patch_contract_source_metadata(
            &ctx("mallory", 0),
            ContractSourceMetadata { version: None, commit_hash: None, link: None }
        ),
        Err(Error::Unauthorized)
    ));
    let big = 1_000_000_000_000_000_000_000_000u128;
    let refund = c
        .patch_contract_source_metadata(
            &ctx("registry", big),
            ContractSourceMetadata {
                version: Some("2.0.0-rc1".to_string()),
                commit_hash: None,
                link: None,
            },
        )
        .unwrap();
    // "2.0.0-rc1" is four characters longer than "1.0.0": the growth is
    // billed at the byte price and the rest of the deposit comes back.
    assert_eq!(refund, big - 4 * 10_000_000_000_000_000_000);
    let s = c.source_metadata_record().unwrap();
    // The supplied field replaced the stored one; the others were kept.
    assert_eq!(s.version, Some("2.0.0-rc1".to_string()));
    assert_eq!(s.link, Some("https://github.com/satori-hq/nft-series".to_string()));
}

#[test]
fn patch_source_metadata_needs_deposit_for_growth() {
    let mut c = fresh("registry");
    let r = c.patch_contract_source_metadata(
        &ctx("registry", 0),
        ContractSourceMetadata {
            version: None,
            commit_hash: None,
            link: Some("https://example.com/a-much-longer-link-than-before-x".to_string()),
        },
    );
    assert!(matches!(r, Err(Error::InsufficientDeposit)));
}

#[test]
fn patch_base_uri_updates_metadata() {
    let mut c = fresh("registry");
    assert_eq!(
        c.patch_base_uri(&ctx("mallory", 0), None),
        Err(Error::Unauthorized)
    );
    let big = 1_000_000_000_000_000_000_000_000u128;
    c.patch_base_uri(&ctx("registry", big), Some("https://cdn.example".to_string()))
        .unwrap();
    assert_eq!(
        c.metadata.as_ref().unwrap().base_uri,
        Some("https://cdn.example".to_string())
    );
}

#[test]
fn migrate_carries_state_forward() {
    let v2 = ContractV2 {
        contract_source_metadata: Some(VersionedContractSourceMetadata::Current(
            ContractSourceMetadata { version: None, commit_hash: None, link: None },
        )),
        tokens_per_owner: StringMap::new(),
        tokens_by_id: StringMap::new(),
        token_metadata_by_id: StringMap::new(),
        owner_id: "registry".to_string(),
        extra_storage_in_bytes_per_token: 0,
        metadata: None,
        supply_cap_by_type: StringMap::new(),
        tokens_per_type: StringMap::new(),
        token_types_locked: StringSet::new(),
        contract_royalty: 700,
    };
    let c = Contract::migrate(v2);
    assert_eq!(c.owner_id, "registry".to_string());
    assert_eq!(c.contract_royalty_owner, 700);
    assert_eq!(c.contract_royalty_satori, 250);
    assert!(c.contract_source_metadata.is_none());
}

#[test]
fn market_deposit_and_withdraw_round_trip() {
    let mut m = MarketContract::new("marketowner".to_string(), None, None);
    assert_eq!(
        m.storage_deposit(&ctx("alice", STORAGE_PER_SALE - 1), None),
        Err(Error::InsufficientDeposit)
    );
    m.storage_deposit(&ctx("alice", 3 * STORAGE_PER_SALE), None).unwrap();
    assert_eq!(m.storage_paid(&"alice".to_string()), 3 * STORAGE_PER_SALE);
    // With no active listings the whole balance comes back.
    assert_eq!(
        m.storage_withdraw(&ctx("alice", 0)),
        Err(Error::InsufficientDeposit)
    );
    let paid = m.storage_withdraw(&ctx("alice", 1)).unwrap();
    assert_eq!(paid, 3 * STORAGE_PER_SALE);
    assert_eq!(m.storage_paid(&"alice".to_string()), 0);
}

#[test]
fn market_accepts_native_token_and_additions() {
    let mut m = MarketContract::new(
        "marketowner".to_string(),
        Some(vec!["usdc.token".to_string()]),
        Some(3),
    );
    assert_eq!(m.bid_history_length, 3);
    let supported = m.supported_ft_token_ids();
    assert!(supported.contains(&"near".to_string()));
    assert!(supported.contains(&"usdc.token".to_string()));
    assert_eq!(
        m.add_ft_token_ids(&ctx("mallory", 0), vec!["dai.token".to_string()]),
        Err(Error::Unauthorized)
    );
    let added = m
        .add_ft_token_ids(
            &ctx("marketowner", 0),
            vec!["dai.token".to_string(), "near".to_string()],
        )
        .unwrap();
    assert_eq!(added, vec![true, false]);
    assert_eq!(m.storage_amount(), STORAGE_PER_SALE);
}

#[test]
fn measured_storage_quote_shrinks_with_longer_owner() {
    // The calibration pads by how much longer a maximal key is than the
    // registry owner's.
    let short = Contract::new_default_meta("ab".to_string(), StringMap::new());
    let long = Contract::new_default_meta("abcdef".to_string(), StringMap::new());
    assert_eq!(
        short.extra_storage_in_bytes_per_token - long.extra_storage_in_bytes_per_token,
        4
    );
    assert_eq!(short.extra_storage_in_bytes_per_token, 64 + 40 + 62);
}
