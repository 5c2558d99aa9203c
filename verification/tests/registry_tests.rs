use appchain_registry::appchain_anchor_callback::AppchainAnchorCallback;
use appchain_registry::registry::AppchainRegistry;
use appchain_registry::registry_status::RegistryStatus;
use appchain_registry::types::AppchainMetadata;
use appchain_registry::types::AppchainState;
use appchain_registry::types::AppchainTemplateType;
use appchain_registry::types::RegistryError;
use appchain_registry::types::RegistryRoles;
use appchain_registry::types::RegistrySettings;

fn metadata(description: &str) -> AppchainMetadata {
    AppchainMetadata {
        description: description.to_string(),
        template_type: AppchainTemplateType::Barnacle,
        website_url: "https://example.org".to_string(),
        function_spec_url: String::new(),
        github_address: "https://github.example".to_string(),
        github_release: "v1".to_string(),
        contact_email: "dev@example.org".to_string(),
        premined_wrapped_appchain_token_beneficiary: None,
        premined_wrapped_appchain_token: 0,
        initial_supply_of_wrapped_appchain_token: 1_000_000,
        ido_amount_of_wrapped_appchain_token: 0,
        initial_era_reward: 10,
    }
}

fn registry() -> AppchainRegistry {
    AppchainRegistry::new(
        "registry.owner".to_string(),
        "ed25519:owner-pk".to_string(),
        "oct.token".to_string(),
        RegistrySettings { minimum_register_deposit: 1000 },
        RegistryRoles {
            appchain_lifecycle_manager: "lifecycle.manager".to_string(),
            registry_settings_manager: "settings.manager".to_string(),
            octopus_council: None,
        },
    )
}

fn register(reg: &mut AppchainRegistry, id: &str, deposit: u128, time: u64) {
    let r = reg.register_appchain(
        &"alice".to_string(),
        id.to_string(),
        metadata(id),
        deposit,
        time,
    );
    assert!(r.is_ok());
}

#[test]
fn scenario_chain_a() {
    let mut reg = registry();
    register(&mut reg, "chain-a", 1000, 7);
    let status = reg.get_appchain_status_of("chain-a".to_string()).unwrap();
    assert!(status.appchain_state == AppchainState::Registered);
    assert_eq!(status.voting_score, 0);

    let r = reg.increase_upvote_deposit_of(&"chain-a".to_string(), &"v1".to_string(), 500);
    assert!(r.is_ok());
    let status = reg.get_appchain_status_of("chain-a".to_string()).unwrap();
    assert_eq!(status.upvote_deposit, 500);
    assert_eq!(
        reg.get_upvote_deposit_for("chain-a".to_string(), "v1".to_string()),
        500
    );

    let r = reg.count_voting_score_of(&"chain-a".to_string());
    assert!(r.is_ok());
    let status = reg.get_appchain_status_of("chain-a".to_string()).unwrap();
    assert_eq!(status.voting_score, 500);

    let r = reg.reduce_voting_score_by_percent_of(&"chain-a".to_string(), 50);
    assert!(r.is_ok());
    let status = reg.get_appchain_status_of("chain-a".to_string()).unwrap();
    assert_eq!(status.voting_score, 250);

    let r = reg.decrease_upvote_deposit_of(&"chain-a".to_string(), &"v1".to_string(), 600);
    assert_eq!(r, Err(RegistryError::Arithmetic));
    assert_eq!(
        reg.get_upvote_deposit_for("chain-a".to_string(), "v1".to_string()),
        500
    );
    let status = reg.get_appchain_status_of("chain-a".to_string()).unwrap();
    assert_eq!(status.upvote_deposit, 500);
}

#[test]
fn register_rejects_taken_id_and_small_deposit() {
    let mut reg = registry();
    register(&mut reg, "chain-a", 1000, 1);
    let r = reg.register_appchain(
        &"bob".to_string(),
        "chain-a".to_string(),
        metadata("again"),
        5000,
        2,
    );
    assert_eq!(r, Err(RegistryError::Validation));
    let r = reg.register_appchain(
        &"bob".to_string(),
        "chain-b".to_string(),
        metadata("b"),
        999,
        2,
    );
    assert_eq!(r, Err(RegistryError::Validation));
    assert_eq!(reg.get_appchains_count_of(None), 1);
}

#[test]
fn ownership_transfer_rules() {
    let mut reg = registry();
    register(&mut reg, "chain-a", 1000, 1);
    let r = reg.transfer_appchain_ownership(
        &"mallory".to_string(),
        &"chain-a".to_string(),
        &"bob".to_string(),
    );
    assert_eq!(r, Err(RegistryError::Authorization));
    let r = reg.transfer_appchain_ownership(
        &"alice".to_string(),
        &"chain-a".to_string(),
        &"alice".to_string(),
    );
    assert_eq!(r, Err(RegistryError::Validation));
    let r = reg.transfer_appchain_ownership(
        &"alice".to_string(),
        &"chain-a".to_string(),
        &"bob".to_string(),
    );
    assert!(r.is_ok());
    let status = reg.get_appchain_status_of("chain-a".to_string()).unwrap();
    assert_eq!(status.appchain_owner, "bob".to_string());
    let r = reg.transfer_appchain_ownership(
        &"missing".to_string(),
        &"chain-x".to_string(),
        &"bob".to_string(),
    );
    assert_eq!(r, Err(RegistryError::NotFound));
}

#[test]
fn metadata_update_is_owner_only() {
    let mut reg = registry();
    register(&mut reg, "chain-a", 1000, 1);
    let r = reg.update_appchain_metadata(
        &"bob".to_string(),
        &"chain-a".to_string(),
        metadata("changed"),
    );
    assert_eq!(r, Err(RegistryError::Authorization));
    let r = reg.update_appchain_metadata(
        &"alice".to_string(),
        &"chain-a".to_string(),
        metadata("changed"),
    );
    assert!(r.is_ok());
    let status = reg.get_appchain_status_of("chain-a".to_string()).unwrap();
    assert_eq!(status.appchain_metadata.description, "changed".to_string());
}

#[test]
fn anchor_assignment_is_once_and_manager_only() {
    let mut reg = registry();
    register(&mut reg, "chain-a", 1000, 1);
    let r = reg.set_anchor_account_of(
        &"alice".to_string(),
        &"chain-a".to_string(),
        &"anchor.one".to_string(),
    );
    assert_eq!(r, Err(RegistryError::Authorization));
    let r = reg.set_anchor_account_of(
        &"lifecycle.manager".to_string(),
        &"chain-a".to_string(),
        &String::new(),
    );
    assert_eq!(r, Err(RegistryError::Validation));
    let r = reg.set_anchor_account_of(
        &"lifecycle.manager".to_string(),
        &"chain-a".to_string(),
        &"anchor.one".to_string(),
    );
    assert!(r.is_ok());
    let status = reg.get_appchain_status_of("chain-a".to_string()).unwrap();
    assert_eq!(status.appchain_anchor, "anchor.one".to_string());
    let r = reg.set_anchor_account_of(
        &"lifecycle.manager".to_string(),
        &"chain-a".to_string(),
        &"anchor.two".to_string(),
    );
    assert_eq!(r, Err(RegistryError::Validation));
    let status = reg.get_appchain_status_of("chain-a".to_string()).unwrap();
    assert_eq!(status.appchain_anchor, "anchor.one".to_string());
}

#[test]
fn state_change_rejects_noop_and_enforces_policy() {
    let mut reg = registry();
    register(&mut reg, "chain-a", 1000, 1);
    let r = reg.change_state_of(
        &"lifecycle.manager".to_string(),
        &"chain-a".to_string(),
        AppchainState::Registered,
    );
    assert_eq!(r, Err(RegistryError::Validation));
    let status = reg.get_appchain_status_of("chain-a".to_string()).unwrap();
    assert!(status.appchain_state == AppchainState::Registered);

    let r = reg.change_state_of(
        &"alice".to_string(),
        &"chain-a".to_string(),
        AppchainState::Audited,
    );
    assert_eq!(r, Err(RegistryError::Authorization));

    let r = reg.change_state_of(
        &"lifecycle.manager".to_string(),
        &"chain-a".to_string(),
        AppchainState::Booting,
    );
    assert_eq!(r, Err(RegistryError::Validation));

    let r = reg.change_state_of(
        &"lifecycle.manager".to_string(),
        &"chain-a".to_string(),
        AppchainState::Audited,
    );
    assert!(r.is_ok());
    let status = reg.get_appchain_status_of("chain-a".to_string()).unwrap();
    assert!(status.appchain_state == AppchainState::Audited);
}

#[test]
fn anchor_gate_rejects_strangers() {
    let mut reg = registry();
    register(&mut reg, "chain-a", 1000, 1);
    let r = reg.set_anchor_account_of(
        &"lifecycle.manager".to_string(),
        &"chain-a".to_string(),
        &"anchor.one".to_string(),
    );
    assert!(r.is_ok());
    let r = reg.sync_state_of(
        &"mallory".to_string(),
        "chain-a".to_string(),
        AppchainState::Active,
        9,
        777,
    );
    assert_eq!(r, Err(RegistryError::Authorization));
    let status = reg.get_appchain_status_of("chain-a".to_string()).unwrap();
    assert!(status.appchain_state == AppchainState::Registered);
    assert_eq!(status.validator_count, 0);
    assert_eq!(status.total_stake, 0);
}

#[test]
fn anchor_sync_applies_state_and_staking_status() {
    let mut reg = registry();
    register(&mut reg, "chain-a", 1000, 1);
    reg.set_anchor_account_of(
        &"lifecycle.manager".to_string(),
        &"chain-a".to_string(),
        &"anchor.one".to_string(),
    )
    .unwrap();
    let r = reg.sync_state_of(
        &"anchor.one".to_string(),
        "chain-a".to_string(),
        AppchainState::Audited,
        1,
        1,
    );
    assert_eq!(r, Err(RegistryError::Validation));
    let r = reg.sync_state_of(
        &"anchor.one".to_string(),
        "chain-a".to_string(),
        AppchainState::Active,
        9,
        777,
    );
    assert!(r.is_ok());
    let status = reg.get_appchain_status_of("chain-a".to_string()).unwrap();
    assert!(status.appchain_state == AppchainState::Active);
    assert_eq!(status.validator_count, 9);
    assert_eq!(status.total_stake, 777);
    let r = reg.sync_state_of(
        &"anchor.one".to_string(),
        "chain-a".to_string(),
        AppchainState::Active,
        10,
        800,
    );
    assert_eq!(r, Err(RegistryError::Validation));
    let status = reg.get_appchain_status_of("chain-a".to_string()).unwrap();
    assert_eq!(status.validator_count, 9);
    let r = reg.sync_state_of(
        &"anchor.one".to_string(),
        "chain-x".to_string(),
        AppchainState::Active,
        1,
        1,
    );
    assert_eq!(r, Err(RegistryError::NotFound));
}

#[test]
fn deposits_reconcile_with_aggregates() {
    let mut reg = registry();
    register(&mut reg, "chain-a", 1000, 1);
    register(&mut reg, "chain-b", 1000, 2);
    reg.increase_upvote_deposit_of(&"chain-a".to_string(), &"v1".to_string(), 100)
        .unwrap();
    reg.increase_upvote_deposit_of(&"chain-a".to_string(), &"v2".to_string(), 200)
        .unwrap();
    reg.increase_upvote_deposit_of(&"chain-b".to_string(), &"v1".to_string(), 50)
        .unwrap();
    reg.increase_downvote_deposit_of(&"chain-a".to_string(), &"v1".to_string(), 30)
        .unwrap();
    let a = reg.get_appchain_status_of("chain-a".to_string()).unwrap();
    let b = reg.get_appchain_status_of("chain-b".to_string()).unwrap();
    assert_eq!(a.upvote_deposit, 300);
    assert_eq!(a.downvote_deposit, 30);
    assert_eq!(b.upvote_deposit, 50);
    assert_eq!(
        reg.get_upvote_deposit_for("chain-a".to_string(), "v1".to_string()),
        100
    );
    assert_eq!(
        reg.get_upvote_deposit_for("chain-a".to_string(), "v2".to_string()),
        200
    );
    assert_eq!(
        reg.get_downvote_deposit_for("chain-a".to_string(), "v1".to_string()),
        30
    );

    reg.decrease_upvote_deposit_of(&"chain-a".to_string(), &"v1".to_string(), 100)
        .unwrap();
    let a = reg.get_appchain_status_of("chain-a".to_string()).unwrap();
    assert_eq!(a.upvote_deposit, 200);
    assert_eq!(
        reg.get_upvote_deposit_for("chain-a".to_string(), "v1".to_string()),
        0
    );

    let r = reg.decrease_downvote_deposit_of(&"chain-a".to_string(), &"v1".to_string(), 31);
    assert_eq!(r, Err(RegistryError::Arithmetic));
    let a = reg.get_appchain_status_of("chain-a".to_string()).unwrap();
    assert_eq!(a.downvote_deposit, 30);

    let r = reg.increase_upvote_deposit_of(&"chain-x".to_string(), &"v1".to_string(), 5);
    assert_eq!(r, Err(RegistryError::NotFound));
}

#[test]
fn accumulate_changes_score_by_vote_difference() {
    let mut reg = registry();
    register(&mut reg, "chain-a", 1000, 1);
    reg.increase_upvote_deposit_of(&"chain-a".to_string(), &"v1".to_string(), 500)
        .unwrap();
    reg.increase_downvote_deposit_of(&"chain-a".to_string(), &"v2".to_string(), 200)
        .unwrap();
    reg.count_voting_score_of(&"chain-a".to_string()).unwrap();
    let status = reg.get_appchain_status_of("chain-a".to_string()).unwrap();
    assert_eq!(status.voting_score, 300);
    reg.count_voting_score_of(&"chain-a".to_string()).unwrap();
    let status = reg.get_appchain_status_of("chain-a".to_string()).unwrap();
    assert_eq!(status.voting_score, 600);
}

#[test]
fn accumulate_with_zero_deposits_is_idempotent() {
    let mut reg = registry();
    register(&mut reg, "chain-a", 1000, 1);
    reg.count_voting_score_of(&"chain-a".to_string()).unwrap();
    reg.count_voting_score_of(&"chain-a".to_string()).unwrap();
    let status = reg.get_appchain_status_of("chain-a".to_string()).unwrap();
    assert_eq!(status.voting_score, 0);
}

#[test]
fn reduce_by_zero_and_hundred_percent() {
    let mut reg = registry();
    register(&mut reg, "chain-a", 1000, 1);
    reg.increase_upvote_deposit_of(&"chain-a".to_string(), &"v1".to_string(), 400)
        .unwrap();
    reg.count_voting_score_of(&"chain-a".to_string()).unwrap();
    reg.reduce_voting_score_by_percent_of(&"chain-a".to_string(), 0)
        .unwrap();
    let status = reg.get_appchain_status_of("chain-a".to_string()).unwrap();
    assert_eq!(status.voting_score, 400);
    reg.reduce_voting_score_by_percent_of(&"chain-a".to_string(), 100)
        .unwrap();
    let status = reg.get_appchain_status_of("chain-a".to_string()).unwrap();
    assert_eq!(status.voting_score, 0);
}

#[test]
fn reduce_rejects_invalid_percent() {
    let mut reg = registry();
    register(&mut reg, "chain-a", 1000, 1);
    reg.increase_upvote_deposit_of(&"chain-a".to_string(), &"v1".to_string(), 400)
        .unwrap();
    reg.count_voting_score_of(&"chain-a".to_string()).unwrap();
    let r = reg.reduce_voting_score_by_percent_of(&"chain-a".to_string(), 101);
    assert_eq!(r, Err(RegistryError::Validation));
    let status = reg.get_appchain_status_of("chain-a".to_string()).unwrap();
    assert_eq!(status.voting_score, 400);
}

#[test]
fn reduce_truncates_toward_zero_on_negative_scores() {
    let mut reg = registry();
    register(&mut reg, "chain-a", 1000, 1);
    reg.increase_downvote_deposit_of(&"chain-a".to_string(), &"v1".to_string(), 7)
        .unwrap();
    reg.count_voting_score_of(&"chain-a".to_string()).unwrap();
    let status = reg.get_appchain_status_of("chain-a".to_string()).unwrap();
    assert_eq!(status.voting_score, -7);
    reg.reduce_voting_score_by_percent_of(&"chain-a".to_string(), 50)
        .unwrap();
    let status = reg.get_appchain_status_of("chain-a".to_string()).unwrap();
    assert_eq!(status.voting_score, -4);
}

#[test]
fn settings_change_is_manager_only() {
    let mut reg = registry();
    let r = reg.change_minimum_register_deposit(&"alice".to_string(), 5);
    assert_eq!(r, Err(RegistryError::Authorization));
    let r = reg.change_minimum_register_deposit(&"settings.manager".to_string(), 5);
    assert!(r.is_ok());
    assert_eq!(reg.get_registry_settings().minimum_register_deposit, 5);
    register(&mut reg, "tiny-chain", 5, 1);
}
