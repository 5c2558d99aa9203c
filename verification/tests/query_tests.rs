use appchain_registry::appchain_anchor_callback::AppchainAnchorCallback;
use appchain_registry::registry::AppchainRegistry;
use appchain_registry::registry_status::RegistryStatus;
use appchain_registry::storage_key::StorageKey;
use appchain_registry::types::AppchainMetadata;
use appchain_registry::types::AppchainSortingField;
use appchain_registry::types::AppchainState;
use appchain_registry::types::AppchainTemplateType;
use appchain_registry::types::RegistryError;
use appchain_registry::types::RegistryRoles;
use appchain_registry::types::RegistrySettings;

fn metadata(description: &str) -> AppchainMetadata {
    AppchainMetadata {
        description: description.to_string(),
        template_type: AppchainTemplateType::BarnacleEvm,
        website_url: String::new(),
        function_spec_url: String::new(),
        github_address: String::new(),
        github_release: String::new(),
        contact_email: String::new(),
        premined_wrapped_appchain_token_beneficiary: Some("beneficiary".to_string()),
        premined_wrapped_appchain_token: 1,
        initial_supply_of_wrapped_appchain_token: 2,
        ido_amount_of_wrapped_appchain_token: 3,
        initial_era_reward: 4,
    }
}

fn registry() -> AppchainRegistry {
    AppchainRegistry::new(
        "registry.owner".to_string(),
        "ed25519:owner-pk".to_string(),
        "oct.token".to_string(),
        RegistrySettings { minimum_register_deposit: 100 },
        RegistryRoles {
            appchain_lifecycle_manager: "lifecycle.manager".to_string(),
            registry_settings_manager: "settings.manager".to_string(),
            octopus_council: Some("council".to_string()),
        },
    )
}

fn register_at(reg: &mut AppchainRegistry, id: &str, time: u64) {
    let r = reg.register_appchain(
        &"alice".to_string(),
        id.to_string(),
        metadata(id),
        100,
        time,
    );
    assert!(r.is_ok());
}

fn ids_of(page: &[appchain_registry::types::AppchainStatus]) -> Vec<String> {
    page.iter().map(|s| s.appchain_id.clone()).collect()
}

fn all_of(
    reg: &AppchainRegistry,
    field: AppchainSortingField,
    order: appchain_registry::types::SortingOrder,
) -> Vec<appchain_registry::types::AppchainStatus> {
    reg.get_appchains_with_state_of(None, 1, 50, field, order).unwrap()
}

#[test]
fn simple_getters_report_the_administration() {
    let reg = registry();
    assert_eq!(reg.version(), "2.1.0".to_string());
    assert_eq!(reg.get_owner_pk(), "ed25519:owner-pk".to_string());
    assert_eq!(reg.get_oct_token(), "oct.token".to_string());
    assert_eq!(reg.get_registry_settings().minimum_register_deposit, 100);
    let roles = reg.get_registry_roles();
    assert_eq!(roles.appchain_lifecycle_manager, "lifecycle.manager".to_string());
    assert_eq!(roles.registry_settings_manager, "settings.manager".to_string());
    assert_eq!(roles.octopus_council, Some("council".to_string()));
}

#[test]
fn appchain_ids_keep_registration_order() {
    let mut reg = registry();
    register_at(&mut reg, "gamma", 1);
    register_at(&mut reg, "alpha", 2);
    register_at(&mut reg, "beta", 3);
    assert_eq!(
        reg.get_appchain_ids(),
        vec!["gamma".to_string(), "alpha".to_string(), "beta".to_string()]
    );
}

#[test]
fn status_of_unknown_id_is_not_found() {
    let reg = registry();
    let r = reg.get_appchain_status_of("nowhere".to_string());
    assert!(matches!(r, Err(RegistryError::NotFound)));
    assert_eq!(
        reg.get_upvote_deposit_for("nowhere".to_string(), "v1".to_string()),
        0
    );
    assert_eq!(
        reg.get_downvote_deposit_for("nowhere".to_string(), "v1".to_string()),
        0
    );
}

#[test]
fn total_stake_sums_over_all_records() {
    let mut reg = registry();
    register_at(&mut reg, "chain-a", 1);
    register_at(&mut reg, "chain-b", 2);
    assert_eq!(reg.get_total_stake(), 0);
    reg.set_anchor_account_of(
        &"lifecycle.manager".to_string(),
        &"chain-a".to_string(),
        &"anchor.a".to_string(),
    )
    .unwrap();
    reg.set_anchor_account_of(
        &"lifecycle.manager".to_string(),
        &"chain-b".to_string(),
        &"anchor.b".to_string(),
    )
    .unwrap();
    reg.sync_state_of(
        &"anchor.a".to_string(),
        "chain-a".to_string(),
        AppchainState::Active,
        3,
        400,
    )
    .unwrap();
    reg.sync_state_of(
        &"anchor.b".to_string(),
        "chain-b".to_string(),
        AppchainState::Closing,
        2,
        250,
    )
    .unwrap();
    // the total deliberately covers every record, whatever its state
    assert_eq!(reg.get_total_stake(), 650);
}

#[test]
fn page_bounds_are_validated() {
    let reg = registry();
    let r = reg.get_appchains_with_state_of(
        None,
        0,
        10,
        AppchainSortingField::AppchainId,
        appchain_registry::types::SortingOrder::Ascending,
    );
    assert!(matches!(r, Err(RegistryError::Validation)));
    let r = reg.get_appchains_with_state_of(
        None,
        1,
        4,
        AppchainSortingField::AppchainId,
        appchain_registry::types::SortingOrder::Ascending,
    );
    assert!(matches!(r, Err(RegistryError::Validation)));
    let r = reg.get_appchains_with_state_of(
        None,
        1,
        51,
        AppchainSortingField::AppchainId,
        appchain_registry::types::SortingOrder::Ascending,
    );
    assert!(matches!(r, Err(RegistryError::Validation)));
}

#[test]
fn pagination_slices_the_sorted_sequence() {
    let mut reg = registry();
    for (i, id) in ["a", "b", "c", "d", "e", "f", "g"].iter().enumerate() {
        register_at(&mut reg, id, i as u64);
    }
    let order = appchain_registry::types::SortingOrder::Ascending;
    let p1 = reg
        .get_appchains_with_state_of(None, 1, 5, AppchainSortingField::AppchainId, order)
        .unwrap();
    assert_eq!(
        ids_of(&p1),
        vec!["a".to_string(), "b".to_string(), "c".to_string(), "d".to_string(), "e".to_string()]
    );
    let order = appchain_registry::types::SortingOrder::Ascending;
    let p2 = reg
        .get_appchains_with_state_of(None, 2, 5, AppchainSortingField::AppchainId, order)
        .unwrap();
    assert_eq!(ids_of(&p2), vec!["f".to_string(), "g".to_string()]);
    let order = appchain_registry::types::SortingOrder::Ascending;
    let p3 = reg
        .get_appchains_with_state_of(None, 3, 5, AppchainSortingField::AppchainId, order)
        .unwrap();
    assert!(p3.is_empty());
}

#[test]
fn sorting_by_id_both_orders() {
    let mut reg = registry();
    register_at(&mut reg, "gamma", 1);
    register_at(&mut reg, "alpha", 2);
    register_at(&mut reg, "beta", 3);
    let asc = all_of(
        &reg,
        AppchainSortingField::AppchainId,
        appchain_registry::types::SortingOrder::Ascending,
    );
    assert_eq!(
        ids_of(&asc),
        vec!["alpha".to_string(), "beta".to_string(), "gamma".to_string()]
    );
    let desc = all_of(
        &reg,
        AppchainSortingField::AppchainId,
        appchain_registry::types::SortingOrder::Descending,
    );
    assert_eq!(
        ids_of(&desc),
        vec!["gamma".to_string(), "beta".to_string(), "alpha".to_string()]
    );
}

#[test]
fn sorting_by_score_is_stable_on_ties() {
    let mut reg = registry();
    register_at(&mut reg, "first", 1);
    register_at(&mut reg, "second", 2);
    register_at(&mut reg, "third", 3);
    reg.increase_upvote_deposit_of(&"second".to_string(), &"v".to_string(), 10)
        .unwrap();
    reg.count_voting_score_of(&"second".to_string()).unwrap();
    // "first" and "third" tie at score zero: registration order is kept
    let asc = all_of(
        &reg,
        AppchainSortingField::VotingScore,
        appchain_registry::types::SortingOrder::Ascending,
    );
    assert_eq!(
        ids_of(&asc),
        vec!["first".to_string(), "third".to_string(), "second".to_string()]
    );
    let desc = all_of(
        &reg,
        AppchainSortingField::VotingScore,
        appchain_registry::types::SortingOrder::Descending,
    );
    assert_eq!(
        ids_of(&desc),
        vec!["second".to_string(), "first".to_string(), "third".to_string()]
    );
}

#[test]
fn sorting_by_registered_time() {
    let mut reg = registry();
    register_at(&mut reg, "late", 30);
    register_at(&mut reg, "early", 10);
    register_at(&mut reg, "middle", 20);
    let asc = all_of(
        &reg,
        AppchainSortingField::RegisteredTime,
        appchain_registry::types::SortingOrder::Ascending,
    );
    assert_eq!(
        ids_of(&asc),
        vec!["early".to_string(), "middle".to_string(), "late".to_string()]
    );
    let desc = all_of(
        &reg,
        AppchainSortingField::RegisteredTime,
        appchain_registry::types::SortingOrder::Descending,
    );
    assert_eq!(
        ids_of(&desc),
        vec!["late".to_string(), "middle".to_string(), "early".to_string()]
    );
}

#[test]
fn state_filter_selects_members_and_counts_agree() {
    let mut reg = registry();
    register_at(&mut reg, "chain-a", 1);
    register_at(&mut reg, "chain-b", 2);
    register_at(&mut reg, "chain-c", 3);
    reg.change_state_of(
        &"lifecycle.manager".to_string(),
        &"chain-b".to_string(),
        AppchainState::Audited,
    )
    .unwrap();
    reg.change_state_of(
        &"lifecycle.manager".to_string(),
        &"chain-c".to_string(),
        AppchainState::Voting,
    )
    .unwrap();
    let page = reg
        .get_appchains_with_state_of(
            Some(vec![AppchainState::Audited, AppchainState::Voting]),
            1,
            5,
            AppchainSortingField::AppchainId,
            appchain_registry::types::SortingOrder::Ascending,
        )
        .unwrap();
    assert_eq!(ids_of(&page), vec!["chain-b".to_string(), "chain-c".to_string()]);
    assert_eq!(reg.get_appchains_count_of(None), 3);
    assert_eq!(reg.get_appchains_count_of(Some(AppchainState::Audited)), 1);
    assert_eq!(reg.get_appchains_count_of(Some(AppchainState::Closed)), 0);
}

#[test]
fn storage_keys_render_their_namespaces() {
    assert_eq!(StorageKey::AppchainIds.to_string(), "i".to_string());
    assert_eq!(StorageKey::AppchainBasedatas.to_string(), "a".to_string());
    assert_eq!(StorageKey::UpvoteDeposits.to_string(), "u".to_string());
    assert_eq!(StorageKey::DownvoteDeposits.to_string(), "d".to_string());
    assert_eq!(StorageKey::RegistrySettings.to_string(), "rs".to_string());
    assert_eq!(StorageKey::RegistryRoles.to_string(), "rr".to_string());
    assert_eq!(StorageKey::RegistryContractWasm.to_string(), "rcw".to_string());
    assert_eq!(
        StorageKey::AppchainMetadata("chain-a".to_string()).to_string(),
        "chain-amd".to_string()
    );
    assert_eq!(
        StorageKey::AppchainAnchorCode("chain-a".to_string()).to_string(),
        "chain-aac".to_string()
    );
    assert_eq!(
        StorageKey::AppchainVotingScore("chain-a".to_string()).to_string(),
        "chain-avs".to_string()
    );
    assert_eq!(StorageKey::AppchainIds.into_bytes(), b"i".to_vec());
    assert_eq!(
        StorageKey::AppchainVotingScore("x".to_string()).into_bytes(),
        b"xvs".to_vec()
    );
}

#[test]
fn empty_registry_pages_are_empty() {
    let reg = registry();
    let page = reg
        .get_appchains_with_state_of(
            None,
            1,
            50,
            AppchainSortingField::VotingScore,
            appchain_registry::types::SortingOrder::Descending,
        )
        .unwrap();
    assert!(page.is_empty());
    assert_eq!(reg.get_appchains_count_of(None), 0);
    assert!(reg.get_appchain_ids().is_empty());
    assert_eq!(reg.get_total_stake(), 0);
}

#[test]
fn states_render_their_lower_case_names() {
    assert_eq!(AppchainState::Registered.to_string(), "registered".to_string());
    assert_eq!(AppchainState::Audited.to_string(), "audited".to_string());
    assert_eq!(AppchainState::Voting.to_string(), "voting".to_string());
    assert_eq!(AppchainState::Booting.to_string(), "booting".to_string());
    assert_eq!(AppchainState::Active.to_string(), "active".to_string());
    assert_eq!(AppchainState::Closing.to_string(), "closing".to_string());
    assert_eq!(AppchainState::Closed.to_string(), "closed".to_string());
}

#[test]
fn anchor_management_follows_the_state_classification() {
    assert!(!AppchainState::Registered.is_managed_by_anchor());
    assert!(!AppchainState::Audited.is_managed_by_anchor());
    assert!(!AppchainState::Voting.is_managed_by_anchor());
    assert!(AppchainState::Booting.is_managed_by_anchor());
    assert!(AppchainState::Active.is_managed_by_anchor());
    assert!(AppchainState::Closing.is_managed_by_anchor());
    assert!(!AppchainState::Closed.is_managed_by_anchor());
}
