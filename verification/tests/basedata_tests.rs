use appchain_registry::appchain_basedata::AppchainBasedata;
use appchain_registry::types::AppchainMetadata;
use appchain_registry::types::AppchainState;
use appchain_registry::types::AppchainTemplateType;

fn metadata() -> AppchainMetadata {
    AppchainMetadata {
        description: "an appchain".to_string(),
        template_type: AppchainTemplateType::Barnacle,
        website_url: "https://example.org".to_string(),
        function_spec_url: String::new(),
        github_address: String::new(),
        github_release: String::new(),
        contact_email: String::new(),
        premined_wrapped_appchain_token_beneficiary: None,
        premined_wrapped_appchain_token: 0,
        initial_supply_of_wrapped_appchain_token: 0,
        ido_amount_of_wrapped_appchain_token: 0,
        initial_era_reward: 0,
    }
}

#[test]
fn new_record_starts_registered_with_empty_anchor() {
    let b = AppchainBasedata::new(
        "chain-a".to_string(),
        metadata(),
        "alice".to_string(),
        1000,
        42,
    );
    assert_eq!(b.id(), &"chain-a".to_string());
    assert_eq!(b.owner(), &"alice".to_string());
    assert_eq!(b.anchor(), &String::new());
    assert_eq!(b.register_deposit(), 1000);
    assert!(b.state() == AppchainState::Registered);
    assert_eq!(b.upvote_deposit(), 0);
    assert_eq!(b.downvote_deposit(), 0);
    assert_eq!(b.voting_score(), 0);
    let status = b.status();
    assert_eq!(status.registered_time, 42);
    assert_eq!(status.go_live_time, 0);
    assert_eq!(status.validator_count, 0);
    assert_eq!(status.total_stake, 0);
    assert_eq!(status.appchain_metadata.description, "an appchain".to_string());
}

#[test]
fn record_mutators_apply_their_single_change() {
    let mut b = AppchainBasedata::new(
        "chain-a".to_string(),
        metadata(),
        "alice".to_string(),
        1000,
        42,
    );
    b.change_owner(&"bob".to_string());
    assert_eq!(b.owner(), &"bob".to_string());
    b.set_initial_deposit(2500);
    assert_eq!(b.register_deposit(), 2500);
    b.set_anchor_account(&"anchor.one".to_string());
    assert_eq!(b.anchor(), &"anchor.one".to_string());
    b.change_state(AppchainState::Audited);
    assert!(b.state() == AppchainState::Audited);
    b.sync_staking_status(4, 999);
    let status = b.status();
    assert_eq!(status.validator_count, 4);
    assert_eq!(status.total_stake, 999);
    let mut m = metadata();
    m.description = "renamed".to_string();
    b.set_metadata(m);
    assert_eq!(b.metadata().description, "renamed".to_string());
}

#[test]
fn record_deposits_and_score_follow_their_formulas() {
    let mut b = AppchainBasedata::new(
        "chain-a".to_string(),
        metadata(),
        "alice".to_string(),
        1000,
        42,
    );
    b.increase_upvote_deposit(700);
    b.decrease_upvote_deposit(200);
    b.increase_downvote_deposit(100);
    b.decrease_downvote_deposit(40);
    assert_eq!(b.upvote_deposit(), 500);
    assert_eq!(b.downvote_deposit(), 60);
    b.count_voting_score();
    assert_eq!(b.voting_score(), 440);
    b.count_voting_score();
    assert_eq!(b.voting_score(), 880);
    b.reduce_voting_score_by_percent(25);
    assert_eq!(b.voting_score(), 660);
    b.reduce_voting_score_by_percent(100);
    assert_eq!(b.voting_score(), 0);
}
