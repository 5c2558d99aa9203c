//! Plain data types of the registry: identifiers, lifecycle states,
//! metadata payloads, settings, roles, sorting parameters, projected
//! status records and the error taxonomy.

use vstd::prelude::*;
use vstd::string::StringExecFns;

verus! {

/// Identifier of an appchain, globally unique within the registry.
pub type AppchainId = String;

/// Identifier of a principal (an account), compared for exact equality
/// against stored authorization fields.
pub type AccountId = String;

/// Why a call was rejected.  Every failing operation leaves the registry
/// unchanged and reports one of these reasons.
#[derive(Clone, Copy, Debug, PartialEq, Eq, Structural)]
pub enum RegistryError {
    /// The caller is not the principal required for the operation.
    Authorization,
    /// The input is malformed, out of range, or requests a no-op change.
    Validation,
    /// The operation references an appchain id that has no record.
    NotFound,
    /// A decrease would bring a balance below zero.
    Arithmetic,
}

/// Settings of the whole registry.
#[derive(Clone, Copy, Debug, PartialEq, Eq, Structural)]
pub struct RegistrySettings {
    /// The minimum deposit amount for registering an appchain.
    pub minimum_register_deposit: u128,
}

/// Kind of template an appchain was built from.
#[derive(Clone, Copy, Debug, PartialEq, Eq, Structural)]
pub enum AppchainTemplateType {
    Barnacle,
    BarnacleEvm,
}

/// The lifecycle state of an appchain.
#[derive(Clone, Copy, Debug, PartialEq, Eq, Structural)]
pub enum AppchainState {
    Registered,
    Audited,
    Voting,
    Booting,
    Active,
    Closing,
    Closed,
}

impl AppchainState {
    /// Whether transitions into this state are driven by the appchain's
    /// anchor contract rather than by the registry's lifecycle authority.
    pub open spec fn spec_is_managed_by_anchor(&self) -> bool {
        match self {
            AppchainState::Registered => false,
            AppchainState::Audited => false,
            AppchainState::Voting => false,
            AppchainState::Booting => true,
            AppchainState::Active => true,
            AppchainState::Closing => true,
            AppchainState::Closed => false,
        }
    }

    /// The lower-case name of the state.
    pub open spec fn spec_str(&self) -> Seq<char> {
        match self {
            AppchainState::Registered => "registered"@,
            AppchainState::Audited => "audited"@,
            AppchainState::Voting => "voting"@,
            AppchainState::Booting => "booting"@,
            AppchainState::Active => "active"@,
            AppchainState::Closing => "closing"@,
            AppchainState::Closed => "closed"@,
        }
    }

    /// Render the state as its lower-case name.
    pub fn to_string(&self) -> (r: String)
        ensures
            r@ == self.spec_str(),
    {
        match self {
            AppchainState::Registered => String::from_str("registered"),
            AppchainState::Audited => String::from_str("audited"),
            AppchainState::Voting => String::from_str("voting"),
            AppchainState::Booting => String::from_str("booting"),
            AppchainState::Active => String::from_str("active"),
            AppchainState::Closing => String::from_str("closing"),
            AppchainState::Closed => String::from_str("closed"),
        }
    }

    /// Get whether the state is managed by appchain anchor.
    #[verifier::when_used_as_spec(spec_is_managed_by_anchor)]
    pub fn is_managed_by_anchor(&self) -> (r: bool)
        ensures
            r == self.spec_is_managed_by_anchor(),
    {
        match self {
            AppchainState::Registered => false,
            AppchainState::Audited => false,
            AppchainState::Voting => false,
            AppchainState::Booting => true,
            AppchainState::Active => true,
            AppchainState::Closing => true,
            AppchainState::Closed => false,
        }
    }
}

/// Accounts holding the administrative roles of the registry.
pub struct RegistryRoles {
    /// The account that manages the lifecycle of appchains.
    pub appchain_lifecycle_manager: AccountId,
    /// The account that manages the settings of the appchain registry.
    pub registry_settings_manager: AccountId,
    /// The account of the octopus council.
    pub octopus_council: Option<AccountId>,
}

impl Clone for RegistryRoles {
    fn clone(&self) -> (r: Self)
        ensures
            r == *self,
    {
        RegistryRoles {
            appchain_lifecycle_manager: self.appchain_lifecycle_manager.clone(),
            registry_settings_manager: self.registry_settings_manager.clone(),
            octopus_council: clone_opt_string(&self.octopus_council),
        }
    }
}

/// Descriptive payload of an appchain, owned by its record and replaceable
/// wholesale by the record's owner.
pub struct AppchainMetadata {
    pub description: String,
    pub template_type: AppchainTemplateType,
    pub website_url: String,
    pub function_spec_url: String,
    pub github_address: String,
    pub github_release: String,
    pub contact_email: String,
    pub premined_wrapped_appchain_token_beneficiary: Option<AccountId>,
    pub premined_wrapped_appchain_token: u128,
    pub initial_supply_of_wrapped_appchain_token: u128,
    pub ido_amount_of_wrapped_appchain_token: u128,
    pub initial_era_reward: u128,
}

/// Clone an optional account id, keeping the value exactly.
fn clone_opt_string(s: &Option<String>) -> (r: Option<String>)
    ensures
        r == *s,
{
    match s {
        Some(v) => Some(v.clone()),
        None => None,
    }
}

impl Clone for AppchainMetadata {
    fn clone(&self) -> (r: Self)
        ensures
            r == *self,
    {
        AppchainMetadata {
            description: self.description.clone(),
            template_type: self.template_type,
            website_url: self.website_url.clone(),
            function_spec_url: self.function_spec_url.clone(),
            github_address: self.github_address.clone(),
            github_release: self.github_release.clone(),
            contact_email: self.contact_email.clone(),
            premined_wrapped_appchain_token_beneficiary: clone_opt_string(
                &self.premined_wrapped_appchain_token_beneficiary,
            ),
            premined_wrapped_appchain_token: self.premined_wrapped_appchain_token,
            initial_supply_of_wrapped_appchain_token: self.initial_supply_of_wrapped_appchain_token,
            ido_amount_of_wrapped_appchain_token: self.ido_amount_of_wrapped_appchain_token,
            initial_era_reward: self.initial_era_reward,
        }
    }
}

/// Projected view of one appchain record, combining its stored fields with
/// the live voting score.  Produced by the query layer, never stored.
pub struct AppchainStatus {
    pub appchain_id: AppchainId,
    pub appchain_metadata: AppchainMetadata,
    pub appchain_anchor: AccountId,
    pub appchain_owner: AccountId,
    pub register_deposit: u128,
    pub appchain_state: AppchainState,
    pub upvote_deposit: u128,
    pub downvote_deposit: u128,
    pub voting_score: i128,
    pub registered_time: u64,
    pub go_live_time: u64,
    pub validator_count: u32,
    pub total_stake: u128,
}

impl Clone for AppchainStatus {
    fn clone(&self) -> (r: Self)
        ensures
            r == *self,
    {
        AppchainStatus {
            appchain_id: self.appchain_id.clone(),
            appchain_metadata: self.appchain_metadata.clone(),
            appchain_anchor: self.appchain_anchor.clone(),
            appchain_owner: self.appchain_owner.clone(),
            register_deposit: self.register_deposit,
            appchain_state: self.appchain_state,
            upvote_deposit: self.upvote_deposit,
            downvote_deposit: self.downvote_deposit,
            voting_score: self.voting_score,
            registered_time: self.registered_time,
            go_live_time: self.go_live_time,
            validator_count: self.validator_count,
            total_stake: self.total_stake,
        }
    }
}

/// Field by which a page of appchain statuses is sorted.
#[derive(Clone, Copy, Debug, PartialEq, Eq, Structural)]
pub enum AppchainSortingField {
    AppchainId,
    VotingScore,
    RegisteredTime,
}

/// Direction in which a page of appchain statuses is sorted.
#[derive(Clone, Copy, Debug, PartialEq, Eq, Structural)]
pub enum SortingOrder {
    Ascending,
    Descending,
}

} // verus!
