//! The appchain registry: the explicit store every operation works on, its
//! cross-entity invariant, and the mutating operations of the lifecycle
//! controller, the deposit ledger and the voting score ledger.
//!
//! The host environment serializes every call and supplies the caller's
//! identity and the current time; both reach the operations here as plain
//! parameters, and authorization compares identities for exact equality.
//! Every mutating operation either commits in full or fails with a
//! [`RegistryError`] and leaves the store exactly as it was.

use vstd::prelude::*;
use crate::appchain_basedata::AppchainBasedata;
use crate::deposit::DepositEntry;
use crate::deposit::deposit_amount;
use crate::deposit::deposit_sum;
use crate::deposit::entry_keys_unique;
use crate::deposit::entry_matches;
use crate::types::AccountId;
use crate::types::AppchainId;
use crate::types::AppchainMetadata;
use crate::types::AppchainState;
use crate::types::RegistryError;
use crate::types::RegistryRoles;
use crate::types::RegistrySettings;
use crate::voting_score::accumulated_score;
use crate::voting_score::reduced_score;
use crate::voting_score::score_magnitude;

verus! {

/// The whole state of the appchain registry.
pub struct AppchainRegistry {
    /// The account of the owner of this contract.
    pub owner: AccountId,
    /// The public key of the owner account, rendered as text.
    pub owner_pk: String,
    /// The account of the OCT token contract.
    pub oct_token: AccountId,
    /// The settings of the registry.
    pub registry_settings: RegistrySettings,
    /// The accounts holding the administrative roles.
    pub registry_roles: RegistryRoles,
    /// One record per registered appchain, in registration order.
    pub appchains: Vec<AppchainBasedata>,
    /// The deposit ledger for the upvote direction.
    pub upvote_deposits: Vec<DepositEntry>,
    /// The deposit ledger for the downvote direction.
    pub downvote_deposits: Vec<DepositEntry>,
}

/// The administrative fields of the registry are the same in both states.
pub open spec fn scalars_unchanged(pre: AppchainRegistry, post: AppchainRegistry) -> bool {
    &&& post.owner == pre.owner
    &&& post.owner_pk == pre.owner_pk
    &&& post.oct_token == pre.oct_token
    &&& post.registry_settings == pre.registry_settings
    &&& post.registry_roles == pre.registry_roles
}

/// `post` is `pre` with exactly the record at index `i` replaced by `b`;
/// the deposit ledgers and the administrative fields are untouched.
pub open spec fn record_updated(
    pre: AppchainRegistry,
    post: AppchainRegistry,
    i: int,
    b: AppchainBasedata,
) -> bool {
    &&& scalars_unchanged(pre, post)
    &&& post.upvote_deposits@ == pre.upvote_deposits@
    &&& post.downvote_deposits@ == pre.downvote_deposits@
    &&& post.appchains@ == pre.appchains@.update(i, b)
}

impl AppchainRegistry {
    /// Some record carries the given appchain id.
    pub open spec fn has_appchain(&self, id: Seq<char>) -> bool {
        exists|i: int|
            0 <= i < self.appchains@.len() && (#[trigger] self.appchains@[i]).appchain_id@ == id
    }

    /// No two records carry the same appchain id.
    pub open spec fn appchain_ids_unique(&self) -> bool {
        forall|i: int, j: int|
            0 <= i < j < self.appchains@.len() ==> (#[trigger] self.appchains@[i]).appchain_id@ != (
            #[trigger] self.appchains@[j]).appchain_id@
    }

    /// Every deposit entry is staked toward a registered appchain.
    pub open spec fn entries_bound_to_records(&self) -> bool {
        &&& forall|k: int|
            0 <= k < self.upvote_deposits@.len() ==> self.has_appchain(
                (#[trigger] self.upvote_deposits@[k]).appchain_id@,
            )
        &&& forall|k: int|
            0 <= k < self.downvote_deposits@.len() ==> self.has_appchain(
                (#[trigger] self.downvote_deposits@[k]).appchain_id@,
            )
    }

    /// Deposit conservation: for every appchain and direction, the sum of
    /// all voters' entries equals the record's aggregate deposit field.
    pub open spec fn deposits_conserved(&self) -> bool {
        forall|i: int|
            0 <= i < self.appchains@.len() ==> {
                &&& (#[trigger] self.appchains@[i]).upvote_deposit as int == deposit_sum(
                    self.upvote_deposits@,
                    self.appchains@[i].appchain_id@,
                )
                &&& self.appchains@[i].downvote_deposit as int == deposit_sum(
                    self.downvote_deposits@,
                    self.appchains@[i].appchain_id@,
                )
            }
    }

    /// Well-formedness of the whole store.  Established by [`Self::new`]
    /// and preserved by every operation.
    pub open spec fn wf(&self) -> bool {
        &&& self.appchain_ids_unique()
        &&& entry_keys_unique(self.upvote_deposits@)
        &&& entry_keys_unique(self.downvote_deposits@)
        &&& self.entries_bound_to_records()
        &&& self.deposits_conserved()
    }

    /// Create an empty registry with the given administration.
    pub fn new(
        owner: AccountId,
        owner_pk: String,
        oct_token: AccountId,
        registry_settings: RegistrySettings,
        registry_roles: RegistryRoles,
    ) -> (r: Self)
        ensures
            r.owner == owner,
            r.owner_pk == owner_pk,
            r.oct_token == oct_token,
            r.registry_settings == registry_settings,
            r.registry_roles == registry_roles,
            r.appchains@ == Seq::<AppchainBasedata>::empty(),
            r.upvote_deposits@ == Seq::<DepositEntry>::empty(),
            r.downvote_deposits@ == Seq::<DepositEntry>::empty(),
            r.wf(),
    {
        AppchainRegistry {
            owner,
            owner_pk,
            oct_token,
            registry_settings,
            registry_roles,
            appchains: Vec::new(),
            upvote_deposits: Vec::new(),
            downvote_deposits: Vec::new(),
        }
    }

    /// Find the index of the record carrying the given appchain id.
    pub fn index_of_appchain(&self, appchain_id: &AppchainId) -> (r: Option<usize>)
        ensures
            match r {
                Some(i) => i < self.appchains@.len() && self.appchains@[i as int].appchain_id@
                    == appchain_id@,
                None => !self.has_appchain(appchain_id@),
            },
    {
        let n = self.appchains.len();
        let mut j: usize = 0;
        while j < n
            invariant
                n == self.appchains@.len(),
                j <= n,
                forall|k: int|
                    0 <= k < j ==> (#[trigger] self.appchains@[k]).appchain_id@ != appchain_id@,
            decreases n - j,
        {
            if self.appchains[j].appchain_id.eq(appchain_id) {
                return Some(j);
            }
            j = j + 1;
        }
        None
    }

    /// Register a new appchain: reserve its identifier, store its metadata,
    /// make the caller its owner and start its lifecycle in the
    /// `Registered` state.  Fails if the identifier is already taken or the
    /// deposit is below the registry's minimum.
    pub fn register_appchain(
        &mut self,
        caller: &AccountId,
        appchain_id: AppchainId,
        appchain_metadata: AppchainMetadata,
        register_deposit: u128,
        registered_time: u64,
    ) -> (r: Result<(), RegistryError>)
        requires
            old(self).wf(),
        ensures
            final(self).wf(),
            old(self).has_appchain(appchain_id@) ==> r == Err::<(), RegistryError>(
                RegistryError::Validation,
            ) && *final(self) == *old(self),
            !old(self).has_appchain(appchain_id@) && register_deposit < old(
                self,
            ).registry_settings.minimum_register_deposit ==> r == Err::<(), RegistryError>(
                RegistryError::Validation,
            ) && *final(self) == *old(self),
            !old(self).has_appchain(appchain_id@) && register_deposit >= old(
                self,
            ).registry_settings.minimum_register_deposit ==> ({
                let b = final(self).appchains@.last();
                &&& r == Ok::<(), RegistryError>(())
                &&& scalars_unchanged(*old(self), *final(self))
                &&& final(self).upvote_deposits@ == old(self).upvote_deposits@
                &&& final(self).downvote_deposits@ == old(self).downvote_deposits@
                &&& final(self).appchains@ == old(self).appchains@.push(b)
                &&& b.appchain_id == appchain_id
                &&& b.appchain_metadata == appchain_metadata
                &&& b.appchain_anchor@ == Seq::<char>::empty()
                &&& b.appchain_owner == *caller
                &&& b.register_deposit == register_deposit
                &&& b.appchain_state == AppchainState::Registered
                &&& b.upvote_deposit == 0
                &&& b.downvote_deposit == 0
                &&& b.registered_time == registered_time
                &&& b.go_live_time == 0
                &&& b.validator_count == 0
                &&& b.total_stake == 0
                &&& b.voting_score == 0
            }),
    {
        let ghost id_view = appchain_id@;
        match self.index_of_appchain(&appchain_id) {
            Some(_) => {
                return Err(RegistryError::Validation);
            },
            None => {},
        }
        if register_deposit < self.registry_settings.minimum_register_deposit {
            return Err(RegistryError::Validation);
        }
        let b = AppchainBasedata::new(
            appchain_id,
            appchain_metadata,
            caller.clone(),
            register_deposit,
            registered_time,
        );
        self.appchains.push(b);
        proof {
            let pre = *old(self);
            let post = *self;
            let n = pre.appchains@.len() as int;
            assert(forall|k: int|
                0 <= k < n ==> post.appchains@[k] == pre.appchains@[k]);
            assert(forall|k: int|
                0 <= k < n ==> (#[trigger] pre.appchains@[k]).appchain_id@ != id_view);
            assert forall|k: int|
                0 <= k < pre.upvote_deposits@.len() implies (
            #[trigger] pre.upvote_deposits@[k]).appchain_id@ != id_view by {
                let e_id = pre.upvote_deposits@[k].appchain_id@;
                let w = choose|w: int|
                    0 <= w < pre.appchains@.len() && (#[trigger] pre.appchains@[w]).appchain_id@
                        == e_id;
                assert(pre.appchains@[w].appchain_id@ == e_id);
            }
            assert forall|k: int|
                0 <= k < pre.downvote_deposits@.len() implies (
            #[trigger] pre.downvote_deposits@[k]).appchain_id@ != id_view by {
                let e_id = pre.downvote_deposits@[k].appchain_id@;
                let w = choose|w: int|
                    0 <= w < pre.appchains@.len() && (#[trigger] pre.appchains@[w]).appchain_id@
                        == e_id;
                assert(pre.appchains@[w].appchain_id@ == e_id);
            }
            crate::deposit::lemma_deposit_sum_absent(pre.upvote_deposits@, id_view);
            crate::deposit::lemma_deposit_sum_absent(pre.downvote_deposits@, id_view);
            assert forall|k: int|
                0 <= k < post.upvote_deposits@.len() implies post.has_appchain(
                (#[trigger] post.upvote_deposits@[k]).appchain_id@,
            ) by {
                let e_id = post.upvote_deposits@[k].appchain_id@;
                let w = choose|w: int|
                    0 <= w < pre.appchains@.len() && (#[trigger] pre.appchains@[w]).appchain_id@
                        == e_id;
                assert(post.appchains@[w].appchain_id@ == e_id);
            }
            assert forall|k: int|
                0 <= k < post.downvote_deposits@.len() implies post.has_appchain(
                (#[trigger] post.downvote_deposits@[k]).appchain_id@,
            ) by {
                let e_id = post.downvote_deposits@[k].appchain_id@;
                let w = choose|w: int|
                    0 <= w < pre.appchains@.len() && (#[trigger] pre.appchains@[w]).appchain_id@
                        == e_id;
                assert(post.appchains@[w].appchain_id@ == e_id);
            }
        }
        Ok(())
    }

    /// Transfer the ownership of an appchain.  Only the current owner may
    /// transfer it, and never to itself.
    pub fn transfer_appchain_ownership(
        &mut self,
        caller: &AccountId,
        appchain_id: &AppchainId,
        new_owner: &AccountId,
    ) -> (r: Result<(), RegistryError>)
        requires
            old(self).wf(),
        ensures
            final(self).wf(),
            !old(self).has_appchain(appchain_id@) ==> r == Err::<(), RegistryError>(
                RegistryError::NotFound,
            ) && *final(self) == *old(self),
            forall|i: int|
                0 <= i < old(self).appchains@.len() && (#[trigger] old(
                    self,
                ).appchains@[i]).appchain_id@ == appchain_id@ ==> ({
                    let b = old(self).appchains@[i];
                    if caller@ != b.appchain_owner@ {
                        r == Err::<(), RegistryError>(RegistryError::Authorization) && *final(self)
                            == *old(self)
                    } else if new_owner@ == b.appchain_owner@ {
                        r == Err::<(), RegistryError>(RegistryError::Validation) && *final(self)
                            == *old(self)
                    } else {
                        r == Ok::<(), RegistryError>(()) && record_updated(
                            *old(self),
                            *final(self),
                            i,
                            (AppchainBasedata { appchain_owner: *new_owner, ..b }),
                        )
                    }
                }),
    {
        let i = match self.index_of_appchain(appchain_id) {
            None => {
                return Err(RegistryError::NotFound);
            },
            Some(i) => i,
        };
        if !caller.eq(&self.appchains[i].appchain_owner) {
            return Err(RegistryError::Authorization);
        }
        if new_owner.eq(&self.appchains[i].appchain_owner) {
            return Err(RegistryError::Validation);
        }
        let rec = &mut self.appchains[i];
        rec.change_owner(new_owner);
        proof {
            lemma_wf_after_record_update(*old(self), *self, i as int);
        }
        Ok(())
    }

    /// Replace the metadata of an appchain wholesale.  Only the current
    /// owner of the record may do so.
    pub fn update_appchain_metadata(
        &mut self,
        caller: &AccountId,
        appchain_id: &AppchainId,
        appchain_metadata: AppchainMetadata,
    ) -> (r: Result<(), RegistryError>)
        requires
            old(self).wf(),
        ensures
            final(self).wf(),
            !old(self).has_appchain(appchain_id@) ==> r == Err::<(), RegistryError>(
                RegistryError::NotFound,
            ) && *final(self) == *old(self),
            forall|i: int|
                0 <= i < old(self).appchains@.len() && (#[trigger] old(
                    self,
                ).appchains@[i]).appchain_id@ == appchain_id@ ==> ({
                    let b = old(self).appchains@[i];
                    if caller@ != b.appchain_owner@ {
                        r == Err::<(), RegistryError>(RegistryError::Authorization) && *final(self)
                            == *old(self)
                    } else {
                        r == Ok::<(), RegistryError>(()) && record_updated(
                            *old(self),
                            *final(self),
                            i,
                            (AppchainBasedata { appchain_metadata: appchain_metadata, ..b }),
                        )
                    }
                }),
    {
        let i = match self.index_of_appchain(appchain_id) {
            None => {
                return Err(RegistryError::NotFound);
            },
            Some(i) => i,
        };
        if !caller.eq(&self.appchains[i].appchain_owner) {
            return Err(RegistryError::Authorization);
        }
        let rec = &mut self.appchains[i];
        rec.set_metadata(appchain_metadata);
        proof {
            lemma_wf_after_record_update(*old(self), *self, i as int);
        }
        Ok(())
    }

    /// Assign the anchor contract account of an appchain.  Only the
    /// lifecycle authority may assign it; the anchor is empty until
    /// assigned, assigned exactly once, and immutable afterwards.
    pub fn set_anchor_account_of(
        &mut self,
        caller: &AccountId,
        appchain_id: &AppchainId,
        anchor_account: &AccountId,
    ) -> (r: Result<(), RegistryError>)
        requires
            old(self).wf(),
        ensures
            final(self).wf(),
            !old(self).has_appchain(appchain_id@) ==> r == Err::<(), RegistryError>(
                RegistryError::NotFound,
            ) && *final(self) == *old(self),
            forall|i: int|
                0 <= i < old(self).appchains@.len() && (#[trigger] old(
                    self,
                ).appchains@[i]).appchain_id@ == appchain_id@ ==> ({
                    let b = old(self).appchains@[i];
                    if caller@ != old(self).registry_roles.appchain_lifecycle_manager@ {
                        r == Err::<(), RegistryError>(RegistryError::Authorization) && *final(self)
                            == *old(self)
                    } else if b.appchain_anchor@.len() != 0 || anchor_account@.len() == 0 {
                        r == Err::<(), RegistryError>(RegistryError::Validation) && *final(self)
                            == *old(self)
                    } else {
                        r == Ok::<(), RegistryError>(()) && record_updated(
                            *old(self),
                            *final(self),
                            i,
                            (AppchainBasedata { appchain_anchor: *anchor_account, ..b }),
                        )
                    }
                }),
    {
        let i = match self.index_of_appchain(appchain_id) {
            None => {
                return Err(RegistryError::NotFound);
            },
            Some(i) => i,
        };
        if !caller.eq(&self.registry_roles.appchain_lifecycle_manager) {
            return Err(RegistryError::Authorization);
        }
        if self.appchains[i].appchain_anchor.as_str().unicode_len() != 0
            || anchor_account.as_str().unicode_len() == 0 {
            return Err(RegistryError::Validation);
        }
        let rec = &mut self.appchains[i];
        rec.set_anchor_account(anchor_account);
        proof {
            lemma_wf_after_record_update(*old(self), *self, i as int);
        }
        Ok(())
    }

    /// Drive a registry-managed lifecycle transition.  Only the lifecycle
    /// authority may request one; the target state must be registry
    /// managed, and a transition to the record's current state is rejected
    /// as a no-op.
    pub fn change_state_of(
        &mut self,
        caller: &AccountId,
        appchain_id: &AppchainId,
        new_state: AppchainState,
    ) -> (r: Result<(), RegistryError>)
        requires
            old(self).wf(),
        ensures
            final(self).wf(),
            !old(self).has_appchain(appchain_id@) ==> r == Err::<(), RegistryError>(
                RegistryError::NotFound,
            ) && *final(self) == *old(self),
            forall|i: int|
                0 <= i < old(self).appchains@.len() && (#[trigger] old(
                    self,
                ).appchains@[i]).appchain_id@ == appchain_id@ ==> ({
                    let b = old(self).appchains@[i];
                    if caller@ != old(self).registry_roles.appchain_lifecycle_manager@ {
                        r == Err::<(), RegistryError>(RegistryError::Authorization) && *final(self)
                            == *old(self)
                    } else if new_state.spec_is_managed_by_anchor() {
                        r == Err::<(), RegistryError>(RegistryError::Validation) && *final(self)
                            == *old(self)
                    } else if new_state == b.appchain_state {
                        r == Err::<(), RegistryError>(RegistryError::Validation) && *final(self)
                            == *old(self)
                    } else {
                        r == Ok::<(), RegistryError>(()) && record_updated(
                            *old(self),
                            *final(self),
                            i,
                            (AppchainBasedata { appchain_state: new_state, ..b }),
                        )
                    }
                }),
    {
        let i = match self.index_of_appchain(appchain_id) {
            None => {
                return Err(RegistryError::NotFound);
            },
            Some(i) => i,
        };
        if !caller.eq(&self.registry_roles.appchain_lifecycle_manager) {
            return Err(RegistryError::Authorization);
        }
        if new_state.is_managed_by_anchor() {
            return Err(RegistryError::Validation);
        }
        if new_state == self.appchains[i].appchain_state {
            return Err(RegistryError::Validation);
        }
        let rec = &mut self.appchains[i];
        rec.change_state(new_state);
        proof {
            lemma_wf_after_record_update(*old(self), *self, i as int);
        }
        Ok(())
    }

    /// Change the minimum deposit required to register an appchain.  Only
    /// the settings manager may change it.
    pub fn change_minimum_register_deposit(
        &mut self,
        caller: &AccountId,
        minimum_register_deposit: u128,
    ) -> (r: Result<(), RegistryError>)
        requires
            old(self).wf(),
        ensures
            final(self).wf(),
            caller@ != old(self).registry_roles.registry_settings_manager@ ==> r == Err::<
                (),
                RegistryError,
            >(RegistryError::Authorization) && *final(self) == *old(self),
            caller@ == old(self).registry_roles.registry_settings_manager@ ==> {
                &&& r == Ok::<(), RegistryError>(())
                &&& *final(self) == (AppchainRegistry {
                    registry_settings: RegistrySettings { minimum_register_deposit },
                    ..*old(self)
                })
            },
    {
        if !caller.eq(&self.registry_roles.registry_settings_manager) {
            return Err(RegistryError::Authorization);
        }
        self.registry_settings = RegistrySettings { minimum_register_deposit };
        Ok(())
    }

    /// Increase the upvote deposit a voter stakes toward an appchain.  The
    /// voter's ledger entry and the record's aggregate total change by the
    /// same amount, committed together.
    pub fn increase_upvote_deposit_of(
        &mut self,
        appchain_id: &AppchainId,
        account_id: &AccountId,
        amount: u128,
    ) -> (r: Result<(), RegistryError>)
        requires
            old(self).wf(),
            forall|i: int|
                0 <= i < old(self).appchains@.len() && (#[trigger] old(
                    self,
                ).appchains@[i]).appchain_id@ == appchain_id@ ==> old(
                    self,
                ).appchains@[i].upvote_deposit + amount <= u128::MAX,
        ensures
            final(self).wf(),
            !old(self).has_appchain(appchain_id@) ==> r == Err::<(), RegistryError>(
                RegistryError::NotFound,
            ) && *final(self) == *old(self),
            forall|i: int|
                0 <= i < old(self).appchains@.len() && (#[trigger] old(
                    self,
                ).appchains@[i]).appchain_id@ == appchain_id@ ==> ({
                    let b = old(self).appchains@[i];
                    &&& r == Ok::<(), RegistryError>(())
                    &&& scalars_unchanged(*old(self), *final(self))
                    &&& final(self).downvote_deposits@ == old(self).downvote_deposits@
                    &&& final(self).appchains@ == old(self).appchains@.update(
                        i,
                        (AppchainBasedata {
                            upvote_deposit: (b.upvote_deposit + amount) as u128,
                            ..b
                        }),
                    )
                    &&& deposit_amount(final(self).upvote_deposits@, appchain_id@, account_id@)
                        == deposit_amount(old(self).upvote_deposits@, appchain_id@, account_id@)
                        + amount
                    &&& forall|j: int|
                        0 <= j < old(self).upvote_deposits@.len() && entry_matches(
                            #[trigger] old(self).upvote_deposits@[j],
                            appchain_id@,
                            account_id@,
                        ) ==> final(self).upvote_deposits@ == old(self).upvote_deposits@.update(
                            j,
                            (DepositEntry {
                                amount: (old(self).upvote_deposits@[j].amount + amount) as u128,
                                ..old(self).upvote_deposits@[j]
                            }),
                        )
                    &&& (forall|j: int|
                        0 <= j < old(self).upvote_deposits@.len() ==> !entry_matches(
                            #[trigger] old(self).upvote_deposits@[j],
                            appchain_id@,
                            account_id@,
                        )) ==> final(self).upvote_deposits@ == old(self).upvote_deposits@.push(
                        (DepositEntry {
                            appchain_id: *appchain_id,
                            account_id: *account_id,
                            amount: amount,
                        }),
                    )
                }),
    {
        let i = match self.index_of_appchain(appchain_id) {
            None => {
                return Err(RegistryError::NotFound);
            },
            Some(i) => i,
        };
        let ghost pre = *self;
        let found = crate::deposit::find_entry(&self.upvote_deposits, appchain_id, account_id);
        match found {
            Some(j) => {
                proof {
                    crate::deposit::lemma_entry_le_deposit_sum(
                        pre.upvote_deposits@,
                        j as int,
                        appchain_id@,
                    );
                    assert(pre.appchains@[i as int].upvote_deposit as int == deposit_sum(
                        pre.upvote_deposits@,
                        appchain_id@,
                    ));
                    crate::deposit::lemma_deposit_amount_found(
                        pre.upvote_deposits@,
                        j as int,
                        appchain_id@,
                        account_id@,
                    );
                }
                let cur = self.upvote_deposits[j].amount;
                let e = &mut self.upvote_deposits[j];
                e.amount = cur + amount;
                proof {
                    crate::deposit::lemma_deposit_amount_update(
                        pre.upvote_deposits@,
                        j as int,
                        self.upvote_deposits@[j as int],
                        appchain_id@,
                        account_id@,
                    );
                }
            },
            None => {
                self.upvote_deposits.push(
                    DepositEntry {
                        appchain_id: appchain_id.clone(),
                        account_id: account_id.clone(),
                        amount,
                    },
                );
                proof {
                    crate::deposit::lemma_deposit_amount_absent(
                        pre.upvote_deposits@,
                        appchain_id@,
                        account_id@,
                    );
                    crate::deposit::lemma_deposit_amount_push(
                        pre.upvote_deposits@,
                        self.upvote_deposits@.last(),
                        appchain_id@,
                        account_id@,
                    );
                }
            },
        }
        let rec = &mut self.appchains[i];
        rec.increase_upvote_deposit(amount);
        proof {
            match found {
                Some(j) => {
                    lemma_wf_after_upvote_entry_update(pre, *self, i as int, j as int);
                    lemma_upvote_match_unique(pre, j as int, appchain_id@, account_id@);
                },
                None => {
                    lemma_wf_after_upvote_entry_push(pre, *self, i as int);
                },
            }
        }
        Ok(())
    }

    /// Decrease the upvote deposit a voter stakes toward an appchain.
    /// Fails with an arithmetic error, changing nothing, if the amount
    /// exceeds the voter's stored balance; otherwise the ledger entry and
    /// the record's aggregate total fall by the same amount together.
    pub fn decrease_upvote_deposit_of(
        &mut self,
        appchain_id: &AppchainId,
        account_id: &AccountId,
        amount: u128,
    ) -> (r: Result<(), RegistryError>)
        requires
            old(self).wf(),
        ensures
            final(self).wf(),
            !old(self).has_appchain(appchain_id@) ==> r == Err::<(), RegistryError>(
                RegistryError::NotFound,
            ) && *final(self) == *old(self),
            forall|i: int|
                0 <= i < old(self).appchains@.len() && (#[trigger] old(
                    self,
                ).appchains@[i]).appchain_id@ == appchain_id@ ==> ({
                    let b = old(self).appchains@[i];
                    if amount as int > deposit_amount(
                        old(self).upvote_deposits@,
                        appchain_id@,
                        account_id@,
                    ) {
                        r == Err::<(), RegistryError>(RegistryError::Arithmetic) && *final(self)
                            == *old(self)
                    } else {
                        &&& r == Ok::<(), RegistryError>(())
                        &&& scalars_unchanged(*old(self), *final(self))
                        &&& final(self).downvote_deposits@ == old(self).downvote_deposits@
                        &&& final(self).appchains@ == old(self).appchains@.update(
                            i,
                            (AppchainBasedata {
                                upvote_deposit: (b.upvote_deposit - amount) as u128,
                                ..b
                            }),
                        )
                        &&& deposit_amount(final(self).upvote_deposits@, appchain_id@, account_id@)
                            == deposit_amount(
                            old(self).upvote_deposits@,
                            appchain_id@,
                            account_id@,
                        ) - amount
                        &&& forall|j: int|
                            0 <= j < old(self).upvote_deposits@.len() && entry_matches(
                                #[trigger] old(self).upvote_deposits@[j],
                                appchain_id@,
                                account_id@,
                            ) ==> final(self).upvote_deposits@ == old(
                                self,
                            ).upvote_deposits@.update(
                                j,
                                (DepositEntry {
                                    amount: (old(self).upvote_deposits@[j].amount - amount) as u128,
                                    ..old(self).upvote_deposits@[j]
                                }),
                            )
                        &&& (forall|j: int|
                            0 <= j < old(self).upvote_deposits@.len() ==> !entry_matches(
                                #[trigger] old(self).upvote_deposits@[j],
                                appchain_id@,
                                account_id@,
                            )) ==> final(self).upvote_deposits@ == old(self).upvote_deposits@
                    }
                }),
    {
        let i = match self.index_of_appchain(appchain_id) {
            None => {
                return Err(RegistryError::NotFound);
            },
            Some(i) => i,
        };
        let ghost pre = *self;
        let found = crate::deposit::find_entry(&self.upvote_deposits, appchain_id, account_id);
        let cur: u128 = match found {
            Some(j) => self.upvote_deposits[j].amount,
            None => 0,
        };
        proof {
            match found {
                Some(j) => {
                    crate::deposit::lemma_deposit_amount_found(
                        pre.upvote_deposits@,
                        j as int,
                        appchain_id@,
                        account_id@,
                    );
                },
                None => {
                    crate::deposit::lemma_deposit_amount_absent(
                        pre.upvote_deposits@,
                        appchain_id@,
                        account_id@,
                    );
                },
            }
        }
        if amount > cur {
            return Err(RegistryError::Arithmetic);
        }
        match found {
            Some(j) => {
                proof {
                    crate::deposit::lemma_entry_le_deposit_sum(
                        pre.upvote_deposits@,
                        j as int,
                        appchain_id@,
                    );
                    assert(pre.appchains@[i as int].upvote_deposit as int == deposit_sum(
                        pre.upvote_deposits@,
                        appchain_id@,
                    ));
                }
                let e = &mut self.upvote_deposits[j];
                e.amount = cur - amount;
                proof {
                    crate::deposit::lemma_deposit_amount_update(
                        pre.upvote_deposits@,
                        j as int,
                        self.upvote_deposits@[j as int],
                        appchain_id@,
                        account_id@,
                    );
                }
            },
            None => {},
        }
        let rec = &mut self.appchains[i];
        rec.decrease_upvote_deposit(amount);
        proof {
            match found {
                Some(j) => {
                    lemma_wf_after_upvote_entry_update(pre, *self, i as int, j as int);
                    lemma_upvote_match_unique(pre, j as int, appchain_id@, account_id@);
                },
                None => {
                    assert(self.appchains@ == pre.appchains@.update(
                        i as int,
                        self.appchains@[i as int],
                    ));
                    lemma_wf_after_record_update(pre, *self, i as int);
                },
            }
        }
        Ok(())
    }

    /// Increase the downvote deposit a voter stakes against an appchain.
    /// The voter's ledger entry and the record's aggregate total change by
    /// the same amount, committed together.
    pub fn increase_downvote_deposit_of(
        &mut self,
        appchain_id: &AppchainId,
        account_id: &AccountId,
        amount: u128,
    ) -> (r: Result<(), RegistryError>)
        requires
            old(self).wf(),
            forall|i: int|
                0 <= i < old(self).appchains@.len() && (#[trigger] old(
                    self,
                ).appchains@[i]).appchain_id@ == appchain_id@ ==> old(
                    self,
                ).appchains@[i].downvote_deposit + amount <= u128::MAX,
        ensures
            final(self).wf(),
            !old(self).has_appchain(appchain_id@) ==> r == Err::<(), RegistryError>(
                RegistryError::NotFound,
            ) && *final(self) == *old(self),
            forall|i: int|
                0 <= i < old(self).appchains@.len() && (#[trigger] old(
                    self,
                ).appchains@[i]).appchain_id@ == appchain_id@ ==> ({
                    let b = old(self).appchains@[i];
                    &&& r == Ok::<(), RegistryError>(())
                    &&& scalars_unchanged(*old(self), *final(self))
                    &&& final(self).upvote_deposits@ == old(self).upvote_deposits@
                    &&& final(self).appchains@ == old(self).appchains@.update(
                        i,
                        (AppchainBasedata {
                            downvote_deposit: (b.downvote_deposit + amount) as u128,
                            ..b
                        }),
                    )
                    &&& deposit_amount(final(self).downvote_deposits@, appchain_id@, account_id@)
                        == deposit_amount(old(self).downvote_deposits@, appchain_id@, account_id@)
                        + amount
                    &&& forall|j: int|
                        0 <= j < old(self).downvote_deposits@.len() && entry_matches(
                            #[trigger] old(self).downvote_deposits@[j],
                            appchain_id@,
                            account_id@,
                        ) ==> final(self).downvote_deposits@ == old(self).downvote_deposits@.update(
                            j,
                            (DepositEntry {
                                amount: (old(self).downvote_deposits@[j].amount + amount) as u128,
                                ..old(self).downvote_deposits@[j]
                            }),
                        )
                    &&& (forall|j: int|
                        0 <= j < old(self).downvote_deposits@.len() ==> !entry_matches(
                            #[trigger] old(self).downvote_deposits@[j],
                            appchain_id@,
                            account_id@,
                        )) ==> final(self).downvote_deposits@ == old(self).downvote_deposits@.push(
                        (DepositEntry {
                            appchain_id: *appchain_id,
                            account_id: *account_id,
                            amount: amount,
                        }),
                    )
                }),
    {
        let i = match self.index_of_appchain(appchain_id) {
            None => {
                return Err(RegistryError::NotFound);
            },
            Some(i) => i,
        };
        let ghost pre = *self;
        let found = crate::deposit::find_entry(&self.downvote_deposits, appchain_id, account_id);
        match found {
            Some(j) => {
                proof {
                    crate::deposit::lemma_entry_le_deposit_sum(
                        pre.downvote_deposits@,
                        j as int,
                        appchain_id@,
                    );
                    assert(pre.appchains@[i as int].downvote_deposit as int == deposit_sum(
                        pre.downvote_deposits@,
                        appchain_id@,
                    ));
                    crate::deposit::lemma_deposit_amount_found(
                        pre.downvote_deposits@,
                        j as int,
                        appchain_id@,
                        account_id@,
                    );
                }
                let cur = self.downvote_deposits[j].amount;
                let e = &mut self.downvote_deposits[j];
                e.amount = cur + amount;
                proof {
                    crate::deposit::lemma_deposit_amount_update(
                        pre.downvote_deposits@,
                        j as int,
                        self.downvote_deposits@[j as int],
                        appchain_id@,
                        account_id@,
                    );
                }
            },
            None => {
                self.downvote_deposits.push(
                    DepositEntry {
                        appchain_id: appchain_id.clone(),
                        account_id: account_id.clone(),
                        amount,
                    },
                );
                proof {
                    crate::deposit::lemma_deposit_amount_absent(
                        pre.downvote_deposits@,
                        appchain_id@,
                        account_id@,
                    );
                    crate::deposit::lemma_deposit_amount_push(
                        pre.downvote_deposits@,
                        self.downvote_deposits@.last(),
                        appchain_id@,
                        account_id@,
                    );
                }
            },
        }
        let rec = &mut self.appchains[i];
        rec.increase_downvote_deposit(amount);
        proof {
            match found {
                Some(j) => {
                    lemma_wf_after_downvote_entry_update(pre, *self, i as int, j as int);
                    lemma_downvote_match_unique(pre, j as int, appchain_id@, account_id@);
                },
                None => {
                    lemma_wf_after_downvote_entry_push(pre, *self, i as int);
                },
            }
        }
        Ok(())
    }

    /// Decrease the downvote deposit a voter stakes against an appchain.
    /// Fails with an arithmetic error, changing nothing, if the amount
    /// exceeds the voter's stored balance; otherwise the ledger entry and
    /// the record's aggregate total fall by the same amount together.
    pub fn decrease_downvote_deposit_of(
        &mut self,
        appchain_id: &AppchainId,
        account_id: &AccountId,
        amount: u128,
    ) -> (r: Result<(), RegistryError>)
        requires
            old(self).wf(),
        ensures
            final(self).wf(),
            !old(self).has_appchain(appchain_id@) ==> r == Err::<(), RegistryError>(
                RegistryError::NotFound,
            ) && *final(self) == *old(self),
            forall|i: int|
                0 <= i < old(self).appchains@.len() && (#[trigger] old(
                    self,
                ).appchains@[i]).appchain_id@ == appchain_id@ ==> ({
                    let b = old(self).appchains@[i];
                    if amount as int > deposit_amount(
                        old(self).downvote_deposits@,
                        appchain_id@,
                        account_id@,
                    ) {
                        r == Err::<(), RegistryError>(RegistryError::Arithmetic) && *final(self)
                            == *old(self)
                    } else {
                        &&& r == Ok::<(), RegistryError>(())
                        &&& scalars_unchanged(*old(self), *final(self))
                        &&& final(self).upvote_deposits@ == old(self).upvote_deposits@
                        &&& final(self).appchains@ == old(self).appchains@.update(
                            i,
                            (AppchainBasedata {
                                downvote_deposit: (b.downvote_deposit - amount) as u128,
                                ..b
                            }),
                        )
                        &&& deposit_amount(
                            final(self).downvote_deposits@,
                            appchain_id@,
                            account_id@,
                        ) == deposit_amount(
                            old(self).downvote_deposits@,
                            appchain_id@,
                            account_id@,
                        ) - amount
                        &&& forall|j: int|
                            0 <= j < old(self).downvote_deposits@.len() && entry_matches(
                                #[trigger] old(self).downvote_deposits@[j],
                                appchain_id@,
                                account_id@,
                            ) ==> final(self).downvote_deposits@ == old(
                                self,
                            ).downvote_deposits@.update(
                                j,
                                (DepositEntry {
                                    amount: (old(self).downvote_deposits@[j].amount
                                        - amount) as u128,
                                    ..old(self).downvote_deposits@[j]
                                }),
                            )
                        &&& (forall|j: int|
                            0 <= j < old(self).downvote_deposits@.len() ==> !entry_matches(
                                #[trigger] old(self).downvote_deposits@[j],
                                appchain_id@,
                                account_id@,
                            )) ==> final(self).downvote_deposits@ == old(self).downvote_deposits@
                    }
                }),
    {
        let i = match self.index_of_appchain(appchain_id) {
            None => {
                return Err(RegistryError::NotFound);
            },
            Some(i) => i,
        };
        let ghost pre = *self;
        let found = crate::deposit::find_entry(&self.downvote_deposits, appchain_id, account_id);
        let cur: u128 = match found {
            Some(j) => self.downvote_deposits[j].amount,
            None => 0,
        };
        proof {
            match found {
                Some(j) => {
                    crate::deposit::lemma_deposit_amount_found(
                        pre.downvote_deposits@,
                        j as int,
                        appchain_id@,
                        account_id@,
                    );
                },
                None => {
                    crate::deposit::lemma_deposit_amount_absent(
                        pre.downvote_deposits@,
                        appchain_id@,
                        account_id@,
                    );
                },
            }
        }
        if amount > cur {
            return Err(RegistryError::Arithmetic);
        }
        match found {
            Some(j) => {
                proof {
                    crate::deposit::lemma_entry_le_deposit_sum(
                        pre.downvote_deposits@,
                        j as int,
                        appchain_id@,
                    );
                    assert(pre.appchains@[i as int].downvote_deposit as int == deposit_sum(
                        pre.downvote_deposits@,
                        appchain_id@,
                    ));
                }
                let e = &mut self.downvote_deposits[j];
                e.amount = cur - amount;
                proof {
                    crate::deposit::lemma_deposit_amount_update(
                        pre.downvote_deposits@,
                        j as int,
                        self.downvote_deposits@[j as int],
                        appchain_id@,
                        account_id@,
                    );
                }
            },
            None => {},
        }
        let rec = &mut self.appchains[i];
        rec.decrease_downvote_deposit(amount);
        proof {
            match found {
                Some(j) => {
                    lemma_wf_after_downvote_entry_update(pre, *self, i as int, j as int);
                    lemma_downvote_match_unique(pre, j as int, appchain_id@, account_id@);
                },
                None => {
                    assert(self.appchains@ == pre.appchains@.update(
                        i as int,
                        self.appchains@[i as int],
                    ));
                    lemma_wf_after_record_update(pre, *self, i as int);
                },
            }
        }
        Ok(())
    }

    /// Count the voting score of an appchain: fold its current deposit
    /// totals into its running score, changing the score by exactly
    /// `upvote_deposit - downvote_deposit`.
    pub fn count_voting_score_of(&mut self, appchain_id: &AppchainId) -> (r: Result<
        (),
        RegistryError,
    >)
        requires
            old(self).wf(),
            forall|i: int|
                0 <= i < old(self).appchains@.len() && (#[trigger] old(
                    self,
                ).appchains@[i]).appchain_id@ == appchain_id@ ==> ({
                    let b = old(self).appchains@[i];
                    &&& b.upvote_deposit <= i128::MAX
                    &&& b.downvote_deposit <= i128::MAX
                    &&& i128::MIN <= accumulated_score(
                        b.voting_score as int,
                        b.upvote_deposit as int,
                        b.downvote_deposit as int,
                    ) <= i128::MAX
                }),
        ensures
            final(self).wf(),
            !old(self).has_appchain(appchain_id@) ==> r == Err::<(), RegistryError>(
                RegistryError::NotFound,
            ) && *final(self) == *old(self),
            forall|i: int|
                0 <= i < old(self).appchains@.len() && (#[trigger] old(
                    self,
                ).appchains@[i]).appchain_id@ == appchain_id@ ==> ({
                    let b = old(self).appchains@[i];
                    &&& r == Ok::<(), RegistryError>(())
                    &&& record_updated(
                        *old(self),
                        *final(self),
                        i,
                        (AppchainBasedata {
                            voting_score: accumulated_score(
                                b.voting_score as int,
                                b.upvote_deposit as int,
                                b.downvote_deposit as int,
                            ) as i128,
                            ..b
                        }),
                    )
                }),
    {
        let i = match self.index_of_appchain(appchain_id) {
            None => {
                return Err(RegistryError::NotFound);
            },
            Some(i) => i,
        };
        let rec = &mut self.appchains[i];
        rec.count_voting_score();
        proof {
            lemma_wf_after_record_update(*old(self), *self, i as int);
        }
        Ok(())
    }

    /// Reduce the voting score of an appchain by the given percent, the
    /// reduction truncated toward zero.  A percent above one hundred is
    /// rejected and changes nothing.
    pub fn reduce_voting_score_by_percent_of(
        &mut self,
        appchain_id: &AppchainId,
        percent: u16,
    ) -> (r: Result<(), RegistryError>)
        requires
            old(self).wf(),
            percent <= 100 ==> forall|i: int|
                0 <= i < old(self).appchains@.len() && (#[trigger] old(
                    self,
                ).appchains@[i]).appchain_id@ == appchain_id@ ==> score_magnitude(
                    old(self).appchains@[i].voting_score as int,
                ) * percent <= u128::MAX,
        ensures
            final(self).wf(),
            !old(self).has_appchain(appchain_id@) ==> r == Err::<(), RegistryError>(
                RegistryError::NotFound,
            ) && *final(self) == *old(self),
            old(self).has_appchain(appchain_id@) && percent > 100 ==> r == Err::<
                (),
                RegistryError,
            >(RegistryError::Validation) && *final(self) == *old(self),
            percent <= 100 ==> forall|i: int|
                0 <= i < old(self).appchains@.len() && (#[trigger] old(
                    self,
                ).appchains@[i]).appchain_id@ == appchain_id@ ==> ({
                    let b = old(self).appchains@[i];
                    &&& r == Ok::<(), RegistryError>(())
                    &&& record_updated(
                        *old(self),
                        *final(self),
                        i,
                        (AppchainBasedata {
                            voting_score: reduced_score(
                                b.voting_score as int,
                                percent as int,
                            ) as i128,
                            ..b
                        }),
                    )
                }),
    {
        let i = match self.index_of_appchain(appchain_id) {
            None => {
                return Err(RegistryError::NotFound);
            },
            Some(i) => i,
        };
        if percent > 100 {
            return Err(RegistryError::Validation);
        }
        let rec = &mut self.appchains[i];
        rec.reduce_voting_score_by_percent(percent);
        proof {
            lemma_wf_after_record_update(*old(self), *self, i as int);
        }
        Ok(())
    }
}

/// With unique ledger keys, at most one upvote entry matches a key.
proof fn lemma_upvote_match_unique(pre: AppchainRegistry, j: int, id: Seq<char>, account: Seq<char>)
    requires
        entry_keys_unique(pre.upvote_deposits@),
        0 <= j < pre.upvote_deposits@.len(),
        entry_matches(pre.upvote_deposits@[j], id, account),
    ensures
        forall|j2: int|
            0 <= j2 < pre.upvote_deposits@.len() && entry_matches(
                #[trigger] pre.upvote_deposits@[j2],
                id,
                account,
            ) ==> j2 == j,
{
    assert forall|j2: int|
        0 <= j2 < pre.upvote_deposits@.len() && entry_matches(
            #[trigger] pre.upvote_deposits@[j2],
            id,
            account,
        ) implies j2 == j by {
        if j2 < j {
            assert(!(pre.upvote_deposits@[j2].appchain_id@ == pre.upvote_deposits@[j].appchain_id@
                && pre.upvote_deposits@[j2].account_id@ == pre.upvote_deposits@[j].account_id@));
        } else if j2 > j {
            assert(!(pre.upvote_deposits@[j].appchain_id@ == pre.upvote_deposits@[j2].appchain_id@
                && pre.upvote_deposits@[j].account_id@ == pre.upvote_deposits@[j2].account_id@));
        }
    }
}

/// With unique ledger keys, at most one downvote entry matches a key.
proof fn lemma_downvote_match_unique(
    pre: AppchainRegistry,
    j: int,
    id: Seq<char>,
    account: Seq<char>,
)
    requires
        entry_keys_unique(pre.downvote_deposits@),
        0 <= j < pre.downvote_deposits@.len(),
        entry_matches(pre.downvote_deposits@[j], id, account),
    ensures
        forall|j2: int|
            0 <= j2 < pre.downvote_deposits@.len() && entry_matches(
                #[trigger] pre.downvote_deposits@[j2],
                id,
                account,
            ) ==> j2 == j,
{
    assert forall|j2: int|
        0 <= j2 < pre.downvote_deposits@.len() && entry_matches(
            #[trigger] pre.downvote_deposits@[j2],
            id,
            account,
        ) implies j2 == j by {
        if j2 < j {
            assert(!(pre.downvote_deposits@[j2].appchain_id@
                == pre.downvote_deposits@[j].appchain_id@ && pre.downvote_deposits@[j2].account_id@
                == pre.downvote_deposits@[j].account_id@));
        } else if j2 > j {
            assert(!(pre.downvote_deposits@[j].appchain_id@
                == pre.downvote_deposits@[j2].appchain_id@ && pre.downvote_deposits@[j].account_id@
                == pre.downvote_deposits@[j2].account_id@));
        }
    }
}

/// Replacing one record without touching its identifier or its aggregate
/// deposits, and leaving the ledgers alone, keeps the store well formed.
pub proof fn lemma_wf_after_record_update(pre: AppchainRegistry, post: AppchainRegistry, i: int)
    requires
        pre.wf(),
        0 <= i < pre.appchains@.len(),
        post.appchains@ == pre.appchains@.update(i, post.appchains@[i]),
        post.appchains@[i].appchain_id@ == pre.appchains@[i].appchain_id@,
        post.appchains@[i].upvote_deposit == pre.appchains@[i].upvote_deposit,
        post.appchains@[i].downvote_deposit == pre.appchains@[i].downvote_deposit,
        post.upvote_deposits@ == pre.upvote_deposits@,
        post.downvote_deposits@ == pre.downvote_deposits@,
    ensures
        post.wf(),
{
    assert(post.appchains@.len() == pre.appchains@.len());
    assert(forall|k: int|
        0 <= k < post.appchains@.len() ==> (#[trigger] post.appchains@[k]).appchain_id@
            == pre.appchains@[k].appchain_id@);
    assert forall|k: int|
        0 <= k < post.upvote_deposits@.len() implies post.has_appchain(
        (#[trigger] post.upvote_deposits@[k]).appchain_id@,
    ) by {
        let e_id = post.upvote_deposits@[k].appchain_id@;
        assert(pre.has_appchain(e_id));
        let w = choose|w: int|
            0 <= w < pre.appchains@.len() && (#[trigger] pre.appchains@[w]).appchain_id@ == e_id;
        assert(post.appchains@[w].appchain_id@ == e_id);
    }
    assert forall|k: int|
        0 <= k < post.downvote_deposits@.len() implies post.has_appchain(
        (#[trigger] post.downvote_deposits@[k]).appchain_id@,
    ) by {
        let e_id = post.downvote_deposits@[k].appchain_id@;
        assert(pre.has_appchain(e_id));
        let w = choose|w: int|
            0 <= w < pre.appchains@.len() && (#[trigger] pre.appchains@[w]).appchain_id@ == e_id;
        assert(post.appchains@[w].appchain_id@ == e_id);
    }
    assert forall|k: int| 0 <= k < post.appchains@.len() implies {
        &&& (#[trigger] post.appchains@[k]).upvote_deposit as int == deposit_sum(
            post.upvote_deposits@,
            post.appchains@[k].appchain_id@,
        )
        &&& post.appchains@[k].downvote_deposit as int == deposit_sum(
            post.downvote_deposits@,
            post.appchains@[k].appchain_id@,
        )
    } by {
        assert(pre.appchains@[k].upvote_deposit as int == deposit_sum(
            pre.upvote_deposits@,
            pre.appchains@[k].appchain_id@,
        ));
    }
}

/// Changing one upvote entry's amount and its record's upvote aggregate by
/// the same (possibly negative) difference keeps the store well formed.
pub proof fn lemma_wf_after_upvote_entry_update(
    pre: AppchainRegistry,
    post: AppchainRegistry,
    i: int,
    j: int,
)
    requires
        pre.wf(),
        0 <= i < pre.appchains@.len(),
        0 <= j < pre.upvote_deposits@.len(),
        post.appchains@ == pre.appchains@.update(i, post.appchains@[i]),
        post.upvote_deposits@ == pre.upvote_deposits@.update(j, post.upvote_deposits@[j]),
        post.downvote_deposits@ == pre.downvote_deposits@,
        post.appchains@[i] == (AppchainBasedata {
            upvote_deposit: post.appchains@[i].upvote_deposit,
            ..pre.appchains@[i]
        }),
        post.upvote_deposits@[j] == (DepositEntry {
            amount: post.upvote_deposits@[j].amount,
            ..pre.upvote_deposits@[j]
        }),
        pre.upvote_deposits@[j].appchain_id@ == pre.appchains@[i].appchain_id@,
        post.appchains@[i].upvote_deposit as int - pre.appchains@[i].upvote_deposit as int
            == post.upvote_deposits@[j].amount as int - pre.upvote_deposits@[j].amount as int,
    ensures
        post.wf(),
{
    assert(forall|k: int|
        0 <= k < post.appchains@.len() ==> (#[trigger] post.appchains@[k]).appchain_id@
            == pre.appchains@[k].appchain_id@);
    assert(forall|k: int|
        0 <= k < post.upvote_deposits@.len() ==> (#[trigger] post.upvote_deposits@[k]).appchain_id@
            == pre.upvote_deposits@[k].appchain_id@ && post.upvote_deposits@[k].account_id@
            == pre.upvote_deposits@[k].account_id@);
    assert forall|k: int|
        0 <= k < post.upvote_deposits@.len() implies post.has_appchain(
        (#[trigger] post.upvote_deposits@[k]).appchain_id@,
    ) by {
        let e_id = post.upvote_deposits@[k].appchain_id@;
        assert(pre.has_appchain(e_id));
        let w = choose|w: int|
            0 <= w < pre.appchains@.len() && (#[trigger] pre.appchains@[w]).appchain_id@ == e_id;
        assert(post.appchains@[w].appchain_id@ == e_id);
    }
    assert forall|k: int|
        0 <= k < post.downvote_deposits@.len() implies post.has_appchain(
        (#[trigger] post.downvote_deposits@[k]).appchain_id@,
    ) by {
        let e_id = post.downvote_deposits@[k].appchain_id@;
        assert(pre.has_appchain(e_id));
        let w = choose|w: int|
            0 <= w < pre.appchains@.len() && (#[trigger] pre.appchains@[w]).appchain_id@ == e_id;
        assert(post.appchains@[w].appchain_id@ == e_id);
    }
    assert forall|k: int| 0 <= k < post.appchains@.len() implies {
        &&& (#[trigger] post.appchains@[k]).upvote_deposit as int == deposit_sum(
            post.upvote_deposits@,
            post.appchains@[k].appchain_id@,
        )
        &&& post.appchains@[k].downvote_deposit as int == deposit_sum(
            post.downvote_deposits@,
            post.appchains@[k].appchain_id@,
        )
    } by {
        let id_k = pre.appchains@[k].appchain_id@;
        assert(pre.appchains@[k].upvote_deposit as int == deposit_sum(
            pre.upvote_deposits@,
            id_k,
        ));
        assert(pre.appchains@[k].downvote_deposit as int == deposit_sum(
            pre.downvote_deposits@,
            id_k,
        ));
        crate::deposit::lemma_deposit_sum_update(
            pre.upvote_deposits@,
            j,
            post.upvote_deposits@[j],
            id_k,
        );
        if k != i {
            if k < i {
                assert(pre.appchains@[k].appchain_id@ != pre.appchains@[i].appchain_id@);
            } else {
                assert(pre.appchains@[i].appchain_id@ != pre.appchains@[k].appchain_id@);
            }
        }
    }
}

/// Appending an upvote entry for a fresh (appchain, voter) key and raising
/// that record's upvote aggregate by its amount keeps the store well formed.
pub proof fn lemma_wf_after_upvote_entry_push(pre: AppchainRegistry, post: AppchainRegistry, i: int)
    requires
        pre.wf(),
        0 <= i < pre.appchains@.len(),
        post.appchains@ == pre.appchains@.update(i, post.appchains@[i]),
        post.upvote_deposits@ == pre.upvote_deposits@.push(post.upvote_deposits@.last()),
        post.downvote_deposits@ == pre.downvote_deposits@,
        post.appchains@[i] == (AppchainBasedata {
            upvote_deposit: post.appchains@[i].upvote_deposit,
            ..pre.appchains@[i]
        }),
        post.upvote_deposits@.last().appchain_id@ == pre.appchains@[i].appchain_id@,
        forall|k: int|
            0 <= k < pre.upvote_deposits@.len() ==> !entry_matches(
                #[trigger] pre.upvote_deposits@[k],
                post.upvote_deposits@.last().appchain_id@,
                post.upvote_deposits@.last().account_id@,
            ),
        post.appchains@[i].upvote_deposit as int == pre.appchains@[i].upvote_deposit as int
            + post.upvote_deposits@.last().amount as int,
    ensures
        post.wf(),
{
    let e = post.upvote_deposits@.last();
    assert(forall|k: int|
        0 <= k < post.appchains@.len() ==> (#[trigger] post.appchains@[k]).appchain_id@
            == pre.appchains@[k].appchain_id@);
    assert(forall|k: int|
        0 <= k < pre.upvote_deposits@.len() ==> post.upvote_deposits@[k]
            == pre.upvote_deposits@[k]);
    assert forall|k: int|
        0 <= k < post.upvote_deposits@.len() implies post.has_appchain(
        (#[trigger] post.upvote_deposits@[k]).appchain_id@,
    ) by {
        let e_id = post.upvote_deposits@[k].appchain_id@;
        if k < pre.upvote_deposits@.len() {
            assert(pre.has_appchain(e_id));
            let w = choose|w: int|
                0 <= w < pre.appchains@.len() && (#[trigger] pre.appchains@[w]).appchain_id@
                    == e_id;
            assert(post.appchains@[w].appchain_id@ == e_id);
        } else {
            assert(post.appchains@[i].appchain_id@ == e_id);
        }
    }
    assert forall|k: int|
        0 <= k < post.downvote_deposits@.len() implies post.has_appchain(
        (#[trigger] post.downvote_deposits@[k]).appchain_id@,
    ) by {
        let e_id = post.downvote_deposits@[k].appchain_id@;
        assert(pre.has_appchain(e_id));
        let w = choose|w: int|
            0 <= w < pre.appchains@.len() && (#[trigger] pre.appchains@[w]).appchain_id@ == e_id;
        assert(post.appchains@[w].appchain_id@ == e_id);
    }
    assert forall|k: int| 0 <= k < post.appchains@.len() implies {
        &&& (#[trigger] post.appchains@[k]).upvote_deposit as int == deposit_sum(
            post.upvote_deposits@,
            post.appchains@[k].appchain_id@,
        )
        &&& post.appchains@[k].downvote_deposit as int == deposit_sum(
            post.downvote_deposits@,
            post.appchains@[k].appchain_id@,
        )
    } by {
        let id_k = pre.appchains@[k].appchain_id@;
        assert(pre.appchains@[k].upvote_deposit as int == deposit_sum(
            pre.upvote_deposits@,
            id_k,
        ));
        assert(pre.appchains@[k].downvote_deposit as int == deposit_sum(
            pre.downvote_deposits@,
            id_k,
        ));
        crate::deposit::lemma_deposit_sum_push(pre.upvote_deposits@, e, id_k);
        if k != i {
            if k < i {
                assert(pre.appchains@[k].appchain_id@ != pre.appchains@[i].appchain_id@);
            } else {
                assert(pre.appchains@[i].appchain_id@ != pre.appchains@[k].appchain_id@);
            }
        }
    }
}

/// Changing one downvote entry's amount and its record's downvote aggregate
/// by the same difference keeps the store well formed.
pub proof fn lemma_wf_after_downvote_entry_update(
    pre: AppchainRegistry,
    post: AppchainRegistry,
    i: int,
    j: int,
)
    requires
        pre.wf(),
        0 <= i < pre.appchains@.len(),
        0 <= j < pre.downvote_deposits@.len(),
        post.appchains@ == pre.appchains@.update(i, post.appchains@[i]),
        post.downvote_deposits@ == pre.downvote_deposits@.update(j, post.downvote_deposits@[j]),
        post.upvote_deposits@ == pre.upvote_deposits@,
        post.appchains@[i] == (AppchainBasedata {
            downvote_deposit: post.appchains@[i].downvote_deposit,
            ..pre.appchains@[i]
        }),
        post.downvote_deposits@[j] == (DepositEntry {
            amount: post.downvote_deposits@[j].amount,
            ..pre.downvote_deposits@[j]
        }),
        pre.downvote_deposits@[j].appchain_id@ == pre.appchains@[i].appchain_id@,
        post.appchains@[i].downvote_deposit as int - pre.appchains@[i].downvote_deposit as int
            == post.downvote_deposits@[j].amount as int - pre.downvote_deposits@[j].amount as int,
    ensures
        post.wf(),
{
    assert(forall|k: int|
        0 <= k < post.appchains@.len() ==> (#[trigger] post.appchains@[k]).appchain_id@
            == pre.appchains@[k].appchain_id@);
    assert(forall|k: int|
        0 <= k < post.downvote_deposits@.len() ==> (
        #[trigger] post.downvote_deposits@[k]).appchain_id@ == pre.downvote_deposits@[k].appchain_id@
            && post.downvote_deposits@[k].account_id@ == pre.downvote_deposits@[k].account_id@);
    assert forall|k: int|
        0 <= k < post.upvote_deposits@.len() implies post.has_appchain(
        (#[trigger] post.upvote_deposits@[k]).appchain_id@,
    ) by {
        let e_id = post.upvote_deposits@[k].appchain_id@;
        assert(pre.has_appchain(e_id));
        let w = choose|w: int|
            0 <= w < pre.appchains@.len() && (#[trigger] pre.appchains@[w]).appchain_id@ == e_id;
        assert(post.appchains@[w].appchain_id@ == e_id);
    }
    assert forall|k: int|
        0 <= k < post.downvote_deposits@.len() implies post.has_appchain(
        (#[trigger] post.downvote_deposits@[k]).appchain_id@,
    ) by {
        let e_id = post.downvote_deposits@[k].appchain_id@;
        assert(pre.has_appchain(e_id));
        let w = choose|w: int|
            0 <= w < pre.appchains@.len() && (#[trigger] pre.appchains@[w]).appchain_id@ == e_id;
        assert(post.appchains@[w].appchain_id@ == e_id);
    }
    assert forall|k: int| 0 <= k < post.appchains@.len() implies {
        &&& (#[trigger] post.appchains@[k]).upvote_deposit as int == deposit_sum(
            post.upvote_deposits@,
            post.appchains@[k].appchain_id@,
        )
        &&& post.appchains@[k].downvote_deposit as int == deposit_sum(
            post.downvote_deposits@,
            post.appchains@[k].appchain_id@,
        )
    } by {
        let id_k = pre.appchains@[k].appchain_id@;
        assert(pre.appchains@[k].upvote_deposit as int == deposit_sum(
            pre.upvote_deposits@,
            id_k,
        ));
        assert(pre.appchains@[k].downvote_deposit as int == deposit_sum(
            pre.downvote_deposits@,
            id_k,
        ));
        crate::deposit::lemma_deposit_sum_update(
            pre.downvote_deposits@,
            j,
            post.downvote_deposits@[j],
            id_k,
        );
        if k != i {
            if k < i {
                assert(pre.appchains@[k].appchain_id@ != pre.appchains@[i].appchain_id@);
            } else {
                assert(pre.appchains@[i].appchain_id@ != pre.appchains@[k].appchain_id@);
            }
        }
    }
}

/// Appending a downvote entry for a fresh (appchain, voter) key and raising
/// that record's downvote aggregate by its amount keeps the store well
/// formed.
pub proof fn lemma_wf_after_downvote_entry_push(
    pre: AppchainRegistry,
    post: AppchainRegistry,
    i: int,
)
    requires
        pre.wf(),
        0 <= i < pre.appchains@.len(),
        post.appchains@ == pre.appchains@.update(i, post.appchains@[i]),
        post.downvote_deposits@ == pre.downvote_deposits@.push(post.downvote_deposits@.last()),
        post.upvote_deposits@ == pre.upvote_deposits@,
        post.appchains@[i] == (AppchainBasedata {
            downvote_deposit: post.appchains@[i].downvote_deposit,
            ..pre.appchains@[i]
        }),
        post.downvote_deposits@.last().appchain_id@ == pre.appchains@[i].appchain_id@,
        forall|k: int|
            0 <= k < pre.downvote_deposits@.len() ==> !entry_matches(
                #[trigger] pre.downvote_deposits@[k],
                post.downvote_deposits@.last().appchain_id@,
                post.downvote_deposits@.last().account_id@,
            ),
        post.appchains@[i].downvote_deposit as int == pre.appchains@[i].downvote_deposit as int
            + post.downvote_deposits@.last().amount as int,
    ensures
        post.wf(),
{
    let e = post.downvote_deposits@.last();
    assert(forall|k: int|
        0 <= k < post.appchains@.len() ==> (#[trigger] post.appchains@[k]).appchain_id@
            == pre.appchains@[k].appchain_id@);
    assert(forall|k: int|
        0 <= k < pre.downvote_deposits@.len() ==> post.downvote_deposits@[k]
            == pre.downvote_deposits@[k]);
    assert forall|k: int|
        0 <= k < post.upvote_deposits@.len() implies post.has_appchain(
        (#[trigger] post.upvote_deposits@[k]).appchain_id@,
    ) by {
        let e_id = post.upvote_deposits@[k].appchain_id@;
        assert(pre.has_appchain(e_id));
        let w = choose|w: int|
            0 <= w < pre.appchains@.len() && (#[trigger] pre.appchains@[w]).appchain_id@ == e_id;
        assert(post.appchains@[w].appchain_id@ == e_id);
    }
    assert forall|k: int|
        0 <= k < post.downvote_deposits@.len() implies post.has_appchain(
        (#[trigger] post.downvote_deposits@[k]).appchain_id@,
    ) by {
        let e_id = post.downvote_deposits@[k].appchain_id@;
        if k < pre.downvote_deposits@.len() {
            assert(pre.has_appchain(e_id));
            let w = choose|w: int|
                0 <= w < pre.appchains@.len() && (#[trigger] pre.appchains@[w]).appchain_id@
                    == e_id;
            assert(post.appchains@[w].appchain_id@ == e_id);
        } else {
            assert(post.appchains@[i].appchain_id@ == e_id);
        }
    }
    assert forall|k: int| 0 <= k < post.appchains@.len() implies {
        &&& (#[trigger] post.appchains@[k]).upvote_deposit as int == deposit_sum(
            post.upvote_deposits@,
            post.appchains@[k].appchain_id@,
        )
        &&& post.appchains@[k].downvote_deposit as int == deposit_sum(
            post.downvote_deposits@,
            post.appchains@[k].appchain_id@,
        )
    } by {
        let id_k = pre.appchains@[k].appchain_id@;
        assert(pre.appchains@[k].upvote_deposit as int == deposit_sum(
            pre.upvote_deposits@,
            id_k,
        ));
        assert(pre.appchains@[k].downvote_deposit as int == deposit_sum(
            pre.downvote_deposits@,
            id_k,
        ));
        crate::deposit::lemma_deposit_sum_push(pre.downvote_deposits@, e, id_k);
        if k != i {
            if k < i {
                assert(pre.appchains@[k].appchain_id@ != pre.appchains@[i].appchain_id@);
            } else {
                assert(pre.appchains@[i].appchain_id@ != pre.appchains@[k].appchain_id@);
            }
        }
    }
}

/// In a well-formed registry every record's aggregate deposit fields agree
/// with the deposit ledger: the sum of all voter entries for an appchain
/// and direction equals that record's aggregate field.  Every operation of
/// the registry keeps the store well formed, so this holds after any
/// sequence of deposit increases and decreases.
pub proof fn lemma_wf_implies_deposit_conservation(reg: AppchainRegistry)
    requires
        reg.wf(),
    ensures
        forall|i: int|
            0 <= i < reg.appchains@.len() ==> (#[trigger] reg.appchains@[i]).upvote_deposit as int
                == deposit_sum(reg.upvote_deposits@, reg.appchains@[i].appchain_id@)
                && reg.appchains@[i].downvote_deposit as int == deposit_sum(
                reg.downvote_deposits@,
                reg.appchains@[i].appchain_id@,
            ),
{
}

} // verus!
