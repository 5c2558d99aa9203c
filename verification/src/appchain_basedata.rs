//! The aggregate lifecycle record for one appchain: identity, metadata,
//! ownership, lifecycle state, deposit balances, timestamps, the staking
//! status observed from its anchor, and its running voting score.

use vstd::prelude::*;
use crate::types::AccountId;
use crate::types::AppchainId;
use crate::types::AppchainMetadata;
use crate::types::AppchainState;
use crate::types::AppchainStatus;
use crate::voting_score::accumulated_score;
use crate::voting_score::lemma_reduce_score_via_magnitude;
use crate::voting_score::lemma_reduction_within_magnitude;
use crate::voting_score::reduced_score;
use crate::voting_score::score_magnitude;

verus! {

/// Appchain basedata.
pub struct AppchainBasedata {
    pub appchain_id: AppchainId,
    pub appchain_metadata: AppchainMetadata,
    pub appchain_anchor: AccountId,
    pub appchain_owner: AccountId,
    pub register_deposit: u128,
    pub appchain_state: AppchainState,
    pub upvote_deposit: u128,
    pub downvote_deposit: u128,
    pub registered_time: u64,
    pub go_live_time: u64,
    pub validator_count: u32,
    pub total_stake: u128,
    pub voting_score: i128,
}

impl AppchainBasedata {
    /// The projected status of this record, as the query layer reports it.
    pub open spec fn spec_status(&self) -> AppchainStatus {
        AppchainStatus {
            appchain_id: self.appchain_id,
            appchain_metadata: self.appchain_metadata,
            appchain_anchor: self.appchain_anchor,
            appchain_owner: self.appchain_owner,
            register_deposit: self.register_deposit,
            appchain_state: self.appchain_state,
            upvote_deposit: self.upvote_deposit,
            downvote_deposit: self.downvote_deposit,
            voting_score: self.voting_score,
            registered_time: self.registered_time,
            go_live_time: self.go_live_time,
            validator_count: self.validator_count,
            total_stake: self.total_stake,
        }
    }

    /// Return a new instance of AppchainBasedata with the given parameters.
    /// The record starts in the `Registered` state with no anchor, no voter
    /// deposits, no observed staking status and a voting score of zero.
    pub fn new(
        appchain_id: AppchainId,
        appchain_metadata: AppchainMetadata,
        appchain_owner: AccountId,
        register_deposit: u128,
        registered_time: u64,
    ) -> (r: Self)
        ensures
            r.appchain_id == appchain_id,
            r.appchain_metadata == appchain_metadata,
            r.appchain_anchor@ == Seq::<char>::empty(),
            r.appchain_owner == appchain_owner,
            r.register_deposit == register_deposit,
            r.appchain_state == AppchainState::Registered,
            r.upvote_deposit == 0,
            r.downvote_deposit == 0,
            r.registered_time == registered_time,
            r.go_live_time == 0,
            r.validator_count == 0,
            r.total_stake == 0,
            r.voting_score == 0,
    {
        AppchainBasedata {
            appchain_id,
            appchain_metadata,
            appchain_anchor: String::new(),
            appchain_owner,
            register_deposit,
            appchain_state: AppchainState::Registered,
            upvote_deposit: 0,
            downvote_deposit: 0,
            registered_time,
            go_live_time: 0,
            validator_count: 0,
            total_stake: 0,
            voting_score: 0,
        }
    }

    /// Get appchain id.
    pub fn id(&self) -> (r: &AppchainId)
        ensures
            r == &self.appchain_id,
    {
        &self.appchain_id
    }

    /// Get metadata.
    pub fn metadata(&self) -> (r: &AppchainMetadata)
        ensures
            r == &self.appchain_metadata,
    {
        &self.appchain_metadata
    }

    /// Replace the metadata wholesale.
    pub fn set_metadata(&mut self, metadata: AppchainMetadata)
        ensures
            *final(self) == (AppchainBasedata { appchain_metadata: metadata, ..*old(self) }),
    {
        self.appchain_metadata = metadata;
    }

    /// Get account id of anchor; empty until the anchor is assigned.
    pub fn anchor(&self) -> (r: &AccountId)
        ensures
            r == &self.appchain_anchor,
    {
        &self.appchain_anchor
    }

    /// Get account id of owner.
    pub fn owner(&self) -> (r: &AccountId)
        ensures
            r == &self.appchain_owner,
    {
        &self.appchain_owner
    }

    /// Get initial deposit.
    pub fn register_deposit(&self) -> (r: u128)
        ensures
            r == self.register_deposit,
    {
        self.register_deposit
    }

    /// Get state.
    pub fn state(&self) -> (r: AppchainState)
        ensures
            r == self.appchain_state,
    {
        self.appchain_state
    }

    /// Get upvote deposit.
    pub fn upvote_deposit(&self) -> (r: u128)
        ensures
            r == self.upvote_deposit,
    {
        self.upvote_deposit
    }

    /// Get downvote deposit.
    pub fn downvote_deposit(&self) -> (r: u128)
        ensures
            r == self.downvote_deposit,
    {
        self.downvote_deposit
    }

    /// Get voting score; zero until the first accumulation is counted.
    pub fn voting_score(&self) -> (r: i128)
        ensures
            r == self.voting_score,
    {
        self.voting_score
    }

    /// Get full status.
    pub fn status(&self) -> (r: AppchainStatus)
        ensures
            r == self.spec_status(),
    {
        AppchainStatus {
            appchain_id: self.appchain_id.clone(),
            appchain_metadata: self.appchain_metadata.clone(),
            appchain_anchor: self.appchain_anchor.clone(),
            appchain_owner: self.appchain_owner.clone(),
            register_deposit: self.register_deposit,
            appchain_state: self.appchain_state,
            upvote_deposit: self.upvote_deposit,
            downvote_deposit: self.downvote_deposit,
            voting_score: self.voting_score,
            registered_time: self.registered_time,
            go_live_time: self.go_live_time,
            validator_count: self.validator_count,
            total_stake: self.total_stake,
        }
    }

    /// Change owner.  A transfer to the current owner is a no-op and is
    /// rejected before this is called.
    pub fn change_owner(&mut self, new_owner: &AccountId)
        requires
            old(self).appchain_owner@ != new_owner@,
        ensures
            final(self).appchain_owner == *new_owner,
            *final(self) == (AppchainBasedata {
                appchain_owner: final(self).appchain_owner,
                ..*old(self)
            }),
    {
        self.appchain_owner = new_owner.clone();
    }

    /// Set initial deposit.
    pub fn set_initial_deposit(&mut self, deposit: u128)
        ensures
            *final(self) == (AppchainBasedata { register_deposit: deposit, ..*old(self) }),
    {
        self.register_deposit = deposit;
    }

    /// Set anchor account.
    pub fn set_anchor_account(&mut self, anchor_account: &AccountId)
        ensures
            final(self).appchain_anchor == *anchor_account,
            *final(self) == (AppchainBasedata {
                appchain_anchor: final(self).appchain_anchor,
                ..*old(self)
            }),
    {
        self.appchain_anchor = anchor_account.clone();
    }

    /// Change state.  A transition to the current state is a no-op and is
    /// rejected before this is called.
    pub fn change_state(&mut self, new_state: AppchainState)
        requires
            old(self).appchain_state != new_state,
        ensures
            *final(self) == (AppchainBasedata { appchain_state: new_state, ..*old(self) }),
    {
        self.appchain_state = new_state;
    }

    /// Record the staking status last observed from the appchain's anchor.
    pub fn sync_staking_status(&mut self, validator_count: u32, total_stake: u128)
        ensures
            *final(self) == (AppchainBasedata { validator_count, total_stake, ..*old(self) }),
    {
        self.validator_count = validator_count;
        self.total_stake = total_stake;
    }

    /// Increase upvote deposit.
    pub fn increase_upvote_deposit(&mut self, value: u128)
        requires
            old(self).upvote_deposit + value <= u128::MAX,
        ensures
            *final(self) == (AppchainBasedata {
                upvote_deposit: (old(self).upvote_deposit + value) as u128,
                ..*old(self)
            }),
    {
        self.upvote_deposit = self.upvote_deposit + value;
    }

    /// Decrease upvote deposit.  Callers reject a decrease that would bring
    /// the balance below zero before this is called.
    pub fn decrease_upvote_deposit(&mut self, value: u128)
        requires
            value <= old(self).upvote_deposit,
        ensures
            *final(self) == (AppchainBasedata {
                upvote_deposit: (old(self).upvote_deposit - value) as u128,
                ..*old(self)
            }),
    {
        self.upvote_deposit = self.upvote_deposit - value;
    }

    /// Increase downvote deposit.
    pub fn increase_downvote_deposit(&mut self, value: u128)
        requires
            old(self).downvote_deposit + value <= u128::MAX,
        ensures
            *final(self) == (AppchainBasedata {
                downvote_deposit: (old(self).downvote_deposit + value) as u128,
                ..*old(self)
            }),
    {
        self.downvote_deposit = self.downvote_deposit + value;
    }

    /// Decrease downvote deposit.  Callers reject a decrease that would
    /// bring the balance below zero before this is called.
    pub fn decrease_downvote_deposit(&mut self, value: u128)
        requires
            value <= old(self).downvote_deposit,
        ensures
            *final(self) == (AppchainBasedata {
                downvote_deposit: (old(self).downvote_deposit - value) as u128,
                ..*old(self)
            }),
    {
        self.downvote_deposit = self.downvote_deposit - value;
    }

    /// Count voting score: fold the current deposit totals into the running
    /// score, changing it by exactly `upvote_deposit - downvote_deposit`.
    pub fn count_voting_score(&mut self)
        requires
            old(self).upvote_deposit <= i128::MAX,
            old(self).downvote_deposit <= i128::MAX,
            i128::MIN <= accumulated_score(
                old(self).voting_score as int,
                old(self).upvote_deposit as int,
                old(self).downvote_deposit as int,
            ) <= i128::MAX,
        ensures
            *final(self) == (AppchainBasedata {
                voting_score: accumulated_score(
                    old(self).voting_score as int,
                    old(self).upvote_deposit as int,
                    old(self).downvote_deposit as int,
                ) as i128,
                ..*old(self)
            }),
    {
        let upvote = self.upvote_deposit;
        let downvote = self.downvote_deposit;
        if upvote >= downvote {
            let delta = upvote - downvote;
            self.voting_score = self.voting_score + delta as i128;
        } else {
            let delta = downvote - upvote;
            self.voting_score = self.voting_score - delta as i128;
        }
    }

    /// Reduce voting score by the given percent, the reduction truncated
    /// toward zero.  Callers reject a percent above one hundred before this
    /// is called.
    pub fn reduce_voting_score_by_percent(&mut self, percent: u16)
        requires
            percent <= 100,
            score_magnitude(old(self).voting_score as int) * percent <= u128::MAX,
        ensures
            *final(self) == (AppchainBasedata {
                voting_score: reduced_score(old(self).voting_score as int, percent as int) as i128,
                ..*old(self)
            }),
    {
        let score = self.voting_score;
        let magnitude: u128 = if score >= 0 {
            score as u128
        } else {
            ((-(score + 1)) as u128) + 1
        };
        assert(magnitude == score_magnitude(score as int));
        proof {
            lemma_reduction_within_magnitude(score as int, percent as int);
            lemma_reduce_score_via_magnitude(score as int, percent as int);
        }
        let reduction: u128 = magnitude * (percent as u128) / 100;
        if score >= 0 {
            self.voting_score = score - reduction as i128;
        } else {
            self.voting_score = score + reduction as i128;
        }
    }
}

} // verus!
