//! The anchor sync gateway: the narrow callback surface through which the
//! one external principal bound to an appchain — its anchor contract —
//! pushes lifecycle state and staking status into the registry.

use vstd::prelude::*;
use crate::appchain_basedata::AppchainBasedata;
use crate::registry::AppchainRegistry;
use crate::registry::lemma_wf_after_record_update;
use crate::registry::record_updated;
use crate::types::AccountId;
use crate::types::AppchainId;
use crate::types::AppchainState;
use crate::types::RegistryError;

verus! {

/// The callback interface for appchain anchor.
pub trait AppchainAnchorCallback: Sized {
    /// The registry state the callback works on.
    spec fn registry_state(&self) -> AppchainRegistry;

    /// Sync state of an appchain to registry.  Only the caller whose
    /// identity equals the record's stored anchor may sync; the target
    /// state must be anchor managed; and a transition to the record's
    /// current state is rejected as a no-op.  On success the record takes
    /// the new state and the observed staking status; any failure leaves
    /// the registry exactly as it was.
    fn sync_state_of(
        &mut self,
        caller: &AccountId,
        appchain_id: AppchainId,
        appchain_state: AppchainState,
        validator_count: u32,
        total_stake: u128,
    ) -> (r: Result<(), RegistryError>)
        requires
            old(self).registry_state().wf(),
        ensures
            final(self).registry_state().wf(),
            !old(self).registry_state().has_appchain(appchain_id@) ==> r == Err::<
                (),
                RegistryError,
            >(RegistryError::NotFound) && final(self).registry_state()
                == old(self).registry_state(),
            forall|i: int|
                0 <= i < old(self).registry_state().appchains@.len() && (#[trigger] old(self).registry_state().appchains@[i]).appchain_id@ == appchain_id@ ==> ({
                    let b = old(self).registry_state().appchains@[i];
                    if caller@ != b.appchain_anchor@ {
                        r == Err::<(), RegistryError>(RegistryError::Authorization) && final(self).registry_state() == old(self).registry_state()
                    } else if !appchain_state.spec_is_managed_by_anchor() {
                        r == Err::<(), RegistryError>(RegistryError::Validation) && final(self).registry_state() == old(self).registry_state()
                    } else if appchain_state == b.appchain_state {
                        r == Err::<(), RegistryError>(RegistryError::Validation) && final(self).registry_state() == old(self).registry_state()
                    } else {
                        r == Ok::<(), RegistryError>(()) && record_updated(
                            old(self).registry_state(),
                            final(self).registry_state(),
                            i,
                            (AppchainBasedata {
                                appchain_state: appchain_state,
                                validator_count: validator_count,
                                total_stake: total_stake,
                                ..b
                            }),
                        )
                    }
                }),
    ;
}

impl AppchainAnchorCallback for AppchainRegistry {
    open spec fn registry_state(&self) -> AppchainRegistry {
        *self
    }

    fn sync_state_of(
        &mut self,
        caller: &AccountId,
        appchain_id: AppchainId,
        appchain_state: AppchainState,
        validator_count: u32,
        total_stake: u128,
    ) -> (r: Result<(), RegistryError>) {
        let i = match self.index_of_appchain(&appchain_id) {
            None => {
                return Err(RegistryError::NotFound);
            },
            Some(i) => i,
        };
        if !caller.eq(&self.appchains[i].appchain_anchor) {
            return Err(RegistryError::Authorization);
        }
        if !appchain_state.is_managed_by_anchor() {
            return Err(RegistryError::Validation);
        }
        if appchain_state == self.appchains[i].appchain_state {
            return Err(RegistryError::Validation);
        }
        let rec = &mut self.appchains[i];
        rec.change_state(appchain_state);
        rec.sync_staking_status(validator_count, total_stake);
        proof {
            lemma_wf_after_record_update(*old(self), *self, i as int);
        }
        Ok(())
    }
}

} // verus!
