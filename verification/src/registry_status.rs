//! The read-only query service: projection, filtering, sorting and
//! pagination over the registry's records.  Nothing here mutates the store.

use vstd::prelude::*;
use vstd::arithmetic::mul::lemma_mul_nonnegative;
use vstd::arithmetic::mul::lemma_mul_upper_bound;
use vstd::string::StringExecFns;
use crate::appchain_basedata::AppchainBasedata;
use crate::deposit::deposit_amount;
use crate::registry::AppchainRegistry;
use crate::sorting::page_of;
use crate::sorting::sort_by_field;
use crate::sorting::sort_statuses;
use crate::types::AccountId;
use crate::types::AppchainId;
use crate::types::AppchainSortingField;
use crate::types::AppchainState;
use crate::types::AppchainStatus;
use crate::types::RegistryError;
use crate::types::RegistryRoles;
use crate::types::RegistrySettings;
use crate::types::SortingOrder;

verus! {

/// The version string the registry reports.
pub open spec fn version_string() -> Seq<char> {
    "2.1.0"@
}

/// Whether a record passes the optional state filter: with no filter every
/// record passes, otherwise its state must be a member of the given set.
pub open spec fn passes_filter(b: AppchainBasedata, filter: Option<Seq<AppchainState>>) -> bool {
    match filter {
        None => true,
        Some(states) => states.contains(b.appchain_state),
    }
}

/// The projected statuses of the records passing the filter, in the order
/// the records were registered.
pub open spec fn filtered_statuses(
    records: Seq<AppchainBasedata>,
    filter: Option<Seq<AppchainState>>,
) -> Seq<AppchainStatus>
    decreases records.len(),
{
    if records.len() == 0 {
        Seq::<AppchainStatus>::empty()
    } else {
        let rest = filtered_statuses(records.drop_last(), filter);
        if passes_filter(records.last(), filter) {
            rest.push(records.last().spec_status())
        } else {
            rest
        }
    }
}

/// How many records carry the given state, or all of them with no filter.
pub open spec fn count_matching(
    records: Seq<AppchainBasedata>,
    filter: Option<AppchainState>,
) -> int
    decreases records.len(),
{
    if records.len() == 0 {
        0int
    } else {
        count_matching(records.drop_last(), filter) + (match filter {
            None => 1int,
            Some(s) => if records.last().appchain_state == s {
                1int
            } else {
                0int
            },
        })
    }
}

/// The sum of the observed staking totals over all records.
pub open spec fn total_stake_sum(records: Seq<AppchainBasedata>) -> int
    decreases records.len(),
{
    if records.len() == 0 {
        0
    } else {
        total_stake_sum(records.drop_last()) + records.last().total_stake as int
    }
}

/// A prefix of the records never holds more observed stake than all of them.
proof fn lemma_total_stake_take_bound(records: Seq<AppchainBasedata>, i: int)
    requires
        0 <= i <= records.len(),
    ensures
        total_stake_sum(records.take(i)) <= total_stake_sum(records),
    decreases records.len() - i,
{
    if i == records.len() {
        assert(records.take(i) =~= records);
    } else {
        assert(records.take(i + 1).drop_last() =~= records.take(i));
        assert(records.take(i + 1).last() == records[i]);
        lemma_total_stake_take_bound(records, i + 1);
    }
}

/// The view of the optional state filter.
pub open spec fn filter_view(filter: Option<Vec<AppchainState>>) -> Option<Seq<AppchainState>> {
    match filter {
        None => None,
        Some(states) => Some(states@),
    }
}

/// Whether the given state is a member of the list.
fn state_in_list(states: &Vec<AppchainState>, state: AppchainState) -> (r: bool)
    ensures
        r == states@.contains(state),
{
    let n = states.len();
    let mut j: usize = 0;
    while j < n
        invariant
            n == states@.len(),
            j <= n,
            forall|k: int| 0 <= k < j ==> states@[k] != state,
        decreases n - j,
    {
        if states[j] == state {
            return true;
        }
        j = j + 1;
    }
    false
}

/// The interface for querying status of the appchain registry.
pub trait RegistryStatus: Sized {
    /// The registry state the queries read.
    spec fn registry(&self) -> AppchainRegistry;

    /// Show the version of the current contract.
    fn version(&self) -> (r: String)
        ensures
            r@ == version_string(),
    ;

    /// Get the public key of the current owner.
    fn get_owner_pk(&self) -> (r: String)
        ensures
            r@ == self.registry().owner_pk@,
    ;

    /// Get the account id of the OCT token contract.
    fn get_oct_token(&self) -> (r: AccountId)
        ensures
            r == self.registry().oct_token,
    ;

    /// Get the registry settings.
    fn get_registry_settings(&self) -> (r: RegistrySettings)
        ensures
            r == self.registry().registry_settings,
    ;

    /// Get the registry roles.
    fn get_registry_roles(&self) -> (r: RegistryRoles)
        ensures
            r == self.registry().registry_roles,
    ;

    /// Get the total observed stake over all tracked records, whatever
    /// their lifecycle state.
    fn get_total_stake(&self) -> (r: u128)
        requires
            total_stake_sum(self.registry().appchains@) <= u128::MAX,
        ensures
            r as int == total_stake_sum(self.registry().appchains@),
    ;

    /// Get the appchain ids, in registration order.
    fn get_appchain_ids(&self) -> (r: Vec<String>)
        ensures
            r@.len() == self.registry().appchains@.len(),
            forall|k: int|
                0 <= k < r@.len() ==> r@[k] == (#[trigger] self.registry().appchains@[k]).appchain_id,
    ;

    /// Get a page of the appchains whose state is in the given set, or of
    /// all of them if no set is given, sorted by the given field and order.
    /// The page number must be at least one and the page size between five
    /// and fifty, else the call fails with a validation error.
    fn get_appchains_with_state_of(
        &self,
        appchain_state: Option<Vec<AppchainState>>,
        page_number: u16,
        page_size: u16,
        sorting_field: AppchainSortingField,
        sorting_order: SortingOrder,
    ) -> (r: Result<Vec<AppchainStatus>, RegistryError>)
        ensures
            (page_number < 1 || page_size < 5 || page_size > 50) ==> r == Err::<
                Vec<AppchainStatus>,
                RegistryError,
            >(RegistryError::Validation),
            page_number >= 1 && 5 <= page_size <= 50 ==> (r matches Ok(page) && page@ == page_of(
                sort_by_field(
                    filtered_statuses(self.registry().appchains@, filter_view(appchain_state)),
                    sorting_field,
                    sorting_order,
                ),
                page_number as int,
                page_size as int,
            )),
    ;

    /// Get the count of the appchains whose state equals the given one, or
    /// of all of them if no state is given.
    fn get_appchains_count_of(&self, appchain_state: Option<AppchainState>) -> (r: u64)
        ensures
            r as int == count_matching(self.registry().appchains@, appchain_state),
    ;

    /// Get the status of an appchain; fails if the id has no record.
    fn get_appchain_status_of(&self, appchain_id: AppchainId) -> (r: Result<
        AppchainStatus,
        RegistryError,
    >)
        requires
            self.registry().wf(),
        ensures
            !self.registry().has_appchain(appchain_id@) ==> r == Err::<
                AppchainStatus,
                RegistryError,
            >(RegistryError::NotFound),
            forall|i: int|
                0 <= i < self.registry().appchains@.len() && (
                #[trigger] self.registry().appchains@[i]).appchain_id@ == appchain_id@ ==> r
                    == Ok::<AppchainStatus, RegistryError>(
                    self.registry().appchains@[i].spec_status(),
                ),
    ;

    /// Get the upvote deposit of the given voter for an appchain; zero if
    /// the voter has no entry.
    fn get_upvote_deposit_for(&self, appchain_id: AppchainId, account_id: AccountId) -> (r: u128)
        ensures
            r as int == deposit_amount(
                self.registry().upvote_deposits@,
                appchain_id@,
                account_id@,
            ),
    ;

    /// Get the downvote deposit of the given voter for an appchain; zero if
    /// the voter has no entry.
    fn get_downvote_deposit_for(&self, appchain_id: AppchainId, account_id: AccountId) -> (r: u128)
        ensures
            r as int == deposit_amount(
                self.registry().downvote_deposits@,
                appchain_id@,
                account_id@,
            ),
    ;
}

impl RegistryStatus for AppchainRegistry {
    open spec fn registry(&self) -> AppchainRegistry {
        *self
    }

    fn version(&self) -> (r: String) {
        String::from_str("2.1.0")
    }

    fn get_owner_pk(&self) -> (r: String) {
        self.owner_pk.clone()
    }

    fn get_oct_token(&self) -> (r: AccountId) {
        self.oct_token.clone()
    }

    fn get_registry_settings(&self) -> (r: RegistrySettings) {
        self.registry_settings
    }

    fn get_registry_roles(&self) -> (r: RegistryRoles) {
        self.registry_roles.clone()
    }

    fn get_total_stake(&self) -> (r: u128) {
        let n = self.appchains.len();
        let mut total: u128 = 0;
        let mut i: usize = 0;
        proof {
            assert(self.appchains@.take(0) =~= Seq::<AppchainBasedata>::empty());
        }
        while i < n
            invariant
                n == self.appchains@.len(),
                i <= n,
                total as int == total_stake_sum(self.appchains@.take(i as int)),
                total_stake_sum(self.appchains@) <= u128::MAX,
            decreases n - i,
        {
            proof {
                assert(self.appchains@.take(i as int + 1).drop_last() =~= self.appchains@.take(
                    i as int,
                ));
                assert(self.appchains@.take(i as int + 1).last() == self.appchains@[i as int]);
                lemma_total_stake_take_bound(self.appchains@, i as int + 1);
            }
            total = total + self.appchains[i].total_stake;
            i = i + 1;
        }
        proof {
            assert(self.appchains@.take(n as int) =~= self.appchains@);
        }
        total
    }

    fn get_appchain_ids(&self) -> (r: Vec<String>) {
        let n = self.appchains.len();
        let mut ids: Vec<String> = Vec::new();
        let mut i: usize = 0;
        while i < n
            invariant
                n == self.appchains@.len(),
                i <= n,
                ids@.len() == i,
                forall|k: int|
                    0 <= k < i ==> ids@[k] == (#[trigger] self.appchains@[k]).appchain_id,
            decreases n - i,
        {
            ids.push(self.appchains[i].appchain_id.clone());
            i = i + 1;
        }
        ids
    }

    fn get_appchains_with_state_of(
        &self,
        appchain_state: Option<Vec<AppchainState>>,
        page_number: u16,
        page_size: u16,
        sorting_field: AppchainSortingField,
        sorting_order: SortingOrder,
    ) -> (r: Result<Vec<AppchainStatus>, RegistryError>) {
        if page_number < 1 {
            return Err(RegistryError::Validation);
        }
        if page_size < 5 || page_size > 50 {
            return Err(RegistryError::Validation);
        }
        let ghost filter = filter_view(appchain_state);
        let n = self.appchains.len();
        let mut results: Vec<AppchainStatus> = Vec::new();
        let mut i: usize = 0;
        proof {
            assert(self.appchains@.take(0) =~= Seq::<AppchainBasedata>::empty());
        }
        while i < n
            invariant
                n == self.appchains@.len(),
                i <= n,
                filter == filter_view(appchain_state),
                results@ == filtered_statuses(self.appchains@.take(i as int), filter),
            decreases n - i,
        {
            proof {
                assert(self.appchains@.take(i as int + 1).drop_last() =~= self.appchains@.take(
                    i as int,
                ));
                assert(self.appchains@.take(i as int + 1).last() == self.appchains@[i as int]);
            }
            let keep = match &appchain_state {
                Some(states) => state_in_list(states, self.appchains[i].appchain_state),
                None => true,
            };
            if keep {
                results.push(self.appchains[i].status());
            }
            i = i + 1;
        }
        proof {
            assert(self.appchains@.take(n as int) =~= self.appchains@);
        }
        let sorted = sort_statuses(&results, sorting_field, sorting_order);
        let ghost sorted_seq = sorted@;
        proof {
            lemma_mul_nonnegative(page_number as int - 1, page_size as int);
            lemma_mul_upper_bound(page_number as int - 1, 65534, page_size as int, 50);
        }
        let start: usize = (page_number as usize - 1) * (page_size as usize);
        let len = sorted.len();
        if start >= len {
            let page: Vec<AppchainStatus> = Vec::new();
            return Ok(page);
        }
        let end: usize = if len - start < page_size as usize {
            len
        } else {
            start + page_size as usize
        };
        let mut page: Vec<AppchainStatus> = Vec::new();
        let mut k: usize = start;
        while k < end
            invariant
                start <= k <= end <= sorted@.len(),
                sorted@ == sorted_seq,
                page@ == sorted_seq.subrange(start as int, k as int),
            decreases end - k,
        {
            page.push(sorted[k].clone());
            proof {
                assert(sorted_seq.subrange(start as int, k as int + 1) =~= sorted_seq.subrange(
                    start as int,
                    k as int,
                ).push(sorted_seq[k as int]));
            }
            k = k + 1;
        }
        proof {
            assert(page@ == page_of(sorted_seq, page_number as int, page_size as int));
        }
        Ok(page)
    }

    fn get_appchains_count_of(&self, appchain_state: Option<AppchainState>) -> (r: u64) {
        let n = self.appchains.len();
        let mut count: u64 = 0;
        let mut i: usize = 0;
        proof {
            assert(self.appchains@.take(0) =~= Seq::<AppchainBasedata>::empty());
        }
        while i < n
            invariant
                n == self.appchains@.len(),
                i <= n,
                count as int == count_matching(self.appchains@.take(i as int), appchain_state),
                count <= i,
            decreases n - i,
        {
            proof {
                assert(self.appchains@.take(i as int + 1).drop_last() =~= self.appchains@.take(
                    i as int,
                ));
                assert(self.appchains@.take(i as int + 1).last() == self.appchains@[i as int]);
            }
            let matched = match appchain_state {
                Some(s) => self.appchains[i].appchain_state == s,
                None => true,
            };
            if matched {
                count = count + 1;
            }
            i = i + 1;
        }
        proof {
            assert(self.appchains@.take(n as int) =~= self.appchains@);
        }
        count
    }

    fn get_appchain_status_of(&self, appchain_id: AppchainId) -> (r: Result<
        AppchainStatus,
        RegistryError,
    >) {
        match self.index_of_appchain(&appchain_id) {
            None => Err(RegistryError::NotFound),
            Some(i) => {
                proof {
                    lemma_appchain_match_unique(*self, i as int, appchain_id@);
                }
                Ok(self.appchains[i].status())
            },
        }
    }

    fn get_upvote_deposit_for(&self, appchain_id: AppchainId, account_id: AccountId) -> (r: u128) {
        match crate::deposit::find_entry(&self.upvote_deposits, &appchain_id, &account_id) {
            Some(j) => {
                proof {
                    crate::deposit::lemma_deposit_amount_found(
                        self.upvote_deposits@,
                        j as int,
                        appchain_id@,
                        account_id@,
                    );
                }
                self.upvote_deposits[j].amount
            },
            None => {
                proof {
                    crate::deposit::lemma_deposit_amount_absent(
                        self.upvote_deposits@,
                        appchain_id@,
                        account_id@,
                    );
                }
                0
            },
        }
    }

    fn get_downvote_deposit_for(&self, appchain_id: AppchainId, account_id: AccountId) -> (r:
        u128) {
        match crate::deposit::find_entry(&self.downvote_deposits, &appchain_id, &account_id) {
            Some(j) => {
                proof {
                    crate::deposit::lemma_deposit_amount_found(
                        self.downvote_deposits@,
                        j as int,
                        appchain_id@,
                        account_id@,
                    );
                }
                self.downvote_deposits[j].amount
            },
            None => {
                proof {
                    crate::deposit::lemma_deposit_amount_absent(
                        self.downvote_deposits@,
                        appchain_id@,
                        account_id@,
                    );
                }
                0
            },
        }
    }
}

/// With unique ids, any two records carrying the same id are one record.
proof fn lemma_appchain_match_unique(reg: AppchainRegistry, i: int, id: Seq<char>)
    requires
        reg.appchain_ids_unique(),
        0 <= i < reg.appchains@.len(),
        reg.appchains@[i].appchain_id@ == id,
    ensures
        forall|i2: int|
            0 <= i2 < reg.appchains@.len() && (#[trigger] reg.appchains@[i2]).appchain_id@ == id
                ==> i2 == i,
{
    assert forall|i2: int|
        0 <= i2 < reg.appchains@.len() && (#[trigger] reg.appchains@[i2]).appchain_id@ == id
            implies i2 == i by {
        if i2 < i {
            assert(reg.appchains@[i2].appchain_id@ != reg.appchains@[i].appchain_id@);
        } else if i2 > i {
            assert(reg.appchains@[i].appchain_id@ != reg.appchains@[i2].appchain_id@);
        }
    }
}

} // verus!
