//! The deposit ledger: one entry per (appchain, voter) pair and direction,
//! holding the amount that voter has staked toward that appchain in that
//! direction.  The sum of all entries for an appchain and direction must
//! always equal the aggregate deposit field of the appchain's record; the
//! spec functions and lemmas here let the registry maintain that invariant.

use vstd::prelude::*;
use crate::types::AccountId;
use crate::types::AppchainId;

verus! {

/// The stake one voter has committed toward one appchain in one direction.
pub struct DepositEntry {
    pub appchain_id: AppchainId,
    pub account_id: AccountId,
    pub amount: u128,
}

/// Whether an entry is keyed by the given appchain and voter.
pub open spec fn entry_matches(e: DepositEntry, id: Seq<char>, account: Seq<char>) -> bool {
    e.appchain_id@ == id && e.account_id@ == account
}

/// What an entry contributes to the total staked toward the given appchain.
pub open spec fn entry_contribution(e: DepositEntry, id: Seq<char>) -> int {
    if e.appchain_id@ == id {
        e.amount as int
    } else {
        0
    }
}

/// The total amount staked toward the given appchain, over all voters.
pub open spec fn deposit_sum(entries: Seq<DepositEntry>, id: Seq<char>) -> int
    decreases entries.len(),
{
    if entries.len() == 0 {
        0
    } else {
        entry_contribution(entries[0], id) + deposit_sum(entries.drop_first(), id)
    }
}

/// The amount the given voter has staked toward the given appchain: the
/// amount of the first matching entry, or zero if there is none.
pub open spec fn deposit_amount(entries: Seq<DepositEntry>, id: Seq<char>, account: Seq<char>) -> int
    decreases entries.len(),
{
    if entries.len() == 0 {
        0
    } else if entry_matches(entries[0], id, account) {
        entries[0].amount as int
    } else {
        deposit_amount(entries.drop_first(), id, account)
    }
}

/// No two entries are keyed by the same (appchain, voter) pair.
pub open spec fn entry_keys_unique(entries: Seq<DepositEntry>) -> bool {
    forall|i: int, j: int|
        0 <= i < j < entries.len() ==> !(entries[i].appchain_id@ == entries[j].appchain_id@
            && entries[i].account_id@ == entries[j].account_id@)
}

pub proof fn lemma_deposit_sum_nonneg(entries: Seq<DepositEntry>, id: Seq<char>)
    ensures
        0 <= deposit_sum(entries, id),
    decreases entries.len(),
{
    if entries.len() > 0 {
        lemma_deposit_sum_nonneg(entries.drop_first(), id);
    }
}

/// Appending an entry adds exactly that entry's contribution to the sum.
pub proof fn lemma_deposit_sum_push(entries: Seq<DepositEntry>, e: DepositEntry, id: Seq<char>)
    ensures
        deposit_sum(entries.push(e), id) == deposit_sum(entries, id) + entry_contribution(e, id),
    decreases entries.len(),
{
    let p = entries.push(e);
    if entries.len() == 0 {
        assert(p[0] == e);
        assert(p.drop_first() =~= Seq::<DepositEntry>::empty());
        assert(deposit_sum(p, id) == entry_contribution(e, id) + deposit_sum(p.drop_first(), id));
    } else {
        assert(p[0] == entries[0]);
        assert(p.drop_first() =~= entries.drop_first().push(e));
        lemma_deposit_sum_push(entries.drop_first(), e, id);
        assert(deposit_sum(p, id) == entry_contribution(entries[0], id) + deposit_sum(
            p.drop_first(),
            id,
        ));
    }
}

/// Replacing one entry changes the sum by the difference of contributions.
pub proof fn lemma_deposit_sum_update(
    entries: Seq<DepositEntry>,
    i: int,
    e: DepositEntry,
    id: Seq<char>,
)
    requires
        0 <= i < entries.len(),
    ensures
        deposit_sum(entries.update(i, e), id) == deposit_sum(entries, id) - entry_contribution(
            entries[i],
            id,
        ) + entry_contribution(e, id),
    decreases entries.len(),
{
    let u = entries.update(i, e);
    if i == 0 {
        assert(u.drop_first() =~= entries.drop_first());
    } else {
        assert(u.drop_first() =~= entries.drop_first().update(i - 1, e));
        lemma_deposit_sum_update(entries.drop_first(), i - 1, e, id);
    }
}

/// An appchain none of the entries mention has a total of zero.
pub proof fn lemma_deposit_sum_absent(entries: Seq<DepositEntry>, id: Seq<char>)
    requires
        forall|k: int| 0 <= k < entries.len() ==> entries[k].appchain_id@ != id,
    ensures
        deposit_sum(entries, id) == 0,
    decreases entries.len(),
{
    if entries.len() > 0 {
        assert(forall|k: int|
            0 <= k < entries.drop_first().len() ==> entries.drop_first()[k] == entries[k + 1]);
        lemma_deposit_sum_absent(entries.drop_first(), id);
    }
}

/// A single entry never holds more than the total staked toward its appchain.
pub proof fn lemma_entry_le_deposit_sum(entries: Seq<DepositEntry>, k: int, id: Seq<char>)
    requires
        0 <= k < entries.len(),
        entries[k].appchain_id@ == id,
    ensures
        entries[k].amount as int <= deposit_sum(entries, id),
    decreases entries.len(),
{
    lemma_deposit_sum_nonneg(entries.drop_first(), id);
    if k > 0 {
        lemma_entry_le_deposit_sum(entries.drop_first(), k - 1, id);
    }
}

/// The stored amount for a key is decided past any prefix without a match.
pub proof fn lemma_deposit_amount_skip(
    entries: Seq<DepositEntry>,
    k: int,
    id: Seq<char>,
    account: Seq<char>,
)
    requires
        0 <= k <= entries.len(),
        forall|j: int| 0 <= j < k ==> !entry_matches(entries[j], id, account),
    ensures
        deposit_amount(entries, id, account) == deposit_amount(entries.skip(k), id, account),
    decreases k,
{
    if k == 0 {
        assert(entries.skip(0) =~= entries);
    } else {
        assert(entries.skip(k) =~= entries.drop_first().skip(k - 1));
        assert(forall|j: int|
            0 <= j < k - 1 ==> entries.drop_first()[j] == entries[j + 1]);
        lemma_deposit_amount_skip(entries.drop_first(), k - 1, id, account);
    }
}

/// The first matching entry holds the stored amount for its key.
pub proof fn lemma_deposit_amount_found(
    entries: Seq<DepositEntry>,
    j: int,
    id: Seq<char>,
    account: Seq<char>,
)
    requires
        0 <= j < entries.len(),
        entry_matches(entries[j], id, account),
        forall|k: int| 0 <= k < j ==> !entry_matches(entries[k], id, account),
    ensures
        deposit_amount(entries, id, account) == entries[j].amount as int,
{
    lemma_deposit_amount_skip(entries, j, id, account);
    assert(entries.skip(j)[0] == entries[j]);
}

/// A key no entry holds has a stored amount of zero.
pub proof fn lemma_deposit_amount_absent(entries: Seq<DepositEntry>, id: Seq<char>, account: Seq<char>)
    requires
        forall|k: int| 0 <= k < entries.len() ==> !entry_matches(entries[k], id, account),
    ensures
        deposit_amount(entries, id, account) == 0,
{
    lemma_deposit_amount_skip(entries, entries.len() as int, id, account);
    assert(entries.skip(entries.len() as int) =~= Seq::<DepositEntry>::empty());
}

/// Replacing the first matching entry makes its amount the stored amount.
pub proof fn lemma_deposit_amount_update(
    entries: Seq<DepositEntry>,
    i: int,
    e: DepositEntry,
    id: Seq<char>,
    account: Seq<char>,
)
    requires
        0 <= i < entries.len(),
        entry_matches(entries[i], id, account),
        entry_matches(e, id, account),
        forall|j: int| 0 <= j < i ==> !entry_matches(entries[j], id, account),
    ensures
        deposit_amount(entries.update(i, e), id, account) == e.amount as int,
    decreases entries.len(),
{
    let u = entries.update(i, e);
    if i == 0 {
    } else {
        assert(u.drop_first() =~= entries.drop_first().update(i - 1, e));
        assert(forall|j: int|
            0 <= j < i - 1 ==> entries.drop_first()[j] == entries[j + 1]);
        lemma_deposit_amount_update(entries.drop_first(), i - 1, e, id, account);
    }
}

/// Appending an entry for a key no entry holds makes it the stored amount.
pub proof fn lemma_deposit_amount_push(
    entries: Seq<DepositEntry>,
    e: DepositEntry,
    id: Seq<char>,
    account: Seq<char>,
)
    requires
        forall|k: int| 0 <= k < entries.len() ==> !entry_matches(entries[k], id, account),
    ensures
        deposit_amount(entries.push(e), id, account) == (if entry_matches(e, id, account) {
            e.amount as int
        } else {
            0
        }),
    decreases entries.len(),
{
    let p = entries.push(e);
    if entries.len() == 0 {
        assert(p[0] == e);
        assert(p.drop_first() =~= Seq::<DepositEntry>::empty());
        assert(deposit_amount(p.drop_first(), id, account) == 0);
    } else {
        assert(p[0] == entries[0]);
        assert(p.drop_first() =~= entries.drop_first().push(e));
        assert(forall|k: int|
            0 <= k < entries.drop_first().len() ==> entries.drop_first()[k] == entries[k + 1]);
        lemma_deposit_amount_push(entries.drop_first(), e, id, account);
    }
}

/// Find the first entry keyed by the given appchain and voter.
pub fn find_entry(
    entries: &Vec<DepositEntry>,
    appchain_id: &AppchainId,
    account_id: &AccountId,
) -> (r: Option<usize>)
    ensures
        match r {
            Some(j) => j < entries@.len() && entry_matches(entries@[j as int], appchain_id@, account_id@)
                && forall|k: int| 0 <= k < j ==> !entry_matches(entries@[k], appchain_id@, account_id@),
            None => forall|k: int|
                0 <= k < entries@.len() ==> !entry_matches(entries@[k], appchain_id@, account_id@),
        },
{
    let n = entries.len();
    let mut j: usize = 0;
    while j < n
        invariant
            n == entries@.len(),
            j <= n,
            forall|k: int| 0 <= k < j ==> !entry_matches(entries@[k], appchain_id@, account_id@),
        decreases n - j,
    {
        if entries[j].appchain_id.eq(appchain_id) && entries[j].account_id.eq(account_id) {
            return Some(j);
        }
        j = j + 1;
    }
    None
}

} // verus!
