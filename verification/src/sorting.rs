//! Sorting and pagination of projected appchain statuses.  The sort is a
//! stable insertion sort: records whose keys compare equal keep the relative
//! order they had before sorting, which is their registration order.

use vstd::prelude::*;
use vstd::arithmetic::mul::lemma_mul_nonnegative;
use vstd::string::StrSliceExecFns;
use crate::types::AppchainSortingField;
use crate::types::AppchainStatus;
use crate::types::SortingOrder;

verus! {

/// Lexicographic order on character sequences, by code point.
pub open spec fn lex_le(a: Seq<char>, b: Seq<char>) -> bool
    decreases a.len(),
{
    if a.len() == 0 {
        true
    } else if b.len() == 0 {
        false
    } else if (a[0] as int) < (b[0] as int) {
        true
    } else if (a[0] as int) > (b[0] as int) {
        false
    } else {
        lex_le(a.drop_first(), b.drop_first())
    }
}

/// Whether `a` sorts no later than `b` under the given field and order.
pub open spec fn status_le(
    a: AppchainStatus,
    b: AppchainStatus,
    field: AppchainSortingField,
    order: SortingOrder,
) -> bool {
    match field {
        AppchainSortingField::AppchainId => match order {
            SortingOrder::Ascending => lex_le(a.appchain_id@, b.appchain_id@),
            SortingOrder::Descending => lex_le(b.appchain_id@, a.appchain_id@),
        },
        AppchainSortingField::VotingScore => match order {
            SortingOrder::Ascending => a.voting_score <= b.voting_score,
            SortingOrder::Descending => b.voting_score <= a.voting_score,
        },
        AppchainSortingField::RegisteredTime => match order {
            SortingOrder::Ascending => a.registered_time <= b.registered_time,
            SortingOrder::Descending => b.registered_time <= a.registered_time,
        },
    }
}

/// Stable insertion of `x` into `s`: `x` lands after every element that
/// sorts no later than it.
pub open spec fn insert_sorted(
    x: AppchainStatus,
    s: Seq<AppchainStatus>,
    field: AppchainSortingField,
    order: SortingOrder,
) -> Seq<AppchainStatus>
    decreases s.len(),
{
    if s.len() == 0 {
        seq![x]
    } else if status_le(s[0], x, field, order) {
        seq![s[0]] + insert_sorted(x, s.drop_first(), field, order)
    } else {
        seq![x] + s
    }
}

/// Stable sort of `s` under the given field and order: the elements are
/// inserted left to right, so equal keys keep their original relative order.
pub open spec fn sort_by_field(
    s: Seq<AppchainStatus>,
    field: AppchainSortingField,
    order: SortingOrder,
) -> Seq<AppchainStatus>
    decreases s.len(),
{
    if s.len() == 0 {
        Seq::<AppchainStatus>::empty()
    } else {
        insert_sorted(s.last(), sort_by_field(s.drop_last(), field, order), field, order)
    }
}

/// Every pair of the sequence is ordered under the given field and order.
pub open spec fn sorted_by_field(
    s: Seq<AppchainStatus>,
    field: AppchainSortingField,
    order: SortingOrder,
) -> bool {
    forall|i: int, j: int|
        0 <= i < j < s.len() ==> status_le(#[trigger] s[i], #[trigger] s[j], field, order)
}

proof fn lemma_lex_le_total(a: Seq<char>, b: Seq<char>)
    ensures
        lex_le(a, b) || lex_le(b, a),
    decreases a.len(),
{
    if a.len() > 0 && b.len() > 0 && a[0] as int == b[0] as int {
        lemma_lex_le_total(a.drop_first(), b.drop_first());
    }
}

proof fn lemma_lex_le_trans(a: Seq<char>, b: Seq<char>, c: Seq<char>)
    requires
        lex_le(a, b),
        lex_le(b, c),
    ensures
        lex_le(a, c),
    decreases a.len(),
{
    if a.len() > 0 {
        if a[0] as int == b[0] as int && b[0] as int == c[0] as int {
            lemma_lex_le_trans(a.drop_first(), b.drop_first(), c.drop_first());
        }
    }
}

/// Any two statuses are comparable: one of them sorts no later than the
/// other, whatever the field and order.
pub proof fn lemma_status_le_total(
    a: AppchainStatus,
    b: AppchainStatus,
    field: AppchainSortingField,
    order: SortingOrder,
)
    ensures
        status_le(a, b, field, order) || status_le(b, a, field, order),
{
    match field {
        AppchainSortingField::AppchainId => {
            lemma_lex_le_total(a.appchain_id@, b.appchain_id@);
        },
        AppchainSortingField::VotingScore => {},
        AppchainSortingField::RegisteredTime => {},
    }
}

/// The sort order is transitive, whatever the field and order.
pub proof fn lemma_status_le_trans(
    a: AppchainStatus,
    b: AppchainStatus,
    c: AppchainStatus,
    field: AppchainSortingField,
    order: SortingOrder,
)
    requires
        status_le(a, b, field, order),
        status_le(b, c, field, order),
    ensures
        status_le(a, c, field, order),
{
    match field {
        AppchainSortingField::AppchainId => {
            match order {
                SortingOrder::Ascending => {
                    lemma_lex_le_trans(a.appchain_id@, b.appchain_id@, c.appchain_id@);
                },
                SortingOrder::Descending => {
                    lemma_lex_le_trans(c.appchain_id@, b.appchain_id@, a.appchain_id@);
                },
            }
        },
        AppchainSortingField::VotingScore => {},
        AppchainSortingField::RegisteredTime => {},
    }
}

proof fn lemma_insert_sorted_multiset(
    x: AppchainStatus,
    s: Seq<AppchainStatus>,
    field: AppchainSortingField,
    order: SortingOrder,
)
    ensures
        insert_sorted(x, s, field, order).to_multiset() == s.to_multiset().insert(x),
    decreases s.len(),
{
    broadcast use vstd::seq_lib::group_to_multiset_ensures;

    let r = insert_sorted(x, s, field, order);
    if s.len() == 0 {
        assert(r =~= Seq::<AppchainStatus>::empty().push(x));
        assert(s =~= Seq::<AppchainStatus>::empty());
        assert(r.to_multiset() =~= s.to_multiset().insert(x));
    } else if status_le(s[0], x, field, order) {
        let t = insert_sorted(x, s.drop_first(), field, order);
        lemma_insert_sorted_multiset(x, s.drop_first(), field, order);
        vstd::seq_lib::lemma_multiset_commutative(seq![s[0]], t);
        vstd::seq_lib::lemma_multiset_commutative(seq![s[0]], s.drop_first());
        assert(s =~= seq![s[0]] + s.drop_first());
        assert(r.to_multiset() =~= s.to_multiset().insert(x));
    } else {
        vstd::seq_lib::lemma_multiset_commutative(seq![x], s);
        assert(r.to_multiset() =~= s.to_multiset().insert(x));
    }
}

proof fn lemma_insert_sorted_preserves_sorted(
    x: AppchainStatus,
    s: Seq<AppchainStatus>,
    field: AppchainSortingField,
    order: SortingOrder,
)
    requires
        sorted_by_field(s, field, order),
    ensures
        sorted_by_field(insert_sorted(x, s, field, order), field, order),
    decreases s.len(),
{
    broadcast use vstd::seq_lib::group_to_multiset_ensures;

    let r = insert_sorted(x, s, field, order);
    if s.len() == 0 {
    } else if status_le(s[0], x, field, order) {
        let d = s.drop_first();
        let t = insert_sorted(x, d, field, order);
        assert(forall|m: int| 0 <= m < d.len() ==> d[m] == s[m + 1]);
        lemma_insert_sorted_preserves_sorted(x, d, field, order);
        lemma_insert_sorted_multiset(x, d, field, order);
        assert forall|k: int| 0 <= k < t.len() implies status_le(s[0], t[k], field, order) by {
            assert(t.contains(t[k]));
            assert(t.to_multiset().count(t[k]) > 0);
            if t[k] == x {
            } else {
                assert(d.to_multiset().count(t[k]) > 0);
                assert(d.contains(t[k]));
                let m = choose|m: int| 0 <= m < d.len() && d[m] == t[k];
                assert(status_le(s[0], s[m + 1], field, order));
            }
        }
        assert forall|i: int, j: int| 0 <= i < j < r.len() implies status_le(
            r[i],
            r[j],
            field,
            order,
        ) by {
            if i == 0 {
                assert(r[j] == t[j - 1]);
            } else {
                assert(r[i] == t[i - 1] && r[j] == t[j - 1]);
            }
        }
    } else {
        lemma_status_le_total(x, s[0], field, order);
        assert forall|k: int| 0 <= k < s.len() implies status_le(x, s[k], field, order) by {
            if k > 0 {
                lemma_status_le_trans(x, s[0], s[k], field, order);
            }
        }
        assert forall|i: int, j: int| 0 <= i < j < r.len() implies status_le(
            r[i],
            r[j],
            field,
            order,
        ) by {
            if i == 0 {
                assert(r[j] == s[j - 1]);
            } else {
                assert(r[i] == s[i - 1] && r[j] == s[j - 1]);
            }
        }
    }
}

/// The sort orders every pair of its output.
pub proof fn lemma_sort_by_field_sorted(
    s: Seq<AppchainStatus>,
    field: AppchainSortingField,
    order: SortingOrder,
)
    ensures
        sorted_by_field(sort_by_field(s, field, order), field, order),
    decreases s.len(),
{
    if s.len() > 0 {
        lemma_sort_by_field_sorted(s.drop_last(), field, order);
        lemma_insert_sorted_preserves_sorted(
            s.last(),
            sort_by_field(s.drop_last(), field, order),
            field,
            order,
        );
    }
}

/// The sort is a permutation: it returns exactly the statuses it was given.
pub proof fn lemma_sort_by_field_permutes(
    s: Seq<AppchainStatus>,
    field: AppchainSortingField,
    order: SortingOrder,
)
    ensures
        sort_by_field(s, field, order).to_multiset() == s.to_multiset(),
    decreases s.len(),
{
    broadcast use vstd::seq_lib::group_to_multiset_ensures;

    if s.len() == 0 {
    } else {
        lemma_sort_by_field_permutes(s.drop_last(), field, order);
        lemma_insert_sorted_multiset(
            s.last(),
            sort_by_field(s.drop_last(), field, order),
            field,
            order,
        );
        assert(s =~= s.drop_last().push(s.last()));
        assert(s.to_multiset() =~= s.drop_last().to_multiset().insert(s.last()));
    }
}

/// The zero-indexed slice `[(page_number-1)*page_size, page_number*page_size)`
/// of `s`: empty when the slice begins past the end, partial when only part
/// of a page remains.
pub open spec fn page_of(s: Seq<AppchainStatus>, page_number: int, page_size: int) -> Seq<
    AppchainStatus,
>
    recommends
        page_number >= 1,
        page_size >= 1,
{
    let start = (page_number - 1) * page_size;
    if start >= s.len() {
        Seq::<AppchainStatus>::empty()
    } else if start + page_size >= s.len() {
        s.subrange(start, s.len() as int)
    } else {
        s.subrange(start, start + page_size)
    }
}

/// Pagination correctness: page `p` of size `s` over a sequence of length
/// `n` holds exactly `max(0, min(s, n - (p-1)*s))` items, and they are the
/// corresponding slice of the sequence.
pub proof fn lemma_page_of_len(q: Seq<AppchainStatus>, page_number: int, page_size: int)
    requires
        page_number >= 1,
        page_size >= 1,
    ensures
        ({
            let n = q.len() as int;
            let start = (page_number - 1) * page_size;
            let remaining = n - start;
            let expected = if remaining < 0 {
                0
            } else if page_size < remaining {
                page_size
            } else {
                remaining
            };
            page_of(q, page_number, page_size).len() == expected
        }),
        forall|k: int|
            0 <= k < page_of(q, page_number, page_size).len() ==> page_of(
                q,
                page_number,
                page_size,
            )[k] == q[(page_number - 1) * page_size + k],
{
    lemma_mul_nonnegative(page_number - 1, page_size);
}

/// Compare two strings lexicographically by code point.
pub fn lex_le_exec(a: &String, b: &String) -> (r: bool)
    ensures
        r == lex_le(a@, b@),
{
    let alen = a.as_str().unicode_len();
    let blen = b.as_str().unicode_len();
    let mut i: usize = 0;
    proof {
        assert(a@.skip(0) =~= a@);
        assert(b@.skip(0) =~= b@);
    }
    while i < alen && i < blen
        invariant
            alen == a@.len(),
            blen == b@.len(),
            i <= alen,
            i <= blen,
            lex_le(a@, b@) == lex_le(a@.skip(i as int), b@.skip(i as int)),
        decreases alen - i,
    {
        let ca = a.as_str().get_char(i);
        let cb = b.as_str().get_char(i);
        proof {
            assert(a@.skip(i as int)[0] == a@[i as int]);
            assert(b@.skip(i as int)[0] == b@[i as int]);
            assert(a@.skip(i as int).drop_first() =~= a@.skip(i as int + 1));
            assert(b@.skip(i as int).drop_first() =~= b@.skip(i as int + 1));
        }
        if (ca as u32) < (cb as u32) {
            return true;
        }
        if (ca as u32) > (cb as u32) {
            return false;
        }
        i = i + 1;
    }
    proof {
        if i == alen {
            assert(a@.skip(i as int).len() == 0);
        } else {
            assert(b@.skip(i as int).len() == 0);
            assert(a@.skip(i as int).len() > 0);
        }
    }
    alen <= blen
}

/// Compare two statuses under the given field and order.
pub fn status_le_exec(
    a: &AppchainStatus,
    b: &AppchainStatus,
    field: AppchainSortingField,
    order: SortingOrder,
) -> (r: bool)
    ensures
        r == status_le(*a, *b, field, order),
{
    match field {
        AppchainSortingField::AppchainId => match order {
            SortingOrder::Ascending => lex_le_exec(&a.appchain_id, &b.appchain_id),
            SortingOrder::Descending => lex_le_exec(&b.appchain_id, &a.appchain_id),
        },
        AppchainSortingField::VotingScore => match order {
            SortingOrder::Ascending => a.voting_score <= b.voting_score,
            SortingOrder::Descending => b.voting_score <= a.voting_score,
        },
        AppchainSortingField::RegisteredTime => match order {
            SortingOrder::Ascending => a.registered_time <= b.registered_time,
            SortingOrder::Descending => b.registered_time <= a.registered_time,
        },
    }
}

/// Inserting at the first position whose element sorts later than `x` is
/// exactly the stable insertion.
proof fn lemma_insert_sorted_position(
    s: Seq<AppchainStatus>,
    x: AppchainStatus,
    j: int,
    field: AppchainSortingField,
    order: SortingOrder,
)
    requires
        0 <= j <= s.len(),
        forall|k: int| 0 <= k < j ==> status_le(#[trigger] s[k], x, field, order),
        j < s.len() ==> !status_le(s[j], x, field, order),
    ensures
        insert_sorted(x, s, field, order) == s.insert(j, x),
    decreases s.len(),
{
    if s.len() == 0 {
        assert(insert_sorted(x, s, field, order) =~= s.insert(0, x));
    } else if j == 0 {
        assert(!status_le(s[0], x, field, order));
        assert(insert_sorted(x, s, field, order) =~= s.insert(0, x));
    } else {
        assert(status_le(s[0], x, field, order));
        assert(forall|k: int|
            0 <= k < j - 1 ==> s.drop_first()[k] == s[k + 1]);
        lemma_insert_sorted_position(s.drop_first(), x, j - 1, field, order);
        assert(insert_sorted(x, s, field, order) == seq![s[0]] + s.drop_first().insert(j - 1, x));
        assert(seq![s[0]] + s.drop_first().insert(j - 1, x) =~= s.insert(j, x));
    }
}

/// The position where a stable insertion of `x` into `v` lands: past every
/// element that sorts no later than `x`.
fn insert_position(
    v: &Vec<AppchainStatus>,
    x: &AppchainStatus,
    field: AppchainSortingField,
    order: SortingOrder,
) -> (r: usize)
    ensures
        r <= v@.len(),
        forall|k: int| 0 <= k < r ==> status_le(#[trigger] v@[k], *x, field, order),
        r < v@.len() ==> !status_le(v@[r as int], *x, field, order),
{
    let n = v.len();
    let mut j: usize = 0;
    while j < n
        invariant
            n == v@.len(),
            j <= n,
            forall|k: int| 0 <= k < j ==> status_le(#[trigger] v@[k], *x, field, order),
        decreases n - j,
    {
        if !status_le_exec(&v[j], x, field, order) {
            return j;
        }
        j = j + 1;
    }
    n
}

/// Stable sort of the given statuses under the given field and order.
pub fn sort_statuses(
    v: &Vec<AppchainStatus>,
    field: AppchainSortingField,
    order: SortingOrder,
) -> (r: Vec<AppchainStatus>)
    ensures
        r@ == sort_by_field(v@, field, order),
{
    let n = v.len();
    let mut out: Vec<AppchainStatus> = Vec::new();
    let mut i: usize = 0;
    while i < n
        invariant
            n == v@.len(),
            i <= n,
            out@ == sort_by_field(v@.take(i as int), field, order),
        decreases n - i,
    {
        let x = v[i].clone();
        let ghost pre_out = out@;
        let j = insert_position(&out, &x, field, order);
        out.insert(j, x);
        proof {
            lemma_insert_sorted_position(pre_out, x, j as int, field, order);
            assert(v@.take(i as int + 1).drop_last() =~= v@.take(i as int));
            assert(v@.take(i as int + 1).last() == v@[i as int]);
        }
        i = i + 1;
    }
    proof {
        assert(v@.take(n as int) =~= v@);
    }
    out
}

} // verus!
