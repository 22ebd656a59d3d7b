//! The registry store: canonical ordering of entries, merge-by-name
//! reconciliation, and the guarantees the saved registry enjoys.
//!
//! On every save the entries are sorted by `name`; when freshly updated
//! entries are folded back into the loaded set, the updated copies are
//! concatenated ahead of the stale ones and the combined sequence is
//! deduplicated by `name`, keeping the first occurrence, so the updated
//! copy of a name always wins.

use vstd::prelude::*;
use crate::model::SubtreeConfig;
use crate::model::GitStuConfig;
use crate::order::lex_lt;
use crate::order::lex_leq;
use crate::order::str_lt;

verus! {

/// Does some entry of `s` carry the name `n`?
pub open spec fn has_name(s: Seq<SubtreeConfig>, n: Seq<char>) -> bool {
    exists|i: int| 0 <= i < s.len() && #[trigger] s[i].name@ == n
}

/// No two entries of `s` share a name.
pub open spec fn unique_names(s: Seq<SubtreeConfig>) -> bool {
    forall|i: int, j: int|
        0 <= i < j < s.len() ==> #[trigger] s[i].name@ != #[trigger] s[j].name@
}

/// The entries of `s` are in ascending name order.
pub open spec fn sorted_by_name(s: Seq<SubtreeConfig>) -> bool {
    forall|i: int, j: int|
        0 <= i < j < s.len() ==> lex_leq(#[trigger] s[i].name@, #[trigger] s[j].name@)
}

/// The first entry of `s` named `n`.
pub open spec fn first_named(s: Seq<SubtreeConfig>, n: Seq<char>) -> SubtreeConfig
    decreases s.len(),
{
    if s.len() == 0 {
        arbitrary()
    } else if s[0].name@ == n {
        s[0]
    } else {
        first_named(s.drop_first(), n)
    }
}

/// `e` placed into `s` directly before the first entry whose name is
/// strictly greater; entries with equal names keep their position ahead
/// of `e`.
pub open spec fn insert_sorted(s: Seq<SubtreeConfig>, e: SubtreeConfig) -> Seq<SubtreeConfig>
    decreases s.len(),
{
    if s.len() == 0 {
        seq![e]
    } else if lex_lt(e.name@, s[0].name@) {
        seq![e] + s
    } else {
        seq![s[0]] + insert_sorted(s.drop_first(), e)
    }
}

/// Insertion sort of `s` by entry name.
pub open spec fn sort_by_name(s: Seq<SubtreeConfig>) -> Seq<SubtreeConfig>
    decreases s.len(),
{
    if s.len() == 0 {
        s
    } else {
        insert_sorted(sort_by_name(s.drop_last()), s.last())
    }
}

/// `s` with every entry whose name already occurred earlier removed:
/// the first occurrence of each name survives, in its original position
/// relative to the other survivors.
pub open spec fn dedup_by_name(s: Seq<SubtreeConfig>) -> Seq<SubtreeConfig>
    decreases s.len(),
{
    if s.len() == 0 {
        s
    } else {
        let rest = dedup_by_name(s.drop_last());
        if has_name(rest, s.last().name@) {
            rest
        } else {
            rest.push(s.last())
        }
    }
}

/// Does `v` hold an entry named `name`?
pub fn contains_name(v: &Vec<SubtreeConfig>, name: &String) -> (r: bool)
    ensures
        r == has_name(v@, name@),
{
    let mut i: usize = 0;
    while i < v.len()
        invariant
            i <= v@.len(),
            forall|j: int| 0 <= j < i ==> #[trigger] v@[j].name@ != name@,
        decreases v@.len() - i,
    {
        if v[i].name == *name {
            return true;
        }
        i = i + 1;
    }
    false
}

/// Places `e` into the name-sorted vector `v`, keeping it sorted.
fn insert_entry(v: &mut Vec<SubtreeConfig>, e: SubtreeConfig)
    ensures
        final(v)@ == insert_sorted(old(v)@, e),
{
    let ghost orig = v@;
    let mut i: usize = 0;
    proof {
        assert(orig.skip(0) =~= orig);
    }
    while i < v.len()
        invariant
            i <= v@.len(),
            v@ == orig,
            orig == old(v)@,
            insert_sorted(orig, e) == orig.take(i as int) + insert_sorted(
                orig.skip(i as int),
                e,
            ),
        decreases v@.len() - i,
    {
        if str_lt(e.name.as_str(), v[i].name.as_str()) {
            proof {
                assert(orig.skip(i as int)[0] == orig[i as int]);
                assert(insert_sorted(orig.skip(i as int), e) == seq![e] + orig.skip(i as int));
                assert(insert_sorted(orig, e) =~= orig.insert(i as int, e));
            }
            v.insert(i, e);
            return ;
        }
        proof {
            assert(orig.skip(i as int)[0] == orig[i as int]);
            assert(orig.skip(i as int).drop_first() =~= orig.skip(i + 1));
            assert(insert_sorted(orig.skip(i as int), e) == seq![orig[i as int]] + insert_sorted(
                orig.skip(i + 1),
                e,
            ));
            assert(orig.take(i as int) + insert_sorted(orig.skip(i as int), e) =~= orig.take(
                i + 1,
            ) + insert_sorted(orig.skip(i + 1), e));
        }
        i = i + 1;
    }
    proof {
        assert(orig.skip(i as int).len() == 0);
        assert(insert_sorted(orig.skip(i as int), e) == seq![e]);
        assert(orig.take(i as int) + seq![e] =~= orig.push(e));
    }
    v.push(e);
}

/// Returns the entries of `v` in ascending name order.
pub fn sort_entries(v: Vec<SubtreeConfig>) -> (r: Vec<SubtreeConfig>)
    ensures
        r@ == sort_by_name(v@),
{
    let ghost orig = v@;
    let mut v = v;
    let mut out: Vec<SubtreeConfig> = Vec::new();
    let ghost mut i: int = 0;
    proof {
        assert(orig.take(0) =~= Seq::<SubtreeConfig>::empty());
        assert(orig.skip(0) =~= orig);
    }
    while v.len() > 0
        invariant
            0 <= i <= orig.len(),
            v@ == orig.skip(i),
            out@ == sort_by_name(orig.take(i)),
        decreases v@.len(),
    {
        let e = v.remove(0);
        proof {
            assert(e == orig[i]);
            assert(orig.skip(i).remove(0) =~= orig.skip(i + 1));
            assert(orig.take(i + 1).drop_last() =~= orig.take(i));
            assert(orig.take(i + 1).last() == orig[i]);
        }
        insert_entry(&mut out, e);
        proof {
            i = i + 1;
        }
    }
    proof {
        assert(orig.take(i) =~= orig);
    }
    out
}

/// Returns `v` with every entry whose name already occurred earlier
/// removed; the first occurrence of each name survives.
pub fn dedup_entries(v: Vec<SubtreeConfig>) -> (r: Vec<SubtreeConfig>)
    ensures
        r@ == dedup_by_name(v@),
{
    let ghost orig = v@;
    let mut v = v;
    let mut out: Vec<SubtreeConfig> = Vec::new();
    let ghost mut i: int = 0;
    proof {
        assert(orig.take(0) =~= Seq::<SubtreeConfig>::empty());
        assert(orig.skip(0) =~= orig);
    }
    while v.len() > 0
        invariant
            0 <= i <= orig.len(),
            v@ == orig.skip(i),
            out@ == dedup_by_name(orig.take(i)),
        decreases v@.len(),
    {
        let e = v.remove(0);
        proof {
            assert(e == orig[i]);
            assert(orig.skip(i).remove(0) =~= orig.skip(i + 1));
            assert(orig.take(i + 1).drop_last() =~= orig.take(i));
            assert(orig.take(i + 1).last() == orig[i]);
        }
        if !contains_name(&out, &e.name) {
            out.push(e);
        }
        proof {
            i = i + 1;
        }
    }
    proof {
        assert(orig.take(i) =~= orig);
    }
    out
}

/// Folds freshly updated entries back into the previously loaded ones:
/// `updated` goes ahead of `existing`, and of two entries with the same
/// name the earlier one — the updated copy — wins.
pub fn merge_entries(updated: Vec<SubtreeConfig>, existing: Vec<SubtreeConfig>) -> (r: Vec<
    SubtreeConfig,
>)
    ensures
        r@ == dedup_by_name(updated@ + existing@),
{
    let mut all = updated;
    let mut rest = existing;
    all.append(&mut rest);
    dedup_entries(all)
}

proof fn lemma_insert_sorted_multiset(s: Seq<SubtreeConfig>, e: SubtreeConfig)
    ensures
        insert_sorted(s, e).to_multiset() == s.to_multiset().insert(e),
    decreases s.len(),
{
    broadcast use vstd::seq_lib::group_to_multiset_ensures;
    broadcast use vstd::multiset::group_multiset_axioms;

    if s.len() == 0 {
        assert(seq![e] =~= s.push(e));
    } else if lex_lt(e.name@, s[0].name@) {
        vstd::seq_lib::lemma_multiset_commutative(seq![e], s);
        assert(seq![e] =~= Seq::<SubtreeConfig>::empty().push(e));
        assert(insert_sorted(s, e).to_multiset() =~= s.to_multiset().insert(e));
    } else {
        let rest = s.drop_first();
        lemma_insert_sorted_multiset(rest, e);
        vstd::seq_lib::lemma_multiset_commutative(seq![s[0]], insert_sorted(rest, e));
        vstd::seq_lib::lemma_multiset_commutative(seq![s[0]], rest);
        assert(seq![s[0]] =~= Seq::<SubtreeConfig>::empty().push(s[0]));
        assert(s =~= seq![s[0]] + rest);
        assert(insert_sorted(s, e).to_multiset() =~= s.to_multiset().insert(e));
    }
}

proof fn lemma_insert_sorted_membership(s: Seq<SubtreeConfig>, e: SubtreeConfig)
    ensures
        forall|k: int|
            0 <= k < insert_sorted(s, e).len() ==> #[trigger] insert_sorted(s, e)[k] == e
                || s.contains(insert_sorted(s, e)[k]),
        insert_sorted(s, e).len() == s.len() + 1,
    decreases s.len(),
{
    if s.len() == 0 {
    } else if lex_lt(e.name@, s[0].name@) {
    } else {
        let rest = s.drop_first();
        lemma_insert_sorted_membership(rest, e);
        assert forall|k: int|
            0 <= k < insert_sorted(s, e).len() implies #[trigger] insert_sorted(s, e)[k] == e
            || s.contains(insert_sorted(s, e)[k]) by {
            if k > 0 {
                let t = insert_sorted(rest, e);
                assert(insert_sorted(s, e)[k] == t[k - 1]);
                if t[k - 1] != e {
                    let j = choose|j: int| 0 <= j < rest.len() && rest[j] == t[k - 1];
                    assert(s[j + 1] == rest[j]);
                }
            }
        }
    }
}

proof fn lemma_insert_sorted_sorted(s: Seq<SubtreeConfig>, e: SubtreeConfig)
    requires
        sorted_by_name(s),
    ensures
        sorted_by_name(insert_sorted(s, e)),
    decreases s.len(),
{
    if s.len() == 0 {
    } else if lex_lt(e.name@, s[0].name@) {
        let t = seq![e] + s;
        assert forall|i: int, j: int| 0 <= i < j < t.len() implies lex_leq(
            #[trigger] t[i].name@,
            #[trigger] t[j].name@,
        ) by {
            if i == 0 {
                if j == 1 {
                    crate::order::lemma_lex_lt_implies_leq(e.name@, s[0].name@);
                } else {
                    crate::order::lemma_lex_lt_leq_trans(e.name@, s[0].name@, s[j - 1].name@);
                }
            } else {
                assert(t[i] == s[i - 1] && t[j] == s[j - 1]);
            }
        }
    } else {
        let rest = s.drop_first();
        assert forall|i: int, j: int| 0 <= i < j < rest.len() implies lex_leq(
            #[trigger] rest[i].name@,
            #[trigger] rest[j].name@,
        ) by {
            assert(rest[i] == s[i + 1] && rest[j] == s[j + 1]);
        }
        lemma_insert_sorted_sorted(rest, e);
        lemma_insert_sorted_membership(rest, e);
        let t = insert_sorted(rest, e);
        let u = seq![s[0]] + t;
        assert forall|i: int, j: int| 0 <= i < j < u.len() implies lex_leq(
            #[trigger] u[i].name@,
            #[trigger] u[j].name@,
        ) by {
            if i == 0 {
                assert(u[j] == t[j - 1]);
                if t[j - 1] == e {
                    assert(lex_leq(s[0].name@, e.name@));
                } else {
                    let k = choose|k: int| 0 <= k < rest.len() && rest[k] == t[j - 1];
                    assert(s[k + 1] == rest[k]);
                    assert(lex_leq(s[0].name@, s[k + 1].name@));
                }
            } else {
                assert(u[i] == t[i - 1] && u[j] == t[j - 1]);
            }
        }
    }
}

proof fn lemma_insert_sorted_append(s: Seq<SubtreeConfig>, e: SubtreeConfig)
    requires
        forall|k: int| 0 <= k < s.len() ==> lex_leq(#[trigger] s[k].name@, e.name@),
    ensures
        insert_sorted(s, e) == s.push(e),
    decreases s.len(),
{
    if s.len() == 0 {
        assert(seq![e] =~= s.push(e));
    } else {
        assert(lex_leq(s[0].name@, e.name@));
        assert(!lex_lt(e.name@, s[0].name@));
        let rest = s.drop_first();
        assert forall|k: int| 0 <= k < rest.len() implies lex_leq(
            #[trigger] rest[k].name@,
            e.name@,
        ) by {
            assert(rest[k] == s[k + 1]);
        }
        lemma_insert_sorted_append(rest, e);
        assert(insert_sorted(s, e) =~= s.push(e));
    }
}

/// The canonical save order really is sorted by name.
pub proof fn lemma_sort_sorted(s: Seq<SubtreeConfig>)
    ensures
        sorted_by_name(sort_by_name(s)),
    decreases s.len(),
{
    if s.len() > 0 {
        lemma_sort_sorted(s.drop_last());
        lemma_insert_sorted_sorted(sort_by_name(s.drop_last()), s.last());
    }
}

/// Sorting rearranges the entries and does nothing else: the multiset of
/// entries is unchanged.
pub proof fn lemma_sort_preserves_entries(s: Seq<SubtreeConfig>)
    ensures
        sort_by_name(s).to_multiset() == s.to_multiset(),
    decreases s.len(),
{
    broadcast use vstd::seq_lib::group_to_multiset_ensures;

    if s.len() > 0 {
        lemma_sort_preserves_entries(s.drop_last());
        lemma_insert_sorted_multiset(sort_by_name(s.drop_last()), s.last());
        assert(s =~= s.drop_last().push(s.last()));
        assert(s.drop_last().push(s.last()).to_multiset() =~= s.drop_last().to_multiset().insert(
            s.last(),
        ));
    }
}

/// A registry whose entries are already in canonical order is left exactly
/// as it is.
pub proof fn lemma_sort_of_sorted_identity(s: Seq<SubtreeConfig>)
    requires
        sorted_by_name(s),
    ensures
        sort_by_name(s) == s,
    decreases s.len(),
{
    if s.len() > 0 {
        let front = s.drop_last();
        assert forall|i: int, j: int| 0 <= i < j < front.len() implies lex_leq(
            #[trigger] front[i].name@,
            #[trigger] front[j].name@,
        ) by {
            assert(front[i] == s[i] && front[j] == s[j]);
        }
        lemma_sort_of_sorted_identity(front);
        assert forall|k: int| 0 <= k < front.len() implies lex_leq(
            #[trigger] front[k].name@,
            s.last().name@,
        ) by {
            assert(front[k] == s[k]);
        }
        lemma_insert_sorted_append(front, s.last());
        assert(front.push(s.last()) =~= s);
    }
}

/// Saving is deterministic: sorting what a save already sorted changes
/// nothing, so two consecutive saves of the same registry write the same
/// entry sequence.
pub proof fn lemma_sort_idempotent(s: Seq<SubtreeConfig>)
    ensures
        sort_by_name(sort_by_name(s)) == sort_by_name(s),
{
    lemma_sort_sorted(s);
    lemma_sort_of_sorted_identity(sort_by_name(s));
}

/// The entry at the first index carrying a name is [`first_named`].
pub proof fn lemma_first_named_at(s: Seq<SubtreeConfig>, n: Seq<char>, i: int)
    requires
        0 <= i < s.len(),
        s[i].name@ == n,
        forall|j: int| 0 <= j < i ==> #[trigger] s[j].name@ != n,
    ensures
        first_named(s, n) == s[i],
    decreases i,
{
    if i > 0 {
        assert(s[0].name@ != n);
        assert forall|j: int| 0 <= j < i - 1 implies #[trigger] s.drop_first()[j].name@ != n by {
            assert(s.drop_first()[j] == s[j + 1]);
        }
        assert(s.drop_first()[i - 1] == s[i]);
        lemma_first_named_at(s.drop_first(), n, i - 1);
    }
}

/// Deduplication never drops a name and never invents one.
pub proof fn lemma_dedup_has_name(s: Seq<SubtreeConfig>, n: Seq<char>)
    ensures
        has_name(dedup_by_name(s), n) == has_name(s, n),
    decreases s.len(),
{
    if s.len() > 0 {
        let front = s.drop_last();
        lemma_dedup_has_name(front, n);
        assert(has_name(s, n) == (has_name(front, n) || s.last().name@ == n)) by {
            if has_name(front, n) {
                let i = choose|i: int| 0 <= i < front.len() && #[trigger] front[i].name@ == n;
                assert(s[i].name@ == n);
            }
            if has_name(s, n) {
                let i = choose|i: int| 0 <= i < s.len() && #[trigger] s[i].name@ == n;
                if i < front.len() {
                    assert(front[i].name@ == n);
                }
            }
        }
        let rest = dedup_by_name(front);
        if !has_name(rest, s.last().name@) {
            assert forall|m: Seq<char>| true implies #[trigger] has_name(rest.push(s.last()), m)
                == (has_name(rest, m) || s.last().name@ == m) by {
                if has_name(rest, m) {
                    let i = choose|i: int| 0 <= i < rest.len() && #[trigger] rest[i].name@ == m;
                    assert(rest.push(s.last())[i].name@ == m);
                }
                if s.last().name@ == m {
                    assert(rest.push(s.last())[rest.len() as int].name@ == m);
                }
                if has_name(rest.push(s.last()), m) {
                    let i = choose|i: int|
                        0 <= i < rest.push(s.last()).len() && #[trigger] rest.push(
                            s.last(),
                        )[i].name@ == m;
                    if i < rest.len() {
                        assert(rest[i].name@ == m);
                    }
                }
            }
        }
    }
}

/// After deduplication no two entries share a name.
pub proof fn lemma_dedup_unique(s: Seq<SubtreeConfig>)
    ensures
        unique_names(dedup_by_name(s)),
    decreases s.len(),
{
    if s.len() > 0 {
        let front = s.drop_last();
        lemma_dedup_unique(front);
        let rest = dedup_by_name(front);
        if !has_name(rest, s.last().name@) {
            let t = rest.push(s.last());
            assert forall|i: int, j: int| 0 <= i < j < t.len() implies #[trigger] t[i].name@
                != #[trigger] t[j].name@ by {
                if j == rest.len() {
                    assert(t[i] == rest[i]);
                    if t[i].name@ == s.last().name@ {
                        assert(has_name(rest, s.last().name@));
                    }
                } else {
                    assert(t[i] == rest[i] && t[j] == rest[j]);
                }
            }
        }
    }
}

proof fn lemma_first_named_push(s: Seq<SubtreeConfig>, x: SubtreeConfig, n: Seq<char>)
    ensures
        has_name(s, n) ==> first_named(s.push(x), n) == first_named(s, n),
        !has_name(s, n) && x.name@ == n ==> first_named(s.push(x), n) == x,
    decreases s.len(),
{
    if s.len() == 0 {
        if x.name@ == n {
            assert(s.push(x)[0] == x);
        }
    } else {
        lemma_first_named_push(s.drop_first(), x, n);
        assert(s.push(x).drop_first() =~= s.drop_first().push(x));
        assert(s.push(x)[0] == s[0]);
        if s[0].name@ != n {
            assert(has_name(s, n) == has_name(s.drop_first(), n)) by {
                if has_name(s, n) {
                    let i = choose|i: int| 0 <= i < s.len() && #[trigger] s[i].name@ == n;
                    assert(s.drop_first()[i - 1].name@ == n);
                }
                if has_name(s.drop_first(), n) {
                    let i = choose|i: int|
                        0 <= i < s.drop_first().len() && #[trigger] s.drop_first()[i].name@ == n;
                    assert(s[i + 1].name@ == n);
                }
            }
        } else {
            assert(has_name(s, n));
        }
    }
}

/// Every entry that survives deduplication is the first occurrence of its
/// name in the input.
pub proof fn lemma_dedup_first_occurrences(s: Seq<SubtreeConfig>)
    ensures
        forall|i: int|
            0 <= i < dedup_by_name(s).len() ==> has_name(s, #[trigger] dedup_by_name(s)[i].name@)
                && dedup_by_name(s)[i] == first_named(s, dedup_by_name(s)[i].name@),
    decreases s.len(),
{
    if s.len() > 0 {
        let front = s.drop_last();
        lemma_dedup_first_occurrences(front);
        lemma_dedup_has_name(front, s.last().name@);
        let rest = dedup_by_name(front);
        let d = dedup_by_name(s);
        assert(front.push(s.last()) =~= s);
        assert forall|i: int| 0 <= i < d.len() implies has_name(s, #[trigger] d[i].name@) && d[i]
            == first_named(s, d[i].name@) by {
            if i < rest.len() {
                assert(d[i] == rest[i]);
                assert(has_name(front, rest[i].name@));
                lemma_first_named_push(front, s.last(), rest[i].name@);
                let j = choose|j: int| 0 <= j < front.len() && #[trigger] front[j].name@ == rest[i].name@;
                assert(s[j].name@ == rest[i].name@);
            } else {
                assert(d[i] == s.last());
                assert(!has_name(front, s.last().name@));
                lemma_first_named_push(front, s.last(), s.last().name@);
                assert(s[s.len() - 1].name@ == d[i].name@);
            }
        }
    }
}

proof fn lemma_first_named_concat_left(
    u: Seq<SubtreeConfig>,
    e: Seq<SubtreeConfig>,
    n: Seq<char>,
)
    requires
        has_name(u, n),
    ensures
        has_name(u + e, n),
        first_named(u + e, n) == first_named(u, n),
    decreases u.len(),
{
    let i = choose|i: int| 0 <= i < u.len() && #[trigger] u[i].name@ == n;
    assert((u + e)[i].name@ == n);
    if u.len() > 0 {
        if u[0].name@ == n {
            assert((u + e)[0] == u[0]);
        } else {
            assert(has_name(u.drop_first(), n)) by {
                assert(u.drop_first()[i - 1].name@ == n);
            }
            lemma_first_named_concat_left(u.drop_first(), e, n);
            assert((u + e).drop_first() =~= u.drop_first() + e);
            assert((u + e)[0] == u[0]);
        }
    }
}

/// A permutation of a registry with pairwise distinct names again has
/// pairwise distinct names.
pub proof fn lemma_unique_names_preserved(s: Seq<SubtreeConfig>, t: Seq<SubtreeConfig>)
    requires
        unique_names(s),
        t.to_multiset() == s.to_multiset(),
    ensures
        unique_names(t),
{
    broadcast use vstd::seq_lib::group_to_multiset_ensures;

    assert(s.no_duplicates()) by {
        assert forall|i: int, j: int|
            0 <= i < s.len() && 0 <= j < s.len() && i != j implies s[i] != s[j] by {
            if i < j {
                assert(s[i].name@ != s[j].name@);
            } else {
                assert(s[j].name@ != s[i].name@);
            }
        }
    }
    s.lemma_multiset_has_no_duplicates();
    t.lemma_multiset_has_no_duplicates_conv();
    assert forall|i: int, j: int| 0 <= i < j < t.len() implies #[trigger] t[i].name@
        != #[trigger] t[j].name@ by {
        if t[i].name@ == t[j].name@ {
            assert(t[i] != t[j]);
            assert(t.to_multiset().contains(t[i]));
            assert(t.to_multiset().contains(t[j]));
            assert(s.contains(t[i]));
            assert(s.contains(t[j]));
            let k1 = choose|k: int| 0 <= k < s.len() && s[k] == t[i];
            let k2 = choose|k: int| 0 <= k < s.len() && s[k] == t[j];
            if k1 < k2 {
                assert(s[k1].name@ != s[k2].name@);
            } else {
                assert(s[k2].name@ != s[k1].name@);
            }
        }
    }
}

/// Merging updated entries ahead of the loaded ones yields a registry in
/// which no name occurs twice, every name of either input survives, and
/// for each name the first copy in `updated ++ existing` — the freshly
/// updated one whenever the name was updated at all — is the copy kept.
pub proof fn lemma_merge_unique(updated: Seq<SubtreeConfig>, existing: Seq<SubtreeConfig>)
    ensures
        unique_names(dedup_by_name(updated + existing)),
        forall|n: Seq<char>|
            has_name(dedup_by_name(updated + existing), n) == (has_name(updated, n) || has_name(
                existing,
                n,
            )),
        forall|n: Seq<char>|
            #[trigger] has_name(updated, n) ==> dedup_by_name(updated + existing).contains(
                first_named(updated, n),
            ),
{
    let all = updated + existing;
    lemma_dedup_unique(all);
    lemma_dedup_first_occurrences(all);
    assert forall|n: Seq<char>| true implies #[trigger] has_name(dedup_by_name(all), n) == (
    has_name(updated, n) || has_name(existing, n)) by {
        lemma_dedup_has_name(all, n);
        assert(has_name(all, n) == (has_name(updated, n) || has_name(existing, n))) by {
            if has_name(updated, n) {
                let i = choose|i: int| 0 <= i < updated.len() && #[trigger] updated[i].name@ == n;
                assert(all[i].name@ == n);
            }
            if has_name(existing, n) {
                let i = choose|i: int| 0 <= i < existing.len() && #[trigger] existing[i].name@ == n;
                assert(all[updated.len() + i].name@ == n);
            }
            if has_name(all, n) {
                let i = choose|i: int| 0 <= i < all.len() && #[trigger] all[i].name@ == n;
                if i < updated.len() {
                    assert(updated[i].name@ == n);
                } else {
                    assert(existing[i - updated.len()].name@ == n);
                }
            }
        }
    }
    assert forall|n: Seq<char>| #[trigger] has_name(updated, n) implies dedup_by_name(
        all,
    ).contains(first_named(updated, n)) by {
        lemma_first_named_concat_left(updated, existing, n);
        lemma_dedup_has_name(all, n);
        let d = dedup_by_name(all);
        let i = choose|i: int| 0 <= i < d.len() && #[trigger] d[i].name@ == n;
        assert(d[i] == first_named(all, n));
    }
}

/// What actually reaches the file after a run — the merged entries in
/// canonical save order — never holds two entries with the same name.
pub proof fn lemma_saved_registry_unique(updated: Seq<SubtreeConfig>, existing: Seq<SubtreeConfig>)
    ensures
        unique_names(sort_by_name(dedup_by_name(updated + existing))),
{
    lemma_merge_unique(updated, existing);
    lemma_sort_preserves_entries(dedup_by_name(updated + existing));
    lemma_unique_names_preserved(
        dedup_by_name(updated + existing),
        sort_by_name(dedup_by_name(updated + existing)),
    );
}

/// The registry as it is written out: same options, entries sorted by name.
pub fn prepare_for_save(config: GitStuConfig) -> (r: GitStuConfig)
    ensures
        r.subtrees@ == sort_by_name(config.subtrees@),
        sorted_by_name(r.subtrees@),
        r.mode == config.mode,
        r.squash == config.squash,
{
    proof {
        lemma_sort_sorted(config.subtrees@);
    }
    let GitStuConfig { squash, mode, subtrees } = config;
    GitStuConfig { squash, mode, subtrees: sort_entries(subtrees) }
}

} // verus!
