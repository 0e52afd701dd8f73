//! Spelling suggestions from the PanLex dictionary: turning database rows
//! into suggestions and keeping only the plausible, popular ones.
use vstd::prelude::*;
use vstd::multiset::Multiset;
use vstd::relations::{sorted_by, total_ordering};
use vstd::seq_lib::lemma_sorted_unique;

verus! {

/// A word found by the spelling index, with its edit distance from the query
/// and the number of dictionary senses (denotations) it has.
#[derive(Clone, Debug, PartialEq, Eq)]
pub struct SqlSuggestion {
    pub text: String,
    pub distance: i32,
    pub denotation_count: i32,
}

/// Largest edit distance of a suggestion that is kept.
pub const MAX_DISTANCE: i32 = 100;

/// Ascending order on denotation counts.
pub open spec fn count_leq() -> spec_fn(i32, i32) -> bool {
    |a: i32, b: i32| a <= b
}

/// The denotation counts of a list of suggestions, in list order.
pub open spec fn denotation_counts(s: Seq<SqlSuggestion>) -> Seq<i32> {
    s.map_values(|x: SqlSuggestion| x.denotation_count)
}

/// The middle denotation count (index `len / 2` of the counts in ascending
/// order); meaningful for a non-empty list.
pub open spec fn center_threshold(s: Seq<SqlSuggestion>) -> i32 {
    denotation_counts(s).sort_by(count_leq())[(s.len() / 2) as int]
}

/// Five percent of a reference count, rounded toward zero.
pub open spec fn percent_threshold(reference: i32) -> int {
    if reference >= 0 {
        reference / 20
    } else {
        -((-reference) / 20)
    }
}

/// A suggestion reaches both popularity thresholds.
pub open spec fn is_popular_enough(pct: int, center: i32) -> spec_fn(SqlSuggestion) -> bool {
    |x: SqlSuggestion| pct <= x.denotation_count && center <= x.denotation_count
}

/// A suggestion is close enough to the query to be shown.
pub open spec fn is_close_enough() -> spec_fn(SqlSuggestion) -> bool {
    |x: SqlSuggestion| x.distance <= MAX_DISTANCE
}

/// Inserts `x` into a list ordered by descending denotation count, after
/// every entry whose count is at least that of `x`.
pub open spec fn insert_by_popularity(sorted: Seq<SqlSuggestion>, x: SqlSuggestion) -> Seq<
    SqlSuggestion,
>
    decreases sorted.len(),
{
    if sorted.len() == 0 {
        seq![x]
    } else if sorted[0].denotation_count >= x.denotation_count {
        seq![sorted[0]] + insert_by_popularity(sorted.drop_first(), x)
    } else {
        seq![x] + sorted
    }
}

/// The list ordered by descending denotation count; entries with equal
/// counts keep their order (a stable sort).
pub open spec fn by_popularity(s: Seq<SqlSuggestion>) -> Seq<SqlSuggestion>
    decreases s.len(),
{
    if s.len() == 0 {
        s
    } else {
        insert_by_popularity(by_popularity(s.drop_last()), s.last())
    }
}

/// The suggestions that are shown for a list ordered best match first: the
/// best match, then the other matches whose denotation count reaches both the
/// middle count of all matches and five percent of the best match's count,
/// most popular first; and of these only the ones within the edit distance
/// limit.
pub open spec fn filter_suggestions_spec(s: Seq<SqlSuggestion>) -> Seq<SqlSuggestion> {
    if s.len() == 0 {
        s
    } else {
        let first = s[0];
        let kept = s.drop_first().filter(
            is_popular_enough(percent_threshold(first.denotation_count), center_threshold(s)),
        );
        (seq![first] + by_popularity(kept)).filter(is_close_enough())
    }
}

/// `count_leq` is a total order.
pub proof fn lemma_count_leq_total()
    ensures
        total_ordering(count_leq()),
{
    let r = count_leq();
    assert(vstd::relations::reflexive(r));
    assert(vstd::relations::antisymmetric(r));
    assert(vstd::relations::transitive(r));
    assert(vstd::relations::strongly_connected(r));
}

/// The element in the middle of a list: index `len / 2`, or nothing for an
/// empty list.
pub fn center(v: &[i32]) -> (res: Option<i32>)
    ensures
        res == (if v@.len() == 0 {
            None::<i32>
        } else {
            Some(v@[(v@.len() / 2) as int])
        }),
{
    if v.len() == 0 {
        None
    } else {
        Some(v[v.len() / 2])
    }
}

/// The denotation counts of the suggestions in ascending order.
fn sorted_counts(s: &Vec<SqlSuggestion>) -> (res: Vec<i32>)
    ensures
        res@ == denotation_counts(s@).sort_by(count_leq()),
{
    let ghost counts = denotation_counts(s@);
    let mut out: Vec<i32> = Vec::new();
    let mut i: usize = 0;
    proof {
        assert(counts.take(0) =~= Seq::<i32>::empty());
    }
    while i < s.len()
        invariant
            counts == denotation_counts(s@),
            i <= s@.len(),
            sorted_by(out@, count_leq()),
            out@.to_multiset() == counts.take(i as int).to_multiset(),
        decreases s@.len() - i,
    {
        let x: i32 = s[i].denotation_count;
        let mut p: usize = 0;
        while p < out.len() && out[p] <= x
            invariant
                p <= out@.len(),
                forall|j: int| 0 <= j < p ==> out@[j] <= x,
            decreases out@.len() - p,
        {
            p += 1;
        }
        let ghost before = out@;
        out.insert(p, x);
        proof {
            broadcast use vstd::seq_lib::group_to_multiset_ensures;
            assert(counts.take(i + 1) =~= counts.take(i as int).push(x));
            assert(out@.remove(p as int) =~= before);
            assert(out@[p as int] == x);
            assert(out@.to_multiset().remove(x) == before.to_multiset());
            assert(out@.to_multiset().count(x) > 0);
            assert(out@.to_multiset() =~= before.to_multiset().insert(x));
            assert forall|a: int, b: int| 0 <= a < b < out@.len() implies #[trigger] count_leq()(
                out@[a],
                out@[b],
            ) by {
                if p < before.len() {
                    assert(x < before[p as int]);
                }
                if a < p && b > p {
                    assert(out@[b] == before[b - 1]);
                    assert(count_leq()(before[a], before[b - 1]) || a == b - 1);
                } else if a > p {
                    assert(count_leq()(before[a - 1], before[b - 1]));
                } else if b < p {
                    assert(count_leq()(before[a], before[b]));
                } else if a == p && b > p {
                    assert(b - 1 == p || count_leq()(before[p as int], before[b - 1]));
                }
            }
        }
        i += 1;
    }
    proof {
        assert(counts.take(counts.len() as int) =~= counts);
        lemma_count_leq_total();
        counts.lemma_sort_by_ensures(count_leq());
        lemma_sorted_unique(out@, counts.sort_by(count_leq()), count_leq());
    }
    out
}

/// Inserting after the leading entries that are at least as popular is
/// inserting at the first position whose entry is less popular.
proof fn lemma_insert_by_popularity_at(sorted: Seq<SqlSuggestion>, x: SqlSuggestion, p: int)
    requires
        0 <= p <= sorted.len(),
        forall|j: int| 0 <= j < p ==> sorted[j].denotation_count >= x.denotation_count,
        p < sorted.len() ==> sorted[p].denotation_count < x.denotation_count,
    ensures
        insert_by_popularity(sorted, x) == sorted.insert(p, x),
    decreases sorted.len(),
{
    if sorted.len() == 0 {
        assert(sorted.insert(p, x) =~= seq![x]);
    } else if p == 0 {
        assert(sorted.insert(p, x) =~= seq![x] + sorted);
    } else {
        let tail = sorted.drop_first();
        lemma_insert_by_popularity_at(tail, x, p - 1);
        assert(seq![sorted[0]] + tail.insert(p - 1, x) =~= sorted.insert(p, x));
    }
}

/// Keeps the plausible suggestions of a list ordered best match first (see
/// `filter_suggestions_spec`).
pub fn filter_suggestions(suggestions: Vec<SqlSuggestion>) -> (res: Vec<SqlSuggestion>)
    ensures
        res@ == filter_suggestions_spec(suggestions@),
{
    let mut suggestions = suggestions;
    if suggestions.len() == 0 {
        return suggestions;
    }
    let ghost all = suggestions@;
    let counts = sorted_counts(&suggestions);
    proof {
        broadcast use vstd::seq_lib::group_to_multiset_ensures;
        lemma_count_leq_total();
        denotation_counts(all).lemma_sort_by_ensures(count_leq());
        assert(counts@.len() == denotation_counts(all).to_multiset().len());
    }
    let center_dc: i32 = center(counts.as_slice()).unwrap();
    let first = suggestions.remove(0);
    let ghost first_g = first;
    let ghost rest0 = suggestions@;
    proof {
        assert(rest0 =~= all.drop_first());
    }
    let reference: i64 = first.denotation_count as i64;
    let pct: i64 = if reference >= 0 {
        reference / 20
    } else {
        -((-reference) / 20)
    };
    let ghost pred = is_popular_enough(
        percent_threshold(first_g.denotation_count),
        center_threshold(all),
    );
    let mut kept: Vec<SqlSuggestion> = Vec::new();
    let ghost mut k: int = 0;
    proof {
        assert(rest0.skip(0) =~= rest0);
        assert(rest0.take(0) =~= Seq::<SqlSuggestion>::empty());
        reveal(Seq::filter);
    }
    while suggestions.len() > 0
        invariant
            0 <= k <= rest0.len(),
            suggestions@ == rest0.skip(k),
            kept@ == rest0.take(k).filter(pred),
            pct as int == percent_threshold(first_g.denotation_count),
            center_dc == center_threshold(all),
            pred == is_popular_enough(
                percent_threshold(first_g.denotation_count),
                center_threshold(all),
            ),
        decreases suggestions@.len(),
    {
        let x = suggestions.remove(0);
        proof {
            reveal(Seq::filter);
            assert(rest0.take(k + 1).drop_last() =~= rest0.take(k));
            assert(rest0.take(k + 1).last() == x);
            assert(rest0.skip(k).remove(0) =~= rest0.skip(k + 1));
        }
        if pct <= x.denotation_count as i64 && center_dc <= x.denotation_count {
            kept.push(x);
        }
        proof {
            k = k + 1;
        }
    }
    proof {
        assert(rest0.take(k) =~= rest0);
    }
    let ghost kept0 = kept@;
    let mut sorted: Vec<SqlSuggestion> = Vec::new();
    let ghost mut j: int = 0;
    proof {
        assert(kept0.skip(0) =~= kept0);
        assert(kept0.take(0) =~= Seq::<SqlSuggestion>::empty());
    }
    while kept.len() > 0
        invariant
            0 <= j <= kept0.len(),
            kept@ == kept0.skip(j),
            sorted@ == by_popularity(kept0.take(j)),
        decreases kept@.len(),
    {
        let x = kept.remove(0);
        let mut p: usize = 0;
        while p < sorted.len() && sorted[p].denotation_count >= x.denotation_count
            invariant
                p <= sorted@.len(),
                forall|q: int| 0 <= q < p ==> sorted@[q].denotation_count >= x.denotation_count,
            decreases sorted@.len() - p,
        {
            p += 1;
        }
        proof {
            lemma_insert_by_popularity_at(sorted@, x, p as int);
            let t = kept0.take(j + 1);
            assert(t.drop_last() =~= kept0.take(j));
            assert(t.last() == x);
            assert(kept0.skip(j).remove(0) =~= kept0.skip(j + 1));
        }
        sorted.insert(p, x);
        proof {
            j = j + 1;
        }
    }
    proof {
        assert(kept0.take(j) =~= kept0);
    }
    let ghost tail0 = sorted@;
    let ghost near = is_close_enough();
    let mut res: Vec<SqlSuggestion> = Vec::new();
    if first.distance <= MAX_DISTANCE {
        res.push(first);
    }
    proof {
        reveal(Seq::filter);
        assert(seq![first_g].drop_last() =~= Seq::<SqlSuggestion>::empty());
        assert(tail0.take(0) =~= Seq::<SqlSuggestion>::empty());
        assert(tail0.take(0).filter(near) =~= Seq::<SqlSuggestion>::empty());
        assert(Seq::<SqlSuggestion>::empty().filter(near) =~= Seq::<SqlSuggestion>::empty());
        if near(first_g) {
            assert(seq![first_g].filter(near) =~= seq![first_g]);
        } else {
            assert(seq![first_g].filter(near) =~= Seq::<SqlSuggestion>::empty());
        }
        assert(res@ =~= seq![first_g].filter(near) + tail0.take(0).filter(near));
        assert(tail0.skip(0) =~= tail0);
    }
    let ghost mut m: int = 0;
    while sorted.len() > 0
        invariant
            0 <= m <= tail0.len(),
            sorted@ == tail0.skip(m),
            near == is_close_enough(),
            res@ == seq![first_g].filter(near) + tail0.take(m).filter(near),
        decreases sorted@.len(),
    {
        let x = sorted.remove(0);
        proof {
            reveal(Seq::filter);
            assert(tail0.take(m + 1).drop_last() =~= tail0.take(m));
            assert(tail0.take(m + 1).last() == x);
            assert(tail0.skip(m).remove(0) =~= tail0.skip(m + 1));
        }
        if x.distance <= MAX_DISTANCE {
            res.push(x);
        }
        proof {
            m = m + 1;
        }
    }
    proof {
        assert(tail0.take(m) =~= tail0);
        Seq::filter_distributes_over_add(seq![first_g], tail0, near);
    }
    res
}

/// The suggestion of a spelling-index row `(word, distance, denotation_count)`.
pub open spec fn row_suggestion(r: (String, i32, i32)) -> SqlSuggestion {
    SqlSuggestion { text: r.0, distance: r.1, denotation_count: r.2 }
}

/// The suggestions shown for spelling-index rows ranked best match first.
pub fn suggestions_from_rows(rows: Vec<(String, i32, i32)>) -> (res: Vec<SqlSuggestion>)
    ensures
        res@ == filter_suggestions_spec(rows@.map_values(|r: (String, i32, i32)| row_suggestion(r))),
{
    let ghost all = rows@;
    let ghost mapped = all.map_values(|r: (String, i32, i32)| row_suggestion(r));
    let mut rows = rows;
    let mut found: Vec<SqlSuggestion> = Vec::new();
    let ghost mut k: int = 0;
    proof {
        assert(all.skip(0) =~= all);
        assert(mapped.take(0) =~= Seq::<SqlSuggestion>::empty());
    }
    while rows.len() > 0
        invariant
            0 <= k <= all.len(),
            rows@ == all.skip(k),
            mapped == all.map_values(|r: (String, i32, i32)| row_suggestion(r)),
            found@ == mapped.take(k),
        decreases rows@.len(),
    {
        let (text, distance, denotation_count) = rows.remove(0);
        proof {
            assert(all[k] == (text, distance, denotation_count));
            assert(all.skip(k).remove(0) =~= all.skip(k + 1));
        }
        found.push(SqlSuggestion { text, distance, denotation_count });
        proof {
            assert(found@ =~= mapped.take(k + 1));
            k = k + 1;
        }
    }
    proof {
        assert(mapped.take(k) =~= mapped);
    }
    filter_suggestions(found)
}

/// Entries are ordered by descending denotation count.
pub open spec fn popularity_sorted(s: Seq<SqlSuggestion>) -> bool {
    forall|i: int, j: int|
        0 <= i < j < s.len() ==> s[i].denotation_count >= s[j].denotation_count
}

/// A suggestion has the denotation count `d`.
pub open spec fn has_count(d: i32) -> spec_fn(SqlSuggestion) -> bool {
    |x: SqlSuggestion| x.denotation_count == d
}

/// Inserting into a popularity-ordered list keeps it ordered and adds exactly
/// the inserted entry.
proof fn lemma_insert_by_popularity_props(sorted: Seq<SqlSuggestion>, x: SqlSuggestion)
    requires
        popularity_sorted(sorted),
    ensures
        popularity_sorted(insert_by_popularity(sorted, x)),
        insert_by_popularity(sorted, x).to_multiset() == sorted.to_multiset().insert(x),
    decreases sorted.len(),
{
    broadcast use vstd::seq_lib::group_to_multiset_ensures;
    broadcast use vstd::seq_lib::lemma_multiset_commutative;
    broadcast use vstd::multiset::group_multiset_axioms;

    if sorted.len() == 0 {
        assert(seq![x] =~= Seq::<SqlSuggestion>::empty().push(x));
        assert(sorted =~= Seq::<SqlSuggestion>::empty());
    } else if sorted[0].denotation_count >= x.denotation_count {
        let s0 = sorted[0];
        let tail = sorted.drop_first();
        lemma_insert_by_popularity_props(tail, x);
        let r = insert_by_popularity(tail, x);
        assert(sorted =~= seq![s0] + tail);
        assert(seq![s0] =~= Seq::<SqlSuggestion>::empty().push(s0));
        assert forall|k: int| 0 <= k < r.len() implies r[k].denotation_count
            <= s0.denotation_count by {
            assert(r.to_multiset().count(r[k]) > 0);
            if r[k] != x {
                assert(tail.to_multiset().count(r[k]) > 0);
                assert(tail.contains(r[k]));
                let idx = choose|idx: int| 0 <= idx < tail.len() && tail[idx] == r[k];
                assert(sorted[idx + 1] == r[k]);
            }
        }
        let res = seq![s0] + r;
        assert forall|i: int, j: int| 0 <= i < j < res.len() implies res[i].denotation_count
            >= res[j].denotation_count by {
            if i == 0 {
                assert(res[j] == r[j - 1]);
            } else {
                assert(res[i] == r[i - 1]);
                assert(res[j] == r[j - 1]);
            }
        }
    } else {
        let res = seq![x] + sorted;
        assert(seq![x] =~= Seq::<SqlSuggestion>::empty().push(x));
        assert forall|i: int, j: int| 0 <= i < j < res.len() implies res[i].denotation_count
            >= res[j].denotation_count by {
            if i == 0 {
                assert(res[j] == sorted[j - 1]);
                if j - 1 > 0 {
                    assert(sorted[0].denotation_count >= sorted[j - 1].denotation_count);
                }
            } else {
                assert(res[i] == sorted[i - 1]);
                assert(res[j] == sorted[j - 1]);
            }
        }
    }
}

/// `by_popularity` orders by descending count and only reorders.
pub proof fn lemma_by_popularity_props(s: Seq<SqlSuggestion>)
    ensures
        popularity_sorted(by_popularity(s)),
        by_popularity(s).to_multiset() == s.to_multiset(),
    decreases s.len(),
{
    broadcast use vstd::seq_lib::group_to_multiset_ensures;

    if s.len() > 0 {
        lemma_by_popularity_props(s.drop_last());
        lemma_insert_by_popularity_props(by_popularity(s.drop_last()), s.last());
        assert(s =~= s.drop_last().push(s.last()));
    }
}

/// Inserting an entry into a popularity-ordered list places it after every
/// entry of the same count.
proof fn lemma_insert_by_popularity_stable(sorted: Seq<SqlSuggestion>, x: SqlSuggestion, d: i32)
    requires
        popularity_sorted(sorted),
    ensures
        insert_by_popularity(sorted, x).filter(has_count(d)) == (if x.denotation_count == d {
            sorted.filter(has_count(d)).push(x)
        } else {
            sorted.filter(has_count(d))
        }),
    decreases sorted.len(),
{
    broadcast use vstd::seq_lib::group_filter_ensures;
    broadcast use Seq::lemma_filter_prepend;

    let p = has_count(d);
    reveal(Seq::filter);
    if sorted.len() == 0 {
        assert(seq![x].drop_last() =~= Seq::<SqlSuggestion>::empty());
        assert(sorted.filter(p) =~= Seq::<SqlSuggestion>::empty());
        if x.denotation_count == d {
            assert(seq![x].filter(p) =~= sorted.filter(p).push(x));
        } else {
            assert(seq![x].filter(p) =~= sorted.filter(p));
        }
    } else if sorted[0].denotation_count >= x.denotation_count {
        let s0 = sorted[0];
        let tail = sorted.drop_first();
        assert(popularity_sorted(tail)) by {
            assert forall|i: int, j: int| 0 <= i < j < tail.len() implies tail[i].denotation_count
                >= tail[j].denotation_count by {
                assert(tail[i] == sorted[i + 1]);
                assert(tail[j] == sorted[j + 1]);
            }
        }
        lemma_insert_by_popularity_stable(tail, x, d);
        assert(sorted =~= seq![s0] + tail);
        let head = if p(s0) {
            seq![s0]
        } else {
            Seq::<SqlSuggestion>::empty()
        };
        assert((seq![s0] + insert_by_popularity(tail, x)).filter(p) == head
            + insert_by_popularity(tail, x).filter(p));
        assert((seq![s0] + tail).filter(p) == head + tail.filter(p));
        if x.denotation_count == d {
            assert(head + tail.filter(p).push(x) =~= (head + tail.filter(p)).push(x));
        }
    } else {
        assert((seq![x] + sorted).filter(p) == (if p(x) {
            seq![x]
        } else {
            Seq::<SqlSuggestion>::empty()
        }) + sorted.filter(p));
        if x.denotation_count == d {
            assert forall|k: int| 0 <= k < sorted.len() implies !p(sorted[k]) by {
                if k > 0 {
                    assert(sorted[0].denotation_count >= sorted[k].denotation_count);
                }
            }
            if sorted.filter(p).len() > 0 {
                let e = sorted.filter(p)[0];
                assert(p(e));
                assert(sorted.filter(p).contains(e));
                sorted.lemma_filter_contains_rev(p, e);
                let k = choose|k: int| 0 <= k < sorted.len() && sorted[k] == e;
                assert(!p(sorted[k]));
            }
            assert(sorted.filter(p) =~= Seq::<SqlSuggestion>::empty());
            assert(seq![x] + sorted.filter(p) =~= sorted.filter(p).push(x));
        } else {
            assert(Seq::<SqlSuggestion>::empty() + sorted.filter(p) =~= sorted.filter(p));
        }
    }
}

/// Ordering by popularity is stable: the entries of any one denotation count
/// come out in the order they went in.
pub proof fn law_by_popularity_stable(s: Seq<SqlSuggestion>, d: i32)
    ensures
        by_popularity(s).filter(has_count(d)) == s.filter(has_count(d)),
    decreases s.len(),
{
    reveal(Seq::filter);
    if s.len() > 0 {
        law_by_popularity_stable(s.drop_last(), d);
        lemma_by_popularity_props(s.drop_last());
        lemma_insert_by_popularity_stable(by_popularity(s.drop_last()), s.last(), d);
    }
}

/// Inserting an entry no more popular than every entry appends it.
proof fn lemma_insert_least_popular(sorted: Seq<SqlSuggestion>, x: SqlSuggestion)
    requires
        forall|i: int| 0 <= i < sorted.len() ==> sorted[i].denotation_count >= x.denotation_count,
    ensures
        insert_by_popularity(sorted, x) == sorted.push(x),
    decreases sorted.len(),
{
    if sorted.len() > 0 {
        let tail = sorted.drop_first();
        assert forall|i: int| 0 <= i < tail.len() implies tail[i].denotation_count
            >= x.denotation_count by {
            assert(tail[i] == sorted[i + 1]);
        }
        lemma_insert_least_popular(tail, x);
        assert(seq![sorted[0]] + tail.push(x) =~= sorted.push(x));
    } else {
        assert(seq![x] =~= sorted.push(x));
    }
}

/// Ordering a list that is already ordered by popularity leaves it as it is.
pub proof fn law_by_popularity_keeps_ordered(s: Seq<SqlSuggestion>)
    requires
        popularity_sorted(s),
    ensures
        by_popularity(s) == s,
    decreases s.len(),
{
    if s.len() > 0 {
        let init = s.drop_last();
        assert(popularity_sorted(init)) by {
            assert forall|i: int, j: int| 0 <= i < j < init.len() implies init[i].denotation_count
                >= init[j].denotation_count by {
                assert(init[i] == s[i]);
                assert(init[j] == s[j]);
            }
        }
        law_by_popularity_keeps_ordered(init);
        assert forall|i: int| 0 <= i < init.len() implies init[i].denotation_count
            >= s.last().denotation_count by {
            assert(init[i] == s[i]);
        }
        lemma_insert_least_popular(init, s.last());
        assert(init.push(s.last()) =~= s);
    }
}

/// Keeping some entries of a popularity-ordered list keeps it ordered, and
/// never keeps an entry more often than it occurs.
proof fn lemma_filter_sorted_sub(s: Seq<SqlSuggestion>, pred: spec_fn(SqlSuggestion) -> bool)
    ensures
        popularity_sorted(s) ==> popularity_sorted(s.filter(pred)),
        s.filter(pred).to_multiset().subset_of(s.to_multiset()),
    decreases s.len(),
{
    broadcast use vstd::seq_lib::group_to_multiset_ensures;
    broadcast use vstd::multiset::group_multiset_axioms;

    reveal(Seq::filter);
    if s.len() == 0 {
        assert(s.filter(pred).to_multiset() =~= s.to_multiset());
    } else {
        let init = s.drop_last();
        let last = s.last();
        lemma_filter_sorted_sub(init, pred);
        assert(s =~= init.push(last));
        let f = init.filter(pred);
        if popularity_sorted(s) {
            assert(popularity_sorted(init)) by {
                assert forall|i: int, j: int| 0 <= i < j < init.len() implies init[i].denotation_count
                    >= init[j].denotation_count by {
                    assert(init[i] == s[i]);
                    assert(init[j] == s[j]);
                }
            }
            if pred(last) {
                assert forall|k: int| 0 <= k < f.len() implies f[k].denotation_count
                    >= last.denotation_count by {
                    assert(f.contains(f[k]));
                    init.lemma_filter_contains_rev(pred, f[k]);
                    let idx = choose|idx: int| 0 <= idx < init.len() && init[idx] == f[k];
                    assert(s[idx] == f[k]);
                }
                let g = f.push(last);
                assert forall|i: int, j: int| 0 <= i < j < g.len() implies g[i].denotation_count
                    >= g[j].denotation_count by {
                    assert(g[i] == f[i]);
                    if j < f.len() {
                        assert(g[j] == f[j]);
                    }
                }
            }
        }
        assert forall|a: SqlSuggestion| s.filter(pred).to_multiset().count(a)
            <= s.to_multiset().count(a) by {
            assert(f.to_multiset().count(a) <= init.to_multiset().count(a));
        }
    }
}

/// The shown suggestions: the best match first if it is close enough, then
/// only close matches that reach both popularity thresholds, most popular
/// first; nothing is shown more often than it was found, and an empty list
/// stays empty.
pub proof fn law_filter_suggestions_shape(s: Seq<SqlSuggestion>)
    ensures
        s.len() == 0 ==> filter_suggestions_spec(s).len() == 0,
        s.len() > 0 ==> ({
            let res = filter_suggestions_spec(s);
            let head_len: int = if s[0].distance <= MAX_DISTANCE {
                1
            } else {
                0
            };
            let tail = res.skip(head_len);
            &&& res.len() >= head_len
            &&& head_len == 1 ==> res[0] == s[0]
            &&& popularity_sorted(tail)
            &&& forall|i: int|
                0 <= i < tail.len() ==> center_threshold(s) <= #[trigger] tail[i].denotation_count
                    && percent_threshold(s[0].denotation_count) <= tail[i].denotation_count
            &&& forall|i: int| 0 <= i < res.len() ==> #[trigger] res[i].distance <= MAX_DISTANCE
            &&& res.to_multiset().subset_of(s.to_multiset())
        }),
{
    broadcast use vstd::seq_lib::group_filter_ensures;
    broadcast use vstd::seq_lib::group_to_multiset_ensures;
    broadcast use vstd::seq_lib::lemma_multiset_commutative;
    broadcast use vstd::multiset::group_multiset_axioms;
    broadcast use Seq::lemma_filter_prepend;

    if s.len() > 0 {
        let first = s[0];
        let rest = s.drop_first();
        let pred = is_popular_enough(percent_threshold(first.denotation_count), center_threshold(s));
        let near = is_close_enough();
        let kept = rest.filter(pred);
        let sorted = by_popularity(kept);
        lemma_by_popularity_props(kept);
        lemma_filter_sorted_sub(sorted, near);
        lemma_filter_sorted_sub(rest, pred);
        let tail = sorted.filter(near);
        let res = filter_suggestions_spec(s);
        let head = if near(first) {
            seq![first]
        } else {
            Seq::<SqlSuggestion>::empty()
        };
        assert(res == head + tail);
        let head_len: int = if first.distance <= MAX_DISTANCE {
            1
        } else {
            0
        };
        assert(res.skip(head_len) =~= tail);
        assert forall|i: int| 0 <= i < tail.len() implies pred(#[trigger] tail[i]) by {
            assert(tail.contains(tail[i]));
            sorted.lemma_filter_contains_rev(near, tail[i]);
            assert(sorted.to_multiset().count(tail[i]) > 0);
            assert(kept.to_multiset().count(tail[i]) > 0);
            assert(kept.contains(tail[i]));
            let idx = choose|idx: int| 0 <= idx < kept.len() && kept[idx] == tail[i];
            assert(pred(kept[idx]));
        }
        assert forall|i: int| 0 <= i < res.len() implies #[trigger] res[i].distance
            <= MAX_DISTANCE by {
            if head_len == 1 && i == 0 {
            } else {
                assert(res[i] == tail[i - head_len]);
            }
        }
        assert(s =~= seq![first] + rest);
        assert(head.to_multiset().subset_of(seq![first].to_multiset())) by {
            assert(seq![first] =~= Seq::<SqlSuggestion>::empty().push(first));
            assert(Seq::<SqlSuggestion>::empty().to_multiset() =~= Multiset::empty());
        }
        assert forall|a: SqlSuggestion| res.to_multiset().count(a) <= s.to_multiset().count(a) by {
            assert(tail.to_multiset().count(a) <= sorted.to_multiset().count(a));
            assert(kept.to_multiset().count(a) <= rest.to_multiset().count(a));
            assert(head.to_multiset().count(a) <= seq![first].to_multiset().count(a));
        }
    }
}

/// Keeping the entries that pass two tests does not depend on the order of
/// the tests.
proof fn lemma_filter_commute(
    s: Seq<SqlSuggestion>,
    p: spec_fn(SqlSuggestion) -> bool,
    q: spec_fn(SqlSuggestion) -> bool,
)
    ensures
        s.filter(p).filter(q) == s.filter(q).filter(p),
    decreases s.len(),
{
    reveal(Seq::filter);
    if s.len() > 0 {
        let init = s.drop_last();
        let x = s.last();
        lemma_filter_commute(init, p, q);
        if p(x) {
            assert(s.filter(p).drop_last() =~= init.filter(p));
        }
        if q(x) {
            assert(s.filter(q).drop_last() =~= init.filter(q));
        }
        if p(x) && q(x) {
            assert(s.filter(p).filter(q) =~= init.filter(p).filter(q).push(x));
            assert(s.filter(q).filter(p) =~= init.filter(q).filter(p).push(x));
        } else if p(x) {
            assert(s.filter(p).filter(q) =~= init.filter(p).filter(q));
        } else if q(x) {
            assert(s.filter(q).filter(p) =~= init.filter(q).filter(p));
        }
    }
}

/// After the best match, shown suggestions of equal denotation count keep
/// their input order: for every count, they are exactly the other matches of
/// that count that reach both popularity thresholds and are close enough, in
/// the order they were found.
pub proof fn law_filter_suggestions_ties_in_input_order(s: Seq<SqlSuggestion>, d: i32)
    requires
        s.len() > 0,
    ensures
        ({
            let head_len: int = if s[0].distance <= MAX_DISTANCE {
                1
            } else {
                0
            };
            filter_suggestions_spec(s).skip(head_len).filter(has_count(d)) == s.drop_first().filter(
                is_popular_enough(percent_threshold(s[0].denotation_count), center_threshold(s)),
            ).filter(is_close_enough()).filter(has_count(d))
        }),
{
    broadcast use Seq::lemma_filter_prepend;

    let first = s[0];
    let pred = is_popular_enough(percent_threshold(first.denotation_count), center_threshold(s));
    let near = is_close_enough();
    let hc = has_count(d);
    let kept = s.drop_first().filter(pred);
    let sorted = by_popularity(kept);
    let tail = sorted.filter(near);
    let head = if near(first) {
        seq![first]
    } else {
        Seq::<SqlSuggestion>::empty()
    };
    assert(filter_suggestions_spec(s) == head + tail);
    let head_len: int = if first.distance <= MAX_DISTANCE {
        1
    } else {
        0
    };
    assert((head + tail).skip(head_len) =~= tail);
    lemma_filter_commute(sorted, near, hc);
    law_by_popularity_stable(kept, d);
    lemma_filter_commute(kept, hc, near);
}

} // verus!
