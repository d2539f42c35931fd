use vstd::prelude::*;

use crate::search::{result_views, ResponseView, ResultView, SearchOptions, SearchResponse, SearchResult};

verus! {

broadcast use vstd::seq_lib::group_seq_properties;

/// Popularity signal of a result: its stars, or 0 when it has none.
pub open spec fn stars_of(r: ResultView) -> u32 {
    match r.stars {
        Some(s) => s,
        None => 0,
    }
}

/// Security score of a result, or 0 when it has none.
pub open spec fn score_of(r: ResultView) -> u8 {
    match r.security_score {
        Some(s) => s,
        None => 0,
    }
}

/// The pair a result is ranked by: popularity first, then security score.
pub open spec fn rank(r: ResultView) -> (u32, u8) {
    (stars_of(r), score_of(r))
}

/// `a` may stand before `b`: it is more popular, or as popular with a
/// security score at least as high.
pub open spec fn ranks_at_least(a: ResultView, b: ResultView) -> bool {
    stars_of(a) > stars_of(b) || (stars_of(a) == stars_of(b) && score_of(a) >= score_of(b))
}

/// Results ordered by popularity (descending), then by security score (descending).
pub open spec fn in_popularity_order(s: Seq<ResultView>) -> bool {
    forall|i: int, j: int| 0 <= i < j < s.len() ==> ranks_at_least(#[trigger] s[i], #[trigger] s[j])
}

/// The results of `s` that share the rank `k`, in their order in `s`.
pub open spec fn rank_group(s: Seq<ResultView>, k: (u32, u8)) -> Seq<ResultView> {
    s.filter(|r: ResultView| rank(r) == k)
}

/// `out` is `s` sorted by popularity, where results of equal rank keep the
/// order they had in `s` (a stable sort). Exactly one sequence meets this.
pub open spec fn is_popularity_sort_of(out: Seq<ResultView>, s: Seq<ResultView>) -> bool {
    &&& in_popularity_order(out)
    &&& forall|k: (u32, u8)| #[trigger] rank_group(out, k) == rank_group(s, k)
}

/// Inserting `x` where every result before it ranks at least as high and every
/// result after it ranks strictly lower adds `x` to the end of its rank group only.
proof fn lemma_insert_group(t: Seq<ResultView>, p: int, x: ResultView, k: (u32, u8))
    requires
        0 <= p <= t.len(),
        forall|j: int| p <= j < t.len() ==> !ranks_at_least(#[trigger] t[j], x),
    ensures
        rank_group(t.insert(p, x), k) == if rank(x) == k {
            rank_group(t, k).push(x)
        } else {
            rank_group(t, k)
        },
{
    let pred = |r: ResultView| rank(r) == k;
    let front = t.take(p);
    let back = t.skip(p);
    assert(t.insert(p, x) =~= front.push(x) + back);
    assert(t =~= front + back);
    Seq::filter_distributes_over_add(front.push(x), back, pred);
    Seq::filter_distributes_over_add(front, back, pred);
    front.lemma_filter_push(x, pred);
    if rank(x) == k {
        assert forall|j: int| 0 <= j < back.len() implies !pred(#[trigger] back[j]) by {
            assert(back[j] == t[p + j]);
        }
        assert(back.all(|y: ResultView| !pred(y)));
        back.lemma_all_neg_filter_empty(pred);
        assert(back.filter(pred) =~= Seq::<ResultView>::empty());
        assert(front.push(x).filter(pred) + back.filter(pred) =~= front.push(x).filter(pred));
        assert(front.filter(pred) + back.filter(pred) =~= front.filter(pred));
    }
}

/// Position at which `x` goes in `items`, which are in popularity order: after
/// every result that ranks at least as high.
fn insertion_point(items: &Vec<SearchResult>, x: &SearchResult) -> (p: usize)
    requires
        in_popularity_order(result_views(items@)),
    ensures
        p <= items@.len(),
        forall|j: int| 0 <= j < p ==> ranks_at_least(#[trigger] result_views(items@)[j], x@),
        forall|j: int| p <= j < items@.len() ==> !ranks_at_least(#[trigger] result_views(items@)[j], x@),
{
    let ghost vs = result_views(items@);
    let xs = match x.stars { Some(s) => s, None => 0 };
    let xc = match x.security_score { Some(s) => s, None => 0 };
    let mut p: usize = 0;
    while p < items.len()
        invariant
            p <= items@.len(),
            vs == result_views(items@),
            in_popularity_order(vs),
            xs == stars_of(x@),
            xc == score_of(x@),
            forall|j: int| 0 <= j < p ==> ranks_at_least(#[trigger] vs[j], x@),
        decreases items@.len() - p,
    {
        let ys = match items[p].stars { Some(s) => s, None => 0 };
        let yc = match items[p].security_score { Some(s) => s, None => 0 };
        assert(vs[p as int] == items@[p as int]@);
        if !(ys > xs || (ys == xs && yc >= xc)) {
            assert forall|j: int| p <= j < items@.len() implies !ranks_at_least(#[trigger] vs[j], x@) by {
                if j > p {
                    assert(ranks_at_least(vs[p as int], vs[j]));
                }
            }
            return p;
        }
        p = p + 1;
    }
    p
}

/// Sort results by popularity (descending), then by security score
/// (descending). Results without a popularity signal count as 0 and sink
/// below every result that has one; results of equal rank keep their order.
pub fn sort_by_popularity(items: &mut Vec<SearchResult>)
    ensures
        is_popularity_sort_of(result_views(final(items)@), result_views(old(items)@)),
        result_views(final(items)@).to_multiset() == result_views(old(items)@).to_multiset(),
{
    let mut rest: Vec<SearchResult> = Vec::new();
    std::mem::swap(items, &mut rest);
    let ghost orig = result_views(rest@);
    assert(orig.take(0) =~= Seq::<ResultView>::empty());
    assert(orig.skip(0) =~= orig);
    while rest.len() > 0
        invariant
            rest@.len() <= orig.len(),
            result_views(rest@) == orig.skip(orig.len() - rest@.len()),
            in_popularity_order(result_views(items@)),
            forall|k: (u32, u8)|
                #[trigger] rank_group(result_views(items@), k) == rank_group(orig.take(orig.len() - rest@.len()), k),
            result_views(items@).to_multiset() == orig.take(orig.len() - rest@.len()).to_multiset(),
        decreases rest@.len(),
    {
        let ghost m = orig.len() - rest@.len();
        let ghost before = result_views(items@);
        let x = rest.remove(0);
        assert(result_views(rest@) =~= orig.skip(m + 1)) by {
            assert(orig.skip(m)[0] == x@);
        }
        assert(orig.skip(m)[0] == x@);
        assert(orig[m] == x@);
        assert(orig.take(m + 1) =~= orig.take(m).push(x@));
        let p = insertion_point(items, &x);
        items.insert(p, x);
        assert(result_views(items@) =~= before.insert(p as int, x@));
        assert forall|k: (u32, u8)|
            #[trigger] rank_group(result_views(items@), k) == rank_group(orig.take(m + 1), k) by {
            lemma_insert_group(before, p as int, x@, k);
            orig.take(m).lemma_filter_push(x@, |r: ResultView| rank(r) == k);
        }
        assert(in_popularity_order(result_views(items@))) by {
            before.insert_ensures(p as int, x@);
            let after = result_views(items@);
            assert forall|i: int, j: int| 0 <= i < j < after.len() implies ranks_at_least(
                #[trigger] after[i],
                #[trigger] after[j],
            ) by {
                if j < p {
                    assert(after[i] == before[i] && after[j] == before[j]);
                } else if j == p {
                    assert(after[i] == before[i]);
                } else if i == p {
                    assert(after[j] == before[j - 1]);
                    assert(!ranks_at_least(before[j - 1], x@));
                } else if i < p {
                    assert(after[i] == before[i] && after[j] == before[j - 1]);
                } else {
                    assert(after[i] == before[i - 1] && after[j] == before[j - 1]);
                }
            }
        }
        assert(result_views(items@).to_multiset() == orig.take(m + 1).to_multiset()) by {
            let front = before.take(p as int);
            let back = before.skip(p as int);
            assert(before =~= front + back);
            assert(result_views(items@) =~= front.push(x@) + back);
            vstd::seq_lib::lemma_multiset_commutative(front.push(x@), back);
            vstd::seq_lib::lemma_multiset_commutative(front, back);
        }
    }
    assert(orig.take(orig.len() as int) =~= orig);
}


/// The results that pass the `min_score` filter: with a minimum, those whose
/// security score (0 when absent) reaches it; without one, all of them.
pub open spec fn kept_by_score(s: Seq<ResultView>, min_score: Option<u8>) -> Seq<ResultView> {
    match min_score {
        Some(m) => s.filter(|r: ResultView| score_of(r) >= m),
        None => s,
    }
}

/// The first `limit` results of `s` (all of them when there are fewer).
pub open spec fn truncated(s: Seq<ResultView>, limit: usize) -> Seq<ResultView> {
    if limit < s.len() {
        s.take(limit as int)
    } else {
        s
    }
}

/// `out` is `resp` post-processed with the given limit and minimum score:
/// filtered by score, sorted by popularity, truncated, with the total unchanged.
pub open spec fn is_post_processed(out: ResponseView, resp: ResponseView, limit: usize, min_score: Option<u8>) -> bool {
    &&& out.total == resp.total
    &&& exists|sorted: Seq<ResultView>|
        is_popularity_sort_of(sorted, kept_by_score(resp.items, min_score)) && out.items == truncated(sorted, limit)
}

/// Keeps the results whose security score (0 when absent) is at least `min`.
fn retain_min_score(items: &mut Vec<SearchResult>, min: u8)
    ensures
        result_views(final(items)@) == result_views(old(items)@).filter(|r: ResultView| score_of(r) >= min),
{
    let ghost pred = |r: ResultView| score_of(r) >= min;
    let mut rest: Vec<SearchResult> = Vec::new();
    std::mem::swap(items, &mut rest);
    let ghost orig = result_views(rest@);
    assert(orig.take(0) =~= Seq::<ResultView>::empty());
    assert(orig.skip(0) =~= orig);
    assert(result_views(items@) =~= Seq::<ResultView>::empty());
    while rest.len() > 0
        invariant
            rest@.len() <= orig.len(),
            pred == (|r: ResultView| score_of(r) >= min),
            result_views(rest@) == orig.skip(orig.len() - rest@.len()),
            result_views(items@) == orig.take(orig.len() - rest@.len()).filter(pred),
        decreases rest@.len(),
    {
        let ghost m = orig.len() - rest@.len();
        let ghost before = result_views(items@);
        let x = rest.remove(0);
        assert(orig.skip(m)[0] == x@);
        assert(result_views(rest@) =~= orig.skip(m + 1));
        assert(orig.take(m + 1) =~= orig.take(m).push(x@));
        proof {
            orig.take(m).lemma_filter_push(x@, pred);
        }
        let score = match x.security_score { Some(s) => s, None => 0 };
        if score >= min {
            items.push(x);
            assert(result_views(items@) =~= before.push(x@));
        }
    }
    assert(orig.take(orig.len() as int) =~= orig);
}

/// Apply post-processing to search results: filter by `min_score`, sort by
/// popularity, and truncate to `limit`. The total is left as it was.
pub fn post_process(resp: &mut SearchResponse, opts: &SearchOptions)
    ensures
        is_post_processed(final(resp)@, old(resp)@, opts.limit, opts.min_score),
{
    if let Some(min) = opts.min_score {
        retain_min_score(&mut resp.items, min);
    }
    let ghost kept = result_views(resp.items@);
    sort_by_popularity(&mut resp.items);
    let ghost sorted = result_views(resp.items@);
    resp.items.truncate(opts.limit);
    assert(result_views(resp.items@) =~= truncated(sorted, opts.limit));
}


/// The ranks of two results, compared: `ranks_at_least` both ways means equal ranks.
proof fn lemma_rank_antisymmetric(a: ResultView, b: ResultView)
    requires
        ranks_at_least(a, b),
        ranks_at_least(b, a),
    ensures
        rank(a) == rank(b),
{
}

/// Some result of `s` has rank `k` when its rank group is not empty.
proof fn lemma_group_member(s: Seq<ResultView>, k: (u32, u8))
    requires
        rank_group(s, k).len() > 0,
    ensures
        exists|i: int| 0 <= i < s.len() && rank(#[trigger] s[i]) == k,
{
    let pred = |r: ResultView| rank(r) == k;
    let x = rank_group(s, k)[0];
    s.lemma_filter_pred(pred, 0);
    assert(rank_group(s, k).contains(x));
    s.lemma_filter_contains_rev(pred, x);
    let i = choose|i: int| 0 <= i < s.len() && s[i] == x;
    assert(rank(s[i]) == k);
}

/// Dropping the last result removes it from the end of its rank group only.
proof fn lemma_group_drop_last(s: Seq<ResultView>, k: (u32, u8))
    requires
        s.len() > 0,
    ensures
        rank_group(s, k) == if rank(s.last()) == k {
            rank_group(s.drop_last(), k).push(s.last())
        } else {
            rank_group(s.drop_last(), k)
        },
{
    assert(s =~= s.drop_last().push(s.last()));
    s.drop_last().lemma_filter_push(s.last(), |r: ResultView| rank(r) == k);
}

/// Law: a stable sort by popularity is unique. Two sequences in popularity
/// order with the same rank groups are the same sequence, so
/// [`is_popularity_sort_of`] fixes the sorted results exactly.
pub proof fn lemma_popularity_sort_unique(a: Seq<ResultView>, b: Seq<ResultView>)
    requires
        in_popularity_order(a),
        in_popularity_order(b),
        forall|k: (u32, u8)| #[trigger] rank_group(a, k) == rank_group(b, k),
    ensures
        a == b,
    decreases a.len(),
{
    if a.len() == 0 {
        if b.len() > 0 {
            lemma_group_drop_last(b, rank(b.last()));
            assert(rank_group(a, rank(b.last())) =~= Seq::<ResultView>::empty());
        }
        assert(a =~= b);
    } else if b.len() == 0 {
        lemma_group_drop_last(a, rank(a.last()));
        assert(rank_group(b, rank(a.last())) =~= Seq::<ResultView>::empty());
    } else {
        let x = a.last();
        let y = b.last();
        lemma_group_drop_last(a, rank(y));
        lemma_group_drop_last(b, rank(y));
        lemma_group_drop_last(a, rank(x));
        lemma_group_drop_last(b, rank(x));
        assert(rank_group(b, rank(y)).len() > 0);
        assert(rank_group(a, rank(y)) == rank_group(b, rank(y)));
        lemma_group_member(a, rank(y));
        let i = choose|i: int| 0 <= i < a.len() && rank(#[trigger] a[i]) == rank(y);
        if i < a.len() - 1 {
            assert(ranks_at_least(a[i], a[a.len() - 1]));
        }
        assert(ranks_at_least(y, x));
        assert(rank_group(a, rank(x)).len() > 0);
        lemma_group_member(b, rank(x));
        let j = choose|j: int| 0 <= j < b.len() && rank(#[trigger] b[j]) == rank(x);
        if j < b.len() - 1 {
            assert(ranks_at_least(b[j], b[b.len() - 1]));
        }
        assert(ranks_at_least(x, y));
        lemma_rank_antisymmetric(x, y);
        let r = rank(x);
        assert(rank_group(a, r).last() == x);
        assert(rank_group(b, r).last() == y);
        assert(x == y);
        assert forall|k: (u32, u8)| #[trigger] rank_group(a.drop_last(), k) == rank_group(b.drop_last(), k) by {
            lemma_group_drop_last(a, k);
            lemma_group_drop_last(b, k);
            if k == r {
                assert(rank_group(a.drop_last(), k) =~= rank_group(a, k).drop_last());
                assert(rank_group(b.drop_last(), k) =~= rank_group(b, k).drop_last());
            }
        }
        lemma_popularity_sort_unique(a.drop_last(), b.drop_last());
        assert(a =~= a.drop_last().push(x));
        assert(b =~= b.drop_last().push(y));
    }
}


/// A result passes the `min_score` filter.
pub open spec fn meets_min_score(r: ResultView, min_score: Option<u8>) -> bool {
    match min_score {
        Some(m) => score_of(r) >= m,
        None => true,
    }
}

/// Every result of a popularity sort of `s` is a result of `s`.
proof fn lemma_sort_members(sorted: Seq<ResultView>, s: Seq<ResultView>, i: int)
    requires
        is_popularity_sort_of(sorted, s),
        0 <= i < sorted.len(),
    ensures
        s.contains(sorted[i]),
{
    let x = sorted[i];
    let pred = |r: ResultView| rank(r) == rank(x);
    sorted.lemma_filter_contains(pred, i);
    assert(rank_group(sorted, rank(x)) == rank_group(s, rank(x)));
    s.lemma_filter_contains_rev(pred, x);
}

/// The results kept by the score filter all pass it.
proof fn lemma_kept_pass(s: Seq<ResultView>, min_score: Option<u8>, x: ResultView)
    requires
        kept_by_score(s, min_score).contains(x),
    ensures
        meets_min_score(x, min_score),
{
    if let Some(m) = min_score {
        let pred = |r: ResultView| score_of(r) >= m;
        let i = choose|i: int| 0 <= i < s.filter(pred).len() && s.filter(pred)[i] == x;
        s.lemma_filter_pred(pred, i);
    }
}

/// Filtering results that all pass the filter keeps them all.
proof fn lemma_kept_all(s: Seq<ResultView>, min_score: Option<u8>)
    requires
        forall|i: int| 0 <= i < s.len() ==> meets_min_score(#[trigger] s[i], min_score),
    ensures
        kept_by_score(s, min_score) == s,
    decreases s.len(),
{
    if let Some(m) = min_score {
        if s.len() > 0 {
            let pred = |r: ResultView| score_of(r) >= m;
            lemma_kept_all(s.drop_last(), min_score);
            assert(s =~= s.drop_last().push(s.last()));
            s.drop_last().lemma_filter_push(s.last(), pred);
            assert(meets_min_score(s[s.len() - 1], min_score));
        } else {
            assert(s.filter(|r: ResultView| score_of(r) >= m) =~= s);
        }
    }
}

/// Law: a post-processed response holds at most `limit` results, each of them
/// passing the `min_score` filter and taken from the response it came from,
/// ordered by popularity then security score; its total is unchanged.
pub proof fn lemma_post_processed_shape(out: ResponseView, resp: ResponseView, limit: usize, min_score: Option<u8>)
    requires
        is_post_processed(out, resp, limit, min_score),
    ensures
        out.items.len() <= limit,
        in_popularity_order(out.items),
        forall|i: int| 0 <= i < out.items.len() ==> meets_min_score(#[trigger] out.items[i], min_score),
        forall|i: int| 0 <= i < out.items.len() ==> resp.items.contains(#[trigger] out.items[i]),
        out.total == resp.total,
{
    let kept = kept_by_score(resp.items, min_score);
    let sorted = choose|sorted: Seq<ResultView>|
        is_popularity_sort_of(sorted, kept) && out.items == truncated(sorted, limit);
    assert forall|i: int| 0 <= i < out.items.len() implies meets_min_score(#[trigger] out.items[i], min_score)
        && resp.items.contains(out.items[i]) by {
        assert(out.items[i] == sorted[i]);
        lemma_sort_members(sorted, kept, i);
        lemma_kept_pass(resp.items, min_score, sorted[i]);
        if let Some(m) = min_score {
            resp.items.lemma_filter_contains_rev(|r: ResultView| score_of(r) >= m, sorted[i]);
        }
    }
}

/// Every result of `s` appears in a popularity sort of `s`.
proof fn lemma_sort_keeps_members(sorted: Seq<ResultView>, s: Seq<ResultView>, x: ResultView)
    requires
        is_popularity_sort_of(sorted, s),
        s.contains(x),
    ensures
        sorted.contains(x),
{
    let pred = |r: ResultView| rank(r) == rank(x);
    let i = choose|i: int| 0 <= i < s.len() && s[i] == x;
    s.lemma_filter_contains(pred, i);
    assert(rank_group(s, rank(x)) == rank_group(sorted, rank(x)));
    assert(rank_group(sorted, rank(x)).contains(x));
    sorted.lemma_filter_contains_rev(pred, x);
}

/// Law: the score filter keeps every result that reaches the minimum. Each
/// result of the response whose security score (0 when absent) is at least
/// `min_score` is in the post-processed response unless the response was cut
/// at `limit`; so while the limit allows any result, the post-processed
/// response is not empty.
pub proof fn lemma_post_process_keeps_passing(out: ResponseView, resp: ResponseView, limit: usize, min_score: Option<u8>, x: ResultView)
    requires
        is_post_processed(out, resp, limit, min_score),
        resp.items.contains(x),
        meets_min_score(x, min_score),
    ensures
        out.items.len() < limit ==> out.items.contains(x),
        limit > 0 ==> out.items.len() > 0,
{
    let kept = kept_by_score(resp.items, min_score);
    let sorted = choose|sorted: Seq<ResultView>|
        is_popularity_sort_of(sorted, kept) && out.items == truncated(sorted, limit);
    assert(kept.contains(x)) by {
        if let Some(m) = min_score {
            let i = choose|i: int| 0 <= i < resp.items.len() && resp.items[i] == x;
            resp.items.lemma_filter_contains(|r: ResultView| score_of(r) >= m, i);
        }
    }
    lemma_sort_keeps_members(sorted, kept, x);
    if out.items.len() < limit {
        assert(out.items == sorted);
    }
    if limit > 0 {
        assert(sorted.len() > 0);
        if limit < sorted.len() {
            assert(out.items.len() == limit);
        }
    }
}

/// Law: post-processing is idempotent. Post-processing a post-processed
/// response again, with the same options, changes nothing.
pub proof fn lemma_post_process_idempotent(
    first: ResponseView,
    once: ResponseView,
    twice: ResponseView,
    limit: usize,
    min_score: Option<u8>,
)
    requires
        is_post_processed(once, first, limit, min_score),
        is_post_processed(twice, once, limit, min_score),
    ensures
        twice == once,
{
    lemma_post_processed_shape(once, first, limit, min_score);
    lemma_kept_all(once.items, min_score);
    let sorted = choose|sorted: Seq<ResultView>|
        is_popularity_sort_of(sorted, kept_by_score(once.items, min_score)) && twice.items == truncated(sorted, limit);
    lemma_popularity_sort_unique(sorted, once.items);
    assert(twice.items == once.items);
}

/// Law: results without a popularity signal sink to the bottom: in
/// popularity order, no result without stars stands before one with stars.
pub proof fn lemma_unrated_results_sink(s: Seq<ResultView>, i: int, j: int)
    requires
        in_popularity_order(s),
        0 <= i < s.len(),
        0 <= j < s.len(),
        s[i].stars is None,
        s[j].stars matches Some(n) && n > 0,
    ensures
        j < i,
{
    if i < j {
        assert(ranks_at_least(s[i], s[j]));
    }
}

} // verus!
