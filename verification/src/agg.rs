use vstd::prelude::*;
use crate::model::{APIResponse, Direction, Post, SortBy};
use crate::sort::{
    lemma_reverse_sorted_desc, lemma_sel_sort_multiset, lemma_sel_sort_sorted, reverse_posts,
    sel_sort, sort_posts, sorted_by_key, sorted_desc_by_key,
};

verus! {

broadcast use {vstd::seq_lib::group_to_multiset_ensures, vstd::multiset::group_multiset_axioms};

/// Why fetching one tag's posts failed. The messages are carried for the
/// server-side log only and never reach a client.
#[derive(Clone, Debug)]
pub enum FetchError {
    /// The cache tier failed, or a cached entry could not be decoded.
    Cache(String),
    /// The upstream body could not be decoded.
    Serde(String),
    /// The upstream call itself failed.
    Upstream(String),
    /// A concurrent fetch task could not be joined.
    Join(String),
}

/// All posts of the given per-tag responses, in response order.
pub open spec fn flatten_posts(rs: Seq<APIResponse>) -> Seq<Post>
    decreases rs.len(),
{
    if rs.len() == 0 {
        Seq::empty()
    } else {
        rs.first().posts@ + flatten_posts(rs.drop_first())
    }
}

/// Merges the per-tag responses into one post list, keeping response order.
pub fn flatten(responses: Vec<APIResponse>) -> (r: Vec<Post>)
    ensures
        r@ == flatten_posts(responses@),
{
    let mut v = responses;
    let mut out: Vec<Post> = Vec::new();
    proof {
        assert(out@ + flatten_posts(v@) =~= flatten_posts(v@));
    }
    while v.len() > 0
        invariant
            out@ + flatten_posts(v@) == flatten_posts(responses@),
        decreases v@.len(),
    {
        let ghost pre = v@;
        let ghost pre_out = out@;
        let mut x = v.remove(0);
        proof {
            assert(pre.drop_first() =~= v@);
            assert(pre.first() == x);
        }
        out.append(&mut x.posts);
        proof {
            assert(out@ + flatten_posts(v@) =~= (pre_out + (pre.first().posts@ + flatten_posts(
                pre.drop_first(),
            ))));
        }
    }
    proof {
        assert(out@ =~= out@ + flatten_posts(v@));
    }
    out
}

/// Whether some post of `s` carries this id.
pub open spec fn has_id(s: Seq<Post>, id: i64) -> bool {
    exists|i: int| 0 <= i < s.len() && s[i].id == id
}

/// The posts of `s` with duplicate ids removed; of each id the first
/// occurrence survives, in its input position.
pub open spec fn dedup_posts(s: Seq<Post>) -> Seq<Post>
    decreases s.len(),
{
    if s.len() == 0 {
        Seq::empty()
    } else {
        let pre = dedup_posts(s.drop_last());
        if has_id(s.drop_last(), s.last().id) {
            pre
        } else {
            pre.push(s.last())
        }
    }
}

/// Every surviving post is one of the input posts.
pub proof fn lemma_dedup_subset(s: Seq<Post>)
    ensures
        forall|i: int|
            0 <= i < dedup_posts(s).len() ==> #[trigger] s.contains(dedup_posts(s)[i]),
    decreases s.len(),
{
    if s.len() > 0 {
        lemma_dedup_subset(s.drop_last());
        assert forall|i: int| 0 <= i < dedup_posts(s).len() implies #[trigger] s.contains(
            dedup_posts(s)[i],
        ) by {
            let d = dedup_posts(s);
            let pre = dedup_posts(s.drop_last());
            if i < pre.len() {
                assert(s.drop_last().contains(pre[i]));
                let w = choose|w: int|
                    0 <= w < s.drop_last().len() && s.drop_last()[w] == pre[i];
                assert(s[w] == d[i]);
            } else {
                assert(d[i] == s.last());
                assert(s[s.len() - 1] == s.last());
            }
        }
    }
}

/// No two surviving posts share an id.
pub proof fn lemma_dedup_distinct(s: Seq<Post>)
    ensures
        forall|i: int, j: int|
            0 <= i < j < dedup_posts(s).len() ==> dedup_posts(s)[i].id != dedup_posts(s)[j].id,
    decreases s.len(),
{
    if s.len() > 0 {
        lemma_dedup_distinct(s.drop_last());
        lemma_dedup_subset(s.drop_last());
        let d = dedup_posts(s);
        let pre = dedup_posts(s.drop_last());
        assert forall|i: int, j: int| 0 <= i < j < d.len() implies d[i].id != d[j].id by {
            if j < pre.len() {
            } else if j == pre.len() && d.len() == pre.len() + 1 {
                assert(!has_id(s.drop_last(), s.last().id));
                assert(s.drop_last().contains(pre[i]));
                let w = choose|w: int|
                    0 <= w < s.drop_last().len() && s.drop_last()[w] == pre[i];
                if pre[i].id == s.last().id {
                    assert(s.drop_last()[w].id == s.last().id);
                }
            }
        }
    }
}

/// An id occurs among the survivors exactly when it occurs in the input.
pub proof fn lemma_dedup_complete(s: Seq<Post>, id: i64)
    ensures
        has_id(dedup_posts(s), id) <==> has_id(s, id),
    decreases s.len(),
{
    if s.len() > 0 {
        lemma_dedup_complete(s.drop_last(), id);
        let d = dedup_posts(s);
        let pre = dedup_posts(s.drop_last());
        if has_id(s, id) {
            let w = choose|w: int| 0 <= w < s.len() && s[w].id == id;
            if w < s.len() - 1 {
                assert(s.drop_last()[w].id == id);
                let v = choose|v: int| 0 <= v < pre.len() && pre[v].id == id;
                if has_id(s.drop_last(), s.last().id) {
                    assert(d[v].id == id);
                } else {
                    assert(d[v].id == id);
                }
            } else {
                if has_id(s.drop_last(), s.last().id) {
                    let u = choose|u: int|
                        0 <= u < s.drop_last().len() && s.drop_last()[u].id == s.last().id;
                    assert(s.drop_last()[u].id == id);
                    let v = choose|v: int| 0 <= v < pre.len() && pre[v].id == id;
                    assert(d[v].id == id);
                } else {
                    assert(d[pre.len() as int].id == id);
                }
            }
        }
        if has_id(d, id) {
            let w = choose|w: int| 0 <= w < d.len() && d[w].id == id;
            if w < pre.len() {
                assert(pre[w].id == id);
                let v = choose|v: int|
                    0 <= v < s.drop_last().len() && s.drop_last()[v].id == id;
                assert(s[v].id == id);
            } else {
                assert(d[w] == s.last());
                assert(s[s.len() - 1].id == id);
            }
        }
    }
}

fn contains_id(seen: &Vec<i64>, id: i64) -> (r: bool)
    ensures
        r == seen@.contains(id),
{
    let mut i: usize = 0;
    while i < seen.len()
        invariant
            i <= seen@.len(),
            forall|j: int| 0 <= j < i ==> seen@[j] != id,
        decreases seen@.len() - i,
    {
        if seen[i] == id {
            return true;
        }
        i = i + 1;
    }
    false
}

/// Removes duplicate posts, judged by id alone; of each id the first
/// occurrence in input order survives.
pub fn dedup(posts: Vec<Post>) -> (r: Vec<Post>)
    ensures
        r@ == dedup_posts(posts@),
{
    let mut v = posts;
    let mut out: Vec<Post> = Vec::new();
    let mut seen: Vec<i64> = Vec::new();
    let ghost mut done: Seq<Post> = Seq::empty();
    proof {
        assert(done + v@ =~= posts@);
    }
    while v.len() > 0
        invariant
            posts@ == done + v@,
            out@ == dedup_posts(done),
            forall|id: i64| #![trigger has_id(done, id)] seen@.contains(id) <==> has_id(done, id),
        decreases v@.len(),
    {
        let ghost pre = v@;
        let ghost pre_done = done;
        let ghost pre_seen = seen@;
        let ghost pre_out = out@;
        let x = v.remove(0);
        proof {
            assert(pre.drop_first() =~= v@);
            assert(pre.first() == x);
        }
        let dup = contains_id(&seen, x.id);
        if !dup {
            seen.push(x.id);
            out.push(x);
        }
        proof {
            done = pre_done + seq![x];
            assert(done.drop_last() =~= pre_done);
            assert(done.last() == x);
            assert(posts@ =~= done + v@);
            assert(has_id(pre_done, x.id) == dup);
            if dup {
                assert(out@ == dedup_posts(done));
            } else {
                assert(out@ =~= dedup_posts(pre_done).push(x));
            }
            assert forall|id: i64| #![trigger has_id(done, id)] seen@.contains(id) <==> has_id(
                done,
                id,
            ) by {
                assert(pre_seen.contains(id) <==> has_id(pre_done, id));
                if dup {
                    assert(seen@ == pre_seen);
                    if seen@.contains(id) {
                        let w = choose|w: int| 0 <= w < pre_done.len() && pre_done[w].id == id;
                        assert(done[w].id == id);
                    }
                    if has_id(done, id) {
                        let w = choose|w: int| 0 <= w < done.len() && done[w].id == id;
                        if w < done.len() - 1 {
                            assert(pre_done[w].id == id);
                        } else {
                            assert(id == x.id);
                        }
                    }
                } else {
                    assert(seen@ == pre_seen.push(x.id));
                    if seen@.contains(id) {
                        let k = choose|k: int| 0 <= k < seen@.len() && seen@[k] == id;
                        if k < pre_seen.len() {
                            assert(pre_seen[k] == id);
                            assert(pre_seen.contains(id));
                            let w = choose|w: int|
                                0 <= w < pre_done.len() && pre_done[w].id == id;
                            assert(done[w].id == id);
                        } else {
                            assert(id == x.id);
                            assert(done[done.len() - 1].id == id);
                        }
                    }
                    if has_id(done, id) {
                        let w = choose|w: int| 0 <= w < done.len() && done[w].id == id;
                        if w < done.len() - 1 {
                            assert(pre_done[w].id == id);
                            assert(pre_seen.contains(id));
                            let k = choose|k: int|
                                0 <= k < pre_seen.len() && pre_seen[k] == id;
                            assert(seen@[k] == id);
                        } else {
                            assert(id == x.id);
                            assert(seen@[seen@.len() - 1] == id);
                        }
                    }
                }
            }
        }
    }
    proof {
        assert(done =~= posts@);
    }
    out
}

/// The merged, deduplicated and sorted posts of the given responses, in the
/// requested direction. A descending query reverses the ascending order
/// rather than re-sorting, so ties break identically either way.
pub open spec fn aggregate_spec(rs: Seq<APIResponse>, k: SortBy, d: Direction) -> Seq<Post> {
    let base = sel_sort(dedup_posts(flatten_posts(rs)), k);
    match d {
        Direction::Asc => base,
        Direction::Desc => base.reverse(),
    }
}

proof fn lemma_count_two(s: Seq<Post>, i: int, j: int)
    requires
        0 <= i < j < s.len(),
        s[i] == s[j],
    ensures
        s.to_multiset().count(s[i]) >= 2,
{
    let e = s[i];
    s.remove_ensures(i);
    assert(s.remove(i)[j - 1] == e);
    assert(s.remove(i).contains(e));
    assert(s.remove(i).to_multiset() == s.to_multiset().remove(e));
    assert(s.remove(i).to_multiset().count(e) > 0);
}

proof fn lemma_two_indices(s: Seq<Post>, e: Post)
    requires
        s.to_multiset().count(e) >= 2,
    ensures
        exists|i: int, j: int| 0 <= i < j < s.len() && s[i] == e && s[j] == e,
{
    assert(s.contains(e));
    let i = choose|i: int| 0 <= i < s.len() && s[i] == e;
    assert(s.remove(i).to_multiset() == s.to_multiset().remove(e));
    assert(s.remove(i).to_multiset().count(e) >= 1);
    assert(s.remove(i).contains(e));
    let j0 = choose|j0: int| 0 <= j0 < s.remove(i).len() && s.remove(i)[j0] == e;
    s.remove_ensures(i);
    if j0 < i {
        assert(s[j0] == e && s[i] == e && j0 < i);
    } else {
        assert(s[j0 + 1] == e && s[i] == e && i < j0 + 1);
    }
}

/// An id occurs among two post lists of one multiset in the same way.
proof fn lemma_ms_has_id(s1: Seq<Post>, s2: Seq<Post>, id: i64)
    requires
        s1.to_multiset() == s2.to_multiset(),
        has_id(s1, id),
    ensures
        has_id(s2, id),
{
    let w = choose|w: int| 0 <= w < s1.len() && s1[w].id == id;
    let e = s1[w];
    assert(s1.contains(e));
    assert(s2.to_multiset().count(e) > 0);
    assert(s2.contains(e));
    let v = choose|v: int| 0 <= v < s2.len() && s2[v] == e;
    assert(s2[v].id == id);
}

/// Aggregation deduplicates: every id fetched for some tag appears in the
/// output, and no id appears twice, whatever the sort key and direction.
pub proof fn lemma_aggregate_unique_ids(rs: Seq<APIResponse>, k: SortBy, d: Direction, id: i64)
    ensures
        has_id(aggregate_spec(rs, k, d), id) <==> has_id(flatten_posts(rs), id),
        forall|i: int, j: int|
            0 <= i < j < aggregate_spec(rs, k, d).len() ==> aggregate_spec(rs, k, d)[i].id
                != aggregate_spec(rs, k, d)[j].id,
{
    let flat = flatten_posts(rs);
    let ded = dedup_posts(flat);
    let srt = sel_sort(ded, k);
    let out = aggregate_spec(rs, k, d);
    lemma_dedup_distinct(flat);
    lemma_dedup_complete(flat, id);
    lemma_sel_sort_multiset(ded, k);
    srt.lemma_reverse_to_multiset();
    assert(out.to_multiset() == ded.to_multiset()) by {
        match d {
            Direction::Asc => {},
            Direction::Desc => {},
        }
    }
    if has_id(out, id) {
        lemma_ms_has_id(out, ded, id);
    }
    if has_id(flat, id) {
        lemma_ms_has_id(ded, out, id);
    }
    assert forall|i: int, j: int| 0 <= i < j < out.len() implies out[i].id != out[j].id by {
        if out[i].id == out[j].id {
            let e1 = out[i];
            let e2 = out[j];
            assert(out.contains(e1));
            assert(out.contains(e2));
            if e1 == e2 {
                lemma_count_two(out, i, j);
                lemma_two_indices(ded, e1);
                let (w1, w2) = choose|w1: int, w2: int|
                    0 <= w1 < w2 < ded.len() && ded[w1] == e1 && ded[w2] == e1;
                assert(ded[w1].id != ded[w2].id);
            } else {
                assert(ded.to_multiset().count(e1) > 0);
                assert(ded.to_multiset().count(e2) > 0);
                assert(ded.contains(e1));
                assert(ded.contains(e2));
                let w1 = choose|w1: int| 0 <= w1 < ded.len() && ded[w1] == e1;
                let w2 = choose|w2: int| 0 <= w2 < ded.len() && ded[w2] == e2;
                assert(w1 != w2);
                if w1 < w2 {
                    assert(ded[w1].id != ded[w2].id);
                } else {
                    assert(ded[w2].id != ded[w1].id);
                }
            }
        }
    }
}

/// Sort correctness: the aggregate output is ordered by the requested key, in
/// the requested direction.
pub proof fn lemma_aggregate_sorted(rs: Seq<APIResponse>, k: SortBy, d: Direction)
    ensures
        d == Direction::Asc ==> sorted_by_key(aggregate_spec(rs, k, d), k),
        d == Direction::Desc ==> sorted_desc_by_key(aggregate_spec(rs, k, d), k),
{
    let ded = dedup_posts(flatten_posts(rs));
    lemma_sel_sort_sorted(ded, k);
    if d == Direction::Desc {
        lemma_reverse_sorted_desc(sel_sort(ded, k), k);
    }
}

/// The error of the first failed fetch, in tag order, if any failed.
pub open spec fn first_err(rs: Seq<Result<APIResponse, FetchError>>) -> Option<FetchError>
    decreases rs.len(),
{
    if rs.len() == 0 {
        None
    } else {
        let p = first_err(rs.drop_last());
        if p is Some {
            p
        } else if rs.last() is Err {
            Some(rs.last()->Err_0)
        } else {
            None
        }
    }
}

/// The responses of an all-successful fetch round.
pub open spec fn resps(rs: Seq<Result<APIResponse, FetchError>>) -> Seq<APIResponse> {
    rs.map_values(|r: Result<APIResponse, FetchError>| r->Ok_0)
}

pub proof fn lemma_first_err_add(
    a: Seq<Result<APIResponse, FetchError>>,
    b: Seq<Result<APIResponse, FetchError>>,
)
    ensures
        first_err(a + b) == (if first_err(a) is Some {
            first_err(a)
        } else {
            first_err(b)
        }),
    decreases b.len(),
{
    if b.len() == 0 {
        assert(a + b =~= a);
    } else {
        lemma_first_err_add(a, b.drop_last());
        assert((a + b).drop_last() =~= a + b.drop_last());
        assert((a + b).last() == b.last());
    }
}

/// Fail-fast: some fetch failed exactly when some result is an error.
pub proof fn lemma_first_err_exists(rs: Seq<Result<APIResponse, FetchError>>)
    ensures
        first_err(rs) is Some <==> exists|i: int| 0 <= i < rs.len() && rs[i] is Err,
    decreases rs.len(),
{
    if rs.len() > 0 {
        lemma_first_err_exists(rs.drop_last());
        if first_err(rs) is Some {
            if first_err(rs.drop_last()) is Some {
                let w = choose|w: int| 0 <= w < rs.drop_last().len() && rs.drop_last()[w] is Err;
                assert(rs[w] is Err);
            } else {
                assert(rs[rs.len() - 1] is Err);
            }
        }
        if exists|i: int| 0 <= i < rs.len() && rs[i] is Err {
            let w = choose|w: int| 0 <= w < rs.len() && rs[w] is Err;
            if w < rs.len() - 1 {
                assert(rs.drop_last()[w] is Err);
            }
        }
    }
}

/// Joins the per-tag fetch outcomes: on the first error, in tag order, the
/// whole aggregation fails with it; otherwise the responses are merged,
/// deduplicated by id, sorted by the requested key and ordered by the
/// requested direction.
pub fn fetch_all(
    results: Vec<Result<APIResponse, FetchError>>,
    sort_by: SortBy,
    direction: Direction,
) -> (r: Result<Vec<Post>, FetchError>)
    ensures
        r is Ok <==> first_err(results@) is None,
        r is Err ==> r->Err_0 == first_err(results@)->0,
        r is Ok ==> r->Ok_0@ == aggregate_spec(resps(results@), sort_by, direction),
{
    let mut v = results;
    let mut rs: Vec<APIResponse> = Vec::new();
    let ghost mut done: Seq<Result<APIResponse, FetchError>> = Seq::empty();
    proof {
        assert(done + v@ =~= results@);
    }
    while v.len() > 0
        invariant
            results@ == done + v@,
            first_err(done) is None,
            rs@ == resps(done),
        decreases v@.len(),
    {
        let ghost pre = v@;
        let ghost pre_done = done;
        let x = v.remove(0);
        let ghost gx = x;
        proof {
            assert(pre.drop_first() =~= v@);
            assert(pre.first() == x);
        }
        match x {
            Ok(a) => {
                rs.push(a);
                proof {
                    done = pre_done.push(gx);
                    assert(done.drop_last() =~= pre_done);
                    assert(done.last() == gx);
                    assert(results@ =~= done + v@);
                    assert(rs@ =~= resps(done));
                }
            },
            Err(e) => {
                proof {
                    assert(pre =~= seq![gx] + v@);
                    lemma_first_err_add(seq![gx], v@);
                    assert(seq![gx].drop_last() =~= Seq::<Result<APIResponse, FetchError>>::empty());
                    assert(seq![gx].last() == gx);
                    assert(first_err(Seq::<Result<APIResponse, FetchError>>::empty()) is None);
                    assert(first_err(seq![gx]) == Some(gx->Err_0));
                    lemma_first_err_add(pre_done, pre);
                    assert(first_err(results@) == Some(gx->Err_0));
                }
                return Err(e);
            },
        }
    }
    proof {
        assert(done =~= results@);
    }
    let flat = flatten(rs);
    let ded = dedup(flat);
    let sorted = sort_posts(ded, sort_by);
    let posts = match direction {
        Direction::Asc => sorted,
        Direction::Desc => reverse_posts(sorted),
    };
    Ok(posts)
}

} // verus!
