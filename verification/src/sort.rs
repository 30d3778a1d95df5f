use vstd::prelude::*;
use vstd::multiset::Multiset;
use crate::model::{Post, SortBy};

verus! {

broadcast use {vstd::seq_lib::group_to_multiset_ensures, vstd::multiset::group_multiset_axioms};

/// The integer a post is compared by under the given sort key.
pub open spec fn key_of(p: Post, k: SortBy) -> int {
    match k {
        SortBy::Id => p.id as int,
        SortBy::Reads => p.reads as int,
        SortBy::Likes => p.likes as int,
        SortBy::Popularity => p.popularity as int,
    }
}

/// Ascending order of the given key.
pub open spec fn sorted_by_key(s: Seq<Post>, k: SortBy) -> bool {
    forall|i: int, j: int| 0 <= i < j < s.len() ==> key_of(s[i], k) <= key_of(s[j], k)
}

/// Descending order of the given key.
pub open spec fn sorted_desc_by_key(s: Seq<Post>, k: SortBy) -> bool {
    forall|i: int, j: int| 0 <= i < j < s.len() ==> key_of(s[i], k) >= key_of(s[j], k)
}

/// No two posts of `s` share a key: the sorted order is unique.
pub open spec fn distinct_keys(s: Seq<Post>, k: SortBy) -> bool {
    forall|i: int, j: int| 0 <= i < j < s.len() ==> key_of(s[i], k) != key_of(s[j], k)
}

/// The index of the first post with the least key.
pub open spec fn min_idx(s: Seq<Post>, k: SortBy) -> int
    recommends
        s.len() > 0,
    decreases s.len(),
{
    if s.len() <= 1 {
        0
    } else {
        let m = min_idx(s.drop_last(), k);
        if !(0 <= m < s.len() - 1) {
            0
        } else if key_of(s.last(), k) < key_of(s[m], k) {
            s.len() - 1
        } else {
            m
        }
    }
}

pub proof fn lemma_min_idx(s: Seq<Post>, k: SortBy)
    requires
        s.len() > 0,
    ensures
        0 <= min_idx(s, k) < s.len(),
        forall|j: int|
            0 <= j < s.len() ==> key_of(s[min_idx(s, k)], k) <= #[trigger] key_of(s[j], k),
    decreases s.len(),
{
    if s.len() > 1 {
        lemma_min_idx(s.drop_last(), k);
        let m = min_idx(s.drop_last(), k);
        assert forall|j: int| 0 <= j < s.len() implies key_of(s[min_idx(s, k)], k) <= #[trigger] key_of(
            s[j],
            k,
        ) by {
            if j < s.len() - 1 {
                assert(s.drop_last()[j] == s[j]);
                assert(key_of(s.drop_last()[m], k) <= key_of(s.drop_last()[j], k));
            }
        }
    }
}

/// Stable selection sort: the first least-keyed post, then the rest sorted.
pub open spec fn sel_sort(s: Seq<Post>, k: SortBy) -> Seq<Post>
    decreases s.len(),
{
    if s.len() == 0 {
        Seq::empty()
    } else {
        let m = min_idx(s, k);
        let mm = if 0 <= m < s.len() {
            m
        } else {
            0
        };
        seq![s[mm]] + sel_sort(s.remove(mm), k)
    }
}

/// Sorting keeps exactly the input posts.
pub proof fn lemma_sel_sort_multiset(s: Seq<Post>, k: SortBy)
    ensures
        sel_sort(s, k).to_multiset() == s.to_multiset(),
    decreases s.len(),
{
    if s.len() > 0 {
        lemma_min_idx(s, k);
        let m = min_idx(s, k);
        let x = s[m];
        let rest = s.remove(m);
        lemma_sel_sort_multiset(rest, k);
        vstd::seq_lib::lemma_multiset_commutative(seq![x], sel_sort(rest, k));
        assert(seq![x] =~= Seq::empty().push(x));
        assert(seq![x].to_multiset() =~= Multiset::empty().insert(x));
        assert(rest.to_multiset() == s.to_multiset().remove(x));
        assert(s.contains(x));
        assert(s.to_multiset().count(x) > 0);
        assert(sel_sort(s, k).to_multiset() =~= s.to_multiset());
    }
}

/// The sort's output is ascending in the requested key.
pub proof fn lemma_sel_sort_sorted(s: Seq<Post>, k: SortBy)
    ensures
        sorted_by_key(sel_sort(s, k), k),
    decreases s.len(),
{
    if s.len() > 0 {
        lemma_min_idx(s, k);
        let m = min_idx(s, k);
        let x = s[m];
        let rest = s.remove(m);
        lemma_sel_sort_sorted(rest, k);
        lemma_sel_sort_multiset(rest, k);
        let out = sel_sort(s, k);
        assert forall|i: int, j: int| 0 <= i < j < out.len() implies key_of(out[i], k) <= key_of(
            out[j],
            k,
        ) by {
            if i == 0 {
                let e = out[j];
                assert(e == sel_sort(rest, k)[j - 1]);
                assert(sel_sort(rest, k).contains(e));
                assert(sel_sort(rest, k).to_multiset().count(e) > 0);
                assert(rest.contains(e));
                let w = choose|w: int| 0 <= w < rest.len() && rest[w] == e;
                if w < m {
                    assert(rest[w] == s[w]);
                    assert(key_of(x, k) <= key_of(s[w], k));
                } else {
                    assert(rest[w] == s[w + 1]);
                    assert(key_of(x, k) <= key_of(s[w + 1], k));
                }
            } else {
                assert(out[i] == sel_sort(rest, k)[i - 1]);
                assert(out[j] == sel_sort(rest, k)[j - 1]);
            }
        }
    }
}

fn key_at(p: &Post, k: SortBy) -> (r: i64)
    ensures
        r as int == key_of(*p, k),
{
    match k {
        SortBy::Id => p.id,
        SortBy::Reads => p.reads,
        SortBy::Likes => p.likes,
        SortBy::Popularity => p.popularity,
    }
}

fn min_index(v: &Vec<Post>, k: SortBy) -> (mi: usize)
    requires
        v@.len() > 0,
    ensures
        mi as int == min_idx(v@, k),
        mi < v@.len(),
{
    let mut mi: usize = 0;
    let mut j: usize = 1;
    proof {
        assert(v@.take(1).len() == 1);
        assert(min_idx(v@.take(1), k) == 0);
    }
    while j < v.len()
        invariant
            1 <= j <= v@.len(),
            mi < j,
            mi as int == min_idx(v@.take(j as int), k),
        decreases v@.len() - j,
    {
        proof {
            assert(v@.take(j + 1).drop_last() =~= v@.take(j as int));
            assert(v@.take(j + 1).last() == v@[j as int]);
            assert(v@.take(j + 1)[mi as int] == v@[mi as int]);
        }
        if key_at(&v[j], k) < key_at(&v[mi], k) {
            mi = j;
        }
        j = j + 1;
    }
    proof {
        assert(v@.take(v@.len() as int) =~= v@);
    }
    mi
}

/// Sorts the posts ascending by the requested key; of equal keys the earlier
/// input post comes first.
pub fn sort_posts(posts: Vec<Post>, k: SortBy) -> (r: Vec<Post>)
    ensures
        r@ == sel_sort(posts@, k),
{
    let mut v = posts;
    let mut out: Vec<Post> = Vec::new();
    proof {
        assert(out@ + sel_sort(v@, k) =~= sel_sort(v@, k));
    }
    while v.len() > 0
        invariant
            out@ + sel_sort(v@, k) == sel_sort(posts@, k),
        decreases v@.len(),
    {
        let ghost pre = v@;
        let ghost pre_out = out@;
        let mi = min_index(&v, k);
        let x = v.remove(mi);
        proof {
            lemma_min_idx(pre, k);
            assert(pre.remove(mi as int) =~= v@);
            assert(x == pre[mi as int]);
        }
        out.push(x);
        proof {
            assert(seq![x] + sel_sort(v@, k) == sel_sort(pre, k));
            assert(out@ + sel_sort(v@, k) =~= pre_out + (seq![x] + sel_sort(v@, k)));
        }
    }
    proof {
        assert(out@ =~= out@ + sel_sort(v@, k));
    }
    out
}

/// Reverses the post list.
pub fn reverse_posts(posts: Vec<Post>) -> (r: Vec<Post>)
    ensures
        r@ == posts@.reverse(),
{
    let mut v = posts;
    let mut out: Vec<Post> = Vec::new();
    proof {
        assert(v@ =~= posts@.take(v@.len() as int));
    }
    while v.len() > 0
        invariant
            v@ == posts@.take(v@.len() as int),
            out@.len() + v@.len() == posts@.len(),
            forall|i: int| 0 <= i < out@.len() ==> out@[i] == posts@[posts@.len() - 1 - i],
        decreases v@.len(),
    {
        let ghost pre = v@;
        let x = v.pop().unwrap();
        proof {
            assert(x == pre.last());
            assert(pre.last() == posts@[pre.len() - 1]);
            assert(v@ =~= posts@.take(v@.len() as int));
        }
        out.push(x);
    }
    proof {
        assert(out@ =~= posts@.reverse());
    }
    out
}

/// Reversing an ascending order yields a descending one.
pub proof fn lemma_reverse_sorted_desc(s: Seq<Post>, k: SortBy)
    requires
        sorted_by_key(s, k),
    ensures
        sorted_desc_by_key(s.reverse(), k),
{
    assert forall|i: int, j: int| 0 <= i < j < s.reverse().len() implies key_of(
        s.reverse()[i],
        k,
    ) >= key_of(s.reverse()[j], k) by {
        assert(s.reverse()[i] == s[s.len() - 1 - i]);
        assert(s.reverse()[j] == s[s.len() - 1 - j]);
    }
}

/// Two descending-sorted arrangements of the same posts agree everywhere when
/// no key is shared.
pub proof fn lemma_sorted_desc_unique(a: Seq<Post>, b: Seq<Post>, k: SortBy)
    requires
        sorted_desc_by_key(a, k),
        sorted_desc_by_key(b, k),
        a.to_multiset() == b.to_multiset(),
        distinct_keys(a, k),
    ensures
        a == b,
    decreases a.len(),
{
    assert(a.len() == a.to_multiset().len());
    assert(b.len() == b.to_multiset().len());
    if a.len() == 0 {
        assert(a =~= b);
    } else {
        assert(b.len() > 0);
        assert(a.contains(a[0]));
        assert(a.to_multiset().count(a[0]) > 0);
        assert(b.to_multiset().count(a[0]) > 0);
        assert(b.contains(a[0]));
        let wb = choose|wb: int| 0 <= wb < b.len() && b[wb] == a[0];
        assert(key_of(b[0], k) >= key_of(b[wb], k));
        assert(b.contains(b[0]));
        assert(b.to_multiset().count(b[0]) > 0);
        assert(a.to_multiset().count(b[0]) > 0);
        assert(a.contains(b[0]));
        let wa = choose|wa: int| 0 <= wa < a.len() && a[wa] == b[0];
        assert(key_of(a[0], k) >= key_of(a[wa], k));
        assert(key_of(a[0], k) == key_of(b[0], k));
        if wa != 0 {
            assert(key_of(a[0], k) != key_of(a[wa], k));
        }
        assert(a[0] == b[0]);
        let ar = a.drop_first();
        let br = b.drop_first();
        assert(a.remove(0) =~= ar);
        assert(b.remove(0) =~= br);
        assert(ar.to_multiset() == a.to_multiset().remove(a[0]));
        assert(br.to_multiset() == b.to_multiset().remove(b[0]));
        assert(ar.to_multiset() =~= br.to_multiset());
        assert(sorted_desc_by_key(ar, k)) by {
            assert forall|i: int, j: int| 0 <= i < j < ar.len() implies key_of(ar[i], k) >= key_of(
                ar[j],
                k,
            ) by {
                assert(ar[i] == a[i + 1]);
                assert(ar[j] == a[j + 1]);
            }
        }
        assert(sorted_desc_by_key(br, k)) by {
            assert forall|i: int, j: int| 0 <= i < j < br.len() implies key_of(br[i], k) >= key_of(
                br[j],
                k,
            ) by {
                assert(br[i] == b[i + 1]);
                assert(br[j] == b[j + 1]);
            }
        }
        assert(distinct_keys(ar, k)) by {
            assert forall|i: int, j: int| 0 <= i < j < ar.len() implies key_of(ar[i], k) != key_of(
                ar[j],
                k,
            ) by {
                assert(ar[i] == a[i + 1]);
                assert(ar[j] == a[j + 1]);
            }
        }
        lemma_sorted_desc_unique(ar, br, k);
        assert forall|i: int| 0 <= i < a.len() implies a[i] == b[i] by {
            if i > 0 {
                assert(a[i] == ar[i - 1]);
                assert(b[i] == br[i - 1]);
            }
        }
        assert(a =~= b);
    }
}

/// Reversing the ascending sort yields the one descending order: for posts
/// with pairwise distinct keys, any descending-sorted arrangement of the same
/// posts is exactly the reversed ascending one.
pub proof fn lemma_direction_symmetry(asc: Seq<Post>, desc: Seq<Post>, k: SortBy)
    requires
        sorted_by_key(asc, k),
        sorted_desc_by_key(desc, k),
        asc.to_multiset() == desc.to_multiset(),
        distinct_keys(asc, k),
    ensures
        desc == asc.reverse(),
{
    lemma_reverse_sorted_desc(asc, k);
    asc.lemma_reverse_to_multiset();
    assert(distinct_keys(asc.reverse(), k)) by {
        assert forall|i: int, j: int| 0 <= i < j < asc.reverse().len() implies key_of(
            asc.reverse()[i],
            k,
        ) != key_of(asc.reverse()[j], k) by {
            assert(asc.reverse()[i] == asc[asc.len() - 1 - i]);
            assert(asc.reverse()[j] == asc[asc.len() - 1 - j]);
        }
    }
    lemma_sorted_desc_unique(asc.reverse(), desc, k);
}

} // verus!
