//! The pool of candidates of one epoch, and what is kept of it.
use crate::candidate::{Candidate, CandidateView, Order};
use vstd::prelude::*;

verus! {

/// The candidates of a pool as mathematical values.
pub open spec fn views(pool: Seq<Candidate>) -> Seq<CandidateView> {
    pool.map_values(|cd: Candidate| cd@)
}

/// The items of `s` whose flag is set, in their order.
pub(crate) open spec fn flagged<T>(s: Seq<T>, keep: Seq<bool>) -> Seq<T>
    decreases s.len(),
{
    if s.len() == 0 || keep.len() != s.len() {
        Seq::empty()
    } else {
        let rest = flagged(s.drop_last(), keep.drop_last());
        if keep.last() {
            rest.push(s.last())
        } else {
            rest
        }
    }
}

/// To keep the flagged items is to filter, where the flags tell the predicate.
pub(crate) proof fn lemma_flagged_is_filter<T>(s: Seq<T>, keep: Seq<bool>, pred: spec_fn(T) -> bool)
    requires
        keep.len() == s.len(),
        forall|i: int| 0 <= i < s.len() ==> keep[i] == pred(#[trigger] s[i]),
    ensures
        flagged(s, keep) == s.filter(pred),
    decreases s.len(),
{
    reveal(Seq::filter);
    if s.len() > 0 {
        lemma_flagged_is_filter(s.drop_last(), keep.drop_last(), pred);
    }
}

/// The views of the flagged candidates are the flagged views.
pub(crate) proof fn lemma_flagged_views(pool: Seq<Candidate>, keep: Seq<bool>)
    requires
        keep.len() == pool.len(),
    ensures
        views(flagged(pool, keep)) == flagged(views(pool), keep),
    decreases pool.len(),
{
    if pool.len() > 0 {
        lemma_flagged_views(pool.drop_last(), keep.drop_last());
        assert(views(pool).drop_last() =~= views(pool.drop_last()));
        let rest = flagged(pool.drop_last(), keep.drop_last());
        if keep.last() {
            assert(views(rest.push(pool.last())) =~= views(rest).push(pool.last()@));
        }
    } else {
        assert(views(flagged(pool, keep)) =~= flagged(views(pool), keep));
    }
}

/// Keeps the items whose flag is set, in their order; none where the flags
/// are not as many as the items.
pub(crate) fn retain_flagged<T>(items: &mut Vec<T>, keep: &Vec<bool>)
    ensures
        final(items)@ == flagged(old(items)@, keep@),
{
    let ghost all = items@;
    let n: usize = keep.len();
    let mut out: Vec<T> = Vec::new();
    if items.len() != n {
        core::mem::swap(items, &mut out);
        return;
    }
    let mut k: usize = 0;
    assert(all.subrange(0, 0) =~= Seq::<T>::empty());
    while k < n
        invariant
            n == keep.len(),
            n == all.len(),
            k <= n,
            items@ == all.subrange(k as int, n as int),
            out@ == flagged(all.subrange(0, k as int), keep@.subrange(0, k as int)),
        decreases n - k,
    {
        let item = items.remove(0);
        assert(item == all[k as int]);
        assert(items@ =~= all.subrange(k + 1, n as int));
        proof {
            let s = all.subrange(0, k + 1);
            let f = keep@.subrange(0, k + 1);
            assert(s.drop_last() =~= all.subrange(0, k as int));
            assert(f.drop_last() =~= keep@.subrange(0, k as int));
            assert(s.last() == all[k as int]);
            assert(f.last() == keep@[k as int]);
        }
        if keep[k] {
            out.push(item);
        }
        k += 1;
    }
    assert(all.subrange(0, n as int) =~= all);
    assert(keep@.subrange(0, n as int) =~= keep@);
    core::mem::swap(items, &mut out);
}

/// `cd` put in its place in `s`, which is in order: behind every candidate
/// that does not come after it.
pub open spec fn inserted(s: Seq<CandidateView>, cd: CandidateView, by: Order) -> Seq<
    CandidateView,
>
    decreases s.len(),
{
    if s.len() == 0 || s.last().place(by) <= cd.place(by) {
        s.push(cd)
    } else {
        inserted(s.drop_last(), cd, by).push(s.last())
    }
}

/// The candidates of `s` in the given order; candidates of one place stay
/// in the order they came in.
pub open spec fn sorted(s: Seq<CandidateView>, by: Order) -> Seq<CandidateView>
    decreases s.len(),
{
    if s.len() == 0 {
        s
    } else {
        inserted(sorted(s.drop_last(), by), s.last(), by)
    }
}

/// The places never go down along `s`.
pub open spec fn ordered(s: Seq<CandidateView>, by: Order) -> bool {
    forall|i: int, j: int| 0 <= i <= j < s.len() ==> s[i].place(by) <= s[j].place(by)
}

/// The last `count` candidates of `s`, or all of them where there are no more.
pub open spec fn last_of(s: Seq<CandidateView>, count: nat) -> Seq<CandidateView> {
    if s.len() > count {
        s.subrange(s.len() - count, s.len() as int)
    } else {
        s
    }
}

/// Where `cd` goes in `s`: `inserted` cuts `s` at `at`, where every
/// candidate from `at` on comes after `cd` and the one before `at` does not.
proof fn lemma_inserted_at(s: Seq<CandidateView>, cd: CandidateView, by: Order, at: int)
    requires
        0 <= at <= s.len(),
        forall|k: int| at <= k < s.len() ==> (#[trigger] s[k]).place(by) > cd.place(by),
        at > 0 ==> s[at - 1].place(by) <= cd.place(by),
    ensures
        inserted(s, cd, by) == s.subrange(0, at).push(cd) + s.subrange(at, s.len() as int),
    decreases s.len() - at,
{
    if at == s.len() {
        assert(s.subrange(0, at) =~= s);
        assert(s.push(cd) + s.subrange(at, s.len() as int) =~= s.push(cd));
    } else {
        let front = s.drop_last();
        assert(s.last().place(by) > cd.place(by));
        assert forall|k: int| at <= k < front.len() implies (#[trigger] front[k]).place(by)
            > cd.place(by) by {
            assert(front[k] == s[k]);
        }
        lemma_inserted_at(front, cd, by, at);
        assert(front.subrange(0, at) =~= s.subrange(0, at));
        assert((front.subrange(0, at).push(cd) + front.subrange(at, front.len() as int)).push(
            s.last(),
        ) =~= s.subrange(0, at).push(cd) + s.subrange(at, s.len() as int));
    }
}

/// To put one more candidate in its place keeps the order.
pub proof fn lemma_inserted_ordered(s: Seq<CandidateView>, cd: CandidateView, by: Order)
    requires
        ordered(s, by),
    ensures
        ordered(inserted(s, cd, by), by),
        inserted(s, cd, by).len() == s.len() + 1,
        inserted(s, cd, by).to_multiset() == s.to_multiset().insert(cd),
    decreases s.len(),
{
    broadcast use vstd::seq_lib::group_to_multiset_ensures;

    if s.len() == 0 || s.last().place(by) <= cd.place(by) {
        let r = s.push(cd);
        assert forall|i: int, j: int| 0 <= i <= j < r.len() implies r[i].place(by) <= r[j].place(
            by,
        ) by {
            if j == s.len() && i < s.len() {
                assert(s[i].place(by) <= s.last().place(by));
            }
        }
    } else {
        let front = s.drop_last();
        assert(ordered(front, by)) by {
            assert forall|i: int, j: int| 0 <= i <= j < front.len() implies front[i].place(by)
                <= front[j].place(by) by {
                assert(front[i] == s[i] && front[j] == s[j]);
            }
        }
        lemma_inserted_ordered(front, cd, by);
        let mid = inserted(front, cd, by);
        let r = mid.push(s.last());
        assert(s =~= front.push(s.last()));
        assert forall|i: int, j: int| 0 <= i <= j < r.len() implies r[i].place(by) <= r[j].place(
            by,
        ) by {
            if j == mid.len() && i < mid.len() {
                assert(mid.to_multiset().count(mid[i]) > 0);
                if mid[i] == cd {
                } else {
                    assert(front.to_multiset().count(mid[i]) > 0);
                    assert(front.contains(mid[i]));
                    let k = choose|k: int| 0 <= k < front.len() && front[k] == mid[i];
                    assert(s[k].place(by) <= s[s.len() - 1].place(by));
                }
            }
        }
    }
}

/// What was sorted is in order, and holds the same candidates as before,
/// each as many times.
pub proof fn lemma_sorted(s: Seq<CandidateView>, by: Order)
    ensures
        ordered(sorted(s, by), by),
        sorted(s, by).len() == s.len(),
        sorted(s, by).to_multiset() == s.to_multiset(),
    decreases s.len(),
{
    broadcast use vstd::seq_lib::group_to_multiset_ensures;

    if s.len() > 0 {
        lemma_sorted(s.drop_last(), by);
        lemma_inserted_ordered(sorted(s.drop_last(), by), s.last(), by);
        assert(s =~= s.drop_last().push(s.last()));
    }
}

/// Of a pool put in order, the last `count` candidates are as many as
/// asked for, where there are that many; each of them is a candidate of the
/// pool; and none of them comes before a candidate that is left out.
pub proof fn lemma_last_of_sorted(pool: Seq<CandidateView>, count: nat, by: Order)
    ensures
        last_of(sorted(pool, by), count).len() == if pool.len() > count {
            count
        } else {
            pool.len()
        },
        last_of(sorted(pool, by), count).to_multiset().subset_of(pool.to_multiset()),
        forall|i: int, j: int|
            0 <= i < sorted(pool, by).len() - last_of(sorted(pool, by), count).len() && 0 <= j
                < last_of(sorted(pool, by), count).len() ==> (#[trigger] sorted(pool, by)[i]).place(
                by,
            ) <= (#[trigger] last_of(sorted(pool, by), count)[j]).place(by),
{
    broadcast use vstd::seq_lib::group_to_multiset_ensures;

    lemma_sorted(pool, by);
    let s = sorted(pool, by);
    let kept = last_of(s, count);
    let cut = s.len() - kept.len();
    let front = s.subrange(0, cut);
    assert(s =~= front + kept);
    vstd::seq_lib::lemma_multiset_commutative(front, kept);
    assert forall|i: int, j: int| 0 <= i < cut && 0 <= j < kept.len() implies (#[trigger] s[i]).place(
        by,
    ) <= (#[trigger] kept[j]).place(by) by {
        assert(kept[j] == s[cut + j]);
    }
}

/// Puts the pool in the given order; candidates of one place stay in the
/// order they came in.
pub fn sort_pool(pool: &mut Vec<Candidate>, by: Order)
    ensures
        views(final(pool)@) == sorted(views(old(pool)@), by),
{
    let ghost all = pool@;
    let n: usize = pool.len();
    let mut done: Vec<Candidate> = Vec::new();
    let mut k: usize = 0;
    assert(views(all.subrange(0, 0)) =~= Seq::<CandidateView>::empty());
    while k < n
        invariant
            n == all.len(),
            k <= n,
            done@.len() == k,
            pool@ == all.subrange(k as int, n as int),
            views(done@) == sorted(views(all.subrange(0, k as int)), by),
        decreases n - k,
    {
        let cd = pool.remove(0);
        assert(cd == all[k as int]);
        assert(pool@ =~= all.subrange(k + 1, n as int));
        let key: i64 = cd.sort_key(by);
        let mut at: usize = done.len();
        while at > 0 && done[at - 1].sort_key(by) > key
            invariant
                at <= done@.len(),
                key == cd@.place(by),
                forall|i: int| at <= i < done@.len() ==> (#[trigger] views(done@)[i]).place(by) > key,
            decreases at,
        {
            at -= 1;
        }
        proof {
            let before = views(done@);
            assert(at > 0 ==> before[at - 1].place(by) <= cd@.place(by));
            lemma_inserted_at(before, cd@, by, at as int);
            let grown = views(all.subrange(0, k + 1));
            assert(grown.drop_last() =~= views(all.subrange(0, k as int)));
            assert(grown.last() == cd@);
            assert(views(done@.insert(at as int, cd)) =~= before.subrange(0, at as int).push(cd@)
                + before.subrange(at as int, before.len() as int));
        }
        done.insert(at, cd);
        k += 1;
    }
    assert(all.subrange(0, n as int) =~= all);
    core::mem::swap(pool, &mut done);
}

/// Keeps the last `count` candidates of the pool, or all of them where
/// there are no more.
pub fn keep_last(pool: &mut Vec<Candidate>, count: usize)
    ensures
        views(final(pool)@) == last_of(views(old(pool)@), count as nat),
{
    let ghost all = pool@;
    let n: usize = pool.len();
    if n > count {
        let mut tail = pool.split_off(n - count);
        assert(views(tail@) =~= views(all).subrange(n - count, n as int));
        core::mem::swap(pool, &mut tail);
    }
}

} // verus!
