use vstd::prelude::*;
use vstd::seq_lib::group_to_multiset_ensures;
use crate::records::{CommitRecord, RecordView};

verus! {

/// The records are in ascending timestamp order.
pub open spec fn sorted_by_date(s: Seq<RecordView>) -> bool {
    forall|i: int, j: int| 0 <= i <= j < s.len() ==> s[i].date <= s[j].date
}

/// Inserts `x` directly after the last record whose timestamp is at most
/// `x.date`. Records with equal timestamps therefore keep their original
/// relative order.
pub open spec fn insert_by_date(s: Seq<RecordView>, x: RecordView) -> Seq<RecordView>
    decreases s.len(),
{
    if s.len() == 0 {
        seq![x]
    } else if s.last().date <= x.date {
        s.push(x)
    } else {
        insert_by_date(s.drop_last(), x).push(s.last())
    }
}

/// Stable insertion sort by timestamp: the unique reordering that is sorted
/// by timestamp and keeps the original order of records with equal
/// timestamps.
pub open spec fn sort_by_date(s: Seq<RecordView>) -> Seq<RecordView>
    decreases s.len(),
{
    if s.len() == 0 {
        s
    } else {
        insert_by_date(sort_by_date(s.drop_last()), s.last())
    }
}

proof fn lemma_insert_by_date_len(s: Seq<RecordView>, x: RecordView)
    ensures
        insert_by_date(s, x).len() == s.len() + 1,
    decreases s.len(),
{
    if s.len() > 0 && !(s.last().date <= x.date) {
        lemma_insert_by_date_len(s.drop_last(), x);
    }
}

proof fn lemma_insert_by_date_bound(s: Seq<RecordView>, x: RecordView, b: i64)
    requires
        forall|i: int| 0 <= i < s.len() ==> s[i].date <= b,
        x.date <= b,
    ensures
        forall|i: int|
            0 <= i < insert_by_date(s, x).len() ==> insert_by_date(s, x)[i].date <= b,
    decreases s.len(),
{
    lemma_insert_by_date_len(s, x);
    if s.len() == 0 {
        assert(insert_by_date(s, x) =~= seq![x]);
    } else if s.last().date <= x.date {
        assert(insert_by_date(s, x) =~= s.push(x));
        assert(forall|i: int| 0 <= i < s.len() ==> s.push(x)[i] == s[i]);
    } else {
        let d = s.drop_last();
        assert(forall|i: int| 0 <= i < d.len() ==> d[i].date <= b);
        lemma_insert_by_date_bound(d, x, b);
        lemma_insert_by_date_len(d, x);
        assert(forall|i: int|
            0 <= i < insert_by_date(d, x).len() ==> insert_by_date(d, x).push(s.last())[i]
                == insert_by_date(d, x)[i]);
    }
}

proof fn lemma_insert_by_date_sorted(s: Seq<RecordView>, x: RecordView)
    requires
        sorted_by_date(s),
    ensures
        sorted_by_date(insert_by_date(s, x)),
    decreases s.len(),
{
    lemma_insert_by_date_len(s, x);
    if s.len() == 0 {
    } else if s.last().date <= x.date {
        assert(forall|i: int| 0 <= i < s.len() ==> s[i].date <= x.date);
    } else {
        let d = s.drop_last();
        assert(sorted_by_date(d));
        lemma_insert_by_date_sorted(d, x);
        lemma_insert_by_date_len(d, x);
        assert(forall|i: int| 0 <= i < d.len() ==> d[i].date <= s.last().date);
        lemma_insert_by_date_bound(d, x, s.last().date);
    }
}

/// The merged collection, once sorted, is in ascending timestamp order: for
/// any two positions `i <= j` of the sorted result, the record at `i` has a
/// timestamp at most that of the record at `j`.
pub proof fn lemma_sort_by_date_sorted(s: Seq<RecordView>)
    ensures
        sorted_by_date(sort_by_date(s)),
    decreases s.len(),
{
    if s.len() > 0 {
        lemma_sort_by_date_sorted(s.drop_last());
        lemma_insert_by_date_sorted(sort_by_date(s.drop_last()), s.last());
    }
}

proof fn lemma_insert_by_date_multiset(s: Seq<RecordView>, x: RecordView)
    ensures
        insert_by_date(s, x).to_multiset() == s.to_multiset().insert(x),
    decreases s.len(),
{
    broadcast use group_to_multiset_ensures;

    if s.len() == 0 {
        assert(seq![x] =~= Seq::<RecordView>::empty().push(x));
        assert(Seq::<RecordView>::empty().push(x).to_multiset() =~= Seq::<
            RecordView,
        >::empty().to_multiset().insert(x));
        assert(insert_by_date(s, x).to_multiset() =~= s.to_multiset().insert(x));
    } else if s.last().date <= x.date {
        assert(s.push(x).to_multiset() =~= s.to_multiset().insert(x));
    } else {
        let d = s.drop_last();
        lemma_insert_by_date_multiset(d, x);
        assert(d.push(s.last()) =~= s);
        assert(insert_by_date(d, x).push(s.last()).to_multiset() =~= insert_by_date(
            d,
            x,
        ).to_multiset().insert(s.last()));
        assert(d.push(s.last()).to_multiset() =~= d.to_multiset().insert(s.last()));
        assert(insert_by_date(s, x).to_multiset() =~= s.to_multiset().insert(x));
    }
}

/// Sorting rearranges the records and nothing else: the sorted result holds
/// exactly the records of the input, with multiplicity.
pub proof fn lemma_sort_by_date_permutes(s: Seq<RecordView>)
    ensures
        sort_by_date(s).to_multiset() == s.to_multiset(),
    decreases s.len(),
{
    broadcast use group_to_multiset_ensures;

    if s.len() > 0 {
        let d = s.drop_last();
        lemma_sort_by_date_permutes(d);
        lemma_insert_by_date_multiset(sort_by_date(d), s.last());
        assert(d.push(s.last()) =~= s);
        assert(d.push(s.last()).to_multiset() =~= d.to_multiset().insert(s.last()));
        assert(sort_by_date(s).to_multiset() =~= s.to_multiset());
    }
}

/// A record occurs in the sorted result exactly when it occurs in the input.
pub proof fn lemma_sort_by_date_contains(s: Seq<RecordView>, x: RecordView)
    ensures
        sort_by_date(s).contains(x) <==> s.contains(x),
{
    broadcast use group_to_multiset_ensures;

    lemma_sort_by_date_permutes(s);
    assert(s.contains(x) <==> s.to_multiset().count(x) > 0);
    assert(sort_by_date(s).contains(x) <==> sort_by_date(s).to_multiset().count(x) > 0);
}

/// The records with one given timestamp, in order.
pub open spec fn date_is(d: i64) -> spec_fn(RecordView) -> bool {
    |r: RecordView| r.date == d
}

proof fn lemma_insert_by_date_filter(t: Seq<RecordView>, x: RecordView, d: i64)
    ensures
        insert_by_date(t, x).filter(date_is(d)) == (if x.date == d {
            t.filter(date_is(d)).push(x)
        } else {
            t.filter(date_is(d))
        }),
    decreases t.len(),
{
    reveal(Seq::filter);
    let p = date_is(d);
    if t.len() == 0 {
        assert(insert_by_date(t, x) == seq![x]);
        assert(seq![x].drop_last() =~= t);
        assert(seq![x].last() == x);
        assert(seq![x].filter(p) == (if p(x) {
            t.filter(p).push(x)
        } else {
            t.filter(p)
        }));
        assert(p(x) == (x.date == d));
    } else if t.last().date <= x.date {
        assert(insert_by_date(t, x) == t.push(x));
        assert(t.push(x).drop_last() =~= t);
        assert(t.push(x).last() == x);
        assert(t.push(x).filter(p) == (if p(x) {
            t.filter(p).push(x)
        } else {
            t.filter(p)
        }));
        assert(p(x) == (x.date == d));
    } else {
        lemma_insert_by_date_filter(t.drop_last(), x, d);
        let inner = insert_by_date(t.drop_last(), x);
        assert(inner.push(t.last()).drop_last() =~= inner);
        assert(inner.push(t.last()).last() == t.last());
        if x.date == d {
            assert(!p(t.last()));
        }
    }
}

/// The sort is stable: picking out the records of any one timestamp, the
/// sorted collection lists them exactly as the input produced them, in the
/// same order.
pub proof fn lemma_sort_by_date_stable(s: Seq<RecordView>, d: i64)
    ensures
        sort_by_date(s).filter(date_is(d)) == s.filter(date_is(d)),
    decreases s.len(),
{
    reveal(Seq::filter);
    if s.len() > 0 {
        lemma_sort_by_date_stable(s.drop_last(), d);
        lemma_insert_by_date_filter(sort_by_date(s.drop_last()), s.last(), d);
    }
}

proof fn lemma_insert_at_index(s: Seq<RecordView>, x: RecordView, idx: int)
    requires
        sorted_by_date(s),
        0 <= idx <= s.len(),
        forall|k: int| idx <= k < s.len() ==> s[k].date > x.date,
        idx > 0 ==> s[idx - 1].date <= x.date,
    ensures
        insert_by_date(s, x) == s.insert(idx, x),
    decreases s.len(),
{
    if s.len() == 0 {
        assert(s.insert(0, x) =~= seq![x]);
    } else if s.last().date <= x.date {
        assert(idx == s.len());
        assert(s.insert(idx, x) =~= s.push(x));
    } else {
        assert(idx < s.len());
        let d = s.drop_last();
        assert(sorted_by_date(d));
        lemma_insert_at_index(d, x, idx);
        assert(s.insert(idx, x) =~= d.insert(idx, x).push(s.last()));
    }
}

/// Sorts the merged records by timestamp ascending, ties broken by the order
/// in which the records were produced.
pub fn aggregate(commits: Vec<CommitRecord>) -> (r: Vec<CommitRecord>)
    ensures
        r.deep_view() == sort_by_date(commits.deep_view()),
{
    let ghost orig: Seq<RecordView> = commits.deep_view();
    let mut v = commits;
    let mut out: Vec<CommitRecord> = Vec::new();
    proof {
        assert(v.deep_view() =~= orig.skip(0));
        assert(out.deep_view() =~= sort_by_date(orig.take(0)));
    }
    while v.len() > 0
        invariant
            v@.len() <= orig.len(),
            v.deep_view() =~= orig.skip(orig.len() - v@.len()),
            out.deep_view() =~= sort_by_date(orig.take(orig.len() - v@.len())),
            sorted_by_date(out.deep_view()),
        decreases v@.len(),
    {
        let ghost k: int = orig.len() - v@.len();
        let ghost old_v: Seq<RecordView> = v.deep_view();
        let ghost old_out: Seq<RecordView> = out.deep_view();
        let x = v.remove(0);
        proof {
            assert(x.deep_view() == old_v[0]);
            assert(old_v[0] == orig[k]);
            assert(v.deep_view() =~= orig.skip(k + 1)) by {
                assert(forall|i: int|
                    0 <= i < v@.len() ==> v.deep_view()[i] == old_v[i + 1]);
            }
        }
        let mut idx = out.len();
        while idx > 0 && out[idx - 1].date > x.date
            invariant
                idx <= out@.len(),
                out.deep_view() == old_out,
                forall|j: int|
                    idx <= j < out@.len() ==> out.deep_view()[j].date > x.deep_view().date,
            decreases idx,
        {
            idx -= 1;
        }
        proof {
            lemma_insert_at_index(old_out, x.deep_view(), idx as int);
            lemma_insert_by_date_sorted(old_out, x.deep_view());
        }
        let ghost pre_insert: Seq<CommitRecord> = out@;
        out.insert(idx, x);
        proof {
            assert(out.deep_view() =~= old_out.insert(idx as int, x.deep_view())) by {
                assert(out@ == pre_insert.insert(idx as int, x));
                assert(forall|j: int|
                    0 <= j < out@.len() ==> out.deep_view()[j] == out@[j].deep_view());
            }
            assert(out.deep_view() =~= insert_by_date(old_out, x.deep_view()));
            let t = orig.take(k + 1);
            assert(t.drop_last() =~= orig.take(k));
            assert(t.last() == orig[k]);
            assert(out.deep_view() =~= sort_by_date(orig.take(k + 1)));
        }
    }
    proof {
        assert(orig.take(orig.len() as int) =~= orig);
    }
    out
}

} // verus!
