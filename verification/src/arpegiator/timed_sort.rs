use vstd::prelude::*;
use crate::arpegiator::timed_event::TimedEvent;

verus! {

/// `a` comes no later than `b`: earlier time, or same time and no larger identifier.
pub open spec fn timed_le<T: TimedEvent>(a: T, b: T) -> bool {
    a.time_of() < b.time_of() || (a.time_of() == b.time_of() && a.id_of() <= b.id_of())
}

/// Where `x` goes in `s`: after every element that comes no later than it.
pub open spec fn timed_position<T: TimedEvent>(s: Seq<T>, x: T) -> int
    decreases s.len(),
{
    if s.len() == 0 {
        0
    } else if timed_le(s.last(), x) {
        s.len() as int
    } else {
        timed_position(s.drop_last(), x)
    }
}

/// Events sorted by time, then by identifier, events that tie keeping
/// their order.
pub open spec fn sort_timed<T: TimedEvent>(s: Seq<T>) -> Seq<T>
    decreases s.len(),
{
    if s.len() == 0 {
        s
    } else {
        let sorted = sort_timed(s.drop_last());
        sorted.insert(timed_position(sorted, s.last()), s.last())
    }
}

proof fn lemma_timed_position_bounds<T: TimedEvent>(s: Seq<T>, x: T)
    ensures
        0 <= timed_position(s, x) <= s.len(),
    decreases s.len(),
{
    if s.len() > 0 {
        lemma_timed_position_bounds(s.drop_last(), x);
    }
}

pub proof fn lemma_sort_timed_len<T: TimedEvent>(s: Seq<T>)
    ensures
        sort_timed(s).len() == s.len(),
    decreases s.len(),
{
    if s.len() > 0 {
        lemma_sort_timed_len(s.drop_last());
        lemma_timed_position_bounds(sort_timed(s.drop_last()), s.last());
    }
}

/// Position of `x` in `s`, scanning from the end.
fn find_position<T: TimedEvent>(s: &Vec<T>, x: &T) -> (r: usize)
    ensures
        r == timed_position(s@, *x),
{
    let t = x.timestamp();
    let id = x.id();
    let mut i: usize = s.len();
    assert(s@.take(i as int) == s@);
    while i > 0
        invariant
            0 <= i <= s@.len(),
            t == x.time_of(),
            id == x.id_of(),
            timed_position(s@, *x) == timed_position(s@.take(i as int), *x),
        decreases i,
    {
        let e = &s[i - 1];
        let et = e.timestamp();
        let eid = e.id();
        proof {
            assert(s@.take(i as int).drop_last() == s@.take(i - 1));
            assert(s@.take(i as int).last() == s@[i - 1]);
        }
        if et < t || (et == t && eid <= id) {
            return i;
        }
        i = i - 1;
    }
    0
}

/// Sorts events by time, then by identifier; events that tie keep their order.
pub fn sort_by_time<T: TimedEvent>(v: Vec<T>) -> (r: Vec<T>)
    ensures
        r@ == sort_timed(v@),
{
    let ghost orig = v@;
    let total = v.len();
    let mut rest = v;
    let mut sorted: Vec<T> = Vec::new();
    let mut k: usize = 0;
    while rest.len() > 0
        invariant
            0 <= k <= orig.len(),
            orig.len() == total,
            rest@ == orig.skip(k as int),
            sorted@ == sort_timed(orig.take(k as int)),
        decreases rest.len(),
    {
        assert(k < orig.len());
        let x = rest.remove(0);
        proof {
            assert(orig.take(k + 1).drop_last() == orig.take(k as int));
            assert(orig.take(k + 1).last() == x);
            lemma_timed_position_bounds(sorted@, x);
        }
        let pos = find_position(&sorted, &x);
        sorted.insert(pos, x);
        k = k + 1;
        proof {
            assert(rest@ == orig.skip(k as int));
        }
    }
    assert(orig.take(k as int) == orig);
    sorted
}

/// Events come no later than the ones after them.
pub open spec fn timed_sorted<T: TimedEvent>(s: Seq<T>) -> bool {
    forall|i: int, j: int| 0 <= i < j < s.len() ==> timed_le(#[trigger] s[i], #[trigger] s[j])
}

proof fn lemma_timed_position<T: TimedEvent>(s: Seq<T>, x: T)
    requires
        timed_sorted(s),
    ensures
        0 <= timed_position(s, x) <= s.len(),
        forall|i: int| 0 <= i < timed_position(s, x) ==> timed_le(#[trigger] s[i], x),
        forall|i: int| timed_position(s, x) <= i < s.len() ==> !timed_le(#[trigger] s[i], x),
    decreases s.len(),
{
    if s.len() > 0 {
        let d = s.drop_last();
        assert forall|i: int, j: int| 0 <= i < j < d.len() implies timed_le(#[trigger] d[i], #[trigger] d[j]) by {
            assert(d[i] == s[i] && d[j] == s[j]);
        }
        lemma_timed_position(d, x);
        if !timed_le(s.last(), x) {
            assert forall|i: int| timed_position(s, x) <= i < s.len() implies !timed_le(#[trigger] s[i], x) by {
                if i < s.len() - 1 {
                    assert(s[i] == d[i]);
                }
            }
        }
        assert forall|i: int| 0 <= i < timed_position(s, x) implies timed_le(#[trigger] s[i], x) by {
            if i < s.len() - 1 {
                assert(s[i] == d[i]);
            }
        }
    }
}

/// Sorting by time: the result is ordered by time, then identifier, and
/// holds exactly the events given.
pub proof fn lemma_sort_timed_sorted<T: TimedEvent>(s: Seq<T>)
    ensures
        timed_sorted(sort_timed(s)),
        sort_timed(s).to_multiset() == s.to_multiset(),
    decreases s.len(),
{
    if s.len() > 0 {
        let d = s.drop_last();
        let x = s.last();
        lemma_sort_timed_sorted(d);
        let sd = sort_timed(d);
        lemma_timed_position(sd, x);
        let p = timed_position(sd, x);
        let r = sd.insert(p, x);
        assert forall|i: int, j: int| 0 <= i < j < r.len() implies timed_le(#[trigger] r[i], #[trigger] r[j]) by {
            if i < p && j < p {
                assert(r[i] == sd[i] && r[j] == sd[j]);
            } else if i < p && j == p {
                assert(r[i] == sd[i]);
            } else if i < p {
                assert(r[i] == sd[i] && r[j] == sd[j - 1]);
            } else if i == p {
                assert(r[j] == sd[j - 1]);
            } else {
                assert(r[i] == sd[i - 1] && r[j] == sd[j - 1]);
            }
        }
        vstd::seq_lib::to_multiset_insert(sd, p, x);
        assert(s == d.push(x));
        vstd::seq_lib::to_multiset_build(d, x);
    }
}

} // verus!
