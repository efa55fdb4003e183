use vstd::prelude::*;

use crate::message::{TimerInfo, TimerStateClient};

verus! {

/// `a` may be shown above `b`: it has less time left, or as much and an id
/// that is no larger.
pub open spec fn listed_before(a: TimerInfo, b: TimerInfo) -> bool {
    a.remaining < b.remaining || (a.remaining == b.remaining && a.id.0 <= b.id.0)
}

/// Every entry of `s` may be shown above every later one.
pub open spec fn in_listing_order(s: Seq<TimerInfo>) -> bool {
    forall|i: int, j: int| 0 <= i < j < s.len() ==> listed_before(s[i], s[j])
}

pub open spec fn is_running_info(t: TimerInfo) -> bool {
    t.state == TimerStateClient::Running
}

pub open spec fn is_not_running_info(t: TimerInfo) -> bool {
    t.state != TimerStateClient::Running
}

/// The timers in the order a listing shows them: soonest due first, equal
/// times left by ascending id. The same timers, only reordered.
pub fn sort_for_listing(timers: &Vec<TimerInfo>) -> (r: Vec<TimerInfo>)
    ensures
        in_listing_order(r@),
        r@.to_multiset() == timers@.to_multiset(),
{
    broadcast use vstd::seq_lib::to_multiset_insert;
    broadcast use vstd::seq_lib::group_to_multiset_ensures;

    let mut out: Vec<TimerInfo> = Vec::new();
    let mut i: usize = 0;
    assert(out@ =~= timers@.subrange(0, 0));
    while i < timers.len()
        invariant
            0 <= i <= timers.len(),
            in_listing_order(out@),
            out@.to_multiset() == timers@.subrange(0, i as int).to_multiset(),
        decreases timers.len() - i,
    {
        let t = timers[i];
        let mut p: usize = 0;
        while p < out.len() && (out[p].remaining < t.remaining || (out[p].remaining
            == t.remaining && out[p].id.0 <= t.id.0))
            invariant
                0 <= p <= out.len(),
                forall|a: int| 0 <= a < p ==> listed_before(#[trigger] out[a], t),
            decreases out.len() - p,
        {
            p = p + 1;
        }
        let ghost before = out@;
        out.insert(p, t);
        proof {
            assert forall|a: int, b: int| 0 <= a < b < out.len() implies listed_before(
                out[a],
                out[b],
            ) by {
                if b < p {
                } else if b == p {
                } else if a < p {
                    assert(listed_before(before[p as int], before[b - 1]) || p == b - 1);
                } else if a == p {
                    assert(listed_before(before[p as int], before[b - 1]) || p == b - 1);
                }
            }
            assert(timers@.subrange(0, i as int + 1) =~= timers@.subrange(0, i as int).push(t));
            vstd::seq_lib::to_multiset_build(timers@.subrange(0, i as int), t);
            vstd::seq_lib::to_multiset_insert(before, p as int, t);
            assert(out@ == before.insert(p as int, t));
        }
        i = i + 1;
    }
    assert(timers@.subrange(0, timers.len() as int) =~= timers@);
    out
}

/// Splits timers into those that are running and the others, each part in
/// the order given.
pub fn partition_running(timers: &Vec<TimerInfo>) -> (r: (Vec<TimerInfo>, Vec<TimerInfo>))
    ensures
        r.0@ == timers@.filter(|t: TimerInfo| is_running_info(t)),
        r.1@ == timers@.filter(|t: TimerInfo| is_not_running_info(t)),
{
    let mut running: Vec<TimerInfo> = Vec::new();
    let mut others: Vec<TimerInfo> = Vec::new();
    let mut i: usize = 0;
    while i < timers.len()
        invariant
            0 <= i <= timers.len(),
            running@ == timers@.subrange(0, i as int).filter(|t: TimerInfo| is_running_info(t)),
            others@ == timers@.subrange(0, i as int).filter(|t: TimerInfo| is_not_running_info(t)),
        decreases timers.len() - i,
    {
        let t = timers[i];
        proof {
            reveal(Seq::filter);
            assert(timers@.subrange(0, i as int + 1).drop_last() =~= timers@.subrange(0, i as int));
        }
        match t.state {
            TimerStateClient::Running => running.push(t),
            _ => others.push(t),
        }
        i = i + 1;
    }
    assert(timers@.subrange(0, timers.len() as int) =~= timers@);
    (running, others)
}

/// The sum of `s`, as a mathematical integer.
pub open spec fn total_of(s: Seq<u64>) -> int
    decreases s.len(),
{
    if s.len() == 0 {
        0
    } else {
        total_of(s.drop_last()) + s.last()
    }
}

/// The durations one after the other, in milliseconds; `None` where the sum
/// does not fit.
pub fn total_duration(durations: &Vec<u64>) -> (r: Option<u64>)
    ensures
        r matches Some(t) ==> t == total_of(durations@),
        r is None <==> total_of(durations@) > u64::MAX,
{
    let mut sum: u64 = 0;
    let mut i: usize = 0;
    while i < durations.len()
        invariant
            0 <= i <= durations.len(),
            sum == total_of(durations@.subrange(0, i as int)),
        decreases durations.len() - i,
    {
        proof {
            assert(durations@.subrange(0, i as int + 1).drop_last() =~= durations@.subrange(
                0,
                i as int,
            ));
        }
        match sum.checked_add(durations[i]) {
            Some(s) => {
                sum = s;
            },
            None => {
                proof {
                    lemma_total_of_prefix_grows(durations@, i as int + 1);
                }
                return None;
            },
        }
        i = i + 1;
    }
    assert(durations@.subrange(0, durations.len() as int) =~= durations@);
    Some(sum)
}

proof fn lemma_total_of_prefix_grows(s: Seq<u64>, k: int)
    requires
        0 <= k <= s.len(),
    ensures
        total_of(s) >= total_of(s.subrange(0, k)),
    decreases s.len() - k,
{
    if k < s.len() {
        lemma_total_of_prefix_grows(s, k + 1);
        assert(s.subrange(0, k + 1).drop_last() =~= s.subrange(0, k));
    } else {
        assert(s.subrange(0, k) =~= s);
    }
}

} // verus!
