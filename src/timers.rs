use vstd::prelude::*;

use dashmap::DashMap;

use crate::message::{
    CancelTimerResponse, PauseTimerResponse, ResumeTimerResponse, TimerInfo,
};
use crate::timer::{sat_sub, RunningTimer, Timer, TimerId, TimerState};

verus! {

#[verifier::external_type_specification]
#[verifier::external_body]
#[verifier::reject_recursive_types(K)]
#[verifier::reject_recursive_types(V)]
#[verifier::reject_recursive_types(S)]
pub struct ExDashMap<K, V, S>(DashMap<K, V, S>);

/// What a concurrent map of timers holds, by key.
pub uninterp spec fn timer_map_contents(m: DashMap<u64, Timer>) -> Map<u64, Timer>;

/// Relies on `DashMap::new`: a new map holds nothing.
#[verifier::external_body]
fn timer_map_new() -> (r: DashMap<u64, Timer>)
    ensures
        timer_map_contents(r).dom() == Set::<u64>::empty(),
{
    DashMap::new()
}

/// Relies on `DashMap::get`: the value stored under `key`, if there is one.
#[verifier::external_body]
fn timer_map_get(m: &DashMap<u64, Timer>, key: u64) -> (r: Option<Timer>)
    ensures
        r == (if timer_map_contents(*m).contains_key(key) {
            Some(timer_map_contents(*m)[key])
        } else {
            None
        }),
{
    m.get(&key).map(|entry| *entry.value())
}

/// Relies on `DashMap::insert`: `key` maps to `value` afterwards, whether or
/// not it was present; other keys are untouched.
#[verifier::external_body]
fn timer_map_insert(m: &mut DashMap<u64, Timer>, key: u64, value: Timer)
    ensures
        timer_map_contents(*final(m)) == timer_map_contents(*old(m)).insert(key, value),
{
    m.insert(key, value);
}

/// Relies on `DashMap::remove`: `key` is absent afterwards and its value, if
/// it had one, is handed back; other keys are untouched.
#[verifier::external_body]
fn timer_map_remove(m: &mut DashMap<u64, Timer>, key: u64) -> (r: Option<Timer>)
    ensures
        timer_map_contents(*final(m)) == timer_map_contents(*old(m)).remove(key),
        r == (if timer_map_contents(*old(m)).contains_key(key) {
            Some(timer_map_contents(*old(m))[key])
        } else {
            None
        }),
{
    m.remove(&key).map(|(_, value)| value)
}

/// Relies on `DashMap::iter`: every entry once, in an order that the map
/// chooses.
#[verifier::external_body]
fn timer_map_entries(m: &DashMap<u64, Timer>) -> (r: Vec<(u64, Timer)>)
    ensures
        forall|i: int, j: int| 0 <= i < j < r.len() ==> r[i].0 != r[j].0,
        forall|i: int|
            0 <= i < r.len() ==> timer_map_contents(*m).contains_key(#[trigger] r[i].0)
                && timer_map_contents(*m)[r[i].0] == r[i].1,
        forall|k: u64|
            timer_map_contents(*m).contains_key(k) ==> exists|i: int|
                0 <= i < r.len() && #[trigger] r[i].0 == k,
{
    m.iter().map(|entry| (*entry.key(), *entry.value())).collect()
}

/// The ids in `s` rise strictly.
pub open spec fn strictly_ascending(s: Seq<u64>) -> bool {
    forall|i: int, j: int| 0 <= i < j < s.len() ==> s[i] < s[j]
}

/// `s` lists exactly the keys of `m`, in ascending order.
pub open spec fn lists_keys(s: Seq<u64>, m: Map<u64, Timer>) -> bool {
    &&& strictly_ascending(s)
    &&& forall|i: int| 0 <= i < s.len() ==> m.contains_key(#[trigger] s[i])
    &&& forall|k: u64| m.contains_key(k) ==> exists|i: int| 0 <= i < s.len() && s[i] == k
}

/// `k` is the smallest positive id that `m` does not use.
pub open spec fn is_smallest_free(m: Map<u64, Timer>, k: u64) -> bool {
    &&& k >= 1
    &&& !m.contains_key(k)
    &&& forall|j: u64| 1 <= j < k ==> m.contains_key(j)
}

/// Some positive id is still unused.
pub open spec fn has_free_id(m: Map<u64, Timer>) -> bool {
    exists|k: u64| k >= 1 && !m.contains_key(k)
}

/// `s` shows every timer of `m` as it stands at `now`, once each, by
/// ascending id.
pub open spec fn is_listing(s: Seq<TimerInfo>, m: Map<u64, Timer>, now: u64) -> bool {
    &&& forall|i: int, j: int| 0 <= i < j < s.len() ==> s[i].id.0 < s[j].id.0
    &&& forall|i: int|
        0 <= i < s.len() ==> m.contains_key(#[trigger] s[i].id.0) && s[i] == TimerInfo::of(
            s[i].id,
            m[s[i].id.0],
            now,
        )
    &&& forall|k: u64| m.contains_key(k) ==> exists|i: int| 0 <= i < s.len() && s[i].id.0 == k
}

/// Some timer of `m` is running.
pub open spec fn has_running(m: Map<u64, Timer>) -> bool {
    exists|k: u64| m.contains_key(k) && m[k].is_running()
}

/// Timer `id` is running with `rem` left at `now`, and no other running timer
/// of `m` has less left, or as much left and a smaller id.
pub open spec fn is_next_due(m: Map<u64, Timer>, now: u64, id: u64, rem: u64) -> bool {
    &&& m.contains_key(id)
    &&& m[id].is_running()
    &&& rem == m[id].remaining_spec(now)
    &&& forall|k: u64|
        m.contains_key(k) && m[k].is_running() ==> m[k].remaining_spec(now) > rem || (
        m[k].remaining_spec(now) == rem && k >= id)
}

/// `t` after a system sleep of `sleep` ending at `now`: a running timer's due
/// time moves earlier by the sleep, and it elapses where that is not after
/// `now`. Other timers are untouched.
pub open spec fn awakened(t: Timer, sleep: u64, now: u64) -> Timer {
    match t.state {
        TimerState::Running(r) => if sat_sub(r.due, sleep) <= now {
            t.elapsed_spec()
        } else {
            Timer {
                initial_duration: t.initial_duration,
                state: TimerState::Running(RunningTimer { due: sat_sub(r.due, sleep) }),
            }
        },
        _ => t,
    }
}

/// `t` is running and runs out during a sleep of `sleep` ending at `now`.
pub open spec fn elapses_on_awaken(t: Timer, sleep: u64, now: u64) -> bool {
    t.is_running() && sat_sub(t.state->Running_0.due, sleep) <= now
}

/// `after` and `elapsed` are what waking from a sleep of `sleep` at `now`
/// makes of the registry `before`: every timer is `awakened`, and `elapsed`
/// lists, by ascending id, exactly those that ran out.
pub open spec fn is_awakening(
    before: Map<u64, Timer>,
    after: Map<u64, Timer>,
    elapsed: Seq<TimerId>,
    sleep: u64,
    now: u64,
) -> bool {
    &&& after.dom() == before.dom()
    &&& forall|k: u64| before.contains_key(k) ==> after[k] == awakened(before[k], sleep, now)
    &&& forall|i: int, j: int| 0 <= i < j < elapsed.len() ==> elapsed[i].0 < elapsed[j].0
    &&& forall|i: int|
        0 <= i < elapsed.len() ==> before.contains_key(#[trigger] elapsed[i].0)
            && elapses_on_awaken(before[elapsed[i].0], sleep, now)
    &&& forall|k: u64|
        before.contains_key(k) && elapses_on_awaken(before[k], sleep, now) ==> exists|i: int|
            0 <= i < elapsed.len() && elapsed[i].0 == k
}

/// Starting a timer never disturbs a live one: the id it takes was free, and
/// every timer registered before keeps its id and its state.
pub proof fn lemma_start_keeps_live_timers(
    before: Map<u64, Timer>,
    after: Map<u64, Timer>,
    id: u64,
    now: u64,
    duration: u64,
)
    requires
        is_smallest_free(before, id),
        after == before.insert(id, Timer::running_spec(now, duration)),
    ensures
        !before.contains_key(id),
        after.dom() == before.dom().insert(id),
        forall|k: u64| before.contains_key(k) ==> after.contains_key(k) && after[k] == before[k],
{
}

/// Cancelling a timer frees its id at once: the next start takes the smallest
/// free id, which is never larger than the one just freed, and is that id
/// where every smaller positive id is in use.
pub proof fn lemma_cancel_then_start_reuses_id(before: Map<u64, Timer>, id: u64, next: u64)
    requires
        before.contains_key(id),
        id >= 1,
        is_smallest_free(before.remove(id), next),
    ensures
        !before.remove(id).contains_key(id),
        next <= id,
        (forall|j: u64| 1 <= j < id ==> before.contains_key(j)) ==> next == id,
{
    if next > id {
        assert(before.remove(id).contains_key(id));
    }
    if forall|j: u64| 1 <= j < id ==> before.contains_key(j) {
        if next < id {
            assert(before.contains_key(next));
            assert(before.remove(id).contains_key(next));
        }
    }
}

proof fn lemma_listing_prefix(a: Seq<TimerInfo>, b: Seq<TimerInfo>, m: Map<u64, Timer>, now: u64, i: int)
    requires
        is_listing(a, m, now),
        is_listing(b, m, now),
        0 <= i <= a.len(),
        i <= b.len(),
    ensures
        forall|j: int| 0 <= j < i ==> a[j] == b[j],
    decreases i,
{
    if i > 0 {
        lemma_listing_prefix(a, b, m, now, i - 1);
        let x = a[i - 1].id.0;
        let y = b[i - 1].id.0;
        if x < y {
            let p = choose|p: int| 0 <= p < b.len() && b[p].id.0 == x;
            assert(b[p].id.0 < b[i - 1].id.0);
            if p >= i - 1 {
                assert(b[p].id.0 >= b[i - 1].id.0);
            }
            assert(a[p] == b[p]);
        } else if y < x {
            let p = choose|p: int| 0 <= p < a.len() && a[p].id.0 == y;
            if p >= i - 1 {
                assert(a[p].id.0 >= a[i - 1].id.0);
            }
            assert(a[p] == b[p]);
        }
    }
}

/// A listing is determined by the registry and the instant: two listings of
/// one registry at one `now` are the same, so reading it twice at the same
/// instant gives the same remaining times.
pub proof fn lemma_listing_unique(a: Seq<TimerInfo>, b: Seq<TimerInfo>, m: Map<u64, Timer>, now: u64)
    requires
        is_listing(a, m, now),
        is_listing(b, m, now),
    ensures
        a == b,
{
    if a.len() <= b.len() {
        lemma_listing_prefix(a, b, m, now, a.len() as int);
        if a.len() < b.len() {
            let y = b[a.len() as int].id.0;
            let p = choose|p: int| 0 <= p < a.len() && a[p].id.0 == y;
            assert(a[p] == b[p]);
        }
    } else {
        lemma_listing_prefix(a, b, m, now, b.len() as int);
        let x = a[b.len() as int].id.0;
        let p = choose|p: int| 0 <= p < b.len() && b[p].id.0 == x;
        assert(a[p] == b[p]);
    }
    assert(a =~= b);
}

/// Pausing a running timer and resuming it at the same instant leaves the
/// registry as it was, provided the timer was not already overdue.
pub proof fn lemma_pause_resume_restores_registry(m: Map<u64, Timer>, id: u64, now: u64)
    requires
        m.contains_key(id),
        m[id].is_running(),
        m[id].state->Running_0.due >= now,
    ensures
        ({
            let paused = m.insert(id, m[id].paused_spec(now));
            paused.insert(id, paused[id].resumed_spec(now)) == m
        }),
{
    let paused = m.insert(id, m[id].paused_spec(now));
    assert(paused[id].resumed_spec(now) == m[id]);
    assert(paused.insert(id, paused[id].resumed_spec(now)) =~= m);
}

/// Waking after a sleep of `sleep` at `now`, a timer that was running with `R`
/// left elapses and is reported exactly once where the sleep lasted at least
/// `R`; otherwise it keeps running with `R - sleep` left and is not reported.
pub proof fn lemma_awaken_running_timer(
    before: Map<u64, Timer>,
    after: Map<u64, Timer>,
    elapsed: Seq<TimerId>,
    sleep: u64,
    now: u64,
    k: u64,
)
    requires
        is_awakening(before, after, elapsed, sleep, now),
        before.contains_key(k),
        before[k].is_running(),
    ensures
        sleep >= before[k].remaining_spec(now) ==> {
            &&& after[k].is_elapsed()
            &&& exists|i: int| 0 <= i < elapsed.len() && elapsed[i].0 == k
            &&& forall|i: int, j: int|
                0 <= i < elapsed.len() && 0 <= j < elapsed.len() && elapsed[i].0 == k
                    && elapsed[j].0 == k ==> i == j
        },
        sleep < before[k].remaining_spec(now) ==> {
            &&& after[k].is_running()
            &&& after[k].remaining_spec(now) == before[k].remaining_spec(now) - sleep
            &&& forall|i: int| 0 <= i < elapsed.len() ==> elapsed[i].0 != k
        },
{
    assert forall|i: int, j: int|
        0 <= i < elapsed.len() && 0 <= j < elapsed.len() && elapsed[i].0 == k && elapsed[j].0
            == k implies i == j by {
        if i < j {
            assert(elapsed[i].0 < elapsed[j].0);
        } else if j < i {
            assert(elapsed[j].0 < elapsed[i].0);
        }
    }
    if sleep < before[k].remaining_spec(now) {
        assert forall|i: int| 0 <= i < elapsed.len() implies elapsed[i].0 != k by {
            if elapsed[i].0 == k {
                assert(elapses_on_awaken(before[elapsed[i].0], sleep, now));
            }
        }
    }
}

/// What pausing timer `id` at `now` answers, and what becomes of `m`.
pub open spec fn pause_outcome(m: Map<u64, Timer>, id: u64, now: u64) -> (
    PauseTimerResponse,
    Map<u64, Timer>,
) {
    if !m.contains_key(id) {
        (PauseTimerResponse::TimerNotFound, m)
    } else {
        match m[id].state {
            TimerState::Running(_) => (
                PauseTimerResponse::Success,
                m.insert(id, m[id].paused_spec(now)),
            ),
            TimerState::Paused(_) => (PauseTimerResponse::AlreadyPaused, m),
            TimerState::Elapsed => (PauseTimerResponse::AlreadyElapsed, m),
        }
    }
}

/// What resuming timer `id` at `now` answers, and what becomes of `m`.
pub open spec fn resume_outcome(m: Map<u64, Timer>, id: u64, now: u64) -> (
    ResumeTimerResponse,
    Map<u64, Timer>,
) {
    if !m.contains_key(id) {
        (ResumeTimerResponse::TimerNotFound, m)
    } else {
        match m[id].state {
            TimerState::Paused(_) => (
                ResumeTimerResponse::Success,
                m.insert(id, m[id].resumed_spec(now)),
            ),
            TimerState::Running(_) => (ResumeTimerResponse::AlreadyRunning, m),
            TimerState::Elapsed => (ResumeTimerResponse::AlreadyElapsed, m),
        }
    }
}

/// The registry of timers, keyed by id.
pub struct Timers(DashMap<u64, Timer>);

impl View for Timers {
    type V = Map<u64, Timer>;

    closed spec fn view(&self) -> Map<u64, Timer> {
        timer_map_contents(self.0)
    }
}

impl Default for Timers {
    fn default() -> (r: Self)
        ensures
            r@.dom() == Set::<u64>::empty(),
    {
        Timers::new()
    }
}

impl Timers {
    /// An empty registry.
    pub fn new() -> (r: Self)
        ensures
            r@.dom() == Set::<u64>::empty(),
    {
        Timers(timer_map_new())
    }

    /// The timer registered under `id`, if any.
    pub fn get(&self, id: TimerId) -> (r: Option<Timer>)
        ensures
            r == (if self@.contains_key(id.0) {
                Some(self@[id.0])
            } else {
                None
            }),
    {
        timer_map_get(&self.0, id.0)
    }

    /// Every timer as a client sees it at `now`, by ascending id. Reading
    /// changes nothing.
    pub fn get_timerinfo_for_client(&self, now: u64) -> (r: Vec<TimerInfo>)
        ensures
            is_listing(r@, self@, now),
    {
        let ids = self.sorted_ids();
        let mut out: Vec<TimerInfo> = Vec::new();
        let mut i: usize = 0;
        while i < ids.len()
            invariant
                0 <= i <= ids.len(),
                lists_keys(ids@, self@),
                out.len() == i,
                forall|a: int|
                    0 <= a < i ==> #[trigger] out[a] == TimerInfo::of(
                        TimerId(ids[a]),
                        self@[ids[a]],
                        now,
                    ),
            decreases ids.len() - i,
        {
            let id = ids[i];
            match timer_map_get(&self.0, id) {
                Some(timer) => {
                    out.push(TimerInfo::new(TimerId(id), &timer, now));
                },
                None => {
                    assert(self@.contains_key(ids[i as int]));
                },
            }
            i = i + 1;
        }
        assert forall|k: u64| self@.contains_key(k) implies exists|a: int|
            0 <= a < out.len() && out[a].id.0 == k by {
            let a = choose|a: int| 0 <= a < ids.len() && ids[a] == k;
            assert(out[a].id.0 == k);
        }
        out
    }

    /// The running timer that is due soonest at `now` and what it has left;
    /// of timers due together, the one with the smallest id. `None` where no
    /// timer is running.
    pub fn next_due_running(&self, now: u64) -> (r: Option<(TimerId, u64)>)
        ensures
            r is None <==> !has_running(self@),
            r matches Some((id, rem)) ==> is_next_due(self@, now, id.0, rem),
    {
        let ids = self.sorted_ids();
        let mut best: Option<(TimerId, u64)> = None;
        let mut i: usize = 0;
        while i < ids.len()
            invariant
                0 <= i <= ids.len(),
                lists_keys(ids@, self@),
                best is None ==> forall|j: int| 0 <= j < i ==> !self@[#[trigger] ids[j]].is_running(),
                best matches Some((b, rb)) ==> {
                    &&& self@.contains_key(b.0)
                    &&& self@[b.0].is_running()
                    &&& rb == self@[b.0].remaining_spec(now)
                    &&& (i < ids.len() ==> b.0 < ids[i as int])
                    &&& forall|j: int|
                        0 <= j < i && self@[#[trigger] ids[j]].is_running() ==> self@[ids[j]].remaining_spec(now) > rb || (
                        self@[ids[j]].remaining_spec(now) == rb && ids[j] >= b.0)
                },
            decreases ids.len() - i,
        {
            let id = ids[i];
            match timer_map_get(&self.0, id) {
                Some(timer) => {
                    if let TimerState::Running(_) = timer.state {
                        let rem = timer.remaining(now);
                        match best {
                            Some((_, rb)) => {
                                if rem < rb {
                                    best = Some((TimerId(id), rem));
                                }
                            },
                            None => {
                                best = Some((TimerId(id), rem));
                            },
                        }
                    }
                },
                None => {
                    assert(self@.contains_key(ids[i as int]));
                },
            }
            i = i + 1;
        }
        proof {
            if best is None {
                assert forall|k: u64| self@.contains_key(k) implies !self@[k].is_running() by {
                    let j = choose|j: int| 0 <= j < ids.len() && ids[j] == k;
                }
            }
            if let Some((b, rb)) = best {
                assert forall|k: u64| self@.contains_key(k) && self@[k].is_running() implies self@[
                    k
                ].remaining_spec(now) > rb || (self@[k].remaining_spec(now) == rb && k >= b.0) by {
                    let j = choose|j: int| 0 <= j < ids.len() && ids[j] == k;
                }
            }
        }
        best
    }

    /// Accounts for a system sleep of `sleep_duration` that ends at `now`:
    /// every running timer's due time moves earlier by the sleep, and those
    /// that ran out meanwhile become elapsed and are returned by ascending id.
    pub fn awaken(&mut self, sleep_duration: u64, now: u64) -> (r: Vec<TimerId>)
        ensures
            is_awakening(old(self)@, final(self)@, r@, sleep_duration, now),
    {
        let ids = self.sorted_ids();
        let ghost before = self@;
        let mut out: Vec<TimerId> = Vec::new();
        let mut i: usize = 0;
        while i < ids.len()
            invariant
                0 <= i <= ids.len(),
                before == old(self)@,
                lists_keys(ids@, before),
                self@.dom() == before.dom(),
                forall|j: int|
                    0 <= j < i ==> self@[#[trigger] ids[j]] == awakened(before[ids[j]], sleep_duration, now),
                forall|j: int| i <= j < ids.len() ==> self@[#[trigger] ids[j]] == before[ids[j]],
                forall|a: int, b: int| 0 <= a < b < out.len() ==> out[a].0 < out[b].0,
                forall|a: int|
                    0 <= a < out.len() ==> before.contains_key(#[trigger] out[a].0)
                        && elapses_on_awaken(before[out[a].0], sleep_duration, now)
                        && (i < ids.len() ==> out[a].0 < ids[i as int]),
                forall|j: int|
                    0 <= j < i && elapses_on_awaken(before[#[trigger] ids[j]], sleep_duration, now)
                        ==> exists|a: int| 0 <= a < out.len() && out[a].0 == ids[j],
            decreases ids.len() - i,
        {
            let id = ids[i];
            let ghost out0 = out@;
            match timer_map_get(&self.0, id) {
                Some(timer) => {
                    if let TimerState::Running(running) = timer.state {
                        let due = running.due.saturating_sub(sleep_duration);
                        if due <= now {
                            timer_map_insert(
                                &mut self.0,
                                id,
                                Timer { initial_duration: timer.initial_duration, state: TimerState::Elapsed },
                            );
                            out.push(TimerId(id));
                        } else {
                            timer_map_insert(
                                &mut self.0,
                                id,
                                Timer {
                                    initial_duration: timer.initial_duration,
                                    state: TimerState::Running(RunningTimer { due }),
                                },
                            );
                        }
                    }
                },
                None => {
                    assert(self@.contains_key(ids[i as int]));
                },
            }
            proof {
                assert forall|a: int| 0 <= a < out.len() && i + 1 < ids.len() implies out[a].0
                    < ids[i + 1] by {
                    assert(ids[i as int] < ids[i + 1]);
                }
                assert forall|j: int|
                    0 <= j < i + 1 && elapses_on_awaken(before[#[trigger] ids[j]], sleep_duration, now)
                        implies exists|a: int| 0 <= a < out.len() && out[a].0 == ids[j] by {
                    if j == i {
                        assert(out[out.len() - 1].0 == ids[j]);
                    } else {
                        let a = choose|a: int| 0 <= a < out0.len() && out0[a].0 == ids[j];
                        assert(out[a] == out0[a]);
                    }
                }
            }
            i = i + 1;
        }
        proof {
            assert forall|k: u64| before.contains_key(k) implies self@[k] == awakened(
                before[k],
                sleep_duration,
                now,
            ) by {
                let j = choose|j: int| 0 <= j < ids.len() && ids[j] == k;
            }
            assert forall|k: u64|
                before.contains_key(k) && elapses_on_awaken(before[k], sleep_duration, now) implies exists|a: int|
                0 <= a < out.len() && out[a].0 == k by {
                let j = choose|j: int| 0 <= j < ids.len() && ids[j] == k;
            }
        }
        out
    }

    /// The smallest positive id that no registered timer uses; `None` only
    /// where every positive id is in use.
    pub fn first_vacant_entry(&self) -> (r: Option<TimerId>)
        ensures
            r is None <==> !has_free_id(self@),
            r matches Some(id) ==> is_smallest_free(self@, id.0),
    {
        let ids = self.sorted_ids();
        let mut candidate: u64 = 1;
        let mut i: usize = 0;
        while i < ids.len()
            invariant
                0 <= i <= ids.len(),
                lists_keys(ids@, self@),
                candidate >= 1,
                forall|j: u64| 1 <= j < candidate ==> self@.contains_key(j),
                forall|j: int| 0 <= j < i ==> #[trigger] ids[j] != candidate,
            decreases ids.len() - i,
        {
            if ids[i] == candidate {
                if candidate == u64::MAX {
                    proof {
                        assert(self@.contains_key(ids[i as int]));
                        assert forall|k: u64| k >= 1 implies self@.contains_key(k) by {
                            if k < candidate {
                            }
                        }
                    }
                    return None;
                }
                proof {
                    assert forall|j: int| 0 <= j < i implies #[trigger] ids[j] < candidate by {
                        assert(ids[j] < ids[i as int]);
                    }
                    assert(self@.contains_key(ids[i as int]));
                }
                candidate = candidate + 1;
            }
            i = i + 1;
        }
        proof {
            if self@.contains_key(candidate) {
                let j = choose|j: int| 0 <= j < ids.len() && ids[j] == candidate;
            }
        }
        Some(TimerId(candidate))
    }

    /// Registers a timer that starts at `now` and runs for `duration`, under
    /// the smallest free id, which it returns. `None`, changing nothing, only
    /// where every positive id is in use.
    pub fn insert_new(&mut self, duration: u64, now: u64) -> (r: Option<TimerId>)
        ensures
            r is None <==> !has_free_id(old(self)@),
            r is None ==> final(self)@ == old(self)@,
            r matches Some(id) ==> is_smallest_free(old(self)@, id.0) && final(self)@ == old(
                self,
            )@.insert(id.0, Timer::running_spec(now, duration)),
    {
        match self.first_vacant_entry() {
            Some(id) => {
                timer_map_insert(&mut self.0, id.0, Timer::new_running(now, duration));
                Some(id)
            },
            None => None,
        }
    }

    /// Pauses timer `id` at `now`. Fails, changing nothing, where it is not
    /// registered or is not running.
    pub fn pause(&mut self, id: TimerId, now: u64) -> (r: PauseTimerResponse)
        ensures
            (r, final(self)@) == pause_outcome(old(self)@, id.0, now),
    {
        match timer_map_get(&self.0, id.0) {
            Some(timer) => {
                let mut timer = timer;
                let r = timer.pause(now);
                if let PauseTimerResponse::Success = r {
                    timer_map_insert(&mut self.0, id.0, timer);
                }
                r
            },
            None => PauseTimerResponse::TimerNotFound,
        }
    }

    /// Resumes timer `id` at `now`. Fails, changing nothing, where it is not
    /// registered or is not paused.
    pub fn resume(&mut self, id: TimerId, now: u64) -> (r: ResumeTimerResponse)
        ensures
            (r, final(self)@) == resume_outcome(old(self)@, id.0, now),
    {
        match timer_map_get(&self.0, id.0) {
            Some(timer) => {
                let mut timer = timer;
                let r = timer.resume(now);
                if let ResumeTimerResponse::Success = r {
                    timer_map_insert(&mut self.0, id.0, timer);
                }
                r
            },
            None => ResumeTimerResponse::TimerNotFound,
        }
    }

    /// Removes timer `id` whatever its state, freeing its id. Fails where it
    /// is not registered.
    pub fn cancel(&mut self, id: TimerId) -> (r: CancelTimerResponse)
        ensures
            r == CancelTimerResponse::Success <==> old(self)@.contains_key(id.0),
            r == CancelTimerResponse::TimerNotFound <==> !old(self)@.contains_key(id.0),
            final(self)@ == old(self)@.remove(id.0),
    {
        match timer_map_remove(&mut self.0, id.0) {
            Some(_) => CancelTimerResponse::Success,
            None => CancelTimerResponse::TimerNotFound,
        }
    }

    /// Starts timer `id` over at `now` with the duration it was first started
    /// with. Nothing happens where it is not registered.
    pub fn restart(&mut self, id: TimerId, now: u64)
        ensures
            final(self)@ == (if old(self)@.contains_key(id.0) {
                old(self)@.insert(id.0, Timer::running_spec(now, old(self)@[id.0].initial_duration))
            } else {
                old(self)@
            }),
    {
        if let Some(timer) = timer_map_get(&self.0, id.0) {
            timer_map_insert(&mut self.0, id.0, Timer::new_running(now, timer.initial_duration));
        }
    }

    /// Marks running timer `id` elapsed. A timer that is not registered or not
    /// running is left alone: the scheduler only marks the timer it waited on.
    pub fn set_elapsed(&mut self, id: TimerId)
        ensures
            final(self)@ == (if old(self)@.contains_key(id.0) && old(self)@[id.0].is_running() {
                old(self)@.insert(id.0, old(self)@[id.0].elapsed_spec())
            } else {
                old(self)@
            }),
    {
        if let Some(timer) = timer_map_get(&self.0, id.0) {
            if let TimerState::Running(_) = timer.state {
                timer_map_insert(
                    &mut self.0,
                    id.0,
                    Timer { initial_duration: timer.initial_duration, state: TimerState::Elapsed },
                );
            }
        }
    }

    /// Forgets timer `id` once its elapse has been acknowledged, freeing its
    /// id. A timer that is not elapsed, such as a new one that took the id
    /// meanwhile, is left alone. Returns whether a timer was removed.
    pub fn remove_elapsed(&mut self, id: TimerId) -> (r: bool)
        ensures
            r == (old(self)@.contains_key(id.0) && old(self)@[id.0].is_elapsed()),
            final(self)@ == (if r {
                old(self)@.remove(id.0)
            } else {
                old(self)@
            }),
    {
        match timer_map_get(&self.0, id.0) {
            Some(timer) => match timer.state {
                TimerState::Elapsed => {
                    timer_map_remove(&mut self.0, id.0);
                    true
                },
                _ => false,
            },
            None => false,
        }
    }

    /// Forgets timer `id`, whatever its state.
    pub fn remove(&mut self, id: TimerId)
        ensures
            final(self)@ == old(self)@.remove(id.0),
    {
        timer_map_remove(&mut self.0, id.0);
    }

    /// The ids of all registered timers, in ascending order.
    fn sorted_ids(&self) -> (r: Vec<u64>)
        ensures
            lists_keys(r@, self@),
    {
        let entries = timer_map_entries(&self.0);
        let ghost keys = entries@.map_values(|e: (u64, Timer)| e.0);
        let mut out: Vec<u64> = Vec::new();
        let mut i: usize = 0;
        while i < entries.len()
            invariant
                0 <= i <= entries.len(),
                keys.len() == entries.len(),
                forall|x: int| 0 <= x < entries.len() ==> #[trigger] keys[x] == entries[x].0,
                forall|x: int, y: int| 0 <= x < y < keys.len() ==> keys[x] != keys[y],
                strictly_ascending(out@),
                out@.to_set() == keys.subrange(0, i as int).to_set(),
            decreases entries.len() - i,
        {
            let key = entries[i].0;
            proof {
                assert(keys[i as int] == key);
                assert(!keys.subrange(0, i as int).contains(key)) by {
                    if keys.subrange(0, i as int).contains(key) {
                        let x = choose|x: int|
                            0 <= x < i && keys.subrange(0, i as int)[x] == key;
                        assert(keys[x] == key);
                    }
                }
                assert(!out@.to_set().contains(key));
                assert(keys.subrange(0, i as int + 1) =~= keys.subrange(0, i as int).push(key));
                lemma_push_to_set(keys.subrange(0, i as int), key);
            }
            insert_ascending(&mut out, key);
            i = i + 1;
        }
        proof {
            assert(keys.subrange(0, keys.len() as int) =~= keys);
            assert forall|a: int| 0 <= a < out.len() implies self@.contains_key(#[trigger] out[a]) by {
                assert(out@.to_set().contains(out[a]));
                let x = choose|x: int| 0 <= x < keys.len() && keys[x] == out[a];
            }
            assert forall|k: u64| self@.contains_key(k) implies exists|a: int|
                0 <= a < out.len() && out[a] == k by {
                let x = choose|x: int| 0 <= x < entries.len() && #[trigger] entries[x].0 == k;
                assert(keys[x] == k);
                assert(keys.to_set().contains(k));
                assert(out@.contains(k));
            }
        }
        out
    }
}

proof fn lemma_push_to_set(s: Seq<u64>, x: u64)
    ensures
        s.push(x).to_set() == s.to_set().insert(x),
{
    assert forall|y: u64| s.push(x).contains(y) implies s.to_set().insert(x).contains(y) by {
        let i = choose|i: int| 0 <= i < s.push(x).len() && s.push(x)[i] == y;
        if i < s.len() {
            assert(s[i] == y);
        }
    }
    assert forall|y: u64| s.to_set().insert(x).contains(y) implies s.push(x).contains(y) by {
        if y == x {
            assert(s.push(x)[s.len() as int] == y);
        } else {
            let i = choose|i: int| 0 <= i < s.len() && s[i] == y;
            assert(s.push(x)[i] == y);
        }
    }
    assert(s.push(x).to_set() =~= s.to_set().insert(x));
}

/// Puts `key`, which `out` does not hold, where it belongs in the ascending
/// `out`.
fn insert_ascending(out: &mut Vec<u64>, key: u64)
    requires
        strictly_ascending(old(out)@),
        !old(out)@.to_set().contains(key),
    ensures
        strictly_ascending(final(out)@),
        final(out)@.to_set() == old(out)@.to_set().insert(key),
{
    let mut p: usize = 0;
    while p < out.len() && out[p] < key
        invariant
            0 <= p <= out.len(),
            forall|a: int| 0 <= a < p ==> out[a] < key,
        decreases out.len() - p,
    {
        p = p + 1;
    }
    let ghost before = out@;
    proof {
        if p < before.len() {
            assert(before.contains(before[p as int]));
            assert(before[p as int] != key);
        }
    }
    out.insert(p, key);
    assert forall|a: int, b: int| 0 <= a < b < out.len() implies out[a] < out[b] by {
        if b < p {
        } else if b == p {
        } else if a < p {
            assert(before[p as int] > key);
        } else if a == p {
            assert(before[p as int] > key);
            assert(before[b - 1] >= before[p as int]);
        }
    }
    assert forall|y: u64| out@.contains(y) implies before.to_set().insert(key).contains(y) by {
        let a = choose|a: int| 0 <= a < out.len() && out[a] == y;
        if a < p {
            assert(before[a] == y);
        } else if a > p {
            assert(before[a - 1] == y);
        }
    }
    assert forall|y: u64| before.to_set().insert(key).contains(y) implies out@.contains(y) by {
        if y == key {
            assert(out[p as int] == y);
        } else {
            let a = choose|a: int| 0 <= a < before.len() && before[a] == y;
            if a < p {
                assert(out[a] == y);
            } else {
                assert(out[a + 1] == y);
            }
        }
    }
    assert(out@.to_set() =~= before.to_set().insert(key));
}

} // verus!
