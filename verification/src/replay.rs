//! Playing recorded key events back against a chart.
use vstd::prelude::*;
use crate::chart::{sort_notes, Chart, Note};
use crate::clock::GameTime;
use crate::gameplay::{
    after_misses, chart_points, expire, expire_events, fresh_totals, press_step, release_step,
    rn_new, time_in_range, press_in_range, release_in_range, lemma_time_in_range_judges, GameplayState, HitEvent, HitPhase, RuntimeNote,
};
use crate::input::{lane_for_key, lane_of, InputAction, InputEvent, ReplayInput};
use crate::judgment::Judgment;
use crate::scoring::ScoreTotals;

verus! {

/// A judgment as the replay reports it.
#[derive(Debug, Clone, Copy, PartialEq, Eq, Structural)]
pub struct ReplayEvent {
    pub lane: u8,
    pub phase: HitPhase,
    pub judgment: Judgment,
}

/// Every judgment of a replay, in the order they were made, and the final totals.
#[derive(Debug, Clone)]
pub struct ReplayResult {
    pub events: Vec<ReplayEvent>,
    pub totals: ScoreTotals,
}

pub open spec fn replay_event(h: HitEvent) -> ReplayEvent {
    ReplayEvent { lane: h.lane, phase: h.phase, judgment: h.judgment }
}

pub open spec fn replay_events_of(hs: Seq<HitEvent>) -> Seq<ReplayEvent> {
    hs.map_values(|h: HitEvent| replay_event(h))
}

/// The time at which every note of any chart has long expired.
pub open spec fn end_of_replay_ms() -> int {
    i64::MAX / 4
}

// ---------------------------------------------------------------------------
// The order in which events are played: by time, ties in recording order.
// ---------------------------------------------------------------------------

/// Inserts event index `k` after every index whose time is not later.
pub open spec fn insert_index(s: Seq<int>, ts: Seq<int>, k: int) -> Seq<int>
    decreases s.len(),
{
    if s.len() == 0 {
        seq![k]
    } else if ts[s.last()] <= ts[k] {
        s.push(k)
    } else {
        insert_index(s.drop_last(), ts, k).push(s.last())
    }
}

/// The indices `0..n` stably sorted by time.
pub open spec fn play_order(ts: Seq<int>, n: int) -> Seq<int>
    decreases n,
{
    if n <= 0 {
        seq![]
    } else {
        insert_index(play_order(ts, n - 1), ts, n - 1)
    }
}

pub open spec fn event_times(es: Seq<InputEvent>) -> Seq<int> {
    es.map_values(|e: InputEvent| e.timestamp.ms() as int)
}

proof fn lemma_insert_index_at(s: Seq<int>, ts: Seq<int>, k: int, p: int)
    requires
        0 <= p <= s.len(),
        forall|q: int| p <= q < s.len() ==> ts[#[trigger] s[q]] > ts[k],
        p == 0 || ts[s[p - 1]] <= ts[k],
    ensures
        insert_index(s, ts, k) == s.take(p).push(k) + s.skip(p),
    decreases s.len(),
{
    if s.len() == 0 {
        assert(s.take(p).push(k) + s.skip(p) =~= seq![k]);
    } else if p == s.len() {
        assert(s.take(p) =~= s);
        assert(s.take(p).push(k) + s.skip(p) =~= s.push(k));
    } else {
        let d = s.drop_last();
        assert forall|q: int| p <= q < d.len() implies ts[#[trigger] d[q]] > ts[k] by {
            assert(d[q] == s[q]);
        }
        if p > 0 {
            assert(d[p - 1] == s[p - 1]);
        }
        lemma_insert_index_at(d, ts, k, p);
        assert(d.take(p) =~= s.take(p));
        assert(d.take(p).push(k) + d.skip(p) + seq![s.last()] =~= s.take(p).push(k) + s.skip(p));
    }
}

fn insertion_point(order: &Vec<usize>, ts: &Vec<i64>, k: usize) -> (p: usize)
    requires
        k < ts@.len(),
        forall|q: int| 0 <= q < order@.len() ==> #[trigger] order@[q] < ts@.len(),
    ensures
        p <= order@.len(),
        forall|q: int| p <= q < order@.len() ==> ts@[#[trigger] order@[q] as int] > ts@[k as int],
        p == 0 || ts@[order@[p - 1] as int] <= ts@[k as int],
{
    let mut p: usize = order.len();
    while p > 0 && ts[order[p - 1]] > ts[k]
        invariant
            p <= order@.len(),
            k < ts@.len(),
            forall|q: int| 0 <= q < order@.len() ==> #[trigger] order@[q] < ts@.len(),
            forall|q: int| p <= q < order@.len() ==> ts@[#[trigger] order@[q] as int] > ts@[k as int],
        decreases p,
    {
        p = p - 1;
    }
    p
}

pub open spec fn as_ints(v: Seq<usize>) -> Seq<int> {
    v.map_values(|x: usize| x as int)
}

proof fn lemma_play_order_bounds(ts: Seq<int>, n: int)
    requires
        0 <= n,
    ensures
        play_order(ts, n).len() == n,
        forall|q: int| 0 <= q < n ==> 0 <= #[trigger] play_order(ts, n)[q] < n,
    decreases n,
{
    if n > 0 {
        lemma_play_order_bounds(ts, n - 1);
        lemma_insert_index_bounds(play_order(ts, n - 1), ts, n - 1, n);
    }
}

proof fn lemma_insert_index_bounds(s: Seq<int>, ts: Seq<int>, k: int, n: int)
    requires
        0 <= k < n,
        forall|q: int| 0 <= q < s.len() ==> 0 <= #[trigger] s[q] < n,
    ensures
        insert_index(s, ts, k).len() == s.len() + 1,
        forall|q: int| 0 <= q < s.len() + 1 ==> 0 <= #[trigger] insert_index(s, ts, k)[q] < n,
    decreases s.len(),
{
    if s.len() > 0 && !(ts[s.last()] <= ts[k]) {
        let d = s.drop_last();
        assert forall|q: int| 0 <= q < d.len() implies 0 <= #[trigger] d[q] < n by {
            assert(d[q] == s[q]);
        }
        lemma_insert_index_bounds(d, ts, k, n);
    }
}

/// The event indices in the order they are played.
fn play_order_exec(ts: &Vec<i64>) -> (r: Vec<usize>)
    ensures
        as_ints(r@) == play_order(ts@.map_values(|t: i64| t as int), ts@.len() as int),
        forall|q: int| 0 <= q < r@.len() ==> #[trigger] r@[q] < ts@.len(),
        r@.len() == ts@.len(),
{
    let ghost tv = ts@.map_values(|t: i64| t as int);
    let mut order: Vec<usize> = Vec::new();
    let mut k: usize = 0;
    while k < ts.len()
        invariant
            k <= ts@.len(),
            tv == ts@.map_values(|t: i64| t as int),
            as_ints(order@) == play_order(tv, k as int),
            order@.len() == k,
            forall|q: int| 0 <= q < order@.len() ==> #[trigger] order@[q] < k,
        decreases ts.len() - k,
    {
        let p = insertion_point(&order, ts, k);
        proof {
            let s = as_ints(order@);
            assert forall|q: int| p <= q < s.len() implies tv[#[trigger] s[q]] > tv[k as int] by {
                assert(s[q] == order@[q] as int);
            }
            if p > 0 {
                assert(s[p - 1] == order@[p - 1] as int);
            }
            lemma_insert_index_at(s, tv, k as int, p as int);
        }
        let ghost before = order@;
        order.insert(p, k);
        proof {
            assert(as_ints(order@) =~= as_ints(before).take(p as int).push(k as int) + as_ints(before).skip(
                p as int,
            ));
            assert forall|q: int| 0 <= q < order@.len() implies #[trigger] order@[q] < k + 1 by {
                if q < p {
                    assert(order@[q] == before[q]);
                } else if q > p {
                    assert(order@[q] == before[q - 1]);
                }
            }
        }
        k = k + 1;
    }
    order
}

/// Event `a` is played before event `b`: earlier, or at the same time and recorded first.
pub open spec fn plays_before(ts: Seq<int>, a: int, b: int) -> bool {
    ts[a] < ts[b] || (ts[a] == ts[b] && a < b)
}

pub open spec fn order_sorted(s: Seq<int>, ts: Seq<int>) -> bool {
    forall|i: int, j: int| 0 <= i < j < s.len() ==> plays_before(ts, #[trigger] s[i], #[trigger] s[j])
}

proof fn lemma_insert_index_sorted(s: Seq<int>, ts: Seq<int>, k: int)
    requires
        order_sorted(s, ts),
        forall|q: int| 0 <= q < s.len() ==> #[trigger] s[q] < k,
    ensures
        order_sorted(insert_index(s, ts, k), ts),
        insert_index(s, ts, k).len() == s.len() + 1,
        forall|y: int| #[trigger] insert_index(s, ts, k).contains(y) <==> (y == k || s.contains(y)),
    decreases s.len(),
{
    if s.len() == 0 {
        assert forall|y: int| #[trigger] insert_index(s, ts, k).contains(y) <==> (y == k || s.contains(y)) by {
            if insert_index(s, ts, k).contains(y) {
                let m = choose|m: int| 0 <= m < 1 && seq![k][m] == y;
            }
            if y == k {
                assert(seq![k][0] == k);
            }
        }
    } else if ts[s.last()] <= ts[k] {
        let r = s.push(k);
        assert forall|i: int, j: int| 0 <= i < j < r.len() implies plays_before(ts, #[trigger] r[i], #[trigger] r[j]) by {
            if j == s.len() {
                if i < s.len() - 1 {
                    assert(plays_before(ts, s[i], s[s.len() - 1]));
                }
                assert(s[i] < k);
            } else {
                assert(plays_before(ts, s[i], s[j]));
            }
        }
        assert forall|y: int| #[trigger] r.contains(y) <==> (y == k || s.contains(y)) by {
            if r.contains(y) {
                let m = choose|m: int| 0 <= m < r.len() && r[m] == y;
                if m < s.len() {
                    assert(s[m] == y);
                }
            }
            if y == k {
                assert(r[s.len() as int] == k);
            }
            if s.contains(y) {
                let m = choose|m: int| 0 <= m < s.len() && s[m] == y;
                assert(r[m] == y);
            }
        }
    } else {
        let d = s.drop_last();
        assert(order_sorted(d, ts)) by {
            assert forall|i: int, j: int| 0 <= i < j < d.len() implies plays_before(ts, #[trigger] d[i], #[trigger] d[j]) by {
                assert(plays_before(ts, s[i], s[j]));
            }
        }
        assert forall|q: int| 0 <= q < d.len() implies #[trigger] d[q] < k by {
            assert(d[q] == s[q]);
        }
        lemma_insert_index_sorted(d, ts, k);
        let t = insert_index(d, ts, k);
        let r = t.push(s.last());
        assert forall|i: int, j: int| 0 <= i < j < r.len() implies plays_before(ts, #[trigger] r[i], #[trigger] r[j]) by {
            if j == t.len() {
                let y = t[i];
                assert(t.contains(y));
                if y != k {
                    let m = choose|m: int| 0 <= m < d.len() && d[m] == y;
                    assert(plays_before(ts, s[m], s[s.len() - 1]));
                }
            } else {
                assert(plays_before(ts, t[i], t[j]));
            }
        }
        assert forall|y: int| #[trigger] r.contains(y) <==> (y == k || s.contains(y)) by {
            if r.contains(y) {
                let m = choose|m: int| 0 <= m < r.len() && r[m] == y;
                if m < t.len() {
                    assert(t[m] == y);
                    assert(t.contains(y));
                    if y != k {
                        let m2 = choose|m2: int| 0 <= m2 < d.len() && d[m2] == y;
                        assert(s[m2] == y);
                    }
                } else {
                    assert(s[s.len() - 1] == y);
                }
            }
            if y == k {
                assert(t.contains(k));
                let m = choose|m: int| 0 <= m < t.len() && t[m] == k;
                assert(r[m] == k);
            }
            if s.contains(y) {
                let m = choose|m: int| 0 <= m < s.len() && s[m] == y;
                if m == s.len() - 1 {
                    assert(r[t.len() as int] == y);
                } else {
                    assert(d[m] == y);
                    assert(d.contains(y));
                    assert(t.contains(y));
                    let m2 = choose|m2: int| 0 <= m2 < t.len() && t[m2] == y;
                    assert(r[m2] == y);
                }
            }
        }
    }
}

/// Recorded events are played in time order, events at the same time in the order
/// they were recorded, and each exactly once.
pub proof fn lemma_play_order_is_stable_time_order(ts: Seq<int>, n: int)
    requires
        0 <= n,
    ensures
        play_order(ts, n).len() == n,
        order_sorted(play_order(ts, n), ts),
        forall|i: int| #[trigger] play_order(ts, n).contains(i) <==> 0 <= i < n,
    decreases n,
{
    if n > 0 {
        lemma_play_order_is_stable_time_order(ts, n - 1);
        let s = play_order(ts, n - 1);
        assert forall|q: int| 0 <= q < s.len() implies #[trigger] s[q] < n - 1 by {
            assert(s.contains(s[q]));
        }
        lemma_insert_index_sorted(s, ts, n - 1);
    }
}

// ---------------------------------------------------------------------------
// The replay.
// ---------------------------------------------------------------------------

/// One recorded event: time advances to it (expired notes are missed), then, if its
/// key plays a lane, the press or release is judged there.
pub open spec fn replay_step(
    s: Seq<RuntimeNote>,
    t: ScoreTotals,
    out: Seq<ReplayEvent>,
    keys: Seq<Seq<char>>,
    e: InputEvent,
) -> (Seq<RuntimeNote>, ScoreTotals, Seq<ReplayEvent>) {
    let now = e.timestamp.ms() as int;
    let s1 = s.map_values(|n: RuntimeNote| expire(n, now));
    let misses = expire_events(s, now);
    let t1 = after_misses(t, misses.len() as int);
    let out1 = out + replay_events_of(misses);
    match lane_of(keys, e.key@) {
        None => (s1, t1, out1),
        Some(lane) => {
            let s2 = s1.map_values(|n: RuntimeNote| expire(n, now));
            let t2 = after_misses(t1, expire_events(s1, now).len() as int);
            let (s3, t3, hit) = if e.action == InputAction::Press {
                press_step(s2, t2, lane, now)
            } else {
                release_step(s2, t2, lane, now)
            };
            (
                s3,
                t3,
                match hit {
                    Some(h) => out1.push(replay_event(h)),
                    None => out1,
                },
            )
        },
    }
}

/// The state after the first `k` events in play order.
pub open spec fn replay_prefix(
    s0: Seq<RuntimeNote>,
    t0: ScoreTotals,
    keys: Seq<Seq<char>>,
    es: Seq<InputEvent>,
    order: Seq<int>,
    k: int,
) -> (Seq<RuntimeNote>, ScoreTotals, Seq<ReplayEvent>)
    decreases k,
{
    if k <= 0 {
        (s0, t0, seq![])
    } else {
        let (s, t, out) = replay_prefix(s0, t0, keys, es, order, k - 1);
        replay_step(s, t, out, keys, es[order[k - 1]])
    }
}

/// What replaying `es` on a chart with these notes gives: the judgments in order, and
/// the totals once every note has expired.
pub open spec fn replay_spec(notes: Seq<Note>, keys: Seq<Seq<char>>, es: Seq<InputEvent>) -> (
    Seq<ReplayEvent>,
    ScoreTotals,
) {
    let s0 = sort_notes(notes).map_values(|n: Note| rn_new(n));
    let t0 = fresh_totals(chart_points(notes) as u32);
    let order = play_order(event_times(es), es.len() as int);
    let (s, t, out) = replay_prefix(s0, t0, keys, es, order, es.len() as int);
    let last = expire_events(s, end_of_replay_ms());
    (out + replay_events_of(last), after_misses(t, last.len() as int))
}

/// Whether every event that plays a lane happens at a time a judgment can be taken at.
pub open spec fn replayable(keys: Seq<Seq<char>>, es: Seq<InputEvent>) -> bool {
    forall|i: int|
        0 <= i < es.len() && (#[trigger] lane_of(keys, es[i].key@)) is Some ==> time_in_range(
            es[i].timestamp,
        )
}

/// Whether event `e`, on notes in state `s`, can be judged: the offset it is judged
/// by, if any, fits in `i64` (other than `i64::MIN`).
pub open spec fn event_in_range(s: Seq<RuntimeNote>, keys: Seq<Seq<char>>, e: InputEvent) -> bool {
    let now = e.timestamp.ms() as int;
    let s2 = s.map_values(|n: RuntimeNote| expire(n, now)).map_values(
        |n: RuntimeNote| expire(n, now),
    );
    lane_of(keys, e.key@) matches Some(lane) ==> if e.action == InputAction::Press {
        press_in_range(s2, lane, now)
    } else {
        release_in_range(s2, lane, now)
    }
}

/// Whether the `k`-th event in play order can be judged where the replay stands then.
pub open spec fn step_in_range(
    notes: Seq<Note>,
    keys: Seq<Seq<char>>,
    es: Seq<InputEvent>,
    k: int,
) -> bool {
    let s0 = sort_notes(notes).map_values(|n: Note| rn_new(n));
    let t0 = fresh_totals(chart_points(notes) as u32);
    let order = play_order(event_times(es), es.len() as int);
    event_in_range(replay_prefix(s0, t0, keys, es, order, k).0, keys, es[order[k]])
}

/// Whether every event of a replay can be judged where it comes.
pub open spec fn replay_in_range(notes: Seq<Note>, keys: Seq<Seq<char>>, es: Seq<InputEvent>) -> bool {
    forall|k: int| 0 <= k < es.len() ==> #[trigger] step_in_range(notes, keys, es, k)
}

/// Events at times in range can always be judged, whatever the notes.
pub proof fn lemma_replayable_in_range(notes: Seq<Note>, keys: Seq<Seq<char>>, es: Seq<InputEvent>)
    requires
        replayable(keys, es),
    ensures
        replay_in_range(notes, keys, es),
{
    let order = play_order(event_times(es), es.len() as int);
    lemma_play_order_bounds(event_times(es), es.len() as int);
    assert forall|k: int| 0 <= k < es.len() implies #[trigger] step_in_range(notes, keys, es, k) by {
        let e = es[order[k]];
        assert(0 <= order[k] < es.len());
        if lane_of(keys, e.key@) is Some {
            let s0 = sort_notes(notes).map_values(|n: Note| rn_new(n));
            let t0 = fresh_totals(chart_points(notes) as u32);
            let s = replay_prefix(s0, t0, keys, es, order, k).0;
            let now = e.timestamp.ms() as int;
            let s2 = s.map_values(|n: RuntimeNote| expire(n, now)).map_values(
                |n: RuntimeNote| expire(n, now),
            );
            lemma_time_in_range_judges(s2, lane_of(keys, e.key@)->0, e.timestamp);
        }
    }
}

fn to_replay_events(hs: Vec<HitEvent>, out: &mut Vec<ReplayEvent>)
    ensures
        final(out)@ == old(out)@ + replay_events_of(hs@),
{
    let mut i: usize = 0;
    let ghost start = out@;
    while i < hs.len()
        invariant
            i <= hs@.len(),
            out@ == start + replay_events_of(hs@.take(i as int)),
        decreases hs.len() - i,
    {
        let h = hs[i];
        out.push(ReplayEvent { lane: h.lane, phase: h.phase, judgment: h.judgment });
        i = i + 1;
        assert(replay_events_of(hs@.take(i as int)) =~= replay_events_of(hs@.take(i - 1)).push(
            replay_event(h),
        ));
        assert(out@ =~= start + replay_events_of(hs@.take(i as int)));
    }
    assert(hs@.take(hs@.len() as int) =~= hs@);
}

/// Replays the recorded inputs against the chart.
pub fn run_replay(chart: Chart, input: ReplayInput) -> (r: ReplayResult)
    requires
        chart_points(chart.notes@) <= u32::MAX,
        replay_in_range(chart.notes@, input.keymap.key_views(), input.events@),
    ensures
        (r.events@, r.totals) == replay_spec(chart.notes@, input.keymap.key_views(), input.events@),
{
    let ghost notes = chart.notes@;
    let keymap = input.keymap;
    let events = input.events;
    let ghost keys = keymap.key_views();
    let mut times: Vec<i64> = Vec::new();
    let mut j: usize = 0;
    while j < events.len()
        invariant
            j <= events@.len(),
            times@.map_values(|t: i64| t as int) == event_times(events@).take(j as int),
        decreases events.len() - j,
    {
        let ghost before = times@.map_values(|t: i64| t as int);
        let m = events[j].timestamp.as_millis();
        times.push(m);
        assert(event_times(events@)[j as int] == m as int);
        assert(times@.map_values(|t: i64| t as int) =~= before.push(m as int));
        j = j + 1;
        assert(times@.map_values(|t: i64| t as int) =~= event_times(events@).take(j as int));
    }
    assert(event_times(events@).take(j as int) =~= event_times(events@));
    let order = play_order_exec(&times);
    let ghost ord = as_ints(order@);
    let mut state = GameplayState::new(chart);
    let ghost s0 = sort_notes(notes).map_values(|n: Note| rn_new(n));
    let ghost t0 = fresh_totals(chart_points(notes) as u32);
    let mut out: Vec<ReplayEvent> = Vec::new();
    let mut k: usize = 0;
    while k < order.len()
        invariant
            k <= order@.len(),
            order@.len() == events@.len(),
            forall|q: int| 0 <= q < order@.len() ==> #[trigger] order@[q] < events@.len(),
            ord == as_ints(order@),
            ord == play_order(event_times(events@), events@.len() as int),
            keys == keymap.key_views(),
            s0 == sort_notes(notes).map_values(|n: Note| rn_new(n)),
            t0 == fresh_totals(chart_points(notes) as u32),
            replay_in_range(notes, keys, events@),
            state.wf(),
            (state.note_states(), state.totals_spec(), out@) == replay_prefix(
                s0,
                t0,
                keys,
                events@,
                ord,
                k as int,
            ),
        decreases order.len() - k,
    {
        let e = &events[order[k]];
        assert(ord[k as int] == order@[k as int] as int);
        assert(step_in_range(notes, keys, events@, k as int));
        let misses = state.advance_to(e.timestamp);
        to_replay_events(misses, &mut out);
        match lane_for_key(&keymap, e.key.as_str()) {
            None => {},
            Some(lane) => {
                assert(lane_of(keys, events@[order@[k as int] as int].key@) is Some);
                let hit = match e.action {
                    InputAction::Press => state.press_lane(lane, e.timestamp),
                    InputAction::Release => state.release_lane(lane, e.timestamp),
                };
                match hit {
                    Some(h) => {
                        out.push(ReplayEvent { lane: h.lane, phase: h.phase, judgment: h.judgment });
                    },
                    None => {},
                }
            },
        }
        k = k + 1;
    }
    let last = state.advance_to(GameTime::from_millis(i64::MAX / 4));
    to_replay_events(last, &mut out);
    ReplayResult { events: out, totals: state.totals() }
}

} // verus!
