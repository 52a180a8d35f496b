//! A play in progress: the judged chart, the lanes held down, and the flashes that
//! follow a hit.
use vstd::prelude::*;
use crate::clock::GameTime;
use crate::gameplay::{
    after_misses, expire, expire_events, press_step, release_step, time_in_range, GameplayState,
    HitEvent, HitPhase, RuntimeNote,
};
use crate::input::{lane_for_key, lane_of, InputAction, InputEvent};
use crate::judgment::Judgment;
use crate::keymap::Keymap;
use crate::scheduler::{on_screen, sort_projections, window_in_range, ChartScheduler};
use crate::scoring::ScoreTotals;

verus! {

/// How long a lane glows after a hit.
pub const LANE_FEEDBACK_WINDOW_MS: i64 = 180;

/// How long the judgment label flashes after a hit.
pub const JUDGMENT_FEEDBACK_WINDOW_MS: i64 = 240;

/// How long the combo counter flashes after a hit.
pub const COMBO_FEEDBACK_WINDOW_MS: i64 = 280;

/// The number of lanes a session tracks.
pub const SESSION_LANES: usize = 6;

/// Times at which a play can take input: every judgment offset and every flash
/// deadline fits in `i64`.
pub open spec fn live_time(t: GameTime) -> bool {
    time_in_range(t) && t.ms() <= i64::MAX - 1000
}

/// What a play shows besides the notes: the lanes held down, until when each lane,
/// the judgment and the combo flash, the latest judgment, and how many hit sounds
/// were asked for.
pub struct Feedback {
    pub active_lanes: Seq<bool>,
    pub lane_until: Seq<Option<i64>>,
    pub judgment_until: Option<i64>,
    pub combo_until: Option<i64>,
    pub latest: Option<Judgment>,
    pub hits: u64,
}

/// `lanes` with `lane` set to `v`, when the lane is one of them.
pub open spec fn set_lane<T>(lanes: Seq<T>, lane: int, v: T) -> Seq<T> {
    if 0 <= lane < lanes.len() {
        lanes.update(lane, v)
    } else {
        lanes
    }
}

/// The hit-sound counter after one more request; it wraps around.
pub open spec fn next_hit_count(hits: u64) -> u64 {
    if hits == u64::MAX {
        0
    } else {
        (hits + 1) as u64
    }
}

/// A judgment at `now`: it becomes the latest one; a hit asks for a hit sound and
/// lights its lane, the judgment and the combo; and the lane is let go unless a hold
/// just started.
pub open spec fn after_hit(f: Feedback, now: int, e: HitEvent) -> Feedback {
    let lane = e.lane as int;
    let hit = e.judgment != Judgment::Miss;
    Feedback {
        active_lanes: if e.phase != HitPhase::HoldStart {
            set_lane(f.active_lanes, lane, false)
        } else {
            f.active_lanes
        },
        lane_until: if hit {
            set_lane(f.lane_until, lane, Some((now + LANE_FEEDBACK_WINDOW_MS) as i64))
        } else {
            f.lane_until
        },
        judgment_until: if hit {
            Some((now + JUDGMENT_FEEDBACK_WINDOW_MS) as i64)
        } else {
            f.judgment_until
        },
        combo_until: if hit {
            Some((now + COMBO_FEEDBACK_WINDOW_MS) as i64)
        } else {
            f.combo_until
        },
        latest: Some(e.judgment),
        hits: if hit {
            next_hit_count(f.hits)
        } else {
            f.hits
        },
    }
}

/// The judgments `es` at `now`, one after another.
pub open spec fn after_hits(f: Feedback, now: int, es: Seq<HitEvent>) -> Feedback
    decreases es.len(),
{
    if es.len() == 0 {
        f
    } else {
        after_hit(after_hits(f, now, es.drop_last()), now, es.last())
    }
}

/// The feedback with `lane` pressed or let go.
pub open spec fn with_lane(f: Feedback, lane: int, down: bool) -> Feedback {
    Feedback { active_lanes: set_lane(f.active_lanes, lane, down), ..f }
}

/// A press in `lane` at `now`: expired notes are missed, then the press is judged;
/// where it judges nothing, it is taken as a release at the same time.
pub open spec fn press_outcome(s0: Seq<RuntimeNote>, t0: ScoreTotals, lane: u8, now: int) -> (
    Seq<RuntimeNote>,
    ScoreTotals,
    Option<HitEvent>,
) {
    let s1 = s0.map_values(|n: RuntimeNote| expire(n, now));
    let t1 = after_misses(t0, expire_events(s0, now).len() as int);
    let (s2, t2, e) = press_step(s1, t1, lane, now);
    if e is Some {
        (s2, t2, e)
    } else {
        let s3 = s2.map_values(|n: RuntimeNote| expire(n, now));
        let t3 = after_misses(t2, expire_events(s2, now).len() as int);
        release_step(s3, t3, lane, now)
    }
}

/// A release in `lane` at `now`: expired notes are missed, then the release is judged.
pub open spec fn release_outcome(s0: Seq<RuntimeNote>, t0: ScoreTotals, lane: u8, now: int) -> (
    Seq<RuntimeNote>,
    ScoreTotals,
    Option<HitEvent>,
) {
    let s1 = s0.map_values(|n: RuntimeNote| expire(n, now));
    let t1 = after_misses(t0, expire_events(s0, now).len() as int);
    release_step(s1, t1, lane, now)
}

/// How long a flash that lasts until `until` still shows at `now`, in milliseconds.
pub open spec fn remaining_spec(until: Option<i64>, now: int) -> int {
    match until {
        None => 0,
        Some(u) => if u <= now {
            0
        } else if u - now > i64::MAX {
            i64::MAX as int
        } else {
            u - now
        },
    }
}

/// The judged notes, the totals and the feedback of a play.
pub type PlayModel = (Seq<RuntimeNote>, ScoreTotals, Feedback);

/// Time moves on to `now`: expired notes are missed and each miss is shown.
pub open spec fn advance_model(m: PlayModel, now: int) -> PlayModel {
    let ev = expire_events(m.0, now);
    (
        m.0.map_values(|n: RuntimeNote| expire(n, now)),
        after_misses(m.1, ev.len() as int),
        after_hits(m.2, now, ev),
    )
}

/// A press in `lane` at `now`, judged and shown.
pub open spec fn press_model(m: PlayModel, lane: u8, now: int) -> PlayModel {
    let (s, t, e) = press_outcome(m.0, m.1, lane, now);
    let pressed = with_lane(m.2, lane as int, true);
    (s, t, match e {
        Some(h) => after_hit(pressed, now, h),
        None => with_lane(pressed, lane as int, false),
    })
}

/// A release in `lane` at `now`, judged and shown.
pub open spec fn release_model(m: PlayModel, lane: u8, now: int) -> PlayModel {
    let (s, t, e) = release_outcome(m.0, m.1, lane, now);
    let released = with_lane(m.2, lane as int, false);
    (s, t, match e {
        Some(h) => after_hit(released, now, h),
        None => released,
    })
}

/// One recorded key event: time moves on to it, then, if its key plays a lane, it is
/// pressed or released there.
pub open spec fn key_step(m: PlayModel, keys: Seq<Seq<char>>, e: InputEvent) -> PlayModel {
    let now = e.timestamp.ms() as int;
    let m1 = advance_model(m, now);
    match lane_of(keys, e.key@) {
        None => m1,
        Some(lane) => if e.action == InputAction::Press {
            press_model(m1, lane, now)
        } else {
            release_model(m1, lane, now)
        },
    }
}

/// The events `es[from..to]`, one after another.
pub open spec fn key_run(m: PlayModel, keys: Seq<Seq<char>>, es: Seq<InputEvent>, from: int, to: int) -> PlayModel
    decreases to - from,
{
    if to <= from {
        m
    } else {
        key_step(key_run(m, keys, es, from, to - 1), keys, es[to - 1])
    }
}

/// What an input event records: its key, its time and its action.
pub open spec fn event_view(e: InputEvent) -> (Seq<char>, i64, InputAction) {
    (e.key@, e.timestamp.ms(), e.action)
}

/// The events of `es[from..to]` whose key plays a lane.
pub open spec fn laned(keys: Seq<Seq<char>>, es: Seq<InputEvent>, from: int, to: int) -> Seq<(Seq<char>, i64, InputAction)>
    decreases to - from,
{
    if to <= from {
        seq![]
    } else if lane_of(keys, es[to - 1].key@) is Some {
        laned(keys, es, from, to - 1).push(event_view(es[to - 1]))
    } else {
        laned(keys, es, from, to - 1)
    }
}

/// A play in progress.
#[derive(Debug, Clone)]
pub struct LiveSession {
    pub gameplay: GameplayState,
    pub current_time: GameTime,
    pub active_lanes: Vec<bool>,
    pub lane_feedback_until: Vec<Option<i64>>,
    pub judgment_feedback_until: Option<i64>,
    pub combo_feedback_until: Option<i64>,
    pub latest_judgment: Option<Judgment>,
    pub hit_sound_requests: u64,
}

impl LiveSession {
    /// The session's invariant: a well-formed play and one entry per lane.
    pub open spec fn wf(&self) -> bool {
        &&& self.gameplay.wf()
        &&& self.active_lanes@.len() == SESSION_LANES
        &&& self.lane_feedback_until@.len() == SESSION_LANES
    }

    pub open spec fn model(&self) -> PlayModel {
        (self.gameplay.note_states(), self.gameplay.totals_spec(), self.feedback())
    }

    pub open spec fn feedback(&self) -> Feedback {
        Feedback {
            active_lanes: self.active_lanes@,
            lane_until: self.lane_feedback_until@,
            judgment_until: self.judgment_feedback_until,
            combo_until: self.combo_feedback_until,
            latest: self.latest_judgment,
            hits: self.hit_sound_requests,
        }
    }

    /// A session at time zero over `gameplay`: no lane held, nothing flashing,
    /// no judgment and no hit sound yet.
    pub fn new(gameplay: GameplayState) -> (r: Self)
        requires
            gameplay.wf(),
        ensures
            r.wf(),
            r.gameplay == gameplay,
            r.current_time.ms() == 0,
            r.active_lanes@ == Seq::new(6, |i: int| false),
            r.lane_feedback_until@ == Seq::new(6, |i: int| None::<i64>),
            r.judgment_feedback_until is None,
            r.combo_feedback_until is None,
            r.latest_judgment is None,
            r.hit_sound_requests == 0,
    {
        let mut active_lanes: Vec<bool> = Vec::new();
        let mut lane_feedback_until: Vec<Option<i64>> = Vec::new();
        let mut i: usize = 0;
        while i < SESSION_LANES
            invariant
                i <= SESSION_LANES,
                active_lanes@ == Seq::new(i as nat, |k: int| false),
                lane_feedback_until@ == Seq::new(i as nat, |k: int| None::<i64>),
            decreases SESSION_LANES - i,
        {
            active_lanes.push(false);
            lane_feedback_until.push(None);
            i = i + 1;
            assert(active_lanes@ =~= Seq::new(i as nat, |k: int| false));
            assert(lane_feedback_until@ =~= Seq::new(i as nat, |k: int| None::<i64>));
        }
        LiveSession {
            gameplay,
            current_time: GameTime::from_millis(0),
            active_lanes,
            lane_feedback_until,
            judgment_feedback_until: None,
            combo_feedback_until: None,
            latest_judgment: None,
            hit_sound_requests: 0,
        }
    }

    fn set_active(&mut self, lane: u8, down: bool)
        requires
            old(self).wf(),
        ensures
            final(self).wf(),
            final(self).gameplay == old(self).gameplay,
            final(self).current_time == old(self).current_time,
            final(self).feedback() == with_lane(old(self).feedback(), lane as int, down),
    {
        if (lane as usize) < self.active_lanes.len() {
            self.active_lanes.set(lane as usize, down);
        }
        assert(self.feedback().active_lanes =~= with_lane(old(self).feedback(), lane as int, down).active_lanes);
    }

    /// Shows a judgment made at the session's current time.
    pub fn apply_hit_event(&mut self, event: HitEvent)
        requires
            old(self).wf(),
            old(self).current_time.ms() <= i64::MAX - 1000,
        ensures
            final(self).wf(),
            final(self).gameplay == old(self).gameplay,
            final(self).current_time == old(self).current_time,
            final(self).feedback() == after_hit(
                old(self).feedback(),
                old(self).current_time.ms() as int,
                event,
            ),
    {
        let now = self.current_time.as_millis();
        let lane = event.lane as usize;
        self.latest_judgment = Some(event.judgment);
        if event.judgment.is_hit() {
            self.hit_sound_requests = if self.hit_sound_requests == u64::MAX {
                0
            } else {
                self.hit_sound_requests + 1
            };
            if lane < self.lane_feedback_until.len() {
                self.lane_feedback_until.set(lane, Some(now + LANE_FEEDBACK_WINDOW_MS));
            }
            self.judgment_feedback_until = Some(now + JUDGMENT_FEEDBACK_WINDOW_MS);
            self.combo_feedback_until = Some(now + COMBO_FEEDBACK_WINDOW_MS);
        }
        if !matches!(event.phase, HitPhase::HoldStart) && lane < self.active_lanes.len() {
            self.active_lanes.set(lane, false);
        }
        proof {
            let f = after_hit(old(self).feedback(), now as int, event);
            assert(self.feedback().active_lanes =~= f.active_lanes);
            assert(self.feedback().lane_until =~= f.lane_until);
        }
    }

    /// A key press in `lane` at `time`. The lane goes down; the press is judged (or,
    /// where it judges nothing, a release at that time is); a judgment is shown, and
    /// without one the lane comes up again. Returns whether something was judged.
    pub fn press(&mut self, lane: u8, time: GameTime) -> (judged: bool)
        requires
            old(self).wf(),
            live_time(time),
        ensures
            final(self).wf(),
            final(self).current_time == time,
            ({
                let (s, t, e) = press_outcome(
                    old(self).gameplay.note_states(),
                    old(self).gameplay.totals_spec(),
                    lane,
                    time.ms() as int,
                );
                let pressed = with_lane(old(self).feedback(), lane as int, true);
                &&& final(self).gameplay.note_states() == s
                &&& final(self).gameplay.totals_spec() == t
                &&& judged == (e is Some)
                &&& final(self).feedback() == match e {
                    Some(h) => after_hit(pressed, time.ms() as int, h),
                    None => with_lane(pressed, lane as int, false),
                }
            }),
    {
        self.current_time = time;
        self.set_active(lane, true);
        let hit = match self.gameplay.press_lane(lane, time) {
            Some(e) => Some(e),
            None => self.gameplay.release_lane(lane, time),
        };
        match hit {
            Some(event) => {
                self.apply_hit_event(event);
                true
            },
            None => {
                self.set_active(lane, false);
                false
            },
        }
    }

    /// A key release in `lane` at `time`. The lane comes up and the release is judged;
    /// a judgment is shown. Returns whether something was judged.
    pub fn release(&mut self, lane: u8, time: GameTime) -> (judged: bool)
        requires
            old(self).wf(),
            live_time(time),
        ensures
            final(self).wf(),
            final(self).current_time == time,
            ({
                let (s, t, e) = release_outcome(
                    old(self).gameplay.note_states(),
                    old(self).gameplay.totals_spec(),
                    lane,
                    time.ms() as int,
                );
                let released = with_lane(old(self).feedback(), lane as int, false);
                &&& final(self).gameplay.note_states() == s
                &&& final(self).gameplay.totals_spec() == t
                &&& judged == (e is Some)
                &&& final(self).feedback() == match e {
                    Some(h) => after_hit(released, time.ms() as int, h),
                    None => released,
                }
            }),
    {
        self.current_time = time;
        self.set_active(lane, false);
        match self.gameplay.release_lane(lane, time) {
            Some(event) => {
                self.apply_hit_event(event);
                true
            },
            None => false,
        }
    }

    /// Time moves on to `time`: every note that expired by then is missed, and each
    /// miss is shown in note order.
    pub fn advance_to(&mut self, time: GameTime)
        requires
            old(self).wf(),
            time.ms() <= i64::MAX - 1000,
        ensures
            final(self).wf(),
            final(self).current_time == time,
            final(self).gameplay.note_states() == old(self).gameplay.note_states().map_values(
                |n: RuntimeNote| expire(n, time.ms() as int),
            ),
            final(self).gameplay.totals_spec() == after_misses(
                old(self).gameplay.totals_spec(),
                expire_events(old(self).gameplay.note_states(), time.ms() as int).len() as int,
            ),
            final(self).feedback() == after_hits(
                old(self).feedback(),
                time.ms() as int,
                expire_events(old(self).gameplay.note_states(), time.ms() as int),
            ),
    {
        self.current_time = time;
        let events = self.gameplay.advance_to(time);
        let ghost start = self.feedback();
        let ghost played = self.gameplay;
        let mut i: usize = 0;
        while i < events.len()
            invariant
                i <= events@.len(),
                self.wf(),
                self.current_time == time,
                time.ms() <= i64::MAX - 1000,
                self.feedback() == after_hits(start, time.ms() as int, events@.take(i as int)),
                self.gameplay == played,
            decreases events.len() - i,
        {
            let event = events[i];
            self.apply_hit_event(event);
            i = i + 1;
            assert(events@.take(i as int).drop_last() =~= events@.take(i - 1));
        }
        assert(events@.take(events@.len() as int) =~= events@);
    }

    /// Plays the recorded events from `cursor` on that happen by `target`, records
    /// those whose key plays a lane, then moves time on to `target`. Returns the index
    /// of the first event left for later.
    pub fn play_events_until(
        &mut self,
        keymap: &Keymap,
        events: &Vec<InputEvent>,
        cursor: usize,
        target: GameTime,
        recorded: &mut Vec<InputEvent>,
    ) -> (next: usize)
        requires
            old(self).wf(),
            cursor <= events@.len(),
            live_time(target),
            forall|k: int| cursor <= k < events@.len() ==> live_time(#[trigger] events@[k].timestamp),
        ensures
            final(self).wf(),
            final(self).current_time == target,
            cursor <= next <= events@.len(),
            forall|k: int| cursor <= k < next ==> (#[trigger] events@[k].timestamp).ms() <= target.ms(),
            next == events@.len() || events@[next as int].timestamp.ms() > target.ms(),
            final(self).model() == advance_model(
                key_run(old(self).model(), keymap.key_views(), events@, cursor as int, next as int),
                target.ms() as int,
            ),
            final(recorded)@.map_values(|e: InputEvent| event_view(e)) == old(recorded)@.map_values(
                |e: InputEvent| event_view(e),
            ) + laned(keymap.key_views(), events@, cursor as int, next as int),
    {
        let ghost keys = keymap.key_views();
        let ghost m0 = self.model();
        let ghost r0 = recorded@.map_values(|e: InputEvent| event_view(e));
        let mut i: usize = cursor;
        while i < events.len() && events[i].timestamp.as_millis() <= target.as_millis()
            invariant
                cursor <= i <= events@.len(),
                self.wf(),
                live_time(target),
                keys == keymap.key_views(),
                forall|k: int| cursor <= k < events@.len() ==> live_time(#[trigger] events@[k].timestamp),
                forall|k: int| cursor <= k < i ==> (#[trigger] events@[k].timestamp).ms() <= target.ms(),
                self.model() == key_run(m0, keys, events@, cursor as int, i as int),
                recorded@.map_values(|e: InputEvent| event_view(e)) == r0 + laned(keys, events@, cursor as int, i as int),
            decreases events.len() - i,
        {
            let event = &events[i];
            let now = event.timestamp;
            self.advance_to(now);
            let ghost before = recorded@;
            match lane_for_key(keymap, event.key.as_str()) {
                None => {
                    assert(laned(keys, events@, cursor as int, i + 1) == laned(keys, events@, cursor as int, i as int));
                },
                Some(lane) => {
                    let copy = InputEvent::new(event.key.as_str(), now.as_millis(), event.action);
                    recorded.push(copy);
                    assert(event_view(copy) == event_view(events@[i as int]));
                    assert(laned(keys, events@, cursor as int, i + 1) == laned(keys, events@, cursor as int, i as int).push(event_view(events@[i as int])));
                    assert(recorded@.map_values(|e: InputEvent| event_view(e)) =~= before.map_values(|e: InputEvent| event_view(e)).push(event_view(copy)));
                    match event.action {
                        InputAction::Press => {
                            self.press(lane, now);
                        },
                        InputAction::Release => {
                            self.release(lane, now);
                        },
                    }
                },
            }
            i = i + 1;
            assert(recorded@.map_values(|e: InputEvent| event_view(e)) =~= r0 + laned(keys, events@, cursor as int, i as int));
        }
        self.advance_to(target);
        i
    }

    /// Every lane comes up.
    pub fn lift_all_lanes(&mut self)
        requires
            old(self).wf(),
        ensures
            final(self).wf(),
            final(self).gameplay == old(self).gameplay,
            final(self).current_time == old(self).current_time,
            final(self).feedback() == (Feedback {
                active_lanes: Seq::new(6, |i: int| false),
                ..old(self).feedback()
            }),
    {
        let mut i: usize = 0;
        while i < self.active_lanes.len()
            invariant
                self.wf(),
                i <= SESSION_LANES,
                self.gameplay == old(self).gameplay,
                self.current_time == old(self).current_time,
                self.feedback() == (Feedback { active_lanes: self.active_lanes@, ..old(self).feedback() }),
                forall|k: int| 0 <= k < i ==> !#[trigger] self.active_lanes@[k],
            decreases SESSION_LANES - i,
        {
            self.active_lanes.set(i, false);
            i = i + 1;
        }
        assert(self.active_lanes@ =~= Seq::new(6, |i: int| false));
    }

    /// Every lane comes up and nothing flashes or shows a judgment any more.
    pub fn clear_feedback(&mut self)
        requires
            old(self).wf(),
        ensures
            final(self).wf(),
            final(self).gameplay == old(self).gameplay,
            final(self).current_time == old(self).current_time,
            final(self).feedback() == (Feedback {
                active_lanes: Seq::new(6, |i: int| false),
                lane_until: Seq::new(6, |i: int| None::<i64>),
                judgment_until: None,
                combo_until: None,
                latest: None,
                hits: old(self).hit_sound_requests,
            }),
    {
        self.lift_all_lanes();
        let mut i: usize = 0;
        while i < self.lane_feedback_until.len()
            invariant
                self.wf(),
                i <= SESSION_LANES,
                self.gameplay == old(self).gameplay,
                self.current_time == old(self).current_time,
                self.active_lanes@ == Seq::new(6, |i: int| false),
                self.hit_sound_requests == old(self).hit_sound_requests,
                forall|k: int| 0 <= k < i ==> #[trigger] self.lane_feedback_until@[k] is None,
            decreases SESSION_LANES - i,
        {
            self.lane_feedback_until.set(i, None);
            i = i + 1;
        }
        self.judgment_feedback_until = None;
        self.combo_feedback_until = None;
        self.latest_judgment = None;
        assert(self.lane_feedback_until@ =~= Seq::new(6, |i: int| None::<i64>));
    }

    /// How long a flash lasting until `until` still shows at the current time.
    pub fn remaining_ms(&self, until: Option<i64>) -> (r: i64)
        ensures
            r == remaining_spec(until, self.current_time.ms() as int),
    {
        match until {
            None => 0,
            Some(u) => {
                let now = self.current_time.as_millis();
                if u <= now {
                    0
                } else {
                    let d: i128 = u as i128 - now as i128;
                    if d > i64::MAX as i128 {
                        i64::MAX
                    } else {
                        d as i64
                    }
                }
            },
        }
    }

    /// Whether the play is over: every note is judged and none is left on screen.
    pub fn finished(&self, scheduler: &ChartScheduler) -> (b: bool)
        requires
            self.wf(),
            window_in_range(scheduler.approach_window_ms),
        ensures
            b == (self.gameplay.all_resolved_spec() && sort_projections(
                on_screen(
                    scheduler.chart.notes@,
                    scheduler.approach_window_ms as int,
                    self.current_time.ms() as int,
                    scheduler.chart.notes@.len() as int,
                ),
            ).len() == 0),
    {
        self.gameplay.all_notes_resolved() && scheduler.visible_notes(self.current_time).len() == 0
    }
}

} // verus!
