//! A chart from its loading screen to its results, and the replay of the last play.
use vstd::prelude::*;
use crate::autoplay::{autoplay_spec, build_autoplay_events, facts_seq};
use crate::browse::{chart_duration_ms, latest_end};
use crate::chart::{sort_notes, Chart, Note};
use crate::clock::GameTime;
use crate::gameplay::{chart_points, fresh_totals, rn_new, GameplayState};
use crate::input::{lane_for_key, lane_of, InputAction, InputEvent, ReplayInput};
use crate::intro::{clamp_ms, intro_step, LOADING_TOTAL_MS, READY_BUFFER_MS};
use crate::keymap::Keymap;
use crate::navigation::{start_navigation, DemoMode, NavigationState};
use crate::scheduler::{on_screen, sort_projections, ChartScheduler};
use crate::session::{
    advance_model, event_view, key_run, laned, live_time, press_model, press_outcome, release_model,
    Feedback, LiveSession, PlayModel,
};
use crate::text::{ascii_upper, push_char, to_ascii_upper};

verus! {

/// How far ahead of its time a note shows up.
pub const APPROACH_WINDOW_MS: i64 = 2_000;

/// How long the replay preview runs on after the last note.
pub const REPLAY_TAIL_MS: i64 = 240;

/// Nothing held, nothing flashing, no judgment, no hit sound.
pub open spec fn idle_feedback() -> Feedback {
    Feedback {
        active_lanes: Seq::new(6, |i: int| false),
        lane_until: Seq::new(6, |i: int| None::<i64>),
        judgment_until: None,
        combo_until: None,
        latest: None,
        hits: 0,
    }
}

/// A play of `notes` that has not started: no note judged, nothing shown, at time zero.
pub open spec fn fresh_play(s: LiveSession, notes: Seq<Note>) -> bool {
    &&& s.wf()
    &&& s.gameplay.note_states() == sort_notes(notes).map_values(|n: Note| rn_new(n))
    &&& s.gameplay.totals_spec() == fresh_totals(chart_points(notes) as u32)
    &&& s.current_time.ms() == 0
    &&& s.feedback() == idle_feedback()
}

/// The notes of a chart, copied.
fn copy_notes(notes: &Vec<Note>) -> (r: Vec<Note>)
    ensures
        r@ == notes@,
{
    let mut out: Vec<Note> = Vec::new();
    let mut i: usize = 0;
    while i < notes.len()
        invariant
            i <= notes@.len(),
            out@ == notes@.take(i as int),
        decreases notes.len() - i,
    {
        out.push(notes[i]);
        i = i + 1;
        assert(out@ =~= notes@.take(i as int));
    }
    assert(notes@.take(notes@.len() as int) =~= notes@);
    out
}

/// A chart with the same notes.
fn copy_chart(chart: &Chart) -> (r: Chart)
    ensures
        r.notes@ == chart.notes@,
{
    Chart { metadata: chart.metadata.clone(), notes: copy_notes(&chart.notes) }
}

/// A play of the chart that has not started.
fn fresh_session(chart: &Chart) -> (s: LiveSession)
    requires
        chart_points(chart.notes@) <= u32::MAX,
    ensures
        fresh_play(s, chart.notes@),
{
    let s = LiveSession::new(GameplayState::new(copy_chart(chart)));
    assert(s.feedback() == idle_feedback());
    s
}

/// Key events with the same keys, times and actions.
fn copy_events(events: &Vec<InputEvent>) -> (r: Vec<InputEvent>)
    ensures
        r@.map_values(|e: InputEvent| event_view(e)) == events@.map_values(|e: InputEvent| event_view(e)),
{
    let mut out: Vec<InputEvent> = Vec::new();
    let mut i: usize = 0;
    while i < events.len()
        invariant
            i <= events@.len(),
            out@.map_values(|e: InputEvent| event_view(e)) == events@.take(i as int).map_values(
                |e: InputEvent| event_view(e),
            ),
        decreases events.len() - i,
    {
        let e = &events[i];
        let ghost before = out@;
        let copy = InputEvent::new(e.key.as_str(), e.timestamp.as_millis(), e.action);
        assert(event_view(copy) == event_view(events@[i as int]));
        out.push(copy);
        assert(out@.map_values(|e: InputEvent| event_view(e)) =~= before.map_values(
            |e: InputEvent| event_view(e),
        ).push(event_view(copy)));
        assert(events@.take(i + 1).map_values(|e: InputEvent| event_view(e)) =~= events@.take(
            i as int,
        ).map_values(|e: InputEvent| event_view(e)).push(event_view(events@[i as int])));
        i = i + 1;
        assert(out@.map_values(|e: InputEvent| event_view(e)) =~= events@.take(i as int).map_values(
            |e: InputEvent| event_view(e),
        ));
    }
    assert(events@.take(events@.len() as int) =~= events@);
    out
}

/// The replay of the last play: its recorded input, the input shown, whether the
/// preview runs, the preview's own play, and the next input it plays.
#[derive(Debug, Clone)]
pub struct ReplayPreview {
    pub latest: Option<ReplayInput>,
    pub cursor: Option<usize>,
    pub playing: bool,
    pub session: Option<LiveSession>,
    pub input_cursor: usize,
}

impl ReplayPreview {
    /// No replay.
    pub fn new() -> (r: Self)
        ensures
            r.latest is None,
            r.cursor is None,
            !r.playing,
            r.session is None,
            r.input_cursor == 0,
    {
        ReplayPreview { latest: None, cursor: None, playing: false, session: None, input_cursor: 0 }
    }
}

/// The next session generation; it wraps around.
pub open spec fn next_generation(g: u64) -> u64 {
    if g == u64::MAX {
        0
    } else {
        (g + 1) as u64
    }
}

/// Whether every event from index `k` on happens at a time a play can take input at.
pub open spec fn live_from(es: Seq<InputEvent>, k: int) -> bool {
    forall|j: int| k <= j < es.len() ==> live_time(#[trigger] es[j].timestamp)
}

fn events_live_from(es: &Vec<InputEvent>, k: usize) -> (b: bool)
    ensures
        b == live_from(es@, k as int),
{
    let mut j: usize = k;
    while j < es.len()
        invariant
            k <= j,
            forall|i: int| k <= i < j ==> live_time(#[trigger] es@[i].timestamp),
        decreases es.len() - j,
    {
        let t = es[j].timestamp.as_millis();
        if !(t >= i64::MIN + 0x1_0000_0000 && t <= i64::MAX - 1000) {
            assert(!live_time(es@[j as int].timestamp));
            return false;
        }
        j = j + 1;
    }
    true
}

fn time_is_live(t: GameTime) -> (b: bool)
    ensures
        b == live_time(t),
{
    let ms = t.as_millis();
    ms >= i64::MIN + 0x1_0000_0000 && ms <= i64::MAX - 1000
}

/// Whether the play of the flow is over at its session's time: every note judged and
/// none on screen.
pub open spec fn play_done(f: GameFlow) -> bool {
    &&& f.session.gameplay.all_resolved_spec()
    &&& sort_projections(
        on_screen(
            f.scheduler.chart.notes@,
            APPROACH_WINDOW_MS as int,
            f.session.current_time.ms() as int,
            f.scheduler.chart.notes@.len() as int,
        ),
    ).len() == 0
}

/// The replay recorded from a finished play: its keymap and its events.
pub open spec fn recorded_replay(r: ReplayPreview, keys: Seq<Seq<char>>, events: Seq<InputEvent>) -> bool {
    &&& r.latest matches Some(input) && input.keymap.key_views() == keys
        && input.events@.map_values(|e: InputEvent| event_view(e)) == events.map_values(
        |e: InputEvent| event_view(e),
    )
    &&& r.cursor is None
    &&& !r.playing
    &&& r.session is None
    &&& r.input_cursor == 0
}

/// The feedback with every lane up.
pub open spec fn lanes_up(f: Feedback) -> Feedback {
    Feedback { active_lanes: Seq::new(6, |i: int| false), ..f }
}

/// Whether a time in milliseconds is one a play can take input at.
pub open spec fn live_ms(t: int) -> bool {
    i64::MIN + 0x1_0000_0000 <= t <= i64::MAX - 1000
}

/// A key time moved by the input offset, kept within `i64`.
pub open spec fn shifted_ms(t: int, offset: int) -> int {
    if t + offset < i64::MIN {
        i64::MIN as int
    } else if t + offset > i64::MAX {
        i64::MAX as int
    } else {
        t + offset
    }
}

/// The model of a play of `notes` that has not started.
pub open spec fn fresh_model(notes: Seq<Note>) -> PlayModel {
    (
        sort_notes(notes).map_values(|n: Note| rn_new(n)),
        fresh_totals(chart_points(notes) as u32),
        idle_feedback(),
    )
}

/// The number of recorded inputs of the replay, zero without one.
pub open spec fn replay_len(r: ReplayPreview) -> int {
    match r.latest {
        Some(input) => input.events@.len() as int,
        None => 0,
    }
}

/// Whether the preview has played every input and judged every note.
pub open spec fn replay_done(r: ReplayPreview) -> bool {
    &&& r.input_cursor >= replay_len(r)
    &&& (r.session matches Some(s) ==> s.gameplay.all_resolved_spec())
}

/// The replay's preview back at its start: its first input shown and a play of the
/// chart that has not started.
pub open spec fn replay_restarted(r: ReplayPreview, old_r: ReplayPreview, notes: Seq<Note>) -> bool {
    &&& r.latest == old_r.latest
    &&& r.cursor == (if replay_len(old_r) == 0 {
        None::<usize>
    } else {
        Some(0usize)
    })
    &&& r.session matches Some(s) && fresh_play(s, notes)
    &&& r.input_cursor == 0
}

/// Where the shell is, the chart it plays and the play itself.
#[derive(Debug)]
pub struct GameFlow {
    pub navigation: NavigationState,
    pub chart: Chart,
    pub scheduler: ChartScheduler,
    pub session: LiveSession,
    pub current_time: GameTime,
    pub autoplay: bool,
    pub autoplay_events: Vec<InputEvent>,
    pub autoplay_cursor: usize,
    pub run_events: Vec<InputEvent>,
    pub replay: ReplayPreview,
    pub generation: u64,
}

impl GameFlow {
    /// The flow's invariant: a scheduler over the chart with the standard window, a
    /// well-formed play (and replay play), and the autoplay cursor inside its events.
    pub open spec fn wf(&self) -> bool {
        &&& self.session.wf()
        &&& self.scheduler.approach_window_ms == APPROACH_WINDOW_MS
        &&& self.scheduler.chart.notes@ == self.chart.notes@
        &&& chart_points(self.chart.notes@) <= u32::MAX
        &&& self.autoplay_cursor <= self.autoplay_events@.len()
        &&& (self.replay.session matches Some(s) ==> s.wf())
        &&& (self.replay.latest matches Some(r) ==> self.replay.input_cursor <= r.events@.len())
    }

    /// The song list with `chart` ready to play.
    pub fn new(chart: Chart, autoplay: bool) -> (f: Self)
        requires
            chart_points(chart.notes@) <= u32::MAX,
        ensures
            f.wf(),
            f.navigation == start_navigation(),
            f.chart.notes@ == chart.notes@,
            fresh_play(f.session, chart.notes@),
            f.current_time.ms() == 0,
            f.autoplay == autoplay,
            f.autoplay_events@.len() == 0,
            f.run_events@.len() == 0,
            f.replay.latest is None && f.replay.session is None && !f.replay.playing,
            f.generation == 0,
    {
        let session = fresh_session(&chart);
        let scheduler = ChartScheduler::new(copy_chart(&chart), APPROACH_WINDOW_MS);
        GameFlow {
            navigation: NavigationState::new(),
            chart,
            scheduler,
            session,
            current_time: GameTime::from_millis(0),
            autoplay,
            autoplay_events: Vec::new(),
            autoplay_cursor: 0,
            run_events: Vec::new(),
            replay: ReplayPreview::new(),
            generation: 0,
        }
    }

    fn bump_generation(&mut self)
        ensures
            final(self).generation == next_generation(old(self).generation),
            final(self).navigation == old(self).navigation,
            final(self).chart == old(self).chart,
            final(self).scheduler == old(self).scheduler,
            final(self).session == old(self).session,
            final(self).current_time == old(self).current_time,
            final(self).autoplay == old(self).autoplay,
            final(self).autoplay_events == old(self).autoplay_events,
            final(self).autoplay_cursor == old(self).autoplay_cursor,
            final(self).run_events == old(self).run_events,
            final(self).replay == old(self).replay,
    {
        self.generation = if self.generation == u64::MAX {
            0
        } else {
            self.generation + 1
        };
    }

    /// Loads `chart` for a new play and shows its loading screen: nothing judged or
    /// recorded yet, the autoplay inputs of the chart when autoplay is on, no replay,
    /// time zero, and a new session generation.
    pub fn reset_chart(&mut self, chart: Chart, keymap: &Keymap)
        requires
            old(self).wf(),
            chart_points(chart.notes@) <= u32::MAX,
        ensures
            final(self).wf(),
            final(self).navigation == (NavigationState {
                mode: DemoMode::Loading,
                ..old(self).navigation
            }),
            final(self).chart.notes@ == chart.notes@,
            fresh_play(final(self).session, chart.notes@),
            final(self).autoplay == old(self).autoplay,
            old(self).autoplay ==> facts_seq(final(self).autoplay_events@) == autoplay_spec(
                keymap.key_views(),
                chart.notes@,
            ),
            !old(self).autoplay ==> final(self).autoplay_events@.len() == 0,
            final(self).autoplay_cursor == 0,
            final(self).run_events@.len() == 0,
            final(self).replay.latest is None,
            final(self).replay.cursor is None,
            !final(self).replay.playing,
            final(self).replay.session is None,
            final(self).replay.input_cursor == 0,
            final(self).current_time.ms() == 0,
            final(self).generation == next_generation(old(self).generation),
    {
        self.session = fresh_session(&chart);
        self.scheduler = ChartScheduler::new(copy_chart(&chart), APPROACH_WINDOW_MS);
        self.autoplay_events = if self.autoplay {
            build_autoplay_events(&chart, keymap)
        } else {
            Vec::new()
        };
        self.chart = chart;
        self.autoplay_cursor = 0;
        self.run_events = Vec::new();
        self.replay = ReplayPreview::new();
        self.current_time = GameTime::from_millis(0);
        self.navigation.mode = DemoMode::Loading;
        self.bump_generation();
    }

    fn begin_playback(&mut self)
        requires
            old(self).wf(),
        ensures
            final(self).wf(),
            final(self).navigation == (NavigationState {
                mode: DemoMode::Playing,
                ..old(self).navigation
            }),
            final(self).current_time.ms() == 0,
            final(self).session.gameplay == old(self).session.gameplay,
            final(self).session.current_time == old(self).session.current_time,
            final(self).session.feedback() == (Feedback {
                active_lanes: Seq::new(6, |i: int| false),
                ..old(self).session.feedback()
            }),
            final(self).generation == next_generation(old(self).generation),
            final(self).chart == old(self).chart,
            final(self).scheduler == old(self).scheduler,
            final(self).autoplay == old(self).autoplay,
            final(self).autoplay_events == old(self).autoplay_events,
            final(self).autoplay_cursor == old(self).autoplay_cursor,
            final(self).run_events == old(self).run_events,
            final(self).replay == old(self).replay,
    {
        self.navigation.mode = DemoMode::Playing;
        self.current_time = GameTime::from_millis(0);
        self.session.lift_all_lanes();
        self.bump_generation();
    }

    /// On the loading or ready screen, play starts at once (at time zero, every lane
    /// up, a new session generation); elsewhere nothing happens.
    pub fn skip_intro(&mut self)
        requires
            old(self).wf(),
        ensures
            final(self).wf(),
            (old(self).navigation.mode == DemoMode::Loading || old(self).navigation.mode
                == DemoMode::Ready) ==> {
                &&& final(self).navigation == (NavigationState {
                    mode: DemoMode::Playing,
                    ..old(self).navigation
                })
                &&& final(self).current_time.ms() == 0
                &&& final(self).session.gameplay == old(self).session.gameplay
                &&& final(self).session.feedback() == (Feedback {
                    active_lanes: Seq::new(6, |i: int| false),
                    ..old(self).session.feedback()
                })
                &&& final(self).generation == next_generation(old(self).generation)
            },
            !(old(self).navigation.mode == DemoMode::Loading || old(self).navigation.mode
                == DemoMode::Ready) ==> *final(self) == *old(self),
    {
        if self.navigation.mode == DemoMode::Loading || self.navigation.mode == DemoMode::Ready {
            self.begin_playback();
        }
    }

    /// Back to the song list the chart was started from: nothing held, flashing or
    /// judged any more, no replay, autoplay from its first input, time zero and a new
    /// session generation.
    pub fn return_to_browse(&mut self)
        requires
            old(self).wf(),
        ensures
            final(self).wf(),
            final(self).navigation == (NavigationState {
                mode: old(self).navigation.browse_return_mode,
                ..old(self).navigation
            }),
            final(self).session.gameplay == old(self).session.gameplay,
            final(self).session.feedback() == (Feedback {
                active_lanes: Seq::new(6, |i: int| false),
                lane_until: Seq::new(6, |i: int| None::<i64>),
                judgment_until: None,
                combo_until: None,
                latest: None,
                hits: old(self).session.hit_sound_requests,
            }),
            final(self).replay.latest is None && final(self).replay.cursor is None
                && !final(self).replay.playing && final(self).replay.session is None
                && final(self).replay.input_cursor == 0,
            final(self).autoplay_cursor == 0,
            final(self).current_time.ms() == 0,
            final(self).generation == next_generation(old(self).generation),
            final(self).chart == old(self).chart,
            final(self).autoplay_events == old(self).autoplay_events,
            final(self).run_events == old(self).run_events,
    {
        self.navigation.return_to_browse_view();
        self.session.clear_feedback();
        self.replay = ReplayPreview::new();
        self.autoplay_cursor = 0;
        self.current_time = GameTime::from_millis(0);
        self.bump_generation();
    }

    /// Play pauses (every lane comes up) and pause resumes; other screens are left alone.
    pub fn toggle_pause(&mut self)
        requires
            old(self).wf(),
        ensures
            final(self).wf(),
            old(self).navigation.mode == DemoMode::Playing ==> {
                &&& final(self).navigation == (NavigationState {
                    mode: DemoMode::Paused,
                    ..old(self).navigation
                })
                &&& final(self).session.gameplay == old(self).session.gameplay
                &&& final(self).session.feedback() == lanes_up(old(self).session.feedback())
            },
            old(self).navigation.mode == DemoMode::Paused ==> *final(self) == (GameFlow {
                navigation: NavigationState { mode: DemoMode::Playing, ..old(self).navigation },
                ..*old(self)
            }),
            old(self).navigation.mode != DemoMode::Playing && old(self).navigation.mode
                != DemoMode::Paused ==> *final(self) == *old(self),
    {
        let was_playing = self.navigation.mode == DemoMode::Playing;
        self.navigation.toggle_pause();
        if was_playing {
            self.session.lift_all_lanes();
        }
    }

    /// Once the play is over, the results show with every lane up and its inputs kept
    /// as the replay. Returns whether it was over.
    fn finish_if_done(&mut self, keymap: &Keymap) -> (done: bool)
        requires
            old(self).wf(),
            old(self).navigation.mode == DemoMode::Playing,
        ensures
            final(self).wf(),
            done == play_done(*old(self)),
            done ==> {
                &&& final(self).navigation == (NavigationState {
                    mode: DemoMode::Results,
                    ..old(self).navigation
                })
                &&& final(self).session.gameplay == old(self).session.gameplay
                &&& final(self).session.current_time == old(self).session.current_time
                &&& final(self).session.feedback() == lanes_up(old(self).session.feedback())
                &&& recorded_replay(final(self).replay, keymap.key_views(), old(self).run_events@)
                &&& final(self).current_time == old(self).current_time
                &&& final(self).autoplay_cursor == old(self).autoplay_cursor
                &&& final(self).run_events == old(self).run_events
                &&& final(self).generation == old(self).generation
                &&& final(self).chart == old(self).chart
                &&& final(self).scheduler == old(self).scheduler
                &&& final(self).autoplay == old(self).autoplay
                &&& final(self).autoplay_events == old(self).autoplay_events
            },
            !done ==> *final(self) == *old(self),
    {
        if !self.session.finished(&self.scheduler) {
            return false;
        }
        let events = copy_events(&self.run_events);
        let input = ReplayInput::new(keymap.clone(), events);
        self.replay = ReplayPreview {
            latest: Some(input),
            cursor: None,
            playing: false,
            session: None,
            input_cursor: 0,
        };
        self.navigation.mode = DemoMode::Results;
        self.session.lift_all_lanes();
        true
    }

    /// One frame of play at `time`: with autoplay, the chart's inputs up to `time` are
    /// played and recorded; time then moves on to `time`, and when the play is over
    /// the results show (see `finish_if_done`). Returns whether the play finished.
    /// Outside play, or at a time the play cannot take, nothing happens.
    pub fn play_tick(&mut self, time: GameTime, keymap: &Keymap) -> (finished: bool)
        requires
            old(self).wf(),
        ensures
            final(self).wf(),
            old(self).navigation.mode != DemoMode::Playing || !live_time(time) ==> *final(self)
                == *old(self) && !finished,
            old(self).navigation.mode == DemoMode::Playing && live_time(time) ==> {
                let keys = keymap.key_views();
                let autoplayed = old(self).autoplay && live_from(
                    old(self).autoplay_events@,
                    old(self).autoplay_cursor as int,
                );
                let next = final(self).autoplay_cursor as int;
                let m = if autoplayed {
                    advance_model(
                        key_run(
                            old(self).session.model(),
                            keys,
                            old(self).autoplay_events@,
                            old(self).autoplay_cursor as int,
                            next,
                        ),
                        time.ms() as int,
                    )
                } else {
                    advance_model(old(self).session.model(), time.ms() as int)
                };
                let recorded = if autoplayed {
                    old(self).run_events@.map_values(|e: InputEvent| event_view(e)) + laned(
                        keys,
                        old(self).autoplay_events@,
                        old(self).autoplay_cursor as int,
                        next,
                    )
                } else {
                    old(self).run_events@.map_values(|e: InputEvent| event_view(e))
                };
                &&& autoplayed ==> old(self).autoplay_cursor <= next <= old(self).autoplay_events@.len()
                &&& autoplayed ==> forall|k: int|
                    old(self).autoplay_cursor <= k < next
                        ==> (#[trigger] old(self).autoplay_events@[k].timestamp).ms() <= time.ms()
                &&& autoplayed ==> (next == old(self).autoplay_events@.len()
                    || old(self).autoplay_events@[next].timestamp.ms() > time.ms())
                &&& !autoplayed ==> next == old(self).autoplay_cursor
                &&& final(self).current_time == time
                &&& final(self).session.current_time == time
                &&& final(self).session.gameplay.note_states() == m.0
                &&& final(self).session.gameplay.totals_spec() == m.1
                &&& final(self).run_events@.map_values(|e: InputEvent| event_view(e)) == recorded
                &&& finished ==> final(self).session.feedback() == lanes_up(m.2)
                &&& !finished ==> final(self).session.feedback() == m.2
                &&& finished == (final(self).session.gameplay.all_resolved_spec() && sort_projections(
                    on_screen(
                        old(self).chart.notes@,
                        APPROACH_WINDOW_MS as int,
                        time.ms() as int,
                        old(self).chart.notes@.len() as int,
                    ),
                ).len() == 0)
                &&& finished ==> final(self).navigation == (NavigationState {
                    mode: DemoMode::Results,
                    ..old(self).navigation
                }) && recorded_replay(final(self).replay, keys, final(self).run_events@)
                &&& !finished ==> final(self).navigation == old(self).navigation && final(self).replay
                    == old(self).replay
                &&& final(self).generation == old(self).generation
                &&& final(self).chart == old(self).chart
                &&& final(self).autoplay_events == old(self).autoplay_events
            },
    {
        if self.navigation.mode != DemoMode::Playing || !time_is_live(time) {
            return false;
        }
        if self.autoplay && events_live_from(&self.autoplay_events, self.autoplay_cursor) {
            self.autoplay_cursor = self.session.play_events_until(
                keymap,
                &self.autoplay_events,
                self.autoplay_cursor,
                time,
                &mut self.run_events,
            );
        } else {
            self.session.advance_to(time);
        }
        self.current_time = time;
        self.finish_if_done(keymap)
    }

    /// A key press or release during play, at `time`. A key that plays a lane (letters
    /// upper-cased) is recorded at `time`, and pressed or released in its lane at `time`
    /// moved by the input offset; after a release, or a press that judged something,
    /// the results show when the play is over (see `finish_if_done`). Returns whether
    /// the play finished. Outside play, or for a key without a lane, nothing happens; at
    /// a shifted time the play cannot take, only the recording does.
    pub fn key_input(
        &mut self,
        key: char,
        time: GameTime,
        action: InputAction,
        keymap: &Keymap,
        input_offset_ms: i32,
    ) -> (finished: bool)
        requires
            old(self).wf(),
        ensures
            final(self).wf(),
            old(self).navigation.mode != DemoMode::Playing || lane_of(
                keymap.key_views(),
                seq![ascii_upper(key)],
            ) is None ==> *final(self) == *old(self) && !finished,
            old(self).navigation.mode == DemoMode::Playing ==> match lane_of(
                keymap.key_views(),
                seq![ascii_upper(key)],
            ) {
                None => true,
                Some(lane) => {
                    let shifted = shifted_ms(time.ms() as int, input_offset_ms as int);
                    let m = if action == InputAction::Press {
                        press_model(old(self).session.model(), lane, shifted)
                    } else {
                        release_model(old(self).session.model(), lane, shifted)
                    };
                    let checked = action == InputAction::Release || press_outcome(
                        old(self).session.gameplay.note_states(),
                        old(self).session.gameplay.totals_spec(),
                        lane,
                        shifted,
                    ).2 is Some;
                    &&& final(self).run_events@.map_values(|e: InputEvent| event_view(e))
                        == old(self).run_events@.map_values(|e: InputEvent| event_view(e)).push(
                        (seq![ascii_upper(key)], time.ms(), action),
                    )
                    &&& final(self).chart == old(self).chart
                    &&& final(self).generation == old(self).generation
                    &&& final(self).autoplay_cursor == old(self).autoplay_cursor
                    &&& !live_ms(shifted) ==> {
                        &&& final(self).session == old(self).session
                        &&& final(self).navigation == old(self).navigation
                        &&& final(self).replay == old(self).replay
                        &&& final(self).current_time == old(self).current_time
                        &&& !finished
                    }
                    &&& live_ms(shifted) ==> {
                        &&& final(self).current_time.ms() == shifted
                        &&& final(self).session.current_time.ms() == shifted
                        &&& final(self).session.gameplay.note_states() == m.0
                        &&& final(self).session.gameplay.totals_spec() == m.1
                        &&& finished ==> final(self).session.feedback() == lanes_up(m.2)
                        &&& !finished ==> final(self).session.feedback() == m.2
                        &&& finished == (checked && final(self).session.gameplay.all_resolved_spec()
                            && sort_projections(
                            on_screen(
                                old(self).chart.notes@,
                                APPROACH_WINDOW_MS as int,
                                shifted,
                                old(self).chart.notes@.len() as int,
                            ),
                        ).len() == 0)
                        &&& finished ==> final(self).navigation == (NavigationState {
                            mode: DemoMode::Results,
                            ..old(self).navigation
                        }) && recorded_replay(final(self).replay, keymap.key_views(), final(self).run_events@)
                        &&& !finished ==> final(self).navigation == old(self).navigation
                            && final(self).replay == old(self).replay
                    }
                },
            },
    {
        if self.navigation.mode != DemoMode::Playing {
            return false;
        }
        let mut name = String::new();
        push_char(&mut name, to_ascii_upper(key));
        assert(name@ =~= seq![ascii_upper(key)]);
        let lane = match lane_for_key(keymap, name.as_str()) {
            None => {
                return false;
            },
            Some(lane) => lane,
        };
        let ghost before = self.run_events@;
        let event = InputEvent::new(name.as_str(), time.as_millis(), action);
        self.run_events.push(event);
        assert(self.run_events@.map_values(|e: InputEvent| event_view(e)) =~= before.map_values(
            |e: InputEvent| event_view(e),
        ).push(event_view(event)));
        let sum: i128 = time.as_millis() as i128 + input_offset_ms as i128;
        let clamped: i64 = if sum < i64::MIN as i128 {
            i64::MIN
        } else if sum > i64::MAX as i128 {
            i64::MAX
        } else {
            sum as i64
        };
        let shifted = GameTime::from_millis(clamped);
        if !time_is_live(shifted) {
            return false;
        }
        let judged = match action {
            InputAction::Press => self.session.press(lane, shifted),
            InputAction::Release => {
                self.session.release(lane, shifted);
                true
            },
        };
        self.current_time = shifted;
        if judged {
            self.finish_if_done(keymap)
        } else {
            false
        }
    }

    fn reset_replay(&mut self)
        requires
            old(self).wf(),
        ensures
            final(self).wf(),
            final(self).current_time.ms() == 0,
            replay_restarted(final(self).replay, old(self).replay, old(self).chart.notes@),
            final(self).replay.playing == old(self).replay.playing,
            final(self).navigation == old(self).navigation,
            final(self).session == old(self).session,
            final(self).chart == old(self).chart,
            final(self).scheduler == old(self).scheduler,
            final(self).autoplay_events == old(self).autoplay_events,
            final(self).autoplay_cursor == old(self).autoplay_cursor,
            final(self).run_events == old(self).run_events,
            final(self).generation == old(self).generation,
    {
        self.current_time = GameTime::from_millis(0);
        let len = match &self.replay.latest {
            Some(input) => input.events.len(),
            None => 0,
        };
        self.replay.cursor = if len == 0 {
            None
        } else {
            Some(0)
        };
        self.replay.session = Some(fresh_session(&self.chart));
        self.replay.input_cursor = 0;
    }

    /// From the results, with a recorded play, the replay view opens at its start
    /// (see `replay_restarted`) at time zero; otherwise nothing happens.
    pub fn open_replay_view(&mut self)
        requires
            old(self).wf(),
        ensures
            final(self).wf(),
            old(self).navigation.mode == DemoMode::Results && old(self).replay.latest is Some ==> {
                &&& final(self).navigation == (NavigationState {
                    mode: DemoMode::Replay,
                    ..old(self).navigation
                })
                &&& final(self).current_time.ms() == 0
                &&& replay_restarted(final(self).replay, old(self).replay, old(self).chart.notes@)
                &&& final(self).replay.playing == old(self).replay.playing
                &&& final(self).session == old(self).session
                &&& final(self).chart == old(self).chart
            },
            !(old(self).navigation.mode == DemoMode::Results && old(self).replay.latest is Some)
                ==> *final(self) == *old(self),
    {
        if self.navigation.mode == DemoMode::Results && self.replay.latest.is_some() {
            self.reset_replay();
            self.navigation.mode = DemoMode::Replay;
        }
    }

    /// The replay view closes back to the results; its preview stops and forgets its
    /// play, the recorded inputs stay.
    pub fn close_replay_view(&mut self)
        requires
            old(self).wf(),
        ensures
            final(self).wf(),
            old(self).navigation.mode == DemoMode::Replay ==> *final(self) == (GameFlow {
                navigation: NavigationState { mode: DemoMode::Results, ..old(self).navigation },
                replay: ReplayPreview {
                    latest: old(self).replay.latest,
                    cursor: None,
                    playing: false,
                    session: None,
                    input_cursor: 0,
                },
                ..*old(self)
            }),
            old(self).navigation.mode != DemoMode::Replay ==> *final(self) == *old(self),
    {
        if self.navigation.mode == DemoMode::Replay {
            self.replay.cursor = None;
            self.replay.playing = false;
            self.replay.session = None;
            self.replay.input_cursor = 0;
            self.navigation.mode = DemoMode::Results;
        }
    }

    /// In the replay view, the shown input moves by `delta`, kept to the recorded
    /// inputs (from the first one when none was shown); with none, none is shown.
    pub fn move_replay_cursor(&mut self, delta: i32)
        requires
            old(self).wf(),
        ensures
            final(self).wf(),
            old(self).navigation.mode == DemoMode::Replay ==> *final(self) == (GameFlow {
                replay: ReplayPreview {
                    cursor: if replay_len(old(self).replay) == 0 {
                        None::<usize>
                    } else {
                        let current = match old(self).replay.cursor {
                            Some(c) => c as int,
                            None => 0,
                        };
                        let target = current + delta;
                        Some(
                            (if target < 0 {
                                0
                            } else if target > replay_len(old(self).replay) - 1 {
                                replay_len(old(self).replay) - 1
                            } else {
                                target
                            }) as usize,
                        )
                    },
                    ..old(self).replay
                },
                ..*old(self)
            }),
            old(self).navigation.mode != DemoMode::Replay ==> *final(self) == *old(self),
    {
        if self.navigation.mode != DemoMode::Replay {
            return;
        }
        let len = match &self.replay.latest {
            Some(input) => input.events.len(),
            None => 0,
        };
        if len == 0 {
            self.replay.cursor = None;
            return;
        }
        let current: i128 = match self.replay.cursor {
            Some(c) => c as i128,
            None => 0,
        };
        let target: i128 = current + delta as i128;
        let next: usize = if target < 0 {
            0
        } else if target > len as i128 - 1 {
            len - 1
        } else {
            target as usize
        };
        self.replay.cursor = Some(next);
    }

    /// Whether the preview has played every input and judged every note.
    pub fn replay_finished(&self) -> (b: bool)
        ensures
            b == replay_done(self.replay),
    {
        let len = match &self.replay.latest {
            Some(input) => input.events.len(),
            None => 0,
        };
        self.replay.input_cursor >= len && match &self.replay.session {
            Some(s) => s.gameplay.all_notes_resolved(),
            None => true,
        }
    }

    /// In the replay view with a recorded play, the preview starts or stops; starting a
    /// finished preview restarts it first (see `replay_restarted`).
    pub fn toggle_replay_preview(&mut self)
        requires
            old(self).wf(),
        ensures
            final(self).wf(),
            old(self).navigation.mode == DemoMode::Replay && old(self).replay.latest is Some ==> {
                &&& final(self).replay.playing == !old(self).replay.playing
                &&& final(self).navigation == old(self).navigation
                &&& final(self).session == old(self).session
                &&& (!old(self).replay.playing && replay_done(old(self).replay)) ==> {
                    &&& final(self).current_time.ms() == 0
                    &&& replay_restarted(final(self).replay, old(self).replay, old(self).chart.notes@)
                }
                &&& !(!old(self).replay.playing && replay_done(old(self).replay)) ==> {
                    &&& final(self).current_time == old(self).current_time
                    &&& final(self).replay == (ReplayPreview {
                        playing: !old(self).replay.playing,
                        ..old(self).replay
                    })
                }
            },
            !(old(self).navigation.mode == DemoMode::Replay && old(self).replay.latest is Some)
                ==> *final(self) == *old(self),
    {
        if self.navigation.mode != DemoMode::Replay || self.replay.latest.is_none() {
            return;
        }
        if !self.replay.playing && self.replay_finished() {
            self.reset_replay();
        }
        self.replay.playing = !self.replay.playing;
    }

    /// One frame of the replay view at `time`. A running preview with recorded inputs
    /// (restarted at time zero when it has no play of its own) plays the inputs up to
    /// the current time on its play, shows the last one played, and stops once the
    /// current time is past the chart's end by `REPLAY_TAIL_MS` or everything is
    /// played. A running preview without inputs stops. Elsewhere nothing happens.
    pub fn replay_tick(&mut self, time: GameTime)
        requires
            old(self).wf(),
        ensures
            final(self).wf(),
            old(self).navigation.mode != DemoMode::Replay ==> *final(self) == *old(self),
            old(self).navigation.mode == DemoMode::Replay && !old(self).replay.playing
                ==> *final(self) == (GameFlow { current_time: time, ..*old(self) }),
            old(self).navigation.mode == DemoMode::Replay && old(self).replay.playing
                && old(self).replay.latest is None ==> *final(self) == (GameFlow {
                current_time: time,
                replay: ReplayPreview { playing: false, ..old(self).replay },
                ..*old(self)
            }),
            old(self).navigation.mode == DemoMode::Replay && old(self).replay.playing && replay_len(
                old(self).replay,
            ) == 0 && old(self).replay.latest is Some ==> *final(self) == (GameFlow {
                current_time: time,
                replay: ReplayPreview { playing: false, cursor: None, ..old(self).replay },
                ..*old(self)
            }),
            old(self).navigation.mode == DemoMode::Replay && old(self).replay.playing && replay_len(
                old(self).replay,
            ) > 0 ==> {
                let input = old(self).replay.latest->0;
                let events = input.events@;
                let restarted = old(self).replay.session is None;
                let target = if restarted {
                    0
                } else {
                    time.ms() as int
                };
                let c0 = if restarted {
                    0
                } else {
                    old(self).replay.input_cursor as int
                };
                let m0 = if restarted {
                    fresh_model(old(self).chart.notes@)
                } else {
                    old(self).replay.session->0.model()
                };
                let next = final(self).replay.input_cursor as int;
                let ran = live_from(events, c0) && live_ms(target);
                &&& final(self).navigation == old(self).navigation
                &&& final(self).session == old(self).session
                &&& final(self).chart == old(self).chart
                &&& final(self).run_events == old(self).run_events
                &&& final(self).generation == old(self).generation
                &&& final(self).current_time.ms() == target
                &&& final(self).replay.latest == old(self).replay.latest
                &&& final(self).replay.session matches Some(rs) && (ran ==> rs.model()
                    == advance_model(key_run(m0, input.keymap.key_views(), events, c0, next), target))
                    && (!ran ==> rs.model() == m0)
                &&& ran ==> c0 <= next <= events.len()
                &&& ran ==> forall|k: int| c0 <= k < next ==> (#[trigger] events[k].timestamp).ms() <= target
                &&& ran ==> (next == events.len() || events[next].timestamp.ms() > target)
                &&& !ran ==> next == c0
                &&& final(self).replay.cursor == (if ran && next > c0 {
                    Some((next - 1) as usize)
                } else if restarted {
                    Some(0usize)
                } else {
                    old(self).replay.cursor
                })
                &&& final(self).replay.playing == !(target >= latest_end(
                    old(self).chart.notes@,
                    old(self).chart.notes@.len() as int,
                ) + REPLAY_TAIL_MS || replay_done(final(self).replay))
            },
    {
        if self.navigation.mode != DemoMode::Replay {
            return;
        }
        self.current_time = time;
        if !self.replay.playing {
            return;
        }
        let len = match &self.replay.latest {
            Some(input) => input.events.len(),
            None => {
                self.replay.playing = false;
                return;
            },
        };
        if len == 0 {
            self.replay.playing = false;
            self.replay.cursor = None;
            return;
        }
        if self.replay.session.is_none() {
            self.reset_replay();
        }
        let target = self.current_time;
        let start = self.replay.input_cursor;
        let ready = match &self.replay.latest {
            Some(input) => events_live_from(&input.events, start) && time_is_live(target),
            None => false,
        };
        if ready {
            let mut session = self.replay.session.take().unwrap();
            let mut scratch: Vec<InputEvent> = Vec::new();
            let next = match &self.replay.latest {
                Some(input) => session.play_events_until(
                    &input.keymap,
                    &input.events,
                    start,
                    target,
                    &mut scratch,
                ),
                None => start,
            };
            self.replay.session = Some(session);
            if next > start {
                self.replay.cursor = Some(next - 1);
            }
            self.replay.input_cursor = next;
        }
        let end = chart_duration_ms(&self.chart.notes);
        let past_end = end <= i64::MAX - REPLAY_TAIL_MS && self.current_time.as_millis() >= end
            + REPLAY_TAIL_MS;
        if past_end || self.replay_finished() {
            self.replay.playing = false;
        }
    }

    /// One frame of the intro at `time`: the loading screen and then the ready buffer
    /// run to their ends, and play begins (as `skip_intro` begins it); other screens
    /// are left alone.
    pub fn intro_tick(&mut self, time: GameTime)
        requires
            old(self).wf(),
        ensures
            final(self).wf(),
            old(self).navigation.mode == DemoMode::Loading && clamp_ms(time.ms() as int, LOADING_TOTAL_MS as int) < LOADING_TOTAL_MS ==> {
                &&& final(self).navigation == old(self).navigation
                &&& final(self).current_time.ms() == clamp_ms(time.ms() as int, LOADING_TOTAL_MS as int)
                &&& final(self).session == old(self).session
            },
            old(self).navigation.mode == DemoMode::Loading && clamp_ms(time.ms() as int, LOADING_TOTAL_MS as int) >= LOADING_TOTAL_MS ==> {
                &&& final(self).navigation == (NavigationState {
                    mode: DemoMode::Ready,
                    ..old(self).navigation
                })
                &&& final(self).current_time.ms() == 0
                &&& final(self).session.gameplay == old(self).session.gameplay
                &&& final(self).session.feedback() == (Feedback {
                    active_lanes: Seq::new(6, |i: int| false),
                    ..old(self).session.feedback()
                })
            },
            old(self).navigation.mode == DemoMode::Ready && clamp_ms(time.ms() as int, READY_BUFFER_MS as int) < READY_BUFFER_MS ==> {
                &&& final(self).navigation == old(self).navigation
                &&& final(self).current_time.ms() == clamp_ms(time.ms() as int, READY_BUFFER_MS as int)
                &&& final(self).session == old(self).session
            },
            old(self).navigation.mode == DemoMode::Ready && clamp_ms(time.ms() as int, READY_BUFFER_MS as int) >= READY_BUFFER_MS ==> {
                &&& final(self).navigation == (NavigationState {
                    mode: DemoMode::Playing,
                    ..old(self).navigation
                })
                &&& final(self).current_time.ms() == 0
                &&& final(self).session.gameplay == old(self).session.gameplay
                &&& final(self).session.feedback() == (Feedback {
                    active_lanes: Seq::new(6, |i: int| false),
                    ..old(self).session.feedback()
                })
                &&& final(self).generation == next_generation(old(self).generation)
            },
            old(self).navigation.mode != DemoMode::Loading && old(self).navigation.mode
                != DemoMode::Ready ==> *final(self) == *old(self),
    {
        let mode = self.navigation.mode;
        if mode != DemoMode::Loading && mode != DemoMode::Ready {
            return;
        }
        let (shown, next) = intro_step(mode, time.as_millis());
        if next == DemoMode::Playing {
            self.begin_playback();
        } else {
            self.current_time = GameTime::from_millis(shown);
            self.navigation.mode = next;
            if next != mode {
                self.session.lift_all_lanes();
            }
        }
    }
}

} // verus!
