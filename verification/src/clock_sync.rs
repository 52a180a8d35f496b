//! Playback clocks: game time derived from the instant the audio stream started.
use vstd::prelude::*;
use std::time::{Duration, Instant};
use crate::clock::GameTime;
use crate::navigation::DemoMode;

verus! {

#[verifier::external_type_specification]
#[verifier::external_body]
pub struct ExInstant(Instant);

/// The duration from `earlier` to `later` as std computes it.
pub uninterp spec fn duration_since(later: Instant, earlier: Instant) -> Duration;

/// The whole milliseconds in a duration as std counts them.
pub uninterp spec fn whole_millis_in(d: Duration) -> u128;

/// The milliseconds that passed from `earlier` to `later`.
pub open spec fn elapsed_millis_spec(later: Instant, earlier: Instant) -> u128 {
    whole_millis_in(duration_since(later, earlier))
}

/// `Instant::saturating_duration_since`: the time elapsed from `earlier` to
/// `later`, zero when `earlier` is the later one. The contract names the result
/// as a function of the two instants; what the duration is, and that it grows
/// with `later`, is left unsaid.
#[verifier::external_body]
fn duration_between(later: Instant, earlier: Instant) -> (d: Duration)
    ensures
        d == duration_since(later, earlier),
{
    later.saturating_duration_since(earlier)
}

/// `Duration::as_millis`: the whole milliseconds of a duration. The contract
/// names the number as a function of the duration; its value is left unsaid.
#[verifier::external_body]
fn whole_millis(d: Duration) -> (m: u128)
    ensures
        m == whole_millis_in(d),
{
    d.as_millis()
}

#[derive(Debug, Clone, Copy, PartialEq, Eq, Structural)]
pub struct PlaybackOffset(i64);

impl Default for PlaybackOffset {
    /// No offset.
    fn default() -> (o: Self)
        ensures
            o.ms() == 0,
    {
        PlaybackOffset(0)
    }
}

impl PlaybackOffset {
    pub closed spec fn ms(self) -> i64 {
        self.0
    }

    pub fn from_millis(millis: i64) -> (o: Self)
        ensures
            o.ms() == millis,
    {
        Self(millis)
    }

    pub fn as_millis(self) -> (m: i64)
        ensures
            m == self.ms(),
    {
        self.0
    }
}

/// `a + b` kept within `i64`.
pub open spec fn saturating_i64(v: int) -> i64 {
    if v > i64::MAX {
        i64::MAX
    } else if v < i64::MIN {
        i64::MIN
    } else {
        v as i64
    }
}

fn add_saturating(a: i64, b: i64) -> (r: i64)
    ensures
        r == saturating_i64(a + b),
{
    match a.checked_add(b) {
        Some(v) => v,
        None => if b > 0 {
            i64::MAX
        } else {
            i64::MIN
        },
    }
}

/// Game time `elapsed` milliseconds after a base time: the elapsed count is
/// read as an `i64` the way an `as` cast reads it.
pub open spec fn time_after_spec(base: i64, elapsed: u128) -> i64 {
    saturating_i64(base + (elapsed as i64))
}

#[derive(Debug, Clone, Copy)]
pub struct PlaybackClock {
    stream_started_at: Instant,
    offset: PlaybackOffset,
}

impl PlaybackClock {
    pub closed spec fn offset_spec(self) -> PlaybackOffset {
        self.offset
    }

    pub closed spec fn started_spec(self) -> Instant {
        self.stream_started_at
    }

    pub fn new(stream_started_at: Instant) -> (c: Self)
        ensures
            c.offset_spec().ms() == 0,
            c.started_spec() == stream_started_at,
    {
        Self::with_offset(stream_started_at, PlaybackOffset::from_millis(0))
    }

    pub fn with_offset(stream_started_at: Instant, offset: PlaybackOffset) -> (c: Self)
        ensures
            c.offset_spec() == offset,
            c.started_spec() == stream_started_at,
    {
        Self { stream_started_at, offset }
    }

    /// The game time when `elapsed_millis` have passed since the stream started.
    pub fn time_after(&self, elapsed_millis: u128) -> (t: GameTime)
        ensures
            t.ms() == time_after_spec(self.offset_spec().ms(), elapsed_millis),
    {
        GameTime::from_millis(add_saturating(self.offset.as_millis(), elapsed_millis as i64))
    }

    /// The game time at `observed_at`: the milliseconds since the stream
    /// started (none before it started) plus the offset.
    pub fn playback_time(&self, observed_at: Instant) -> (t: GameTime)
        ensures
            t.ms() == time_after_spec(
                self.offset_spec().ms(),
                elapsed_millis_spec(observed_at, self.started_spec()),
            ),
    {
        let elapsed = whole_millis(duration_between(observed_at, self.stream_started_at));
        self.time_after(elapsed)
    }

    pub fn offset(&self) -> (o: PlaybackOffset)
        ensures
            o == self.offset_spec(),
    {
        self.offset
    }

    pub fn stream_started_at(&self) -> (i: Instant)
        ensures
            i == self.started_spec(),
    {
        self.stream_started_at
    }
}

#[derive(Debug, Clone, Copy, PartialEq, Eq, Structural)]
pub struct ClockDriftCorrection {
    max_step_millis: i64,
}

/// A drift limited to `[-max_step, max_step]`.
pub open spec fn correct_spec(max_step: int, drift: int) -> int {
    if drift < -max_step {
        -max_step
    } else if drift > max_step {
        max_step
    } else {
        drift
    }
}

impl ClockDriftCorrection {
    pub closed spec fn max_step_spec(self) -> i64 {
        self.max_step_millis
    }

    pub fn new(max_step_millis: i64) -> (c: Self)
        ensures
            c.max_step_spec() == max_step_millis,
    {
        Self { max_step_millis }
    }

    pub fn max_step_millis(self) -> (m: i64)
        ensures
            m == self.max_step_spec(),
    {
        self.max_step_millis
    }

    /// The part of a measured drift corrected in one step.
    pub fn correct(&self, drift_millis: i64) -> (c: i64)
        requires
            self.max_step_spec() >= 0,
        ensures
            c == correct_spec(self.max_step_spec() as int, drift_millis as int),
    {
        let lo = -self.max_step_millis;
        if drift_millis < lo {
            lo
        } else if drift_millis > self.max_step_millis {
            self.max_step_millis
        } else {
            drift_millis
        }
    }

    /// The offset moved by one correction step.
    pub fn corrected_offset(&self, offset: PlaybackOffset, drift_millis: i64) -> (o: PlaybackOffset)
        requires
            self.max_step_spec() >= 0,
            i64::MIN <= offset.ms() + correct_spec(self.max_step_spec() as int, drift_millis as int)
                <= i64::MAX,
        ensures
            o.ms() == offset.ms() + correct_spec(self.max_step_spec() as int, drift_millis as int),
    {
        PlaybackOffset::from_millis(offset.as_millis() + self.correct(drift_millis))
    }
}

/// Law: one correction step never moves the clock by more than the maximum
/// step, and fully corrects any drift within it.
pub proof fn lemma_correction_bounded(max_step: int, drift: int)
    requires
        max_step >= 0,
    ensures
        -max_step <= correct_spec(max_step, drift) <= max_step,
        -max_step <= drift <= max_step ==> correct_spec(max_step, drift) == drift,
        drift >= 0 ==> 0 <= correct_spec(max_step, drift) <= drift,
        drift <= 0 ==> drift <= correct_spec(max_step, drift) <= 0,
{
}

/// The clock of the shell when no audio stream drives it: a base game time
/// and the instant it was taken.
#[derive(Debug, Clone, Copy)]
pub struct DemoClockAnchor {
    instant: Instant,
    base_time: GameTime,
}

impl DemoClockAnchor {
    pub closed spec fn base_spec(self) -> GameTime {
        self.base_time
    }

    pub closed spec fn instant_spec(self) -> Instant {
        self.instant
    }

    pub fn new(instant: Instant, base_time: GameTime) -> (a: Self)
        ensures
            a.base_spec() == base_time,
            a.instant_spec() == instant,
    {
        Self { instant, base_time }
    }

    pub fn reset(&mut self, instant: Instant, base_time: GameTime)
        ensures
            final(self).base_spec() == base_time,
            final(self).instant_spec() == instant,
    {
        self.instant = instant;
        self.base_time = base_time;
    }

    /// The base time advanced by `elapsed_millis`.
    pub fn time_after(self, elapsed_millis: u128) -> (t: GameTime)
        ensures
            t.ms() == time_after_spec(self.base_spec().ms(), elapsed_millis),
    {
        GameTime::from_millis(add_saturating(self.base_time.as_millis(), elapsed_millis as i64))
    }

    /// The base time advanced by the milliseconds since the anchor's instant.
    pub fn playback_time(self, observed_at: Instant) -> (t: GameTime)
        ensures
            t.ms() == time_after_spec(
                self.base_spec().ms(),
                elapsed_millis_spec(observed_at, self.instant_spec()),
            ),
    {
        let elapsed = whole_millis(duration_between(observed_at, self.instant));
        self.time_after(elapsed)
    }

    pub fn base_time(self) -> (t: GameTime)
        ensures
            t == self.base_spec(),
    {
        self.base_time
    }
}

/// Whether the shell's clock runs in `mode`: during the intro, play and calibration.
pub open spec fn clock_runs(mode: DemoMode) -> bool {
    mode == DemoMode::Loading || mode == DemoMode::Ready || mode == DemoMode::Playing || mode
        == DemoMode::Calibration
}

/// Whether the global audio offset moves the clock in `mode`: during play and calibration.
pub open spec fn offset_applies(mode: DemoMode) -> bool {
    mode == DemoMode::Playing || mode == DemoMode::Calibration
}

/// The game time the shell uses in `mode`: the anchor's base time where the clock
/// stands still; otherwise `observed`, the time read from the running clock, moved by
/// the global offset during play and calibration.
pub fn demo_time(mode: DemoMode, base_time: GameTime, observed: GameTime, global_offset_ms: i32) -> (t: GameTime)
    requires
        offset_applies(mode) ==> i64::MIN <= observed.ms() + global_offset_ms <= i64::MAX,
    ensures
        !clock_runs(mode) ==> t == base_time,
        clock_runs(mode) && offset_applies(mode) ==> t.ms() == observed.ms() + global_offset_ms,
        clock_runs(mode) && !offset_applies(mode) ==> t == observed,
{
    match mode {
        DemoMode::Playing | DemoMode::Calibration => {
            GameTime::from_millis(observed.as_millis() + global_offset_ms as i64)
        },
        DemoMode::Loading | DemoMode::Ready => observed,
        _ => base_time,
    }
}

} // verus!
