//! The gameplay state machine: notes waiting to be hit, held, released or missed.
use vstd::prelude::*;
use crate::chart::{
    insert_note, note_lane, note_time, sort_notes, sort_notes_stable, Chart, Note, NoteKind,
};
use crate::clock::GameTime;
use crate::judgment::{classify, judgment_points, Judgment, JudgmentWindows};
use crate::scoring::{apply_spec, can_apply, count_of, total_count, ScoreTotals};

verus! {

/// Half-width of the perfect window, in milliseconds.
pub const PERFECT_WINDOW_MS: i64 = 30;

/// Half-width of the great window, in milliseconds.
pub const GREAT_WINDOW_MS: i64 = 60;

/// Half-width of the good window, in milliseconds; later than this a note is missed.
pub const GOOD_WINDOW_MS: i64 = 90;

#[derive(Debug, Clone, Copy, PartialEq, Eq, Structural)]
pub enum HitPhase {
    Tap,
    HoldStart,
    HoldRelease,
}

#[derive(Debug, Clone, Copy, PartialEq, Eq, Structural)]
pub struct HitEvent {
    pub lane: u8,
    pub phase: HitPhase,
    pub judgment: Judgment,
}

/// A chart note together with what has happened to it so far.
#[derive(Debug, Clone, Copy, PartialEq, Eq, Structural)]
pub struct RuntimeNote {
    pub note: Note,
    pub start_hit: bool,
    pub release_hit: bool,
    pub missed_start: bool,
    pub missed_release: bool,
}

#[derive(Debug, Clone)]
pub struct GameplayState {
    windows: JudgmentWindows,
    scoring: ScoreTotals,
    notes: Vec<RuntimeNote>,
}

// ---------------------------------------------------------------------------
// The model
pub open spec fn rn_new(n: Note) -> RuntimeNote {
    RuntimeNote {
        note: n,
        start_hit: false,
        release_hit: false,
        missed_start: false,
        missed_release: false,
    }
}

pub open spec fn is_hold(n: Note) -> bool {
    n is Hold
}

/// The start time of a note.
pub open spec fn start_time(n: RuntimeNote) -> int {
    note_time(n.note) as int
}

/// The end time of a hold note (its start time for a tap).
pub open spec fn end_time(n: RuntimeNote) -> int {
    match n.note {
        Note::Hold(h) => h.end_ms as int,
        Note::Tap(t) => t.time_ms as int,
    }
}

pub open spec fn fully_resolved(n: RuntimeNote) -> bool {
    if is_hold(n.note) {
        (n.start_hit && (n.release_hit || n.missed_release)) || n.missed_start
    } else {
        n.start_hit || n.missed_start
    }
}

pub open spec fn start_pending(n: RuntimeNote) -> bool {
    !n.start_hit && !n.missed_start
}

pub open spec fn hold_armed(n: RuntimeNote) -> bool {
    is_hold(n.note) && n.start_hit && !n.release_hit && !n.missed_release
}

/// The flags of a note never contradict each other: a start is hit or missed,
/// not both; only a hold whose start was hit can have its release judged.
pub open spec fn consistent(n: RuntimeNote) -> bool {
    &&& !(n.start_hit && n.missed_start)
    &&& !(n.release_hit && n.missed_release)
    &&& ((n.release_hit || n.missed_release) ==> (is_hold(n.note) && n.start_hit))
}

pub open spec fn b2i(b: bool) -> int {
    if b {
        1
    } else {
        0
    }
}

/// Per-note quantities summed over the playfield: `0` counts judged parts,
/// `1` counts parts judged by a key (which may score), `2` is the note's
/// best possible points.
pub open spec fn part(n: RuntimeNote, which: int) -> int {
    if which == 0 {
        b2i(n.start_hit || n.missed_start) + b2i(n.release_hit || n.missed_release)
    } else if which == 1 {
        b2i(n.start_hit) + b2i(n.release_hit)
    } else if is_hold(n.note) {
        2000
    } else {
        1000
    }
}

pub open spec fn sum_parts(s: Seq<RuntimeNote>, which: int) -> int
    decreases s.len(),
{
    if s.len() == 0 {
        0
    } else {
        sum_parts(s.drop_last(), which) + part(s.last(), which)
    }
}

/// Best possible points of one chart note.
pub open spec fn note_points(n: Note) -> int {
    if is_hold(n) {
        2000
    } else {
        1000
    }
}

/// Best possible points of a list of chart notes.
pub open spec fn chart_points(s: Seq<Note>) -> int
    decreases s.len(),
{
    if s.len() == 0 {
        0
    } else {
        chart_points(s.drop_last()) + note_points(s.last())
    }
}

pub open spec fn start_phase(n: Note) -> HitPhase {
    if is_hold(n) {
        HitPhase::HoldStart
    } else {
        HitPhase::Tap
    }
}

/// A note after time `now` has passed without its expected key action.
pub open spec fn expire(n: RuntimeNote, now: int) -> RuntimeNote {
    if start_pending(n) {
        if now > start_time(n) + GOOD_WINDOW_MS {
            RuntimeNote { missed_start: true, ..n }
        } else {
            n
        }
    } else if hold_armed(n) && now > end_time(n) + GOOD_WINDOW_MS {
        RuntimeNote { missed_release: true, ..n }
    } else {
        n
    }
}

/// The miss reported for a note that expires at `now`, if any.
pub open spec fn expire_event(n: RuntimeNote, now: int) -> Seq<HitEvent> {
    if start_pending(n) {
        if now > start_time(n) + GOOD_WINDOW_MS {
            seq![HitEvent { lane: note_lane(n.note), phase: start_phase(n.note), judgment: Judgment::Miss }]
        } else {
            seq![]
        }
    } else if hold_armed(n) && now > end_time(n) + GOOD_WINDOW_MS {
        seq![HitEvent { lane: note_lane(n.note), phase: HitPhase::HoldRelease, judgment: Judgment::Miss }]
    } else {
        seq![]
    }
}

/// The misses reported, in note order, when time advances to `now`.
pub open spec fn expire_events(s: Seq<RuntimeNote>, now: int) -> Seq<HitEvent>
    decreases s.len(),
{
    if s.len() == 0 {
        seq![]
    } else {
        expire_events(s.drop_last(), now) + expire_event(s.last(), now)
    }
}

/// Totals after `k` misses: a miss scores nothing and breaks the combo.
pub open spec fn after_misses(t: ScoreTotals, k: int) -> ScoreTotals {
    if k == 0 {
        t
    } else {
        ScoreTotals {
            combo: 0,
            judgments: crate::scoring::JudgmentCounts { miss: (t.judgments.miss + k) as u32, ..t.judgments },
            ..t
        }
    }
}

/// Index of the first note in `lane` that is not fully resolved (the length if none).
pub open spec fn first_open(s: Seq<RuntimeNote>, lane: u8) -> int
    decreases s.len(),
{
    if s.len() == 0 {
        0
    } else if note_lane(s[0].note) == lane && !fully_resolved(s[0]) {
        0
    } else {
        1 + first_open(s.drop_first(), lane)
    }
}

/// Index of the first armed hold in `lane` (the length if none).
pub open spec fn first_armed(s: Seq<RuntimeNote>, lane: u8) -> int
    decreases s.len(),
{
    if s.len() == 0 {
        0
    } else if note_lane(s[0].note) == lane && hold_armed(s[0]) {
        0
    } else {
        1 + first_armed(s.drop_first(), lane)
    }
}

pub open spec fn standard_classify(offset: int) -> Judgment {
    classify(PERFECT_WINDOW_MS as int, GREAT_WINDOW_MS as int, GOOD_WINDOW_MS as int, offset)
}

/// A key press in `lane` at `now` on notes whose expired starts are already missed:
/// it judges the first open note of the lane unless that note is a held hold
/// or the press is far too early.
pub open spec fn press_step(s: Seq<RuntimeNote>, t: ScoreTotals, lane: u8, now: int) -> (
    Seq<RuntimeNote>,
    ScoreTotals,
    Option<HitEvent>,
) {
    let i = first_open(s, lane);
    if i >= s.len() || hold_armed(s[i]) {
        (s, t, None)
    } else {
        let j = standard_classify(now - start_time(s[i]));
        if j != Judgment::Miss {
            (
                s.update(i, RuntimeNote { start_hit: true, ..s[i] }),
                apply_spec(t, j),
                Some(HitEvent { lane, phase: start_phase(s[i].note), judgment: j }),
            )
        } else {
            (s, t, None)
        }
    }
}

/// A key release in `lane` at `now`: it judges the release of the first held
/// hold of the lane against that hold's end time.
pub open spec fn release_step(s: Seq<RuntimeNote>, t: ScoreTotals, lane: u8, now: int) -> (
    Seq<RuntimeNote>,
    ScoreTotals,
    Option<HitEvent>,
) {
    let i = first_armed(s, lane);
    if i >= s.len() {
        (s, t, None)
    } else {
        let j = standard_classify(now - end_time(s[i]));
        (
            s.update(i, RuntimeNote { release_hit: true, ..s[i] }),
            apply_spec(t, j),
            Some(HitEvent { lane, phase: HitPhase::HoldRelease, judgment: j }),
        )
    }
}

/// Totals before any judgment.
pub open spec fn fresh_totals(possible_points: u32) -> ScoreTotals {
    ScoreTotals {
        score: 0,
        combo: 0,
        max_combo: 0,
        possible_points,
        judgments: crate::scoring::JudgmentCounts { perfect: 0, great: 0, good: 0, miss: 0 },
    }
}

/// Times for which every difference with a note time fits in `i64`.
pub open spec fn time_in_range(t: GameTime) -> bool {
    t.ms() >= i64::MIN + 0x1_0000_0000
}

/// Whether a press in `lane` at `now` can be judged: the offset from the note it
/// judges, if any, is an `i64` other than `i64::MIN`.
pub open spec fn press_in_range(s: Seq<RuntimeNote>, lane: u8, now: int) -> bool {
    let i = first_open(s, lane);
    i >= s.len() || hold_armed(s[i]) || now - start_time(s[i]) > i64::MIN
}

/// Whether a release in `lane` at `now` can be judged: the offset from the end of
/// the hold it judges, if any, is an `i64` other than `i64::MIN`.
pub open spec fn release_in_range(s: Seq<RuntimeNote>, lane: u8, now: int) -> bool {
    let i = first_armed(s, lane);
    i >= s.len() || now - end_time(s[i]) > i64::MIN
}

/// Note times are below 2^32, so at a time in range every press and release can
/// be judged.
pub proof fn lemma_time_in_range_judges(s: Seq<RuntimeNote>, lane: u8, t: GameTime)
    requires
        time_in_range(t),
    ensures
        press_in_range(s, lane, t.ms() as int),
        release_in_range(s, lane, t.ms() as int),
{
}

impl GameplayState {
    /// The notes of the chart and what has happened to each, in play order.
    pub closed spec fn note_states(self) -> Seq<RuntimeNote> {
        self.notes@
    }

    /// The running totals.
    pub closed spec fn totals_spec(self) -> ScoreTotals {
        self.scoring
    }

    /// The state's invariant: standard windows, consistent notes, and totals
    /// that account for exactly the judged parts of the notes.
    pub closed spec fn wf(self) -> bool {
        &&& self.windows.spec_perfect_ms() == PERFECT_WINDOW_MS
        &&& self.windows.spec_great_ms() == GREAT_WINDOW_MS
        &&& self.windows.spec_good_ms() == GOOD_WINDOW_MS
        &&& forall|i: int| 0 <= i < self.notes@.len() ==> consistent(#[trigger] self.notes@[i])
        &&& self.scoring.possible_points == sum_parts(self.notes@, 2)
        &&& total_count(self.scoring.judgments) == sum_parts(self.notes@, 0)
        &&& self.scoring.score <= 1000 * sum_parts(self.notes@, 1)
        &&& self.scoring.combo <= self.scoring.max_combo
        &&& self.scoring.max_combo <= total_count(self.scoring.judgments)
    }

    pub open spec fn all_resolved_spec(self) -> bool {
        forall|i: int| 0 <= i < self.note_states().len() ==> fully_resolved(#[trigger] self.note_states()[i])
    }
}

// ---------------------------------------------------------------------------
// Lemmas on the model
proof fn lemma_part_bounds(n: RuntimeNote)
    requires
        consistent(n),
    ensures
        0 <= part(n, 0) <= 2,
        0 <= part(n, 1),
        1000 * part(n, 1) <= part(n, 2),
        1000 <= part(n, 2) <= 2000,
{
}

proof fn lemma_sum_bounds(s: Seq<RuntimeNote>)
    requires
        forall|i: int| 0 <= i < s.len() ==> consistent(#[trigger] s[i]),
    ensures
        0 <= sum_parts(s, 0) <= 2 * s.len(),
        0 <= sum_parts(s, 1),
        1000 * sum_parts(s, 1) <= sum_parts(s, 2),
        1000 * s.len() <= sum_parts(s, 2),
    decreases s.len(),
{
    if s.len() > 0 {
        let d = s.drop_last();
        assert forall|i: int| 0 <= i < d.len() implies consistent(#[trigger] d[i]) by {
            assert(d[i] == s[i]);
        }
        lemma_sum_bounds(d);
        lemma_part_bounds(s[s.len() - 1]);
    }
}

proof fn lemma_sum_update(s: Seq<RuntimeNote>, i: int, x: RuntimeNote, which: int)
    requires
        0 <= i < s.len(),
    ensures
        sum_parts(s.update(i, x), which) == sum_parts(s, which) - part(s[i], which) + part(x, which),
    decreases s.len(),
{
    let u = s.update(i, x);
    if i == s.len() - 1 {
        assert(u.drop_last() =~= s.drop_last());
    } else {
        lemma_sum_update(s.drop_last(), i, x, which);
        assert(u.drop_last() =~= s.drop_last().update(i, x));
    }
}

proof fn lemma_chart_points_push(s: Seq<Note>, x: Note)
    ensures
        chart_points(s.push(x)) == chart_points(s) + note_points(x),
{
    assert(s.push(x).drop_last() =~= s);
    assert(s.push(x).last() == x);
}

proof fn lemma_chart_points_insert(s: Seq<Note>, x: Note)
    ensures
        chart_points(insert_note(s, x)) == chart_points(s) + note_points(x),
    decreases s.len(),
{
    if s.len() == 0 {
        lemma_chart_points_push(s, x);
        assert(seq![x] =~= s.push(x));
    } else if crate::chart::note_le(s.last(), x) {
        lemma_chart_points_push(s, x);
    } else {
        let d = s.drop_last();
        lemma_chart_points_insert(d, x);
        lemma_chart_points_push(insert_note(d, x), s.last());
        lemma_chart_points_push(d, s.last());
        assert(d.push(s.last()) =~= s);
    }
}

proof fn lemma_chart_points_sort(s: Seq<Note>)
    ensures
        chart_points(sort_notes(s)) == chart_points(s),
    decreases s.len(),
{
    if s.len() > 0 {
        let d = s.drop_last();
        lemma_chart_points_sort(d);
        lemma_chart_points_insert(sort_notes(d), s.last());
        lemma_chart_points_push(d, s.last());
        assert(d.push(s.last()) =~= s);
    }
}

proof fn lemma_after_misses_step(t0: ScoreTotals, n: int)
    requires
        n >= 0,
        t0.judgments.miss + n + 1 <= u32::MAX,
    ensures
        apply_spec(after_misses(t0, n), Judgment::Miss) == after_misses(t0, n + 1),
{
}

proof fn lemma_chart_points_fresh(s: Seq<Note>)
    ensures
        sum_parts(s.map_values(|n: Note| rn_new(n)), 2) == chart_points(s),
        sum_parts(s.map_values(|n: Note| rn_new(n)), 0) == 0,
        sum_parts(s.map_values(|n: Note| rn_new(n)), 1) == 0,
    decreases s.len(),
{
    if s.len() > 0 {
        lemma_chart_points_fresh(s.drop_last());
        assert(s.map_values(|n: Note| rn_new(n)).drop_last() =~= s.drop_last().map_values(
            |n: Note| rn_new(n),
        ));
    }
}

proof fn lemma_first_open(s: Seq<RuntimeNote>, lane: u8, k: int)
    requires
        0 <= k <= s.len(),
        forall|i: int| 0 <= i < k ==> !(note_lane(s[i].note) == lane && !fully_resolved(#[trigger] s[i])),
        k == s.len() || (note_lane(s[k].note) == lane && !fully_resolved(s[k])),
    ensures
        first_open(s, lane) == k,
    decreases s.len(),
{
    if s.len() > 0 && k > 0 {
        assert forall|i: int| 0 <= i < k - 1 implies !(note_lane(s.drop_first()[i].note) == lane
            && !fully_resolved(#[trigger] s.drop_first()[i])) by {
            assert(s.drop_first()[i] == s[i + 1]);
        }
        lemma_first_open(s.drop_first(), lane, k - 1);
    }
}

proof fn lemma_first_armed(s: Seq<RuntimeNote>, lane: u8, k: int)
    requires
        0 <= k <= s.len(),
        forall|i: int| 0 <= i < k ==> !(note_lane(s[i].note) == lane && hold_armed(#[trigger] s[i])),
        k == s.len() || (note_lane(s[k].note) == lane && hold_armed(s[k])),
    ensures
        first_armed(s, lane) == k,
    decreases s.len(),
{
    if s.len() > 0 && k > 0 {
        assert forall|i: int| 0 <= i < k - 1 implies !(note_lane(s.drop_first()[i].note) == lane
            && hold_armed(#[trigger] s.drop_first()[i])) by {
            assert(s.drop_first()[i] == s[i + 1]);
        }
        lemma_first_armed(s.drop_first(), lane, k - 1);
    }
}

// ---------------------------------------------------------------------------
// Executable code
impl RuntimeNote {
    fn new(note: Note) -> (r: Self)
        ensures
            r == rn_new(note),
    {
        Self {
            note,
            start_hit: false,
            release_hit: false,
            missed_start: false,
            missed_release: false,
        }
    }

    fn lane(&self) -> (l: u8)
        ensures
            l == note_lane(self.note),
    {
        self.note.lane()
    }

    fn timestamp_ms(&self) -> (t: i64)
        ensures
            t == start_time(*self),
    {
        self.note.timestamp_ms() as i64
    }

    fn kind(&self) -> (k: NoteKind)
        ensures
            (k == NoteKind::Hold) == is_hold(self.note),
    {
        match &self.note {
            Note::Tap(_) => NoteKind::Tap,
            Note::Hold(_) => NoteKind::Hold,
        }
    }

    fn hold_end_ms(&self) -> (e: Option<i64>)
        ensures
            is_hold(self.note) ==> e == Some(end_time(*self) as i64),
            !is_hold(self.note) ==> e is None,
    {
        match &self.note {
            Note::Hold(note) => Some(note.end_ms as i64),
            Note::Tap(_) => None,
        }
    }

    fn is_fully_resolved(&self) -> (b: bool)
        ensures
            b == fully_resolved(*self),
    {
        match self.kind() {
            NoteKind::Tap => self.start_hit || self.missed_start,
            NoteKind::Hold => (self.start_hit && (self.release_hit || self.missed_release))
                || self.missed_start,
        }
    }

    fn is_start_pending(&self) -> (b: bool)
        ensures
            b == start_pending(*self),
    {
        !self.start_hit && !self.missed_start
    }

    fn is_hold_armed(&self) -> (b: bool)
        ensures
            b == hold_armed(*self),
    {
        let hold = match self.kind() {
            NoteKind::Hold => true,
            NoteKind::Tap => false,
        };
        hold && self.start_hit && !self.release_hit && !self.missed_release
    }
}

fn phase_for(kind: NoteKind) -> (p: HitPhase)
    ensures
        p == (if kind == NoteKind::Hold { HitPhase::HoldStart } else { HitPhase::Tap }),
{
    match kind {
        NoteKind::Tap => HitPhase::Tap,
        NoteKind::Hold => HitPhase::HoldStart,
    }
}

impl GameplayState {
    /// Starts a play of `chart`: its notes in play order (by start time, then
    /// lane), none judged yet, and 1000 possible points per tap and 2000 per hold.
    pub fn new(chart: Chart) -> (g: Self)
        requires
            chart_points(chart.notes@) <= u32::MAX,
        ensures
            g.wf(),
            g.note_states() == sort_notes(chart.notes@).map_values(|n: Note| rn_new(n)),
            g.totals_spec() == fresh_totals(chart_points(chart.notes@) as u32),
    {
        let sorted = sort_notes_stable(chart.notes);
        proof {
            lemma_chart_points_sort(chart.notes@);
        }
        let mut notes: Vec<RuntimeNote> = Vec::new();
        let mut possible_points: u32 = 0;
        let mut i: usize = 0;
        while i < sorted.len()
            invariant
                i <= sorted.len(),
                notes@ == sorted@.take(i as int).map_values(|n: Note| rn_new(n)),
                possible_points == chart_points(sorted@.take(i as int)),
                chart_points(sorted@) <= u32::MAX,
            decreases sorted.len() - i,
        {
            proof {
                let t = sorted@.take(i + 1);
                assert(t.drop_last() =~= sorted@.take(i as int));
                lemma_chart_prefix_le(sorted@, i + 1);
            }
            let note = sorted[i];
            let rn = RuntimeNote::new(note);
            let points: u32 = match rn.kind() {
                NoteKind::Tap => Judgment::Perfect.points(),
                NoteKind::Hold => Judgment::Perfect.points() * 2,
            };
            possible_points = possible_points + points;
            notes.push(rn);
            i = i + 1;
            assert(notes@ =~= sorted@.take(i as int).map_values(|n: Note| rn_new(n)));
        }
        assert(sorted@.take(sorted@.len() as int) =~= sorted@);
        proof {
            lemma_chart_points_fresh(sorted@);
            let m = sorted@.map_values(|n: Note| rn_new(n));
            assert forall|k: int| 0 <= k < m.len() implies consistent(#[trigger] m[k]) by {
            }
        }
        Self {
            windows: JudgmentWindows::standard(),
            scoring: ScoreTotals::new(possible_points),
            notes,
        }
    }

    /// A key press in `lane` at `time`: first every expired note is missed,
    /// then the first open note of the lane is judged.
    pub fn press_lane(&mut self, lane: u8, time: GameTime) -> (r: Option<HitEvent>)
        requires
            old(self).wf(),
            press_in_range(
                old(self).note_states().map_values(|n: RuntimeNote| expire(n, time.ms() as int)),
                lane,
                time.ms() as int,
            ),
        ensures
            final(self).wf(),
            ({
                let now = time.ms() as int;
                let s0 = old(self).note_states();
                let s1 = s0.map_values(|n: RuntimeNote| expire(n, now));
                let t1 = after_misses(old(self).totals_spec(), expire_events(s0, now).len() as int);
                let (s2, t2, e) = press_step(s1, t1, lane, now);
                &&& final(self).note_states() == s2
                &&& final(self).totals_spec() == t2
                &&& r == e
            }),
    {
        self.resolve_expired_notes(time);
        self.try_press_lane(lane, time)
    }

    /// A key release in `lane` at `time`: first every expired note is missed,
    /// then the release of the first held hold of the lane is judged.
    pub fn release_lane(&mut self, lane: u8, time: GameTime) -> (r: Option<HitEvent>)
        requires
            old(self).wf(),
            release_in_range(
                old(self).note_states().map_values(|n: RuntimeNote| expire(n, time.ms() as int)),
                lane,
                time.ms() as int,
            ),
        ensures
            final(self).wf(),
            ({
                let now = time.ms() as int;
                let s0 = old(self).note_states();
                let s1 = s0.map_values(|n: RuntimeNote| expire(n, now));
                let t1 = after_misses(old(self).totals_spec(), expire_events(s0, now).len() as int);
                let (s2, t2, e) = release_step(s1, t1, lane, now);
                &&& final(self).note_states() == s2
                &&& final(self).totals_spec() == t2
                &&& r == e
            }),
    {
        self.resolve_expired_notes(time);
        let now = time.as_millis();
        let mut index: usize = 0;
        while index < self.notes.len() && !(self.notes[index].lane() == lane
            && self.notes[index].is_hold_armed())
            invariant
                self.wf(),
                index <= self.notes@.len(),
                forall|i: int| 0 <= i < index ==> !(note_lane(self.notes@[i].note) == lane
                    && hold_armed(#[trigger] self.notes@[i])),
            decreases self.notes.len() - index,
        {
            index = index + 1;
        }
        proof {
            lemma_first_armed(self.notes@, lane, index as int);
        }
        if index >= self.notes.len() {
            return None;
        }
        let end_ms = match self.notes[index].hold_end_ms() {
            Some(end_ms) => end_ms,
            None => {
                return None;
            },
        };
        let judgment = self.windows.classify_offset(now - end_ms);
        let ghost old_notes = self.notes@;
        let ghost old_scoring = self.scoring;
        let mut note = self.notes[index];
        note.release_hit = true;
        self.notes.set(index, note);
        proof {
            let i = index as int;
            lemma_sum_update(old_notes, i, note, 0);
            lemma_sum_update(old_notes, i, note, 1);
            lemma_sum_update(old_notes, i, note, 2);
            lemma_sum_bounds(old_notes);
            assert(consistent(old_notes[i]));
            assert forall|k: int| 0 <= k < self.notes@.len() implies consistent(#[trigger] self.notes@[k]) by {
                if k != i {
                    assert(self.notes@[k] == old_notes[k]);
                }
            }
            assert(count_of(old_scoring.judgments, judgment) <= total_count(old_scoring.judgments));
        }
        self.scoring.apply(judgment);
        proof {
            crate::scoring::lemma_apply_accounting(old_scoring, judgment);
        }
        Some(HitEvent { lane, phase: HitPhase::HoldRelease, judgment })
    }

    /// Misses every expired note at `time` and reports those misses in note order.
    pub fn advance_to(&mut self, time: GameTime) -> (events: Vec<HitEvent>)
        requires
            old(self).wf(),
        ensures
            final(self).wf(),
            final(self).note_states() == old(self).note_states().map_values(
                |n: RuntimeNote| expire(n, time.ms() as int),
            ),
            events@ == expire_events(old(self).note_states(), time.ms() as int),
            final(self).totals_spec() == after_misses(old(self).totals_spec(), events@.len() as int),
    {
        self.resolve_expired_notes(time)
    }

    /// The running totals.
    pub fn totals(&self) -> (t: ScoreTotals)
        ensures
            t == self.totals_spec(),
    {
        self.scoring
    }

    /// Whether every note has been fully judged.
    pub fn all_notes_resolved(&self) -> (b: bool)
        ensures
            b == self.all_resolved_spec(),
    {
        let mut i: usize = 0;
        while i < self.notes.len()
            invariant
                i <= self.notes@.len(),
                forall|k: int| 0 <= k < i ==> fully_resolved(#[trigger] self.notes@[k]),
            decreases self.notes.len() - i,
        {
            if !self.notes[i].is_fully_resolved() {
                assert(!fully_resolved(self.note_states()[i as int]));
                return false;
            }
            i = i + 1;
        }
        true
    }

    fn try_press_lane(&mut self, lane: u8, time: GameTime) -> (r: Option<HitEvent>)
        requires
            old(self).wf(),
            press_in_range(old(self).notes@, lane, time.ms() as int),
            forall|i: int| 0 <= i < old(self).notes@.len() && start_pending(
                #[trigger] old(self).notes@[i],
            ) ==> time.ms() <= start_time(old(self).notes@[i]) + GOOD_WINDOW_MS,
        ensures
            final(self).wf(),
            ({
                let (s2, t2, e) = press_step(
                    old(self).notes@,
                    old(self).scoring,
                    lane,
                    time.ms() as int,
                );
                &&& final(self).notes@ == s2
                &&& final(self).scoring == t2
                &&& r == e
            }),
    {
        let now = time.as_millis();
        loop
            invariant
                self.wf(),
                self.notes@ == old(self).notes@,
                self.scoring == old(self).scoring,
                press_in_range(self.notes@, lane, now as int),
                now == time.ms(),
                forall|i: int| 0 <= i < self.notes@.len() && start_pending(#[trigger] self.notes@[i])
                    ==> now <= start_time(self.notes@[i]) + GOOD_WINDOW_MS,
            decreases 1int,
        {
            let mut index: usize = 0;
            while index < self.notes.len() && !(self.notes[index].lane() == lane
                && !self.notes[index].is_fully_resolved())
                invariant
                    index <= self.notes@.len(),
                    forall|i: int| 0 <= i < index ==> !(note_lane(self.notes@[i].note) == lane
                        && !fully_resolved(#[trigger] self.notes@[i])),
                decreases self.notes.len() - index,
            {
                index = index + 1;
            }
            proof {
                lemma_first_open(self.notes@, lane, index as int);
            }
            if index >= self.notes.len() {
                return None;
            }
            if self.notes[index].is_hold_armed() {
                return None;
            }
            let note_kind = self.notes[index].kind();
            let timestamp_ms = self.notes[index].timestamp_ms();
            let judgment = self.windows.classify_offset(now - timestamp_ms);
            if judgment.is_hit() {
                let ghost old_notes = self.notes@;
                let ghost old_scoring = self.scoring;
                let mut note = self.notes[index];
                note.start_hit = true;
                self.notes.set(index, note);
                proof {
                    let i = index as int;
                    lemma_sum_update(old_notes, i, note, 0);
                    lemma_sum_update(old_notes, i, note, 1);
                    lemma_sum_update(old_notes, i, note, 2);
                    lemma_sum_bounds(old_notes);
                    assert(consistent(old_notes[i]));
                    assert forall|k: int| 0 <= k < self.notes@.len() implies consistent(
                        #[trigger] self.notes@[k],
                    ) by {
                        if k != i {
                            assert(self.notes@[k] == old_notes[k]);
                        }
                    }
                    assert(count_of(old_scoring.judgments, judgment) <= total_count(
                        old_scoring.judgments,
                    ));
                }
                self.scoring.apply(judgment);
                proof {
                    crate::scoring::lemma_apply_accounting(old_scoring, judgment);
                }
                let phase = phase_for(note_kind);
                return Some(HitEvent { lane, phase, judgment });
            }
            if now > timestamp_ms + self.windows.good_ms() {
                assert(false);
                self.miss_note(index);
                continue;
            }
            return None;
        }
    }

    fn resolve_expired_notes(&mut self, time: GameTime) -> (events: Vec<HitEvent>)
        requires
            old(self).wf(),
        ensures
            final(self).wf(),
            final(self).notes@ == old(self).notes@.map_values(
                |n: RuntimeNote| expire(n, time.ms() as int),
            ),
            events@ == expire_events(old(self).notes@, time.ms() as int),
            final(self).scoring == after_misses(old(self).scoring, events@.len() as int),
            forall|i: int| 0 <= i < final(self).notes@.len() && start_pending(
                #[trigger] final(self).notes@[i],
            ) ==> time.ms() <= start_time(final(self).notes@[i]) + GOOD_WINDOW_MS,
    {
        let now = time.as_millis();
        let ghost now_i = now as int;
        let ghost s0 = self.notes@;
        let ghost t0 = self.scoring;
        let mut events: Vec<HitEvent> = Vec::new();
        let mut index: usize = 0;
        while index < self.notes.len()
            invariant
                self.wf(),
                now == time.ms(),
                now_i == now as int,
                self.notes@.len() == s0.len(),
                index <= s0.len(),
                forall|k: int| 0 <= k < index ==> #[trigger] self.notes@[k] == expire(s0[k], now_i),
                forall|k: int| index <= k < s0.len() ==> #[trigger] self.notes@[k] == s0[k],
                events@ == expire_events(s0.take(index as int), now_i),
                self.scoring == after_misses(t0, events@.len() as int),
                self.scoring.judgments.miss == t0.judgments.miss + events@.len(),
                forall|k: int| 0 <= k < index && start_pending(#[trigger] self.notes@[k]) ==> now_i
                    <= start_time(self.notes@[k]) + GOOD_WINDOW_MS,
            decreases s0.len() - index,
        {
            proof {
                assert(s0.take(index + 1).drop_last() =~= s0.take(index as int));
                assert(s0.take(index + 1).last() == s0[index as int]);
            }
            if self.notes[index].is_start_pending() {
                let note_kind = self.notes[index].kind();
                let timestamp_ms = self.notes[index].timestamp_ms();
                if now > timestamp_ms + self.windows.good_ms() {
                    let lane = self.notes[index].lane();
                    proof {
                        lemma_sum_bounds(self.notes@);
                        lemma_after_misses_step(t0, events@.len() as int);
                    }
                    self.miss_note(index);
                    let phase = phase_for(note_kind);
                    events.push(HitEvent { lane, phase, judgment: Judgment::Miss });
                }
                index = index + 1;
                continue;
            }
            if self.notes[index].is_hold_armed() {
                let end_ms = match self.notes[index].hold_end_ms() {
                    Some(end_ms) => end_ms,
                    None => {
                        index = index + 1;
                        continue;
                    },
                };
                if now > end_ms + self.windows.good_ms() {
                    let lane = self.notes[index].lane();
                    let ghost old_notes = self.notes@;
                    let ghost old_scoring = self.scoring;
                    let mut note = self.notes[index];
                    note.missed_release = true;
                    self.notes.set(index, note);
                    proof {
                        let i = index as int;
                        lemma_sum_update(old_notes, i, note, 0);
                        lemma_sum_update(old_notes, i, note, 1);
                        lemma_sum_update(old_notes, i, note, 2);
                        lemma_sum_bounds(old_notes);
                        assert forall|k: int| 0 <= k < self.notes@.len() implies consistent(
                            #[trigger] self.notes@[k],
                        ) by {
                            if k != i {
                                assert(self.notes@[k] == old_notes[k]);
                            }
                        }
                    }
                    proof {
                        lemma_after_misses_step(t0, events@.len() as int);
                    }
                    self.scoring.apply(Judgment::Miss);
                    proof {
                        crate::scoring::lemma_apply_accounting(old_scoring, Judgment::Miss);
                    }
                    events.push(
                        HitEvent { lane, phase: HitPhase::HoldRelease, judgment: Judgment::Miss },
                    );
                }
            }
            index = index + 1;
        }
        proof {
            assert(s0.take(s0.len() as int) =~= s0);
            assert(self.notes@ =~= s0.map_values(|n: RuntimeNote| expire(n, now_i)));
        }
        events
    }

    fn miss_note(&mut self, index: usize)
        requires
            old(self).wf(),
            index < old(self).notes@.len(),
            start_pending(old(self).notes@[index as int]),
        ensures
            final(self).wf(),
            final(self).notes@ == old(self).notes@.update(
                index as int,
                RuntimeNote { missed_start: true, ..old(self).notes@[index as int] },
            ),
            final(self).scoring == apply_spec(old(self).scoring, Judgment::Miss),
    {
        let ghost old_notes = self.notes@;
        let ghost old_scoring = self.scoring;
        let mut note = self.notes[index];
        note.missed_start = true;
        self.notes.set(index, note);
        proof {
            let i = index as int;
            lemma_sum_update(old_notes, i, note, 0);
            lemma_sum_update(old_notes, i, note, 1);
            lemma_sum_update(old_notes, i, note, 2);
            lemma_sum_bounds(old_notes);
            assert forall|k: int| 0 <= k < self.notes@.len() implies consistent(#[trigger] self.notes@[k]) by {
                if k != i {
                    assert(self.notes@[k] == old_notes[k]);
                }
            }
        }
        self.scoring.apply(Judgment::Miss);
        proof {
            crate::scoring::lemma_apply_accounting(old_scoring, Judgment::Miss);
        }
    }
}

proof fn lemma_chart_prefix_le(s: Seq<Note>, k: int)
    requires
        0 <= k <= s.len(),
    ensures
        chart_points(s.take(k)) <= chart_points(s),
    decreases s.len() - k,
{
    if k < s.len() {
        lemma_chart_prefix_le(s, k + 1);
        assert(s.take(k).push(s[k]) =~= s.take(k + 1));
        lemma_chart_points_push(s.take(k), s[k]);
    } else {
        assert(s.take(k) =~= s);
    }
}

} // verus!

verus! {

/// Law: the score of a play never exceeds its possible points, whatever
/// sequence of presses, releases and time steps led to the state.
pub proof fn lemma_score_within_possible(g: GameplayState)
    requires
        g.wf(),
    ensures
        g.totals_spec().score <= g.totals_spec().possible_points,
{
    lemma_sum_bounds(g.notes@);
}

/// Law: every judgment counted in the totals belongs to exactly one judged
/// part of a note (a start, or the release of a hold), and no note is both
/// hit and missed at the same part.
pub proof fn lemma_judgments_account_for_notes(g: GameplayState)
    requires
        g.wf(),
    ensures
        total_count(g.totals_spec().judgments) == sum_parts(g.note_states(), 0),
        forall|i: int| 0 <= i < g.note_states().len() ==> consistent(#[trigger] g.note_states()[i]),
        g.totals_spec().combo <= g.totals_spec().max_combo,
{
}

/// Law: once time has passed the start and the end of every note by more than
/// the good window, advancing to that time leaves every note fully judged.
pub proof fn lemma_advance_past_end_resolves_all(g: GameplayState, now: int)
    requires
        g.wf(),
        forall|i: int| 0 <= i < g.note_states().len() ==> now > end_time(#[trigger] g.note_states()[i])
            + GOOD_WINDOW_MS && now > start_time(g.note_states()[i]) + GOOD_WINDOW_MS,
    ensures
        forall|i: int| 0 <= i < g.note_states().len() ==> fully_resolved(
            #[trigger] expire(g.note_states()[i], now),
        ),
{
    assert forall|i: int| 0 <= i < g.note_states().len() implies fully_resolved(
        #[trigger] expire(g.note_states()[i], now),
    ) by {
        assert(consistent(g.note_states()[i]));
    }
}

proof fn lemma_no_expiry(s: Seq<RuntimeNote>, now: int)
    requires
        forall|i: int| 0 <= i < s.len() ==> expire(#[trigger] s[i], now) == s[i],
    ensures
        expire_events(s, now).len() == 0,
        s.map_values(|n: RuntimeNote| expire(n, now)) == s,
    decreases s.len(),
{
    assert(s.map_values(|n: RuntimeNote| expire(n, now)) =~= s);
    if s.len() > 0 {
        let d = s.drop_last();
        assert forall|i: int| 0 <= i < d.len() implies expire(#[trigger] d[i], now) == d[i] by {
            assert(d[i] == s[i]);
        }
        lemma_no_expiry(d, now);
        assert(expire(s[s.len() - 1], now) == s.last());
    }
}

/// Law: a press that comes too early changes nothing. Where no note expires at
/// `now` and the first open note of the lane, if any, is a held hold or starts more
/// than the good window after `now`, the press judges nothing, consumes no note and
/// misses none, so a later press within the window can still hit that note. This
/// holds at every time; `press_lane` itself takes the times at which the offset of
/// the judged note fits in `i64` (`press_in_range`).
pub proof fn lemma_early_press_changes_nothing(
    s: Seq<RuntimeNote>,
    t: ScoreTotals,
    lane: u8,
    now: int,
)
    requires
        forall|i: int| 0 <= i < s.len() && start_pending(#[trigger] s[i]) ==> now <= start_time(s[i])
            + GOOD_WINDOW_MS,
        forall|i: int| 0 <= i < s.len() && hold_armed(#[trigger] s[i]) ==> now <= end_time(s[i])
            + GOOD_WINDOW_MS,
        ({
            let i = first_open(s, lane);
            i >= s.len() || hold_armed(s[i]) || start_time(s[i]) - now > GOOD_WINDOW_MS
        }),
    ensures
        press_step(
            s.map_values(|n: RuntimeNote| expire(n, now)),
            after_misses(t, expire_events(s, now).len() as int),
            lane,
            now,
        ) == (s, t, Option::<HitEvent>::None),
{
    assert forall|i: int| 0 <= i < s.len() implies expire(#[trigger] s[i], now) == s[i] by {
        if start_pending(s[i]) {
            assert(now <= start_time(s[i]) + GOOD_WINDOW_MS);
        } else if hold_armed(s[i]) {
            assert(now <= end_time(s[i]) + GOOD_WINDOW_MS);
        }
    }
    lemma_no_expiry(s, now);
}

/// Law: a hold release is graded by how far it lies from the hold's end, early or
/// late alike: Perfect within 30 ms, Great within 60, Good within 90, Miss beyond;
/// the release is reported in the lane as the hold's release, and releasing `d` ms
/// late grades the same as releasing `d` ms early.
pub proof fn lemma_release_graded_by_distance(s: Seq<RuntimeNote>, t: ScoreTotals, lane: u8, now: int)
    requires
        first_armed(s, lane) < s.len(),
    ensures
        ({
            let d = now - end_time(s[first_armed(s, lane)]);
            let e = release_step(s, t, lane, now).2;
            &&& e matches Some(h) && h.lane == lane && h.phase == HitPhase::HoldRelease
            &&& (e->0.judgment == Judgment::Perfect) <==> (-30 <= d <= 30)
            &&& (e->0.judgment == Judgment::Great) <==> (30 < d <= 60 || -60 <= d < -30)
            &&& (e->0.judgment == Judgment::Good) <==> (60 < d <= 90 || -90 <= d < -60)
            &&& (e->0.judgment == Judgment::Miss) <==> (d > 90 || d < -90)
            &&& release_step(s, t, lane, end_time(s[first_armed(s, lane)]) - d).2 == e
        }),
{
}

/// Law: a press on the first open note of a lane, when that note is not a held hold,
/// is graded by how far it lies from the note's start, early or late alike: Perfect
/// within 30 ms, Great within 60, Good within 90; further out it judges nothing and
/// changes nothing.
pub proof fn lemma_press_graded_by_distance(s: Seq<RuntimeNote>, t: ScoreTotals, lane: u8, now: int)
    requires
        first_open(s, lane) < s.len(),
        !hold_armed(s[first_open(s, lane)]),
    ensures
        ({
            let d = now - start_time(s[first_open(s, lane)]);
            let r = press_step(s, t, lane, now);
            &&& (d > 90 || d < -90) ==> r == (s, t, Option::<HitEvent>::None)
            &&& -90 <= d <= 90 ==> (r.2 matches Some(h) && h.lane == lane)
            &&& (r.2 matches Some(h) && h.judgment == Judgment::Perfect) <==> (-30 <= d <= 30)
            &&& (r.2 matches Some(h) && h.judgment == Judgment::Great) <==> (30 < d <= 60 || -60
                <= d < -30)
            &&& (r.2 matches Some(h) && h.judgment == Judgment::Good) <==> (60 < d <= 90 || -90
                <= d < -60)
            &&& press_step(s, t, lane, start_time(s[first_open(s, lane)]) - d).2 == r.2
        }),
{
}

} // verus!
