//! Which notes are on screen at a given time, and where they are in their approach.
//! (How far along its approach a note is drawn is float arithmetic, left to the renderer.)
use vstd::prelude::*;
use crate::chart::{Chart, Note, NoteKind};
use crate::clock::GameTime;

verus! {

/// A note on screen.
#[derive(Debug, Clone, Copy, PartialEq, Eq, Structural)]
pub struct LaneProjection {
    pub lane: u8,
    pub kind: NoteKind,
    pub timestamp_ms: i64,
    pub end_timestamp_ms: Option<i64>,
    pub is_active: bool,
}

/// Lowest approach window for which every visibility bound fits in `i64`.
pub open spec fn window_in_range(window: i64) -> bool {
    window >= i64::MIN + 0x1_0000_0000
}

/// What of a note is on screen at `now`: a tap from `window` before its time until its
/// time; a hold from `window` before its start until its end, active while held.
pub open spec fn project_spec(n: Note, window: int, now: int) -> Option<LaneProjection> {
    match n {
        Note::Tap(t) => if now < t.time_ms - window || now > t.time_ms {
            None
        } else {
            Some(
                LaneProjection {
                    lane: t.lane,
                    kind: NoteKind::Tap,
                    timestamp_ms: t.time_ms as i64,
                    end_timestamp_ms: None,
                    is_active: false,
                },
            )
        },
        Note::Hold(h) => if now < h.start_ms - window || now > h.end_ms {
            None
        } else {
            Some(
                LaneProjection {
                    lane: h.lane,
                    kind: NoteKind::Hold,
                    timestamp_ms: h.start_ms as i64,
                    end_timestamp_ms: Some(h.end_ms as i64),
                    is_active: now >= h.start_ms && now <= h.end_ms,
                },
            )
        },
    }
}

/// Projects one note.
pub fn project_note(note: &Note, window: i64, time: GameTime) -> (r: Option<LaneProjection>)
    requires
        window_in_range(window),
    ensures
        r == project_spec(*note, window as int, time.ms() as int),
{
    let now = time.as_millis();
    match note {
        Note::Tap(t) => {
            let ts = t.time_ms as i64;
            if now < ts - window || now > ts {
                None
            } else {
                Some(
                    LaneProjection {
                        lane: t.lane,
                        kind: NoteKind::Tap,
                        timestamp_ms: ts,
                        end_timestamp_ms: None,
                        is_active: false,
                    },
                )
            }
        },
        Note::Hold(h) => {
            let start = h.start_ms as i64;
            let end = h.end_ms as i64;
            if now < start - window || now > end {
                None
            } else {
                Some(
                    LaneProjection {
                        lane: h.lane,
                        kind: NoteKind::Hold,
                        timestamp_ms: start,
                        end_timestamp_ms: Some(end),
                        is_active: now >= start && now <= end,
                    },
                )
            }
        },
    }
}

pub open spec fn kind_rank(k: NoteKind) -> int {
    match k {
        NoteKind::Tap => 0,
        NoteKind::Hold => 1,
    }
}

/// `None` before every end, ends by time.
pub open spec fn end_lt(a: Option<i64>, b: Option<i64>) -> bool {
    match (a, b) {
        (None, Some(_)) => true,
        (Some(x), Some(y)) => x < y,
        _ => false,
    }
}

/// Screen order: by time, lane, taps before holds, then end.
pub open spec fn projection_lt(a: LaneProjection, b: LaneProjection) -> bool {
    a.timestamp_ms < b.timestamp_ms || (a.timestamp_ms == b.timestamp_ms && (a.lane < b.lane || (
    a.lane == b.lane && (kind_rank(a.kind) < kind_rank(b.kind) || (a.kind == b.kind && end_lt(
        a.end_timestamp_ms,
        b.end_timestamp_ms,
    ))))))
}

fn before(a: &LaneProjection, b: &LaneProjection) -> (r: bool)
    ensures
        r == projection_lt(*a, *b),
{
    let ra: u8 = match a.kind {
        NoteKind::Tap => 0,
        NoteKind::Hold => 1,
    };
    let rb: u8 = match b.kind {
        NoteKind::Tap => 0,
        NoteKind::Hold => 1,
    };
    let ends = match (a.end_timestamp_ms, b.end_timestamp_ms) {
        (None, Some(_)) => true,
        (Some(x), Some(y)) => x < y,
        _ => false,
    };
    a.timestamp_ms < b.timestamp_ms || (a.timestamp_ms == b.timestamp_ms && (a.lane < b.lane || (
    a.lane == b.lane && (ra < rb || (ra == rb && ends)))))
}

/// The projections of the first `k` notes that are on screen, in chart order.
pub open spec fn on_screen(notes: Seq<Note>, window: int, now: int, k: int) -> Seq<LaneProjection>
    decreases k,
{
    if k <= 0 {
        seq![]
    } else {
        match project_spec(notes[k - 1], window, now) {
            Some(p) => on_screen(notes, window, now, k - 1).push(p),
            None => on_screen(notes, window, now, k - 1),
        }
    }
}

pub open spec fn insert_projection(s: Seq<LaneProjection>, x: LaneProjection) -> Seq<LaneProjection>
    decreases s.len(),
{
    if s.len() == 0 {
        seq![x]
    } else if !projection_lt(x, s.last()) {
        s.push(x)
    } else {
        insert_projection(s.drop_last(), x).push(s.last())
    }
}

/// The stable sort of projections in screen order.
pub open spec fn sort_projections(s: Seq<LaneProjection>) -> Seq<LaneProjection>
    decreases s.len(),
{
    if s.len() == 0 {
        seq![]
    } else {
        insert_projection(sort_projections(s.drop_last()), s.last())
    }
}

proof fn lemma_insert_projection_at(s: Seq<LaneProjection>, x: LaneProjection, p: int)
    requires
        0 <= p <= s.len(),
        forall|q: int| p <= q < s.len() ==> projection_lt(x, #[trigger] s[q]),
        p == 0 || !projection_lt(x, s[p - 1]),
    ensures
        insert_projection(s, x) == s.take(p).push(x) + s.skip(p),
    decreases s.len(),
{
    if s.len() == 0 {
        assert(s.take(p).push(x) + s.skip(p) =~= seq![x]);
    } else if p == s.len() {
        assert(s.take(p) =~= s);
        assert(s.take(p).push(x) + s.skip(p) =~= s.push(x));
    } else {
        let d = s.drop_last();
        assert forall|q: int| p <= q < d.len() implies projection_lt(x, #[trigger] d[q]) by {
            assert(d[q] == s[q]);
        }
        if p > 0 {
            assert(d[p - 1] == s[p - 1]);
        }
        lemma_insert_projection_at(d, x, p);
        assert(d.take(p) =~= s.take(p));
        assert(d.take(p).push(x) + d.skip(p) + seq![s.last()] =~= s.take(p).push(x) + s.skip(p));
    }
}

/// A chart and the approach window of its notes.
#[derive(Debug, Clone)]
pub struct ChartScheduler {
    pub chart: Chart,
    pub approach_window_ms: i64,
}

impl ChartScheduler {
    pub fn new(chart: Chart, approach_window_ms: i64) -> (s: Self)
        ensures
            s.chart.notes@ == chart.notes@,
            s.approach_window_ms == approach_window_ms,
    {
        ChartScheduler { chart, approach_window_ms }
    }

    /// The notes on screen at `time`, in screen order (notes that compare equal keep
    /// their chart order).
    pub fn visible_notes(&self, time: GameTime) -> (r: Vec<LaneProjection>)
        requires
            window_in_range(self.approach_window_ms),
        ensures
            r@ == sort_projections(
                on_screen(
                    self.chart.notes@,
                    self.approach_window_ms as int,
                    time.ms() as int,
                    self.chart.notes@.len() as int,
                ),
            ),
    {
        let ghost w = self.approach_window_ms as int;
        let ghost now = time.ms() as int;
        let mut raw: Vec<LaneProjection> = Vec::new();
        let mut i: usize = 0;
        while i < self.chart.notes.len()
            invariant
                i <= self.chart.notes@.len(),
                window_in_range(self.approach_window_ms),
                w == self.approach_window_ms as int,
                now == time.ms() as int,
                raw@ == on_screen(self.chart.notes@, w, now, i as int),
            decreases self.chart.notes.len() - i,
        {
            match project_note(&self.chart.notes[i], self.approach_window_ms, time) {
                Some(p) => {
                    raw.push(p);
                },
                None => {},
            }
            i = i + 1;
        }
        let ghost all = raw@;
        let mut out: Vec<LaneProjection> = Vec::new();
        let mut k: usize = 0;
        while k < raw.len()
            invariant
                k <= raw@.len(),
                all == raw@,
                out@ == sort_projections(all.take(k as int)),
            decreases raw.len() - k,
        {
            let x = raw[k];
            let mut p: usize = out.len();
            while p > 0 && before(&x, &out[p - 1])
                invariant
                    p <= out@.len(),
                    forall|q: int| p <= q < out@.len() ==> projection_lt(x, #[trigger] out@[q]),
                decreases p,
            {
                p = p - 1;
            }
            proof {
                lemma_insert_projection_at(out@, x, p as int);
                assert(all.take(k + 1).drop_last() =~= all.take(k as int));
                assert(all.take(k + 1).last() == x);
            }
            out.insert(p, x);
            assert(out@ =~= sort_projections(all.take(k + 1)));
            k = k + 1;
        }
        assert(all.take(raw@.len() as int) =~= all);
        out
    }
}

} // verus!
