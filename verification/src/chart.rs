//! Chart notes, their ordering, and validation of notes read from a chart file.
use vstd::prelude::*;

verus! {

broadcast use vstd::seq_lib::group_to_multiset_ensures;

/// The highest lane index of the six-lane playfield.
pub const MAX_LANE: u8 = 5;

#[derive(Debug, Clone, Copy, PartialEq, Eq, Structural)]
pub enum NoteKind {
    Tap,
    Hold,
}

#[derive(Debug, Clone, Copy, PartialEq, Eq, Structural)]
pub struct TapNote {
    pub kind: NoteKind,
    pub time_ms: u32,
    pub lane: u8,
}

#[derive(Debug, Clone, Copy, PartialEq, Eq, Structural)]
pub struct HoldNote {
    pub kind: NoteKind,
    pub start_ms: u32,
    pub end_ms: u32,
    pub lane: u8,
}

#[derive(Debug, Clone, Copy, PartialEq, Eq, Structural)]
pub enum Note {
    Tap(TapNote),
    Hold(HoldNote),
}

/// Title, artist and difficulty name of a chart.
#[derive(Debug, Clone, PartialEq, Eq)]
pub struct ChartMetadata {
    pub title: String,
    pub artist: String,
    pub chart_name: String,
    pub offset_ms: i32,
}

/// The playable content of a chart: its metadata and its notes.
/// (Tempo information stays with the file loader.)
#[derive(Debug, Clone)]
pub struct Chart {
    pub metadata: ChartMetadata,
    pub notes: Vec<Note>,
}

pub open spec fn note_lane(n: Note) -> u8 {
    match n {
        Note::Tap(t) => t.lane,
        Note::Hold(h) => h.lane,
    }
}

pub open spec fn note_time(n: Note) -> u32 {
    match n {
        Note::Tap(t) => t.time_ms,
        Note::Hold(h) => h.start_ms,
    }
}

/// Notes are ordered by start time, then by lane.
pub open spec fn note_le(a: Note, b: Note) -> bool {
    note_time(a) < note_time(b) || (note_time(a) == note_time(b) && note_lane(a) <= note_lane(b))
}

/// Inserting a note after every note that does not come after it.
pub open spec fn insert_note(s: Seq<Note>, x: Note) -> Seq<Note>
    decreases s.len(),
{
    if s.len() == 0 {
        seq![x]
    } else if note_le(s.last(), x) {
        s.push(x)
    } else {
        insert_note(s.drop_last(), x).push(s.last())
    }
}

/// The stable sort of a note sequence by (start time, lane).
pub open spec fn sort_notes(s: Seq<Note>) -> Seq<Note>
    decreases s.len(),
{
    if s.len() == 0 {
        seq![]
    } else {
        insert_note(sort_notes(s.drop_last()), s.last())
    }
}

pub open spec fn notes_sorted(s: Seq<Note>) -> bool {
    forall|i: int, j: int| 0 <= i < j < s.len() ==> note_le(#[trigger] s[i], #[trigger] s[j])
}

impl Note {
    pub fn lane(&self) -> (l: u8)
        ensures
            l == note_lane(*self),
    {
        match self {
            Note::Tap(note) => note.lane,
            Note::Hold(note) => note.lane,
        }
    }

    pub fn timestamp_ms(&self) -> (t: u32)
        ensures
            t == note_time(*self),
    {
        match self {
            Note::Tap(note) => note.time_ms,
            Note::Hold(note) => note.start_ms,
        }
    }
}

/// Whether `a` may stand before `b` in a sorted note list.
pub fn note_precedes(a: &Note, b: &Note) -> (r: bool)
    ensures
        r == note_le(*a, *b),
{
    let ta = a.timestamp_ms();
    let tb = b.timestamp_ms();
    ta < tb || (ta == tb && a.lane() <= b.lane())
}

proof fn lemma_insert_at(s: Seq<Note>, x: Note, p: int)
    requires
        0 <= p <= s.len(),
        forall|q: int| p <= q < s.len() ==> !note_le(#[trigger] s[q], x),
        p == 0 || note_le(s[p - 1], x),
    ensures
        insert_note(s, x) == s.take(p).push(x) + s.skip(p),
    decreases s.len(),
{
    if s.len() == 0 {
        assert(s.take(p).push(x) + s.skip(p) =~= seq![x]);
    } else if p == s.len() {
        assert(note_le(s.last(), x));
        assert(s.take(p).push(x) + s.skip(p) =~= s.push(x));
    } else {
        assert(!note_le(s[s.len() - 1], x));
        let d = s.drop_last();
        assert forall|q: int| p <= q < d.len() implies !note_le(#[trigger] d[q], x) by {
            assert(d[q] == s[q]);
        }
        if p > 0 {
            assert(d[p - 1] == s[p - 1]);
        }
        lemma_insert_at(d, x, p);
        assert(d.take(p) =~= s.take(p));
        assert((d.take(p).push(x) + d.skip(p)).push(s.last()) =~= s.take(p).push(x) + s.skip(p));
    }
}

proof fn lemma_insert_contents(s: Seq<Note>, x: Note)
    ensures
        insert_note(s, x).len() == s.len() + 1,
        insert_note(s, x).to_multiset() =~= s.to_multiset().insert(x),
        forall|y: Note| #[trigger] insert_note(s, x).contains(y) ==> y == x || s.contains(y),
    decreases s.len(),
{
    if s.len() == 0 {
        assert(seq![x] =~= Seq::<Note>::empty().push(x));
        assert forall|y: Note| #[trigger] insert_note(s, x).contains(y) implies y == x by {
            let k = choose|k: int| 0 <= k < insert_note(s, x).len() && insert_note(s, x)[k] == y;
        }
    } else if note_le(s.last(), x) {
    } else {
        let d = s.drop_last();
        lemma_insert_contents(d, x);
        assert(s =~= d.push(s.last()));
        assert forall|y: Note| #[trigger] insert_note(s, x).contains(y) implies y == x
            || s.contains(y) by {
            let r = insert_note(d, x);
            let k = choose|k: int| 0 <= k < r.push(s.last()).len() && r.push(s.last())[k] == y;
            if k == r.len() {
                assert(s[s.len() - 1] == y);
            } else {
                assert(r[k] == y);
                assert(r.contains(y));
                if y != x {
                    let m = choose|m: int| 0 <= m < d.len() && d[m] == y;
                    assert(s[m] == y);
                }
            }
        }
    }
}

proof fn lemma_insert_sorted(s: Seq<Note>, x: Note)
    requires
        notes_sorted(s),
    ensures
        notes_sorted(insert_note(s, x)),
    decreases s.len(),
{
    if s.len() == 0 {
    } else if note_le(s.last(), x) {
        let r = s.push(x);
        assert forall|i: int, j: int| 0 <= i < j < r.len() implies note_le(#[trigger] r[i], #[trigger] r[j]) by {
            if j == s.len() {
                if i < s.len() - 1 {
                    assert(note_le(s[i], s[s.len() - 1]));
                }
            } else {
                assert(note_le(s[i], s[j]));
            }
        }
    } else {
        let d = s.drop_last();
        assert(notes_sorted(d)) by {
            assert forall|i: int, j: int| 0 <= i < j < d.len() implies note_le(#[trigger] d[i], #[trigger] d[j]) by {
                assert(note_le(s[i], s[j]));
            }
        }
        lemma_insert_sorted(d, x);
        lemma_insert_contents(d, x);
        let t = insert_note(d, x);
        let r = t.push(s.last());
        assert forall|i: int, j: int| 0 <= i < j < r.len() implies note_le(#[trigger] r[i], #[trigger] r[j]) by {
            if j == t.len() {
                let y = t[i];
                assert(t.contains(y));
                if y != x {
                    let m = choose|m: int| 0 <= m < d.len() && d[m] == y;
                    assert(note_le(s[m], s[s.len() - 1]));
                }
            } else {
                assert(note_le(t[i], t[j]));
            }
        }
    }
}

/// Law: the note sort yields a sorted permutation of its input.
pub proof fn lemma_sort_notes_sorted_permutation(s: Seq<Note>)
    ensures
        notes_sorted(sort_notes(s)),
        sort_notes(s).len() == s.len(),
        sort_notes(s).to_multiset() =~= s.to_multiset(),
    decreases s.len(),
{
    if s.len() > 0 {
        let d = s.drop_last();
        lemma_sort_notes_sorted_permutation(d);
        lemma_insert_sorted(sort_notes(d), s.last());
        lemma_insert_contents(sort_notes(d), s.last());
        assert(s =~= d.push(s.last()));
    }
}

/// Stable sort of notes by start time, then lane.
pub fn sort_notes_stable(v: Vec<Note>) -> (r: Vec<Note>)
    ensures
        r@ == sort_notes(v@),
{
    let mut out: Vec<Note> = Vec::new();
    let mut i: usize = 0;
    while i < v.len()
        invariant
            i <= v.len(),
            out@ == sort_notes(v@.take(i as int)),
        decreases v.len() - i,
    {
        let x = v[i];
        let mut p: usize = out.len();
        while p > 0 && !note_precedes(&out[p - 1], &x)
            invariant
                p <= out.len(),
                forall|q: int| p <= q < out.len() ==> !note_le(#[trigger] out@[q], x),
            decreases p,
        {
            p = p - 1;
        }
        proof {
            lemma_insert_at(out@, x, p as int);
            assert(v@.take(i + 1).drop_last() =~= v@.take(i as int));
            assert(v@.take(i + 1).last() == x);
        }
        out.insert(p, x);
        assert(out@ =~= sort_notes(v@.take(i + 1)));
        i = i + 1;
    }
    assert(v@.take(v.len() as int) =~= v@);
    out
}

} // verus!

verus! {

/// A note as written in a chart file, before validation.
#[derive(Debug, Clone, Copy, PartialEq, Eq, Structural)]
pub enum RawNote {
    Tap { time_ms: u32, lane: u8 },
    Hold { start_ms: u32, end_ms: u32, lane: u8 },
}

/// Why a note of a chart file was rejected.
#[derive(Debug, Clone, PartialEq, Eq)]
pub enum ChartNoteError {
    InvalidHold(String),
    InvalidLane { lane: u8, max_lane: u8 },
}

pub open spec fn invalid_hold_message() -> Seq<char> {
    "hold note end_ms must be greater than start_ms"@
}

/// Whether a raw note is accepted.
pub open spec fn raw_note_ok(r: RawNote) -> bool {
    match r {
        RawNote::Tap { lane, .. } => lane <= MAX_LANE,
        RawNote::Hold { start_ms, end_ms, lane } => start_ms < end_ms && lane <= MAX_LANE,
    }
}

/// The note an accepted raw note becomes.
pub open spec fn raw_note_to_note(r: RawNote) -> Note {
    match r {
        RawNote::Tap { time_ms, lane } => Note::Tap(TapNote { kind: NoteKind::Tap, time_ms, lane }),
        RawNote::Hold { start_ms, end_ms, lane } => Note::Hold(
            HoldNote { kind: NoteKind::Hold, start_ms, end_ms, lane },
        ),
    }
}

/// The error a rejected raw note produces: holds are checked for their
/// duration before their lane.
pub open spec fn raw_note_error_is(r: RawNote, e: ChartNoteError) -> bool {
    match r {
        RawNote::Tap { lane, .. } => e == ChartNoteError::InvalidLane { lane, max_lane: MAX_LANE },
        RawNote::Hold { start_ms, end_ms, lane } => if end_ms <= start_ms {
            e matches ChartNoteError::InvalidHold(m) && m@ == invalid_hold_message()
        } else {
            e == ChartNoteError::InvalidLane { lane, max_lane: MAX_LANE }
        },
    }
}

/// Index of the first rejected raw note, or the length when all are accepted.
pub open spec fn first_bad_raw_note(s: Seq<RawNote>) -> int
    decreases s.len(),
{
    if s.len() == 0 {
        0
    } else if !raw_note_ok(s[0]) {
        0
    } else {
        1 + first_bad_raw_note(s.drop_first())
    }
}

pub fn validate_lane(lane: u8) -> (r: Result<u8, ChartNoteError>)
    ensures
        lane <= MAX_LANE ==> r == Ok::<u8, ChartNoteError>(lane),
        lane > MAX_LANE ==> r == Err::<u8, ChartNoteError>(
            ChartNoteError::InvalidLane { lane, max_lane: MAX_LANE },
        ),
{
    if lane <= MAX_LANE {
        Ok(lane)
    } else {
        Err(ChartNoteError::InvalidLane { lane, max_lane: MAX_LANE })
    }
}

/// Validates one raw note.
pub fn convert_note(raw: RawNote) -> (r: Result<Note, ChartNoteError>)
    ensures
        raw_note_ok(raw) ==> r == Ok::<Note, ChartNoteError>(raw_note_to_note(raw)),
        !raw_note_ok(raw) ==> (r matches Err(e) && raw_note_error_is(raw, e)),
{
    match raw {
        RawNote::Tap { time_ms, lane } => {
            let lane = validate_lane(lane)?;
            Ok(Note::Tap(TapNote { kind: NoteKind::Tap, time_ms, lane }))
        },
        RawNote::Hold { start_ms, end_ms, lane } => {
            if end_ms <= start_ms {
                return Err(
                    ChartNoteError::InvalidHold(
                        String::from_str("hold note end_ms must be greater than start_ms"),
                    ),
                );
            }
            let lane = validate_lane(lane)?;
            Ok(Note::Hold(HoldNote { kind: NoteKind::Hold, start_ms, end_ms, lane }))
        },
    }
}

proof fn lemma_first_bad_bounds(s: Seq<RawNote>)
    ensures
        0 <= first_bad_raw_note(s) <= s.len(),
        forall|i: int| 0 <= i < first_bad_raw_note(s) ==> raw_note_ok(#[trigger] s[i]),
        first_bad_raw_note(s) < s.len() ==> !raw_note_ok(s[first_bad_raw_note(s)]),
    decreases s.len(),
{
    if s.len() > 0 && raw_note_ok(s[0]) {
        lemma_first_bad_bounds(s.drop_first());
        assert forall|i: int| 0 <= i < first_bad_raw_note(s) implies raw_note_ok(#[trigger] s[i]) by {
            if i > 0 {
                assert(s[i] == s.drop_first()[i - 1]);
            }
        }
    }
}

proof fn lemma_first_bad_is(s: Seq<RawNote>, k: int)
    requires
        0 <= k <= s.len(),
        forall|i: int| 0 <= i < k ==> raw_note_ok(#[trigger] s[i]),
        k == s.len() || !raw_note_ok(s[k]),
    ensures
        first_bad_raw_note(s) == k,
    decreases s.len(),
{
    if s.len() > 0 && k > 0 {
        assert forall|i: int| 0 <= i < k - 1 implies raw_note_ok(#[trigger] s.drop_first()[i]) by {
            assert(s.drop_first()[i] == s[i + 1]);
        }
        lemma_first_bad_is(s.drop_first(), k - 1);
    }
}

/// Validates the notes of a chart file and sorts them by start time, then lane
/// (notes with equal start time and lane keep their file order). The first
/// rejected note, in file order, decides the error.
pub fn convert_chart_notes(raw: Vec<RawNote>) -> (r: Result<Vec<Note>, ChartNoteError>)
    ensures
        first_bad_raw_note(raw@) == raw@.len() ==> (r matches Ok(v) && v@ == sort_notes(
            raw@.map_values(|n: RawNote| raw_note_to_note(n)),
        )),
        first_bad_raw_note(raw@) < raw@.len() ==> (r matches Err(e) && raw_note_error_is(
            raw@[first_bad_raw_note(raw@)],
            e,
        )),
{
    let mut notes: Vec<Note> = Vec::new();
    let mut i: usize = 0;
    while i < raw.len()
        invariant
            i <= raw.len(),
            notes@.len() == i,
            forall|j: int| 0 <= j < i ==> raw_note_ok(#[trigger] raw@[j]),
            forall|j: int| 0 <= j < i ==> notes@[j] == raw_note_to_note(#[trigger] raw@[j]),
        decreases raw.len() - i,
    {
        match convert_note(raw[i]) {
            Ok(note) => {
                notes.push(note);
            },
            Err(e) => {
                proof {
                    lemma_first_bad_is(raw@, i as int);
                }
                return Err(e);
            },
        }
        i = i + 1;
    }
    proof {
        lemma_first_bad_is(raw@, raw@.len() as int);
        assert(notes@ =~= raw@.map_values(|n: RawNote| raw_note_to_note(n)));
    }
    Ok(sort_notes_stable(notes))
}

} // verus!
