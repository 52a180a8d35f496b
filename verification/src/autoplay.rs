//! The key events the autoplay mode performs for a chart.
use vstd::prelude::*;
use crate::artwork::seq_lt;
use crate::chart::{note_lane, Chart, Note};
use crate::input::{key_for_lane, InputAction, InputEvent};
use crate::keymap::Keymap;

verus! {

/// A key event as plain values: key, time, action.
pub type EventFacts = (Seq<char>, int, InputAction);

pub open spec fn facts_of_event(e: InputEvent) -> EventFacts {
    (e.key@, e.timestamp.ms() as int, e.action)
}

/// The presses and releases that play one note with `key`.
pub open spec fn note_events(key: Seq<char>, n: Note) -> Seq<EventFacts> {
    match n {
        Note::Tap(t) => seq![(key, t.time_ms as int, InputAction::Press)],
        Note::Hold(h) => seq![
            (key, h.start_ms as int, InputAction::Press),
            (key, h.end_ms as int, InputAction::Release),
        ],
    }
}

/// The events of the first `k` notes, in note order; a note whose lane has no key has none.
pub open spec fn raw_autoplay_events(keys: Seq<Seq<char>>, notes: Seq<Note>, k: int) -> Seq<EventFacts>
    decreases k,
{
    if k <= 0 {
        seq![]
    } else {
        let before = raw_autoplay_events(keys, notes, k - 1);
        let lane = note_lane(notes[k - 1]) as int;
        if lane < keys.len() {
            before + note_events(keys[lane], notes[k - 1])
        } else {
            before
        }
    }
}

/// Autoplay order: by time; at one time presses before releases; among presses (or
/// among releases) by key.
pub open spec fn event_lt(a: EventFacts, b: EventFacts) -> bool {
    a.1 < b.1 || (a.1 == b.1 && ((a.2 == InputAction::Press && b.2 == InputAction::Release) || (a.2
        == b.2 && seq_lt(a.0, b.0))))
}

pub open spec fn insert_event(s: Seq<EventFacts>, x: EventFacts) -> Seq<EventFacts>
    decreases s.len(),
{
    if s.len() == 0 {
        seq![x]
    } else if !event_lt(x, s.last()) {
        s.push(x)
    } else {
        insert_event(s.drop_last(), x).push(s.last())
    }
}

/// The stable sort of events in autoplay order.
pub open spec fn sort_events(s: Seq<EventFacts>) -> Seq<EventFacts>
    decreases s.len(),
{
    if s.len() == 0 {
        seq![]
    } else {
        insert_event(sort_events(s.drop_last()), s.last())
    }
}

/// The events autoplay performs for a chart with these notes.
pub open spec fn autoplay_spec(keys: Seq<Seq<char>>, notes: Seq<Note>) -> Seq<EventFacts> {
    sort_events(raw_autoplay_events(keys, notes, notes.len() as int))
}

pub open spec fn facts_seq(v: Seq<InputEvent>) -> Seq<EventFacts> {
    v.map_values(|e: InputEvent| facts_of_event(e))
}

fn event_before(a: &InputEvent, b: &InputEvent) -> (r: bool)
    ensures
        r == event_lt(facts_of_event(*a), facts_of_event(*b)),
{
    let ta = a.timestamp.as_millis();
    let tb = b.timestamp.as_millis();
    if ta != tb {
        return ta < tb;
    }
    match (a.action, b.action) {
        (InputAction::Press, InputAction::Release) => true,
        (InputAction::Release, InputAction::Press) => false,
        _ => {
            let ka = crate::text::str_chars(a.key.as_str());
            let kb = crate::text::str_chars(b.key.as_str());
            crate::artwork::chars_lt(&ka, &kb)
        },
    }
}

proof fn lemma_insert_event_at(s: Seq<EventFacts>, x: EventFacts, p: int)
    requires
        0 <= p <= s.len(),
        forall|q: int| p <= q < s.len() ==> event_lt(x, #[trigger] s[q]),
        p == 0 || !event_lt(x, s[p - 1]),
    ensures
        insert_event(s, x) == s.take(p).push(x) + s.skip(p),
    decreases s.len(),
{
    if s.len() == 0 {
        assert(s.take(p).push(x) + s.skip(p) =~= seq![x]);
    } else if p == s.len() {
        assert(s.take(p) =~= s);
        assert(s.take(p).push(x) + s.skip(p) =~= s.push(x));
    } else {
        let d = s.drop_last();
        assert forall|q: int| p <= q < d.len() implies event_lt(x, #[trigger] d[q]) by {
            assert(d[q] == s[q]);
        }
        if p > 0 {
            assert(d[p - 1] == s[p - 1]);
        }
        lemma_insert_event_at(d, x, p);
        assert(d.take(p) =~= s.take(p));
        assert(d.take(p).push(x) + d.skip(p) + seq![s.last()] =~= s.take(p).push(x) + s.skip(p));
    }
}

fn copy_event(e: &InputEvent) -> (r: InputEvent)
    ensures
        facts_of_event(r) == facts_of_event(*e),
{
    InputEvent::new(e.key.as_str(), e.timestamp.as_millis(), e.action)
}

/// The autoplay events for a chart: every note played exactly on time with the key of
/// its lane, holds pressed at their start and released at their end.
pub fn build_autoplay_events(chart: &Chart, keymap: &Keymap) -> (r: Vec<InputEvent>)
    ensures
        facts_seq(r@) == autoplay_spec(keymap.key_views(), chart.notes@),
{
    let ghost keys = keymap.key_views();
    let mut raw: Vec<InputEvent> = Vec::new();
    let mut i: usize = 0;
    while i < chart.notes.len()
        invariant
            i <= chart.notes@.len(),
            keys == keymap.key_views(),
            facts_seq(raw@) == raw_autoplay_events(keys, chart.notes@, i as int),
        decreases chart.notes.len() - i,
    {
        let note = chart.notes[i];
        let ghost before = facts_seq(raw@);
        match key_for_lane(keymap, note.lane()) {
            None => {},
            Some(key) => {
                match note {
                    Note::Tap(t) => {
                        raw.push(InputEvent::press(key, t.time_ms as i64));
                    },
                    Note::Hold(h) => {
                        raw.push(InputEvent::press(key, h.start_ms as i64));
                        raw.push(InputEvent::release(key, h.end_ms as i64));
                    },
                }
                assert(facts_seq(raw@) =~= before + note_events(keys[note_lane(note) as int], note));
            },
        }
        i = i + 1;
    }
    let ghost all = facts_seq(raw@);
    let mut out: Vec<InputEvent> = Vec::new();
    let mut k: usize = 0;
    while k < raw.len()
        invariant
            k <= raw@.len(),
            all == facts_seq(raw@),
            facts_seq(out@) == sort_events(all.take(k as int)),
        decreases raw.len() - k,
    {
        let mut p: usize = out.len();
        while p > 0 && event_before(&raw[k], &out[p - 1])
            invariant
                p <= out@.len(),
                k < raw@.len(),
                forall|q: int|
                    p <= q < out@.len() ==> event_lt(
                        facts_of_event(raw@[k as int]),
                        facts_of_event(#[trigger] out@[q]),
                    ),
            decreases p,
        {
            p = p - 1;
        }
        proof {
            let s = facts_seq(out@);
            let x = facts_of_event(raw@[k as int]);
            assert forall|q: int| p <= q < s.len() implies event_lt(x, #[trigger] s[q]) by {
                assert(s[q] == facts_of_event(out@[q]));
            }
            if p > 0 {
                assert(s[p - 1] == facts_of_event(out@[p - 1]));
            }
            lemma_insert_event_at(s, x, p as int);
            assert(all.take(k + 1).drop_last() =~= all.take(k as int));
            assert(all.take(k + 1).last() == x);
        }
        let ghost before = facts_seq(out@);
        let e = copy_event(&raw[k]);
        out.insert(p, e);
        assert(facts_seq(out@) =~= before.take(p as int).push(facts_of_event(e)) + before.skip(
            p as int,
        ));
        k = k + 1;
    }
    assert(all.take(raw@.len() as int) =~= all);
    out
}

} // verus!
