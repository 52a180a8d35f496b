use code_m::autoplay::build_autoplay_events;
use code_m::chart::{
    convert_chart_notes, sort_notes_stable, Chart, ChartMetadata, ChartNoteError, HoldNote, Note,
    NoteKind, RawNote, TapNote,
};
use code_m::clock::GameTime;
use code_m::gameplay::{GameplayState, HitEvent, HitPhase};
use code_m::input::{key_for_lane, lane_for_key, InputAction, InputEvent, ReplayInput};
use code_m::judgment::{Judgment, JudgmentWindows};
use code_m::keymap::{Keymap, KeymapParseError};
use code_m::replay::{run_replay, ReplayEvent};
use code_m::scheduler::{ChartScheduler, LaneProjection};
use code_m::scoring::ScoreTotals;

fn tap(lane: u8, time_ms: u32) -> Note {
    Note::Tap(TapNote { kind: NoteKind::Tap, time_ms, lane })
}

fn hold(lane: u8, start_ms: u32, end_ms: u32) -> Note {
    Note::Hold(HoldNote { kind: NoteKind::Hold, start_ms, end_ms, lane })
}

fn chart(notes: Vec<Note>) -> Chart {
    Chart {
        metadata: ChartMetadata {
            title: "Demo Hold".to_string(),
            artist: "Seythm".to_string(),
            chart_name: "Normal".to_string(),
            offset_ms: 0,
        },
        notes,
    }
}

#[test]
fn judgment_windows_are_symmetric() {
    let w = JudgmentWindows::standard();
    assert_eq!(w.classify_offset(0), Judgment::Perfect);
    assert_eq!(w.classify_offset(-30), Judgment::Perfect);
    assert_eq!(w.classify_offset(31), Judgment::Great);
    assert_eq!(w.classify_offset(-60), Judgment::Great);
    assert_eq!(w.classify_offset(90), Judgment::Good);
    assert_eq!(w.classify_offset(-91), Judgment::Miss);
    assert_eq!(Judgment::Great.points(), 800);
    assert!(!Judgment::Miss.is_hit());
}

#[test]
fn score_totals_count_each_judgment_once() {
    let mut t = ScoreTotals::new(3000);
    t.apply(Judgment::Perfect);
    t.apply(Judgment::Great);
    t.apply(Judgment::Miss);
    t.apply(Judgment::Good);
    assert_eq!(t.score, 2300);
    assert_eq!(t.combo, 1);
    assert_eq!(t.max_combo, 2);
    assert_eq!(t.judgments.perfect + t.judgments.great + t.judgments.good + t.judgments.miss, 4);
    assert_eq!(t.possible_points, 3000);
}

#[test]
fn notes_sort_by_time_then_lane_keeping_ties_in_order() {
    let sorted = sort_notes_stable(vec![tap(3, 500), hold(1, 100, 900), tap(0, 500), tap(3, 500)]);
    assert_eq!(sorted, vec![hold(1, 100, 900), tap(0, 500), tap(3, 500), tap(3, 500)]);
}

#[test]
fn chart_notes_are_validated_in_file_order() {
    assert_eq!(
        convert_chart_notes(vec![
            RawNote::Tap { time_ms: 5, lane: 1 },
            RawNote::Hold { start_ms: 9, end_ms: 9, lane: 7 },
            RawNote::Tap { time_ms: 1, lane: 8 },
        ]),
        Err(ChartNoteError::InvalidHold(
            "hold note end_ms must be greater than start_ms".to_string()
        ))
    );
    assert_eq!(
        convert_chart_notes(vec![RawNote::Tap { time_ms: 1, lane: 8 }]),
        Err(ChartNoteError::InvalidLane { lane: 8, max_lane: 5 })
    );
    assert_eq!(
        convert_chart_notes(vec![
            RawNote::Tap { time_ms: 5, lane: 1 },
            RawNote::Tap { time_ms: 2, lane: 0 },
        ]),
        Ok(vec![tap(0, 2), tap(1, 5)])
    );
}

#[test]
fn pressing_on_time_is_perfect_and_late_presses_miss() {
    let mut g = GameplayState::new(chart(vec![tap(0, 1000), tap(1, 2000)]));
    let hit = g.press_lane(0, GameTime::from_millis(1010));
    assert_eq!(
        hit,
        Some(HitEvent { lane: 0, phase: HitPhase::Tap, judgment: Judgment::Perfect })
    );
    let misses = g.advance_to(GameTime::from_millis(2100));
    assert_eq!(
        misses,
        vec![HitEvent { lane: 1, phase: HitPhase::Tap, judgment: Judgment::Miss }]
    );
    assert!(g.all_notes_resolved());
    let t = g.totals();
    assert_eq!(t.score, 1000);
    assert_eq!(t.possible_points, 2000);
    assert_eq!(t.judgments.miss, 1);
}

#[test]
fn presses_far_before_a_note_are_ignored() {
    let mut g = GameplayState::new(chart(vec![tap(0, 1000)]));
    assert_eq!(g.press_lane(0, GameTime::from_millis(100)), None);
    assert!(!g.all_notes_resolved());
}

#[test]
fn an_early_press_leaves_the_note_to_a_later_hit() {
    let mut g = GameplayState::new(chart(vec![tap(0, 1000), tap(1, 1000)]));
    let before = g.totals();
    assert_eq!(g.press_lane(0, GameTime::from_millis(909)), None);
    assert_eq!(g.totals(), before);
    let hit = g.press_lane(0, GameTime::from_millis(1020)).unwrap();
    assert_eq!(hit.judgment, Judgment::Perfect);
    assert_eq!(g.totals().judgments.miss, 0);
}

#[test]
fn holds_are_judged_at_start_and_release() {
    let mut g = GameplayState::new(chart(vec![hold(2, 1000, 2000)]));
    assert_eq!(
        g.press_lane(2, GameTime::from_millis(1040)),
        Some(HitEvent { lane: 2, phase: HitPhase::HoldStart, judgment: Judgment::Great })
    );
    assert_eq!(
        g.release_lane(2, GameTime::from_millis(1995)),
        Some(HitEvent { lane: 2, phase: HitPhase::HoldRelease, judgment: Judgment::Perfect })
    );
    assert!(g.all_notes_resolved());
    assert_eq!(g.totals().score, 1800);
    assert_eq!(g.totals().possible_points, 2000);
}

#[test]
fn an_unreleased_hold_misses_its_end() {
    let mut g = GameplayState::new(chart(vec![hold(2, 1000, 2000)]));
    g.press_lane(2, GameTime::from_millis(1000));
    assert_eq!(
        g.advance_to(GameTime::from_millis(2091)),
        vec![HitEvent { lane: 2, phase: HitPhase::HoldRelease, judgment: Judgment::Miss }]
    );
}

#[test]
fn keymaps_need_six_keys() {
    let k = Keymap::parse("a s d j k l").expect("six keys");
    assert_eq!(k.as_string(), "a s d j k l");
    assert_eq!(lane_for_key(&k, "j"), Some(3));
    assert_eq!(lane_for_key(&k, "x"), None);
    assert_eq!(key_for_lane(&k, 5), Some("l"));
    assert_eq!(key_for_lane(&k, 6), None);
    let err = Keymap::parse("a s d").unwrap_err();
    assert_eq!(err, KeymapParseError::InvalidKeyCount { expected: 6, found: 3 });
    assert_eq!(err.message(), "keymap must contain exactly 6 keys, got 3");
    assert_eq!(Keymap::default().as_string(), "S D F J K L");
}

#[test]
fn replay_plays_events_in_time_order() {
    let notes = chart(vec![tap(0, 1000), tap(1, 1000), hold(2, 2000, 3000)]);
    let events = vec![
        InputEvent::press("D", 1005),
        InputEvent::press("S", 1000),
        InputEvent::press("F", 2050),
        InputEvent::release("F", 3000),
        InputEvent::press("Q", 1500),
    ];
    let result = run_replay(notes, ReplayInput::new(Keymap::default(), events));
    assert_eq!(
        result.events,
        vec![
            ReplayEvent { lane: 0, phase: HitPhase::Tap, judgment: Judgment::Perfect },
            ReplayEvent { lane: 1, phase: HitPhase::Tap, judgment: Judgment::Perfect },
            ReplayEvent { lane: 2, phase: HitPhase::HoldStart, judgment: Judgment::Great },
            ReplayEvent { lane: 2, phase: HitPhase::HoldRelease, judgment: Judgment::Perfect },
        ]
    );
    assert_eq!(result.totals.score, 3800);
    assert_eq!(result.totals.max_combo, 4);
}

#[test]
fn replay_misses_whatever_was_never_played() {
    let result = run_replay(
        chart(vec![tap(0, 1000), hold(1, 1000, 2000)]),
        ReplayInput::new(Keymap::default(), vec![]),
    );
    assert_eq!(
        result.events,
        vec![
            ReplayEvent { lane: 0, phase: HitPhase::Tap, judgment: Judgment::Miss },
            ReplayEvent { lane: 1, phase: HitPhase::HoldStart, judgment: Judgment::Miss },
        ]
    );
    assert_eq!(result.totals.judgments.miss, 2);
    assert_eq!(result.totals.score, 0);
}

#[test]
fn autoplay_presses_every_note_on_time() {
    let c = chart(vec![hold(1, 100, 300), tap(0, 300), tap(5, 100)]);
    let events = build_autoplay_events(&c, &Keymap::default());
    let summary: Vec<(String, i64, InputAction)> = events
        .iter()
        .map(|e| (e.key.clone(), e.timestamp.as_millis(), e.action))
        .collect();
    assert_eq!(
        summary,
        vec![
            ("D".to_string(), 100, InputAction::Press),
            ("L".to_string(), 100, InputAction::Press),
            ("S".to_string(), 300, InputAction::Press),
            ("D".to_string(), 300, InputAction::Release),
        ]
    );
    let result = run_replay(c, ReplayInput::new(Keymap::default(), events));
    assert!(result.events.iter().all(|e| e.judgment == Judgment::Perfect));
    assert_eq!(result.events.len(), 4);
}

#[test]
fn scheduler_shows_notes_within_the_approach_window() {
    let s = ChartScheduler::new(chart(vec![tap(2, 1000), hold(1, 500, 1500), tap(0, 3000)]), 800);
    let visible = s.visible_notes(GameTime::from_millis(600));
    assert_eq!(
        visible,
        vec![
            LaneProjection {
                lane: 1,
                kind: NoteKind::Hold,
                timestamp_ms: 500,
                end_timestamp_ms: Some(1500),
                is_active: true,
            },
            LaneProjection {
                lane: 2,
                kind: NoteKind::Tap,
                timestamp_ms: 1000,
                end_timestamp_ms: None,
                is_active: false,
            },
        ]
    );
    let early = s.visible_notes(GameTime::from_millis(100));
    assert_eq!(early.len(), 1);
    assert!(!early[0].is_active);
    assert!(s.visible_notes(GameTime::from_millis(4000)).is_empty());
}

#[test]
fn game_time_converts_from_integers() {
    assert_eq!(GameTime::from(7i64).as_millis(), 7);
    assert_eq!(GameTime::from(9u32).as_millis(), 9);
}

#[test]
fn game_times_are_ordered_by_their_milliseconds() {
    let a = GameTime::from_millis(-5);
    let b = GameTime::from_millis(12);
    assert!(a < b);
    assert!(a <= b);
    assert!(!(b <= a));
    assert!(b > a);
    assert_eq!(a.partial_cmp(&a), Some(std::cmp::Ordering::Equal));
    assert_eq!(a.cmp(&b), std::cmp::Ordering::Less);
}

#[test]
fn the_key_of_each_lane_plays_that_lane() {
    let keymap = Keymap::parse("S D F J K L").unwrap();
    for lane in 0..6u8 {
        let key = key_for_lane(&keymap, lane).unwrap();
        assert_eq!(lane_for_key(&keymap, key), Some(lane));
    }
    let doubled = Keymap::parse("S S D F J K").unwrap();
    assert_eq!(lane_for_key(&doubled, key_for_lane(&doubled, 1).unwrap()), Some(0));
}
