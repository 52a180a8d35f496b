use code_m::chart::{Chart, ChartMetadata, HoldNote, Note, NoteKind, TapNote};
use code_m::clock::GameTime;
use code_m::flow::GameFlow;
use code_m::input::InputAction;
use code_m::judgment::Judgment;
use code_m::keymap::Keymap;
use code_m::navigation::DemoMode;

fn tap(lane: u8, time_ms: u32) -> Note {
    Note::Tap(TapNote { kind: NoteKind::Tap, time_ms, lane })
}

fn chart(notes: Vec<Note>) -> Chart {
    Chart {
        metadata: ChartMetadata {
            title: "Chord Test".to_string(),
            artist: "Code M".to_string(),
            chart_name: "Debug".to_string(),
            offset_ms: 0,
        },
        notes,
    }
}

fn t(ms: i64) -> GameTime {
    GameTime::from_millis(ms)
}

fn keymap() -> Keymap {
    Keymap::parse("S D F J K L").unwrap()
}

fn started(notes: Vec<Note>, autoplay: bool) -> GameFlow {
    let c = chart(notes);
    let mut flow = GameFlow::new(c.clone(), autoplay);
    flow.navigation.start_chart();
    flow.reset_chart(c, &keymap());
    flow
}

#[test]
fn processes_multiple_press_events_in_the_same_tick() {
    let mut flow = started(vec![tap(0, 1000), tap(3, 1000)], false);
    flow.skip_intro();
    flow.play_tick(t(1000), &keymap());

    flow.key_input('s', t(1000), InputAction::Press, &keymap(), 0);
    flow.key_input('j', t(1000), InputAction::Press, &keymap(), 0);

    let totals = flow.session.gameplay.totals();
    assert_eq!(totals.combo, 2);
    assert_eq!(totals.judgments.perfect, 2);
    assert_eq!(flow.navigation.mode, DemoMode::Playing);
    assert_eq!(flow.session.latest_judgment, Some(Judgment::Perfect));
}

#[test]
fn a_started_chart_shows_its_loading_screen_then_plays() {
    let mut flow = started(vec![tap(0, 3000)], false);
    assert_eq!(flow.navigation.mode, DemoMode::Loading);
    assert_eq!(flow.generation, 1);
    flow.intro_tick(t(700));
    assert_eq!(flow.navigation.mode, DemoMode::Loading);
    assert_eq!(flow.current_time, t(700));
    flow.intro_tick(t(2500));
    assert_eq!(flow.navigation.mode, DemoMode::Ready);
    assert_eq!(flow.current_time, t(0));
    flow.intro_tick(t(600));
    assert_eq!(flow.navigation.mode, DemoMode::Playing);
    assert_eq!(flow.current_time, t(0));
    assert_eq!(flow.generation, 2);
}

#[test]
fn autoplay_finishes_the_chart_and_keeps_its_inputs_for_the_replay() {
    let notes = vec![
        tap(0, 1000),
        Note::Hold(HoldNote { kind: NoteKind::Hold, start_ms: 1500, end_ms: 1800, lane: 2 }),
    ];
    let mut flow = started(notes, true);
    assert_eq!(flow.autoplay_events.len(), 3);
    flow.skip_intro();
    assert!(!flow.play_tick(t(1200), &keymap()));
    assert_eq!(flow.autoplay_cursor, 1);
    assert!(flow.play_tick(t(2000), &keymap()));
    assert_eq!(flow.navigation.mode, DemoMode::Results);
    assert_eq!(flow.session.gameplay.totals().judgments.perfect, 3);
    let replay = flow.replay.latest.as_ref().unwrap();
    assert_eq!(replay.events.len(), 3);
    assert_eq!(replay.keymap.as_string(), "S D F J K L");
}

#[test]
fn the_input_offset_moves_presses_but_not_their_record() {
    let mut flow = started(vec![tap(1, 1000), tap(1, 5000)], false);
    flow.skip_intro();
    flow.key_input('d', t(960), InputAction::Press, &keymap(), 40);
    assert_eq!(flow.session.latest_judgment, Some(Judgment::Perfect));
    assert_eq!(flow.current_time, t(1000));
    assert_eq!(flow.run_events.len(), 1);
    assert_eq!(flow.run_events[0].timestamp, t(960));
    assert_eq!(flow.run_events[0].key, "D");
    flow.key_input('q', t(1100), InputAction::Press, &keymap(), 0);
    assert_eq!(flow.run_events.len(), 1);
}

#[test]
fn keys_outside_play_do_nothing() {
    let mut flow = started(vec![tap(0, 1000)], false);
    assert!(!flow.key_input('s', t(1000), InputAction::Press, &keymap(), 0));
    assert_eq!(flow.run_events.len(), 0);
    assert_eq!(flow.session.latest_judgment, None);
}

#[test]
fn pausing_lifts_every_lane_and_resuming_keeps_the_play() {
    let notes = vec![Note::Hold(HoldNote { kind: NoteKind::Hold, start_ms: 1000, end_ms: 2000, lane: 4 })];
    let mut flow = started(notes, false);
    flow.skip_intro();
    flow.key_input('k', t(1000), InputAction::Press, &keymap(), 0);
    assert!(flow.session.active_lanes[4]);
    flow.toggle_pause();
    assert_eq!(flow.navigation.mode, DemoMode::Paused);
    assert!(!flow.session.active_lanes[4]);
    flow.toggle_pause();
    assert_eq!(flow.navigation.mode, DemoMode::Playing);
}

#[test]
fn returning_to_the_list_forgets_the_play_on_screen() {
    let mut flow = started(vec![tap(0, 1000)], false);
    flow.skip_intro();
    flow.key_input('s', t(1000), InputAction::Press, &keymap(), 0);
    flow.return_to_browse();
    assert_eq!(flow.navigation.mode, DemoMode::SongSelect);
    assert_eq!(flow.session.latest_judgment, None);
    assert_eq!(flow.session.lane_feedback_until, vec![None; 6]);
    assert_eq!(flow.current_time, t(0));
    assert!(flow.replay.latest.is_none());
}

#[test]
fn the_replay_view_replays_the_recorded_inputs() {
    let mut flow = started(vec![tap(0, 1000), tap(5, 1400)], false);
    flow.skip_intro();
    flow.key_input('s', t(1000), InputAction::Press, &keymap(), 0);
    assert!(flow.key_input('l', t(1420), InputAction::Press, &keymap(), 0));
    assert_eq!(flow.navigation.mode, DemoMode::Results);
    assert!(!flow.play_tick(t(1500), &keymap()));

    flow.open_replay_view();
    assert_eq!(flow.navigation.mode, DemoMode::Replay);
    assert_eq!(flow.replay.cursor, Some(0));
    assert!(!flow.replay.playing);

    flow.move_replay_cursor(5);
    assert_eq!(flow.replay.cursor, Some(1));
    flow.move_replay_cursor(-3);
    assert_eq!(flow.replay.cursor, Some(0));

    flow.toggle_replay_preview();
    assert!(flow.replay.playing);
    flow.replay_tick(t(1100));
    assert_eq!(flow.replay.input_cursor, 1);
    assert_eq!(flow.replay.cursor, Some(0));
    flow.replay_tick(t(5000));
    assert_eq!(flow.replay.input_cursor, 2);
    assert_eq!(flow.replay.cursor, Some(1));
    assert!(!flow.replay.playing);
    let preview = flow.replay.session.as_ref().unwrap().gameplay.totals();
    assert_eq!(preview.judgments.perfect, 2);
    assert!(flow.replay_finished());

    flow.close_replay_view();
    assert_eq!(flow.navigation.mode, DemoMode::Results);
    assert!(flow.replay.session.is_none());
    assert!(flow.replay.latest.is_some());
}
