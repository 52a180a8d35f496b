use code_m::autoplay::build_autoplay_events;
use code_m::chart::{Chart, ChartMetadata, HoldNote, Note, NoteKind, TapNote};
use code_m::clock::GameTime;
use code_m::clock_sync::demo_time;
use code_m::gameplay::{GameplayState, HitEvent, HitPhase};
use code_m::input::{InputEvent, ReplayInput};
use code_m::judgment::Judgment;
use code_m::keymap::Keymap;
use code_m::kitty::{cover_format, cover_png, encode_decoded, CoverFormat};
use code_m::navigation::DemoMode;
use code_m::replay::run_replay;
use code_m::scheduler::ChartScheduler;
use code_m::session::{
    LiveSession, COMBO_FEEDBACK_WINDOW_MS, JUDGMENT_FEEDBACK_WINDOW_MS, LANE_FEEDBACK_WINDOW_MS,
};

fn tap(lane: u8, time_ms: u32) -> Note {
    Note::Tap(TapNote { kind: NoteKind::Tap, time_ms, lane })
}

fn hold(lane: u8, start_ms: u32, end_ms: u32) -> Note {
    Note::Hold(HoldNote { kind: NoteKind::Hold, start_ms, end_ms, lane })
}

fn chart(notes: Vec<Note>) -> Chart {
    Chart {
        metadata: ChartMetadata {
            title: "Session".to_string(),
            artist: "Seythm".to_string(),
            chart_name: "Normal".to_string(),
            offset_ms: 0,
        },
        notes,
    }
}

fn session(notes: Vec<Note>) -> LiveSession {
    LiveSession::new(GameplayState::new(chart(notes)))
}

fn t(ms: i64) -> GameTime {
    GameTime::from_millis(ms)
}

#[test]
fn a_new_session_shows_nothing() {
    let s = session(vec![tap(0, 1000)]);
    assert_eq!(s.current_time, t(0));
    assert_eq!(s.active_lanes, vec![false; 6]);
    assert_eq!(s.lane_feedback_until, vec![None; 6]);
    assert_eq!(s.latest_judgment, None);
    assert_eq!(s.hit_sound_requests, 0);
}

#[test]
fn a_hit_lights_its_lane_the_judgment_and_the_combo() {
    let mut s = session(vec![tap(2, 1000)]);
    assert!(s.press(2, t(1010)));
    assert_eq!(s.latest_judgment, Some(Judgment::Perfect));
    assert_eq!(s.hit_sound_requests, 1);
    assert_eq!(s.lane_feedback_until[2], Some(1010 + LANE_FEEDBACK_WINDOW_MS));
    assert_eq!(s.judgment_feedback_until, Some(1010 + JUDGMENT_FEEDBACK_WINDOW_MS));
    assert_eq!(s.combo_feedback_until, Some(1010 + COMBO_FEEDBACK_WINDOW_MS));
    assert!(!s.active_lanes[2]);
    assert_eq!(s.gameplay.totals().score, 1000);
    assert_eq!(s.remaining_ms(s.lane_feedback_until[2]), LANE_FEEDBACK_WINDOW_MS);
}

#[test]
fn a_press_that_judges_nothing_leaves_the_lane_up() {
    let mut s = session(vec![tap(1, 5000)]);
    assert!(!s.press(1, t(100)));
    assert!(!s.active_lanes[1]);
    assert_eq!(s.latest_judgment, None);
    assert_eq!(s.hit_sound_requests, 0);
    assert_eq!(s.current_time, t(100));
}

#[test]
fn a_hold_keeps_its_lane_down_until_released() {
    let mut s = session(vec![hold(3, 1000, 1500)]);
    assert!(s.press(3, t(1000)));
    assert!(s.active_lanes[3]);
    assert!(s.release(3, t(1500)));
    assert!(!s.active_lanes[3]);
    assert_eq!(s.gameplay.totals().score, 2000);
    assert_eq!(s.hit_sound_requests, 2);
}

#[test]
fn a_press_on_a_held_hold_is_taken_as_its_release() {
    let mut s = session(vec![hold(0, 1000, 1200)]);
    assert!(s.press(0, t(1000)));
    assert!(s.press(0, t(1200)));
    assert_eq!(s.gameplay.totals().judgments.perfect, 2);
    assert!(s.gameplay.all_notes_resolved());
}

#[test]
fn misses_light_nothing_but_are_the_latest_judgment() {
    let mut s = session(vec![tap(4, 1000)]);
    s.advance_to(t(2000));
    assert_eq!(s.latest_judgment, Some(Judgment::Miss));
    assert_eq!(s.hit_sound_requests, 0);
    assert_eq!(s.judgment_feedback_until, None);
    assert_eq!(s.current_time, t(2000));
    assert_eq!(s.gameplay.totals().judgments.miss, 1);
}

#[test]
fn flashes_fade_with_time() {
    let mut s = session(vec![tap(0, 1000), tap(0, 9000)]);
    s.press(0, t(1000));
    s.advance_to(t(1100));
    assert_eq!(s.remaining_ms(s.lane_feedback_until[0]), LANE_FEEDBACK_WINDOW_MS - 100);
    s.advance_to(t(5000));
    assert_eq!(s.remaining_ms(s.combo_feedback_until), 0);
    assert_eq!(s.remaining_ms(None), 0);
}

#[test]
fn autoplay_events_are_played_up_to_the_target_time() {
    let c = chart(vec![tap(0, 1000), hold(1, 2000, 2600), tap(5, 4000)]);
    let keymap = Keymap::parse("S D F J K L").unwrap();
    let events = build_autoplay_events(&c, &keymap);
    let mut s = LiveSession::new(GameplayState::new(c));
    let mut recorded: Vec<InputEvent> = Vec::new();
    let next = s.play_events_until(&keymap, &events, 0, t(2100), &mut recorded);
    assert_eq!(next, 2);
    assert_eq!(recorded.len(), 2);
    assert_eq!(s.current_time, t(2100));
    assert!(s.active_lanes[1]);
    let next = s.play_events_until(&keymap, &events, next, t(5000), &mut recorded);
    assert_eq!(next, events.len());
    assert_eq!(recorded.len(), 4);
    assert_eq!(s.gameplay.totals().judgments.perfect, 4);
    assert!(s.gameplay.all_notes_resolved());
}

#[test]
fn events_of_keys_without_a_lane_are_not_recorded() {
    let c = chart(vec![tap(0, 1000)]);
    let keymap = Keymap::parse("S D F J K L").unwrap();
    let events = vec![InputEvent::press("Q", 500), InputEvent::press("S", 1000)];
    let mut s = LiveSession::new(GameplayState::new(c));
    let mut recorded = Vec::new();
    let next = s.play_events_until(&keymap, &events, 0, t(1000), &mut recorded);
    assert_eq!(next, 2);
    assert_eq!(recorded.len(), 1);
    assert_eq!(recorded[0].key, "S");
}

#[test]
fn a_live_play_and_its_replay_score_the_same() {
    let notes = vec![tap(0, 1000), tap(2, 1500), hold(4, 2000, 2400)];
    let keymap = Keymap::parse("S D F J K L").unwrap();
    let events = vec![
        InputEvent::press("S", 1020),
        InputEvent::press("F", 1560),
        InputEvent::press("K", 1990),
        InputEvent::release("K", 2450),
    ];
    let mut s = LiveSession::new(GameplayState::new(chart(notes.clone())));
    let mut recorded = Vec::new();
    s.play_events_until(&keymap, &events, 0, t(10_000), &mut recorded);
    let replay = run_replay(chart(notes), ReplayInput::new(keymap, recorded));
    assert_eq!(replay.totals, s.gameplay.totals());
}

#[test]
fn the_play_is_finished_once_every_note_is_judged_and_off_screen() {
    let c = chart(vec![tap(0, 1000)]);
    let scheduler = ChartScheduler::new(c.clone(), 2000);
    let mut s = LiveSession::new(GameplayState::new(c));
    assert!(!s.finished(&scheduler));
    s.press(0, t(1000));
    assert!(!s.finished(&scheduler));
    s.advance_to(t(1001));
    assert!(s.finished(&scheduler));
}

#[test]
fn hit_events_show_on_the_session() {
    let mut s = session(vec![tap(0, 1000)]);
    s.current_time = t(500);
    s.apply_hit_event(HitEvent { lane: 5, phase: HitPhase::Tap, judgment: Judgment::Good });
    assert_eq!(s.lane_feedback_until[5], Some(500 + LANE_FEEDBACK_WINDOW_MS));
    s.apply_hit_event(HitEvent { lane: 9, phase: HitPhase::Tap, judgment: Judgment::Great });
    assert_eq!(s.hit_sound_requests, 2);
    assert_eq!(s.latest_judgment, Some(Judgment::Great));
}

#[test]
fn the_clock_stands_still_outside_play_and_is_offset_during_it() {
    assert_eq!(demo_time(DemoMode::SongSelect, t(40), t(900), 20), t(40));
    assert_eq!(demo_time(DemoMode::Loading, t(40), t(900), 20), t(900));
    assert_eq!(demo_time(DemoMode::Playing, t(40), t(900), 20), t(920));
    assert_eq!(demo_time(DemoMode::Calibration, t(40), t(900), -30), t(870));
    assert_eq!(demo_time(DemoMode::Results, t(40), t(900), -30), t(40));
}

#[test]
fn png_covers_are_sent_as_they_are() {
    let bytes = vec![1u8, 2, 3];
    assert_eq!(cover_png("cover.PNG", bytes.clone()), Ok(bytes));
}

#[test]
fn other_covers_are_encoded_as_png() {
    let mut jpeg = Vec::new();
    let pixels = vec![200u8, 10, 10, 20, 200, 20, 10, 10, 200, 250, 250, 250];
    image::codecs::jpeg::JpegEncoder::new(&mut jpeg)
        .encode(&pixels, 2, 2, image::ExtendedColorType::Rgb8)
        .unwrap();
    let png = cover_png("cover.jpg", jpeg.clone()).unwrap();
    assert_ne!(png, jpeg);
    assert_eq!(&png[..8], &[0x89, b'P', b'N', b'G', 0x0d, 0x0a, 0x1a, 0x0a]);
    assert!(cover_png("broken.jpg", vec![0u8, 1, 2]).is_err());
}

#[test]
fn covers_are_decoded_by_their_extension() {
    let mut jpeg = Vec::new();
    let pixels = vec![200u8, 10, 10, 20, 200, 20, 10, 10, 200, 250, 250, 250];
    image::codecs::jpeg::JpegEncoder::new(&mut jpeg)
        .encode(&pixels, 2, 2, image::ExtendedColorType::Rgb8)
        .unwrap();
    assert!(cover_png("cover.JPEG", jpeg.clone()).is_ok());
    assert!(cover_png("cover.webp", jpeg.clone()).is_err());
    assert_eq!(cover_png("cover.gif", jpeg.clone()), Err("unsupported image format".to_string()));
    assert!(cover_png("cover", jpeg).is_err());
    assert_eq!(cover_format("a.Jfif"), Some(CoverFormat::Jpeg));
    assert_eq!(cover_format("a.apng"), Some(CoverFormat::Png));
    assert_eq!(cover_format("a.WEBP"), Some(CoverFormat::WebP));
    assert_eq!(cover_format("a.bmp"), None);
}

#[test]
fn decoded_pictures_are_encoded_as_png() {
    let png = encode_decoded(1, 1, vec![1u8, 2, 3, 255]).unwrap();
    assert_eq!(&png[..8], &[0x89, b'P', b'N', b'G', 0x0d, 0x0a, 0x1a, 0x0a]);
    let back = image::load_from_memory(&png).unwrap().to_rgba8().into_raw();
    assert_eq!(back, vec![1u8, 2, 3, 255]);
    assert_eq!(
        encode_decoded(2, 1, vec![1u8, 2, 3, 255]),
        Err("decoded picture has the wrong number of samples".to_string())
    );
}
