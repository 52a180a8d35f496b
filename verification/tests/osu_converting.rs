use code_m::chart::{ChartMetadata, HoldNote, Note, NoteKind, TapNote};
use code_m::osu::import::{
    convert_hit_object, convert_metadata, convert_osu_mania_chart, derive_import_id,
    should_skip_import_error, should_skip_parse_error, slugify, slugify_lowered, validate_lane,
    OsuImportError,
};
use code_m::osu::model::{OsuBeatmap, OsuHitObject, OsuMetadata, OsuMode, OsuTimingPoint};
use code_m::osu::parser::OsuParseError;

fn timing(time_ms: i32, uninherited: bool) -> OsuTimingPoint {
    OsuTimingPoint {
        time_ms,
        beat_length: "500".to_string(),
        meter: 4,
        uninherited,
        kiai: false,
    }
}

fn beatmap(key_count: u8, hit_objects: Vec<OsuHitObject>) -> OsuBeatmap {
    OsuBeatmap {
        mode: OsuMode::Mania,
        key_count,
        audio_filename: "audio.mp3".to_string(),
        metadata: OsuMetadata {
            title: Some("Song".to_string()),
            title_unicode: None,
            artist: Some("Artist".to_string()),
            artist_unicode: Some("Artiste".to_string()),
            creator: None,
            version: Some("Hard".to_string()),
        },
        timing_points: vec![timing(0, true), timing(100, false)],
        hit_objects,
    }
}

fn tap(lane: u8, time_ms: u32) -> Note {
    Note::Tap(TapNote { kind: NoteKind::Tap, time_ms, lane })
}

#[test]
fn converts_and_sorts_notes_by_time_then_lane() {
    let map = beatmap(
        6,
        vec![
            OsuHitObject::Tap { lane: 3, time_ms: 500 },
            OsuHitObject::Hold { lane: 1, start_time_ms: 200, end_time_ms: 900 },
            OsuHitObject::Tap { lane: 0, time_ms: 500 },
        ],
    );
    let chart = convert_osu_mania_chart(&map, &vec![true, true]).expect("chart should convert");
    assert_eq!(
        chart.notes,
        vec![
            Note::Hold(HoldNote { kind: NoteKind::Hold, start_ms: 200, end_ms: 900, lane: 1 }),
            tap(0, 500),
            tap(3, 500),
        ]
    );
    assert_eq!(chart.metadata.title, "Song");
    assert_eq!(chart.metadata.artist, "Artiste");
    assert_eq!(chart.metadata.chart_name, "Hard");
    assert_eq!(chart.metadata.offset_ms, 0);
}

#[test]
fn only_six_key_beatmaps_convert() {
    let map = beatmap(4, vec![]);
    assert_eq!(
        convert_osu_mania_chart(&map, &vec![true, true]).unwrap_err(),
        OsuImportError::UnsupportedKeyCount { key_count: 4 }
    );
}

#[test]
fn negative_timing_points_are_rejected_before_tempo_is_checked() {
    let mut map = beatmap(6, vec![]);
    map.timing_points.push(timing(-20, true));
    assert_eq!(
        convert_osu_mania_chart(&map, &vec![false, false, false]).unwrap_err(),
        OsuImportError::NegativeTimingPointStart { start_time_ms: -20 }
    );
}

#[test]
fn a_tempo_is_needed() {
    let map = beatmap(6, vec![OsuHitObject::Tap { lane: 0, time_ms: 1 }]);
    assert_eq!(
        convert_osu_mania_chart(&map, &vec![false, true]).unwrap_err(),
        OsuImportError::NoUsableTimingPoints
    );
    assert!(convert_osu_mania_chart(&map, &vec![true, false]).is_ok());
}

#[test]
fn the_first_bad_hit_object_decides_the_error() {
    let map = beatmap(
        6,
        vec![
            OsuHitObject::Tap { lane: 0, time_ms: 1 },
            OsuHitObject::Tap { lane: 0, time_ms: -3 },
            OsuHitObject::Tap { lane: 7, time_ms: 4 },
        ],
    );
    assert_eq!(
        convert_osu_mania_chart(&map, &vec![true, true]).unwrap_err(),
        OsuImportError::NegativeNoteTime { lane: 0, time_ms: -3 }
    );
}

#[test]
fn hit_objects_are_checked_lane_first() {
    assert_eq!(validate_lane(5), Ok(5));
    assert_eq!(validate_lane(6), Err(OsuImportError::UnsupportedLane { lane: 6 }));
    assert_eq!(
        convert_hit_object(&OsuHitObject::Hold { lane: 9, start_time_ms: -1, end_time_ms: -2 }),
        Err(OsuImportError::UnsupportedLane { lane: 9 })
    );
    assert_eq!(
        convert_hit_object(&OsuHitObject::Hold { lane: 2, start_time_ms: -1, end_time_ms: 5 }),
        Err(OsuImportError::NegativeHoldTime { lane: 2, start_time_ms: -1, end_time_ms: 5 })
    );
    assert_eq!(
        convert_hit_object(&OsuHitObject::Hold { lane: 2, start_time_ms: 5, end_time_ms: 5 }),
        Err(OsuImportError::InvalidHoldDuration { start_time_ms: 5, end_time_ms: 5 })
    );
    assert_eq!(
        convert_hit_object(&OsuHitObject::Tap { lane: 2, time_ms: 7 }),
        Ok(tap(2, 7))
    );
}

#[test]
fn metadata_prefers_unicode_fields() {
    let meta = OsuMetadata {
        title: Some("Plain".to_string()),
        title_unicode: Some("Fancy".to_string()),
        artist: None,
        artist_unicode: None,
        creator: None,
        version: None,
    };
    let converted = convert_metadata(&meta);
    assert_eq!(converted.title, "Fancy");
    assert_eq!(converted.artist, "");
    assert_eq!(converted.chart_name, "");
}

#[test]
fn parse_errors_of_format_and_mode_skip_the_file() {
    assert!(should_skip_parse_error(&OsuParseError::InvalidFormat("x".to_string())));
    assert!(should_skip_parse_error(&OsuParseError::UnsupportedMode { mode: 1 }));
    assert!(!should_skip_parse_error(&OsuParseError::Io {
        path: "p".to_string(),
        message: "m".to_string()
    }));
}

#[test]
fn storage_errors_do_not_skip() {
    assert!(should_skip_import_error(&OsuImportError::NoUsableTimingPoints));
    assert!(should_skip_import_error(&OsuImportError::MissingAudioFile { path: "a".to_string() }));
    assert!(should_skip_import_error(&OsuImportError::InvalidAudioFilename {
        audio_filename: "a".to_string()
    }));
    assert!(!should_skip_import_error(&OsuImportError::StorageError {
        path: "a".to_string(),
        message: "b".to_string()
    }));
    assert!(!should_skip_import_error(&OsuImportError::NoUsableBeatmaps { folder: "f".to_string() }));
}

#[test]
fn import_error_messages_read_like_sentences() {
    assert_eq!(
        OsuImportError::UnsupportedKeyCount { key_count: 4 }.message(),
        "unsupported key count 4; expected 6"
    );
    assert_eq!(
        OsuImportError::NegativeHoldTime { lane: 1, start_time_ms: -5, end_time_ms: 10 }.message(),
        "negative hold time start -5 or end 10 for lane 1 is not supported"
    );
    assert_eq!(
        OsuImportError::InvalidHoldDuration { start_time_ms: 9, end_time_ms: 3 }.message(),
        "invalid hold note duration: end 3 must be greater than start 9"
    );
    assert_eq!(
        OsuImportError::StorageError { path: "p".to_string(), message: "m".to_string() }.message(),
        "storage failure at p: m"
    );
    assert_eq!(
        OsuImportError::NoUsableBeatmaps { folder: "f".to_string() }.message(),
        "no usable osu!mania 6K beatmaps found in beatmap folder f"
    );
}

#[test]
fn slugs_keep_letters_and_digits_and_single_dashes() {
    assert_eq!(slugify("Hello, World!"), "hello-world");
    assert_eq!(slugify("--A  B--"), "a-b");
    assert_eq!(slugify("ÄÖ x"), "x");
    assert_eq!(slugify(""), "");
    assert_eq!(slugify_lowered(&"a--b".chars().collect()), "a-b");
}

#[test]
fn import_ids_combine_artist_title_chart_keys_and_audio() {
    let meta = ChartMetadata {
        title: "Song".to_string(),
        artist: "The Artist".to_string(),
        chart_name: "6K Hard".to_string(),
        offset_ms: 0,
    };
    assert_eq!(
        derive_import_id(&meta, 6, "audio.mp3"),
        "the-artist-song-6k-hard-6k-audio-mp3"
    );
}
