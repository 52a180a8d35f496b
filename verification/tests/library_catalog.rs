use code_m::artwork::{
    discover_artwork, first_image, is_image_file_name, resolve_image_artwork_path, split_file_name,
};
use code_m::browse::{
    browse_order, chart_duration_ms, clamp_selection, find_song_index, search_matches,
    search_result_row, search_results, ChartLibrary, DemoLaunchOptions, SearchResult, SongFacts,
};
use code_m::catalog::{
    ImportedSongCatalog, ImportedSongCatalogEntry, SongCatalog, SongCatalogEntry,
    IMPORTED_ORIGIN_TYPE,
};
use code_m::chart::{HoldNote, Note, NoteKind, TapNote};
use code_m::device::{AudioDeviceConfig, AudioDeviceInfo};
use code_m::kitty::{kitty_clear_command, kitty_commands_for_payload, kitty_transmit_chunk, kitty_transmit_commands, ImageArea};
use code_m::navigation::BrowseSortMode;

fn entry(id: &str, title: &str) -> ImportedSongCatalogEntry {
    ImportedSongCatalogEntry {
        id: id.to_string(),
        title: title.to_string(),
        artist: "Artist".to_string(),
        chart_name: "6K".to_string(),
        difficulty: 6,
        bpm: 120,
        mood: "Imported".to_string(),
        chart_path: format!("/imports/{id}/chart.toml"),
        audio_path: format!("/imports/{id}/audio.mp3"),
        artwork_path: None,
        source_osu_path: format!("/imports/{id}/map.osu"),
        source_folder: "/src".to_string(),
        source_osu_filename: "map.osu".to_string(),
        imported_at_unix_ms: 1,
        origin_type: IMPORTED_ORIGIN_TYPE.to_string(),
    }
}

fn facts(id: &str, title: &str, artist: &str, bpm: u16, difficulty: u8) -> SongFacts {
    SongFacts {
        id: id.to_string(),
        title: title.to_string(),
        artist: artist.to_string(),
        chart_name: "Normal".to_string(),
        mood: "calm".to_string(),
        bpm,
        difficulty,
    }
}

#[test]
fn upsert_replaces_by_id_and_appends_new_ids() {
    let mut catalog = ImportedSongCatalog::default();
    catalog.upsert(entry("a", "First"));
    catalog.upsert(entry("b", "Second"));
    catalog.upsert(entry("a", "Renamed"));
    assert_eq!(catalog.songs().len(), 2);
    assert_eq!(catalog.song("a").map(|s| s.title.as_str()), Some("Renamed"));
    assert_eq!(catalog.songs()[1].title, "Second");
    assert!(catalog.song("zzz").is_none());
    assert_eq!(catalog.songs()[0].chart_path(), "/imports/a/chart.toml");
    assert_eq!(catalog.songs()[0].artwork_path(), None);
}

#[test]
fn bundled_entries_expose_their_fields() {
    let e = SongCatalogEntry::new(
        "demo".to_string(),
        "Demo Hold".to_string(),
        "Seythm".to_string(),
        "Normal".to_string(),
        3,
        128,
        "warm".to_string(),
        "assets/demo.toml".to_string(),
        None,
        Some("assets/cover.png".to_string()),
    );
    assert_eq!(e.id(), "demo");
    assert_eq!(e.bpm(), 128);
    assert_eq!(e.mood(), "warm");
    assert_eq!(e.chart_path(), "assets/demo.toml");
    assert_eq!(e.audio_path(), None);
    assert_eq!(e.artwork_path(), Some("assets/cover.png"));
    let catalog = SongCatalog::new(vec![e]);
    assert_eq!(catalog.songs().len(), 1);
}

#[test]
fn device_descriptions_keep_their_values() {
    let info = AudioDeviceInfo::new("speakers", 44_100, 2);
    assert_eq!(info.name(), "speakers");
    assert_eq!(info.sample_rate_hz(), 44_100);
    assert_eq!(info.output_channels(), 2);
    let config = AudioDeviceConfig::default();
    assert_eq!(config.sample_rate_hz(), 48_000);
    assert_eq!(config.output_channels(), 2);
}

#[test]
fn file_names_split_like_paths_do() {
    let split = |s: &str| {
        let (stem, ext) = split_file_name(&s.chars().collect());
        (stem.into_iter().collect::<String>(), ext.map(|e| e.into_iter().collect::<String>()))
    };
    assert_eq!(split("cover.png"), ("cover".to_string(), Some("png".to_string())));
    assert_eq!(split("a.b.jpg"), ("a.b".to_string(), Some("jpg".to_string())));
    assert_eq!(split(".hidden"), (".hidden".to_string(), None));
    assert_eq!(split("noext"), ("noext".to_string(), None));
    assert_eq!(split("trail."), ("trail".to_string(), Some(String::new())));
    for name in ["cover.png", "a.b.jpg", ".hidden", "noext", "trail.", "x..y"] {
        let p = std::path::Path::new(name);
        let (stem, ext) = split_file_name(&name.chars().collect());
        assert_eq!(Some(stem.into_iter().collect::<String>()), p.file_stem().map(|s| s.to_string_lossy().into_owned()), "{name}");
        assert_eq!(ext.map(|e| e.into_iter().collect::<String>()), p.extension().map(|s| s.to_string_lossy().into_owned()), "{name}");
    }
}

#[test]
fn covers_prefer_images_named_like_the_song_files() {
    let names: Vec<String> = ["map.osu", "zz.png", "bg.JPG", "audio.webp", "notes.txt"]
        .iter()
        .map(|s| s.to_string())
        .collect();
    assert_eq!(discover_artwork(&names, "audio.mp3", "map.osu"), Some(3));
    assert_eq!(discover_artwork(&names, "song.ogg", "other.osu"), Some(3));
    let plain: Vec<String> = vec!["zz.png".to_string(), "bg.JPG".to_string()];
    assert_eq!(discover_artwork(&plain, "song.ogg", "other.osu"), Some(1));
    assert_eq!(discover_artwork(&plain, "zz.ogg", "other.osu"), Some(0));
    let none: Vec<String> = vec!["a.txt".to_string()];
    assert_eq!(discover_artwork(&none, "audio.mp3", "map.osu"), None);
    assert!(is_image_file_name("COVER.JpEg"));
    assert!(!is_image_file_name("cover.gif"));
    assert_eq!(resolve_image_artwork_path("/x/cover.png", "cover.png"), Some("/x/cover.png".to_string()));
    assert_eq!(resolve_image_artwork_path("/x/cover.bmp", "cover.bmp"), None);
}

#[test]
fn kitty_transmit_chunk_uses_quiet_mode_for_fullscreen_apps() {
    let command = kitty_transmit_chunk(ImageArea::new(4, 5, 20, 10), "abcd", 0);

    assert!(command.contains("q=2"));
    assert!(command.contains("c=20"));
    assert!(command.contains("r=10"));
}

#[test]
fn kitty_commands_chunk_the_payload() {
    let area = ImageArea::new(0, 0, 20, 10);
    let payload = "A".repeat(5000);
    let commands = kitty_commands_for_payload(area, &payload);
    assert_eq!(commands.len(), 2);
    assert_eq!(commands[0], format!("\x1b_Ga=T,f=100,i=4242,q=2,c=20,r=10,C=1,m=1;{}\x1b\\", "A".repeat(4096)));
    assert_eq!(commands[1], format!("\x1b_Gm=0;{}\x1b\\", "A".repeat(904)));
    assert!(kitty_commands_for_payload(ImageArea::new(0, 0, 0, 10), &payload).is_empty());
    assert_eq!(kitty_clear_command(), "\x1b_Ga=d,d=I,i=4242\x1b\\");
}

#[test]
fn kitty_transmission_encodes_the_image_in_base64() {
    let commands = kitty_transmit_commands(ImageArea::new(1, 1, 2, 2), b"hello");
    assert_eq!(commands, vec!["\x1b_Ga=T,f=100,i=4242,q=2,c=2,r=2,C=1,m=0;aGVsbG8=\x1b\\".to_string()]);
}

#[test]
fn search_matches_any_field_ignoring_ascii_case() {
    let song = facts("x", "Night Transit", "Seythm", 120, 3);
    let q = |s: &str| s.chars().collect::<Vec<char>>();
    assert!(search_matches(&song, &q("transit")));
    assert!(search_matches(&song, &q("seyt")));
    assert!(search_matches(&song, &q("calm")));
    assert!(search_matches(&song, &q("")));
    assert!(!search_matches(&song, &q("jazz")));
}

#[test]
fn search_lists_bundled_hits_before_imported_hits() {
    let bundled = vec![facts("a", "Alpha", "X", 1, 1), facts("b", "Beta", "Y", 1, 1)];
    let imported = vec![facts("c", "Alphabet", "Z", 1, 1)];
    assert_eq!(
        search_results(&bundled, &imported, "  ALPHA "),
        vec![
            SearchResult { library: ChartLibrary::Bundled, index: 0 },
            SearchResult { library: ChartLibrary::Imported, index: 0 },
        ]
    );
    assert_eq!(search_results(&bundled, &imported, "").len(), 3);
    assert_eq!(clamp_selection(5, 2), 1);
    assert_eq!(clamp_selection(5, 0), 0);
    assert_eq!(clamp_selection(1, 4), 1);
    let row = search_result_row(ChartLibrary::Imported, &imported[0]);
    assert_eq!(row.source, "Imported");
    assert_eq!(row.title, "Alphabet");
}

#[test]
fn browse_orders_are_stable_sorts() {
    let songs = vec![
        facts("c", "Beta", "A", 150, 2),
        facts("a", "Alpha", "B", 120, 5),
        facts("b", "Alpha", "A", 150, 2),
    ];
    assert_eq!(browse_order(&songs, BrowseSortMode::Default), vec![1, 2, 0]);
    assert_eq!(browse_order(&songs, BrowseSortMode::Title), vec![2, 1, 0]);
    assert_eq!(browse_order(&songs, BrowseSortMode::Bpm), vec![1, 2, 0]);
    assert_eq!(browse_order(&songs, BrowseSortMode::Difficulty), vec![2, 0, 1]);
    assert_eq!(find_song_index(&songs, "b"), 2);
    assert_eq!(find_song_index(&songs, "nope"), 0);
}

#[test]
fn chart_duration_is_the_latest_note_end() {
    let notes = vec![
        Note::Hold(HoldNote { kind: NoteKind::Hold, start_ms: 100, end_ms: 5000, lane: 0 }),
        Note::Tap(TapNote { kind: NoteKind::Tap, time_ms: 3000, lane: 1 }),
    ];
    assert_eq!(chart_duration_ms(&notes), 5000);
    assert_eq!(chart_duration_ms(&vec![]), 0);
    assert!(!DemoLaunchOptions::default().autoplay);
}

#[test]
fn the_first_image_of_a_folder_goes_by_name() {
    let names: Vec<String> = ["map.osu", "zeta.JPG", "Alpha.png", "audio.mp3", "beta.webp"]
        .iter()
        .map(|name| name.to_string())
        .collect();
    assert_eq!(first_image(&names), Some(2));
    let none: Vec<String> = vec!["map.osu".to_string(), "png".to_string()];
    assert_eq!(first_image(&none), None);
    assert_eq!(first_image(&Vec::new()), None);
}
