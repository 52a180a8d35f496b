use code_m::judgment::Judgment;
use code_m::widgets::{
    cover_initials, format_judgment_label, hash_seed, lane_fill_glyph, offset_bar, selection_status_line,
    shell_support_line, visible_range, visible_result_count, visible_result_range,
};

#[test]
fn theme_judgment_labels_are_short_and_consistent() {
    assert_eq!(format_judgment_label(Judgment::Perfect), "PERFECT");
    assert_eq!(format_judgment_label(Judgment::Great), "GREAT");
    assert_eq!(format_judgment_label(Judgment::Good), "GOOD");
    assert_eq!(format_judgment_label(Judgment::Miss), "MISS");
}

#[test]
fn theme_lane_glyphs_are_simple_and_high_contrast() {
    assert_eq!(lane_fill_glyph(false), '.');
    assert_eq!(lane_fill_glyph(true), '#');
}

#[test]
fn cover_initials_keeps_existing_focus_art_behavior() {
    assert_eq!(cover_initials("Demo Hold"), "DH");
    assert_eq!(cover_initials("night transit"), "NT");
}

#[test]
fn search_visible_range_tracks_selected_item() {
    assert_eq!(visible_result_range(20, 0, 5), 0..5);
    assert_eq!(visible_result_range(20, 10, 5), 8..13);
    assert_eq!(visible_result_range(20, 19, 5), 15..20);
}

#[test]
fn search_visible_count_uses_available_result_height() {
    assert_eq!(visible_result_count(0, 3), 1);
    assert_eq!(visible_result_count(9, 3), 3);
    assert_eq!(visible_result_count(8, 2), 4);
}

#[test]
fn song_select_formats_status_line_for_empty_history() {
    assert_eq!(selection_status_line(None, 0), "Best -   0 plays");
}

#[test]
fn selection_status_line_reports_play_count_and_best_score() {
    assert_eq!(
        selection_status_line(Some(973240), 12),
        "Best 973240   12 plays"
    );
}

#[test]
fn song_select_prefers_image_preview_message_when_art_exists() {
    assert_eq!(shell_support_line(true), "Image preview ready");
    assert_eq!(shell_support_line(false), "Text preview");
}

#[test]
fn visible_range_keeps_the_catalog_window_to_the_visible_subset() {
    let range = visible_range(20, 10, 5);

    assert_eq!(range, 8..13);
    assert_eq!(range.len(), 5);
}

#[test]
fn visible_range_shows_everything_when_the_list_is_short() {
    assert_eq!(visible_range(3, 2, 5), 0..3);
    assert_eq!(visible_range(0, 0, 5), 0..0);
}

#[test]
fn offset_bar_places_the_marker_by_tens_of_milliseconds() {
    let centered: String = "············◆············".to_string();
    assert_eq!(offset_bar(0), centered);
    assert_eq!(offset_bar(35), "············│··◆·········");
    assert_eq!(offset_bar(-5000), "◆···········│············");
    assert_eq!(offset_bar(-15), "···········◆│············");
    assert_eq!(offset_bar(5000), "············│···········◆");
}

#[test]
fn cover_seed_folds_the_title_bytes() {
    assert_eq!(hash_seed(""), 2_166_136_261);
    assert_eq!(hash_seed("a"), 84_696_446);
    assert_eq!(hash_seed("Seythm"), 229_354_351);
}
