use code_m::layout::{
    browse_columns, classify_screen, shell_footer_height, shell_header_height, BrowseColumns,
    PlayfieldLayout, ScreenClass, ShellDensity,
};

#[test]
fn theme_fixed_width_playfield_is_centered_without_stretching() {
    let layout = PlayfieldLayout::new(6, 7, 1);

    assert_eq!(layout.playfield_width(), 47);
    assert_eq!(layout.centered_left(120), 36);
    assert_eq!(layout.centered_left(80), 16);
}

#[test]
fn theme_lane_spacing_is_stable_across_all_six_lanes() {
    let layout = PlayfieldLayout::new(6, 7, 1);

    assert_eq!(layout.lane_left(0), 0);
    assert_eq!(layout.lane_left(1), 8);
    assert_eq!(layout.lane_left(5), 40);
}

#[test]
fn theme_playfield_recenters_inside_wider_container() {
    let layout = PlayfieldLayout::new(6, 7, 1);

    assert_eq!(layout.inner_origin(47), 0);
    assert_eq!(layout.inner_origin(63), 8);
    assert_eq!(layout.inner_origin(80), 16);
}

#[test]
fn theme_hud_anchors_to_the_playfield_without_changing_lane_width() {
    let layout = PlayfieldLayout::new(6, 7, 1);
    let hud = layout.hud_anchor(120, 4);

    assert_eq!(hud.x, 36);
    assert_eq!(hud.y, 0);
    assert_eq!(hud.width, 47);
    assert_eq!(hud.height, 4);
}

#[test]
fn classifies_large_terminal_as_regular_shell() {
    assert_eq!(
        classify_screen(160, 42),
        ScreenClass {
            density: ShellDensity::Regular,
            stack_side_panels: false,
            compress_lists: false,
        }
    );
}

#[test]
fn classifies_smaller_terminal_as_compact_and_stacked() {
    assert_eq!(
        classify_screen(100, 26),
        ScreenClass {
            density: ShellDensity::Compact,
            stack_side_panels: true,
            compress_lists: true,
        }
    );
}

#[test]
fn classify_screen_marks_narrow_shell_for_stacked_rails() {
    let shell = classify_screen(100, 28);

    assert!(shell.stack_side_panels);
    assert_eq!(shell.density, ShellDensity::Compact);
    assert!(shell.compress_lists);
}

#[test]
fn shell_header_and_footer_measurements_follow_density() {
    let compact = classify_screen(100, 28);
    let regular = classify_screen(160, 42);

    assert_eq!(shell_header_height(compact), 3);
    assert_eq!(shell_footer_height(compact), 2);
    assert_eq!(shell_header_height(regular), 4);
    assert_eq!(shell_footer_height(regular), 3);
}

#[test]
fn browse_columns_keep_the_center_stable_and_expand_both_sidebars() {
    let regular = classify_screen(160, 42);
    let compact = classify_screen(120, 28);

    assert_eq!(
        browse_columns(118, regular),
        BrowseColumns {
            left: 20,
            center: 66,
            right: 32,
        }
    );
    assert_eq!(
        browse_columns(158, regular),
        BrowseColumns {
            left: 40,
            center: 66,
            right: 52,
        }
    );
    assert_eq!(
        browse_columns(118, compact),
        BrowseColumns {
            left: 21,
            center: 66,
            right: 31,
        }
    );
}

#[test]
fn playfield_lanes_never_overlap_and_fit_the_width() {
    let layout = PlayfieldLayout::new(6, 7, 1);
    for lane in 0..5u16 {
        assert_eq!(layout.lane_left(lane + 1) - layout.lane_left(lane), 8);
    }
    assert!(layout.lane_left(5) + 7 <= layout.playfield_width());
}

#[test]
fn centered_playfield_clamps_to_zero_in_a_narrow_terminal() {
    let layout = PlayfieldLayout::new(6, 7, 1);
    assert_eq!(layout.centered_left(30), 0);
    assert_eq!(layout.inner_origin(10), 0);
}
