use code_m::osu::model::{OsuHitObject, OsuMode};
use code_m::osu::parser::{
    float_literal_ok, lane_from_x, parse_int, parse_osu_str, resolve_hit_object, IntErrorKind,
    OsuParseError, RawHitObject,
};

const SAMPLE: &str = "osu file format v14\n\
\n\
[General]\n\
AudioFilename: audio.mp3\n\
Mode: 3\n\
\n\
[Metadata]\n\
Title:Song\n\
TitleUnicode:Sang\n\
Artist:Artist\n\
ArtistUnicode:Artiste\n\
Creator:me\n\
Version:6K Hard\n\
\n\
[Difficulty]\n\
CircleSize:6\n\
\n\
[TimingPoints]\n\
0,500,4,2,0,100,1,0\n\
1000,-100,4,2,0,100,0,1\n\
\n\
[HitObjects]\n\
42,192,1000,1,0,0:0:0:0:\n\
128,192,1500,128,0,2000:0:0:0:0:\n";

fn chars(s: &str) -> Vec<char> {
    s.chars().collect()
}

fn with_line(section: &str, line: &str) -> String {
    SAMPLE.replace(section, &format!("{section}\n{line}"))
}

fn invalid(text: &str) -> OsuParseError {
    OsuParseError::InvalidFormat(text.to_string())
}

#[test]
fn parses_a_six_key_mania_beatmap() {
    let map = parse_osu_str(SAMPLE).expect("sample should parse");
    assert_eq!(map.mode, OsuMode::Mania);
    assert_eq!(map.key_count, 6);
    assert_eq!(map.audio_filename, "audio.mp3");
    assert_eq!(map.metadata.title.as_deref(), Some("Song"));
    assert_eq!(map.metadata.title_unicode.as_deref(), Some("Sang"));
    assert_eq!(map.metadata.artist_unicode.as_deref(), Some("Artiste"));
    assert_eq!(map.metadata.creator.as_deref(), Some("me"));
    assert_eq!(map.metadata.version.as_deref(), Some("6K Hard"));
    assert_eq!(map.timing_points.len(), 2);
    assert_eq!(map.timing_points[0].time_ms, 0);
    assert_eq!(map.timing_points[0].beat_length, "500");
    assert_eq!(map.timing_points[0].meter, 4);
    assert!(map.timing_points[0].uninherited);
    assert!(!map.timing_points[0].kiai);
    assert_eq!(map.timing_points[1].beat_length, "-100");
    assert!(!map.timing_points[1].uninherited);
    assert!(map.timing_points[1].kiai);
    assert_eq!(
        map.hit_objects,
        vec![
            OsuHitObject::Tap { lane: 0, time_ms: 1000 },
            OsuHitObject::Hold { lane: 1, start_time_ms: 1500, end_time_ms: 2000 },
        ]
    );
}

#[test]
fn crlf_lines_comments_and_unknown_sections_are_skipped() {
    let text = SAMPLE.replace('\n', "\r\n").replace("[Difficulty]", "// a comment\r\n[Editor]\r\nBookmarks: 1\r\n[difficulty]");
    let map = parse_osu_str(&text).expect("crlf text should parse");
    assert_eq!(map.key_count, 6);
    assert_eq!(map.hit_objects.len(), 2);
}

#[test]
fn missing_mode_is_reported() {
    let text = SAMPLE.replace("Mode: 3\n", "");
    assert_eq!(parse_osu_str(&text).unwrap_err(), invalid("missing General Mode"));
}

#[test]
fn other_modes_are_unsupported() {
    let text = SAMPLE.replace("Mode: 3", "Mode: 0");
    assert_eq!(parse_osu_str(&text).unwrap_err(), OsuParseError::UnsupportedMode { mode: 0 });
    assert_eq!(
        OsuParseError::UnsupportedMode { mode: 0 }.message(),
        "unsupported osu mode 0; expected mania"
    );
}

#[test]
fn bad_mode_value_reports_the_integer_error() {
    let text = SAMPLE.replace("Mode: 3", "Mode: three");
    assert_eq!(
        parse_osu_str(&text).unwrap_err(),
        invalid("invalid General Mode: invalid digit found in string")
    );
}

#[test]
fn circle_size_out_of_range_is_reported() {
    let text = SAMPLE.replace("CircleSize:6", "CircleSize:300");
    assert_eq!(
        parse_osu_str(&text).unwrap_err(),
        invalid("invalid Difficulty CircleSize: number too large to fit in target type")
    );
    let text = SAMPLE.replace("CircleSize:6", "CircleSize:");
    assert_eq!(
        parse_osu_str(&text).unwrap_err(),
        invalid("invalid Difficulty CircleSize: cannot parse integer from empty string")
    );
}

#[test]
fn missing_key_count_and_audio_are_reported() {
    let text = SAMPLE.replace("CircleSize:6\n", "");
    assert_eq!(parse_osu_str(&text).unwrap_err(), invalid("missing Difficulty CircleSize"));
    let text = SAMPLE.replace("AudioFilename: audio.mp3\n", "");
    assert_eq!(parse_osu_str(&text).unwrap_err(), invalid("missing General AudioFilename"));
    let text = SAMPLE.replace("AudioFilename: audio.mp3", "AudioFilename:   ");
    assert_eq!(
        parse_osu_str(&text).unwrap_err(),
        invalid("General AudioFilename cannot be empty")
    );
}

#[test]
fn key_value_lines_need_a_colon() {
    let text = with_line("[General]", "NoColonHere");
    assert_eq!(
        parse_osu_str(&text).unwrap_err(),
        invalid("invalid key/value line: NoColonHere")
    );
}

#[test]
fn timing_point_errors_name_the_line() {
    let text = SAMPLE.replace("0,500,4,2,0,100,1,0", "0,500,4");
    assert_eq!(
        parse_osu_str(&text).unwrap_err(),
        invalid("line 19: invalid timing point: expected at least 8 comma-separated fields")
    );
    let text = SAMPLE.replace("0,500,4,2,0,100,1,0", "0,abc,4,2,0,100,1,0");
    assert_eq!(
        parse_osu_str(&text).unwrap_err(),
        invalid("line 19: invalid timing point: invalid float literal")
    );
    let text = SAMPLE.replace("0,500,4,2,0,100,1,0", "0,,4,2,0,100,1,0");
    assert_eq!(
        parse_osu_str(&text).unwrap_err(),
        invalid("line 19: invalid timing point: cannot parse float from empty string")
    );
    let text = SAMPLE.replace("0,500,4,2,0,100,1,0", "0,500,-4,2,0,100,1,0");
    assert_eq!(
        parse_osu_str(&text).unwrap_err(),
        invalid("line 19: invalid timing point: invalid digit found in string")
    );
}

#[test]
fn hit_object_errors_are_reported() {
    let text = SAMPLE.replace("42,192,1000,1,0,0:0:0:0:", "42,192");
    assert_eq!(
        parse_osu_str(&text).unwrap_err(),
        invalid("invalid hit object: expected at least 5 comma-separated fields")
    );
    let text = SAMPLE.replace("42,192,1000,1,0,0:0:0:0:", "600,192,1000,1,0");
    assert_eq!(
        parse_osu_str(&text).unwrap_err(),
        invalid("hit object x coordinate out of range: 600")
    );
    let text = SAMPLE.replace("42,192,1000,1,0,0:0:0:0:", "-5,192,1000,1,0");
    assert_eq!(
        parse_osu_str(&text).unwrap_err(),
        invalid("hit object x coordinate out of range: -5")
    );
    let text = SAMPLE.replace("42,192,1000,1,0,0:0:0:0:", "42,192,1000,2,0");
    assert_eq!(
        parse_osu_str(&text).unwrap_err(),
        invalid("unsupported hit object type for mania import")
    );
    let text = SAMPLE.replace("128,192,1500,128,0,2000:0:0:0:0:", "128,192,1500,128,0");
    assert_eq!(parse_osu_str(&text).unwrap_err(), invalid("hold note missing end time"));
    let text = SAMPLE.replace("2000:0:0:0:0:", "1500:0:0:0:0:");
    assert_eq!(
        parse_osu_str(&text).unwrap_err(),
        invalid("hold note end time must be greater than start time")
    );
    let text = SAMPLE.replace("2000:0:0:0:0:", "x:0");
    assert_eq!(
        parse_osu_str(&text).unwrap_err(),
        invalid("invalid hold note end time: invalid digit found in string")
    );
    let text = SAMPLE.replace("42,192,1000,1", "42,192,99999999999,1");
    assert_eq!(
        parse_osu_str(&text).unwrap_err(),
        invalid("invalid hit object time: number too large to fit in target type")
    );
}

#[test]
fn parse_error_messages_carry_their_prefix() {
    assert_eq!(invalid("x").message(), "failed to parse osu file: x");
    let io = OsuParseError::Io { path: "a.osu".to_string(), message: "gone".to_string() };
    assert_eq!(io.message(), "failed to read osu file a.osu: gone");
}

#[test]
fn lanes_split_the_field_evenly() {
    assert_eq!(lane_from_x(0, 6).unwrap(), 0);
    assert_eq!(lane_from_x(85, 6).unwrap(), 0);
    assert_eq!(lane_from_x(86, 6).unwrap(), 1);
    assert_eq!(lane_from_x(511, 6).unwrap(), 5);
    assert_eq!(lane_from_x(256, 1).unwrap(), 0);
    assert_eq!(
        lane_from_x(10, 0).unwrap_err(),
        invalid("Difficulty CircleSize must be greater than zero")
    );
}

#[test]
fn resolving_checks_type_bits() {
    let tap = RawHitObject { x: 300, time_ms: 10, object_type: 5, hold_end_time_ms: None };
    assert_eq!(resolve_hit_object(tap, 6).unwrap(), OsuHitObject::Tap { lane: 3, time_ms: 10 });
    let hold = RawHitObject { x: 300, time_ms: 10, object_type: 129, hold_end_time_ms: Some(20) };
    assert_eq!(
        resolve_hit_object(hold, 6).unwrap(),
        OsuHitObject::Hold { lane: 3, start_time_ms: 10, end_time_ms: 20 }
    );
}

#[test]
fn integers_read_like_the_standard_parser() {
    let (lo, hi) = (i32::MIN as i64, i32::MAX as i64);
    assert_eq!(parse_int(&chars("+42"), lo, hi), Ok(42));
    assert_eq!(parse_int(&chars("-2147483648"), lo, hi), Ok(-2147483648));
    assert_eq!(parse_int(&chars("2147483648"), lo, hi), Err(IntErrorKind::PosOverflow));
    assert_eq!(parse_int(&chars("-2147483649"), lo, hi), Err(IntErrorKind::NegOverflow));
    assert_eq!(parse_int(&chars(""), lo, hi), Err(IntErrorKind::Empty));
    assert_eq!(parse_int(&chars("-"), lo, hi), Err(IntErrorKind::InvalidDigit));
    assert_eq!(parse_int(&chars("1 2"), lo, hi), Err(IntErrorKind::InvalidDigit));
    assert_eq!(parse_int(&chars("-1"), 0, 255), Err(IntErrorKind::InvalidDigit));
    assert_eq!(parse_int(&chars("256"), 0, 255), Err(IntErrorKind::PosOverflow));
    for text in ["+42", "-7", "300", "12x", "", "+", "99999999999"] {
        let std_ok = text.parse::<i32>().ok().map(|v| v as i64);
        assert_eq!(parse_int(&chars(text), lo, hi).ok(), std_ok, "{text}");
    }
}

#[test]
fn float_literals_match_the_standard_parser() {
    for text in [
        "1", "1.5", ".5", "5.", "1e5", "1E-5", "-2.5e+3", "inf", "-Infinity", "NaN", "+nan",
        "", ".", "e5", "1e", "1.2.3", "--1", "0x10", "1_000", " 1", "infin", "1e+", "+", "-.e1",
    ] {
        assert_eq!(
            float_literal_ok(&chars(text)),
            text.parse::<f64>().is_ok(),
            "{text:?}"
        );
    }
}
