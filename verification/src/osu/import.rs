//! Converting a parsed osu!mania beatmap into a chart of this game, and naming the import.
use vstd::prelude::*;
use crate::chart::{
    sort_notes, sort_notes_stable, Chart, ChartMetadata, HoldNote, Note, NoteKind, TapNote,
};
use crate::osu::model::{
    MetadataView, OsuBeatmap, OsuHitObject, OsuMetadata, OsuTimingPoint, TimingPointView,
};
use crate::osu::parser::{OsuParseError, ParseErrorView};
use crate::text::{
    decimal, decimal_int, is_ascii_alnum, is_ascii_alphanumeric, push_chars, push_decimal,
    push_decimal_i64, str_chars, string_from_chars,
};

verus! {

/// Why a beatmap could not be imported.
#[derive(Debug, Clone, PartialEq, Eq)]
pub enum OsuImportError {
    UnsupportedKeyCount { key_count: u8 },
    UnsupportedLane { lane: u8 },
    NegativeTimingPointStart { start_time_ms: i32 },
    NegativeNoteTime { lane: u8, time_ms: i32 },
    InvalidHoldDuration { start_time_ms: i32, end_time_ms: i32 },
    NegativeHoldTime { lane: u8, start_time_ms: i32, end_time_ms: i32 },
    NoUsableTimingPoints,
    NoUsableBeatmaps { folder: String },
    MissingAudioFile { path: String },
    InvalidAudioFilename { audio_filename: String },
    StorageError { path: String, message: String },
}

pub enum ImportErrorView {
    UnsupportedKeyCount(u8),
    UnsupportedLane(u8),
    NegativeTimingPointStart(i32),
    NegativeNoteTime(u8, i32),
    InvalidHoldDuration(i32, i32),
    NegativeHoldTime(u8, i32, i32),
    NoUsableTimingPoints,
    NoUsableBeatmaps(Seq<char>),
    MissingAudioFile(Seq<char>),
    InvalidAudioFilename(Seq<char>),
    StorageError(Seq<char>, Seq<char>),
}

impl View for OsuImportError {
    type V = ImportErrorView;

    open spec fn view(&self) -> ImportErrorView {
        match self {
            OsuImportError::UnsupportedKeyCount { key_count } => ImportErrorView::UnsupportedKeyCount(
                *key_count,
            ),
            OsuImportError::UnsupportedLane { lane } => ImportErrorView::UnsupportedLane(*lane),
            OsuImportError::NegativeTimingPointStart { start_time_ms } => {
                ImportErrorView::NegativeTimingPointStart(*start_time_ms)
            },
            OsuImportError::NegativeNoteTime { lane, time_ms } => ImportErrorView::NegativeNoteTime(
                *lane,
                *time_ms,
            ),
            OsuImportError::InvalidHoldDuration { start_time_ms, end_time_ms } => {
                ImportErrorView::InvalidHoldDuration(*start_time_ms, *end_time_ms)
            },
            OsuImportError::NegativeHoldTime { lane, start_time_ms, end_time_ms } => {
                ImportErrorView::NegativeHoldTime(*lane, *start_time_ms, *end_time_ms)
            },
            OsuImportError::NoUsableTimingPoints => ImportErrorView::NoUsableTimingPoints,
            OsuImportError::NoUsableBeatmaps { folder } => ImportErrorView::NoUsableBeatmaps(folder@),
            OsuImportError::MissingAudioFile { path } => ImportErrorView::MissingAudioFile(path@),
            OsuImportError::InvalidAudioFilename { audio_filename } => {
                ImportErrorView::InvalidAudioFilename(audio_filename@)
            },
            OsuImportError::StorageError { path, message } => ImportErrorView::StorageError(
                path@,
                message@,
            ),
        }
    }
}

pub open spec fn dec_u(n: int) -> Seq<char> {
    decimal_int(n)
}

/// The sentence that reports an import error.
pub open spec fn import_error_message(e: ImportErrorView) -> Seq<char> {
    match e {
        ImportErrorView::UnsupportedKeyCount(k) => "unsupported key count "@ + dec_u(k as int)
            + "; expected 6"@,
        ImportErrorView::UnsupportedLane(l) => "unsupported hit object lane "@ + dec_u(l as int)
            + "; expected 0..=5"@,
        ImportErrorView::NegativeTimingPointStart(s) => "negative timing point start time "@
            + dec_u(s as int) + " is not supported"@,
        ImportErrorView::NegativeNoteTime(l, t) => "negative note time "@ + dec_u(t as int)
            + " for lane "@ + dec_u(l as int) + " is not supported"@,
        ImportErrorView::InvalidHoldDuration(s, e) => "invalid hold note duration: end "@ + dec_u(
            e as int,
        ) + " must be greater than start "@ + dec_u(s as int),
        ImportErrorView::NegativeHoldTime(l, s, e) => "negative hold time start "@ + dec_u(s as int)
            + " or end "@ + dec_u(e as int) + " for lane "@ + dec_u(l as int)
            + " is not supported"@,
        ImportErrorView::NoUsableTimingPoints => "no usable timing points found in osu beatmap"@,
        ImportErrorView::NoUsableBeatmaps(f) => "no usable osu!mania 6K beatmaps found in beatmap folder "@
            + f,
        ImportErrorView::MissingAudioFile(p) => "missing audio file "@ + p,
        ImportErrorView::InvalidAudioFilename(a) => "invalid audio filename "@ + a,
        ImportErrorView::StorageError(p, m) => "storage failure at "@ + p + ": "@ + m,
    }
}

fn push_lit(out: &mut Vec<char>, s: &str)
    ensures
        final(out)@ == old(out)@ + s@,
{
    let cs = str_chars(s);
    push_chars(out, &cs);
}

fn push_str_value(out: &mut Vec<char>, s: &String)
    ensures
        final(out)@ == old(out)@ + s@,
{
    let cs = str_chars(s.as_str());
    push_chars(out, &cs);
}

impl OsuImportError {
    /// The sentence that reports this error.
    pub fn message(&self) -> (r: String)
        ensures
            r@ == import_error_message(self@),
    {
        let mut o: Vec<char> = Vec::new();
        match self {
            OsuImportError::UnsupportedKeyCount { key_count } => {
                push_lit(&mut o, "unsupported key count ");
                push_decimal_i64(&mut o, *key_count as i64);
                push_lit(&mut o, "; expected 6");
            },
            OsuImportError::UnsupportedLane { lane } => {
                push_lit(&mut o, "unsupported hit object lane ");
                push_decimal_i64(&mut o, *lane as i64);
                push_lit(&mut o, "; expected 0..=5");
            },
            OsuImportError::NegativeTimingPointStart { start_time_ms } => {
                push_lit(&mut o, "negative timing point start time ");
                push_decimal_i64(&mut o, *start_time_ms as i64);
                push_lit(&mut o, " is not supported");
            },
            OsuImportError::NegativeNoteTime { lane, time_ms } => {
                push_lit(&mut o, "negative note time ");
                push_decimal_i64(&mut o, *time_ms as i64);
                push_lit(&mut o, " for lane ");
                push_decimal_i64(&mut o, *lane as i64);
                push_lit(&mut o, " is not supported");
            },
            OsuImportError::InvalidHoldDuration { start_time_ms, end_time_ms } => {
                push_lit(&mut o, "invalid hold note duration: end ");
                push_decimal_i64(&mut o, *end_time_ms as i64);
                push_lit(&mut o, " must be greater than start ");
                push_decimal_i64(&mut o, *start_time_ms as i64);
            },
            OsuImportError::NegativeHoldTime { lane, start_time_ms, end_time_ms } => {
                push_lit(&mut o, "negative hold time start ");
                push_decimal_i64(&mut o, *start_time_ms as i64);
                push_lit(&mut o, " or end ");
                push_decimal_i64(&mut o, *end_time_ms as i64);
                push_lit(&mut o, " for lane ");
                push_decimal_i64(&mut o, *lane as i64);
                push_lit(&mut o, " is not supported");
            },
            OsuImportError::NoUsableTimingPoints => {
                push_lit(&mut o, "no usable timing points found in osu beatmap");
            },
            OsuImportError::NoUsableBeatmaps { folder } => {
                push_lit(&mut o, "no usable osu!mania 6K beatmaps found in beatmap folder ");
                push_str_value(&mut o, folder);
            },
            OsuImportError::MissingAudioFile { path } => {
                push_lit(&mut o, "missing audio file ");
                push_str_value(&mut o, path);
            },
            OsuImportError::InvalidAudioFilename { audio_filename } => {
                push_lit(&mut o, "invalid audio filename ");
                push_str_value(&mut o, audio_filename);
            },
            OsuImportError::StorageError { path, message } => {
                push_lit(&mut o, "storage failure at ");
                push_str_value(&mut o, path);
                push_lit(&mut o, ": ");
                push_str_value(&mut o, message);
            },
        }
        string_from_chars(o.as_slice())
    }
}

// ---------------------------------------------------------------------------
// Notes.
// ---------------------------------------------------------------------------

/// The note a hit object becomes, or why it cannot: the lane is checked first, then
/// negative times, then (for holds) the duration.
pub open spec fn convert_hit_spec(h: OsuHitObject) -> Result<Note, ImportErrorView> {
    match h {
        OsuHitObject::Tap { lane, time_ms } => if lane > 5 {
            Err(ImportErrorView::UnsupportedLane(lane))
        } else if time_ms < 0 {
            Err(ImportErrorView::NegativeNoteTime(lane, time_ms))
        } else {
            Ok(Note::Tap(TapNote { kind: NoteKind::Tap, time_ms: time_ms as u32, lane }))
        },
        OsuHitObject::Hold { lane, start_time_ms, end_time_ms } => if lane > 5 {
            Err(ImportErrorView::UnsupportedLane(lane))
        } else if start_time_ms < 0 || end_time_ms < 0 {
            Err(ImportErrorView::NegativeHoldTime(lane, start_time_ms, end_time_ms))
        } else if end_time_ms <= start_time_ms {
            Err(ImportErrorView::InvalidHoldDuration(start_time_ms, end_time_ms))
        } else {
            Ok(
                Note::Hold(
                    HoldNote {
                        kind: NoteKind::Hold,
                        start_ms: start_time_ms as u32,
                        end_ms: end_time_ms as u32,
                        lane,
                    },
                ),
            )
        },
    }
}

/// Accepts the lanes of a six-key chart.
pub fn validate_lane(lane: u8) -> (r: Result<u8, OsuImportError>)
    ensures
        lane <= 5 ==> r == Ok::<u8, OsuImportError>(lane),
        lane > 5 ==> (r matches Err(e) && e@ == ImportErrorView::UnsupportedLane(lane)),
{
    if lane <= 5 {
        Ok(lane)
    } else {
        Err(OsuImportError::UnsupportedLane { lane })
    }
}

/// Converts one hit object into a note of the six-lane chart.
pub fn convert_hit_object(hit_object: &OsuHitObject) -> (r: Result<Note, OsuImportError>)
    ensures
        match convert_hit_spec(*hit_object) {
            Ok(n) => r == Ok::<Note, OsuImportError>(n),
            Err(e) => r matches Err(x) && x@ == e,
        },
{
    match hit_object {
        OsuHitObject::Tap { lane, time_ms } => {
            let lane = match validate_lane(*lane) {
                Ok(l) => l,
                Err(e) => return Err(e),
            };
            if *time_ms < 0 {
                return Err(OsuImportError::NegativeNoteTime { lane, time_ms: *time_ms });
            }
            Ok(Note::Tap(TapNote { kind: NoteKind::Tap, time_ms: *time_ms as u32, lane }))
        },
        OsuHitObject::Hold { lane, start_time_ms, end_time_ms } => {
            let lane = match validate_lane(*lane) {
                Ok(l) => l,
                Err(e) => return Err(e),
            };
            if *start_time_ms < 0 || *end_time_ms < 0 {
                return Err(
                    OsuImportError::NegativeHoldTime {
                        lane,
                        start_time_ms: *start_time_ms,
                        end_time_ms: *end_time_ms,
                    },
                );
            }
            if *end_time_ms <= *start_time_ms {
                return Err(
                    OsuImportError::InvalidHoldDuration {
                        start_time_ms: *start_time_ms,
                        end_time_ms: *end_time_ms,
                    },
                );
            }
            Ok(
                Note::Hold(
                    HoldNote {
                        kind: NoteKind::Hold,
                        start_ms: *start_time_ms as u32,
                        end_ms: *end_time_ms as u32,
                        lane,
                    },
                ),
            )
        },
    }
}

/// All hit objects converted in order; the first that fails gives the error.
pub open spec fn convert_all(hs: Seq<OsuHitObject>) -> Result<Seq<Note>, ImportErrorView>
    decreases hs.len(),
{
    if hs.len() == 0 {
        Ok(seq![])
    } else {
        match convert_all(hs.drop_last()) {
            Err(e) => Err(e),
            Ok(done) => match convert_hit_spec(hs.last()) {
                Err(e) => Err(e),
                Ok(n) => Ok(done.push(n)),
            },
        }
    }
}

proof fn lemma_convert_err_stays(hs: Seq<OsuHitObject>, k: int)
    requires
        0 <= k <= hs.len(),
        convert_all(hs.take(k)) is Err,
    ensures
        convert_all(hs) == convert_all(hs.take(k)),
    decreases hs.len() - k,
{
    if k < hs.len() {
        assert(hs.drop_last().take(k) =~= hs.take(k));
        lemma_convert_err_stays(hs.drop_last(), k);
    } else {
        assert(hs.take(k) =~= hs);
    }
}

fn convert_hit_objects(hs: &Vec<OsuHitObject>) -> (r: Result<Vec<Note>, OsuImportError>)
    ensures
        match convert_all(hs@) {
            Ok(ns) => r matches Ok(v) && v@ == ns,
            Err(e) => r matches Err(x) && x@ == e,
        },
{
    let mut out: Vec<Note> = Vec::new();
    let mut i: usize = 0;
    while i < hs.len()
        invariant
            i <= hs@.len(),
            convert_all(hs@.take(i as int)) == Ok::<Seq<Note>, ImportErrorView>(out@),
        decreases hs.len() - i,
    {
        assert(hs@.take(i + 1).drop_last() =~= hs@.take(i as int));
        assert(hs@.take(i + 1).last() == hs@[i as int]);
        match convert_hit_object(&hs[i]) {
            Ok(n) => {
                out.push(n);
            },
            Err(e) => {
                proof {
                    lemma_convert_err_stays(hs@, i + 1);
                }
                return Err(e);
            },
        }
        i = i + 1;
    }
    assert(hs@.take(hs@.len() as int) =~= hs@);
    Ok(out)
}

// ---------------------------------------------------------------------------
// Metadata and the whole chart.
// ---------------------------------------------------------------------------

pub open spec fn or_empty(a: Option<Seq<char>>, b: Option<Seq<char>>) -> Seq<char> {
    match a {
        Some(v) => v,
        None => match b {
            Some(v) => v,
            None => seq![],
        },
    }
}

/// The chart metadata of a beatmap: the unicode title and artist where present,
/// the difficulty name as chart name, no offset.
pub open spec fn chart_metadata_of(cm: ChartMetadata, m: MetadataView) -> bool {
    &&& cm.title@ == or_empty(m.title_unicode, m.title)
    &&& cm.artist@ == or_empty(m.artist_unicode, m.artist)
    &&& cm.chart_name@ == or_empty(m.version, None)
    &&& cm.offset_ms == 0
}

fn first_of(a: &Option<String>, b: &Option<String>) -> (r: String)
    ensures
        r@ == or_empty(
            match a {
                Some(s) => Some(s@),
                None => None,
            },
            match b {
                Some(s) => Some(s@),
                None => None,
            },
        ),
{
    match a {
        Some(s) => s.clone(),
        None => match b {
            Some(s) => s.clone(),
            None => String::new(),
        },
    }
}

pub fn convert_metadata(metadata: &OsuMetadata) -> (r: ChartMetadata)
    ensures
        chart_metadata_of(r, metadata@),
{
    ChartMetadata {
        title: first_of(&metadata.title_unicode, &metadata.title),
        artist: first_of(&metadata.artist_unicode, &metadata.artist),
        chart_name: first_of(&metadata.version, &None),
        offset_ms: 0,
    }
}

/// Index of the first timing point that starts before zero, or -1.
pub open spec fn first_negative_timing(ps: Seq<TimingPointView>) -> int
    decreases ps.len(),
{
    if ps.len() == 0 {
        -1
    } else if ps[0].time_ms < 0 {
        0
    } else {
        let r = first_negative_timing(ps.drop_first());
        if r < 0 {
            -1
        } else {
            r + 1
        }
    }
}

proof fn lemma_first_negative(ps: Seq<TimingPointView>, k: int)
    requires
        0 <= k <= ps.len(),
        forall|i: int| 0 <= i < k ==> (#[trigger] ps[i]).time_ms >= 0,
        k == ps.len() || ps[k].time_ms < 0,
    ensures
        first_negative_timing(ps) == (if k == ps.len() { -1 } else { k }),
    decreases k,
{
    if k > 0 {
        assert forall|i: int| 0 <= i < k - 1 implies (#[trigger] ps.drop_first()[i]).time_ms >= 0 by {
            assert(ps.drop_first()[i] == ps[i + 1]);
        }
        if k < ps.len() {
            assert(ps.drop_first()[k - 1] == ps[k]);
        }
        lemma_first_negative(ps.drop_first(), k - 1);
    }
}

/// Whether some uninherited timing point has a beat length above zero, where
/// `positive_beat[i]` says whether the beat length of point `i`, read as a float, is.
pub open spec fn has_usable_timing(ps: Seq<TimingPointView>, positive_beat: Seq<bool>) -> bool {
    exists|i: int| 0 <= i < ps.len() && ps[i].uninherited && #[trigger] positive_beat[i]
}

/// The outcome of importing a beatmap as a chart: the key count must be six, no
/// timing point may start before zero, some timing point must set a tempo, and every
/// hit object must convert; the notes then come sorted by time, then lane.
pub open spec fn convert_chart_spec(b: crate::osu::model::BeatmapView, positive_beat: Seq<bool>) -> Result<
    Seq<Note>,
    ImportErrorView,
> {
    if b.key_count != 6 {
        Err(ImportErrorView::UnsupportedKeyCount(b.key_count))
    } else if first_negative_timing(b.timing_points) >= 0 {
        Err(
            ImportErrorView::NegativeTimingPointStart(
                b.timing_points[first_negative_timing(b.timing_points)].time_ms,
            ),
        )
    } else if !has_usable_timing(b.timing_points, positive_beat) {
        Err(ImportErrorView::NoUsableTimingPoints)
    } else {
        match convert_all(b.hit_objects) {
            Err(e) => Err(e),
            Ok(notes) => Ok(sort_notes(notes)),
        }
    }
}

/// Converts a beatmap into a chart. The tempo itself is float arithmetic and stays
/// with the caller, which passes for each timing point whether its beat length is
/// above zero.
pub fn convert_osu_mania_chart(imported: &OsuBeatmap, positive_beat: &Vec<bool>) -> (r: Result<
    Chart,
    OsuImportError,
>)
    requires
        positive_beat@.len() == imported.timing_points@.len(),
    ensures
        match convert_chart_spec(imported@, positive_beat@) {
            Ok(notes) => r matches Ok(c) && c.notes@ == notes && chart_metadata_of(
                c.metadata,
                imported.metadata@,
            ),
            Err(e) => r matches Err(x) && x@ == e,
        },
{
    if imported.key_count != 6 {
        return Err(OsuImportError::UnsupportedKeyCount { key_count: imported.key_count });
    }
    let ghost tps = imported@.timing_points;
    let n = imported.timing_points.len();
    let mut i: usize = 0;
    let mut usable = false;
    while i < n
        invariant
            n == imported.timing_points@.len(),
            imported.key_count == 6,
            tps == imported.timing_points@.map_values(|p: OsuTimingPoint| p@),
            positive_beat@.len() == n,
            i <= n,
            forall|k: int| 0 <= k < i ==> (#[trigger] tps[k]).time_ms >= 0,
            usable == exists|k: int| 0 <= k < i && tps[k].uninherited && #[trigger] positive_beat@[k],
        decreases n - i,
    {
        let p = &imported.timing_points[i];
        assert(tps[i as int] == p@);
        if p.time_ms < 0 {
            proof {
                lemma_first_negative(tps, i as int);
            }
            return Err(OsuImportError::NegativeTimingPointStart { start_time_ms: p.time_ms });
        }
        if p.uninherited && positive_beat[i] {
            usable = true;
        }
        i = i + 1;
    }
    proof {
        lemma_first_negative(tps, n as int);
    }
    if !usable {
        return Err(OsuImportError::NoUsableTimingPoints);
    }
    let notes = match convert_hit_objects(&imported.hit_objects) {
        Ok(v) => v,
        Err(e) => return Err(e),
    };
    Ok(Chart { metadata: convert_metadata(&imported.metadata), notes: sort_notes_stable(notes) })
}

// ---------------------------------------------------------------------------
// Which failures skip a beatmap instead of failing the whole import.
// ---------------------------------------------------------------------------

pub open spec fn parse_error_skips(e: ParseErrorView) -> bool {
    e is UnsupportedMode || e is InvalidFormat
}

/// A beatmap that does not parse, or is not mania, is skipped; a read failure is not.
pub fn should_skip_parse_error(error: &OsuParseError) -> (r: bool)
    ensures
        r == parse_error_skips(error@),
{
    match error {
        OsuParseError::UnsupportedMode { .. } | OsuParseError::InvalidFormat(_) => true,
        OsuParseError::Io { .. } => false,
    }
}

pub open spec fn import_error_skips(e: ImportErrorView) -> bool {
    !(e is NoUsableBeatmaps || e is StorageError)
}

/// A beatmap this game cannot play is skipped; storage failures, and a folder without
/// any usable beatmap, are not.
pub fn should_skip_import_error(error: &OsuImportError) -> (r: bool)
    ensures
        r == import_error_skips(error@),
{
    match error {
        OsuImportError::NoUsableBeatmaps { .. } | OsuImportError::StorageError { .. } => false,
        _ => true,
    }
}

} // verus!

verus! {

// ---------------------------------------------------------------------------
// The identifier of an import.
// ---------------------------------------------------------------------------

/// The characters `char::to_lowercase` yields for `c` (the Unicode lowercase mapping).
pub uninterp spec fn lowercase_mapping(c: char) -> Seq<char>;

/// `char::to_lowercase`, collected. The contract names the result: it is the
/// lowercase mapping of `c` and depends on nothing else. What that mapping is for a
/// given character (the Unicode tables) is left unsaid.
#[verifier::external_body]
fn char_to_lowercase(c: char) -> (r: Vec<char>)
    ensures
        r@ == lowercase_mapping(c),
{
    c.to_lowercase().collect()
}

/// Every character replaced by its lowercase mapping.
pub open spec fn lowercase_all(s: Seq<char>) -> Seq<char>
    decreases s.len(),
{
    if s.len() == 0 {
        seq![]
    } else {
        lowercase_all(s.drop_last()) + lowercase_mapping(s.last())
    }
}

/// ASCII letters and digits kept, every run of other characters made one dash; the
/// flag says whether the output ends in that dash.
pub open spec fn collapse(s: Seq<char>) -> (Seq<char>, bool)
    decreases s.len(),
{
    if s.len() == 0 {
        (seq![], false)
    } else {
        let (out, dash) = collapse(s.drop_last());
        let c = s.last();
        if is_ascii_alnum(c) {
            (out.push(c), false)
        } else if !dash {
            (out.push('-'), true)
        } else {
            (out, true)
        }
    }
}

/// Index of the first character that is not a dash (or the length).
pub open spec fn leading_dashes(s: Seq<char>) -> int
    decreases s.len(),
{
    if s.len() > 0 && s[0] == '-' {
        1 + leading_dashes(s.drop_first())
    } else {
        0
    }
}

/// Length of `s` without its trailing dashes.
pub open spec fn without_trailing_dashes(s: Seq<char>) -> int
    decreases s.len(),
{
    if s.len() > 0 && s.last() == '-' {
        without_trailing_dashes(s.drop_last())
    } else {
        s.len() as int
    }
}

/// `s` without leading and trailing dashes (`str::trim_matches('-')`).
pub open spec fn strip_dashes(s: Seq<char>) -> Seq<char> {
    let t = s.skip(leading_dashes(s));
    t.take(without_trailing_dashes(t))
}

/// The slug of text that is already lower-cased.
pub open spec fn slug_of_lowered(s: Seq<char>) -> Seq<char> {
    strip_dashes(collapse(s).0)
}

/// The slug of `input`: lower-cased, ASCII letters and digits kept, other runs made one
/// dash, no dash at either end.
pub open spec fn slug_of(input: Seq<char>) -> Seq<char> {
    slug_of_lowered(lowercase_all(input))
}

proof fn lemma_leading_dashes(s: Seq<char>, k: int)
    requires
        0 <= k <= s.len(),
        forall|i: int| 0 <= i < k ==> #[trigger] s[i] == '-',
        k == s.len() || s[k] != '-',
    ensures
        leading_dashes(s) == k,
    decreases k,
{
    if k > 0 {
        assert forall|i: int| 0 <= i < k - 1 implies #[trigger] s.drop_first()[i] == '-' by {
            assert(s.drop_first()[i] == s[i + 1]);
        }
        if k < s.len() {
            assert(s.drop_first()[k - 1] == s[k]);
        }
        lemma_leading_dashes(s.drop_first(), k - 1);
    }
}

proof fn lemma_trailing_dashes(s: Seq<char>, k: int)
    requires
        0 <= k <= s.len(),
        forall|i: int| k <= i < s.len() ==> #[trigger] s[i] == '-',
        k == 0 || s[k - 1] != '-',
    ensures
        without_trailing_dashes(s) == k,
    decreases s.len() - k,
{
    if k < s.len() {
        assert forall|i: int| k <= i < s.len() - 1 implies #[trigger] s.drop_last()[i] == '-' by {
            assert(s.drop_last()[i] == s[i]);
        }
        if k > 0 {
            assert(s.drop_last()[k - 1] == s[k - 1]);
        }
        lemma_trailing_dashes(s.drop_last(), k);
    }
}

/// The slug of text that is already lower-cased.
pub fn slugify_lowered(lowered: &Vec<char>) -> (r: String)
    ensures
        r@ == slug_of_lowered(lowered@),
{
    let mut out: Vec<char> = Vec::new();
    let mut last_was_dash = false;
    let mut i: usize = 0;
    while i < lowered.len()
        invariant
            i <= lowered@.len(),
            collapse(lowered@.take(i as int)) == (out@, last_was_dash),
        decreases lowered.len() - i,
    {
        let ch = lowered[i];
        assert(lowered@.take(i + 1).drop_last() =~= lowered@.take(i as int));
        assert(lowered@.take(i + 1).last() == ch);
        if is_ascii_alphanumeric(ch) {
            out.push(ch);
            last_was_dash = false;
        } else if !last_was_dash {
            out.push('-');
            last_was_dash = true;
        }
        i = i + 1;
    }
    assert(lowered@.take(lowered@.len() as int) =~= lowered@);
    let mut start: usize = 0;
    while start < out.len() && out[start] == '-'
        invariant
            start <= out@.len(),
            forall|k: int| 0 <= k < start ==> #[trigger] out@[k] == '-',
        decreases out.len() - start,
    {
        start = start + 1;
    }
    let mut end: usize = out.len();
    while end > start && out[end - 1] == '-'
        invariant
            start <= end <= out@.len(),
            forall|k: int| end <= k < out@.len() ==> #[trigger] out@[k] == '-',
        decreases end,
    {
        end = end - 1;
    }
    proof {
        lemma_leading_dashes(out@, start as int);
        let t = out@.skip(start as int);
        assert forall|k: int| end - start <= k < t.len() implies #[trigger] t[k] == '-' by {
            assert(t[k] == out@[start + k]);
        }
        if end > start {
            assert(t[end - start - 1] == out@[end - 1]);
        }
        lemma_trailing_dashes(t, end - start);
        assert(t.take(end - start) =~= out@.subrange(start as int, end as int));
    }
    crate::text::string_from_range(&out, start, end)
}

/// The slug of `input` (see `slug_of`).
pub fn slugify(input: &str) -> (r: String)
    ensures
        r@ == slug_of(input@),
{
    let chars = str_chars(input);
    let mut lowered: Vec<char> = Vec::new();
    let mut i: usize = 0;
    while i < chars.len()
        invariant
            i <= chars@.len(),
            chars@ == input@,
            lowered@ == lowercase_all(chars@.take(i as int)),
        decreases chars.len() - i,
    {
        let low = char_to_lowercase(chars[i]);
        assert(chars@.take(i + 1).drop_last() =~= chars@.take(i as int));
        assert(chars@.take(i + 1).last() == chars@[i as int]);
        push_chars(&mut lowered, &low);
        i = i + 1;
    }
    assert(chars@.take(chars@.len() as int) =~= chars@);
    slugify_lowered(&lowered)
}

/// The text an import identifier is made from.
pub open spec fn import_id_source(
    artist: Seq<char>,
    title: Seq<char>,
    chart_name: Seq<char>,
    key_count: u8,
    audio_filename: Seq<char>,
) -> Seq<char> {
    artist + "-"@ + title + "-"@ + chart_name + "-"@ + decimal(key_count as nat) + "k-"@
        + audio_filename
}

/// The identifier of an import: the slug of artist, title, chart name, key count and
/// audio file name.
pub fn derive_import_id(metadata: &ChartMetadata, key_count: u8, audio_filename: &str) -> (r: String)
    ensures
        r@ == slug_of(
            import_id_source(
                metadata.artist@,
                metadata.title@,
                metadata.chart_name@,
                key_count,
                audio_filename@,
            ),
        ),
{
    let mut raw: Vec<char> = Vec::new();
    push_str_value(&mut raw, &metadata.artist);
    push_lit(&mut raw, "-");
    push_str_value(&mut raw, &metadata.title);
    push_lit(&mut raw, "-");
    push_str_value(&mut raw, &metadata.chart_name);
    push_lit(&mut raw, "-");
    push_decimal(&mut raw, key_count as u64);
    push_lit(&mut raw, "k-");
    push_lit(&mut raw, audio_filename);
    let text = string_from_chars(raw.as_slice());
    slugify(text.as_str())
}

pub open spec fn is_slug_char(c: char) -> bool {
    is_ascii_alnum(c) || c == '-'
}

/// The shape of a slug: letters, digits and single dashes.
pub open spec fn slug_shaped(s: Seq<char>) -> bool {
    &&& forall|i: int| 0 <= i < s.len() ==> is_slug_char(#[trigger] s[i])
    &&& forall|i: int| 0 <= i < s.len() - 1 ==> !(#[trigger] s[i] == '-' && s[i + 1] == '-')
}

proof fn lemma_collapse_shape(s: Seq<char>)
    ensures
        slug_shaped(collapse(s).0),
        collapse(s).1 <==> (collapse(s).0.len() > 0 && collapse(s).0.last() == '-'),
    decreases s.len(),
{
    if s.len() > 0 {
        lemma_collapse_shape(s.drop_last());
        let (out, dash) = collapse(s.drop_last());
        let n = collapse(s).0;
        assert forall|i: int| 0 <= i < n.len() implies is_slug_char(#[trigger] n[i]) by {
            if i < out.len() {
                assert(n[i] == out[i]);
            }
        }
        assert forall|i: int| 0 <= i < n.len() - 1 implies !(#[trigger] n[i] == '-' && n[i + 1]
            == '-') by {
            if i + 1 < out.len() {
                assert(n[i] == out[i] && n[i + 1] == out[i + 1]);
            } else if i + 1 == out.len() && n.len() > out.len() {
                assert(n[i] == out.last());
            }
        }
    }
}

/// An import identifier is made of ASCII letters, digits and single dashes, and neither
/// starts nor ends with a dash: it can name a folder on every platform.
pub proof fn lemma_slug_is_folder_safe(input: Seq<char>)
    ensures
        slug_shaped(slug_of(input)),
        slug_of(input).len() > 0 ==> slug_of(input)[0] != '-' && slug_of(input).last() != '-',
{
    let s = collapse(lowercase_all(input)).0;
    lemma_collapse_shape(lowercase_all(input));
    let k = leading_dashes(s);
    let ghost t = s.skip(k);
    lemma_leading_bounds(s);
    let e = without_trailing_dashes(t);
    lemma_trailing_bounds(t);
    let r = t.take(e);
    assert(r == slug_of(input));
    assert forall|i: int| 0 <= i < r.len() implies is_slug_char(#[trigger] r[i]) by {
        assert(r[i] == s[k + i]);
    }
    assert forall|i: int| 0 <= i < r.len() - 1 implies !(#[trigger] r[i] == '-' && r[i + 1] == '-') by {
        assert(r[i] == s[k + i] && r[i + 1] == s[k + i + 1]);
    }
    if r.len() > 0 {
        assert(r[0] == t[0]);
        assert(r.last() == t[e - 1]);
    }
}

proof fn lemma_leading_bounds(s: Seq<char>)
    ensures
        0 <= leading_dashes(s) <= s.len(),
        leading_dashes(s) < s.len() ==> s[leading_dashes(s)] != '-',
    decreases s.len(),
{
    if s.len() > 0 && s[0] == '-' {
        lemma_leading_bounds(s.drop_first());
        if leading_dashes(s) < s.len() {
            assert(s[leading_dashes(s)] == s.drop_first()[leading_dashes(s.drop_first())]);
        }
    }
}

proof fn lemma_trailing_bounds(s: Seq<char>)
    ensures
        0 <= without_trailing_dashes(s) <= s.len(),
        without_trailing_dashes(s) > 0 ==> s[without_trailing_dashes(s) - 1] != '-',
    decreases s.len(),
{
    if s.len() > 0 && s.last() == '-' {
        lemma_trailing_bounds(s.drop_last());
        if without_trailing_dashes(s) > 0 {
            assert(s[without_trailing_dashes(s) - 1] == s.drop_last()[without_trailing_dashes(s) - 1]);
        }
    }
}

/// Law: a chart's title and artist each come from the unicode field of the beatmap
/// when it is present and from the plain field otherwise (empty when neither is);
/// its name is the difficulty name.
pub proof fn lemma_metadata_fallbacks(cm: ChartMetadata, m: MetadataView)
    requires
        chart_metadata_of(cm, m),
    ensures
        m.title_unicode matches Some(u) ==> cm.title@ == u,
        m.title_unicode is None ==> (m.title matches Some(a) ==> cm.title@ == a),
        m.title_unicode is None && m.title is None ==> cm.title@.len() == 0,
        m.artist_unicode matches Some(u) ==> cm.artist@ == u,
        m.artist_unicode is None ==> (m.artist matches Some(a) ==> cm.artist@ == a),
        m.artist_unicode is None && m.artist is None ==> cm.artist@.len() == 0,
        m.version matches Some(v) ==> cm.chart_name@ == v,
        m.version is None ==> cm.chart_name@.len() == 0,
{
}

} // verus!
