//! The parts of an osu! beatmap that the importer reads.
use vstd::prelude::*;

verus! {

/// The only play mode the importer accepts.
#[derive(Debug, Clone, Copy, PartialEq, Eq, Structural)]
pub enum OsuMode {
    Mania,
}

/// The `[Metadata]` entries the importer keeps.
#[derive(Debug, Clone, PartialEq, Eq)]
pub struct OsuMetadata {
    pub title: Option<String>,
    pub title_unicode: Option<String>,
    pub artist: Option<String>,
    pub artist_unicode: Option<String>,
    pub creator: Option<String>,
    pub version: Option<String>,
}

/// One `[TimingPoints]` row. The beat length is kept as the text of the decimal
/// number the file holds; that text is a valid float literal.
#[derive(Debug, Clone, PartialEq, Eq)]
pub struct OsuTimingPoint {
    pub time_ms: i32,
    pub beat_length: String,
    pub meter: u8,
    pub uninherited: bool,
    pub kiai: bool,
}

/// A mania hit object, with its lane already resolved from the x coordinate.
#[derive(Debug, Clone, Copy, PartialEq, Eq, Structural)]
pub enum OsuHitObject {
    Tap { lane: u8, time_ms: i32 },
    Hold { lane: u8, start_time_ms: i32, end_time_ms: i32 },
}

/// A parsed osu!mania beatmap.
#[derive(Debug, Clone, PartialEq, Eq)]
pub struct OsuBeatmap {
    pub mode: OsuMode,
    pub key_count: u8,
    pub audio_filename: String,
    pub metadata: OsuMetadata,
    pub timing_points: Vec<OsuTimingPoint>,
    pub hit_objects: Vec<OsuHitObject>,
}

/// The characters of an optional string.
pub open spec fn opt_chars(o: Option<String>) -> Option<Seq<char>> {
    match o {
        Some(s) => Some(s@),
        None => None,
    }
}

pub struct MetadataView {
    pub title: Option<Seq<char>>,
    pub title_unicode: Option<Seq<char>>,
    pub artist: Option<Seq<char>>,
    pub artist_unicode: Option<Seq<char>>,
    pub creator: Option<Seq<char>>,
    pub version: Option<Seq<char>>,
}

pub struct TimingPointView {
    pub time_ms: i32,
    pub beat_length: Seq<char>,
    pub meter: u8,
    pub uninherited: bool,
    pub kiai: bool,
}

pub struct BeatmapView {
    pub mode: OsuMode,
    pub key_count: u8,
    pub audio_filename: Seq<char>,
    pub metadata: MetadataView,
    pub timing_points: Seq<TimingPointView>,
    pub hit_objects: Seq<OsuHitObject>,
}

impl View for OsuMetadata {
    type V = MetadataView;

    open spec fn view(&self) -> MetadataView {
        MetadataView {
            title: opt_chars(self.title),
            title_unicode: opt_chars(self.title_unicode),
            artist: opt_chars(self.artist),
            artist_unicode: opt_chars(self.artist_unicode),
            creator: opt_chars(self.creator),
            version: opt_chars(self.version),
        }
    }
}

impl View for OsuTimingPoint {
    type V = TimingPointView;

    open spec fn view(&self) -> TimingPointView {
        TimingPointView {
            time_ms: self.time_ms,
            beat_length: self.beat_length@,
            meter: self.meter,
            uninherited: self.uninherited,
            kiai: self.kiai,
        }
    }
}

impl View for OsuBeatmap {
    type V = BeatmapView;

    open spec fn view(&self) -> BeatmapView {
        BeatmapView {
            mode: self.mode,
            key_count: self.key_count,
            audio_filename: self.audio_filename@,
            metadata: self.metadata@,
            timing_points: self.timing_points@.map_values(|p: OsuTimingPoint| p@),
            hit_objects: self.hit_objects@,
        }
    }
}

pub open spec fn empty_metadata() -> MetadataView {
    MetadataView {
        title: None,
        title_unicode: None,
        artist: None,
        artist_unicode: None,
        creator: None,
        version: None,
    }
}

impl Default for OsuMetadata {
    /// No entry set.
    fn default() -> (m: Self)
        ensures
            m@ == empty_metadata(),
    {
        OsuMetadata {
            title: None,
            title_unicode: None,
            artist: None,
            artist_unicode: None,
            creator: None,
            version: None,
        }
    }
}

} // verus!
