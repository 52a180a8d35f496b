//! The song catalogs: the bundled songs, and the songs imported from osu! beatmaps.
use vstd::prelude::*;

verus! {

/// Where the catalog of imported songs is kept, relative to the working directory.
pub const DEFAULT_IMPORTED_CATALOG_PATH: &'static str = ".code_m/imports/catalog.toml";

/// The folder imported songs are kept in.
pub const DEFAULT_IMPORTED_ROOT: &'static str = ".code_m/imports";

/// The folder earlier versions kept imported songs in.
pub const LEGACY_IMPORTED_ROOT: &'static str = ".superpowers/code_m_imports";

/// The origin recorded for songs imported from osu!mania beatmaps.
pub const IMPORTED_ORIGIN_TYPE: &'static str = "osu!mania import";

/// A bundled song, with the paths of its files.
#[derive(Debug, Clone)]
pub struct SongCatalogEntry {
    id: String,
    title: String,
    artist: String,
    chart_name: String,
    difficulty: u8,
    bpm: u16,
    mood: String,
    chart_path: String,
    audio_path: Option<String>,
    artwork_path: Option<String>,
}

pub struct SongEntryView {
    pub id: Seq<char>,
    pub title: Seq<char>,
    pub artist: Seq<char>,
    pub chart_name: Seq<char>,
    pub difficulty: u8,
    pub bpm: u16,
    pub mood: Seq<char>,
    pub chart_path: Seq<char>,
    pub audio_path: Option<Seq<char>>,
    pub artwork_path: Option<Seq<char>>,
}

pub open spec fn opt_view(o: Option<String>) -> Option<Seq<char>> {
    match o {
        Some(s) => Some(s@),
        None => None,
    }
}

fn opt_str(o: &Option<String>) -> (r: Option<&str>)
    ensures
        match r {
            Some(s) => opt_view(*o) == Some(s@),
            None => o is None,
        },
{
    match o {
        Some(s) => Some(s.as_str()),
        None => None,
    }
}

impl View for SongCatalogEntry {
    type V = SongEntryView;

    closed spec fn view(&self) -> SongEntryView {
        SongEntryView {
            id: self.id@,
            title: self.title@,
            artist: self.artist@,
            chart_name: self.chart_name@,
            difficulty: self.difficulty,
            bpm: self.bpm,
            mood: self.mood@,
            chart_path: self.chart_path@,
            audio_path: opt_view(self.audio_path),
            artwork_path: opt_view(self.artwork_path),
        }
    }
}

impl SongCatalogEntry {
    pub fn new(
        id: String,
        title: String,
        artist: String,
        chart_name: String,
        difficulty: u8,
        bpm: u16,
        mood: String,
        chart_path: String,
        audio_path: Option<String>,
        artwork_path: Option<String>,
    ) -> (r: Self)
        ensures
            r@ == (SongEntryView {
                id: id@,
                title: title@,
                artist: artist@,
                chart_name: chart_name@,
                difficulty,
                bpm,
                mood: mood@,
                chart_path: chart_path@,
                audio_path: opt_view(audio_path),
                artwork_path: opt_view(artwork_path),
            }),
    {
        SongCatalogEntry {
            id,
            title,
            artist,
            chart_name,
            difficulty,
            bpm,
            mood,
            chart_path,
            audio_path,
            artwork_path,
        }
    }

    pub fn id(&self) -> (r: &str)
        ensures
            r@ == self@.id,
    {
        self.id.as_str()
    }

    pub fn title(&self) -> (r: &str)
        ensures
            r@ == self@.title,
    {
        self.title.as_str()
    }

    pub fn artist(&self) -> (r: &str)
        ensures
            r@ == self@.artist,
    {
        self.artist.as_str()
    }

    pub fn chart_name(&self) -> (r: &str)
        ensures
            r@ == self@.chart_name,
    {
        self.chart_name.as_str()
    }

    pub fn difficulty(&self) -> (r: u8)
        ensures
            r == self@.difficulty,
    {
        self.difficulty
    }

    pub fn bpm(&self) -> (r: u16)
        ensures
            r == self@.bpm,
    {
        self.bpm
    }

    pub fn mood(&self) -> (r: &str)
        ensures
            r@ == self@.mood,
    {
        self.mood.as_str()
    }

    pub fn chart_path(&self) -> (r: &str)
        ensures
            r@ == self@.chart_path,
    {
        self.chart_path.as_str()
    }

    pub fn audio_path(&self) -> (r: Option<&str>)
        ensures
            match r {
                Some(s) => self@.audio_path == Some(s@),
                None => self@.audio_path is None,
            },
    {
        opt_str(&self.audio_path)
    }

    pub fn artwork_path(&self) -> (r: Option<&str>)
        ensures
            match r {
                Some(s) => self@.artwork_path == Some(s@),
                None => self@.artwork_path is None,
            },
    {
        opt_str(&self.artwork_path)
    }
}

/// The bundled songs, in catalog order.
#[derive(Debug, Clone)]
pub struct SongCatalog {
    songs: Vec<SongCatalogEntry>,
}

impl SongCatalog {
    pub closed spec fn entries(&self) -> Seq<SongCatalogEntry> {
        self.songs@
    }

    pub fn new(songs: Vec<SongCatalogEntry>) -> (r: Self)
        ensures
            r.entries() == songs@,
    {
        SongCatalog { songs }
    }

    pub fn songs(&self) -> (r: &[SongCatalogEntry])
        ensures
            r@ == self.entries(),
    {
        self.songs.as_slice()
    }
}

/// A song imported from an osu! beatmap, with where its files are and where it came from.
#[derive(Debug, Clone, PartialEq, Eq)]
pub struct ImportedSongCatalogEntry {
    pub id: String,
    pub title: String,
    pub artist: String,
    pub chart_name: String,
    pub difficulty: u8,
    pub bpm: u16,
    pub mood: String,
    pub chart_path: String,
    pub audio_path: String,
    pub artwork_path: Option<String>,
    pub source_osu_path: String,
    pub source_folder: String,
    pub source_osu_filename: String,
    pub imported_at_unix_ms: u64,
    pub origin_type: String,
}

impl ImportedSongCatalogEntry {
    pub fn chart_path(&self) -> (r: &str)
        ensures
            r@ == self.chart_path@,
    {
        self.chart_path.as_str()
    }

    pub fn audio_path(&self) -> (r: &str)
        ensures
            r@ == self.audio_path@,
    {
        self.audio_path.as_str()
    }

    pub fn artwork_path(&self) -> (r: Option<&str>)
        ensures
            match r {
                Some(s) => opt_view(self.artwork_path) == Some(s@),
                None => self.artwork_path is None,
            },
    {
        opt_str(&self.artwork_path)
    }

    pub fn source_osu_path(&self) -> (r: &str)
        ensures
            r@ == self.source_osu_path@,
    {
        self.source_osu_path.as_str()
    }
}

/// The imported songs, each identifier at most once when built through `upsert`.
#[derive(Debug, Clone, PartialEq, Eq)]
pub struct ImportedSongCatalog {
    pub songs: Vec<ImportedSongCatalogEntry>,
}

/// Index of the first song with identifier `id`, or the length when there is none.
pub open spec fn index_of_id(songs: Seq<ImportedSongCatalogEntry>, id: Seq<char>) -> int
    decreases songs.len(),
{
    if songs.len() == 0 {
        0
    } else if songs[0].id@ == id {
        0
    } else {
        1 + index_of_id(songs.drop_first(), id)
    }
}

/// The songs after `e` is put in: it replaces the first song with its identifier, or
/// is added at the end.
pub open spec fn upsert_spec(songs: Seq<ImportedSongCatalogEntry>, e: ImportedSongCatalogEntry) -> Seq<
    ImportedSongCatalogEntry,
> {
    let i = index_of_id(songs, e.id@);
    if i < songs.len() {
        songs.update(i, e)
    } else {
        songs.push(e)
    }
}

/// No identifier occurs twice.
pub open spec fn ids_unique(songs: Seq<ImportedSongCatalogEntry>) -> bool {
    forall|i: int, j: int| 0 <= i < j < songs.len() ==> (#[trigger] songs[i]).id@ != (#[trigger] songs[j]).id@
}

proof fn lemma_index_of_id(songs: Seq<ImportedSongCatalogEntry>, id: Seq<char>, k: int)
    requires
        0 <= k <= songs.len(),
        forall|i: int| 0 <= i < k ==> (#[trigger] songs[i]).id@ != id,
        k == songs.len() || songs[k].id@ == id,
    ensures
        index_of_id(songs, id) == k,
    decreases k,
{
    if k > 0 {
        assert forall|i: int| 0 <= i < k - 1 implies (#[trigger] songs.drop_first()[i]).id@ != id by {
            assert(songs.drop_first()[i] == songs[i + 1]);
        }
        if k < songs.len() {
            assert(songs.drop_first()[k - 1] == songs[k]);
        }
        lemma_index_of_id(songs.drop_first(), id, k - 1);
    }
}

proof fn lemma_index_of_id_bounds(songs: Seq<ImportedSongCatalogEntry>, id: Seq<char>)
    ensures
        0 <= index_of_id(songs, id) <= songs.len(),
        index_of_id(songs, id) < songs.len() ==> songs[index_of_id(songs, id)].id@ == id,
        forall|i: int| 0 <= i < index_of_id(songs, id) ==> (#[trigger] songs[i]).id@ != id,
    decreases songs.len(),
{
    if songs.len() > 0 && songs[0].id@ != id {
        let d = songs.drop_first();
        lemma_index_of_id_bounds(d, id);
        assert forall|i: int| 0 <= i < index_of_id(songs, id) implies (#[trigger] songs[i]).id@ != id by {
            if i > 0 {
                assert(songs[i] == d[i - 1]);
            }
        }
        if index_of_id(songs, id) < songs.len() {
            assert(songs[index_of_id(songs, id)] == d[index_of_id(d, id)]);
        }
    }
}

fn find_index(songs: &Vec<ImportedSongCatalogEntry>, id: &String) -> (r: usize)
    ensures
        r == index_of_id(songs@, id@),
        r <= songs@.len(),
{
    let mut i: usize = 0;
    while i < songs.len() && !(songs[i].id == *id)
        invariant
            i <= songs@.len(),
            forall|k: int| 0 <= k < i ==> (#[trigger] songs@[k]).id@ != id@,
        decreases songs.len() - i,
    {
        i = i + 1;
    }
    proof {
        lemma_index_of_id(songs@, id@, i as int);
    }
    i
}

impl ImportedSongCatalog {
    pub fn songs(&self) -> (r: &[ImportedSongCatalogEntry])
        ensures
            r@ == self.songs@,
    {
        self.songs.as_slice()
    }

    /// Puts `entry` in: it replaces the song with the same identifier, or is added at the end.
    pub fn upsert(&mut self, entry: ImportedSongCatalogEntry)
        ensures
            final(self).songs@ == upsert_spec(old(self).songs@, entry),
    {
        let i = find_index(&self.songs, &entry.id);
        if i < self.songs.len() {
            self.songs.set(i, entry);
        } else {
            self.songs.push(entry);
        }
    }

    /// The first song with identifier `id`.
    pub fn song(&self, id: &str) -> (r: Option<&ImportedSongCatalogEntry>)
        ensures
            index_of_id(self.songs@, id@) < self.songs@.len() ==> r == Some(
                &self.songs@[index_of_id(self.songs@, id@)],
            ),
            index_of_id(self.songs@, id@) == self.songs@.len() ==> r is None,
    {
        let key = id.to_owned();
        let i = find_index(&self.songs, &key);
        if i < self.songs.len() {
            Some(&self.songs[i])
        } else {
            None
        }
    }
}

impl Default for ImportedSongCatalog {
    /// The empty catalog.
    fn default() -> (c: Self)
        ensures
            c.songs@ == Seq::<ImportedSongCatalogEntry>::empty(),
    {
        ImportedSongCatalog { songs: Vec::new() }
    }
}

/// After `upsert(e)`, looking up `e`'s identifier finds `e`.
pub proof fn lemma_upsert_then_lookup(songs: Seq<ImportedSongCatalogEntry>, e: ImportedSongCatalogEntry)
    ensures
        index_of_id(upsert_spec(songs, e), e.id@) < upsert_spec(songs, e).len(),
        upsert_spec(songs, e)[index_of_id(upsert_spec(songs, e), e.id@)] == e,
{
    lemma_index_of_id_bounds(songs, e.id@);
    let i = index_of_id(songs, e.id@);
    let r = upsert_spec(songs, e);
    assert forall|k: int| 0 <= k < i implies (#[trigger] r[k]).id@ != e.id@ by {
        assert(r[k] == songs[k]);
    }
    lemma_index_of_id(r, e.id@, i);
}

/// `upsert` keeps identifiers unique, and changes no other song: a known identifier
/// keeps its place, a new one is added at the end.
pub proof fn lemma_upsert_keeps_ids_unique(songs: Seq<ImportedSongCatalogEntry>, e: ImportedSongCatalogEntry)
    requires
        ids_unique(songs),
    ensures
        ids_unique(upsert_spec(songs, e)),
        forall|k: int|
            0 <= k < songs.len() && (#[trigger] songs[k]).id@ != e.id@ ==> upsert_spec(songs, e)[k]
                == songs[k],
        upsert_spec(songs, e).len() == songs.len() + (if index_of_id(songs, e.id@) < songs.len() {
            0int
        } else {
            1int
        }),
{
    lemma_index_of_id_bounds(songs, e.id@);
    let i = index_of_id(songs, e.id@);
    let r = upsert_spec(songs, e);
    assert forall|a: int, b: int| 0 <= a < b < r.len() implies (#[trigger] r[a]).id@ != (
    #[trigger] r[b]).id@ by {
        if i < songs.len() {
            if a == i {
                assert(songs[a].id@ == e.id@);
            } else if b == i {
                assert(songs[b].id@ == e.id@);
            }
        } else {
            if b == songs.len() {
                assert(r[a] == songs[a]);
            }
        }
    }
}

} // verus!
