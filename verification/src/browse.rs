//! Browsing the song lists: sort orders, the unified search, and small helpers.
use vstd::prelude::*;
use crate::artwork::seq_lt;
use crate::chart::{Note};
use crate::navigation::BrowseSortMode;
use crate::text::{chars_eq_str, chars_to_ascii_lower, lower_all, str_chars, trim, trim_chars};

verus! {

/// Options of a run of the game.
#[derive(Debug, Clone, Copy, PartialEq, Eq, Structural)]
pub struct DemoLaunchOptions {
    pub autoplay: bool,
}

impl Default for DemoLaunchOptions {
    /// Autoplay off.
    fn default() -> (r: Self)
        ensures
            r.autoplay == false,
    {
        DemoLaunchOptions { autoplay: false }
    }
}

/// The facts of a song that browsing sorts and searches by.
#[derive(Debug, Clone)]
pub struct SongFacts {
    pub id: String,
    pub title: String,
    pub artist: String,
    pub chart_name: String,
    pub mood: String,
    pub bpm: u16,
    pub difficulty: u8,
}

pub struct FactsView {
    pub id: Seq<char>,
    pub title: Seq<char>,
    pub artist: Seq<char>,
    pub chart_name: Seq<char>,
    pub mood: Seq<char>,
    pub bpm: u16,
    pub difficulty: u8,
}

impl View for SongFacts {
    type V = FactsView;

    open spec fn view(&self) -> FactsView {
        FactsView {
            id: self.id@,
            title: self.title@,
            artist: self.artist@,
            chart_name: self.chart_name@,
            mood: self.mood@,
            bpm: self.bpm,
            difficulty: self.difficulty,
        }
    }
}

// ---------------------------------------------------------------------------
// Sort orders.
// ---------------------------------------------------------------------------

/// Whether `a` sorts strictly before `b` in the given mode: by id; by title, artist
/// and chart name; or by tempo (or difficulty), then title and chart name.
pub open spec fn facts_lt(mode: BrowseSortMode, a: FactsView, b: FactsView) -> bool {
    match mode {
        BrowseSortMode::Default => seq_lt(a.id, b.id),
        BrowseSortMode::Title => seq_lt(a.title, b.title) || (a.title == b.title && (seq_lt(
            a.artist,
            b.artist,
        ) || (a.artist == b.artist && seq_lt(a.chart_name, b.chart_name)))),
        BrowseSortMode::Bpm => a.bpm < b.bpm || (a.bpm == b.bpm && (seq_lt(a.title, b.title) || (
        a.title == b.title && seq_lt(a.chart_name, b.chart_name)))),
        BrowseSortMode::Difficulty => a.difficulty < b.difficulty || (a.difficulty == b.difficulty
            && (seq_lt(a.title, b.title) || (a.title == b.title && seq_lt(
            a.chart_name,
            b.chart_name,
        )))),
    }
}

/// Inserts index `k` after every index whose song does not sort after song `k`.
pub open spec fn insert_song(s: Seq<int>, fs: Seq<FactsView>, mode: BrowseSortMode, k: int) -> Seq<int>
    decreases s.len(),
{
    if s.len() == 0 {
        seq![k]
    } else if !facts_lt(mode, fs[k], fs[s.last()]) {
        s.push(k)
    } else {
        insert_song(s.drop_last(), fs, mode, k).push(s.last())
    }
}

/// The indices of the first `n` songs in the order of the mode; songs that compare
/// equal keep their list order.
pub open spec fn browse_order_spec(fs: Seq<FactsView>, mode: BrowseSortMode, n: int) -> Seq<int>
    decreases n,
{
    if n <= 0 {
        seq![]
    } else {
        insert_song(browse_order_spec(fs, mode, n - 1), fs, mode, n - 1)
    }
}

fn str_lt(a: &String, b: &String) -> (r: bool)
    ensures
        r == seq_lt(a@, b@),
{
    crate::artwork::chars_lt(&str_chars(a.as_str()), &str_chars(b.as_str()))
}

fn str_same(a: &String, b: &String) -> (r: bool)
    ensures
        r == (a@ == b@),
{
    crate::text::str_eq(a.as_str(), b.as_str())
}

/// Whether song `a` sorts strictly before song `b`.
pub fn song_lt(mode: BrowseSortMode, a: &SongFacts, b: &SongFacts) -> (r: bool)
    ensures
        r == facts_lt(mode, a@, b@),
{
    match mode {
        BrowseSortMode::Default => str_lt(&a.id, &b.id),
        BrowseSortMode::Title => str_lt(&a.title, &b.title) || (str_same(&a.title, &b.title) && (
        str_lt(&a.artist, &b.artist) || (str_same(&a.artist, &b.artist) && str_lt(
            &a.chart_name,
            &b.chart_name,
        )))),
        BrowseSortMode::Bpm => a.bpm < b.bpm || (a.bpm == b.bpm && (str_lt(&a.title, &b.title) || (
        str_same(&a.title, &b.title) && str_lt(&a.chart_name, &b.chart_name)))),
        BrowseSortMode::Difficulty => a.difficulty < b.difficulty || (a.difficulty == b.difficulty
            && (str_lt(&a.title, &b.title) || (str_same(&a.title, &b.title) && str_lt(
            &a.chart_name,
            &b.chart_name,
        )))),
    }
}

pub open spec fn facts_of(songs: Seq<SongFacts>) -> Seq<FactsView> {
    songs.map_values(|s: SongFacts| s@)
}

pub open spec fn idx_ints(v: Seq<usize>) -> Seq<int> {
    v.map_values(|x: usize| x as int)
}

proof fn lemma_insert_song_at(s: Seq<int>, fs: Seq<FactsView>, mode: BrowseSortMode, k: int, p: int)
    requires
        0 <= p <= s.len(),
        forall|q: int| p <= q < s.len() ==> facts_lt(mode, fs[k], fs[#[trigger] s[q]]),
        p == 0 || !facts_lt(mode, fs[k], fs[s[p - 1]]),
    ensures
        insert_song(s, fs, mode, k) == s.take(p).push(k) + s.skip(p),
    decreases s.len(),
{
    if s.len() == 0 {
        assert(s.take(p).push(k) + s.skip(p) =~= seq![k]);
    } else if p == s.len() {
        assert(s.take(p) =~= s);
        assert(s.take(p).push(k) + s.skip(p) =~= s.push(k));
    } else {
        let d = s.drop_last();
        assert forall|q: int| p <= q < d.len() implies facts_lt(mode, fs[k], fs[#[trigger] d[q]]) by {
            assert(d[q] == s[q]);
        }
        if p > 0 {
            assert(d[p - 1] == s[p - 1]);
        }
        lemma_insert_song_at(d, fs, mode, k, p);
        assert(d.take(p) =~= s.take(p));
        assert(d.take(p).push(k) + d.skip(p) + seq![s.last()] =~= s.take(p).push(k) + s.skip(p));
    }
}

/// The order in which the songs are listed in the given sort mode, as indices into
/// `songs` (a stable sort).
pub fn browse_order(songs: &Vec<SongFacts>, mode: BrowseSortMode) -> (r: Vec<usize>)
    ensures
        idx_ints(r@) == browse_order_spec(facts_of(songs@), mode, songs@.len() as int),
        r@.len() == songs@.len(),
        forall|q: int| 0 <= q < r@.len() ==> #[trigger] r@[q] < songs@.len(),
{
    let ghost fs = facts_of(songs@);
    let mut order: Vec<usize> = Vec::new();
    let mut k: usize = 0;
    while k < songs.len()
        invariant
            k <= songs@.len(),
            fs == facts_of(songs@),
            idx_ints(order@) == browse_order_spec(fs, mode, k as int),
            order@.len() == k,
            forall|q: int| 0 <= q < order@.len() ==> #[trigger] order@[q] < k,
        decreases songs.len() - k,
    {
        let mut p: usize = order.len();
        while p > 0 && song_lt(mode, &songs[k], &songs[order[p - 1]])
            invariant
                p <= order@.len(),
                k < songs@.len(),
                fs == facts_of(songs@),
                forall|q: int| 0 <= q < order@.len() ==> #[trigger] order@[q] < k,
                forall|q: int|
                    p <= q < order@.len() ==> facts_lt(
                        mode,
                        fs[k as int],
                        fs[#[trigger] order@[q] as int],
                    ),
            decreases p,
        {
            assert(fs[order@[p - 1] as int] == songs@[order@[p - 1] as int]@);
            p = p - 1;
        }
        proof {
            let s = idx_ints(order@);
            assert(fs[k as int] == songs@[k as int]@);
            assert forall|q: int| p <= q < s.len() implies facts_lt(mode, fs[k as int], fs[#[trigger] s[q]]) by {
                assert(s[q] == order@[q] as int);
            }
            if p > 0 {
                assert(s[p - 1] == order@[p - 1] as int);
                assert(fs[order@[p - 1] as int] == songs@[order@[p - 1] as int]@);
            }
            lemma_insert_song_at(s, fs, mode, k as int, p as int);
        }
        let ghost before = order@;
        order.insert(p, k);
        proof {
            assert(idx_ints(order@) =~= idx_ints(before).take(p as int).push(k as int) + idx_ints(
                before,
            ).skip(p as int));
            assert forall|q: int| 0 <= q < order@.len() implies #[trigger] order@[q] < k + 1 by {
                if q < p {
                    assert(order@[q] == before[q]);
                } else if q > p {
                    assert(order@[q] == before[q - 1]);
                }
            }
        }
        k = k + 1;
    }
    order
}

/// Index of the song with identifier `id`, or 0 when there is none.
pub open spec fn song_index_spec(songs: Seq<FactsView>, id: Seq<char>) -> int
    decreases songs.len(),
{
    if songs.len() == 0 {
        0
    } else if songs[0].id == id {
        0
    } else {
        let r = song_index_spec(songs.drop_first(), id);
        if exists|i: int| 0 <= i < songs.len() && songs[i].id == id {
            1 + r
        } else {
            0
        }
    }
}

/// Index of the first song with identifier `id`, or 0 when there is none.
pub fn find_song_index(songs: &Vec<SongFacts>, id: &str) -> (r: usize)
    ensures
        (exists|i: int| 0 <= i < songs@.len() && songs@[i].id@ == id@) ==> (r < songs@.len()
            && songs@[r as int].id@ == id@ && forall|i: int|
            0 <= i < r ==> (#[trigger] songs@[i]).id@ != id@),
        !(exists|i: int| 0 <= i < songs@.len() && songs@[i].id@ == id@) ==> r == 0,
{
    let mut i: usize = 0;
    while i < songs.len()
        invariant
            i <= songs@.len(),
            forall|k: int| 0 <= k < i ==> (#[trigger] songs@[k]).id@ != id@,
        decreases songs.len() - i,
    {
        if crate::text::str_eq(songs[i].id.as_str(), id) {
            return i;
        }
        i = i + 1;
    }
    0
}

// ---------------------------------------------------------------------------
// The unified search.
// ---------------------------------------------------------------------------

/// Whether `q` occurs in `s`.
pub open spec fn contains_seq(s: Seq<char>, q: Seq<char>) -> bool {
    exists|i: int| 0 <= i <= s.len() - q.len() && #[trigger] s.subrange(i, i + q.len()) == q
}

/// Whether a song matches a query that is already trimmed and lower-cased: an empty
/// query matches all; otherwise it must occur in the ASCII-lower-cased title, artist,
/// chart name or mood.
pub open spec fn matches_query(f: FactsView, q: Seq<char>) -> bool {
    q.len() == 0 || contains_seq(lower_all(f.title), q) || contains_seq(lower_all(f.artist), q)
        || contains_seq(lower_all(f.chart_name), q) || contains_seq(lower_all(f.mood), q)
}

fn contains_chars(s: &Vec<char>, q: &Vec<char>) -> (r: bool)
    ensures
        r == contains_seq(s@, q@),
{
    if q.len() == 0 {
        assert(s@.subrange(0, 0 + q@.len() as int) =~= q@);
        return true;
    }
    if q.len() > s.len() {
        return false;
    }
    let mut i: usize = 0;
    while i <= s.len() - q.len()
        invariant
            1 <= q@.len() <= s@.len(),
            i <= s@.len() - q@.len() + 1,
            forall|k: int| 0 <= k < i ==> #[trigger] s@.subrange(k, k + q@.len()) != q@,
        decreases s.len() - q.len() + 1 - i,
    {
        let piece = crate::text::chars_range(s, i, i + q.len());
        if crate::text::chars_eq(piece.as_slice(), q.as_slice()) {
            return true;
        }
        i = i + 1;
    }
    false
}

fn field_matches(field: &String, q: &Vec<char>) -> (r: bool)
    ensures
        r == contains_seq(lower_all(field@), q@),
{
    let cs = str_chars(field.as_str());
    let l = chars_to_ascii_lower(&cs);
    contains_chars(&l, q)
}

/// Whether the song matches the (trimmed, lower-cased) query.
pub fn search_matches(song: &SongFacts, query: &Vec<char>) -> (r: bool)
    ensures
        r == matches_query(song@, query@),
{
    if query.len() == 0 {
        return true;
    }
    field_matches(&song.title, query) || field_matches(&song.artist, query) || field_matches(
        &song.chart_name,
        query,
    ) || field_matches(&song.mood, query)
}

/// Which list a song is in.
#[derive(Debug, Clone, Copy, PartialEq, Eq, Structural)]
pub enum ChartLibrary {
    Bundled,
    Imported,
}

/// A search hit: a song of a list, by index.
#[derive(Debug, Clone, Copy, PartialEq, Eq, Structural)]
pub struct SearchResult {
    pub library: ChartLibrary,
    pub index: usize,
}

/// The hits among the first `n` songs of a list, in list order.
pub open spec fn hits_in(fs: Seq<FactsView>, q: Seq<char>, library: ChartLibrary, n: int) -> Seq<
    SearchResult,
>
    decreases n,
{
    if n <= 0 {
        seq![]
    } else if matches_query(fs[n - 1], q) {
        hits_in(fs, q, library, n - 1).push(SearchResult { library, index: (n - 1) as usize })
    } else {
        hits_in(fs, q, library, n - 1)
    }
}

/// The query as the search compares it: trimmed and ASCII-lower-cased.
pub open spec fn normalized_query(query: Seq<char>) -> Seq<char> {
    lower_all(trim(query))
}

/// The hits of a search over both lists: bundled songs first, each list in its order.
pub open spec fn search_results_spec(
    bundled: Seq<FactsView>,
    imported: Seq<FactsView>,
    query: Seq<char>,
) -> Seq<SearchResult> {
    let q = normalized_query(query);
    hits_in(bundled, q, ChartLibrary::Bundled, bundled.len() as int) + hits_in(
        imported,
        q,
        ChartLibrary::Imported,
        imported.len() as int,
    )
}

fn push_hits(out: &mut Vec<SearchResult>, songs: &Vec<SongFacts>, q: &Vec<char>, library: ChartLibrary)
    ensures
        final(out)@ == old(out)@ + hits_in(facts_of(songs@), q@, library, songs@.len() as int),
{
    let ghost start = out@;
    let ghost fs = facts_of(songs@);
    let mut i: usize = 0;
    while i < songs.len()
        invariant
            i <= songs@.len(),
            fs == facts_of(songs@),
            out@ == start + hits_in(fs, q@, library, i as int),
        decreases songs.len() - i,
    {
        assert(fs[i as int] == songs@[i as int]@);
        if search_matches(&songs[i], q) {
            out.push(SearchResult { library, index: i });
            assert(out@ =~= start + hits_in(fs, q@, library, i + 1));
        }
        i = i + 1;
    }
}

/// The hits of a search for `query` over both lists.
pub fn search_results(bundled: &Vec<SongFacts>, imported: &Vec<SongFacts>, query: &str) -> (r: Vec<
    SearchResult,
>)
    ensures
        r@ == search_results_spec(facts_of(bundled@), facts_of(imported@), query@),
{
    let raw = str_chars(query);
    let t = trim_chars(&raw);
    let q = chars_to_ascii_lower(&t);
    let mut out: Vec<SearchResult> = Vec::new();
    push_hits(&mut out, bundled, &q, ChartLibrary::Bundled);
    push_hits(&mut out, imported, &q, ChartLibrary::Imported);
    assert(out@ =~= search_results_spec(facts_of(bundled@), facts_of(imported@), query@));
    out
}

/// The selection kept after the hits change: clamped to the last hit (0 when none).
pub fn clamp_selection(selected: usize, len: usize) -> (r: usize)
    ensures
        r == (if len == 0 {
            0
        } else if selected < len {
            selected as int
        } else {
            len - 1
        }),
{
    let top = if len == 0 {
        0
    } else {
        len - 1
    };
    if selected < top {
        selected
    } else {
        top
    }
}

/// The label of a list in search rows.
pub fn library_label(library: ChartLibrary) -> (r: &'static str)
    ensures
        r@ == (match library {
            ChartLibrary::Bundled => "Bundled"@,
            ChartLibrary::Imported => "Imported"@,
        }),
{
    match library {
        ChartLibrary::Bundled => "Bundled",
        ChartLibrary::Imported => "Imported",
    }
}

/// One row of the search result list.
#[derive(Debug, Clone, Copy)]
pub struct SearchResultRow<'a> {
    pub source: &'a str,
    pub title: &'a str,
    pub artist: &'a str,
    pub chart_name: &'a str,
    pub mood: &'a str,
    pub bpm: u16,
    pub difficulty: u8,
}

/// The row that shows a hit.
pub fn search_result_row<'a>(library: ChartLibrary, song: &'a SongFacts) -> (r: SearchResultRow<'a>)
    ensures
        r.source@ == (match library {
            ChartLibrary::Bundled => "Bundled"@,
            ChartLibrary::Imported => "Imported"@,
        }),
        r.title@ == song.title@,
        r.artist@ == song.artist@,
        r.chart_name@ == song.chart_name@,
        r.mood@ == song.mood@,
        r.bpm == song.bpm,
        r.difficulty == song.difficulty,
{
    SearchResultRow {
        source: library_label(library),
        title: song.title.as_str(),
        artist: song.artist.as_str(),
        chart_name: song.chart_name.as_str(),
        mood: song.mood.as_str(),
        bpm: song.bpm,
        difficulty: song.difficulty,
    }
}

// ---------------------------------------------------------------------------
// Chart length.
// ---------------------------------------------------------------------------

/// When a note is over: a tap at its time, a hold at its end.
pub open spec fn note_end(n: Note) -> int {
    match n {
        Note::Tap(t) => t.time_ms as int,
        Note::Hold(h) => h.end_ms as int,
    }
}

/// The latest end of the first `k` notes, 0 for none.
pub open spec fn latest_end(s: Seq<Note>, k: int) -> int
    decreases k,
{
    if k <= 0 {
        0
    } else {
        let m = latest_end(s, k - 1);
        if k == 1 || note_end(s[k - 1]) > m {
            note_end(s[k - 1])
        } else {
            m
        }
    }
}

/// How long a chart lasts: the latest end of its notes, 0 when it has none.
pub fn chart_duration_ms(notes: &Vec<Note>) -> (r: i64)
    ensures
        r == latest_end(notes@, notes@.len() as int),
{
    let mut best: i64 = 0;
    let mut i: usize = 0;
    while i < notes.len()
        invariant
            i <= notes@.len(),
            best == latest_end(notes@, i as int),
            0 <= best <= u32::MAX,
        decreases notes.len() - i,
    {
        let end: i64 = match notes[i] {
            Note::Tap(t) => t.time_ms as i64,
            Note::Hold(h) => h.end_ms as i64,
        };
        if i == 0 || end > best {
            best = end;
        }
        i = i + 1;
    }
    best
}

/// Whether `q` stands at some position of `s`.
pub open spec fn occurs_in(s: Seq<char>, q: Seq<char>) -> bool {
    exists|at: int| 0 <= at && at + q.len() <= s.len() && #[trigger] s.subrange(at, at + q.len()) == q
}

/// Law: a song matches a non-empty query exactly when the query occurs somewhere in
/// its ASCII-lower-cased title, artist, chart name or mood; the empty query matches
/// every song.
pub proof fn lemma_match_where_query_occurs(f: FactsView, q: Seq<char>)
    ensures
        q.len() == 0 ==> matches_query(f, q),
        forall|at: int|
            0 <= at && at + q.len() <= lower_all(f.title).len() && #[trigger] lower_all(
                f.title,
            ).subrange(at, at + q.len()) == q ==> matches_query(f, q),
        forall|at: int|
            0 <= at && at + q.len() <= lower_all(f.artist).len() && #[trigger] lower_all(
                f.artist,
            ).subrange(at, at + q.len()) == q ==> matches_query(f, q),
        forall|at: int|
            0 <= at && at + q.len() <= lower_all(f.chart_name).len() && #[trigger] lower_all(
                f.chart_name,
            ).subrange(at, at + q.len()) == q ==> matches_query(f, q),
        forall|at: int|
            0 <= at && at + q.len() <= lower_all(f.mood).len() && #[trigger] lower_all(
                f.mood,
            ).subrange(at, at + q.len()) == q ==> matches_query(f, q),
        q.len() > 0 && matches_query(f, q) ==> occurs_in(lower_all(f.title), q) || occurs_in(
            lower_all(f.artist),
            q,
        ) || occurs_in(lower_all(f.chart_name), q) || occurs_in(lower_all(f.mood), q),
{
}

} // verus!
