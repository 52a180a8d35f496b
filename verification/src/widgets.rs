//! Small view helpers of the shell: labels, glyphs, list windows and cover art seeds.
use vstd::prelude::*;
use core::ops::Range;
use crate::judgment::Judgment;
use crate::text::{
    is_ascii_alnum, is_ascii_alphanumeric, push_decimal, push_str_chars, split_whitespace_chars,
    str_chars, string_from_chars, to_ascii_upper, ascii_upper, words, decimal,
};

verus! {

pub open spec fn judgment_label(j: Judgment) -> Seq<char> {
    match j {
        Judgment::Perfect => "PERFECT"@,
        Judgment::Great => "GREAT"@,
        Judgment::Good => "GOOD"@,
        Judgment::Miss => "MISS"@,
    }
}

pub fn format_judgment_label(judgment: Judgment) -> (l: &'static str)
    ensures
        l@ == judgment_label(judgment),
{
    match judgment {
        Judgment::Perfect => "PERFECT",
        Judgment::Great => "GREAT",
        Judgment::Good => "GOOD",
        Judgment::Miss => "MISS",
    }
}

pub fn lane_fill_glyph(active: bool) -> (c: char)
    ensures
        c == (if active { '#' } else { '.' }),
{
    if active {
        '#'
    } else {
        '.'
    }
}

/// The first ASCII letter or digit of a word.
pub open spec fn first_alnum(w: Seq<char>) -> Option<char>
    decreases w.len(),
{
    if w.len() == 0 {
        None
    } else if is_ascii_alnum(w[0]) {
        Some(w[0])
    } else {
        first_alnum(w.drop_first())
    }
}

/// The upper-cased first letter or digit of each word that has one.
pub open spec fn initials(ws: Seq<Seq<char>>) -> Seq<char>
    decreases ws.len(),
{
    if ws.len() == 0 {
        seq![]
    } else {
        match first_alnum(ws[0]) {
            Some(c) => seq![ascii_upper(c)] + initials(ws.drop_first()),
            None => initials(ws.drop_first()),
        }
    }
}

/// Up to two initials of a title, or `C` when it has none.
pub open spec fn cover_initials_spec(title: Seq<char>) -> Seq<char> {
    let all = initials(words(title));
    if all.len() == 0 {
        seq!['C']
    } else if all.len() <= 2 {
        all
    } else {
        all.take(2)
    }
}

fn first_alnum_exec(w: &Vec<char>) -> (r: Option<char>)
    ensures
        r == first_alnum(w@),
{
    let mut i: usize = 0;
    assert(w@.skip(0) =~= w@);
    while i < w.len()
        invariant
            i <= w@.len(),
            first_alnum(w@.skip(i as int)) == first_alnum(w@),
        decreases w.len() - i,
    {
        assert(w@.skip(i as int)[0] == w@[i as int]);
        if is_ascii_alphanumeric(w[i]) {
            return Some(w[i]);
        }
        assert(w@.skip(i as int).drop_first() =~= w@.skip(i + 1));
        i = i + 1;
    }
    None
}

pub fn cover_initials(title: &str) -> (s: String)
    ensures
        s@ == cover_initials_spec(title@),
{
    let chars = str_chars(title);
    let ws = split_whitespace_chars(&chars);
    let ghost all_words = ws@.map_values(|w: Vec<char>| w@);
    let mut letters: Vec<char> = Vec::new();
    let mut i: usize = 0;
    assert(all_words.skip(0) =~= all_words);
    assert(letters@ + initials(all_words) =~= initials(all_words));
    while i < ws.len() && letters.len() < 2
        invariant
            i <= ws@.len(),
            all_words == ws@.map_values(|w: Vec<char>| w@),
            all_words == words(title@),
            letters@.len() <= 2,
            letters@ + initials(all_words.skip(i as int)) == initials(all_words),
        decreases ws.len() - i,
    {
        proof {
            let rest = all_words.skip(i as int);
            assert(rest[0] == ws@[i as int]@);
            assert(rest.drop_first() =~= all_words.skip(i + 1));
        }
        match first_alnum_exec(&ws[i]) {
            Some(c) => {
                let ghost before = letters@;
                letters.push(to_ascii_upper(c));
                assert(before + (seq![ascii_upper(c)] + initials(all_words.skip(i + 1))) =~= letters@
                    + initials(all_words.skip(i + 1)));
            },
            None => {},
        }
        i = i + 1;
    }
    proof {
        let all = initials(all_words);
        if i == ws.len() {
            assert(all_words.skip(i as int) =~= Seq::<Seq<char>>::empty());
            assert(letters@ =~= all);
        } else {
            assert(letters@.len() == 2);
            assert(all.take(2) =~= letters@);
        }
    }
    if letters.len() == 0 {
        letters.push('C');
        assert(letters@ =~= seq!['C']);
    }
    string_from_chars(letters.as_slice())
}

/// The FNV-style seed of a title's UTF-8 bytes.
pub open spec fn hash_seed_spec(bytes: Seq<u8>) -> u32
    decreases bytes.len(),
{
    if bytes.len() == 0 {
        2166136261
    } else {
        hash_seed_spec(bytes.drop_last()).wrapping_mul(16777619) ^ (bytes.last() as u32)
    }
}

pub fn hash_seed(value: &str) -> (h: u32)
    ensures
        h == hash_seed_spec(crate::theme::utf8(value@)),
{
    let bytes = value.as_bytes();
    let mut hash: u32 = 2166136261;
    let mut i: usize = 0;
    while i < bytes.len()
        invariant
            i <= bytes@.len(),
            bytes@ == crate::theme::utf8(value@),
            hash == hash_seed_spec(bytes@.take(i as int)),
        decreases bytes.len() - i,
    {
        proof {
            assert(bytes@.take(i + 1).drop_last() =~= bytes@.take(i as int));
        }
        hash = hash.wrapping_mul(16777619) ^ (bytes[i] as u32);
        i = i + 1;
    }
    assert(bytes@.take(bytes@.len() as int) =~= bytes@);
    hash
}

/// Rust's truncating division by ten.
pub open spec fn div10_toward_zero(x: int) -> int {
    if x >= 0 {
        x / 10
    } else {
        -((-x) / 10)
    }
}

/// Position of the offset marker on the 25-cell calibration bar.
pub open spec fn offset_marker(offset_ms: int) -> int {
    let i = 12 + div10_toward_zero(offset_ms);
    if i < 0 {
        0
    } else if i > 24 {
        24
    } else {
        i
    }
}

/// The calibration bar: dots, the center line at cell 12, and the marker.
pub open spec fn offset_bar_spec(offset_ms: int) -> Seq<char> {
    Seq::new(
        25,
        |i: int|
            if i == offset_marker(offset_ms) {
                '◆'
            } else if i == 12 {
                '│'
            } else {
                '·'
            },
    )
}

pub fn offset_bar(offset_ms: i32) -> (s: String)
    ensures
        s@ == offset_bar_spec(offset_ms as int),
{
    let mut chars: Vec<char> = Vec::new();
    let mut i: usize = 0;
    while i < 25
        invariant
            i <= 25,
            chars@.len() == i,
            forall|k: int| 0 <= k < i ==> chars@[k] == '·',
        decreases 25 - i,
    {
        chars.push('·');
        i = i + 1;
    }
    chars.set(12, '│');
    let o: i64 = offset_ms as i64;
    let tenth: i64 = if o >= 0 {
        o / 10
    } else {
        -((-o) / 10)
    };
    let raw: i64 = 12 + tenth;
    let index: usize = if raw < 0 {
        0
    } else if raw > 24 {
        24
    } else {
        raw as usize
    };
    chars.set(index, '◆');
    assert(chars@ =~= offset_bar_spec(offset_ms as int));
    string_from_chars(chars.as_slice())
}

/// How many list entries of `item_height` rows fit in `list_height` rows (at least one).
pub open spec fn visible_count_spec(list_height: int, item_height: int) -> int {
    let h = if item_height < 1 {
        1
    } else {
        item_height
    };
    if list_height / h < 1 {
        1
    } else {
        list_height / h
    }
}

pub fn visible_list_count(list_height: u16, item_height: u16) -> (n: usize)
    ensures
        n == visible_count_spec(list_height as int, item_height as int),
{
    let h: u16 = if item_height < 1 {
        1
    } else {
        item_height
    };
    let q = list_height / h;
    if q < 1 {
        1
    } else {
        q as usize
    }
}

/// The window of a list kept on screen: everything when it fits, otherwise
/// `visible_count` entries around the selection, clamped to the list.
pub open spec fn visible_window(total: int, selected: int, visible_count: int) -> (int, int) {
    if total <= visible_count {
        (0, total)
    } else {
        let half = visible_count / 2;
        let start = if selected > half {
            selected - half
        } else {
            0
        };
        let max_start = total - visible_count;
        let s = if start > max_start {
            max_start
        } else {
            start
        };
        (s, s + visible_count)
    }
}

pub fn visible_range(total: usize, selected_index: usize, visible_count: usize) -> (r: Range<usize>)
    ensures
        (r.start as int, r.end as int) == visible_window(
            total as int,
            selected_index as int,
            visible_count as int,
        ),
{
    if total <= visible_count {
        return 0..total;
    }
    let half = visible_count / 2;
    let mut start = selected_index.saturating_sub(half);
    let max_start = total.saturating_sub(visible_count);
    if start > max_start {
        start = max_start;
    }
    start..(start + visible_count)
}

/// Law: the visible window stays inside the list, has the requested size
/// when the list is longer, and contains the selection whenever the
/// selection is inside the list.
pub proof fn lemma_visible_window_bounds(total: int, selected: int, visible_count: int)
    requires
        0 <= total,
        0 <= selected,
        0 <= visible_count,
    ensures
        ({
            let (s, e) = visible_window(total, selected, visible_count);
            &&& 0 <= s <= e <= total
            &&& total > visible_count ==> e - s == visible_count
            &&& total <= visible_count ==> (s == 0 && e == total)
            &&& (selected < total && visible_count > 0) ==> s <= selected < e
        }),
{
}

pub fn visible_result_count(result_height: u16, item_height: u16) -> (n: usize)
    ensures
        n == visible_count_spec(result_height as int, item_height as int),
{
    visible_list_count(result_height, item_height)
}

pub fn visible_result_range(total: usize, selected_index: usize, visible_count: usize) -> (r: Range<usize>)
    ensures
        (r.start as int, r.end as int) == visible_window(
            total as int,
            selected_index as int,
            visible_count as int,
        ),
{
    visible_range(total, selected_index, visible_count)
}

pub open spec fn status_line_spec(best_score: Option<u32>, play_count: u32) -> Seq<char> {
    "Best "@ + match best_score {
        Some(score) => decimal(score as nat),
        None => "-"@,
    } + "   "@ + decimal(play_count as nat) + " plays"@
}

/// `Best <score or ->   <plays> plays`.
pub fn selection_status_line(best_score: Option<u32>, play_count: u32) -> (s: String)
    ensures
        s@ == status_line_spec(best_score, play_count),
{
    let mut out: Vec<char> = Vec::new();
    push_str_chars(&mut out, "Best ");
    match best_score {
        Some(score) => push_decimal(&mut out, score as u64),
        None => push_str_chars(&mut out, "-"),
    }
    push_str_chars(&mut out, "   ");
    push_decimal(&mut out, play_count as u64);
    push_str_chars(&mut out, " plays");
    assert(out@ =~= status_line_spec(best_score, play_count));
    string_from_chars(out.as_slice())
}

pub fn shell_support_line(has_artwork: bool) -> (l: &'static str)
    ensures
        l@ == (if has_artwork { "Image preview ready"@ } else { "Text preview"@ }),
{
    if has_artwork {
        "Image preview ready"
    } else {
        "Text preview"
    }
}

} // verus!
