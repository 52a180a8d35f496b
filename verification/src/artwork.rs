//! Finding the cover image of a song among the files of its folder.
use vstd::prelude::*;
use crate::text::{chars_eq_str, chars_to_ascii_lower, lower_all, str_chars, string_from_chars};

verus! {

/// Index of the last `c` in `s`, or -1.
pub open spec fn rfind_char(s: Seq<char>, c: char) -> int
    decreases s.len(),
{
    if s.len() == 0 {
        -1
    } else if s.last() == c {
        s.len() - 1
    } else {
        rfind_char(s.drop_last(), c)
    }
}

/// The extension of a file name, as `Path::extension` gives it: the text after the
/// last dot, unless the name has no dot, starts with its only dot, or is `..`.
pub open spec fn file_extension(name: Seq<char>) -> Option<Seq<char>> {
    let k = rfind_char(name, '.');
    if name == seq!['.', '.'] || k <= 0 {
        None
    } else {
        Some(name.skip(k + 1))
    }
}

/// The stem of a file name, as `Path::file_stem` gives it: the name without its
/// extension and the dot before it.
pub open spec fn file_stem(name: Seq<char>) -> Seq<char> {
    let k = rfind_char(name, '.');
    if name == seq!['.', '.'] || k <= 0 {
        name
    } else {
        name.take(k)
    }
}

proof fn lemma_rfind_char(s: Seq<char>, c: char, k: int)
    requires
        -1 <= k < s.len(),
        forall|i: int| k < i < s.len() ==> #[trigger] s[i] != c,
        k == -1 || s[k] == c,
    ensures
        rfind_char(s, c) == k,
    decreases s.len(),
{
    if s.len() > 0 && k < s.len() - 1 {
        assert forall|i: int| k < i < s.len() - 1 implies #[trigger] s.drop_last()[i] != c by {
            assert(s.drop_last()[i] == s[i]);
        }
        if k >= 0 {
            assert(s.drop_last()[k] == s[k]);
        }
        lemma_rfind_char(s.drop_last(), c, k);
    }
}

/// `(stem, extension)` of a file name.
pub fn split_file_name(name: &Vec<char>) -> (r: (Vec<char>, Option<Vec<char>>))
    ensures
        r.0@ == file_stem(name@),
        match r.1 {
            Some(e) => file_extension(name@) == Some(e@),
            None => file_extension(name@) is None,
        },
{
    let n = name.len();
    let mut k: usize = n;
    while k > 0 && name[k - 1] != '.'
        invariant
            k <= n,
            n == name@.len(),
            forall|i: int| k <= i < n ==> #[trigger] name@[i] != '.',
        decreases k,
    {
        k = k - 1;
    }
    proof {
        if k > 0 {
            lemma_rfind_char(name@, '.', k - 1);
        } else {
            lemma_rfind_char(name@, '.', -1);
        }
    }
    let dotdot = n == 2 && name[0] == '.' && name[1] == '.';
    assert(dotdot == (name@ == seq!['.', '.'])) by {
        if name@ == seq!['.', '.'] {
            assert(name@[0] == '.' && name@[1] == '.');
        }
        if dotdot {
            assert(name@ =~= seq!['.', '.']);
        }
    }
    if dotdot || k <= 1 {
        assert(name@.subrange(0, n as int) =~= name@);
        (crate::text::chars_range(name, 0, n), None)
    } else {
        let stem = crate::text::chars_range(name, 0, k - 1);
        let ext = crate::text::chars_range(name, k, n);
        assert(stem@ =~= name@.take(k - 1));
        assert(ext@ =~= name@.skip(k as int));
        (stem, Some(ext))
    }
}

/// The image formats a cover can have, by file extension in any case.
pub open spec fn is_image_extension_spec(ext: Seq<char>) -> bool {
    let l = lower_all(ext);
    l == "png"@ || l == "jpg"@ || l == "jpeg"@ || l == "webp"@
}

/// Whether a file name has the extension of an image format.
pub open spec fn is_image_name(name: Seq<char>) -> bool {
    match file_extension(name) {
        Some(e) => is_image_extension_spec(e),
        None => false,
    }
}

fn ext_is_image(e: &Vec<char>) -> (r: bool)
    ensures
        r == is_image_extension_spec(e@),
{
    let l = chars_to_ascii_lower(e);
    chars_eq_str(&l, "png") || chars_eq_str(&l, "jpg") || chars_eq_str(&l, "jpeg") || chars_eq_str(
        &l,
        "webp",
    )
}

/// Whether the file name has the extension of an image format.
pub fn is_image_file_name(name: &str) -> (r: bool)
    ensures
        r == is_image_name(name@),
{
    let cs = str_chars(name);
    let (_, ext) = split_file_name(&cs);
    match ext {
        Some(e) => ext_is_image(&e),
        None => false,
    }
}

/// The artwork path itself when its file name names an image a cover can be shown from.
pub fn resolve_image_artwork_path(path: &str, file_name: &str) -> (r: Option<String>)
    ensures
        is_image_name(file_name@) ==> (r matches Some(s) && s@ == path@),
        !is_image_name(file_name@) ==> r is None,
{
    if is_image_file_name(file_name) {
        Some(path.to_owned())
    } else {
        None
    }
}

/// Lexicographic order of character sequences (the order of `str` and of the file
/// names of one folder).
pub open spec fn seq_lt(a: Seq<char>, b: Seq<char>) -> bool
    decreases a.len(),
{
    if a.len() == 0 {
        b.len() > 0
    } else if b.len() == 0 {
        false
    } else if a[0] != b[0] {
        a[0] < b[0]
    } else {
        seq_lt(a.drop_first(), b.drop_first())
    }
}

proof fn lemma_seq_lt_irreflexive(a: Seq<char>)
    ensures
        !seq_lt(a, a),
    decreases a.len(),
{
    if a.len() > 0 {
        lemma_seq_lt_irreflexive(a.drop_first());
    }
}

proof fn lemma_seq_lt_transitive(a: Seq<char>, b: Seq<char>, c: Seq<char>)
    requires
        seq_lt(a, b),
        seq_lt(b, c),
    ensures
        seq_lt(a, c),
    decreases a.len(),
{
    if a.len() > 0 && b.len() > 0 && c.len() > 0 && a[0] == b[0] && b[0] == c[0] {
        lemma_seq_lt_transitive(a.drop_first(), b.drop_first(), c.drop_first());
    }
}

/// Whether `a` comes before `b`.
pub fn chars_lt(a: &Vec<char>, b: &Vec<char>) -> (r: bool)
    ensures
        r == seq_lt(a@, b@),
{
    let mut i: usize = 0;
    assert(a@.skip(0) =~= a@);
    assert(b@.skip(0) =~= b@);
    while i < a.len() && i < b.len() && a[i] == b[i]
        invariant
            i <= a@.len(),
            i <= b@.len(),
            seq_lt(a@, b@) == seq_lt(a@.skip(i as int), b@.skip(i as int)),
        decreases a.len() - i,
    {
        assert(a@.skip(i as int).drop_first() =~= a@.skip(i + 1));
        assert(b@.skip(i as int).drop_first() =~= b@.skip(i + 1));
        i = i + 1;
    }
    if i < a.len() && i < b.len() {
        assert(a@.skip(i as int)[0] == a@[i as int]);
        assert(b@.skip(i as int)[0] == b@[i as int]);
    }
    if i == a.len() {
        i < b.len()
    } else if i == b.len() {
        false
    } else {
        a[i] < b[i]
    }
}

/// `i` is the first of the earliest entries, in text order, among those `pick` admits.
pub open spec fn is_first_least(es: Seq<Seq<char>>, pick: spec_fn(int) -> bool, i: int) -> bool {
    &&& 0 <= i < es.len()
    &&& pick(i)
    &&& forall|j: int| 0 <= j < es.len() && #[trigger] pick(j) ==> !seq_lt(es[j], es[i])
    &&& forall|j: int| 0 <= j < i && #[trigger] pick(j) ==> es[j] != es[i]
}

pub open spec fn none_picked(es: Seq<Seq<char>>, pick: spec_fn(int) -> bool) -> bool {
    forall|j: int| 0 <= j < es.len() ==> !#[trigger] pick(j)
}

/// The cover picked among the file names of a song folder: the first image, in name
/// order, whose stem is that of the audio file or of the beatmap file; failing that the
/// first image in name order.
pub open spec fn artwork_choice(es: Seq<Seq<char>>, audio_stem: Seq<char>, osu_stem: Seq<char>, i: int) -> bool {
    let image = |j: int| is_image_name(es[j]);
    let matching = |j: int|
        is_image_name(es[j]) && (file_stem(es[j]) == audio_stem || file_stem(es[j]) == osu_stem);
    if !none_picked(es, matching) {
        is_first_least(es, matching, i)
    } else {
        is_first_least(es, image, i)
    }
}

proof fn lemma_pick_congruent(es: Seq<Seq<char>>, p1: spec_fn(int) -> bool, p2: spec_fn(int) -> bool, i: int)
    requires
        forall|j: int| 0 <= j < es.len() ==> #[trigger] p1(j) == p2(j),
    ensures
        is_first_least(es, p1, i) ==> is_first_least(es, p2, i),
        none_picked(es, p1) ==> none_picked(es, p2),
{
    if is_first_least(es, p1, i) {
        assert(p1(i) == p2(i));
        assert forall|j: int| 0 <= j < es.len() && #[trigger] p2(j) implies !seq_lt(es[j], es[i]) by {
            assert(p1(j));
        }
        assert forall|j: int| 0 <= j < i && #[trigger] p2(j) implies es[j] != es[i] by {
            assert(p1(j));
        }
    }
    if none_picked(es, p1) {
        assert forall|j: int| 0 <= j < es.len() implies !#[trigger] p2(j) by {
            assert(!p1(j));
        }
    }
}

/// Index of the first least entry, in text order, among those `flags` marks.
fn first_least(es: &Vec<Vec<char>>, flags: &Vec<bool>) -> (r: Option<usize>)
    requires
        flags@.len() == es@.len(),
    ensures
        match r {
            Some(i) => is_first_least(es@.map_values(|w: Vec<char>| w@), |j: int| flags@[j], i as int),
            None => none_picked(es@.map_values(|w: Vec<char>| w@), |j: int| flags@[j]),
        },
{
    let ghost ev = es@.map_values(|w: Vec<char>| w@);
    let ghost pick = |j: int| flags@[j];
    let mut best: Option<usize> = None;
    let mut k: usize = 0;
    while k < es.len()
        invariant
            k <= es@.len(),
            flags@.len() == es@.len(),
            ev == es@.map_values(|w: Vec<char>| w@),
            pick == (|j: int| flags@[j]),
            match best {
                Some(i) => i < k && flags@[i as int] && (forall|j: int|
                    0 <= j < k && #[trigger] flags@[j] ==> !seq_lt(ev[j], ev[i as int])) && (forall|
                    j: int,
                | 0 <= j < i && #[trigger] flags@[j] ==> ev[j] != ev[i as int]),
                None => forall|j: int| 0 <= j < k ==> !#[trigger] flags@[j],
            },
        decreases es.len() - k,
    {
        if flags[k] {
            match best {
                None => {
                    proof {
                        lemma_seq_lt_irreflexive(ev[k as int]);
                    }
                    best = Some(k);
                },
                Some(b) => {
                    assert(ev[k as int] == es@[k as int]@ && ev[b as int] == es@[b as int]@);
                    if chars_lt(&es[k], &es[b]) {
                        proof {
                            assert forall|j: int| 0 <= j < k + 1 && #[trigger] flags@[j] implies !seq_lt(
                                ev[j],
                                ev[k as int],
                            ) by {
                                if j < k && seq_lt(ev[j], ev[k as int]) {
                                    lemma_seq_lt_transitive(ev[j], ev[k as int], ev[b as int]);
                                }
                                if j == k {
                                    lemma_seq_lt_irreflexive(ev[k as int]);
                                }
                            }
                            assert forall|j: int| 0 <= j < k && #[trigger] flags@[j] implies ev[j]
                                != ev[k as int] by {
                                if ev[j] == ev[k as int] {
                                    assert(seq_lt(ev[j], ev[b as int]));
                                }
                            }
                        }
                        best = Some(k);
                    }
                },
            }
        }
        k = k + 1;
    }
    proof {
        match best {
            Some(i) => {
                assert(is_first_least(ev, pick, i as int));
            },
            None => {
                assert(none_picked(ev, pick));
            },
        }
    }
    best
}

/// The first image, in name order, among the file names of a folder; none when no
/// name is an image's.
pub fn first_image(entries: &Vec<String>) -> (r: Option<usize>)
    ensures
        match r {
            Some(i) => is_first_least(
                entries@.map_values(|s: String| s@),
                |j: int| is_image_name(entries@[j]@),
                i as int,
            ),
            None => forall|j: int| 0 <= j < entries@.len() ==> !is_image_name(#[trigger] entries@[j]@),
        },
{
    let ghost es = entries@.map_values(|s: String| s@);
    let mut names: Vec<Vec<char>> = Vec::new();
    let mut images: Vec<bool> = Vec::new();
    let mut k: usize = 0;
    while k < entries.len()
        invariant
            k <= entries@.len(),
            es == entries@.map_values(|s: String| s@),
            names@.len() == k && images@.len() == k,
            forall|j: int| 0 <= j < k ==> (#[trigger] names@[j])@ == es[j],
            forall|j: int| 0 <= j < k ==> #[trigger] images@[j] == is_image_name(es[j]),
        decreases entries.len() - k,
    {
        let name = str_chars(entries[k].as_str());
        assert(es[k as int] == name@);
        let (_, ext) = split_file_name(&name);
        let image = match ext {
            Some(e) => ext_is_image(&e),
            None => false,
        };
        names.push(name);
        images.push(image);
        k = k + 1;
    }
    let ghost nv = names@.map_values(|w: Vec<char>| w@);
    assert(nv =~= es);
    let found = first_least(&names, &images);
    proof {
        let image = |j: int| is_image_name(entries@[j]@);
        lemma_pick_congruent(es, |j: int| images@[j], image, match found {
            Some(i) => i as int,
            None => 0,
        });
        if found is None {
            assert(none_picked(es, image));
            assert forall|j: int| 0 <= j < entries@.len() implies !is_image_name(#[trigger] entries@[j]@) by {
                assert(!image(j));
            }
        }
    }
    found
}

/// Picks the cover of a song among the file names of its folder (see
/// `artwork_choice`); `audio_name` and `osu_name` are the file names of the song's audio
/// and beatmap files, whose stems an image may share. Within one folder, name order is
/// the order of the paths.
pub fn discover_artwork(entries: &Vec<String>, audio_name: &str, osu_name: &str) -> (r: Option<usize>)
    ensures
        match r {
            Some(i) => artwork_choice(
                entries@.map_values(|s: String| s@),
                file_stem(audio_name@),
                file_stem(osu_name@),
                i as int,
            ),
            None => forall|j: int| 0 <= j < entries@.len() ==> !is_image_name(#[trigger] entries@[j]@),
        },
{
    let (audio_stem, _) = split_file_name(&str_chars(audio_name));
    let (osu_stem, _) = split_file_name(&str_chars(osu_name));
    let ghost es = entries@.map_values(|s: String| s@);
    let ghost m = |j: int|
        is_image_name(es[j]) && (file_stem(es[j]) == file_stem(audio_name@) || file_stem(es[j])
            == file_stem(osu_name@));
    let ghost im = |j: int| is_image_name(es[j]);
    let mut names: Vec<Vec<char>> = Vec::new();
    let mut images: Vec<bool> = Vec::new();
    let mut matching: Vec<bool> = Vec::new();
    let mut k: usize = 0;
    while k < entries.len()
        invariant
            k <= entries@.len(),
            es == entries@.map_values(|s: String| s@),
            audio_stem@ == file_stem(audio_name@),
            osu_stem@ == file_stem(osu_name@),
            m == (|j: int|
                is_image_name(es[j]) && (file_stem(es[j]) == file_stem(audio_name@) || file_stem(
                    es[j],
                ) == file_stem(osu_name@))),
            im == (|j: int| is_image_name(es[j])),
            names@.len() == k && images@.len() == k && matching@.len() == k,
            forall|j: int| 0 <= j < k ==> (#[trigger] names@[j])@ == es[j],
            forall|j: int| 0 <= j < k ==> #[trigger] images@[j] == im(j),
            forall|j: int| 0 <= j < k ==> #[trigger] matching@[j] == m(j),
        decreases entries.len() - k,
    {
        let name = str_chars(entries[k].as_str());
        assert(es[k as int] == name@);
        let (stem, ext) = split_file_name(&name);
        let image = match ext {
            Some(e) => ext_is_image(&e),
            None => false,
        };
        let hit = image && (crate::text::chars_eq(stem.as_slice(), audio_stem.as_slice())
            || crate::text::chars_eq(stem.as_slice(), osu_stem.as_slice()));
        names.push(name);
        images.push(image);
        matching.push(hit);
        k = k + 1;
    }
    let ghost nv = names@.map_values(|w: Vec<char>| w@);
    assert(nv =~= es);
    let found = first_least(&names, &matching);
    let ghost f = |j: int| matching@[j];
    assert forall|j: int| 0 <= j < es.len() implies #[trigger] f(j) == m(j) by {}
    match found {
        Some(i) => {
            proof {
                lemma_pick_congruent(es, f, m, i as int);
                assert(m(i as int));
            }
            Some(i)
        },
        None => {
            let any = first_least(&names, &images);
            proof {
                lemma_pick_congruent(es, f, m, 0);
                let g = |j: int| images@[j];
                assert forall|j: int| 0 <= j < es.len() implies #[trigger] g(j) == im(j) by {}
                match any {
                    Some(i) => {
                        lemma_pick_congruent(es, g, im, i as int);
                    },
                    None => {
                        lemma_pick_congruent(es, g, im, 0);
                        assert forall|j: int| 0 <= j < entries@.len() implies !is_image_name(
                            #[trigger] entries@[j]@,
                        ) by {
                            assert(es[j] == entries@[j]@);
                            assert(!im(j));
                        }
                    },
                }
            }
            any
        },
    }
}

} // verus!
