//! The six keys that play the six lanes.
use vstd::prelude::*;
use crate::text::{
    decimal, is_word, join, lemma_words_are_words, lemma_words_of_join, push_char, push_decimal,
    split_whitespace_chars, str_chars, string_from_chars, words,
};

verus! {

/// Number of keys (and lanes) of a keymap.
pub const KEY_COUNT: usize = 6;

#[derive(Debug, PartialEq, Eq)]
pub struct Keymap {
    keys: Vec<String>,
}

#[derive(Debug, Clone, PartialEq, Eq, Structural)]
pub enum KeymapParseError {
    InvalidKeyCount { expected: usize, found: usize },
}

impl Keymap {
    /// Every keymap has six keys, each a word: some characters, no whitespace.
    #[verifier::type_invariant]
    pub closed spec fn valid(self) -> bool {
        &&& self.keys@.len() == KEY_COUNT
        &&& forall|i: int| 0 <= i < self.keys@.len() ==> is_word(#[trigger] self.keys@[i]@)
    }

    /// The keys of lanes 0 to 5, as characters.
    pub closed spec fn key_views(self) -> Seq<Seq<char>> {
        self.keys@.map_values(|k: String| k@)
    }

    /// Reads six whitespace-separated keys.
    pub fn parse(input: &str) -> (r: Result<Self, KeymapParseError>)
        ensures
            words(input@).len() == KEY_COUNT ==> (r matches Ok(k) && k.key_views() == words(input@)),
            words(input@).len() != KEY_COUNT ==> r == Err::<Self, KeymapParseError>(
                KeymapParseError::InvalidKeyCount { expected: KEY_COUNT, found: words(input@).len() as usize },
            ),
    {
        let chars = str_chars(input);
        let parts = split_whitespace_chars(&chars);
        if parts.len() != KEY_COUNT {
            return Err(KeymapParseError::InvalidKeyCount { expected: KEY_COUNT, found: parts.len() });
        }
        let mut keys: Vec<String> = Vec::new();
        let mut i: usize = 0;
        while i < parts.len()
            invariant
                i <= parts@.len(),
                keys@.map_values(|k: String| k@) == parts@.take(i as int).map_values(|w: Vec<char>| w@),
            decreases parts.len() - i,
        {
            let ghost before = keys@;
            let key = string_from_chars(parts[i].as_slice());
            keys.push(key);
            proof {
                assert(keys@.map_values(|k: String| k@) =~= before.map_values(|k: String| k@).push(
                    key@,
                ));
                assert(parts@.take(i + 1).map_values(|w: Vec<char>| w@) =~= parts@.take(
                    i as int,
                ).map_values(|w: Vec<char>| w@).push(parts@[i as int]@));
            }
            i = i + 1;
        }
        assert(parts@.take(parts@.len() as int) =~= parts@);
        proof {
            lemma_words_are_words(input@);
            assert forall|i: int| 0 <= i < keys@.len() implies is_word(#[trigger] keys@[i]@) by {
                assert(keys@.map_values(|k: String| k@)[i] == keys@[i]@);
                assert(words(input@)[i] == keys@[i]@);
            }
        }
        Ok(Self { keys })
    }

    /// The keys joined by single spaces.
    pub fn as_string(&self) -> (s: String)
        ensures
            s@ == join(self.key_views(), seq![' ']),
    {
        let mut out = String::new();
        let mut i: usize = 0;
        while i < self.keys.len()
            invariant
                i <= self.keys@.len(),
                out@ == join(self.key_views().take(i as int), seq![' ']),
            decreases self.keys.len() - i,
        {
            let ghost before = out@;
            if i > 0 {
                push_char(&mut out, ' ');
            }
            let key = str_chars(self.keys[i].as_str());
            let mut j: usize = 0;
            let ghost mid = out@;
            while j < key.len()
                invariant
                    j <= key@.len(),
                    out@ == mid + key@.take(j as int),
                decreases key.len() - j,
            {
                push_char(&mut out, key[j]);
                j = j + 1;
                assert(out@ =~= mid + key@.take(j as int));
            }
            proof {
                assert(key@.take(key@.len() as int) =~= key@);
                let t = self.key_views().take(i + 1);
                assert(t.drop_last() =~= self.key_views().take(i as int));
                assert(t.last() == key@);
                if i > 0 {
                    assert(out@ =~= join(self.key_views().take(i as int), seq![' ']) + seq![' ']
                        + key@);
                } else {
                    assert(t.len() == 1);
                    assert(out@ =~= key@);
                }
            }
            i = i + 1;
        }
        assert(self.key_views().take(self.keys@.len() as int) =~= self.key_views());
        out
    }

    pub fn keys(&self) -> (r: &[String])
        ensures
            r@.map_values(|k: String| k@) == self.key_views(),
            r@.len() == KEY_COUNT,
            forall|i: int| 0 <= i < r@.len() ==> is_word(#[trigger] r@[i]@),
    {
        proof {
            use_type_invariant(self);
        }
        self.keys.as_slice()
    }
}

fn single_char_string(c: char) -> (s: String)
    ensures
        s@ == seq![c],
{
    let mut s = String::new();
    push_char(&mut s, c);
    assert(s@ =~= seq![c]);
    s
}

impl Clone for Keymap {
    fn clone(&self) -> (k: Self)
        ensures
            k.key_views() == self.key_views(),
    {
        proof {
            use_type_invariant(self);
        }
        let keys = self.keys.clone();
        assert(keys@.map_values(|k: String| k@) =~= self.keys@.map_values(|k: String| k@));
        Keymap { keys }
    }
}

impl Default for Keymap {
    /// The home-row layout `S D F J K L`.
    fn default() -> (k: Self)
        ensures
            k.key_views() == seq![seq!['S'], seq!['D'], seq!['F'], seq!['J'], seq!['K'], seq!['L']],
    {
        let mut keys: Vec<String> = Vec::new();
        keys.push(single_char_string('S'));
        keys.push(single_char_string('D'));
        keys.push(single_char_string('F'));
        keys.push(single_char_string('J'));
        keys.push(single_char_string('K'));
        keys.push(single_char_string('L'));
        proof {
            assert forall|i: int| 0 <= i < keys@.len() implies is_word(#[trigger] keys@[i]@) by {
                assert(keys@[i]@.len() == 1);
            }
        }
        let k = Self { keys };
        assert(k.key_views() =~= seq![seq!['S'], seq!['D'], seq!['F'], seq!['J'], seq!['K'], seq!['L']]);
        k
    }
}

/// A keymap written out as text, its keys joined by spaces, reads back as the same
/// keys: the settings file keeps the keymap as it was.
pub proof fn lemma_keymap_text_roundtrip(k: Keymap)
    requires
        k.valid(),
    ensures
        words(join(k.key_views(), seq![' '])) == k.key_views(),
        words(join(k.key_views(), seq![' '])).len() == KEY_COUNT,
{
    assert forall|i: int| 0 <= i < k.key_views().len() implies is_word(#[trigger] k.key_views()[i]) by {
        assert(k.key_views()[i] == k.keys@[i]@);
    }
    lemma_words_of_join(k.key_views());
}

pub open spec fn key_count_message(expected: nat, found: nat) -> Seq<char> {
    "keymap must contain exactly "@ + decimal(expected) + " keys, got "@ + decimal(found)
}

impl KeymapParseError {
    /// The error's description.
    pub fn message(&self) -> (m: String)
        ensures
            match self {
                KeymapParseError::InvalidKeyCount { expected, found } => m@ == key_count_message(
                    *expected as nat,
                    *found as nat,
                ),
            },
    {
        match self {
            KeymapParseError::InvalidKeyCount { expected, found } => {
                let mut out: Vec<char> = str_chars("keymap must contain exactly ");
                push_decimal(&mut out, *expected as u64);
                let tail = str_chars(" keys, got ");
                let mut i: usize = 0;
                let ghost mid = out@;
                while i < tail.len()
                    invariant
                        i <= tail@.len(),
                        out@ == mid + tail@.take(i as int),
                    decreases tail.len() - i,
                {
                    out.push(tail[i]);
                    i = i + 1;
                    assert(out@ =~= mid + tail@.take(i as int));
                }
                assert(tail@.take(tail@.len() as int) =~= tail@);
                push_decimal(&mut out, *found as u64);
                string_from_chars(out.as_slice())
            },
        }
    }
}

} // verus!
