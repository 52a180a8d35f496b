//! Timed key events and the mapping between keys and lanes.
use vstd::prelude::*;
use crate::clock::GameTime;
use crate::keymap::Keymap;
use crate::text::str_eq;

verus! {

#[derive(Debug, Clone, Copy, PartialEq, Eq, Structural)]
pub enum InputAction {
    Press,
    Release,
}

#[derive(Debug, Clone)]
pub struct InputEvent {
    pub key: String,
    pub timestamp: GameTime,
    pub action: InputAction,
}

/// The inputs of one play, with the keymap they were made with.
#[derive(Debug, Clone)]
pub struct ReplayInput {
    pub keymap: Keymap,
    pub events: Vec<InputEvent>,
}

impl InputEvent {
    pub fn new(key: &str, timestamp_ms: i64, action: InputAction) -> (e: Self)
        ensures
            e.key@ == key@,
            e.timestamp.ms() == timestamp_ms,
            e.action == action,
    {
        Self { key: String::from_str(key), timestamp: GameTime::from_millis(timestamp_ms), action }
    }

    pub fn press(key: &str, timestamp_ms: i64) -> (e: Self)
        ensures
            e.key@ == key@,
            e.timestamp.ms() == timestamp_ms,
            e.action == InputAction::Press,
    {
        Self::new(key, timestamp_ms, InputAction::Press)
    }

    pub fn release(key: &str, timestamp_ms: i64) -> (e: Self)
        ensures
            e.key@ == key@,
            e.timestamp.ms() == timestamp_ms,
            e.action == InputAction::Release,
    {
        Self::new(key, timestamp_ms, InputAction::Release)
    }
}

impl ReplayInput {
    pub fn new(keymap: Keymap, events: Vec<InputEvent>) -> (r: Self)
        ensures
            r.keymap.key_views() == keymap.key_views(),
            r.events@ == events@,
    {
        Self { keymap, events }
    }
}

/// The first lane whose key is `key`.
pub open spec fn lane_of(keys: Seq<Seq<char>>, key: Seq<char>) -> Option<u8>
    decreases keys.len(),
{
    if keys.len() == 0 {
        None
    } else if keys.last() == key && (keys.len() - 1) <= u8::MAX {
        match lane_of(keys.drop_last(), key) {
            Some(l) => Some(l),
            None => Some((keys.len() - 1) as u8),
        }
    } else {
        lane_of(keys.drop_last(), key)
    }
}

proof fn lemma_lane_of_prefix(keys: Seq<Seq<char>>, key: Seq<char>, i: int)
    requires
        0 <= i < keys.len(),
        keys.len() <= 255,
        forall|k: int| 0 <= k < i ==> keys[k] != key,
    ensures
        keys[i] == key ==> lane_of(keys.take(i + 1), key) == Some(i as u8),
        keys[i] != key ==> lane_of(keys.take(i + 1), key) is None,
    decreases i,
{
    let t = keys.take(i + 1);
    assert(t.drop_last() =~= keys.take(i));
    if i > 0 {
        lemma_lane_of_prefix(keys, key, i - 1);
        assert(keys.take(i) =~= keys.take(i - 1 + 1));
    } else {
        assert(keys.take(0) =~= Seq::<Seq<char>>::empty());
    }
}

/// The lane played by `key`, if any.
pub fn lane_for_key(keymap: &Keymap, key: &str) -> (r: Option<u8>)
    ensures
        r == lane_of(keymap.key_views(), key@),
{
    let keys = keymap.keys();
    let mut i: usize = 0;
    while i < keys.len()
        invariant
            keys@.map_values(|k: String| k@) == keymap.key_views(),
            keys@.len() == 6,
            i <= keys@.len(),
            forall|k: int| 0 <= k < i ==> keymap.key_views()[k] != key@,
            lane_of(keymap.key_views().take(i as int), key@) is None,
        decreases keys.len() - i,
    {
        let views = Ghost(keymap.key_views());
        assert(views@[i as int] == keys@[i as int]@);
        proof {
            lemma_lane_of_prefix(views@, key@, i as int);
        }
        if str_eq(keys[i].as_str(), key) {
            proof {
                lemma_lane_of_take(views@, key@, i + 1);
            }
            return Some(i as u8);
        }
        i = i + 1;
    }
    assert(keymap.key_views().take(6) =~= keymap.key_views());
    None
}

proof fn lemma_lane_of_take(keys: Seq<Seq<char>>, key: Seq<char>, n: int)
    requires
        0 < n <= keys.len(),
        keys.len() <= 255,
        lane_of(keys.take(n), key) is Some,
    ensures
        lane_of(keys, key) == lane_of(keys.take(n), key),
    decreases keys.len() - n,
{
    if n < keys.len() {
        let t = keys.take(n + 1);
        assert(t.drop_last() =~= keys.take(n));
        assert(lane_of(t, key) == lane_of(keys.take(n), key));
        lemma_lane_of_take(keys, key, n + 1);
    } else {
        assert(keys.take(n) =~= keys);
    }
}

/// The key that plays `lane`, if the lane exists.
pub fn key_for_lane(keymap: &Keymap, lane: u8) -> (r: Option<&str>)
    ensures
        (lane as int) < keymap.key_views().len() ==> (r matches Some(k) && k@ == keymap.key_views()[lane as int]),
        (lane as int) >= keymap.key_views().len() ==> r is None,
{
    let keys = keymap.keys();
    if (lane as usize) < keys.len() {
        assert(keys@[lane as int]@ == keymap.key_views()[lane as int]);
        Some(keys[lane as usize].as_str())
    } else {
        None
    }
}


/// With keys that all differ, a key plays the lane it was given to: the key of a lane
/// (`key_for_lane`) leads back to that lane (`lane_for_key`), which is how autoplay's
/// inputs reach their notes.
pub proof fn lemma_key_of_lane_plays_it(keymap: Keymap, lane: u8)
    requires
        (lane as int) < keymap.key_views().len() <= 255,
        forall|i: int, j: int|
            0 <= i < j < keymap.key_views().len() ==> keymap.key_views()[i] != keymap.key_views()[j],
    ensures
        lane_of(keymap.key_views(), keymap.key_views()[lane as int]) == Some(lane),
{
    let keys = keymap.key_views();
    let key = keys[lane as int];
    assert forall|k: int| 0 <= k < lane implies keys[k] != key by {
        assert(keys[k] != keys[lane as int]);
    }
    lemma_lane_of_prefix(keys, key, lane as int);
    lemma_lane_of_take(keys, key, lane + 1);
}

proof fn lemma_lane_of_in_range(keys: Seq<Seq<char>>, key: Seq<char>)
    ensures
        lane_of(keys, key) matches Some(l) ==> (l as int) < keys.len(),
    decreases keys.len(),
{
    if keys.len() > 0 {
        lemma_lane_of_in_range(keys.drop_last(), key);
    }
}

/// Whatever the keys, the key of a lane (`key_for_lane`) plays a lane
/// (`lane_for_key`), and never one above it: the first lane bound to that key.
pub proof fn lemma_key_of_lane_plays_first_match(keymap: Keymap, lane: u8)
    requires
        (lane as int) < keymap.key_views().len() <= 255,
    ensures
        lane_of(keymap.key_views(), keymap.key_views()[lane as int]) matches Some(l) && l <= lane,
{
    let keys = keymap.key_views();
    let key = keys[lane as int];
    let t = keys.take(lane + 1);
    assert(t.last() == key);
    lemma_lane_of_in_range(t.drop_last(), key);
    assert(lane_of(t, key) matches Some(l) && l <= lane);
    lemma_lane_of_take(keys, key, lane + 1);
}

} // verus!
