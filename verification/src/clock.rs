//! Game time in milliseconds.
use vstd::prelude::*;
use std::cmp::Ordering;
use vstd::std_specs::cmp::{PartialOrdIs, PartialOrdSpecImpl};

verus! {

#[derive(Debug, Clone, Copy, PartialEq, Eq, Ord, Hash, Structural)]
pub struct GameTime(i64);

impl GameTime {
    pub closed spec fn ms(self) -> i64 {
        self.0
    }

    pub fn from_millis(millis: i64) -> (t: Self)
        ensures
            t.ms() == millis,
    {
        Self(millis)
    }

    pub fn as_millis(self) -> (m: i64)
        ensures
            m == self.ms(),
    {
        self.0
    }
}

impl From<i64> for GameTime {
    fn from(millis: i64) -> (t: Self)
        ensures
            t.ms() == millis,
    {
        Self::from_millis(millis)
    }
}

impl vstd::std_specs::convert::FromSpecImpl<i64> for GameTime {
    open spec fn obeys_from_spec() -> bool {
        true
    }

    closed spec fn from_spec(millis: i64) -> Self {
        GameTime(millis)
    }
}

impl From<u32> for GameTime {
    fn from(millis: u32) -> (t: Self)
        ensures
            t.ms() == millis as i64,
    {
        Self::from_millis(millis as i64)
    }
}

impl vstd::std_specs::convert::FromSpecImpl<u32> for GameTime {
    open spec fn obeys_from_spec() -> bool {
        true
    }

    closed spec fn from_spec(millis: u32) -> Self {
        GameTime(millis as i64)
    }
}

/// Game times are ordered by their milliseconds.
pub open spec fn time_order(a: i64, b: i64) -> Option<Ordering> {
    if a < b {
        Some(Ordering::Less)
    } else if a == b {
        Some(Ordering::Equal)
    } else {
        Some(Ordering::Greater)
    }
}

impl PartialOrd for GameTime {
    fn partial_cmp(&self, other: &Self) -> (r: Option<Ordering>) {
        if self.0 < other.0 {
            Some(Ordering::Less)
        } else if self.0 == other.0 {
            Some(Ordering::Equal)
        } else {
            Some(Ordering::Greater)
        }
    }
}

impl PartialOrdSpecImpl for GameTime {
    open spec fn obeys_partial_cmp_spec() -> bool {
        true
    }

    open spec fn partial_cmp_spec(&self, other: &Self) -> Option<Ordering> {
        time_order(self.ms(), other.ms())
    }
}

/// Law: one game time comes before another exactly when its milliseconds are fewer.
pub proof fn lemma_game_time_order(x: GameTime, y: GameTime)
    ensures
        x.is_lt(&y) <==> x.ms() < y.ms(),
        x.is_le(&y) <==> x.ms() <= y.ms(),
        x.is_gt(&y) <==> x.ms() > y.ms(),
        x.is_ge(&y) <==> x.ms() >= y.ms(),
{
}

} // verus!
