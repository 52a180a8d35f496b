//! Timing windows and the judgment a key press earns.
use vstd::prelude::*;

verus! {

/// The grade given to one resolved part of a note.
#[derive(Debug, Clone, Copy, PartialEq, Eq, Structural)]
pub enum Judgment {
    Perfect,
    Great,
    Good,
    Miss,
}

/// Points awarded for a judgment.
pub open spec fn judgment_points(j: Judgment) -> u32 {
    match j {
        Judgment::Perfect => 1000,
        Judgment::Great => 800,
        Judgment::Good => 500,
        Judgment::Miss => 0,
    }
}

impl Judgment {
    pub fn points(self) -> (p: u32)
        ensures
            p == judgment_points(self),
    {
        match self {
            Judgment::Perfect => 1000,
            Judgment::Great => 800,
            Judgment::Good => 500,
            Judgment::Miss => 0,
        }
    }

    pub fn is_hit(self) -> (b: bool)
        ensures
            b == !(self is Miss),
    {
        !matches!(self, Judgment::Miss)
    }
}

/// Symmetric windows (in milliseconds) around a note's time.
#[derive(Debug, Clone, Copy, PartialEq, Eq, Structural)]
pub struct JudgmentWindows {
    perfect_ms: i64,
    great_ms: i64,
    good_ms: i64,
}

/// The judgment for a signed offset under the given windows.
pub open spec fn classify(perfect_ms: int, great_ms: int, good_ms: int, offset: int) -> Judgment {
    let distance = if offset < 0 { -offset } else { offset };
    if distance <= perfect_ms {
        Judgment::Perfect
    } else if distance <= great_ms {
        Judgment::Great
    } else if distance <= good_ms {
        Judgment::Good
    } else {
        Judgment::Miss
    }
}

impl JudgmentWindows {
    pub closed spec fn spec_perfect_ms(self) -> i64 {
        self.perfect_ms
    }

    pub closed spec fn spec_great_ms(self) -> i64 {
        self.great_ms
    }

    pub closed spec fn spec_good_ms(self) -> i64 {
        self.good_ms
    }

    pub open spec fn classify_spec(self, offset: int) -> Judgment {
        classify(
            self.spec_perfect_ms() as int,
            self.spec_great_ms() as int,
            self.spec_good_ms() as int,
            offset,
        )
    }

    pub fn new(perfect_ms: i64, great_ms: i64, good_ms: i64) -> (w: Self)
        ensures
            w.spec_perfect_ms() == perfect_ms,
            w.spec_great_ms() == great_ms,
            w.spec_good_ms() == good_ms,
    {
        Self { perfect_ms, great_ms, good_ms }
    }

    pub fn perfect_ms(self) -> (v: i64)
        ensures
            v == self.spec_perfect_ms(),
    {
        self.perfect_ms
    }

    pub fn great_ms(self) -> (v: i64)
        ensures
            v == self.spec_great_ms(),
    {
        self.great_ms
    }

    pub fn good_ms(self) -> (v: i64)
        ensures
            v == self.spec_good_ms(),
    {
        self.good_ms
    }

    /// Grades an offset by its distance from zero.
    pub fn classify_offset(self, offset_ms: i64) -> (j: Judgment)
        requires
            offset_ms != i64::MIN,
        ensures
            j == self.classify_spec(offset_ms as int),
    {
        let distance = if offset_ms < 0 { -offset_ms } else { offset_ms };
        if distance <= self.perfect_ms {
            Judgment::Perfect
        } else if distance <= self.great_ms {
            Judgment::Great
        } else if distance <= self.good_ms {
            Judgment::Good
        } else {
            Judgment::Miss
        }
    }

    /// The standard windows: 30, 60 and 90 milliseconds.
    pub fn standard() -> (w: Self)
        ensures
            w.spec_perfect_ms() == 30,
            w.spec_great_ms() == 60,
            w.spec_good_ms() == 90,
    {
        Self::new(30, 60, 90)
    }
}

impl Default for JudgmentWindows {
    fn default() -> (w: Self)
        ensures
            w.spec_perfect_ms() == 30,
            w.spec_great_ms() == 60,
            w.spec_good_ms() == 90,
    {
        Self::standard()
    }
}

/// Law: a judgment depends only on the distance of the offset from zero,
/// so early and late presses by the same amount are graded alike.
pub proof fn lemma_classify_symmetric(w: JudgmentWindows, offset: int)
    ensures
        w.classify_spec(offset) == w.classify_spec(-offset),
{
}

/// Law: with ordered windows, a press closer to the note never earns fewer points.
pub proof fn lemma_classify_monotone(w: JudgmentWindows, a: int, b: int)
    requires
        w.spec_perfect_ms() <= w.spec_great_ms() <= w.spec_good_ms(),
        0 <= a <= b,
    ensures
        judgment_points(w.classify_spec(a)) >= judgment_points(w.classify_spec(b)),
{
}

/// Law: with nested windows `perfect <= great <= good`, an offset is graded by how far
/// it lies from the note in either direction: Perfect within the perfect window,
/// Great beyond it but within the great window, Good beyond that but within the good
/// window, and Miss further out. Early and late offsets of the same size grade alike.
pub proof fn lemma_classify_by_distance(w: JudgmentWindows, offset: int)
    requires
        0 <= w.spec_perfect_ms() <= w.spec_great_ms() <= w.spec_good_ms(),
    ensures
        (w.classify_spec(offset) == Judgment::Perfect) <==> (-w.spec_perfect_ms() <= offset
            <= w.spec_perfect_ms()),
        (w.classify_spec(offset) == Judgment::Great) <==> ((w.spec_perfect_ms() < offset
            <= w.spec_great_ms()) || (-w.spec_great_ms() <= offset < -w.spec_perfect_ms())),
        (w.classify_spec(offset) == Judgment::Good) <==> ((w.spec_great_ms() < offset
            <= w.spec_good_ms()) || (-w.spec_good_ms() <= offset < -w.spec_great_ms())),
        (w.classify_spec(offset) == Judgment::Miss) <==> (offset > w.spec_good_ms() || offset
            < -w.spec_good_ms()),
        w.classify_spec(offset) == w.classify_spec(-offset),
{
}

} // verus!
