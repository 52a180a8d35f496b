//! Running score, combo and judgment counts of one play.
use vstd::prelude::*;
use crate::judgment::{judgment_points, Judgment};

verus! {

#[derive(Debug, Clone, Copy, PartialEq, Eq, Default, Structural)]
pub struct JudgmentCounts {
    pub perfect: u32,
    pub great: u32,
    pub good: u32,
    pub miss: u32,
}

#[derive(Debug, Clone, Copy, PartialEq, Eq, Structural)]
pub struct ScoreTotals {
    pub score: u32,
    pub combo: u32,
    pub max_combo: u32,
    pub possible_points: u32,
    pub judgments: JudgmentCounts,
}

/// How many judgments of the given grade were counted.
pub open spec fn count_of(c: JudgmentCounts, j: Judgment) -> u32 {
    match j {
        Judgment::Perfect => c.perfect,
        Judgment::Great => c.great,
        Judgment::Good => c.good,
        Judgment::Miss => c.miss,
    }
}

/// All judgments counted.
pub open spec fn total_count(c: JudgmentCounts) -> int {
    c.perfect + c.great + c.good + c.miss
}

pub open spec fn increment(c: JudgmentCounts, j: Judgment) -> JudgmentCounts {
    match j {
        Judgment::Perfect => JudgmentCounts { perfect: (c.perfect + 1) as u32, ..c },
        Judgment::Great => JudgmentCounts { great: (c.great + 1) as u32, ..c },
        Judgment::Good => JudgmentCounts { good: (c.good + 1) as u32, ..c },
        Judgment::Miss => JudgmentCounts { miss: (c.miss + 1) as u32, ..c },
    }
}

/// Whether recording `j` keeps every counter within `u32`.
pub open spec fn can_apply(t: ScoreTotals, j: Judgment) -> bool {
    &&& count_of(t.judgments, j) < u32::MAX
    &&& (j != Judgment::Miss ==> t.combo < u32::MAX)
}

/// The totals after recording one judgment: the score grows by the judgment's
/// points (saturating), a hit extends the combo and a miss breaks it.
pub open spec fn apply_spec(t: ScoreTotals, j: Judgment) -> ScoreTotals {
    let sum = t.score + judgment_points(j);
    let hit = j != Judgment::Miss;
    let combo: u32 = if hit { (t.combo + 1) as u32 } else { 0 };
    ScoreTotals {
        score: if sum > u32::MAX { u32::MAX } else { sum as u32 },
        combo,
        max_combo: if hit && combo > t.max_combo { combo } else { t.max_combo },
        possible_points: t.possible_points,
        judgments: increment(t.judgments, j),
    }
}

impl ScoreTotals {
    pub fn new(possible_points: u32) -> (t: Self)
        ensures
            t.score == 0,
            t.combo == 0,
            t.max_combo == 0,
            t.possible_points == possible_points,
            t.judgments == (JudgmentCounts { perfect: 0, great: 0, good: 0, miss: 0 }),
    {
        Self {
            score: 0,
            combo: 0,
            max_combo: 0,
            possible_points,
            judgments: JudgmentCounts { perfect: 0, great: 0, good: 0, miss: 0 },
        }
    }

    /// Records one judgment.
    pub fn apply(&mut self, judgment: Judgment)
        requires
            can_apply(*old(self), judgment),
        ensures
            *final(self) == apply_spec(*old(self), judgment),
    {
        self.score = self.score.saturating_add(judgment.points());
        match judgment {
            Judgment::Perfect => self.judgments.perfect = self.judgments.perfect + 1,
            Judgment::Great => self.judgments.great = self.judgments.great + 1,
            Judgment::Good => self.judgments.good = self.judgments.good + 1,
            Judgment::Miss => self.judgments.miss = self.judgments.miss + 1,
        }
        if judgment.is_hit() {
            self.combo = self.combo + 1;
            if self.combo > self.max_combo {
                self.max_combo = self.combo;
            }
        } else {
            self.combo = 0;
        }
    }
}

/// Law: recording a judgment counts it exactly once, keeps the possible
/// points, and never lets the combo pass the best combo.
pub proof fn lemma_apply_accounting(t: ScoreTotals, j: Judgment)
    requires
        t.combo <= t.max_combo,
        can_apply(t, j),
    ensures
        total_count(apply_spec(t, j).judgments) == total_count(t.judgments) + 1,
        count_of(apply_spec(t, j).judgments, j) == count_of(t.judgments, j) + 1,
        apply_spec(t, j).possible_points == t.possible_points,
        apply_spec(t, j).combo <= apply_spec(t, j).max_combo,
        apply_spec(t, j).max_combo >= t.max_combo,
        apply_spec(t, j).score >= t.score,
        t.score + judgment_points(j) <= u32::MAX ==> apply_spec(t, j).score == t.score
            + judgment_points(j),
{
}

} // verus!
