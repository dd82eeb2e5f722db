//! Score and level.

use vstd::prelude::*;

verus! {

/// Points for clearing `n` rows in one pass at level 0.
pub open spec fn line_points(n: int) -> int {
    if n == 1 {
        40
    } else if n == 2 {
        100
    } else if n == 3 {
        300
    } else if n == 4 {
        1200
    } else {
        0
    }
}

/// The score after clearing `n` rows at `level`; it stops at `u32::MAX`.
pub open spec fn score_after(score: int, level: int, n: int) -> int {
    let s = score + line_points(n) * (level + 1);
    if s > u32::MAX {
        u32::MAX as int
    } else {
        s
    }
}

#[derive(Clone, Copy, PartialEq, Eq, Structural, Debug)]
pub struct GameScore {
    pub score: u32,
    pub level: u32,
}

impl GameScore {
    /// The level is the score in thousands.
    pub open spec fn wf(&self) -> bool {
        self.level == self.score / 1000
    }

    pub fn new() -> (r: Self)
        ensures
            r.score == 0,
            r.level == 0,
    {
        GameScore { score: 0, level: 0 }
    }

    /// Scores a pass that cleared `lines` rows, then derives the level anew.
    pub fn add_lines(&mut self, lines: usize)
        ensures
            final(self).score == score_after(old(self).score as int, old(self).level as int, lines as int),
            final(self).wf(),
    {
        let points: u64 = if lines == 1 {
            40
        } else if lines == 2 {
            100
        } else if lines == 3 {
            300
        } else if lines == 4 {
            1200
        } else {
            0
        };
        let total: u64 = self.score as u64 + points * (self.level as u64 + 1);
        self.score = if total > u32::MAX as u64 {
            u32::MAX
        } else {
            total as u32
        };
        self.level = self.score / 1000;
    }
}

} // verus!
