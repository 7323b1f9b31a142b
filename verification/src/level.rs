//! Level progression of the falling-block game: speed per level, score
//! awarded per batch of cleared lines, and when the next level starts.

use vstd::prelude::*;

verus! {

/// The player's progress: the current level, the accumulated score and
/// the total number of cleared lines.
#[derive(Debug, Clone, Copy, PartialEq, Eq, Structural)]
pub struct Level {
    /// The current level, starting the speed table below.
    pub current: u32,
    /// Accumulated score.
    pub score: u32,
    /// Total number of lines cleared so far.
    pub cleared_lines: u32,
}

/// How many lines one move cleared: zero to four.
#[derive(Debug, Clone, Copy, PartialEq, Eq, Structural)]
pub enum ClearedLines {
    /// No line was cleared.
    Zero,
    /// One line was cleared.
    Single,
    /// Two lines were cleared.
    Double,
    /// Three lines were cleared.
    Triple,
    /// Four lines were cleared at once.
    Tetrs,
}

/// Ticks between two automatic downward moves on the given level: the
/// classic speed curve, from 48 ticks on level 0 down to 1 tick beyond
/// level 28.
pub open spec fn spec_required_ticks(level: u32) -> u32 {
    if level == 0 {
        48
    } else if level == 1 {
        43
    } else if level == 2 {
        38
    } else if level == 3 {
        33
    } else if level == 4 {
        28
    } else if level == 5 {
        23
    } else if level == 6 {
        18
    } else if level == 7 {
        13
    } else if level == 8 {
        8
    } else if level == 9 {
        6
    } else if level <= 12 {
        5
    } else if level <= 15 {
        4
    } else if level <= 18 {
        3
    } else if level <= 28 {
        2
    } else {
        1
    }
}

/// Lines needed before the given level is left behind.
pub open spec fn spec_required_lines(level: int) -> int {
    let tenfold = level * 10;
    let floor = if tenfold >= 150 {
        tenfold - 50
    } else {
        100
    };
    if tenfold + 10 <= floor {
        tenfold + 10
    } else {
        floor
    }
}

/// Number of lines a [`ClearedLines`] batch stands for.
pub open spec fn spec_cleared_value(cleared: ClearedLines) -> u32 {
    match cleared {
        ClearedLines::Zero => 0,
        ClearedLines::Single => 1,
        ClearedLines::Double => 2,
        ClearedLines::Triple => 3,
        ClearedLines::Tetrs => 4,
    }
}

/// Score one batch of cleared lines earns on the given level.
pub open spec fn spec_score(level: int, cleared: ClearedLines) -> int {
    match cleared {
        ClearedLines::Zero => 0,
        ClearedLines::Single => 40 * (level + 1),
        ClearedLines::Double => 100 * (level + 1),
        ClearedLines::Triple => 300 * (level + 1),
        ClearedLines::Tetrs => 1200 * (level + 1),
    }
}

impl Level {
    /// Start at the given level with no score and no cleared lines.
    pub fn new(level: u32) -> (r: Self)
        ensures
            r.current == level,
            r.score == 0,
            r.cleared_lines == 0,
    {
        Self { current: level, score: 0, cleared_lines: 0 }
    }

    /// Ticks between two automatic downward moves on the current level.
    pub fn required_ticks(&self) -> (r: u32)
        ensures
            r == spec_required_ticks(self.current),
    {
        if self.current == 0 {
            48
        } else if self.current == 1 {
            43
        } else if self.current == 2 {
            38
        } else if self.current == 3 {
            33
        } else if self.current == 4 {
            28
        } else if self.current == 5 {
            23
        } else if self.current == 6 {
            18
        } else if self.current == 7 {
            13
        } else if self.current == 8 {
            8
        } else if self.current == 9 {
            6
        } else if self.current <= 12 {
            5
        } else if self.current <= 15 {
            4
        } else if self.current <= 18 {
            3
        } else if self.current <= 28 {
            2
        } else {
            1
        }
    }

    /// Lines needed before the current level is left behind.
    fn required_lines(&self) -> (r: u32)
        requires
            self.current <= 100_000_000,
        ensures
            r == spec_required_lines(self.current as int),
    {
        let tenfold = self.current * 10;
        let floor = if tenfold >= 150 {
            tenfold - 50
        } else {
            100
        };
        if tenfold + 10 <= floor {
            tenfold + 10
        } else {
            floor
        }
    }

    /// Account one batch of cleared lines: the line count and the score
    /// grow, and once enough lines are cleared the level advances by
    /// one.
    pub fn up(&mut self, cleared: &ClearedLines)
        requires
            old(self).current <= 100_000_000,
            old(self).cleared_lines + 4 <= u32::MAX,
            old(self).score + spec_score(old(self).current as int, *cleared) <= u32::MAX,
        ensures
            final(self).cleared_lines == old(self).cleared_lines + spec_cleared_value(*cleared),
            final(self).score == old(self).score + spec_score(old(self).current as int, *cleared),
            final(self).current == if final(self).cleared_lines >= spec_required_lines(
                old(self).current as int,
            ) {
                old(self).current + 1
            } else {
                old(self).current as int
            },
    {
        self.cleared_lines = self.cleared_lines + cleared.value();
        self.score = self.score + self.score(cleared);

        if self.cleared_lines >= self.required_lines() {
            self.current = self.current + 1;
        }
    }

    /// Score one batch of cleared lines earns on the current level.
    fn score(&self, cleared: &ClearedLines) -> (r: u32)
        requires
            spec_score(self.current as int, *cleared) <= u32::MAX,
        ensures
            r == spec_score(self.current as int, *cleared),
    {
        match cleared {
            ClearedLines::Zero => 0,
            ClearedLines::Single => 40 * (self.current + 1),
            ClearedLines::Double => 100 * (self.current + 1),
            ClearedLines::Triple => 300 * (self.current + 1),
            ClearedLines::Tetrs => 1200 * (self.current + 1),
        }
    }
}

impl ClearedLines {
    /// The batch standing for the given number of lines.
    pub fn from_count(value: usize) -> (r: Self)
        requires
            value <= 4,
        ensures
            spec_cleared_value(r) == value,
    {
        match value {
            0 => ClearedLines::Zero,
            1 => ClearedLines::Single,
            2 => ClearedLines::Double,
            3 => ClearedLines::Triple,
            _ => ClearedLines::Tetrs,
        }
    }

    /// Number of lines this batch stands for.
    pub fn value(&self) -> (r: u32)
        ensures
            r == spec_cleared_value(*self),
    {
        match self {
            ClearedLines::Zero => 0,
            ClearedLines::Single => 1,
            ClearedLines::Double => 2,
            ClearedLines::Triple => 3,
            ClearedLines::Tetrs => 4,
        }
    }
}

} // verus!
