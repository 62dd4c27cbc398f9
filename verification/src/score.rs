//! Value objects describing the state of a single cricket match.

use vstd::prelude::*;

verus! {

/// Opaque identifier for a single cricket match; immutable once assigned.
#[derive(Clone, Copy, PartialEq, Eq, Structural, Debug)]
pub struct MatchId {
    pub id: u64,
}

/// Phase of a match.
#[derive(Clone, Copy, PartialEq, Eq, Structural, Debug)]
pub enum MatchStatus {
    NotStarted,
    InProgress,
    InningsBreak,
    Completed,
    Abandoned,
}

/// Overs bowled, kept as completed overs plus balls of the current over,
/// so that the fractional overs notation (for example 15.2) is exact.
#[derive(Clone, Copy, PartialEq, Eq, Structural, Debug)]
pub struct Overs {
    pub completed: u32,
    pub balls: u8,
}

impl Overs {
    /// A legal overs count has fewer than six balls in the current over.
    pub open spec fn wf(self) -> bool {
        self.balls < 6
    }

    /// Builds an overs count, rejecting an over with six or more balls.
    pub fn new(completed: u32, balls: u8) -> (r: Option<Overs>)
        ensures
            balls < 6 ==> r == Some(Overs { completed, balls }),
            balls >= 6 ==> r is None,
            r is Some ==> r->0.wf(),
    {
        if balls < 6 {
            Some(Overs { completed, balls })
        } else {
            None
        }
    }

    /// Total number of balls bowled.
    pub open spec fn spec_total_balls(self) -> int {
        self.completed * 6 + self.balls
    }

    /// Total number of balls bowled.
    pub fn total_balls(&self) -> (r: u64)
        ensures
            r == self.spec_total_balls(),
    {
        self.completed as u64 * 6 + self.balls as u64
    }
}

/// Why a fetch attempt produced no snapshot.
#[derive(Clone, Copy, PartialEq, Eq, Structural, Debug)]
pub enum FetchError {
    Network,
    Timeout,
    ParseFailure,
    NotFound,
}

/// Immutable point-in-time record of a match's score state. A new fetch
/// produces a new snapshot; an old one is never mutated.
#[derive(Debug)]
pub struct ScoreSnapshot {
    pub match_id: MatchId,
    pub home_team: String,
    pub away_team: String,
    pub runs: u32,
    pub wickets: u8,
    pub overs: Overs,
    pub status: MatchStatus,
    /// When this snapshot was fetched, in milliseconds of the source's clock.
    pub fetched_at: u64,
}

impl ScoreSnapshot {
    /// A snapshot is well formed when its overs count is.
    pub open spec fn wf(self) -> bool {
        self.overs.wf()
    }
}

} // verus!
