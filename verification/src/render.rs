//! Pure projection from cached match state to layout-agnostic display lines.
//!
//! The render model knows nothing of the terminal: it turns the cached state
//! of one match into an ordered sequence of display lines, produced fresh
//! each tick. The outcome is pinned exactly by `spec_project`, so two
//! projections of the same state are identical — the model is pure.

use vstd::prelude::*;

use crate::cache::{spec_apply, spec_apply_all, CacheEntry, FetchOutcome};
use crate::score::MatchStatus;

verus! {

/// One layout-agnostic display line.
#[derive(Debug, PartialEq, Eq)]
pub enum RenderLine {
    /// Shown when no fetch for the match ever succeeded.
    Placeholder,
    /// The two team names.
    Title { home: String, away: String },
    /// The score: runs, wickets, and overs as completed overs plus balls.
    Score { runs: u32, wickets: u8, overs_completed: u32, overs_balls: u8 },
    /// The phase of the match.
    Status { status: MatchStatus },
    /// Marks the shown snapshot as stale after a failed refresh.
    StaleNotice,
}

/// Ordered display lines for one match, produced fresh each tick and never
/// retained across ticks.
#[derive(Debug, PartialEq, Eq)]
pub struct RenderFrame {
    pub lines: Vec<RenderLine>,
}

/// The exact lines projected from the cached state of one match: a lone
/// placeholder when nothing was ever fetched; otherwise title, score and
/// status lines, followed by a stale notice exactly when the entry is stale.
pub open spec fn spec_project(entry: Option<CacheEntry>) -> Seq<RenderLine> {
    match entry {
        None => seq![RenderLine::Placeholder],
        Some(e) => {
            let base = seq![
                RenderLine::Title { home: e.snapshot.home_team, away: e.snapshot.away_team },
                RenderLine::Score {
                    runs: e.snapshot.runs,
                    wickets: e.snapshot.wickets,
                    overs_completed: e.snapshot.overs.completed,
                    overs_balls: e.snapshot.overs.balls,
                },
                RenderLine::Status { status: e.snapshot.status },
            ];
            if e.stale {
                base.push(RenderLine::StaleNotice)
            } else {
                base
            }
        },
    }
}

/// Projects the cached state of one match into its display lines. Pure and
/// deterministic: the result is exactly `spec_project` of the entry, so an
/// unchanged entry always yields an identical frame, and a match with no
/// data yet yields the placeholder rather than failing.
pub fn project(entry: Option<&CacheEntry>) -> (r: RenderFrame)
    ensures
        r.lines@ == spec_project(
            match entry {
                Some(e) => Some(*e),
                None => None,
            },
        ),
{
    match entry {
        None => {
            let mut lines: Vec<RenderLine> = Vec::new();
            lines.push(RenderLine::Placeholder);
            proof {
                assert(lines@ =~= seq![RenderLine::Placeholder]);
            }
            RenderFrame { lines }
        },
        Some(e) => {
            let mut lines: Vec<RenderLine> = Vec::new();
            lines.push(RenderLine::Title {
                home: e.snapshot.home_team.clone(),
                away: e.snapshot.away_team.clone(),
            });
            lines.push(RenderLine::Score {
                runs: e.snapshot.runs,
                wickets: e.snapshot.wickets,
                overs_completed: e.snapshot.overs.completed,
                overs_balls: e.snapshot.overs.balls,
            });
            lines.push(RenderLine::Status { status: e.snapshot.status });
            if e.stale {
                lines.push(RenderLine::StaleNotice);
            }
            proof {
                assert(lines@ =~= spec_project(Some(*e)));
            }
            RenderFrame { lines }
        },
    }
}

/// A match with zero successful fetches ever — however many attempts failed —
/// still has no cache entry, and projects to the placeholder, never to stale
/// or partial data.
pub proof fn lemma_no_data_placeholder(outcomes: Seq<FetchOutcome>)
    requires
        forall|j: int| 0 <= j < outcomes.len() ==> outcomes[j] is Err,
    ensures
        spec_apply_all(None, outcomes) is None,
        spec_project(spec_apply_all(None, outcomes)) == seq![RenderLine::Placeholder],
    decreases outcomes.len(),
{
    if outcomes.len() > 0 {
        assert(spec_apply(None, outcomes[0]) is None);
        assert forall|j: int|
            0 <= j < outcomes.drop_first().len() implies outcomes.drop_first()[j] is Err by {
            assert(outcomes.drop_first()[j] == outcomes[j + 1]);
        }
        lemma_no_data_placeholder(outcomes.drop_first());
    }
}

} // verus!
