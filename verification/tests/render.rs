use clicket::cache::{CacheEntry, ScoreCache};
use clicket::render::{project, RenderLine};
use clicket::score::{FetchError, MatchId, MatchStatus, Overs, ScoreSnapshot};

fn entry(stale: bool) -> CacheEntry {
    CacheEntry {
        snapshot: ScoreSnapshot {
            match_id: MatchId { id: 5 },
            home_team: String::from("Lions"),
            away_team: String::from("Tigers"),
            runs: 120,
            wickets: 3,
            overs: Overs { completed: 15, balls: 2 },
            status: MatchStatus::InProgress,
            fetched_at: 1_000,
        },
        stale,
        last_success: 1_000,
    }
}

#[test]
fn projection_is_deterministic() {
    // Two projections of the same unchanged entry are identical.
    let e = entry(false);
    let first = project(Some(&e));
    let second = project(Some(&e));
    assert_eq!(first, second);

    let stale_entry = entry(true);
    let first = project(Some(&stale_entry));
    let second = project(Some(&stale_entry));
    assert_eq!(first, second);

    assert_eq!(project(None), project(None));
}

#[test]
fn fresh_entry_projects_title_score_status() {
    let frame = project(Some(&entry(false)));
    assert_eq!(frame.lines.len(), 3);
    assert_eq!(
        frame.lines[0],
        RenderLine::Title {
            home: String::from("Lions"),
            away: String::from("Tigers"),
        }
    );
    assert_eq!(
        frame.lines[1],
        RenderLine::Score {
            runs: 120,
            wickets: 3,
            overs_completed: 15,
            overs_balls: 2,
        }
    );
    assert_eq!(
        frame.lines[2],
        RenderLine::Status {
            status: MatchStatus::InProgress,
        }
    );
}

#[test]
fn stale_entry_carries_a_stale_notice() {
    let frame = project(Some(&entry(true)));
    assert_eq!(frame.lines.len(), 4);
    assert_eq!(frame.lines[3], RenderLine::StaleNotice);
    // The data lines are unchanged by staleness.
    let fresh = project(Some(&entry(false)));
    assert_eq!(frame.lines[..3], fresh.lines[..3]);
}

#[test]
fn missing_entry_projects_the_placeholder() {
    let frame = project(None);
    assert_eq!(frame.lines, vec![RenderLine::Placeholder]);
}

#[test]
fn never_fetched_match_renders_placeholder_through_cache() {
    let mut cache = ScoreCache::new();
    let id = MatchId { id: 77 };
    assert_eq!(
        cache.refresh(id, Err(FetchError::Timeout)),
        Err(FetchError::Timeout)
    );
    let frame = project(cache.get(id));
    assert_eq!(frame.lines, vec![RenderLine::Placeholder]);
}
