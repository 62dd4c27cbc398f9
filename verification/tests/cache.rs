use clicket::cache::ScoreCache;
use clicket::score::{FetchError, MatchId, MatchStatus, Overs, ScoreSnapshot};

fn snapshot(id: MatchId, runs: u32, wickets: u8, overs: Overs, at: u64) -> ScoreSnapshot {
    ScoreSnapshot {
        match_id: id,
        home_team: String::from("Home XI"),
        away_team: String::from("Away XI"),
        runs,
        wickets,
        overs,
        status: MatchStatus::InProgress,
        fetched_at: at,
    }
}

#[test]
fn live_refresh_scenario() {
    // Success at t=0, timeout at t=30s, success at t=60s: the cache serves
    // the t=0 snapshot (fresh, then stale) and finally the t=60s one.
    let id = MatchId { id: 7 };
    let mut cache = ScoreCache::new();

    let first = snapshot(id, 120, 3, Overs { completed: 15, balls: 2 }, 0);
    assert!(cache.refresh(id, Ok(first)).is_ok());
    let entry = cache.get(id).expect("entry after first success");
    assert_eq!(entry.snapshot.runs, 120);
    assert_eq!(entry.snapshot.wickets, 3);
    assert_eq!(entry.snapshot.overs, Overs { completed: 15, balls: 2 });
    assert_eq!(entry.snapshot.status, MatchStatus::InProgress);
    assert!(!entry.stale);
    assert_eq!(entry.last_success, 0);

    assert_eq!(
        cache.refresh(id, Err(FetchError::Timeout)),
        Err(FetchError::Timeout)
    );
    let entry = cache.get(id).expect("entry kept after timeout");
    assert_eq!(entry.snapshot.runs, 120);
    assert_eq!(entry.snapshot.overs, Overs { completed: 15, balls: 2 });
    assert!(entry.stale);
    assert_eq!(entry.last_success, 0);

    let second = snapshot(id, 135, 4, Overs { completed: 17, balls: 0 }, 60_000);
    assert!(cache.refresh(id, Ok(second)).is_ok());
    let entry = cache.get(id).expect("entry after second success");
    assert_eq!(entry.snapshot.runs, 135);
    assert_eq!(entry.snapshot.wickets, 4);
    assert_eq!(entry.snapshot.overs, Overs { completed: 17, balls: 0 });
    assert!(!entry.stale);
    assert_eq!(entry.last_success, 60_000);
}

#[test]
fn failure_after_success_keeps_prior_snapshot() {
    let id = MatchId { id: 1 };
    let mut cache = ScoreCache::new();
    let snap = snapshot(id, 88, 2, Overs { completed: 10, balls: 4 }, 500);
    assert!(cache.refresh(id, Ok(snap)).is_ok());
    assert_eq!(
        cache.refresh(id, Err(FetchError::Network)),
        Err(FetchError::Network)
    );
    let entry = cache.get(id).expect("prior snapshot survives the failure");
    assert_eq!(entry.snapshot.runs, 88);
    assert_eq!(entry.snapshot.home_team, "Home XI");
    assert!(entry.stale);
}

#[test]
fn never_fetched_match_has_no_entry() {
    let mut cache = ScoreCache::new();
    let id = MatchId { id: 42 };
    assert!(cache.get(id).is_none());
    // Failed attempts do not conjure an entry either.
    assert_eq!(
        cache.refresh(id, Err(FetchError::NotFound)),
        Err(FetchError::NotFound)
    );
    assert_eq!(
        cache.refresh(id, Err(FetchError::ParseFailure)),
        Err(FetchError::ParseFailure)
    );
    assert!(cache.get(id).is_none());
}

#[test]
fn matches_are_cached_independently() {
    let a = MatchId { id: 1 };
    let b = MatchId { id: 2 };
    let mut cache = ScoreCache::new();
    let snap_a = snapshot(a, 50, 1, Overs { completed: 6, balls: 3 }, 10);
    let snap_b = snapshot(b, 200, 9, Overs { completed: 49, balls: 5 }, 20);
    assert!(cache.refresh(a, Ok(snap_a)).is_ok());
    assert!(cache.refresh(b, Ok(snap_b)).is_ok());

    // A failure for one match must not touch the other.
    assert_eq!(
        cache.refresh(a, Err(FetchError::Timeout)),
        Err(FetchError::Timeout)
    );
    let entry_a = cache.get(a).expect("entry for first match");
    let entry_b = cache.get(b).expect("entry for second match");
    assert!(entry_a.stale);
    assert_eq!(entry_a.snapshot.runs, 50);
    assert!(!entry_b.stale);
    assert_eq!(entry_b.snapshot.runs, 200);
}

#[test]
fn success_replaces_entry_and_clears_staleness() {
    let id = MatchId { id: 3 };
    let mut cache = ScoreCache::new();
    let old = snapshot(id, 10, 0, Overs { completed: 2, balls: 1 }, 100);
    assert!(cache.refresh(id, Ok(old)).is_ok());
    assert_eq!(
        cache.refresh(id, Err(FetchError::Network)),
        Err(FetchError::Network)
    );
    let new = snapshot(id, 30, 1, Overs { completed: 5, balls: 0 }, 300);
    assert!(cache.refresh(id, Ok(new)).is_ok());
    let entry = cache.get(id).expect("replaced entry");
    assert!(!entry.stale);
    assert_eq!(entry.snapshot.runs, 30);
    assert_eq!(entry.last_success, 300);
}

#[test]
fn each_fetch_error_is_returned_verbatim() {
    let id = MatchId { id: 9 };
    let mut cache = ScoreCache::new();
    for err in [
        FetchError::Network,
        FetchError::Timeout,
        FetchError::ParseFailure,
        FetchError::NotFound,
    ] {
        assert_eq!(cache.refresh(id, Err(err)), Err(err));
    }
}
