//! Last-known-good snapshot cache.
//!
//! The cache holds, per match, the snapshot of the most recent successful
//! fetch together with staleness metadata. A failed refresh only marks the
//! entry stale; it never discards data, so the render path always has the
//! freshest snapshot that ever arrived.

use vstd::prelude::*;

use crate::score::{FetchError, MatchId, ScoreSnapshot};

verus! {

/// Last successfully fetched snapshot for one match, plus staleness metadata.
/// Mutated only by the cache on fetch completion; read by the render model.
#[derive(Debug)]
pub struct CacheEntry {
    /// The snapshot of the most recent successful fetch.
    pub snapshot: ScoreSnapshot,
    /// Set when the latest refresh attempt failed; the snapshot is kept.
    pub stale: bool,
    /// `fetched_at` of the most recent successful fetch.
    pub last_success: u64,
}

/// What one fetch attempt produced: a fresh snapshot or an error.
pub type FetchOutcome = Result<ScoreSnapshot, FetchError>;

/// What one fetch outcome does to the cached entry of its match: a success
/// installs a fresh, non-stale entry; a failure keeps the old entry and only
/// marks it stale (or leaves nothing if nothing was ever fetched).
pub open spec fn spec_apply(entry: Option<CacheEntry>, outcome: FetchOutcome) -> Option<CacheEntry> {
    match outcome {
        Ok(snap) => Some(
            CacheEntry { snapshot: snap, stale: false, last_success: snap.fetched_at },
        ),
        Err(_) => match entry {
            Some(e) => Some(
                CacheEntry { snapshot: e.snapshot, stale: true, last_success: e.last_success },
            ),
            None => None,
        },
    }
}

/// The entry of every match after a whole sequence of fetch outcomes for it,
/// applied oldest first.
pub open spec fn spec_apply_all(
    entry: Option<CacheEntry>,
    outcomes: Seq<FetchOutcome>,
) -> Option<CacheEntry>
    decreases outcomes.len(),
{
    if outcomes.len() == 0 {
        entry
    } else {
        spec_apply_all(spec_apply(entry, outcomes[0]), outcomes.drop_first())
    }
}

/// The entry stored for `id` in a sequence of cache slots, if any.
pub open spec fn spec_lookup(s: Seq<(MatchId, CacheEntry)>, id: MatchId) -> Option<CacheEntry>
    decreases s.len(),
{
    if s.len() == 0 {
        None
    } else if s[0].0 == id {
        Some(s[0].1)
    } else {
        spec_lookup(s.drop_first(), id)
    }
}

/// Each match appears in at most one slot.
pub open spec fn unique_ids(s: Seq<(MatchId, CacheEntry)>) -> bool {
    forall|i: int, j: int| 0 <= i < j < s.len() ==> s[i].0 != s[j].0
}

proof fn lemma_lookup_skip(s: Seq<(MatchId, CacheEntry)>, id: MatchId, i: int)
    requires
        0 <= i < s.len(),
        s[i].0 != id,
    ensures
        spec_lookup(s.skip(i), id) == spec_lookup(s.skip(i + 1), id),
{
    assert(s.skip(i)[0] == s[i]);
    assert(s.skip(i).drop_first() =~= s.skip(i + 1));
}

proof fn lemma_lookup_none_no_index(s: Seq<(MatchId, CacheEntry)>, id: MatchId)
    requires
        spec_lookup(s, id) is None,
    ensures
        forall|i: int| 0 <= i < s.len() ==> s[i].0 != id,
    decreases s.len(),
{
    if s.len() > 0 {
        lemma_lookup_none_no_index(s.drop_first(), id);
        assert forall|i: int| 0 <= i < s.len() implies s[i].0 != id by {
            if i > 0 {
                assert(s.drop_first()[i - 1] == s[i]);
            }
        }
    }
}

proof fn lemma_lookup_update(
    s: Seq<(MatchId, CacheEntry)>,
    i: int,
    v: (MatchId, CacheEntry),
    id: MatchId,
)
    requires
        unique_ids(s),
        0 <= i < s.len(),
        v.0 == s[i].0,
    ensures
        spec_lookup(s.update(i, v), id) == if id == v.0 {
            Some(v.1)
        } else {
            spec_lookup(s, id)
        },
    decreases s.len(),
{
    let t = s.update(i, v);
    if i == 0 {
        assert(t[0] == v);
        if id != v.0 {
            assert(t.drop_first() =~= s.drop_first());
        }
    } else {
        assert(t[0] == s[0]);
        if id == s[0].0 {
            assert(s[0].0 != s[i].0);
        } else {
            assert(t.drop_first() =~= s.drop_first().update(i - 1, v));
            assert forall|a: int, b: int|
                0 <= a < b < s.drop_first().len() implies s.drop_first()[a].0
                != s.drop_first()[b].0 by {
                assert(s.drop_first()[a] == s[a + 1]);
                assert(s.drop_first()[b] == s[b + 1]);
            }
            assert(s.drop_first()[i - 1] == s[i]);
            lemma_lookup_update(s.drop_first(), i - 1, v, id);
        }
    }
}

proof fn lemma_lookup_push(s: Seq<(MatchId, CacheEntry)>, p: (MatchId, CacheEntry), id: MatchId)
    ensures
        spec_lookup(s.push(p), id) == if spec_lookup(s, id) is Some {
            spec_lookup(s, id)
        } else if p.0 == id {
            Some(p.1)
        } else {
            None::<CacheEntry>
        },
    decreases s.len(),
{
    if s.len() == 0 {
        assert(s.push(p)[0] == p);
        if p.0 == id {
            assert(spec_lookup(s.push(p), id) == Some(p.1));
        } else {
            assert(s.push(p).drop_first() =~= Seq::<(MatchId, CacheEntry)>::empty());
            assert(spec_lookup(Seq::<(MatchId, CacheEntry)>::empty(), id) is None);
            assert(spec_lookup(s.push(p), id) is None);
        }
        assert(spec_lookup(s, id) is None);
    } else {
        assert(s.push(p)[0] == s[0]);
        if s[0].0 == id {
            assert(spec_lookup(s.push(p), id) == Some(s[0].1));
            assert(spec_lookup(s, id) == Some(s[0].1));
        } else {
            assert(s.push(p).drop_first() =~= s.drop_first().push(p));
            lemma_lookup_push(s.drop_first(), p, id);
            assert(spec_lookup(s.push(p), id) == spec_lookup(s.drop_first().push(p), id));
            assert(spec_lookup(s, id) == spec_lookup(s.drop_first(), id));
        }
    }
}

/// Per-match cache of last-known-good snapshots. At most one entry exists per
/// match; a refresh replaces the whole entry or only flips its staleness flag,
/// so a concurrent read never sees a partially applied update.
pub struct ScoreCache {
    slots: Vec<(MatchId, CacheEntry)>,
}

impl ScoreCache {
    /// At most one entry per match.
    pub closed spec fn wf(self) -> bool {
        unique_ids(self.slots@)
    }

    /// The entry currently cached for `id`, if any.
    pub closed spec fn spec_get(self, id: MatchId) -> Option<CacheEntry> {
        spec_lookup(self.slots@, id)
    }

    /// An empty cache: no match has an entry yet.
    pub fn new() -> (r: ScoreCache)
        ensures
            r.wf(),
            forall|id: MatchId| r.spec_get(id) is None,
    {
        ScoreCache { slots: Vec::new() }
    }

    fn find(&self, id: MatchId) -> (r: Option<usize>)
        ensures
            match r {
                Some(i) => i < self.slots@.len() && self.slots@[i as int].0 == id
                    && self.spec_get(id) == Some(self.slots@[i as int].1),
                None => self.spec_get(id) is None,
            },
    {
        let n = self.slots.len();
        let mut i: usize = 0;
        proof {
            assert(self.slots@.skip(0) =~= self.slots@);
        }
        while i < n
            invariant
                n == self.slots@.len(),
                i <= n,
                spec_lookup(self.slots@.skip(i as int), id) == spec_lookup(self.slots@, id),
            decreases n - i,
        {
            if self.slots[i].0 == id {
                proof {
                    assert(self.slots@.skip(i as int)[0] == self.slots@[i as int]);
                }
                return Some(i);
            }
            proof {
                lemma_lookup_skip(self.slots@, id, i as int);
            }
            i = i + 1;
        }
        proof {
            assert(self.slots@.skip(n as int) =~= Seq::<(MatchId, CacheEntry)>::empty());
        }
        None
    }

    /// Never blocks and never fails: returns the last known entry for `id`,
    /// or nothing if no fetch for `id` ever succeeded.
    pub fn get(&self, id: MatchId) -> (r: Option<&CacheEntry>)
        ensures
            match r {
                Some(e) => self.spec_get(id) == Some(*e),
                None => self.spec_get(id) is None,
            },
    {
        match self.find(id) {
            Some(i) => Some(&self.slots[i].1),
            None => None,
        }
    }

    /// Records the outcome of one fetch attempt for `id`: on success the
    /// entry is replaced by a fresh, non-stale one; on failure the old entry
    /// (if any) is kept and only marked stale, and the error is returned.
    /// Entries of other matches are untouched.
    pub fn refresh(&mut self, id: MatchId, outcome: FetchOutcome) -> (r: Result<(), FetchError>)
        requires
            old(self).wf(),
            outcome is Ok ==> outcome->Ok_0.match_id == id,
        ensures
            final(self).wf(),
            final(self).spec_get(id) == spec_apply(old(self).spec_get(id), outcome),
            forall|other: MatchId|
                other != id ==> final(self).spec_get(other) == old(self).spec_get(other),
            match outcome {
                Ok(_) => r is Ok,
                Err(e) => r == Err::<(), FetchError>(e),
            },
    {
        match outcome {
            Ok(snap) => {
                let last_success = snap.fetched_at;
                let entry = CacheEntry { snapshot: snap, stale: false, last_success };
                let ghost s0 = self.slots@;
                match self.find(id) {
                    Some(i) => {
                        self.slots[i] = (id, entry);
                        proof {
                            assert(self.slots@ == s0.update(i as int, self.slots@[i as int]));
                            assert forall|q: MatchId| true implies spec_lookup(self.slots@, q)
                                == (if q == id {
                                Some(self.slots@[i as int].1)
                            } else {
                                spec_lookup(s0, q)
                            }) by {
                                lemma_lookup_update(s0, i as int, self.slots@[i as int], q);
                            }
                            assert forall|a: int, b: int|
                                0 <= a < b < self.slots@.len() implies self.slots@[a].0
                                != self.slots@[b].0 by {
                                assert(s0[a].0 == self.slots@[a].0);
                                assert(s0[b].0 == self.slots@[b].0);
                            }
                        }
                    },
                    None => {
                        self.slots.push((id, entry));
                        proof {
                            let p = self.slots@[s0.len() as int];
                            assert(self.slots@ == s0.push(p));
                            assert forall|q: MatchId| true implies spec_lookup(self.slots@, q)
                                == (if q == id {
                                Some(p.1)
                            } else {
                                spec_lookup(s0, q)
                            }) by {
                                lemma_lookup_push(s0, p, q);
                            }
                            lemma_lookup_none_no_index(s0, id);
                            assert forall|a: int, b: int|
                                0 <= a < b < self.slots@.len() implies self.slots@[a].0
                                != self.slots@[b].0 by {
                                if b < s0.len() {
                                    assert(s0[a].0 != s0[b].0);
                                } else {
                                    assert(s0[a].0 != id);
                                }
                            }
                        }
                    },
                }
                Ok(())
            },
            Err(e) => {
                let ghost s0 = self.slots@;
                match self.find(id) {
                    Some(i) => {
                        self.slots[i].1.stale = true;
                        proof {
                            assert(self.slots@ == s0.update(i as int, self.slots@[i as int]));
                            assert(self.slots@[i as int].0 == id);
                            assert(self.slots@[i as int].1 == (CacheEntry {
                                snapshot: s0[i as int].1.snapshot,
                                stale: true,
                                last_success: s0[i as int].1.last_success,
                            }));
                            assert forall|q: MatchId| true implies spec_lookup(self.slots@, q)
                                == (if q == id {
                                Some(self.slots@[i as int].1)
                            } else {
                                spec_lookup(s0, q)
                            }) by {
                                lemma_lookup_update(s0, i as int, self.slots@[i as int], q);
                            }
                            assert forall|a: int, b: int|
                                0 <= a < b < self.slots@.len() implies self.slots@[a].0
                                != self.slots@[b].0 by {
                                assert(s0[a].0 == self.slots@[a].0);
                                assert(s0[b].0 == self.slots@[b].0);
                            }
                        }
                    },
                    None => {
                    },
                }
                Err(e)
            },
        }
    }
}

/// A failed refresh after a success keeps the prior snapshot and its success
/// time, and only flags the entry stale: stale data is shown, never blanked.
pub proof fn lemma_failure_keeps_snapshot(entry: CacheEntry, err: FetchError)
    ensures
        spec_apply(Some(entry), Err(err)) == Some(
            CacheEntry { snapshot: entry.snapshot, stale: true, last_success: entry.last_success },
        ),
{
}

/// Failures never roll data back: however many fetches fail in a row, the
/// cached snapshot and its success time survive unchanged; only the staleness
/// flag is raised (and only if at least one attempt failed).
pub proof fn lemma_apply_all_errs(entry: CacheEntry, outcomes: Seq<FetchOutcome>)
    requires
        forall|j: int| 0 <= j < outcomes.len() ==> outcomes[j] is Err,
    ensures
        spec_apply_all(Some(entry), outcomes) == Some(
            CacheEntry {
                snapshot: entry.snapshot,
                stale: entry.stale || outcomes.len() > 0,
                last_success: entry.last_success,
            },
        ),
    decreases outcomes.len(),
{
    if outcomes.len() == 0 {
        assert(entry == (CacheEntry {
            snapshot: entry.snapshot,
            stale: entry.stale,
            last_success: entry.last_success,
        }));
    } else {
        let e2 = CacheEntry {
            snapshot: entry.snapshot,
            stale: true,
            last_success: entry.last_success,
        };
        assert(spec_apply(Some(entry), outcomes[0]) == Some(e2));
        assert forall|j: int|
            0 <= j < outcomes.drop_first().len() implies outcomes.drop_first()[j] is Err by {
            assert(outcomes.drop_first()[j] == outcomes[j + 1]);
        }
        lemma_apply_all_errs(e2, outcomes.drop_first());
    }
}

/// Monotonic freshness: after any sequence of fetch outcomes, the cached
/// entry holds exactly the snapshot of the most recent successful fetch —
/// never an older one — and is stale precisely when failures followed it.
pub proof fn lemma_monotonic_freshness(
    entry: Option<CacheEntry>,
    outcomes: Seq<FetchOutcome>,
    k: int,
)
    requires
        0 <= k < outcomes.len(),
        outcomes[k] is Ok,
        forall|j: int| k < j < outcomes.len() ==> outcomes[j] is Err,
    ensures
        spec_apply_all(entry, outcomes) == Some(
            CacheEntry {
                snapshot: outcomes[k]->Ok_0,
                stale: k < outcomes.len() - 1,
                last_success: outcomes[k]->Ok_0.fetched_at,
            },
        ),
    decreases outcomes.len(),
{
    if k == 0 {
        let fresh = CacheEntry {
            snapshot: outcomes[0]->Ok_0,
            stale: false,
            last_success: outcomes[0]->Ok_0.fetched_at,
        };
        assert(spec_apply(entry, outcomes[0]) == Some(fresh));
        assert forall|j: int|
            0 <= j < outcomes.drop_first().len() implies outcomes.drop_first()[j] is Err by {
            assert(outcomes.drop_first()[j] == outcomes[j + 1]);
        }
        lemma_apply_all_errs(fresh, outcomes.drop_first());
    } else {
        assert(outcomes.drop_first()[k - 1] == outcomes[k]);
        assert forall|j: int|
            k - 1 < j < outcomes.drop_first().len() implies outcomes.drop_first()[j] is Err by {
            assert(outcomes.drop_first()[j] == outcomes[j + 1]);
        }
        lemma_monotonic_freshness(spec_apply(entry, outcomes[0]), outcomes.drop_first(), k - 1);
    }
}

/// One more recorded outcome composes: applying a history extended by one
/// outcome is applying the history, then that outcome. This ties a run of
/// `ScoreCache::refresh` calls to `spec_apply_all` over their outcomes.
pub proof fn lemma_apply_all_snoc(
    entry: Option<CacheEntry>,
    outcomes: Seq<FetchOutcome>,
    o: FetchOutcome,
)
    ensures
        spec_apply_all(entry, outcomes.push(o)) == spec_apply(spec_apply_all(entry, outcomes), o),
    decreases outcomes.len(),
{
    if outcomes.len() == 0 {
        assert(outcomes.push(o)[0] == o);
        assert(outcomes.push(o).drop_first() =~= Seq::<FetchOutcome>::empty());
        assert(spec_apply_all(spec_apply(entry, o), Seq::<FetchOutcome>::empty()) == spec_apply(
            entry,
            o,
        ));
    } else {
        assert(outcomes.push(o)[0] == outcomes[0]);
        assert(outcomes.push(o).drop_first() =~= outcomes.drop_first().push(o));
        lemma_apply_all_snoc(spec_apply(entry, outcomes[0]), outcomes.drop_first(), o);
    }
}

} // verus!
