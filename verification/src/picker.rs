//! The picker controller: a selection state machine over a bookmark store.
//!
//! On every query change the controller snapshots the store into candidates
//! (id = current position), derives the smart-case hint, and hands back a
//! recompute request for the match engine, which runs elsewhere and must not
//! block this state machine. At most one recompute is current: each dispatch
//! bumps a generation counter, and a completion carrying any other generation
//! is discarded (cancellation by discarding, last writer wins). Applying a
//! completion sorts the matches ascending by candidate id — row order tracks
//! store order, not relevance — and selects the best-scoring match, the last
//! one among equal maxima. Store mutations invalidate outstanding positional
//! ids, so a deletion immediately re-issues a recompute, and stale ids are
//! skipped, never a crash.

use vstd::prelude::*;

use crate::matching::{
    applied_matches, distinct_ids, is_last_best, select_last_best, sort_valid_matches, Candidate,
    Match,
};
use crate::query::{contains_uppercase, has_uppercase, str_trim_start, trim_start_of};
use crate::store::{Bookmark, BookmarkStore, Point, StoreError};

verus! {

/// The most matches one recompute may return; qualifying candidates beyond
/// the cap are silently dropped by the engine.
pub const MATCH_LIMIT: usize = 100;

/// Whether a recompute is in flight.
#[derive(Clone, Copy, Debug, PartialEq, Eq, Structural)]
pub enum PickerState {
    Idle,
    Recomputing,
}

/// Everything the match engine needs for one recompute cycle: the dispatch
/// generation, the query with leading whitespace removed, the smart-case
/// hint, a snapshot of the store as candidates, and the result cap.
pub struct RecomputeRequest {
    pub generation: u64,
    pub query: String,
    pub smart_case: bool,
    pub candidates: Vec<Candidate>,
    pub limit: usize,
}

/// What the navigation collaborator is asked to do on confirm: open the
/// bookmarked location and move the cursor to its point.
pub struct NavigationRequest {
    pub project_path: String,
    pub abs_path: String,
    pub point: Point,
}

/// The candidates are the store's bookmarks in order: candidate `i` carries
/// id `i` and the label of the bookmark at position `i`.
pub open spec fn candidates_of(cs: Seq<Candidate>, bs: Seq<Bookmark>) -> bool {
    &&& cs.len() == bs.len()
    &&& forall|i: int|
        0 <= i < bs.len() ==> (#[trigger] cs[i]).id == i && cs[i].text@ == bs[i].label@
}

/// A well-formed recompute request for generation `gen`, raw query `query`,
/// and store contents `bs`.
pub open spec fn request_for(req: RecomputeRequest, gen: u64, query: Seq<char>, bs: Seq<Bookmark>) -> bool {
    &&& req.generation == gen
    &&& req.query@ == trim_start_of(query)
    &&& req.smart_case == has_uppercase(trim_start_of(query))
    &&& candidates_of(req.candidates@, bs)
    &&& req.limit == MATCH_LIMIT
}

/// The picker controller. Rendering reads `(matches, selected)` downstream;
/// all mutation goes through the transition methods.
pub struct PickerController {
    pub store: BookmarkStore,
    pub query: String,
    pub generation: u64,
    pub state: PickerState,
    pub matches: Vec<Match>,
    pub selected: usize,
    pub dismissed: bool,
}

impl PickerController {
    /// The selection invariant: whenever the match list is non-empty, the
    /// selected index references one of its entries. With no matches the
    /// index is ignored.
    pub open spec fn wf(&self) -> bool {
        self.matches@.len() > 0 ==> (self.selected as int) < self.matches@.len()
    }

    pub fn new(store: BookmarkStore) -> (c: PickerController)
        ensures
            c.store == store,
            c.query@ == Seq::<char>::empty(),
            c.generation == 0,
            c.state is Idle,
            c.matches@ == Seq::<Match>::empty(),
            c.selected == 0,
            !c.dismissed,
            c.wf(),
    {
        PickerController {
            store,
            query: String::new(),
            generation: 0,
            state: PickerState::Idle,
            matches: Vec::new(),
            selected: 0,
            dismissed: false,
        }
    }

    pub fn match_count(&self) -> (n: usize)
        ensures
            n == self.matches@.len(),
    {
        self.matches.len()
    }

    pub fn selected_index(&self) -> (ix: usize)
        ensures
            ix == self.selected,
    {
        self.selected
    }

    pub fn set_selected_index(&mut self, ix: usize)
        requires
            old(self).matches@.len() > 0 ==> (ix as int) < old(self).matches@.len(),
        ensures
            final(self).selected == ix,
            final(self).store == old(self).store,
            final(self).query == old(self).query,
            final(self).generation == old(self).generation,
            final(self).state == old(self).state,
            final(self).matches == old(self).matches,
            final(self).dismissed == old(self).dismissed,
            final(self).wf(),
    {
        self.selected = ix;
    }

    /// Bumps the generation, marks a recompute in flight, and builds the
    /// request from the current query and a fresh snapshot of the store.
    fn dispatch_recompute(&mut self) -> (req: RecomputeRequest)
        requires
            old(self).generation < u64::MAX,
        ensures
            final(self).generation == old(self).generation + 1,
            final(self).state is Recomputing,
            final(self).store == old(self).store,
            final(self).query == old(self).query,
            final(self).matches == old(self).matches,
            final(self).selected == old(self).selected,
            final(self).dismissed == old(self).dismissed,
            request_for(req, final(self).generation, old(self).query@, old(self).store@),
    {
        self.generation = self.generation + 1;
        self.state = PickerState::Recomputing;
        let generation = self.generation;
        let trimmed = str_trim_start(self.query.as_str());
        let smart_case = contains_uppercase(trimmed);
        let query = trimmed.to_owned();
        let n = self.store.length();
        let mut candidates: Vec<Candidate> = Vec::new();
        let mut i: usize = 0;
        while i < n
            invariant
                i <= n,
                n == self.store@.len(),
                candidates@.len() == i,
                forall|k: int|
                    0 <= k < i ==> (#[trigger] candidates@[k]).id == k && candidates@[k].text@
                        == self.store@[k].label@,
            decreases n - i,
        {
            if let Some(b) = self.store.get(i) {
                candidates.push(Candidate { id: i, text: b.label().clone() });
            }
            i = i + 1;
        }
        RecomputeRequest { generation, query, smart_case, candidates, limit: MATCH_LIMIT }
    }

    /// The user edited the query: remember it, supersede any recompute in
    /// flight, and hand back the request for a fresh one over a snapshot of
    /// the store. The current match list stays on screen until the result
    /// arrives.
    pub fn query_changed(&mut self, new_query: String) -> (req: RecomputeRequest)
        requires
            old(self).generation < u64::MAX,
        ensures
            final(self).query == new_query,
            final(self).generation == old(self).generation + 1,
            final(self).state is Recomputing,
            final(self).store == old(self).store,
            final(self).matches == old(self).matches,
            final(self).selected == old(self).selected,
            final(self).dismissed == old(self).dismissed,
            request_for(req, final(self).generation, new_query@, old(self).store@),
            old(self).wf() ==> final(self).wf(),
    {
        self.query = new_query;
        self.dispatch_recompute()
    }

    /// A recompute finished. A result for any generation but the current one
    /// was superseded and is discarded whole. The current one is applied:
    /// matches referencing dead store positions are dropped, the rest are
    /// sorted ascending by candidate id, and the selection moves to the
    /// best-scoring match, the last one among equal maxima.
    pub fn recompute_completed(&mut self, generation: u64, incoming: Vec<Match>)
        requires
            distinct_ids(incoming@),
        ensures
            generation != old(self).generation ==> *final(self) == *old(self),
            generation == old(self).generation ==> {
                &&& final(self).state is Idle
                &&& final(self).store == old(self).store
                &&& final(self).query == old(self).query
                &&& final(self).generation == old(self).generation
                &&& final(self).dismissed == old(self).dismissed
                &&& applied_matches(final(self).matches@, incoming@, old(self).store@.len() as int)
                &&& (final(self).matches@.len() == 0 ==> final(self).selected == 0)
                &&& (final(self).matches@.len() > 0 ==> is_last_best(
                    final(self).matches@,
                    final(self).selected as int,
                ))
                &&& final(self).wf()
            },
            old(self).wf() ==> final(self).wf(),
    {
        if generation != self.generation {
            return ;
        }
        let n = self.store.length();
        let sorted = sort_valid_matches(incoming, n);
        self.matches = sorted;
        if self.matches.len() == 0 {
            self.selected = 0;
        } else {
            self.selected = select_last_best(&self.matches);
        }
        self.state = PickerState::Idle;
    }

    /// The recompute worker failed to return a result for `generation`. The
    /// last good match list is kept; if the failure was the current
    /// recompute, the controller merely returns to rest.
    pub fn recompute_failed(&mut self, generation: u64)
        ensures
            final(self).store == old(self).store,
            final(self).query == old(self).query,
            final(self).generation == old(self).generation,
            final(self).matches == old(self).matches,
            final(self).selected == old(self).selected,
            final(self).dismissed == old(self).dismissed,
            generation == old(self).generation ==> final(self).state is Idle,
            generation != old(self).generation ==> final(self).state == old(self).state,
            old(self).wf() ==> final(self).wf(),
    {
        if generation == self.generation {
            self.state = PickerState::Idle;
        }
    }

    /// The user confirmed the selection: resolve the selected match to its
    /// bookmark and ask for navigation to its location and point. A missing
    /// selection, or a match whose id no longer references a live store
    /// position (stale between a deletion and the fresh recompute), is a
    /// no-op.
    pub fn confirm(&self) -> (r: Option<NavigationRequest>)
        ensures
            match r {
                Some(nav) => {
                    &&& (self.selected as int) < self.matches@.len()
                    &&& (self.matches@[self.selected as int].candidate_id as int)
                        < self.store@.len()
                    &&& nav.project_path == self.store@[self.matches@[self.selected as int].candidate_id as int].project_path
                    &&& nav.abs_path == self.store@[self.matches@[self.selected as int].candidate_id as int].abs_path
                    &&& nav.point == self.store@[self.matches@[self.selected as int].candidate_id as int].point
                },
                None => {
                    (self.selected as int) >= self.matches@.len() || (self.matches@[
                        self.selected as int
                    ].candidate_id as int) >= self.store@.len()
                },
            },
    {
        if self.selected >= self.matches.len() {
            return None;
        }
        let cid = self.matches[self.selected].candidate_id;
        match self.store.get(cid) {
            Some(b) => Some(
                NavigationRequest {
                    project_path: b.project_path().clone(),
                    abs_path: b.abs_path().clone(),
                    point: b.point(),
                },
            ),
            None => None,
        }
    }

    /// The user deleted the selected bookmark. The store entry at the
    /// selected match's candidate id is removed — every later position
    /// shifts down, invalidating outstanding ids — so a fresh recompute is
    /// re-issued at once over the shrunken store, and the selection drops by
    /// one as a provisional value pending that recompute. A missing selection
    /// or a dead candidate id is an internal invariant breach, reported as
    /// `OutOfRange` with the controller unchanged.
    pub fn delete_at_selection(&mut self) -> (r: Result<RecomputeRequest, StoreError>)
        requires
            old(self).generation < u64::MAX,
        ensures
            old(self).wf() ==> final(self).wf(),
            match r {
                Ok(req) => {
                    &&& (old(self).selected as int) < old(self).matches@.len()
                    &&& (old(self).matches@[old(self).selected as int].candidate_id as int)
                        < old(self).store@.len()
                    &&& final(self).store@ == old(self).store@.remove(
                        old(self).matches@[old(self).selected as int].candidate_id as int,
                    )
                    &&& final(self).matches == old(self).matches
                    &&& final(self).selected as int == (if old(self).selected > 0 {
                        old(self).selected - 1
                    } else {
                        0int
                    })
                    &&& final(self).query == old(self).query
                    &&& final(self).generation == old(self).generation + 1
                    &&& final(self).state is Recomputing
                    &&& final(self).dismissed == old(self).dismissed
                    &&& request_for(
                        req,
                        final(self).generation,
                        old(self).query@,
                        final(self).store@,
                    )
                },
                Err(e) => {
                    &&& e == StoreError::OutOfRange
                    &&& ((old(self).selected as int) >= old(self).matches@.len() || (old(
                        self,
                    ).matches@[old(self).selected as int].candidate_id as int) >= old(
                        self,
                    ).store@.len())
                    &&& *final(self) == *old(self)
                },
            },
    {
        if self.selected >= self.matches.len() {
            return Err(StoreError::OutOfRange);
        }
        let cid = self.matches[self.selected].candidate_id;
        if cid >= self.store.length() {
            return Err(StoreError::OutOfRange);
        }
        match self.store.remove_at(cid) {
            Ok(_removed) => {
                self.selected = if self.selected > 0 {
                    self.selected - 1
                } else {
                    0
                };
                Ok(self.dispatch_recompute())
            },
            Err(e) => Err(e),
        }
    }

    /// Advances the selection to the next match, wrapping past the end back
    /// to the first; with no matches this is a no-op.
    pub fn cycle_selection(&mut self)
        ensures
            final(self).store == old(self).store,
            final(self).query == old(self).query,
            final(self).generation == old(self).generation,
            final(self).state == old(self).state,
            final(self).matches == old(self).matches,
            final(self).dismissed == old(self).dismissed,
            old(self).matches@.len() == 0 ==> final(self).selected == old(self).selected,
            old(self).matches@.len() > 0 ==> final(self).selected as int == (if (old(
                self,
            ).selected as int) >= old(self).matches@.len() - 1 {
                0int
            } else {
                old(self).selected + 1
            }),
            old(self).wf() && old(self).matches@.len() > 0 ==> final(self).selected as int == (old(
                self,
            ).selected + 1) % (old(self).matches@.len() as int),
            old(self).wf() ==> final(self).wf(),
    {
        let n = self.matches.len();
        if n == 0 {
            return ;
        }
        if self.selected >= n - 1 {
            self.selected = 0;
        } else {
            self.selected = self.selected + 1;
        }
        proof {
            if old(self).wf() {
                let len = old(self).matches@.len() as int;
                let s = old(self).selected as int;
                if s >= len - 1 {
                    assert(s + 1 == len);
                    assert(len % len == 0) by (nonlinear_arith)
                        requires len > 0;
                } else {
                    vstd::arithmetic::div_mod::lemma_small_mod((s + 1) as nat, len as nat);
                }
            }
        }
    }

    /// The session is over: signal the hosting surface to close. Terminal —
    /// no further transitions are expected.
    pub fn dismiss(&mut self)
        ensures
            final(self).store == old(self).store,
            final(self).query == old(self).query,
            final(self).generation == old(self).generation,
            final(self).state == old(self).state,
            final(self).matches == old(self).matches,
            final(self).selected == old(self).selected,
            final(self).dismissed,
            old(self).wf() ==> final(self).wf(),
    {
        self.dismissed = true;
    }
}

} // verus!
