use bookmarks::matching::Match;
use bookmarks::picker::{PickerController, PickerState};
use bookmarks::store::{Bookmark, BookmarkStore, Point, StoreError};

fn store_of(labels: &[&str]) -> BookmarkStore {
    let mut s = BookmarkStore::new();
    let mut row: u32 = 1;
    for label in labels {
        s.append(Bookmark::new(
            label,
            format!("src/{}.rs", row),
            format!("/project/src/{}.rs", row),
            Point { row, column: 0 },
        ));
        row += 1;
    }
    s
}

fn m(candidate_id: usize, score: u64) -> Match {
    Match { candidate_id, score, positions: Vec::new() }
}

#[test]
fn new_controller_is_empty_and_idle() {
    let c = PickerController::new(store_of(&["one"]));
    assert_eq!(c.match_count(), 0);
    assert_eq!(c.state, PickerState::Idle);
    assert!(!c.dismissed);
}

#[test]
fn query_changed_snapshots_candidates() {
    let mut c = PickerController::new(store_of(&["fix bug", "add test"]));
    let req = c.query_changed(String::from("fi"));
    assert_eq!(req.generation, 1);
    assert_eq!(req.query.as_str(), "fi");
    assert!(!req.smart_case);
    assert_eq!(req.limit, 100);
    assert_eq!(req.candidates.len(), 2);
    assert_eq!(req.candidates[0].id, 0);
    assert_eq!(req.candidates[0].text.as_str(), "fix bug");
    assert_eq!(req.candidates[1].id, 1);
    assert_eq!(req.candidates[1].text.as_str(), "add test");
    assert_eq!(c.state, PickerState::Recomputing);
}

#[test]
fn query_leading_whitespace_is_trimmed() {
    let mut c = PickerController::new(store_of(&["one"]));
    let req = c.query_changed(String::from("  fix"));
    assert_eq!(req.query.as_str(), "fix");
}

#[test]
fn smart_case_follows_uppercase() {
    let mut c = PickerController::new(store_of(&["one"]));
    let lower = c.query_changed(String::from("fix"));
    assert!(!lower.smart_case);
    let upper = c.query_changed(String::from("Fix"));
    assert!(upper.smart_case);
}

#[test]
fn recompute_sorts_by_candidate_id() {
    let mut c = PickerController::new(store_of(&["a", "b", "c"]));
    let req = c.query_changed(String::new());
    c.recompute_completed(req.generation, vec![m(2, 7), m(0, 9), m(1, 8)]);
    assert_eq!(c.match_count(), 3);
    assert_eq!(c.matches[0].candidate_id, 0);
    assert_eq!(c.matches[1].candidate_id, 1);
    assert_eq!(c.matches[2].candidate_id, 2);
    assert_eq!(c.state, PickerState::Idle);
}

#[test]
fn selection_is_in_range_after_recompute() {
    let mut c = PickerController::new(store_of(&["a", "b", "c"]));
    let req = c.query_changed(String::new());
    c.recompute_completed(req.generation, vec![m(1, 3), m(2, 1)]);
    assert!(c.match_count() > 0);
    assert!(c.selected_index() < c.match_count());
}

#[test]
fn tie_break_prefers_last_max() {
    let mut c = PickerController::new(store_of(&["a", "b", "c"]));
    let req = c.query_changed(String::new());
    let scores = [0.5f64, 0.9, 0.9];
    let incoming = vec![
        m(0, scores[0].to_bits()),
        m(1, scores[1].to_bits()),
        m(2, scores[2].to_bits()),
    ];
    c.recompute_completed(req.generation, incoming);
    assert_eq!(c.selected_index(), 2);
    assert_eq!(c.matches[c.selected_index()].candidate_id, 2);
}

#[test]
fn cycle_selection_wraps_around() {
    let mut c = PickerController::new(store_of(&["a", "b", "c"]));
    let req = c.query_changed(String::new());
    c.recompute_completed(req.generation, vec![m(0, 5), m(1, 5), m(2, 4)]);
    assert_eq!(c.selected_index(), 1);
    c.set_selected_index(0);
    c.cycle_selection();
    assert_eq!(c.selected_index(), 1);
    c.cycle_selection();
    assert_eq!(c.selected_index(), 2);
    c.cycle_selection();
    assert_eq!(c.selected_index(), 0);
}

#[test]
fn cycle_selection_without_matches_is_noop() {
    let mut c = PickerController::new(store_of(&["a"]));
    c.cycle_selection();
    assert_eq!(c.selected_index(), 0);
    assert_eq!(c.match_count(), 0);
}

#[test]
fn empty_query_covers_all_ids_once() {
    let mut c = PickerController::new(store_of(&["a", "b", "c"]));
    let req = c.query_changed(String::new());
    assert_eq!(req.candidates.len(), 3);
    // an empty query matches every candidate; hand the full set back unordered
    c.recompute_completed(req.generation, vec![m(1, 2), m(2, 3), m(0, 1)]);
    assert_eq!(c.match_count(), 3);
    for i in 0..3 {
        assert_eq!(c.matches[i].candidate_id, i);
    }
}

#[test]
fn confirm_resolves_selected_bookmark() {
    let a_point = Point { row: 1, column: 0 };
    let mut c = PickerController::new(store_of(&["fix bug", "add test"]));
    let req = c.query_changed(String::from("fi"));
    c.recompute_completed(req.generation, vec![m(0, 9)]);
    assert_eq!(c.match_count(), 1);
    assert_eq!(c.matches[0].candidate_id, 0);
    let nav = c.confirm().unwrap();
    assert_eq!(nav.project_path.as_str(), "src/1.rs");
    assert_eq!(nav.abs_path.as_str(), "/project/src/1.rs");
    assert_eq!(nav.point, a_point);
}

#[test]
fn confirm_without_matches_is_noop() {
    let c = PickerController::new(store_of(&["one"]));
    assert!(c.confirm().is_none());
}

#[test]
fn delete_shrinks_store_and_shifts_ids() {
    let mut c = PickerController::new(store_of(&["a", "b", "c"]));
    let req = c.query_changed(String::new());
    c.recompute_completed(req.generation, vec![m(0, 3), m(1, 2), m(2, 1)]);
    c.set_selected_index(0);
    let req2 = c.delete_at_selection().unwrap();
    assert_eq!(c.store.length(), 2);
    assert_eq!(c.store.get(0).unwrap().label().as_str(), "b");
    assert_eq!(req2.candidates.len(), 2);
    assert_eq!(req2.candidates[0].id, 0);
    assert_eq!(req2.candidates[1].id, 1);
    // the fresh recompute can no longer reference the old last position
    c.recompute_completed(req2.generation, vec![m(0, 2), m(1, 1)]);
    for i in 0..c.match_count() {
        assert!(c.matches[i].candidate_id < 2);
    }
}

#[test]
fn stale_ids_are_dropped_not_crashed() {
    let mut c = PickerController::new(store_of(&["a", "b"]));
    let req = c.query_changed(String::new());
    // id 5 references no live store position: skippable, never an error
    c.recompute_completed(req.generation, vec![m(0, 1), m(5, 9), m(1, 2)]);
    assert_eq!(c.match_count(), 2);
    assert_eq!(c.matches[0].candidate_id, 0);
    assert_eq!(c.matches[1].candidate_id, 1);
}

#[test]
fn delete_adjusts_selection_provisionally() {
    let mut c = PickerController::new(store_of(&["a", "b", "c"]));
    let req = c.query_changed(String::new());
    c.recompute_completed(req.generation, vec![m(0, 1), m(1, 2), m(2, 3)]);
    assert_eq!(c.selected_index(), 2);
    c.delete_at_selection().unwrap();
    assert_eq!(c.selected_index(), 1);
}

#[test]
fn delete_without_selection_is_out_of_range() {
    let mut c = PickerController::new(store_of(&["a"]));
    let r = c.delete_at_selection();
    assert_eq!(r.err().unwrap(), StoreError::OutOfRange);
    assert_eq!(c.store.length(), 1);
}

#[test]
fn delete_with_dead_candidate_id_is_out_of_range() {
    let mut c = PickerController::new(store_of(&["a"]));
    let req = c.query_changed(String::new());
    c.recompute_completed(req.generation, vec![m(0, 1)]);
    c.delete_at_selection().unwrap();
    assert_eq!(c.store.length(), 0);
    // the match list is stale until the fresh recompute lands
    let r = c.delete_at_selection();
    assert_eq!(r.err().unwrap(), StoreError::OutOfRange);
}

#[test]
fn superseded_recompute_is_discarded() {
    let mut c = PickerController::new(store_of(&["a", "b"]));
    let old_req = c.query_changed(String::from("a"));
    let new_req = c.query_changed(String::from("b"));
    // the older result arrives late: last writer wins
    c.recompute_completed(old_req.generation, vec![m(0, 9)]);
    assert_eq!(c.match_count(), 0);
    assert_eq!(c.state, PickerState::Recomputing);
    c.recompute_completed(new_req.generation, vec![m(1, 9)]);
    assert_eq!(c.match_count(), 1);
    assert_eq!(c.matches[0].candidate_id, 1);
    assert_eq!(c.state, PickerState::Idle);
}

#[test]
fn failed_recompute_keeps_last_good_list() {
    let mut c = PickerController::new(store_of(&["a", "b"]));
    let req = c.query_changed(String::new());
    c.recompute_completed(req.generation, vec![m(0, 1), m(1, 2)]);
    let req2 = c.query_changed(String::from("x"));
    c.recompute_failed(req2.generation);
    assert_eq!(c.match_count(), 2);
    assert_eq!(c.state, PickerState::Idle);
}

#[test]
fn dismiss_is_terminal_signal() {
    let mut c = PickerController::new(store_of(&["a"]));
    c.dismiss();
    assert!(c.dismissed);
}

#[test]
fn empty_store_yields_no_candidates_or_matches() {
    let mut c = PickerController::new(BookmarkStore::new());
    let req = c.query_changed(String::from("anything"));
    assert_eq!(req.candidates.len(), 0);
    c.recompute_completed(req.generation, Vec::new());
    assert_eq!(c.match_count(), 0);
    assert_eq!(c.selected_index(), 0);
    assert!(c.confirm().is_none());
}

#[test]
fn duplicate_labels_are_allowed_and_kept_apart_by_position() {
    let mut c = PickerController::new(store_of(&["same", "same"]));
    let req = c.query_changed(String::new());
    assert_eq!(req.candidates.len(), 2);
    assert_eq!(req.candidates[0].text.as_str(), "same");
    assert_eq!(req.candidates[1].text.as_str(), "same");
    c.recompute_completed(req.generation, vec![m(0, 4), m(1, 4)]);
    assert_eq!(c.match_count(), 2);
    assert_eq!(c.selected_index(), 1);
}
