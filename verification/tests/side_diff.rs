use side_diff::diff_handle::DiffHandle;
use side_diff::diff_handle::Hunk;
use side_diff::editor::DiffError;
use side_diff::editor::Editor;
use side_diff::editor::PairError;
use side_diff::editor::RecomputeTicket;
use side_diff::model::ClosePolicy;

fn hunk(before_start: usize, before_end: usize, after_start: usize, after_end: usize) -> Hunk {
    Hunk { before_start, before_end, after_start, after_end }
}

fn diff_base_of(ed: &Editor, id: usize) -> String {
    ed.get(id).expect("document open").diff_handle().diff_base().clone()
}

#[test]
fn mutual_pairing() {
    let mut ed = Editor::new();
    let a = ed.open_document(String::from("a\n"));
    let b = ed.open_document(String::from("b\n"));
    assert_eq!(ed.establish_pair(a, b), Ok(()));
    assert_eq!(ed.get(a).unwrap().side_diff_peer_id(), Some(b));
    assert_eq!(ed.get(b).unwrap().side_diff_peer_id(), Some(a));
}

#[test]
fn no_self_pairing() {
    let mut ed = Editor::new();
    let a = ed.open_document(String::from("a\n"));
    assert_eq!(ed.establish_pair(a, a), Err(PairError::InvalidPair));
    assert_eq!(ed.get(a).unwrap().side_diff_peer_id(), None);
}

#[test]
fn repairing_requires_unpairing_first() {
    let mut ed = Editor::new();
    let a = ed.open_document(String::from("a\n"));
    let b = ed.open_document(String::from("b\n"));
    let c = ed.open_document(String::from("c\n"));
    assert_eq!(ed.establish_pair(a, b), Ok(()));
    assert_eq!(ed.establish_pair(a, c), Err(PairError::AlreadyPaired));
    assert_eq!(ed.establish_pair(c, b), Err(PairError::AlreadyPaired));
    // The refused requests changed nothing.
    assert_eq!(ed.get(a).unwrap().side_diff_peer_id(), Some(b));
    assert_eq!(ed.get(b).unwrap().side_diff_peer_id(), Some(a));
    assert_eq!(ed.get(c).unwrap().side_diff_peer_id(), None);
}

#[test]
fn edit_propagates_to_peer_base() {
    let mut ed = Editor::new();
    let a = ed.open_document(String::from("one\n"));
    let b = ed.open_document(String::from("two\n"));
    ed.establish_pair(a, b).unwrap();
    let ticket = ed.on_document_changed(a, String::from("one more\n")).expect("ticket issued");
    assert_eq!(ticket.doc, b);
    assert_eq!(diff_base_of(&ed, b), "one more\n");
    // The edited document's own handle is untouched.
    assert_eq!(diff_base_of(&ed, a), "");
    assert_eq!(ed.get(a).unwrap().text().as_str(), "one more\n");
}

#[test]
fn propagation_is_symmetric() {
    let mut ed = Editor::new();
    let a = ed.open_document(String::from("one\n"));
    let b = ed.open_document(String::from("two\n"));
    ed.establish_pair(a, b).unwrap();
    let t1 = ed.on_document_changed(b, String::from("two!\n")).expect("ticket issued");
    assert_eq!(t1.doc, a);
    assert_eq!(diff_base_of(&ed, a), "two!\n");
    let t2 = ed.on_document_changed(a, String::from("one!\n")).expect("ticket issued");
    assert_eq!(t2.doc, b);
    assert_eq!(diff_base_of(&ed, b), "one!\n");
}

#[test]
fn edit_without_peer_is_quiet() {
    let mut ed = Editor::new();
    let a = ed.open_document(String::from("solo\n"));
    assert_eq!(ed.on_document_changed(a, String::from("solo edited\n")), None);
    assert_eq!(ed.get(a).unwrap().text().as_str(), "solo edited\n");
    assert_eq!(diff_base_of(&ed, a), "");
}

#[test]
fn unlink_on_close() {
    let mut ed = Editor::new();
    let a = ed.open_document(String::from("a\n"));
    let b = ed.open_document(String::from("b\n"));
    ed.establish_pair(a, b).unwrap();
    ed.on_document_changed(a, String::from("a2\n"));
    assert_eq!(diff_base_of(&ed, b), "a2\n");
    ed.on_document_changed(b, String::from("b2\n"));
    assert_eq!(diff_base_of(&ed, a), "b2\n");

    ed.close_document(b);
    assert!(ed.get(b).is_none());
    assert_eq!(ed.get(a).unwrap().side_diff_peer_id(), None);
    // The survivor's diff view freezes on the last comparison.
    assert_eq!(diff_base_of(&ed, a), "b2\n");
    // A later edit of the survivor does not reach for the vanished peer.
    assert_eq!(ed.on_document_changed(a, String::from("a3\n")), None);
    assert_eq!(ed.get(a).unwrap().text().as_str(), "a3\n");
    assert_eq!(diff_base_of(&ed, a), "b2\n");
}

#[test]
fn default_close_policy_freezes() {
    let ed = Editor::new();
    assert_eq!(ed.close_policy(), ClosePolicy::FreezeLastDiff);
}

#[test]
fn reset_policy_reverts_survivor_to_empty_baseline() {
    let mut ed = Editor::with_close_policy(ClosePolicy::ResetToEmpty);
    assert_eq!(ed.close_policy(), ClosePolicy::ResetToEmpty);
    let a = ed.open_document(String::from("a\n"));
    let b = ed.open_document(String::from("b\n"));
    ed.establish_pair(a, b).unwrap();
    let in_flight = ed.on_document_changed(b, String::from("b2\n")).expect("ticket issued");
    assert_eq!(in_flight.doc, a);
    assert_eq!(diff_base_of(&ed, a), "b2\n");

    ed.close_document(b);
    assert_eq!(ed.get(a).unwrap().side_diff_peer_id(), None);
    let handle = ed.get(a).unwrap().diff_handle();
    assert_eq!(handle.diff_base().as_str(), "");
    assert!(handle.hunks().is_empty());
    assert_eq!(handle.generation(), in_flight.generation + 1);
    // The reset outpaces the worker: its late result is discarded.
    assert!(!ed.complete_recompute(in_flight, vec![hunk(0, 1, 0, 1)]));
    assert!(ed.get(a).unwrap().diff_handle().hunks().is_empty());
}

#[test]
fn close_hook_is_idempotent() {
    let mut ed = Editor::new();
    let a = ed.open_document(String::from("a\n"));
    let b = ed.open_document(String::from("b\n"));
    ed.establish_pair(a, b).unwrap();
    ed.close_document(b);
    assert_eq!(ed.get(a).unwrap().side_diff_peer_id(), None);
    // `a` is already unpaired: both further hook runs are no-ops.
    ed.on_document_closed(a);
    ed.on_document_closed(a);
    assert!(ed.get(a).is_some());
    assert_eq!(ed.get(a).unwrap().side_diff_peer_id(), None);
    assert_eq!(ed.get(a).unwrap().text().as_str(), "a\n");
    // The hook for the long-gone document is a no-op too.
    ed.on_document_closed(b);
    assert!(ed.get(b).is_none());
}

#[test]
fn stale_write_rejection() {
    let mut ed = Editor::new();
    let a = ed.open_document(String::from("base\n"));
    let b = ed.open_document(String::from("other\n"));
    ed.establish_pair(a, b).unwrap();
    let first = ed.on_document_changed(a, String::from("first\n")).expect("ticket issued");
    let second = ed.on_document_changed(a, String::from("second\n")).expect("ticket issued");
    assert_eq!(first.doc, b);
    assert_eq!(second.doc, b);
    assert_eq!(second.generation, first.generation + 1);

    // The slow recomputation for the first base finishes last: rejected.
    let fresh = vec![hunk(0, 1, 0, 1)];
    assert!(ed.complete_recompute(second, fresh.clone()));
    assert!(!ed.complete_recompute(first, vec![hunk(5, 6, 5, 6)]));

    let handle = ed.get(b).unwrap().diff_handle();
    assert_eq!(handle.diff_base().as_str(), "second\n");
    assert_eq!(handle.hunks().clone(), fresh);
    assert_eq!(handle.generation(), second.generation);
}

#[test]
fn recompute_for_closed_document_is_dropped() {
    let mut ed = Editor::new();
    let a = ed.open_document(String::from("a\n"));
    let b = ed.open_document(String::from("b\n"));
    ed.establish_pair(a, b).unwrap();
    let ticket = ed.on_document_changed(a, String::from("a2\n")).expect("ticket issued");
    ed.close_document(b);
    // The worker may finish after the document is gone: no panic, no effect.
    assert!(!ed.complete_recompute(ticket, vec![hunk(0, 1, 0, 1)]));
    assert!(ed.get(b).is_none());
}

#[test]
fn failed_recompute_keeps_previous_hunks() {
    let mut ed = Editor::new();
    let a = ed.open_document(String::from("a\n"));
    let b = ed.open_document(String::from("b\n"));
    ed.establish_pair(a, b).unwrap();
    let t1 = ed.on_document_changed(a, String::from("a2\n")).expect("ticket issued");
    let good = vec![hunk(0, 1, 0, 1)];
    assert_eq!(ed.apply_recompute_outcome(t1, Ok(good.clone())), Ok(true));
    let t2 = ed.on_document_changed(a, String::from("a3\n")).expect("ticket issued");
    assert_eq!(
        ed.apply_recompute_outcome(t2, Err(DiffError::DiffComputeFailed)),
        Err(DiffError::DiffComputeFailed)
    );
    let handle = ed.get(b).unwrap().diff_handle();
    // The new base is visible, the last good hunks stay in place.
    assert_eq!(handle.diff_base().as_str(), "a3\n");
    assert_eq!(handle.hunks().clone(), good);
}

#[test]
fn diff_handle_generation_checks() {
    let mut h = DiffHandle::new();
    assert_eq!(h.generation(), 0);
    assert_eq!(h.diff_base().as_str(), "");
    assert!(h.hunks().is_empty());

    let g1 = h.set_base(String::from("v1\n"));
    assert_eq!(g1, 1);
    let g2 = h.set_base(String::from("v2\n"));
    assert_eq!(g2, 2);
    // A result for the superseded base is discarded.
    assert!(!h.apply_recompute(g1, vec![hunk(0, 1, 0, 1)]));
    assert!(h.hunks().is_empty());
    // A result for the current base is installed.
    let hs = vec![hunk(1, 2, 1, 3)];
    assert!(h.apply_recompute(g2, hs.clone()));
    let (base, hunks) = h.load();
    assert_eq!(base.as_str(), "v2\n");
    assert_eq!(hunks.clone(), hs);
}

#[test]
fn recompute_ticket_carries_peer_and_generation() {
    let mut ed = Editor::new();
    let a = ed.open_document(String::from("x\n"));
    let b = ed.open_document(String::from("y\n"));
    ed.establish_pair(a, b).unwrap();
    let ticket = ed.on_document_changed(a, String::from("x2\n")).expect("ticket issued");
    assert_eq!(ticket, RecomputeTicket { doc: b, generation: 1 });
    assert_eq!(ed.get(b).unwrap().diff_handle().generation(), 1);
}

#[test]
fn get_out_of_range_is_none() {
    let ed = Editor::new();
    assert!(ed.get(0).is_none());
    assert!(ed.get(17).is_none());
}

#[test]
fn side_diff_updates_on_both_sides() {
    // Two files opened side by side in a diff split.
    let mut ed = Editor::new();
    let left = ed.open_document(String::from("left\n"));
    let right = ed.open_document(String::from("right\n"));
    assert!(ed.get(left).is_some(), "left document open");
    assert!(ed.get(right).is_some(), "right document open");
    ed.establish_pair(left, right).unwrap();
    // Opening delivers each side's content to the other as initial base.
    ed.on_document_changed(left, String::from("left\n"));
    ed.on_document_changed(right, String::from("right\n"));
    assert_eq!(diff_base_of(&ed, left), "right\n");
    assert_eq!(diff_base_of(&ed, right), "left\n");

    // Insert "right edit\n" at the start of the right document.
    let ticket = ed
        .on_document_changed(right, String::from("right edit\nright\n"))
        .expect("ticket issued");
    assert_eq!(ticket.doc, left);
    assert_eq!(diff_base_of(&ed, left), "right edit\nright\n");

    // Insert "left edit\n" at the start of the left document.
    let ticket = ed
        .on_document_changed(left, String::from("left edit\nleft\n"))
        .expect("ticket issued");
    assert_eq!(ticket.doc, right);
    assert_eq!(diff_base_of(&ed, right), "left edit\nleft\n");
}
