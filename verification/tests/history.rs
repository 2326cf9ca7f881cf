use orbitalos::history::{
    same_snapshot, BlockEditHistory, EditHistory, HistorySnapshot, MAX_HISTORY_STEPS, MAX_UNDO_STEPS,
};
use orbitalos::note::{NoteDocument, NoteId, NoteSummary};

fn page(id: &str, body: &str, tags: &[&str]) -> NoteDocument {
    NoteDocument {
        summary: NoteSummary {
            id: NoteId::new(id.to_string()),
            title: format!("Title {id}"),
            excerpt: String::new(),
            tags: tags.iter().map(|t| t.to_string()).collect(),
        },
        body: body.to_string(),
    }
}

fn state(body: &str) -> HistorySnapshot {
    HistorySnapshot {
        notes: vec![page("note-1", body, &["a"])],
        selected_note_id: Some(NoteId::new("note-1".to_string())),
    }
}

fn body_of(s: &HistorySnapshot) -> String {
    s.notes[0].body.clone()
}

#[test]
fn snapshots_compare_by_every_field() {
    assert!(same_snapshot(&state("x"), &state("x")));
    assert!(!same_snapshot(&state("x"), &state("y")));
    let mut other_tags = state("x");
    other_tags.notes[0].summary.tags.push("b".to_string());
    assert!(!same_snapshot(&state("x"), &other_tags));
    let mut unselected = state("x");
    unselected.selected_note_id = None;
    assert!(!same_snapshot(&state("x"), &unselected));
    let mut more_pages = state("x");
    more_pages.notes.push(page("note-2", "", &[]));
    assert!(!same_snapshot(&state("x"), &more_pages));
}

#[test]
fn empty_history_has_nothing_to_undo_or_redo() {
    let mut h = EditHistory::new();
    assert!(!h.can_undo());
    assert!(!h.can_redo());
    assert!(h.undo(state("now")).is_none());
    assert!(h.redo(state("now")).is_none());
    assert!(!h.can_undo());
    assert!(!h.can_redo());
}

#[test]
fn undo_brings_back_the_state_before_the_edit() {
    let mut h = EditHistory::new();
    h.record(state("v1"));
    let restored = h.undo(state("v2")).expect("one step to undo");
    assert_eq!(body_of(&restored), "v1");
    assert!(!h.can_undo());
    assert!(h.can_redo());
    let again = h.redo(state("v1")).expect("one step to redo");
    assert_eq!(body_of(&again), "v2");
    assert!(h.can_undo());
    assert!(!h.can_redo());
}

#[test]
fn recording_forgets_what_could_be_redone() {
    let mut h = EditHistory::new();
    h.record(state("v1"));
    h.undo(state("v2"));
    assert!(h.can_redo());
    h.record(state("v1"));
    assert!(!h.can_redo());
}

#[test]
fn the_same_state_is_kept_once_in_a_row() {
    let mut h = EditHistory::new();
    h.record(state("v1"));
    h.record(state("v1"));
    assert_eq!(body_of(&h.undo(state("v2")).unwrap()), "v1");
    assert!(!h.can_undo());
}

#[test]
fn each_stack_keeps_the_newest_steps() {
    let mut h = EditHistory::new();
    for i in 0..(MAX_HISTORY_STEPS + 5) {
        h.record(state(&format!("v{i}")));
    }
    let mut steps = 0;
    let mut last = String::new();
    while let Some(s) = h.undo(state("now")) {
        steps += 1;
        last = body_of(&s);
    }
    assert_eq!(steps, MAX_HISTORY_STEPS);
    assert_eq!(last, "v5");
}

#[test]
fn block_history_keeps_the_newest_steps() {
    let mut h: BlockEditHistory<String> = BlockEditHistory::new();
    assert_eq!((h.undo_len(), h.redo_len()), (0, 0));
    for i in 0..(MAX_UNDO_STEPS + 3) {
        h.record(format!("text {i}"));
    }
    assert_eq!(h.undo_len(), MAX_UNDO_STEPS);
    assert_eq!(h.redo_len(), 0);
}
