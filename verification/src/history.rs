//! Drift's undo and redo: two bounded stacks of notebook snapshots.
//!
//! A snapshot holds every page and the page that was selected. Recording an
//! edit pushes the state before it onto the undo stack and forgets what could
//! be redone; undoing moves the current state onto the redo stack and hands
//! back the one to restore, and redoing does the reverse. Neither stack takes
//! the same snapshot twice in a row, and each keeps its newest
//! `MAX_HISTORY_STEPS` entries.

use vstd::prelude::*;
use crate::note::{NoteDocument, NoteId};
use crate::text::{same_text, views_of};

verus! {

/// How many steps each stack keeps.
pub const MAX_HISTORY_STEPS: usize = 100;

/// A page as plain values.
pub struct DocumentView {
    pub id: Seq<char>,
    pub title: Seq<char>,
    pub excerpt: Seq<char>,
    pub tags: Seq<Seq<char>>,
    pub body: Seq<char>,
}

pub open spec fn document_view(d: NoteDocument) -> DocumentView {
    DocumentView {
        id: d.summary.id@,
        title: d.summary.title@,
        excerpt: d.summary.excerpt@,
        tags: views_of(d.summary.tags@),
        body: d.body@,
    }
}

/// The state of the notebook that an undo or a redo brings back.
pub struct HistorySnapshot {
    pub notes: Vec<NoteDocument>,
    pub selected_note_id: Option<NoteId>,
}

/// A snapshot as plain values.
pub struct SnapshotView {
    pub notes: Seq<DocumentView>,
    pub selected: Option<Seq<char>>,
}

impl View for HistorySnapshot {
    type V = SnapshotView;

    open spec fn view(&self) -> SnapshotView {
        SnapshotView {
            notes: self.notes@.map_values(|d: NoteDocument| document_view(d)),
            selected: match self.selected_note_id {
                Some(id) => Some(id@),
                None => None,
            },
        }
    }
}

/// Whether two lists of tags hold the same texts in the same order.
fn same_tags(a: &Vec<String>, b: &Vec<String>) -> (r: bool)
    ensures
        r == (views_of(a@) == views_of(b@)),
{
    if a.len() != b.len() {
        assert(views_of(a@).len() != views_of(b@).len());
        return false;
    }
    let n = a.len();
    let mut i: usize = 0;
    while i < n
        invariant
            n == a.len(),
            n == b.len(),
            i <= n,
            forall|j: int| 0 <= j < i ==> a@[j]@ == b@[j]@,
        decreases n - i,
    {
        if !same_text(a[i].as_str(), b[i].as_str()) {
            assert(views_of(a@)[i as int] != views_of(b@)[i as int]);
            return false;
        }
        i = i + 1;
    }
    assert(views_of(a@) =~= views_of(b@));
    true
}

/// Whether two pages agree in every field.
fn same_document(a: &NoteDocument, b: &NoteDocument) -> (r: bool)
    ensures
        r == (document_view(*a) == document_view(*b)),
{
    same_text(a.summary.id.as_str(), b.summary.id.as_str())
        && same_text(a.summary.title.as_str(), b.summary.title.as_str())
        && same_text(a.summary.excerpt.as_str(), b.summary.excerpt.as_str())
        && same_tags(&a.summary.tags, &b.summary.tags)
        && same_text(a.body.as_str(), b.body.as_str())
}

/// Whether two snapshots hold the same pages, in the same order, and the same
/// selection.
pub fn same_snapshot(a: &HistorySnapshot, b: &HistorySnapshot) -> (r: bool)
    ensures
        r == (a@ == b@),
{
    let same_selection = match (&a.selected_note_id, &b.selected_note_id) {
        (Some(x), Some(y)) => same_text(x.as_str(), y.as_str()),
        (None, None) => true,
        _ => false,
    };
    if !same_selection {
        assert(a@.selected != b@.selected);
        return false;
    }
    if a.notes.len() != b.notes.len() {
        assert(a@.notes.len() != b@.notes.len());
        return false;
    }
    let n = a.notes.len();
    let mut i: usize = 0;
    while i < n
        invariant
            n == a.notes.len(),
            n == b.notes.len(),
            i <= n,
            forall|j: int| 0 <= j < i ==> document_view(a.notes@[j]) == document_view(b.notes@[j]),
        decreases n - i,
    {
        if !same_document(&a.notes[i], &b.notes[i]) {
            assert(a@.notes[i as int] != b@.notes[i as int]);
            return false;
        }
        i = i + 1;
    }
    assert(a@.notes =~= b@.notes);
    true
}

/// No two neighbouring entries are the same snapshot.
pub open spec fn no_repeats(stack: Seq<SnapshotView>) -> bool {
    forall|i: int| 0 <= i < stack.len() - 1 ==> #[trigger] stack[i] != stack[i + 1]
}

/// What a stack may hold: at most `MAX_HISTORY_STEPS` entries, no snapshot
/// twice in a row.
pub open spec fn stack_ok(stack: Seq<SnapshotView>) -> bool {
    stack.len() <= MAX_HISTORY_STEPS && no_repeats(stack)
}

/// The stack after `s` is offered to it: unchanged when `s` is already on
/// top; else `s` goes on top and, past the limit, the oldest entry leaves.
pub open spec fn pushed(stack: Seq<SnapshotView>, s: SnapshotView) -> Seq<SnapshotView> {
    if stack.len() > 0 && stack.last() == s {
        stack
    } else if stack.len() + 1 > MAX_HISTORY_STEPS {
        stack.push(s).drop_first()
    } else {
        stack.push(s)
    }
}

pub open spec fn stack_view(v: Seq<HistorySnapshot>) -> Seq<SnapshotView> {
    v.map_values(|h: HistorySnapshot| h@)
}

/// Offering a snapshot keeps a stack within what it may hold and leaves that
/// snapshot on top.
pub proof fn lemma_pushed_ok(stack: Seq<SnapshotView>, s: SnapshotView)
    requires
        stack_ok(stack),
    ensures
        stack_ok(pushed(stack, s)),
        pushed(stack, s).len() > 0,
        pushed(stack, s).last() == s,
{
    let p = pushed(stack, s);
    if stack.len() > 0 && stack.last() == s {
    } else if stack.len() + 1 > MAX_HISTORY_STEPS {
        let q = stack.push(s);
        assert forall|i: int| 0 <= i < p.len() - 1 implies #[trigger] p[i] != p[i + 1] by {
            assert(p[i] == q[i + 1]);
            assert(p[i + 1] == q[i + 2]);
            if i + 2 < q.len() - 1 {
                assert(stack[i + 1] != stack[i + 2]);
            }
        }
    } else {
        assert forall|i: int| 0 <= i < p.len() - 1 implies #[trigger] p[i] != p[i + 1] by {
            if i + 1 < stack.len() {
                assert(stack[i] != stack[i + 1]);
            }
        }
    }
}

fn push_onto(stack: &mut Vec<HistorySnapshot>, s: HistorySnapshot)
    ensures
        stack_view(final(stack)@) == pushed(stack_view(old(stack)@), s@),
{
    let ghost before = stack_view(stack@);
    let n = stack.len();
    if n > 0 && same_snapshot(&stack[n - 1], &s) {
        return;
    }
    stack.push(s);
    assert(stack_view(stack@) =~= before.push(s@));
    if stack.len() > MAX_HISTORY_STEPS {
        stack.remove(0);
        assert(stack_view(stack@) =~= before.push(s@).drop_first());
    }
}

/// Both stacks as plain values, newest entry last.
pub struct HistoryView {
    pub undo: Seq<SnapshotView>,
    pub redo: Seq<SnapshotView>,
}

pub open spec fn history_ok(h: HistoryView) -> bool {
    stack_ok(h.undo) && stack_ok(h.redo)
}

/// The history after an edit from state `before`.
pub open spec fn recorded(h: HistoryView, before: SnapshotView) -> HistoryView {
    HistoryView { undo: pushed(h.undo, before), redo: Seq::empty() }
}

/// The history after an undo from state `current`, and the state to restore.
pub open spec fn undone(h: HistoryView, current: SnapshotView) -> (HistoryView, Option<SnapshotView>) {
    if h.undo.len() == 0 {
        (h, None)
    } else {
        (
            HistoryView { undo: h.undo.drop_last(), redo: pushed(h.redo, current) },
            Some(h.undo.last()),
        )
    }
}

/// The history after a redo from state `current`, and the state to restore.
pub open spec fn redone(h: HistoryView, current: SnapshotView) -> (HistoryView, Option<SnapshotView>) {
    if h.redo.len() == 0 {
        (h, None)
    } else {
        (
            HistoryView { undo: pushed(h.undo, current), redo: h.redo.drop_last() },
            Some(h.redo.last()),
        )
    }
}

pub open spec fn opt_snapshot_view(o: Option<HistorySnapshot>) -> Option<SnapshotView> {
    match o {
        Some(h) => Some(h@),
        None => None,
    }
}

/// The undo and redo stacks of one editor window.
pub struct EditHistory {
    undo: Vec<HistorySnapshot>,
    redo: Vec<HistorySnapshot>,
}

impl View for EditHistory {
    type V = HistoryView;

    closed spec fn view(&self) -> HistoryView {
        HistoryView { undo: stack_view(self.undo@), redo: stack_view(self.redo@) }
    }
}

impl EditHistory {
    /// A history with nothing to undo or redo.
    pub fn new() -> (h: Self)
        ensures
            h@.undo.len() == 0,
            h@.redo.len() == 0,
            history_ok(h@),
    {
        let h = EditHistory { undo: Vec::new(), redo: Vec::new() };
        assert(h@.undo =~= Seq::<SnapshotView>::empty());
        assert(h@.redo =~= Seq::<SnapshotView>::empty());
        h
    }

    pub fn can_undo(&self) -> (r: bool)
        ensures
            r == (self@.undo.len() > 0),
    {
        self.undo.len() > 0
    }

    pub fn can_redo(&self) -> (r: bool)
        ensures
            r == (self@.redo.len() > 0),
    {
        self.redo.len() > 0
    }

    /// Keeps the state from before an edit, so that an undo can bring it
    /// back; what could be redone is forgotten.
    pub fn record(&mut self, before: HistorySnapshot)
        requires
            history_ok(old(self)@),
        ensures
            final(self)@ == recorded(old(self)@, before@),
            history_ok(final(self)@),
    {
        proof {
            lemma_pushed_ok(self@.undo, before@);
        }
        push_onto(&mut self.undo, before);
        self.redo.clear();
        assert(self@.redo =~= Seq::<SnapshotView>::empty());
    }

    /// Steps back: `current` goes onto the redo stack and the newest state of
    /// the undo stack comes back. With nothing to undo, nothing changes.
    pub fn undo(&mut self, current: HistorySnapshot) -> (restored: Option<HistorySnapshot>)
        requires
            history_ok(old(self)@),
        ensures
            (final(self)@, opt_snapshot_view(restored)) == undone(old(self)@, current@),
            history_ok(final(self)@),
    {
        let ghost before = self@;
        match self.undo.pop() {
            None => None,
            Some(previous) => {
                proof {
                    assert(stack_view(self.undo@) =~= before.undo.drop_last());
                    lemma_pushed_ok(before.redo, current@);
                    lemma_drop_last_ok(before.undo);
                }
                push_onto(&mut self.redo, current);
                Some(previous)
            },
        }
    }

    /// Steps forward again: `current` goes onto the undo stack and the newest
    /// state of the redo stack comes back. With nothing to redo, nothing
    /// changes.
    pub fn redo(&mut self, current: HistorySnapshot) -> (restored: Option<HistorySnapshot>)
        requires
            history_ok(old(self)@),
        ensures
            (final(self)@, opt_snapshot_view(restored)) == redone(old(self)@, current@),
            history_ok(final(self)@),
    {
        let ghost before = self@;
        match self.redo.pop() {
            None => None,
            Some(next) => {
                proof {
                    assert(stack_view(self.redo@) =~= before.redo.drop_last());
                    lemma_pushed_ok(before.undo, current@);
                    lemma_drop_last_ok(before.redo);
                }
                push_onto(&mut self.undo, current);
                Some(next)
            },
        }
    }
}

proof fn lemma_drop_last_ok(stack: Seq<SnapshotView>)
    requires
        stack_ok(stack),
        stack.len() > 0,
    ensures
        stack_ok(stack.drop_last()),
{
    let d = stack.drop_last();
    assert forall|i: int| 0 <= i < d.len() - 1 implies #[trigger] d[i] != d[i + 1] by {
        assert(stack[i] != stack[i + 1]);
    }
}

/// An undo right after an edit brings back the state from before that edit.
pub proof fn lemma_undo_after_record(h: HistoryView, before: SnapshotView, current: SnapshotView)
    requires
        history_ok(h),
    ensures
        undone(recorded(h, before), current).1 == Some(before),
{
    lemma_pushed_ok(h.undo, before);
}

/// A redo right after an undo brings back the state the undo left, and the
/// undo stack is as it was before the undo. The redo stack is too, unless the
/// undo found it full or with that state already on top.
pub proof fn lemma_redo_reverts_undo(h: HistoryView, current: SnapshotView)
    requires
        history_ok(h),
        h.undo.len() > 0,
    ensures
        ({
            let (h1, restored) = undone(h, current);
            let (h2, again) = redone(h1, restored.unwrap());
            &&& again == Some(current)
            &&& h2.undo == h.undo
            &&& (h.redo.len() < MAX_HISTORY_STEPS && (h.redo.len() == 0 || h.redo.last() != current))
                ==> h2.redo == h.redo
        }),
{
    let (h1, restored) = undone(h, current);
    lemma_pushed_ok(h.redo, current);
    lemma_stack_restored(h.undo);
    if h.redo.len() < MAX_HISTORY_STEPS && (h.redo.len() == 0 || h.redo.last() != current) {
        assert(h1.redo.drop_last() =~= h.redo);
    }
}

/// An undo right after a redo brings back the state the redo left, and the
/// redo stack is as it was before the redo. The undo stack is too, unless the
/// redo found it full or with that state already on top.
pub proof fn lemma_undo_reverts_redo(h: HistoryView, current: SnapshotView)
    requires
        history_ok(h),
        h.redo.len() > 0,
    ensures
        ({
            let (h1, restored) = redone(h, current);
            let (h2, again) = undone(h1, restored.unwrap());
            &&& again == Some(current)
            &&& h2.redo == h.redo
            &&& (h.undo.len() < MAX_HISTORY_STEPS && (h.undo.len() == 0 || h.undo.last() != current))
                ==> h2.undo == h.undo
        }),
{
    let (h1, restored) = redone(h, current);
    lemma_pushed_ok(h.undo, current);
    lemma_stack_restored(h.redo);
    if h.undo.len() < MAX_HISTORY_STEPS && (h.undo.len() == 0 || h.undo.last() != current) {
        assert(h1.undo.drop_last() =~= h.undo);
    }
}

/// Taking the top off a stack and offering it back gives the same stack.
proof fn lemma_stack_restored(stack: Seq<SnapshotView>)
    requires
        stack_ok(stack),
        stack.len() > 0,
    ensures
        pushed(stack.drop_last(), stack.last()) == stack,
{
    let d = stack.drop_last();
    if d.len() > 0 {
        assert(stack[d.len() - 1] != stack[d.len() as int]);
    }
    assert(d.push(stack.last()) =~= stack);
}

/// How many steps a text block's own undo stack keeps.
pub const MAX_UNDO_STEPS: usize = 100;

/// The stack after `s` is pushed onto it: past the limit, the oldest entry
/// leaves.
pub open spec fn capped_push<T>(stack: Seq<T>, s: T) -> Seq<T> {
    if stack.len() + 1 > MAX_UNDO_STEPS {
        stack.push(s).drop_first()
    } else {
        stack.push(s)
    }
}

/// The undo and redo stacks a text block keeps of its own contents.
pub struct BlockEditHistory<T> {
    undo: Vec<T>,
    redo: Vec<T>,
}

/// Both stacks of a block, newest entry last.
pub struct BlockHistoryView<T> {
    pub undo: Seq<T>,
    pub redo: Seq<T>,
}

impl<T> View for BlockEditHistory<T> {
    type V = BlockHistoryView<T>;

    closed spec fn view(&self) -> BlockHistoryView<T> {
        BlockHistoryView { undo: self.undo@, redo: self.redo@ }
    }
}

impl<T> BlockEditHistory<T> {
    /// A block history with nothing to undo or redo.
    pub fn new() -> (h: Self)
        ensures
            h@.undo.len() == 0,
            h@.redo.len() == 0,
    {
        BlockEditHistory { undo: Vec::new(), redo: Vec::new() }
    }

    /// Keeps the block's contents from before an edit; what could be redone
    /// is forgotten, and the stack keeps its newest `MAX_UNDO_STEPS` entries.
    pub fn record(&mut self, before: T)
        ensures
            final(self)@.undo == capped_push(old(self)@.undo, before),
            final(self)@.redo.len() == 0,
    {
        let ghost old_undo = self.undo@;
        self.undo.push(before);
        if self.undo.len() > MAX_UNDO_STEPS {
            self.undo.remove(0);
            assert(self.undo@ =~= old_undo.push(before).drop_first());
        }
        self.redo.clear();
    }

    pub fn undo_len(&self) -> (n: usize)
        ensures
            n == self@.undo.len(),
    {
        self.undo.len()
    }

    pub fn redo_len(&self) -> (n: usize)
        ensures
            n == self@.redo.len(),
    {
        self.redo.len()
    }
}

/// A block's undo stack never holds more than `MAX_UNDO_STEPS` entries, and
/// its newest entry is the one pushed last.
pub proof fn lemma_capped_push_bounded<T>(stack: Seq<T>, s: T)
    requires
        stack.len() <= MAX_UNDO_STEPS,
    ensures
        capped_push(stack, s).len() <= MAX_UNDO_STEPS,
        capped_push(stack, s).last() == s,
{
}

} // verus!
