//! Notes: the pages of Drift.

use vstd::prelude::*;
use vstd::string::*;
use crate::text::{decimal, decimal_text, owned};

verus! {

/// The id of a note.
#[derive(Debug, Clone, PartialEq, Eq, Hash)]
pub struct NoteId(String);

impl View for NoteId {
    type V = Seq<char>;

    closed spec fn view(&self) -> Seq<char> {
        self.0@
    }
}

impl NoteId {
    pub fn new(value: String) -> (id: Self)
        ensures
            id@ == value@,
    {
        NoteId(value)
    }

    pub fn as_str(&self) -> (s: &str)
        ensures
            s@ == self@,
    {
        self.0.as_str()
    }
}

/// The id of a note created at a moment given in nanoseconds since the Unix
/// epoch: `note-` and the decimal count.
pub fn note_id_at(nanos: u128) -> (id: NoteId)
    ensures
        id@ == "note-"@ + decimal(nanos as nat),
{
    NoteId(owned("note-").concat(decimal_text(nanos).as_str()))
}

/// A note as the notebook lists it.
#[derive(Debug, Clone, PartialEq, Eq)]
pub struct NoteSummary {
    pub id: NoteId,
    pub title: String,
    pub excerpt: String,
    pub tags: Vec<String>,
}

/// A note with its full body.
#[derive(Debug, Clone, PartialEq, Eq)]
pub struct NoteDocument {
    pub summary: NoteSummary,
    pub body: String,
}

} // verus!
