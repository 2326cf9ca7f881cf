//! Snapshots: the items of Blink's library.

use vstd::prelude::*;
use vstd::string::*;
use crate::error::{OrbitalError, OrbitalResult};
use crate::text::{decimal, decimal_text, owned, same_text};

verus! {

/// The entity type under which snapshots are tagged and logged.
pub const SNAPSHOT_ENTITY_TYPE: &'static str = "snapshot";

/// The id of a snapshot.
#[derive(Debug, Clone, PartialEq, Eq, Hash)]
pub struct SnapshotId(String);

impl View for SnapshotId {
    type V = Seq<char>;

    closed spec fn view(&self) -> Seq<char> {
        self.0@
    }
}

impl SnapshotId {
    pub fn new(value: String) -> (id: Self)
        ensures
            id@ == value@,
    {
        SnapshotId(value)
    }

    pub fn as_str(&self) -> (s: &str)
        ensures
            s@ == self@,
    {
        self.0.as_str()
    }

    /// The id as text, as it is shown.
    pub fn to_string(&self) -> (s: String)
        ensures
            s@ == self@,
    {
        self.0.clone()
    }
}

impl From<String> for SnapshotId {
    fn from(value: String) -> (id: Self)
        ensures
            id@ == value@,
    {
        SnapshotId(value)
    }
}

impl vstd::std_specs::convert::FromSpecImpl<String> for SnapshotId {
    open spec fn obeys_from_spec() -> bool {
        true
    }

    closed spec fn from_spec(v: String) -> SnapshotId {
        SnapshotId(v)
    }
}

/// An id made from a string holds that string.
pub proof fn lemma_from_spec_holds_value(v: String)
    ensures
        <SnapshotId as vstd::std_specs::convert::FromSpec<String>>::from_spec(v)@ == v@,
{
}

/// The id of a snapshot created at a moment given in nanoseconds since the
/// Unix epoch: `snapshot-` and the decimal count.
pub fn snapshot_id_at(nanos: u128) -> (id: SnapshotId)
    ensures
        id@ == "snapshot-"@ + decimal(nanos as nat),
{
    SnapshotId(owned("snapshot-").concat(decimal_text(nanos).as_str()))
}

/// The kind of content a snapshot holds.
#[derive(Debug, Clone, Copy, PartialEq, Eq, Structural)]
pub enum SnapshotKind {
    Link,
    Image,
    File,
    Text,
}

/// The name under which a kind is stored.
pub open spec fn kind_storage_name(kind: SnapshotKind) -> Seq<char> {
    match kind {
        SnapshotKind::Link => "link"@,
        SnapshotKind::Image => "image"@,
        SnapshotKind::File => "file"@,
        SnapshotKind::Text => "text"@,
    }
}

/// The name under which a kind is shown.
pub open spec fn kind_label(kind: SnapshotKind) -> Seq<char> {
    match kind {
        SnapshotKind::Link => "Link"@,
        SnapshotKind::Image => "Image"@,
        SnapshotKind::File => "File"@,
        SnapshotKind::Text => "Text"@,
    }
}

/// The kind a stored name denotes, if any.
pub open spec fn kind_from_storage_name(value: Seq<char>) -> Option<SnapshotKind> {
    if value == "link"@ {
        Some(SnapshotKind::Link)
    } else if value == "image"@ {
        Some(SnapshotKind::Image)
    } else if value == "file"@ {
        Some(SnapshotKind::File)
    } else if value == "text"@ {
        Some(SnapshotKind::Text)
    } else {
        None
    }
}

/// The error a stored kind that names no kind gives.
pub const INVALID_KIND_MESSAGE: &'static str = "snapshot kind stored in database is invalid";

impl SnapshotKind {
    pub fn as_str(self) -> (s: &'static str)
        ensures
            s@ == kind_storage_name(self),
    {
        match self {
            SnapshotKind::Link => "link",
            SnapshotKind::Image => "image",
            SnapshotKind::File => "file",
            SnapshotKind::Text => "text",
        }
    }

    pub fn label(self) -> (s: &'static str)
        ensures
            s@ == kind_label(self),
    {
        match self {
            SnapshotKind::Link => "Link",
            SnapshotKind::Image => "Image",
            SnapshotKind::File => "File",
            SnapshotKind::Text => "Text",
        }
    }

    /// The kind a stored name denotes; a name that denotes none is a broken
    /// data invariant.
    pub fn from_stored(value: &str) -> (r: OrbitalResult<Self>)
        ensures
            match kind_from_storage_name(value@) {
                Some(k) => r == Ok::<SnapshotKind, OrbitalError>(k),
                None => r == Err::<SnapshotKind, OrbitalError>(
                    OrbitalError::DataInvariant(INVALID_KIND_MESSAGE),
                ),
            },
    {
        if same_text(value, "link") {
            Ok(SnapshotKind::Link)
        } else if same_text(value, "image") {
            Ok(SnapshotKind::Image)
        } else if same_text(value, "file") {
            Ok(SnapshotKind::File)
        } else if same_text(value, "text") {
            Ok(SnapshotKind::Text)
        } else {
            Err(OrbitalError::DataInvariant(INVALID_KIND_MESSAGE))
        }
    }
}

/// A snapshot about to be created.
#[derive(Debug, Clone, PartialEq, Eq)]
pub struct NewSnapshot {
    pub id: SnapshotId,
    pub title: String,
    pub kind: SnapshotKind,
    pub source: Option<String>,
    pub file_path: Option<String>,
    pub mime_type: Option<String>,
    pub tags: Vec<String>,
}

impl NewSnapshot {
    /// A snapshot with a title and kind and nothing else.
    pub fn new(id: SnapshotId, title: String, kind: SnapshotKind) -> (s: Self)
        ensures
            s.id == id,
            s.title@ == title@,
            s.kind == kind,
            s.source is None,
            s.file_path is None,
            s.mime_type is None,
            s.tags@.len() == 0,
    {
        NewSnapshot {
            id,
            title,
            kind,
            source: None,
            file_path: None,
            mime_type: None,
            tags: Vec::new(),
        }
    }
}

/// A stored snapshot as the library lists it.
#[derive(Debug, Clone, PartialEq, Eq)]
pub struct SnapshotSummary {
    pub id: SnapshotId,
    pub title: String,
    pub kind: SnapshotKind,
    pub source: Option<String>,
    pub file_path: Option<String>,
    pub mime_type: Option<String>,
    pub tags: Vec<String>,
    pub created_at: i64,
    pub updated_at: i64,
    pub archived_at: Option<i64>,
}

/// A kind's stored name reads back as that kind.
pub proof fn lemma_kind_storage_round_trip(kind: SnapshotKind)
    ensures
        kind_from_storage_name(kind_storage_name(kind)) == Some(kind),
{
    reveal_strlit("link");
    reveal_strlit("image");
    reveal_strlit("file");
    reveal_strlit("text");
    assert("link"@[0] != "file"@[0]);
    assert("link"@[0] != "text"@[0]);
    assert("file"@[0] != "text"@[0]);
    assert("image"@.len() == 5);
    assert("link"@.len() == 4);
}

} // verus!
