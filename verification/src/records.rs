//! The decisions the note and snapshot stores make around their database
//! calls: how tags are normalised, how a stored row becomes a snapshot, and
//! when an update that touched nothing is an error.

use vstd::prelude::*;
use vstd::string::*;
use crate::error::{OrbitalError, OrbitalResult};
use crate::snapshot::{
    kind_from_storage_name, SnapshotId, SnapshotKind, SnapshotSummary, INVALID_KIND_MESSAGE,
};
use crate::text::{owned, same_text, trim, trim_seq, lemma_trim_ends, views_of};

verus! {

/// The tags as they are stored: trimmed, blank ones dropped, and each kept
/// only at its first occurrence.
pub open spec fn normalize_tags(tags: Seq<Seq<char>>) -> Seq<Seq<char>>
    decreases tags.len(),
{
    if tags.len() == 0 {
        Seq::<Seq<char>>::empty()
    } else {
        let rest = normalize_tags(tags.drop_last());
        let t = trim_seq(tags.last());
        if t.len() == 0 || rest.contains(t) {
            rest
        } else {
            rest.push(t)
        }
    }
}

/// Trims the tags, drops the blank ones and keeps each at its first
/// occurrence.
pub fn normalized_tags(tags: &[String]) -> (r: Vec<String>)
    ensures
        views_of(r@) == normalize_tags(views_of(tags@)),
{
    let ghost input = views_of(tags@);
    let mut normalized: Vec<String> = Vec::new();
    let mut i: usize = 0;
    let n = tags.len();
    proof {
        assert(input.take(0) =~= Seq::<Seq<char>>::empty());
        assert(views_of(normalized@) =~= Seq::<Seq<char>>::empty());
    }
    while i < n
        invariant
            n == tags@.len(),
            input == views_of(tags@),
            i <= n,
            views_of(normalized@) == normalize_tags(input.take(i as int)),
        decreases n - i,
    {
        let trimmed = trim(tags[i].as_str());
        let ghost prefix = input.take(i as int);
        let ghost rest = normalize_tags(prefix);
        proof {
            assert(input.take(i + 1).drop_last() =~= prefix);
            assert(input.take(i + 1).last() == tags@[i as int]@);
        }
        if trimmed.unicode_len() > 0 {
            let mut found = false;
            let mut j: usize = 0;
            while j < normalized.len()
                invariant
                    j <= normalized@.len(),
                    views_of(normalized@) == rest,
                    found == (exists|k: int| 0 <= k < j && rest[k] == trimmed@),
                decreases normalized@.len() - j,
            {
                if same_text(normalized[j].as_str(), trimmed) {
                    found = true;
                }
                proof {
                    assert(rest[j as int] == normalized@[j as int]@);
                    if found {
                        if normalized@[j as int]@ == trimmed@ {
                            assert(rest[j as int] == trimmed@);
                        }
                    }
                }
                j = j + 1;
            }
            proof {
                if found {
                    let k = choose|k: int| 0 <= k < j && rest[k] == trimmed@;
                    assert(rest.contains(trimmed@));
                } else {
                    assert(!rest.contains(trimmed@));
                }
            }
            if !found {
                normalized.push(owned(trimmed));
                proof {
                    assert(views_of(normalized@) =~= rest.push(trimmed@));
                }
            }
        }
        i = i + 1;
    }
    proof {
        assert(input.take(n as int) =~= input);
    }
    normalized
}

/// Normalised tags hold no tag twice, and every one is trimmed and not blank.
pub proof fn lemma_normalized_tags_clean(tags: Seq<Seq<char>>)
    ensures
        normalize_tags(tags).no_duplicates(),
        forall|i: int|
            0 <= i < normalize_tags(tags).len() ==> {
                let t = #[trigger] normalize_tags(tags)[i];
                &&& t.len() > 0
                &&& trim_seq(t) == t
            },
    decreases tags.len(),
{
    if tags.len() > 0 {
        lemma_normalized_tags_clean(tags.drop_last());
        lemma_trim_ends(tags.last());
    }
}

/// Every tag that is not blank is kept, trimmed, and nothing else is.
pub proof fn lemma_normalized_tags_keep(tags: Seq<Seq<char>>)
    ensures
        forall|i: int|
            0 <= i < tags.len() && trim_seq(#[trigger] tags[i]).len() > 0 ==> normalize_tags(
                tags,
            ).contains(trim_seq(tags[i])),
        forall|t: Seq<char>|
            #[trigger] normalize_tags(tags).contains(t) ==> exists|i: int|
                0 <= i < tags.len() && trim_seq(#[trigger] tags[i]) == t,
    decreases tags.len(),
{
    if tags.len() > 0 {
        let rest = tags.drop_last();
        lemma_normalized_tags_keep(rest);
        let r = normalize_tags(rest);
        let last = tags.len() - 1;
        assert forall|i: int|
            0 <= i < tags.len() && trim_seq(#[trigger] tags[i]).len() > 0 implies normalize_tags(
                tags,
            ).contains(trim_seq(tags[i])) by {
            if i < last {
                assert(rest[i] == tags[i]);
                let k = choose|k: int| 0 <= k < r.len() && r[k] == trim_seq(tags[i]);
                if normalize_tags(tags) != r {
                    assert(normalize_tags(tags)[k] == r[k]);
                }
            } else {
                if normalize_tags(tags) != r {
                    assert(normalize_tags(tags)[r.len() as int] == trim_seq(tags[i]));
                }
            }
        }
        assert forall|t: Seq<char>| #[trigger] normalize_tags(tags).contains(t) implies exists|i: int|
            0 <= i < tags.len() && trim_seq(#[trigger] tags[i]) == t by {
            let k = choose|k: int| 0 <= k < normalize_tags(tags).len() && normalize_tags(tags)[k] == t;
            if k < r.len() {
                assert(r[k] == t);
                assert(r.contains(t));
                let i = choose|i: int| 0 <= i < rest.len() && trim_seq(#[trigger] rest[i]) == t;
                assert(rest[i] == tags[i]);
            } else {
                assert(trim_seq(tags[last]) == t);
            }
        }
    }
}

/// Normalising normalised tags changes nothing.
pub proof fn lemma_normalized_tags_idempotent(tags: Seq<Seq<char>>)
    ensures
        normalize_tags(normalize_tags(tags)) == normalize_tags(tags),
{
    lemma_normalized_tags_clean(tags);
    lemma_normalize_clean_fixed(normalize_tags(tags));
}

proof fn lemma_normalize_clean_fixed(tags: Seq<Seq<char>>)
    requires
        tags.no_duplicates(),
        forall|i: int|
            0 <= i < tags.len() ==> {
                let t = #[trigger] tags[i];
                &&& t.len() > 0
                &&& trim_seq(t) == t
            },
    ensures
        normalize_tags(tags) == tags,
    decreases tags.len(),
{
    if tags.len() > 0 {
        let rest = tags.drop_last();
        assert forall|i: int| 0 <= i < rest.len() implies {
            let t = #[trigger] rest[i];
            &&& t.len() > 0
            &&& trim_seq(t) == t
        } by {
            assert(rest[i] == tags[i]);
        }
        assert(rest.no_duplicates()) by {
            assert forall|i: int, j: int| 0 <= i < rest.len() && 0 <= j < rest.len() && i != j implies rest[i] != rest[j] by {
                assert(rest[i] == tags[i]);
                assert(rest[j] == tags[j]);
            }
        }
        lemma_normalize_clean_fixed(rest);
        let last = tags.last();
        assert(tags[tags.len() - 1] == last);
        assert(!rest.contains(last)) by {
            if rest.contains(last) {
                let k = choose|k: int| 0 <= k < rest.len() && rest[k] == last;
                assert(tags[k] == rest[k]);
            }
        }
        assert(rest.push(last) =~= tags);
    }
}

/// A stored snapshot row as plain values, before its tags are attached.
#[derive(Debug, Clone, PartialEq, Eq)]
pub struct SnapshotRow {
    pub id: String,
    pub title: String,
    pub kind: String,
    pub source: Option<String>,
    pub file_path: Option<String>,
    pub mime_type: Option<String>,
    pub created_at: i64,
    pub updated_at: i64,
    pub archived_at: Option<i64>,
}

/// The snapshot a stored row and its tags describe; a row whose kind names
/// no kind is a broken data invariant.
pub fn snapshot_from_row(row: SnapshotRow, tags: Vec<String>) -> (r: OrbitalResult<SnapshotSummary>)
    ensures
        match kind_from_storage_name(row.kind@) {
            None => r == Err::<SnapshotSummary, OrbitalError>(
                OrbitalError::DataInvariant(INVALID_KIND_MESSAGE),
            ),
            Some(kind) => r is Ok && ({
                let s = r->Ok_0;
                &&& s.id@ == row.id@
                &&& s.title == row.title
                &&& s.kind == kind
                &&& s.source == row.source
                &&& s.file_path == row.file_path
                &&& s.mime_type == row.mime_type
                &&& s.tags == tags
                &&& s.created_at == row.created_at
                &&& s.updated_at == row.updated_at
                &&& s.archived_at == row.archived_at
            }),
        },
{
    let kind = match SnapshotKind::from_stored(row.kind.as_str()) {
        Ok(k) => k,
        Err(e) => {
            return Err(e);
        },
    };
    Ok(
        SnapshotSummary {
            id: SnapshotId::new(row.id),
            title: row.title,
            kind,
            source: row.source,
            file_path: row.file_path,
            mime_type: row.mime_type,
            tags,
            created_at: row.created_at,
            updated_at: row.updated_at,
            archived_at: row.archived_at,
        },
    )
}

/// An update that touched no row means the entity was not there (or, for
/// archiving, was archived already).
pub fn require_updated(updated_rows: usize, entity: &'static str, id: &str) -> (r: OrbitalResult<()>)
    ensures
        updated_rows > 0 ==> r == Ok::<(), OrbitalError>(()),
        updated_rows == 0 ==> r is Err && r->Err_0 is NotFound && r->Err_0->entity == entity
            && r->Err_0->NotFound_id@ == id@,
{
    if updated_rows == 0 {
        Err(OrbitalError::NotFound { entity, id: owned(id) })
    } else {
        Ok(())
    }
}

/// A record that was just written must read back; if it does not, the
/// store broke a data invariant.
pub fn require_reloaded<T>(reloaded: Option<T>, message: &'static str) -> (r: OrbitalResult<T>)
    ensures
        match reloaded {
            Some(v) => r == Ok::<T, OrbitalError>(v),
            None => r == Err::<T, OrbitalError>(OrbitalError::DataInvariant(message)),
        },
{
    match reloaded {
        Some(v) => Ok(v),
        None => Err(OrbitalError::DataInvariant(message)),
    }
}

/// The positions, in order, of the migrations newer than the schema version.
pub open spec fn pending_positions(versions: Seq<i64>, current: i64) -> Seq<usize>
    decreases versions.len(),
{
    if versions.len() == 0 {
        Seq::<usize>::empty()
    } else {
        let rest = pending_positions(versions.drop_last(), current);
        if versions.last() > current {
            rest.push((versions.len() - 1) as usize)
        } else {
            rest
        }
    }
}

/// Which of the migrations, listed by version, are still to be applied to a
/// schema at `current_version`: those with a newer version, in list order.
pub fn pending_migrations(versions: &[i64], current_version: i64) -> (r: Vec<usize>)
    ensures
        r@ == pending_positions(versions@, current_version),
{
    let mut r: Vec<usize> = Vec::new();
    let mut i: usize = 0;
    let n = versions.len();
    proof {
        assert(versions@.take(0) =~= Seq::<i64>::empty());
    }
    while i < n
        invariant
            n == versions@.len(),
            i <= n,
            r@ == pending_positions(versions@.take(i as int), current_version),
        decreases n - i,
    {
        proof {
            assert(versions@.take(i + 1).drop_last() =~= versions@.take(i as int));
            assert(versions@.take(i + 1).last() == versions@[i as int]);
        }
        if versions[i] > current_version {
            r.push(i);
        }
        i = i + 1;
    }
    proof {
        assert(versions@.take(n as int) =~= versions@);
    }
    r
}

} // verus!
