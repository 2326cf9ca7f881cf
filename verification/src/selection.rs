//! Which entry of a list the Blink and Drift sidebars select after the list
//! changes, and how a page title is completed.

use vstd::prelude::*;
use vstd::string::*;
use crate::text::{opt_view, owned, trim, trim_seq, views_of};

verus! {

/// Index of the first entry equal to `id`, or -1.
pub open spec fn position_of(ids: Seq<Seq<char>>, id: Seq<char>) -> int
    decreases ids.len(),
{
    if ids.len() == 0 {
        -1
    } else if ids[0] == id {
        0
    } else {
        let r = position_of(ids.drop_first(), id);
        if r < 0 {
            -1
        } else {
            r + 1
        }
    }
}

proof fn lemma_position_of(ids: Seq<Seq<char>>, id: Seq<char>, p: int)
    requires
        0 <= p <= ids.len(),
        forall|k: int| 0 <= k < p ==> #[trigger] ids[k] != id,
        p == ids.len() || ids[p] == id,
    ensures
        position_of(ids, id) == (if p == ids.len() { -1 } else { p }),
    decreases p,
{
    if p > 0 {
        let t = ids.drop_first();
        assert forall|k: int| 0 <= k < p - 1 implies #[trigger] t[k] != id by {
            assert(t[k] == ids[k + 1]);
        }
        if p < ids.len() {
            assert(t[p - 1] == ids[p]);
        }
        assert(ids[0] != id);
        lemma_position_of(t, id, p - 1);
    }
}

pub proof fn lemma_position_bounds(ids: Seq<Seq<char>>, id: Seq<char>)
    ensures
        -1 <= position_of(ids, id) < ids.len(),
        position_of(ids, id) >= 0 ==> ids[position_of(ids, id)] == id,
    decreases ids.len(),
{
    if ids.len() > 0 && ids[0] != id {
        lemma_position_bounds(ids.drop_first(), id);
    }
}

/// Position of the first entry equal to `id`.
pub fn position(ids: &[String], id: &str) -> (r: Option<usize>)
    ensures
        match r {
            Some(p) => p as int == position_of(views_of(ids@), id@),
            None => position_of(views_of(ids@), id@) == -1,
        },
{
    let ghost v = views_of(ids@);
    let n = ids.len();
    let mut i: usize = 0;
    while i < n
        invariant
            n == ids@.len(),
            v == views_of(ids@),
            i <= n,
            forall|k: int| 0 <= k < i ==> #[trigger] v[k] != id@,
        decreases n - i,
    {
        if crate::text::same_text(ids[i].as_str(), id) {
            proof {
                lemma_position_of(v, id@, i as int);
            }
            return Some(i);
        }
        assert(v[i as int] == ids@[i as int]@);
        i = i + 1;
    }
    proof {
        lemma_position_of(v, id@, n as int);
    }
    None
}

/// The row to select after the list is reloaded: the preferred entry when it
/// is listed, else the first row, else none.
pub open spec fn row_to_select(ids: Seq<Seq<char>>, preferred: Option<Seq<char>>) -> Option<int> {
    let found = match preferred {
        Some(id) => position_of(ids, id),
        None => -1,
    };
    if found >= 0 {
        Some(found)
    } else if ids.len() > 0 {
        Some(0)
    } else {
        None
    }
}

/// The row to select after the list is reloaded: the preferred entry when it
/// is listed, else the first row, else none.
pub fn selected_row(ids: &[String], preferred: Option<&str>) -> (r: Option<usize>)
    ensures
        match r {
            Some(i) => row_to_select(
                views_of(ids@),
                match preferred {
                    Some(p) => Some(p@),
                    None => None,
                },
            ) == Some(i as int),
            None => row_to_select(
                views_of(ids@),
                match preferred {
                    Some(p) => Some(p@),
                    None => None,
                },
            ) is None,
        },
{
    if let Some(id) = preferred {
        if let Some(i) = position(ids, id) {
            return Some(i);
        }
    }
    if ids.len() > 0 {
        Some(0)
    } else {
        None
    }
}

/// The entry to select once `removed` is gone: the one after it, else the
/// one before it; none when `removed` is not listed or was the only entry.
pub open spec fn neighbour_of(ids: Seq<Seq<char>>, removed: Seq<char>) -> Option<int> {
    let p = position_of(ids, removed);
    if p < 0 {
        None
    } else if p + 1 < ids.len() {
        Some(p + 1)
    } else if p > 0 {
        Some(p - 1)
    } else {
        None
    }
}

/// The entry to select once `removed` is gone.
pub fn neighbour_after_removal(ids: &[String], removed: &str) -> (r: Option<usize>)
    ensures
        match r {
            Some(i) => neighbour_of(views_of(ids@), removed@) == Some(i as int),
            None => neighbour_of(views_of(ids@), removed@) is None,
        },
{
    proof {
        lemma_position_bounds(views_of(ids@), removed@);
        assert(views_of(ids@).len() == ids@.len());
    }
    let n = ids.len();
    match position(ids, removed) {
        None => None,
        Some(p) => if p + 1 < n {
            Some(p + 1)
        } else if p > 0 {
            Some(p - 1)
        } else {
            None
        },
    }
}

/// After a reload the preferred entry's row (its first occurrence) is
/// selected when it is listed; otherwise the first row, and in an empty list
/// none.
pub proof fn lemma_reload_selects_preferred(ids: Seq<Seq<char>>, preferred: Seq<char>, p: int)
    requires
        0 <= p <= ids.len(),
        forall|k: int| 0 <= k < p ==> #[trigger] ids[k] != preferred,
        p == ids.len() || ids[p] == preferred,
    ensures
        p < ids.len() ==> row_to_select(ids, Some(preferred)) == Some(p),
        p == ids.len() && ids.len() > 0 ==> row_to_select(ids, Some(preferred)) == Some(0int),
        ids.len() == 0 ==> row_to_select(ids, Some(preferred)) is None,
        ids.len() > 0 ==> row_to_select(ids, None) == Some(0int),
{
    lemma_position_of(ids, preferred, p);
}

/// After removing the entry at row `p` (its first occurrence), the row after
/// it is selected; only when it was the last row is the row before it
/// selected, and when it was the only row nothing is. An entry that is not
/// listed selects nothing.
pub proof fn lemma_neighbour_is_adjacent(ids: Seq<Seq<char>>, removed: Seq<char>, p: int)
    requires
        0 <= p <= ids.len(),
        forall|k: int| 0 <= k < p ==> #[trigger] ids[k] != removed,
        p == ids.len() || ids[p] == removed,
    ensures
        p == ids.len() ==> neighbour_of(ids, removed) is None,
        p < ids.len() && p + 1 < ids.len() ==> neighbour_of(ids, removed) == Some(p + 1),
        p < ids.len() && p + 1 == ids.len() && p > 0 ==> neighbour_of(ids, removed) == Some(p - 1),
        ids.len() == 1 ==> neighbour_of(ids, removed) is None,
{
    lemma_position_of(ids, removed, p);
}

/// The title a page is saved under.
pub const UNTITLED_PAGE: &'static str = "Untitled page";

/// The title typed, trimmed; a blank title becomes `Untitled page`.
pub fn page_title(typed: &str) -> (title: String)
    ensures
        title@ == (if trim_seq(typed@).len() == 0 {
            UNTITLED_PAGE@
        } else {
            trim_seq(typed@)
        }),
{
    let t = trim(typed);
    if t.unicode_len() == 0 {
        owned(UNTITLED_PAGE)
    } else {
        owned(t)
    }
}

/// Shown under a page's title when its excerpt is empty.
pub const EMPTY_PAGE_SUBTITLE: &'static str = "Empty page";

/// The line under a page's title in the sidebar: none when the sidebar is
/// collapsed; else the page's excerpt, or `Empty page` when it has none.
pub fn note_row_subtitle(excerpt: &str, collapsed: bool) -> (subtitle: Option<String>)
    ensures
        opt_view(subtitle) == (if collapsed {
            None
        } else if excerpt@.len() == 0 {
            Some(EMPTY_PAGE_SUBTITLE@)
        } else {
            Some(excerpt@)
        }),
{
    if collapsed {
        None
    } else if excerpt.unicode_len() == 0 {
        Some(owned(EMPTY_PAGE_SUBTITLE))
    } else {
        Some(owned(excerpt))
    }
}

/// A neighbour chosen after a removal is listed and is not the removed entry.
pub proof fn lemma_neighbour_is_other(ids: Seq<Seq<char>>, removed: Seq<char>)
    requires
        ids.no_duplicates(),
    ensures
        neighbour_of(ids, removed) matches Some(i) ==> 0 <= i < ids.len() && ids[i] != removed,
{
    lemma_position_bounds(ids, removed);
}


/// The row selected after a reload is a row of the list.
pub proof fn lemma_selected_row_listed(ids: Seq<Seq<char>>, preferred: Option<Seq<char>>)
    ensures
        row_to_select(ids, preferred) matches Some(i) ==> 0 <= i < ids.len(),
        row_to_select(ids, preferred) is None <==> ids.len() == 0,
{
    if let Some(id) = preferred {
        lemma_position_bounds(ids, id);
    }
}

} // verus!
