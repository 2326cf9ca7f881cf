//! Drift's list editing: what pressing Enter on a list line does, how a line
//! becomes a bullet or checklist item, and where a click lands.

use vstd::prelude::*;
use vstd::string::*;
use crate::layout::{fits_i32, TextBlockLayout};
use crate::library::{ascii_lower, ascii_lower_char, lemma_split_on_step};
use crate::canvas::join_with;
use crate::text::{has_prefix, opt_view, owned, split_on, starts_with, trim, trim_seq, trim_start, trim_start_seq};

verus! {

/// Height of the chrome bar above a block on the canvas.
pub const BLOCK_CHROME_TOP: i32 = 28;

/// Height of the chrome bar below a block on the canvas.
pub const BLOCK_CHROME_BOTTOM: i32 = 24;

pub const BULLET_PREFIX: &'static str = "- ";
pub const OPEN_ITEM_PREFIX: &'static str = "- [ ] ";
pub const DONE_ITEM_PREFIX: &'static str = "- [x] ";

/// What Enter does on a line: `None` when the line is no list line; an empty
/// text when the list item is blank (the line is then cleared); otherwise
/// the text that starts the next item.
pub open spec fn continuation_of(line: Seq<char>) -> Option<Seq<char>> {
    if has_prefix(line, OPEN_ITEM_PREFIX@) || has_prefix(line, DONE_ITEM_PREFIX@) {
        if trim_seq(line.skip(6)).len() == 0 {
            Some(Seq::<char>::empty())
        } else {
            Some("\n- [ ] "@)
        }
    } else if has_prefix(line, BULLET_PREFIX@) {
        if trim_seq(line.skip(2)).len() == 0 {
            Some(Seq::<char>::empty())
        } else {
            Some("\n- "@)
        }
    } else {
        None
    }
}

/// What Enter does on a line: `None` when the line is no list line; an empty
/// text when the list item is blank (the line is then cleared); otherwise
/// the text that starts the next item (a checked item continues unchecked).
pub fn list_continuation(line: &str) -> (r: Option<String>)
    ensures
        match r {
            Some(t) => continuation_of(line@) == Some(t@),
            None => continuation_of(line@) is None,
        },
{
    proof {
        reveal_strlit("- [ ] ");
        reveal_strlit("- [x] ");
        reveal_strlit("- ");
        assert(OPEN_ITEM_PREFIX@.len() == 6);
        assert(DONE_ITEM_PREFIX@.len() == 6);
        assert(BULLET_PREFIX@.len() == 2);
    }
    let n = line.unicode_len();
    if starts_with(line, OPEN_ITEM_PREFIX) || starts_with(line, DONE_ITEM_PREFIX) {
        let rest = line.substring_char(6, n);
        assert(rest@ =~= line@.skip(6));
        if trim(rest).unicode_len() == 0 {
            Some(String::new())
        } else {
            Some(owned("\n- [ ] "))
        }
    } else if starts_with(line, BULLET_PREFIX) {
        let rest = line.substring_char(2, n);
        assert(rest@ =~= line@.skip(2));
        if trim(rest).unicode_len() == 0 {
            Some(String::new())
        } else {
            Some(owned("\n- "))
        }
    } else {
        None
    }
}

/// A line turned into a bullet item: blank lines become empty, items stay.
pub open spec fn bulleted(line: Seq<char>) -> Seq<char> {
    if trim_seq(line).len() == 0 {
        Seq::<char>::empty()
    } else if has_prefix(trim_start_seq(line), BULLET_PREFIX@) {
        line
    } else {
        BULLET_PREFIX@ + line
    }
}

/// A line turned into an open checklist item: blank lines become empty,
/// checklist items (open or done) stay.
pub open spec fn checklisted(line: Seq<char>) -> Seq<char> {
    if trim_seq(line).len() == 0 {
        Seq::<char>::empty()
    } else if has_prefix(trim_start_seq(line), OPEN_ITEM_PREFIX@) || has_prefix(
        trim_start_seq(line),
        DONE_ITEM_PREFIX@,
    ) {
        line
    } else {
        OPEN_ITEM_PREFIX@ + line
    }
}

/// A line turned into a bullet item.
pub fn bullet_line(line: &str) -> (r: String)
    ensures
        r@ == bulleted(line@),
{
    if trim(line).unicode_len() == 0 {
        String::new()
    } else if starts_with(trim_start(line), BULLET_PREFIX) {
        owned(line)
    } else {
        owned(BULLET_PREFIX).concat(line)
    }
}

/// A line turned into an open checklist item.
pub fn checklist_line(line: &str) -> (r: String)
    ensures
        r@ == checklisted(line@),
{
    if trim(line).unicode_len() == 0 {
        String::new()
    } else if starts_with(trim_start(line), OPEN_ITEM_PREFIX) || starts_with(
        trim_start(line),
        DONE_ITEM_PREFIX,
    ) {
        owned(line)
    } else {
        owned(OPEN_ITEM_PREFIX).concat(line)
    }
}

/// A line without the carriage return that ends it, if one does.
pub open spec fn strip_cr(line: Seq<char>) -> Seq<char> {
    if line.len() > 0 && line.last() == '\r' {
        line.drop_last()
    } else {
        line
    }
}

/// The lines of a text that ended with a line feed.
pub open spec fn ended_lines(text: Seq<char>) -> Seq<Seq<char>> {
    split_on(text, '\n').drop_last().map_values(|l: Seq<char>| strip_cr(l))
}

/// `str::lines`: the text split at each `\n` (a `\r` before it goes too);
/// a last line that is empty is no line.
pub open spec fn lines_of(text: Seq<char>) -> Seq<Seq<char>> {
    let last = split_on(text, '\n').last();
    if last.len() == 0 {
        ended_lines(text)
    } else {
        ended_lines(text).push(last)
    }
}

/// A line made a list item: a checklist item, or else a bullet item.
pub open spec fn listed(line: Seq<char>, checklist: bool) -> Seq<char> {
    if checklist {
        checklisted(line)
    } else {
        bulleted(line)
    }
}

pub open spec fn listed_lines(lines: Seq<Seq<char>>, checklist: bool) -> Seq<Seq<char>> {
    lines.map_values(|l: Seq<char>| listed(l, checklist))
}

/// The selected text with each of its lines made a list item, joined again
/// by line feeds; `None` when the text is blank and nothing changes.
pub open spec fn listed_text(text: Seq<char>, checklist: bool) -> Option<Seq<char>> {
    if trim_seq(text).len() == 0 {
        None
    } else {
        Some(join_with(listed_lines(lines_of(text), checklist), "\n"@))
    }
}

fn listed_line(line: &str, checklist: bool) -> (r: String)
    ensures
        r@ == listed(line@, checklist),
{
    if checklist {
        checklist_line(line)
    } else {
        bullet_line(line)
    }
}

fn without_cr(line: &str) -> (r: &str)
    ensures
        r@ == strip_cr(line@),
{
    let n = line.unicode_len();
    if n > 0 && line.get_char(n - 1) == '\r' {
        let r = line.substring_char(0, n - 1);
        assert(r@ =~= line@.drop_last());
        r
    } else {
        line
    }
}

proof fn lemma_join_push(parts: Seq<Seq<char>>, x: Seq<char>, sep: Seq<char>)
    ensures
        join_with(parts.push(x), sep) == if parts.len() == 0 {
            x
        } else {
            join_with(parts, sep) + sep + x
        },
{
    assert(parts.push(x).drop_last() =~= parts);
    if parts.len() == 0 {
        assert(parts.push(x)[0] == x);
    }
}

fn list_lines(text: &str, checklist: bool) -> (r: Option<String>)
    ensures
        opt_view(r) == listed_text(text@, checklist),
{
    if trim(text).unicode_len() == 0 {
        return None;
    }
    proof {
        reveal_strlit("\n");
    }
    let n = text.unicode_len();
    let mut out = String::new();
    let mut count: usize = 0;
    let mut start: usize = 0;
    let mut i: usize = 0;
    proof {
        assert(text@.take(0) =~= Seq::<char>::empty());
        assert(text@.subrange(0, 0) =~= Seq::<char>::empty());
        assert(ended_lines(text@.take(0)) =~= Seq::<Seq<char>>::empty());
    }
    while i < n
        invariant
            n == text@.len(),
            start <= i <= n,
            split_on(text@.take(i as int), '\n').len() >= 1,
            split_on(text@.take(i as int), '\n').last() == text@.subrange(start as int, i as int),
            count == ended_lines(text@.take(i as int)).len(),
            count <= i,
            out@ == join_with(listed_lines(ended_lines(text@.take(i as int)), checklist), "\n"@),
        decreases n - i,
    {
        proof {
            lemma_split_on_step(text@, i as int, start as int, '\n');
        }
        let ghost before = ended_lines(text@.take(i as int));
        if text.get_char(i) == '\n' {
            let line = without_cr(text.substring_char(start, i));
            let item = listed_line(line, checklist);
            proof {
                let parts = split_on(text@.take(i as int), '\n');
                assert(split_on(text@.take(i + 1), '\n').drop_last() =~= parts);
                assert(parts.drop_last().push(parts.last()) =~= parts);
                assert(ended_lines(text@.take(i + 1)) =~= before.push(line@));
                assert(listed_lines(before.push(line@), checklist) =~= listed_lines(before, checklist).push(item@));
                lemma_join_push(listed_lines(before, checklist), item@, "\n"@);
            }
            if count > 0 {
                out.append("\n");
            }
            out.append(item.as_str());
            count = count + 1;
            start = i + 1;
            proof {
                assert(text@.subrange(start as int, start as int) =~= Seq::<char>::empty());
            }
        } else {
            proof {
                assert(ended_lines(text@.take(i + 1)) =~= before);
            }
        }
        i = i + 1;
    }
    proof {
        assert(text@.take(n as int) =~= text@);
    }
    let last = text.substring_char(start, n);
    if last.unicode_len() > 0 {
        let item = listed_line(last, checklist);
        proof {
            let ended = ended_lines(text@);
            assert(listed_lines(ended.push(last@), checklist) =~= listed_lines(ended, checklist).push(item@));
            lemma_join_push(listed_lines(ended, checklist), item@, "\n"@);
        }
        if count > 0 {
            out.append("\n");
        }
        out.append(item.as_str());
    }
    Some(out)
}

/// Makes each selected line a bullet item (Ctrl+7): `None` when the
/// selection is blank.
pub fn bulleted_text(text: &str) -> (r: Option<String>)
    ensures
        opt_view(r) == listed_text(text@, false),
{
    list_lines(text, false)
}

/// Makes each selected line a checklist item (Ctrl+Shift+7): `None` when the
/// selection is blank.
pub fn checklisted_text(text: &str) -> (r: Option<String>)
    ensures
        opt_view(r) == listed_text(text@, true),
{
    list_lines(text, true)
}

/// A point hits a block when it lies on the block or on its chrome bars.
pub open spec fn hits_block(l: TextBlockLayout, x: int, y: int) -> bool {
    &&& l.x <= x <= l.x + l.width
    &&& l.y - BLOCK_CHROME_TOP <= y <= l.y + l.height + BLOCK_CHROME_BOTTOM
}

/// Whether the canvas point `(x, y)` lies on the block or its chrome bars.
pub fn point_hits_block(l: TextBlockLayout, x: i32, y: i32) -> (b: bool)
    requires
        fits_i32(l.x + l.width),
        fits_i32(l.y - BLOCK_CHROME_TOP),
        fits_i32(l.y + l.height),
        fits_i32(l.y + l.height + BLOCK_CHROME_BOTTOM),
    ensures
        b == hits_block(l, x as int, y as int),
{
    x >= l.x && x <= l.x + l.width && y >= l.y - BLOCK_CHROME_TOP && y <= l.y + l.height
        + BLOCK_CHROME_BOTTOM
}

/// Applying the bullet transformation twice is the same as once.
pub proof fn lemma_bulleted_idempotent(line: Seq<char>)
    ensures
        bulleted(bulleted(line)) == bulleted(line),
{
    reveal_strlit("- ");
    let b = BULLET_PREFIX@;
    assert(b =~= seq!['-', ' ']);
    if trim_seq(line).len() == 0 {
        crate::text::lemma_trim_fixed(Seq::<char>::empty());
    } else if has_prefix(trim_start_seq(line), b) {
    } else {
        let r = b + line;
        assert(!crate::text::is_ws('-'));
        assert(r[0] == '-');
        assert(r.last() == line.last());
        lemma_trim_nonblank_with_prefix(line, b);
        assert(trim_start_seq(r) == r) by {
            crate::text::lemma_trim_start(r, 0);
            assert(r.skip(0) =~= r);
        }
        assert(r.take(2) =~= b);
    }
}

proof fn lemma_trim_nonblank_with_prefix(line: Seq<char>, p: Seq<char>)
    requires
        trim_seq(line).len() > 0,
        p.len() > 0,
        !crate::text::is_ws(p[0]),
    ensures
        trim_seq(p + line).len() > 0,
{
    let r = p + line;
    assert(r[0] == p[0]);
    if trim_seq(r).len() == 0 {
        lemma_trim_empty_all_ws(r);
    }
}

/// A sequence whose trim is empty is all whitespace.
proof fn lemma_trim_empty_all_ws(s: Seq<char>)
    requires
        trim_seq(s).len() == 0,
    ensures
        forall|k: int| 0 <= k < s.len() ==> crate::text::is_ws(#[trigger] s[k]),
    decreases s.len(),
{
    if s.len() > 0 {
        if !crate::text::is_ws(s[0]) {
            crate::text::lemma_trim_start(s, 0);
            assert(s.skip(0) =~= s);
            lemma_trim_end_nonempty(s);
        } else {
            lemma_trim_start_step(s);
            lemma_trim_empty_all_ws(s.drop_first());
            assert forall|k: int| 0 <= k < s.len() implies crate::text::is_ws(#[trigger] s[k]) by {
                if k > 0 {
                    assert(s[k] == s.drop_first()[k - 1]);
                }
            }
        }
    }
}

proof fn lemma_trim_start_step(s: Seq<char>)
    requires
        s.len() > 0,
        crate::text::is_ws(s[0]),
    ensures
        trim_seq(s) == trim_seq(s.drop_first()),
{
}

proof fn lemma_trim_end_nonempty(s: Seq<char>)
    requires
        s.len() > 0,
        !crate::text::is_ws(s[0]),
    ensures
        crate::text::trim_end_seq(s).len() > 0,
    decreases s.len(),
{
    if s.len() > 1 && crate::text::is_ws(s.last()) {
        assert(s.drop_last()[0] == s[0]);
        lemma_trim_end_nonempty(s.drop_last());
    }
}


/// Applying the checklist transformation twice is the same as once.
pub proof fn lemma_checklisted_idempotent(line: Seq<char>)
    ensures
        checklisted(checklisted(line)) == checklisted(line),
{
    reveal_strlit("- [ ] ");
    reveal_strlit("- [x] ");
    let o = OPEN_ITEM_PREFIX@;
    assert(o =~= seq!['-', ' ', '[', ' ', ']', ' ']);
    if trim_seq(line).len() == 0 {
        crate::text::lemma_trim_fixed(Seq::<char>::empty());
    } else if has_prefix(trim_start_seq(line), o) || has_prefix(
        trim_start_seq(line),
        DONE_ITEM_PREFIX@,
    ) {
    } else {
        let r = o + line;
        assert(!crate::text::is_ws('-'));
        assert(r[0] == '-');
        lemma_trim_nonblank_with_prefix(line, o);
        assert(trim_start_seq(r) == r) by {
            crate::text::lemma_trim_start(r, 0);
            assert(r.skip(0) =~= r);
        }
        assert(r.take(6) =~= o);
    }
}


/// Every block can be hit-tested without leaving `i32`.
pub open spec fn hit_testable(l: TextBlockLayout) -> bool {
    &&& fits_i32(l.x + l.width)
    &&& fits_i32(l.y - BLOCK_CHROME_TOP)
    &&& fits_i32(l.y + l.height)
    &&& fits_i32(l.y + l.height + BLOCK_CHROME_BOTTOM)
}

/// Whether the canvas point `(x, y)` lies on any of the blocks or their
/// chrome bars (a click there does not create a new block).
pub fn point_hits_any_block(layouts: &[TextBlockLayout], x: i32, y: i32) -> (b: bool)
    requires
        forall|i: int| 0 <= i < layouts@.len() ==> hit_testable(#[trigger] layouts@[i]),
    ensures
        b == exists|i: int| 0 <= i < layouts@.len() && hits_block(#[trigger] layouts@[i], x as int, y as int),
{
    let n = layouts.len();
    let mut i: usize = 0;
    while i < n
        invariant
            n == layouts@.len(),
            i <= n,
            forall|j: int| 0 <= j < layouts@.len() ==> hit_testable(#[trigger] layouts@[j]),
            forall|j: int| 0 <= j < i ==> !hits_block(#[trigger] layouts@[j], x as int, y as int),
        decreases n - i,
    {
        let l = layouts[i];
        assert(hit_testable(layouts@[i as int]));
        if point_hits_block(l, x, y) {
            return true;
        }
        i = i + 1;
    }
    false
}

/// What a keyboard shortcut in the editor does.
#[derive(Debug, Clone, Copy, PartialEq, Eq, Structural)]
pub enum ShortcutAction {
    Undo,
    Redo,
    Bold,
    Italic,
    Underline,
    Heading1,
    Paragraph,
    Checklist,
    BulletList,
}

/// The action of a key pressed with Control (and maybe Shift), the key
/// taken in lower case: Z undoes, Shift+Z and Y redo, B, I and U format,
/// 1 makes a heading and 0 a paragraph, 7 starts a bullet list and Shift+7 a
/// checklist. Without Control, or for another key, nothing.
pub open spec fn shortcut_of(control: bool, shift: bool, key: Option<char>) -> Option<ShortcutAction> {
    if !control {
        None
    } else {
        match key {
            None => None,
            Some(k) => {
                let c = ascii_lower(k);
                if c == 'z' {
                    Some(if shift { ShortcutAction::Redo } else { ShortcutAction::Undo })
                } else if c == 'y' {
                    Some(ShortcutAction::Redo)
                } else if c == 'b' {
                    Some(ShortcutAction::Bold)
                } else if c == 'i' {
                    Some(ShortcutAction::Italic)
                } else if c == 'u' {
                    Some(ShortcutAction::Underline)
                } else if c == '1' {
                    Some(ShortcutAction::Heading1)
                } else if c == '0' {
                    Some(ShortcutAction::Paragraph)
                } else if c == '7' {
                    Some(if shift { ShortcutAction::Checklist } else { ShortcutAction::BulletList })
                } else {
                    None
                }
            },
        }
    }
}

pub fn shortcut_action(control: bool, shift: bool, key: Option<char>) -> (action: Option<ShortcutAction>)
    ensures
        action == shortcut_of(control, shift, key),
{
    if !control {
        return None;
    }
    match key {
        None => None,
        Some(k) => {
            let c = ascii_lower_char(k);
            if c == 'z' {
                Some(if shift { ShortcutAction::Redo } else { ShortcutAction::Undo })
            } else if c == 'y' {
                Some(ShortcutAction::Redo)
            } else if c == 'b' {
                Some(ShortcutAction::Bold)
            } else if c == 'i' {
                Some(ShortcutAction::Italic)
            } else if c == 'u' {
                Some(ShortcutAction::Underline)
            } else if c == '1' {
                Some(ShortcutAction::Heading1)
            } else if c == '0' {
                Some(ShortcutAction::Paragraph)
            } else if c == '7' {
                Some(if shift { ShortcutAction::Checklist } else { ShortcutAction::BulletList })
            } else {
                None
            }
        },
    }
}

} // verus!
