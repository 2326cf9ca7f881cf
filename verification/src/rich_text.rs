//! Inline formatting of Drift text blocks: styles, the runs of equally
//! styled text that are stored as a block's markup, and the colour tags.

use vstd::prelude::*;
use vstd::string::*;
use crate::text::{opt_view, owned, same_text};

verus! {

/// The inline style of a stretch of text.
#[derive(Debug, Clone, PartialEq, Eq)]
pub struct TextStyle {
    pub bold: bool,
    pub italic: bool,
    pub underline: bool,
    pub strikethrough: bool,
    pub color: Option<String>,
}

/// The style that typing will apply next.
#[derive(Debug, Clone, PartialEq, Eq)]
pub struct PendingFormat {
    pub bold: bool,
    pub italic: bool,
    pub underline: bool,
    pub strikethrough: bool,
    pub color: Option<String>,
}

/// A run of equally styled text, as stored in a block's markup.
#[derive(Debug, Clone, PartialEq, Eq)]
pub struct RichTextSpan {
    pub text: String,
    pub bold: bool,
    pub italic: bool,
    pub underline: bool,
    pub strikethrough: bool,
    pub color: Option<String>,
}

/// A piece of a text buffer with its style, as read character by character.
#[derive(Debug, Clone, PartialEq, Eq)]
pub struct StyledText {
    pub text: String,
    pub style: TextStyle,
}

pub struct StyleView {
    pub bold: bool,
    pub italic: bool,
    pub underline: bool,
    pub strikethrough: bool,
    pub color: Option<Seq<char>>,
}

pub struct SpanView {
    pub text: Seq<char>,
    pub style: StyleView,
}

impl View for TextStyle {
    type V = StyleView;

    open spec fn view(&self) -> StyleView {
        StyleView {
            bold: self.bold,
            italic: self.italic,
            underline: self.underline,
            strikethrough: self.strikethrough,
            color: opt_view(self.color),
        }
    }
}

impl View for RichTextSpan {
    type V = SpanView;

    open spec fn view(&self) -> SpanView {
        SpanView {
            text: self.text@,
            style: StyleView {
                bold: self.bold,
                italic: self.italic,
                underline: self.underline,
                strikethrough: self.strikethrough,
                color: opt_view(self.color),
            },
        }
    }
}

pub open spec fn plain_style() -> StyleView {
    StyleView { bold: false, italic: false, underline: false, strikethrough: false, color: None }
}

pub open spec fn style_is_plain(s: StyleView) -> bool {
    s == plain_style()
}

impl TextStyle {
    /// No formatting at all.
    pub fn plain() -> (s: Self)
        ensures
            s@ == plain_style(),
    {
        TextStyle { bold: false, italic: false, underline: false, strikethrough: false, color: None }
    }
}

impl PendingFormat {
    /// Whether the pending format applies no formatting at all.
    pub fn is_plain(&self) -> (b: bool)
        ensures
            b == (!self.bold && !self.italic && !self.underline && !self.strikethrough
                && self.color is None),
    {
        !self.bold && !self.italic && !self.underline && !self.strikethrough && self.color.is_none()
    }
}

fn copy_color(c: &Option<String>) -> (r: Option<String>)
    ensures
        opt_view(r) == opt_view(*c),
{
    match c {
        Some(s) => Some(s.clone()),
        None => None,
    }
}

fn copy_style(s: &TextStyle) -> (r: TextStyle)
    ensures
        r@ == s@,
{
    TextStyle {
        bold: s.bold,
        italic: s.italic,
        underline: s.underline,
        strikethrough: s.strikethrough,
        color: copy_color(&s.color),
    }
}

fn same_style(a: &TextStyle, b: &TextStyle) -> (r: bool)
    ensures
        r == (a@ == b@),
{
    let colors_equal = match (&a.color, &b.color) {
        (Some(x), Some(y)) => same_text(x.as_str(), y.as_str()),
        (None, None) => true,
        _ => false,
    };
    a.bold == b.bold && a.italic == b.italic && a.underline == b.underline && a.strikethrough
        == b.strikethrough && colors_equal
}

/// Where grouping stands after some pieces: the finished runs, the text and
/// style of the open run, and whether any piece was seen.
pub struct GroupState {
    pub done: Seq<SpanView>,
    pub text: Seq<char>,
    pub style: StyleView,
    pub started: bool,
}

/// Grouping after the pieces: each piece joins the open run when it has the
/// run's style (the first piece sets that style); otherwise it closes the
/// run and opens a new one.
pub open spec fn group_state(pieces: Seq<(Seq<char>, StyleView)>) -> GroupState
    decreases pieces.len(),
{
    if pieces.len() == 0 {
        GroupState { done: Seq::<SpanView>::empty(), text: Seq::<char>::empty(), style: plain_style(), started: false }
    } else {
        let s = group_state(pieces.drop_last());
        let (text, style) = pieces.last();
        let current = if s.started {
            s.style
        } else {
            style
        };
        if style != current {
            GroupState {
                done: s.done.push(SpanView { text: s.text, style: current }),
                text,
                style,
                started: true,
            }
        } else {
            GroupState { done: s.done, text: s.text + text, style: current, started: true }
        }
    }
}

/// The runs without the empty ones.
pub open spec fn nonempty_spans(spans: Seq<SpanView>) -> Seq<SpanView>
    decreases spans.len(),
{
    if spans.len() == 0 {
        Seq::<SpanView>::empty()
    } else {
        let rest = nonempty_spans(spans.drop_last());
        if spans.last().text.len() > 0 {
            rest.push(spans.last())
        } else {
            rest
        }
    }
}

/// The stored runs of a buffer read as styled pieces: consecutive pieces of
/// equal style joined, empty runs dropped.
pub open spec fn grouped_spans(pieces: Seq<(Seq<char>, StyleView)>) -> Seq<SpanView> {
    let s = group_state(pieces);
    let all = if s.text.len() > 0 {
        s.done.push(SpanView { text: s.text, style: s.style })
    } else {
        s.done
    };
    nonempty_spans(all)
}

pub open spec fn pieces_view(pieces: Seq<StyledText>) -> Seq<(Seq<char>, StyleView)> {
    pieces.map_values(|p: StyledText| (p.text@, p.style@))
}

pub open spec fn spans_view(spans: Seq<RichTextSpan>) -> Seq<SpanView> {
    spans.map_values(|s: RichTextSpan| s@)
}

fn make_span(text: String, style: &TextStyle) -> (s: RichTextSpan)
    ensures
        s@ == (SpanView { text: text@, style: style@ }),
{
    RichTextSpan {
        text,
        bold: style.bold,
        italic: style.italic,
        underline: style.underline,
        strikethrough: style.strikethrough,
        color: copy_color(&style.color),
    }
}

/// Joins consecutive pieces of equal style into runs and drops empty runs.
pub fn collect_spans(pieces: &[StyledText]) -> (spans: Vec<RichTextSpan>)
    ensures
        spans_view(spans@) == grouped_spans(pieces_view(pieces@)),
{
    let ghost pv = pieces_view(pieces@);
    let mut done: Vec<RichTextSpan> = Vec::new();
    let mut current_style = TextStyle::plain();
    let mut current_text = String::new();
    let mut started = false;
    let n = pieces.len();
    let mut i: usize = 0;
    proof {
        assert(pv.take(0) =~= Seq::<(Seq<char>, StyleView)>::empty());
        assert(spans_view(done@) =~= Seq::<SpanView>::empty());
    }
    while i < n
        invariant
            n == pieces@.len(),
            pv == pieces_view(pieces@),
            i <= n,
            ({
                let s = group_state(pv.take(i as int));
                &&& spans_view(done@) == s.done
                &&& current_text@ == s.text
                &&& current_style@ == s.style
                &&& started == s.started
            }),
        decreases n - i,
    {
        proof {
            assert(pv.take(i + 1).drop_last() =~= pv.take(i as int));
            assert(pv.take(i + 1).last() == pv[i as int]);
            assert(pv[i as int] == (pieces@[i as int].text@, pieces@[i as int].style@));
        }
        let piece = &pieces[i];
        if !started {
            current_style = copy_style(&piece.style);
            started = true;
        }
        if !same_style(&piece.style, &current_style) {
            let finished = make_span(current_text, &current_style);
            done.push(finished);
            proof {
                assert(spans_view(done@) =~= spans_view(done@).drop_last().push(finished@));
            }
            current_text = String::new();
            current_style = copy_style(&piece.style);
        }
        current_text.append(piece.text.as_str());
        i = i + 1;
    }
    proof {
        assert(pv.take(n as int) =~= pv);
    }
    let ghost state = group_state(pv);
    if current_text.unicode_len() > 0 {
        let last = make_span(current_text, &current_style);
        done.push(last);
        proof {
            assert(spans_view(done@) =~= spans_view(done@).drop_last().push(last@));
        }
    }
    let ghost all = spans_view(done@);
    let mut kept: Vec<RichTextSpan> = Vec::new();
    let mut j: usize = 0;
    let m = done.len();
    proof {
        assert(all.take(0) =~= Seq::<SpanView>::empty());
        assert(spans_view(kept@) =~= Seq::<SpanView>::empty());
    }
    while j < m
        invariant
            m == done@.len(),
            all == spans_view(done@),
            j <= m,
            spans_view(kept@) == nonempty_spans(all.take(j as int)),
        decreases m - j,
    {
        proof {
            assert(all.take(j + 1).drop_last() =~= all.take(j as int));
            assert(all.take(j + 1).last() == done@[j as int]@);
        }
        let span = &done[j];
        if span.text.as_str().unicode_len() > 0 {
            let copy = make_span(span.text.clone(), &TextStyle {
                bold: span.bold,
                italic: span.italic,
                underline: span.underline,
                strikethrough: span.strikethrough,
                color: copy_color(&span.color),
            });
            kept.push(copy);
            proof {
                assert(spans_view(kept@) =~= spans_view(kept@).drop_last().push(copy@));
            }
        }
        j = j + 1;
    }
    proof {
        assert(all.take(m as int) =~= all);
        assert(all == (if state.text.len() > 0 {
            state.done.push(SpanView { text: state.text, style: state.style })
        } else {
            state.done
        }));
    }
    kept
}

/// A buffer needs stored markup only when it has runs and some run carries
/// formatting.
pub open spec fn markup_needed(spans: Seq<SpanView>) -> bool {
    spans.len() > 0 && exists|i: int| 0 <= i < spans.len() && !style_is_plain(#[trigger] spans[i].style)
}

/// Whether a buffer with these runs needs stored markup.
pub fn needs_markup(spans: &[RichTextSpan]) -> (b: bool)
    ensures
        b == markup_needed(spans_view(spans@)),
{
    let ghost sv = spans_view(spans@);
    let n = spans.len();
    let mut i: usize = 0;
    while i < n
        invariant
            n == spans@.len(),
            sv == spans_view(spans@),
            i <= n,
            forall|k: int| 0 <= k < i ==> style_is_plain(#[trigger] sv[k].style),
        decreases n - i,
    {
        let s = &spans[i];
        assert(sv[i as int] == s@);
        if s.bold || s.italic || s.underline || s.strikethrough || s.color.is_some() {
            return true;
        }
        assert(style_is_plain(sv[i as int].style));
        i = i + 1;
    }
    false
}

/// The text tag that shows a colour name, for the colours the editor offers.
pub open spec fn color_tag_of(color: Seq<char>) -> Option<Seq<char>> {
    if color == "red"@ {
        Some("format-color-red"@)
    } else if color == "blue"@ {
        Some("format-color-blue"@)
    } else if color == "green"@ {
        Some("format-color-green"@)
    } else if color == "orange"@ {
        Some("format-color-orange"@)
    } else {
        None
    }
}

/// The text tag that shows a colour name, for the colours the editor offers.
pub fn color_tag(color: &str) -> (tag: Option<&'static str>)
    ensures
        match tag {
            Some(t) => color_tag_of(color@) == Some(t@),
            None => color_tag_of(color@) is None,
        },
{
    if same_text(color, "red") {
        Some("format-color-red")
    } else if same_text(color, "blue") {
        Some("format-color-blue")
    } else if same_text(color, "green") {
        Some("format-color-green")
    } else if same_text(color, "orange") {
        Some("format-color-orange")
    } else {
        None
    }
}

/// The character range a pending format is applied to: `count` characters
/// from `start`, kept inside a buffer of `len` characters; nothing when
/// `count` is not positive.
pub open spec fn format_range_of(start: int, count: int, len: int) -> Option<(int, int)> {
    if count <= 0 {
        None
    } else {
        let s = if start < 0 {
            0
        } else if start > len {
            len
        } else {
            start
        };
        let e = if s + count > len {
            len
        } else {
            s + count
        };
        Some((s, e))
    }
}

/// The character range a pending format is applied to.
pub fn format_range(start_offset: i32, char_count: i32, buffer_len: i32) -> (r: Option<(i32, i32)>)
    requires
        buffer_len >= 0,
        char_count > 0 ==> (if start_offset < 0 {
            0
        } else if start_offset > buffer_len {
            buffer_len as int
        } else {
            start_offset as int
        }) + char_count <= i32::MAX,
    ensures
        match r {
            Some((s, e)) => format_range_of(start_offset as int, char_count as int, buffer_len as int)
                == Some((s as int, e as int)),
            None => format_range_of(start_offset as int, char_count as int, buffer_len as int) is None,
        },
{
    if char_count <= 0 {
        return None;
    }
    let safe_start = if start_offset < 0 {
        0
    } else if start_offset > buffer_len {
        buffer_len
    } else {
        start_offset
    };
    let end = safe_start + char_count;
    let safe_end = if end > buffer_len {
        buffer_len
    } else {
        end
    };
    Some((safe_start, safe_end))
}


/// All the text of the runs, in order.
pub open spec fn spans_text(spans: Seq<SpanView>) -> Seq<char>
    decreases spans.len(),
{
    if spans.len() == 0 {
        Seq::<char>::empty()
    } else {
        spans_text(spans.drop_last()) + spans.last().text
    }
}

/// All the text of the pieces, in order.
pub open spec fn pieces_text(pieces: Seq<(Seq<char>, StyleView)>) -> Seq<char>
    decreases pieces.len(),
{
    if pieces.len() == 0 {
        Seq::<char>::empty()
    } else {
        pieces_text(pieces.drop_last()) + pieces.last().0
    }
}

proof fn lemma_group_state_text(pieces: Seq<(Seq<char>, StyleView)>)
    ensures
        spans_text(group_state(pieces).done) + group_state(pieces).text == pieces_text(pieces),
    decreases pieces.len(),
{
    if pieces.len() > 0 {
        let rest = pieces.drop_last();
        lemma_group_state_text(rest);
        let s = group_state(rest);
        let (text, style) = pieces.last();
        let current = if s.started {
            s.style
        } else {
            style
        };
        if style != current {
            let d = s.done.push(SpanView { text: s.text, style: current });
            assert(d.drop_last() =~= s.done);
            assert(spans_text(d) == spans_text(s.done) + s.text);
            assert(spans_text(d) + text =~= pieces_text(rest) + text);
        } else {
            assert(spans_text(s.done) + (s.text + text) =~= (spans_text(s.done) + s.text) + text);
        }
    }
}

proof fn lemma_nonempty_spans_text(spans: Seq<SpanView>)
    ensures
        spans_text(nonempty_spans(spans)) == spans_text(spans),
        forall|i: int| 0 <= i < nonempty_spans(spans).len() ==> #[trigger] nonempty_spans(spans)[i].text.len() > 0,
    decreases spans.len(),
{
    if spans.len() > 0 {
        let rest = spans.drop_last();
        lemma_nonempty_spans_text(rest);
        let r = nonempty_spans(rest);
        if spans.last().text.len() > 0 {
            assert(r.push(spans.last()).drop_last() =~= r);
        } else {
            assert(spans_text(rest) + spans.last().text =~= spans_text(rest));
        }
    }
}

/// The stored runs hold exactly the buffer's text, in order, and no run is
/// empty.
pub proof fn lemma_grouped_spans_keep_text(pieces: Seq<(Seq<char>, StyleView)>)
    ensures
        spans_text(grouped_spans(pieces)) == pieces_text(pieces),
        forall|i: int| 0 <= i < grouped_spans(pieces).len() ==> #[trigger] grouped_spans(pieces)[i].text.len() > 0,
{
    lemma_group_state_text(pieces);
    let s = group_state(pieces);
    let all = if s.text.len() > 0 {
        s.done.push(SpanView { text: s.text, style: s.style })
    } else {
        s.done
    };
    if s.text.len() > 0 {
        assert(all.drop_last() =~= s.done);
    } else {
        assert(spans_text(s.done) + s.text =~= spans_text(s.done));
    }
    lemma_nonempty_spans_text(all);
}

/// Each character of a text paired with the style it is shown in.
pub open spec fn chars_in_style(text: Seq<char>, style: StyleView) -> Seq<(char, StyleView)> {
    text.map_values(|c: char| (c, style))
}

/// Every character of the runs with its run's style, in order.
pub open spec fn span_chars(spans: Seq<SpanView>) -> Seq<(char, StyleView)>
    decreases spans.len(),
{
    if spans.len() == 0 {
        Seq::empty()
    } else {
        span_chars(spans.drop_last()) + chars_in_style(spans.last().text, spans.last().style)
    }
}

/// Every character of the pieces with its piece's style, in order.
pub open spec fn piece_chars(pieces: Seq<(Seq<char>, StyleView)>) -> Seq<(char, StyleView)>
    decreases pieces.len(),
{
    if pieces.len() == 0 {
        Seq::empty()
    } else {
        piece_chars(pieces.drop_last()) + chars_in_style(pieces.last().0, pieces.last().1)
    }
}

proof fn lemma_chars_in_style_concat(a: Seq<char>, b: Seq<char>, style: StyleView)
    ensures
        chars_in_style(a + b, style) == chars_in_style(a, style) + chars_in_style(b, style),
{
    assert(chars_in_style(a + b, style) =~= chars_in_style(a, style) + chars_in_style(b, style));
}

proof fn lemma_group_state_chars(pieces: Seq<(Seq<char>, StyleView)>)
    ensures
        group_state(pieces).started == (pieces.len() > 0),
        pieces.len() == 0 ==> group_state(pieces).done.len() == 0 && group_state(pieces).text.len() == 0,
        span_chars(group_state(pieces).done) + chars_in_style(group_state(pieces).text, group_state(pieces).style)
            == piece_chars(pieces),
    decreases pieces.len(),
{
    if pieces.len() == 0 {
        assert(span_chars(Seq::<SpanView>::empty()) + chars_in_style(Seq::<char>::empty(), plain_style())
            =~= Seq::<(char, StyleView)>::empty());
    } else {
        let rest = pieces.drop_last();
        lemma_group_state_chars(rest);
        let s = group_state(rest);
        let (text, style) = pieces.last();
        let current = if s.started {
            s.style
        } else {
            style
        };
        if style != current {
            let d = s.done.push(SpanView { text: s.text, style: current });
            assert(d.drop_last() =~= s.done);
            assert(span_chars(d) == span_chars(s.done) + chars_in_style(s.text, s.style));
        } else {
            lemma_chars_in_style_concat(s.text, text, current);
            if !s.started {
                assert(span_chars(s.done) =~= Seq::<(char, StyleView)>::empty());
                assert(chars_in_style(s.text, s.style) =~= Seq::<(char, StyleView)>::empty());
                assert(chars_in_style(s.text, current) =~= Seq::<(char, StyleView)>::empty());
                assert(piece_chars(rest) =~= Seq::<(char, StyleView)>::empty());
            }
            assert(span_chars(s.done) + chars_in_style(s.text + text, current) =~= (span_chars(s.done)
                + chars_in_style(s.text, current)) + chars_in_style(text, style));
        }
    }
}

proof fn lemma_nonempty_spans_chars(spans: Seq<SpanView>)
    ensures
        span_chars(nonempty_spans(spans)) == span_chars(spans),
    decreases spans.len(),
{
    if spans.len() > 0 {
        let rest = spans.drop_last();
        lemma_nonempty_spans_chars(rest);
        let r = nonempty_spans(rest);
        if spans.last().text.len() > 0 {
            assert(r.push(spans.last()).drop_last() =~= r);
        } else {
            assert(chars_in_style(spans.last().text, spans.last().style) =~= Seq::<(char, StyleView)>::empty());
            assert(span_chars(rest) + chars_in_style(spans.last().text, spans.last().style) =~= span_chars(rest));
        }
    }
}

/// Every character keeps its own style in the stored runs: read character
/// by character, the runs give the same characters in the same styles as
/// the pieces. Pieces of different style are never joined into one run.
pub proof fn lemma_grouped_spans_keep_styles(pieces: Seq<(Seq<char>, StyleView)>)
    ensures
        span_chars(grouped_spans(pieces)) == piece_chars(pieces),
{
    lemma_group_state_chars(pieces);
    let s = group_state(pieces);
    let all = if s.text.len() > 0 {
        s.done.push(SpanView { text: s.text, style: s.style })
    } else {
        s.done
    };
    if s.text.len() > 0 {
        assert(all.drop_last() =~= s.done);
    } else {
        assert(chars_in_style(s.text, s.style) =~= Seq::<(char, StyleView)>::empty());
        assert(span_chars(s.done) + chars_in_style(s.text, s.style) =~= span_chars(s.done));
    }
    lemma_nonempty_spans_chars(all);
}

} // verus!
