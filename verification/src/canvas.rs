//! The blocks of a Drift page: their kinds, default placements, the page's
//! plain-text body, and how a stored page layout is read back.

use vstd::prelude::*;
use vstd::string::*;
use crate::layout::{grid_of, TextBlockLayout};
use crate::text::{decimal, decimal_text, opt_view, owned, trim, trim_seq, trimmed_nonblank};

verus! {

/// Minimum side of a text block, in grid units.
pub const MIN_TEXT_BLOCK_UNITS: i32 = 8;

/// Minimum side of a code block, in grid units.
pub const MIN_CODE_BLOCK_UNITS: i32 = 1;

pub const DEFAULT_BLOCK_X_UNITS: i32 = 3;
pub const DEFAULT_BLOCK_Y_UNITS: i32 = 3;
pub const DEFAULT_BLOCK_WIDTH_UNITS: i32 = 68;
pub const DEFAULT_BLOCK_HEIGHT_UNITS: i32 = 48;
pub const DEFAULT_CODE_BLOCK_WIDTH_UNITS: i32 = 52;
pub const DEFAULT_CODE_BLOCK_HEIGHT_UNITS: i32 = 4;

/// The id the first block of a page gets.
pub const FIRST_BLOCK_ID: &'static str = "text-block-1";

/// The kind of content a block holds.
#[derive(Debug, Clone, Copy, PartialEq, Eq, Structural)]
pub enum BlockKind {
    Text,
    Code,
}

/// One block of a page: its kind, id, geometry and content.
#[derive(Debug, Clone, PartialEq, Eq)]
pub struct TextBlockState {
    pub kind: BlockKind,
    pub id: String,
    pub x: i32,
    pub y: i32,
    pub width: i32,
    pub height: i32,
    pub body: String,
    pub body_markup: Option<String>,
}

/// The blocks of a page and the one that has focus.
#[derive(Debug, Clone, PartialEq, Eq)]
pub struct NoteCanvasLayout {
    pub blocks: Vec<TextBlockState>,
    pub active_block_id: Option<String>,
}

/// The geometry of the single text block that pages stored before blocks
/// existed.
#[derive(Debug, Clone, Copy, PartialEq, Eq, Structural)]
pub struct LegacyTextBlockLayout {
    pub x: i32,
    pub y: i32,
    pub width: i32,
    pub height: i32,
}

/// A block as plain values.
pub struct BlockView {
    pub kind: BlockKind,
    pub id: Seq<char>,
    pub x: i32,
    pub y: i32,
    pub width: i32,
    pub height: i32,
    pub body: Seq<char>,
    pub body_markup: Option<Seq<char>>,
}

/// A page layout as plain values.
pub struct LayoutView {
    pub blocks: Seq<BlockView>,
    pub active_block_id: Option<Seq<char>>,
}

impl View for TextBlockState {
    type V = BlockView;

    open spec fn view(&self) -> BlockView {
        BlockView {
            kind: self.kind,
            id: self.id@,
            x: self.x,
            y: self.y,
            width: self.width,
            height: self.height,
            body: self.body@,
            body_markup: opt_view(self.body_markup),
        }
    }
}

impl View for NoteCanvasLayout {
    type V = LayoutView;

    open spec fn view(&self) -> LayoutView {
        LayoutView {
            blocks: self.blocks@.map_values(|b: TextBlockState| b@),
            active_block_id: opt_view(self.active_block_id),
        }
    }
}

pub open spec fn layout_of(b: BlockView) -> TextBlockLayout {
    TextBlockLayout { x: b.x, y: b.y, width: b.width, height: b.height }
}

pub open spec fn with_layout_of(b: BlockView, l: TextBlockLayout) -> BlockView {
    BlockView { x: l.x, y: l.y, width: l.width, height: l.height, ..b }
}

pub open spec fn min_units_of(kind: BlockKind) -> i32 {
    match kind {
        BlockKind::Text => MIN_TEXT_BLOCK_UNITS,
        BlockKind::Code => MIN_CODE_BLOCK_UNITS,
    }
}

/// The default blocks can be placed on this grid without leaving `i32`.
pub open spec fn default_fits(grid_size: i32) -> bool {
    grid_of(grid_size) * DEFAULT_BLOCK_WIDTH_UNITS <= i32::MAX
}

/// The default code block's sides fit in `i32` at this grid size.
pub open spec fn default_code_fits(grid_size: i32) -> bool {
    grid_of(grid_size) * DEFAULT_CODE_BLOCK_WIDTH_UNITS <= i32::MAX
}

/// Whether reading a stored page back builds the default block: when the
/// stored layout has no blocks, or when neither format could be read.
pub open spec fn builds_default_block(
    parsed: Option<LayoutView>,
    legacy: Option<LegacyTextBlockLayout>,
) -> bool {
    match parsed {
        Some(l) => l.blocks.len() == 0,
        None => legacy is None,
    }
}

/// A fresh, empty block of the given kind at its default place.
pub open spec fn default_block(kind: BlockKind, id: Seq<char>, grid_size: i32) -> BlockView {
    let g = grid_of(grid_size);
    BlockView {
        kind,
        id,
        x: (g * DEFAULT_BLOCK_X_UNITS) as i32,
        y: (g * DEFAULT_BLOCK_Y_UNITS) as i32,
        width: (g * (match kind {
            BlockKind::Text => DEFAULT_BLOCK_WIDTH_UNITS,
            BlockKind::Code => DEFAULT_CODE_BLOCK_WIDTH_UNITS,
        })) as i32,
        height: (g * (match kind {
            BlockKind::Text => DEFAULT_BLOCK_HEIGHT_UNITS,
            BlockKind::Code => DEFAULT_CODE_BLOCK_HEIGHT_UNITS,
        })) as i32,
        body: Seq::<char>::empty(),
        body_markup: None,
    }
}

/// A new page: one empty text block, which has focus.
pub open spec fn default_layout(grid_size: i32) -> LayoutView {
    LayoutView {
        blocks: seq![default_block(BlockKind::Text, FIRST_BLOCK_ID@, grid_size)],
        active_block_id: Some(FIRST_BLOCK_ID@),
    }
}

/// The trimmed bodies that are not blank, in block order.
pub open spec fn kept_bodies(bodies: Seq<Seq<char>>) -> Seq<Seq<char>> {
    trimmed_nonblank(bodies)
}

/// The parts joined with `sep` between each two.
pub open spec fn join_with(parts: Seq<Seq<char>>, sep: Seq<char>) -> Seq<char>
    decreases parts.len(),
{
    if parts.len() == 0 {
        Seq::<char>::empty()
    } else if parts.len() == 1 {
        parts[0]
    } else {
        join_with(parts.drop_last(), sep) + sep + parts.last()
    }
}

pub open spec fn bodies_of(blocks: Seq<BlockView>) -> Seq<Seq<char>> {
    blocks.map_values(|b: BlockView| b.body)
}

/// The plain text of a page: the non-blank block bodies, trimmed, separated
/// by an empty line.
pub open spec fn composed_body(layout: LayoutView) -> Seq<char> {
    join_with(kept_bodies(bodies_of(layout.blocks)), "\n\n"@)
}

/// The layout a stored page comes back as. `parsed` is the stored layout
/// read as the current format, `legacy` as the single-block format; the
/// fallback body and markup fill the first block when the current format
/// was not read.
pub open spec fn resolved_layout(
    parsed: Option<LayoutView>,
    legacy: Option<LegacyTextBlockLayout>,
    grid_size: i32,
    fallback_body: Seq<char>,
    fallback_body_markup: Option<Seq<char>>,
) -> LayoutView {
    match parsed {
        Some(l) => if l.blocks.len() == 0 {
            default_layout(grid_size)
        } else if l.active_block_id is None {
            LayoutView { blocks: l.blocks, active_block_id: Some(l.blocks[0].id) }
        } else {
            l
        },
        None => match legacy {
            Some(old) => LayoutView {
                blocks: seq![
                    BlockView {
                        kind: BlockKind::Text,
                        id: FIRST_BLOCK_ID@,
                        x: old.x,
                        y: old.y,
                        width: old.width,
                        height: old.height,
                        body: fallback_body,
                        body_markup: fallback_body_markup,
                    },
                ],
                active_block_id: Some(FIRST_BLOCK_ID@),
            },
            None => {
                let d = default_layout(grid_size);
                LayoutView {
                    blocks: seq![
                        BlockView {
                            body: fallback_body,
                            body_markup: fallback_body_markup,
                            ..d.blocks[0]
                        },
                    ],
                    active_block_id: d.active_block_id,
                }
            },
        },
    }
}

impl Default for BlockKind {
    fn default() -> (k: Self)
        ensures
            k == BlockKind::Text,
    {
        BlockKind::Text
    }
}

impl TextBlockState {
    /// The block's position and size.
    pub fn layout(&self) -> (l: TextBlockLayout)
        ensures
            l == layout_of(self@),
    {
        TextBlockLayout { x: self.x, y: self.y, width: self.width, height: self.height }
    }

    /// The block moved and resized to `layout`, its content unchanged.
    pub fn with_layout(self, layout: TextBlockLayout) -> (b: Self)
        ensures
            b@ == with_layout_of(self@, layout),
    {
        let mut b = self;
        b.x = layout.x;
        b.y = layout.y;
        b.width = layout.width;
        b.height = layout.height;
        b
    }
}

/// The id of the `n`-th text block created on a page: `text-block-` and the
/// decimal number.
pub fn text_block_id(n: u64) -> (id: String)
    ensures
        id@ == "text-block-"@ + decimal(n as nat),
{
    owned("text-block-").concat(decimal_text(n as u128).as_str())
}

/// The minimum side of a block of this kind, in grid units.
pub fn min_block_units(kind: BlockKind) -> (u: i32)
    ensures
        u == min_units_of(kind),
{
    match kind {
        BlockKind::Text => MIN_TEXT_BLOCK_UNITS,
        BlockKind::Code => MIN_CODE_BLOCK_UNITS,
    }
}

/// A fresh, empty text block at the default place.
pub fn default_text_block_state(id: String, grid_size: i32) -> (b: TextBlockState)
    requires
        default_fits(grid_size),
    ensures
        b@ == default_block(BlockKind::Text, id@, grid_size),
{
    let grid_size = if grid_size < 1 {
        1
    } else {
        grid_size
    };
    TextBlockState {
        kind: BlockKind::Text,
        id,
        x: grid_size * DEFAULT_BLOCK_X_UNITS,
        y: grid_size * DEFAULT_BLOCK_Y_UNITS,
        width: grid_size * DEFAULT_BLOCK_WIDTH_UNITS,
        height: grid_size * DEFAULT_BLOCK_HEIGHT_UNITS,
        body: String::new(),
        body_markup: None,
    }
}

/// A fresh, empty code block at the default place.
pub fn default_code_block_state(id: String, grid_size: i32) -> (b: TextBlockState)
    requires
        default_code_fits(grid_size),
    ensures
        b@ == default_block(BlockKind::Code, id@, grid_size),
{
    let grid_size = if grid_size < 1 {
        1
    } else {
        grid_size
    };
    TextBlockState {
        kind: BlockKind::Code,
        id,
        x: grid_size * DEFAULT_BLOCK_X_UNITS,
        y: grid_size * DEFAULT_BLOCK_Y_UNITS,
        width: grid_size * DEFAULT_CODE_BLOCK_WIDTH_UNITS,
        height: grid_size * DEFAULT_CODE_BLOCK_HEIGHT_UNITS,
        body: String::new(),
        body_markup: None,
    }
}

/// A new page: one empty text block, which has focus.
pub fn default_note_canvas_layout(grid_size: i32) -> (l: NoteCanvasLayout)
    requires
        default_fits(grid_size),
    ensures
        l@ == default_layout(grid_size),
{
    let block = default_text_block_state(owned(FIRST_BLOCK_ID), grid_size);
    let active = owned(FIRST_BLOCK_ID);
    let mut blocks: Vec<TextBlockState> = Vec::new();
    blocks.push(block);
    let l = NoteCanvasLayout { blocks, active_block_id: Some(active) };
    assert(l@.blocks =~= default_layout(grid_size).blocks);
    l
}

impl Default for NoteCanvasLayout {
    fn default() -> (l: Self)
        ensures
            l@ == default_layout(crate::layout::DEFAULT_GRID_SIZE),
    {
        default_note_canvas_layout(crate::layout::DEFAULT_GRID_SIZE)
    }
}

/// The plain text of a page: the non-blank block bodies, trimmed, separated
/// by an empty line.
pub fn compose_note_body(layout: &NoteCanvasLayout) -> (text: String)
    ensures
        text@ == composed_body(layout@),
{
    let ghost bodies = bodies_of(layout@.blocks);
    let mut text = String::new();
    let mut any = false;
    let mut i: usize = 0;
    let n = layout.blocks.len();
    proof {
        assert(bodies.take(0) =~= Seq::<Seq<char>>::empty());
    }
    while i < n
        invariant
            n == layout.blocks@.len(),
            bodies == bodies_of(layout@.blocks),
            bodies.len() == n,
            i <= n,
            any == (kept_bodies(bodies.take(i as int)).len() > 0),
            text@ == join_with(kept_bodies(bodies.take(i as int)), "\n\n"@),
        decreases n - i,
    {
        let body = trim(layout.blocks[i].body.as_str());
        proof {
            assert(bodies[i as int] == layout.blocks@[i as int].body@);
            assert(bodies.take(i + 1).drop_last() =~= bodies.take(i as int));
            assert(bodies.take(i + 1).last() == bodies[i as int]);
        }
        let ghost kept = kept_bodies(bodies.take(i as int));
        if body.unicode_len() > 0 {
            if any {
                text.append("\n\n");
                text.append(body);
                proof {
                    let next = kept.push(body@);
                    assert(next.drop_last() =~= kept);
                }
            } else {
                text = owned(body);
                proof {
                    let next = kept.push(body@);
                    assert(next =~= seq![body@]);
                }
            }
            any = true;
        }
        i = i + 1;
    }
    proof {
        assert(bodies.take(n as int) =~= bodies);
    }
    text
}

/// The layout a stored page comes back as, given what the stored text read
/// as: `parsed` in the current format, else `legacy` in the single-block
/// format. The fallback body and markup fill the first block when the
/// current format was not read.
pub fn resolve_layout(
    parsed: Option<NoteCanvasLayout>,
    legacy: Option<LegacyTextBlockLayout>,
    grid_size: i32,
    fallback_body: &str,
    fallback_body_markup: Option<&str>,
) -> (l: NoteCanvasLayout)
    requires
        builds_default_block(
            match parsed {
                Some(p) => Some(p@),
                None => None,
            },
            legacy,
        ) ==> default_fits(grid_size),
    ensures
        l@ == resolved_layout(
            match parsed {
                Some(p) => Some(p@),
                None => None,
            },
            legacy,
            grid_size,
            fallback_body@,
            match fallback_body_markup {
                Some(m) => Some(m@),
                None => None,
            },
        ),
{
    let markup: Option<String> = match fallback_body_markup {
        Some(m) => Some(owned(m)),
        None => None,
    };
    match parsed {
        Some(layout) => {
            if layout.blocks.len() == 0 {
                return default_note_canvas_layout(grid_size);
            }
            let mut layout = layout;
            if layout.active_block_id.is_none() {
                let first = layout.blocks[0].id.clone();
                layout.active_block_id = Some(first);
                assert(layout@.blocks[0] == layout.blocks@[0]@);
            }
            layout
        },
        None => match legacy {
            Some(old) => {
                let block = TextBlockState {
                    kind: BlockKind::Text,
                    id: owned(FIRST_BLOCK_ID),
                    x: old.x,
                    y: old.y,
                    width: old.width,
                    height: old.height,
                    body: owned(fallback_body),
                    body_markup: markup,
                };
                let mut blocks: Vec<TextBlockState> = Vec::new();
                blocks.push(block);
                let l = NoteCanvasLayout { blocks, active_block_id: Some(owned(FIRST_BLOCK_ID)) };
                assert(l@.blocks =~= seq![l.blocks@[0]@]);
                l
            },
            None => {
                let mut first = default_text_block_state(owned(FIRST_BLOCK_ID), grid_size);
                first.body = owned(fallback_body);
                first.body_markup = markup;
                let mut blocks: Vec<TextBlockState> = Vec::new();
                blocks.push(first);
                let l = NoteCanvasLayout { blocks, active_block_id: Some(owned(FIRST_BLOCK_ID)) };
                assert(l@.blocks =~= seq![l.blocks@[0]@]);
                l
            },
        },
    }
}


/// Moving a block to its own layout changes nothing, and the layout of a
/// moved block is the layout it was moved to.
pub proof fn lemma_layout_round_trip(b: BlockView, l: TextBlockLayout)
    ensures
        layout_of(with_layout_of(b, l)) == l,
        with_layout_of(b, layout_of(b)) == b,
{
}

/// A page read back from storage always has a block, and a block id with focus.
pub proof fn lemma_resolved_layout_has_blocks(
    parsed: Option<LayoutView>,
    legacy: Option<LegacyTextBlockLayout>,
    grid_size: i32,
    fallback_body: Seq<char>,
    fallback_body_markup: Option<Seq<char>>,
)
    ensures
        resolved_layout(parsed, legacy, grid_size, fallback_body, fallback_body_markup).blocks.len()
            >= 1,
        resolved_layout(
            parsed,
            legacy,
            grid_size,
            fallback_body,
            fallback_body_markup,
        ).active_block_id is Some,
{
}

/// A stored page whose layout cannot be read in the current format keeps its
/// plain body and its formatting in its only block, which has focus: at the
/// stored single-block place when the old format was read, else at the
/// default place. A readable layout with blocks keeps its blocks as stored.
pub proof fn lemma_unread_layout_keeps_body(
    parsed: Option<LayoutView>,
    legacy: Option<LegacyTextBlockLayout>,
    grid_size: i32,
    fallback_body: Seq<char>,
    fallback_body_markup: Option<Seq<char>>,
)
    ensures
        ({
            let l = resolved_layout(parsed, legacy, grid_size, fallback_body, fallback_body_markup);
            &&& parsed is None ==> {
                &&& l.blocks.len() == 1
                &&& l.blocks[0].body == fallback_body
                &&& l.blocks[0].body_markup == fallback_body_markup
                &&& l.blocks[0].kind == BlockKind::Text
                &&& l.active_block_id == Some(l.blocks[0].id)
            }
            &&& (parsed is None && legacy is Some) ==> {
                &&& l.blocks[0].x == legacy.unwrap().x
                &&& l.blocks[0].y == legacy.unwrap().y
                &&& l.blocks[0].width == legacy.unwrap().width
                &&& l.blocks[0].height == legacy.unwrap().height
            }
            &&& (parsed is None && legacy is None) ==> {
                let d = default_block(BlockKind::Text, FIRST_BLOCK_ID@, grid_size);
                &&& l.blocks[0].x == d.x
                &&& l.blocks[0].y == d.y
                &&& l.blocks[0].width == d.width
                &&& l.blocks[0].height == d.height
            }
            &&& (parsed is Some && parsed.unwrap().blocks.len() > 0) ==> l.blocks == parsed.unwrap().blocks
        }),
{
}

/// A page whose blocks are all blank has an empty plain-text body.
pub proof fn lemma_blank_blocks_compose_empty(bodies: Seq<Seq<char>>)
    requires
        forall|i: int| 0 <= i < bodies.len() ==> trim_seq(#[trigger] bodies[i]).len() == 0,
    ensures
        join_with(kept_bodies(bodies), "\n\n"@) == Seq::<char>::empty(),
    decreases bodies.len(),
{
    if bodies.len() > 0 {
        let rest = bodies.drop_last();
        assert forall|i: int| 0 <= i < rest.len() implies trim_seq(#[trigger] rest[i]).len() == 0 by {
            assert(rest[i] == bodies[i]);
        }
        assert(trim_seq(bodies[bodies.len() - 1]).len() == 0);
        lemma_blank_blocks_compose_empty(rest);
    }
}


/// The first block id a page gets is the id numbered one.
pub proof fn lemma_first_block_id()
    ensures
        "text-block-"@ + decimal(1) == FIRST_BLOCK_ID@,
{
    reveal_strlit("text-block-");
    reveal_strlit("text-block-1");
    assert(decimal(1) == seq![crate::text::digit_char(1)]);
    assert("text-block-"@ + decimal(1) =~= FIRST_BLOCK_ID@);
}


/// The markup a page keeps of its own: that of its block when it has exactly
/// one, else none.
pub fn single_block_markup(layout: &NoteCanvasLayout) -> (markup: Option<String>)
    ensures
        opt_view(markup) == (if layout@.blocks.len() == 1 {
            layout@.blocks[0].body_markup
        } else {
            None
        }),
{
    if layout.blocks.len() == 1 {
        assert(layout@.blocks[0] == layout.blocks@[0]@);
        match &layout.blocks[0].body_markup {
            Some(m) => Some(m.clone()),
            None => None,
        }
    } else {
        None
    }
}

} // verus!
