use orbitalos::canvas::{
    compose_note_body, default_code_block_state, default_note_canvas_layout,
    default_text_block_state, min_block_units, resolve_layout, single_block_markup, text_block_id,
    BlockKind,
    LegacyTextBlockLayout, NoteCanvasLayout, TextBlockState,
};
use orbitalos::layout::{dot_grid_steps, is_major_dot, TextBlockLayout, CANVAS_HEIGHT, CANVAS_WIDTH};

fn layout(x: i32, y: i32, width: i32, height: i32) -> TextBlockLayout {
    TextBlockLayout { x, y, width, height }
}

fn block(id: &str, body: &str) -> TextBlockState {
    TextBlockState {
        kind: BlockKind::Text,
        id: id.to_string(),
        x: 0,
        y: 0,
        width: 10,
        height: 10,
        body: body.to_string(),
        body_markup: None,
    }
}

fn float_snap(value: i32, grid: i32) -> i32 {
    ((value as f64 / grid as f64).round() as i32) * grid
}

#[test]
fn snapping_matches_float_rounding() {
    for grid in [1, 3, 4, 6, 8, 12, 16] {
        for v in -200..200 {
            let l = layout(v, -v, 3 * grid, grid).snapped_to_grid_with_min_units(grid, 1);
            assert_eq!(l.x, float_snap(v, grid), "x {v} grid {grid}");
            assert_eq!(l.y, float_snap(-v, grid), "y {v} grid {grid}");
            let right = float_snap(v + 3 * grid, grid);
            assert_eq!(l.width, (right - float_snap(v, grid)).max(grid));
        }
    }
}

#[test]
fn snapping_examples() {
    assert_eq!(layout(13, 3, 30, 10).snapped_to_grid_with_min_units(8, 1), layout(16, 0, 24, 16));
    assert_eq!(layout(12, 4, 30, 10).snapped_to_grid_with_min_units(8, 1), layout(16, 8, 24, 8));
    assert_eq!(layout(-12, -4, 8, 8).snapped_to_grid_with_min_units(8, 1), layout(-16, -8, 8, 16));
    assert_eq!(layout(0, 0, 1, 1).snapped_to_grid_with_min_units(8, 8), layout(0, 0, 64, 64));
    assert_eq!(layout(5, 5, 5, 5).snapped_to_grid_with_min_units(0, 0), layout(5, 5, 5, 5));
    let once = layout(13, 27, 101, 55).snapped_to_grid_with_min_units(8, 2);
    assert_eq!(once.snapped_to_grid_with_min_units(8, 2), once);
}

#[test]
fn clamping_keeps_blocks_on_canvas() {
    assert_eq!(
        layout(-50, 5000, 10, 99999).clamp_to_canvas_with_min_units(8, 8),
        layout(0, 8, 64, CANVAS_HEIGHT - 8)
    );
    assert_eq!(
        layout(1590, 0, 2000, 100).clamp_to_canvas_with_min_units(8, 1),
        layout(8, 0, CANVAS_WIDTH - 8, 100)
    );
    let c = layout(700, 700, 300, 300).clamp_to_canvas_with_min_units(16, 8);
    assert_eq!(c, layout(700, 700, 300, 300));
    let r = layout(i32::MIN, i32::MAX, i32::MAX, i32::MIN).clamp_to_canvas_with_min_units(4, 1);
    assert!(r.x >= 0 && r.x + r.width <= CANVAS_WIDTH && r.y >= 0 && r.y + r.height <= CANVAS_HEIGHT);
    assert_eq!(r.clamp_to_canvas_with_min_units(4, 1), r);
}

#[test]
fn preview_grows_to_minimum() {
    assert_eq!(layout(3, 4, 10, 200).preview_constrained_with_min_units(8, 8), layout(3, 4, 64, 200));
    assert_eq!(layout(3, 4, 10, 2).preview_constrained_with_min_units(-5, -5), layout(3, 4, 10, 2));
}

#[test]
fn block_layout_round_trip() {
    let b = default_text_block_state("b".to_string(), 8);
    assert_eq!(b.layout(), layout(24, 24, 544, 384));
    let moved = b.clone().with_layout(layout(1, 2, 3, 4));
    assert_eq!(moved.layout(), layout(1, 2, 3, 4));
    assert_eq!(moved.id, "b");
    assert_eq!(b.clone().with_layout(b.layout()), b);
}

#[test]
fn default_blocks() {
    let big = default_code_block_state("c".to_string(), i32::MAX / 60);
    assert_eq!(big.width, (i32::MAX / 60) * 52);
    let c = default_code_block_state("c".to_string(), 0);
    assert_eq!((c.kind, c.x, c.y, c.width, c.height), (BlockKind::Code, 3, 3, 52, 4));
    assert_eq!(c.body, "");
    assert_eq!(c.body_markup, None);
    assert_eq!(min_block_units(BlockKind::Text), 8);
    assert_eq!(min_block_units(BlockKind::Code), 1);
    assert_eq!(BlockKind::default(), BlockKind::Text);
    let page = default_note_canvas_layout(8);
    assert_eq!(page.blocks.len(), 1);
    assert_eq!(page.blocks[0].id, "text-block-1");
    assert_eq!(page.active_block_id, Some("text-block-1".to_string()));
    assert_eq!(NoteCanvasLayout::default(), page);
    assert_eq!(text_block_id(1), "text-block-1");
    assert_eq!(text_block_id(1234), "text-block-1234");
}

#[test]
fn composed_body_skips_blank_blocks() {
    let page = NoteCanvasLayout {
        blocks: vec![block("a", "  first \n"), block("b", " \t "), block("c", "second"), block("d", "")],
        active_block_id: None,
    };
    assert_eq!(compose_note_body(&page), "first\n\nsecond");
    let blank = NoteCanvasLayout { blocks: vec![block("a", " ")], active_block_id: None };
    assert_eq!(compose_note_body(&blank), "");
    let empty = NoteCanvasLayout { blocks: vec![], active_block_id: None };
    assert_eq!(compose_note_body(&empty), "");
}

#[test]
fn stored_layout_is_resolved() {
    let stored = NoteCanvasLayout { blocks: vec![block("x", "hi"), block("y", "")], active_block_id: None };
    let r = resolve_layout(Some(stored.clone()), None, 8, "fallback", None);
    assert_eq!(r.blocks, stored.blocks);
    assert_eq!(r.active_block_id, Some("x".to_string()));

    let with_active = NoteCanvasLayout { active_block_id: Some("y".to_string()), ..stored.clone() };
    assert_eq!(resolve_layout(Some(with_active.clone()), None, 8, "f", None), with_active);
    assert_eq!(resolve_layout(Some(with_active.clone()), None, i32::MAX, "f", None), with_active);
    let legacy_big = LegacyTextBlockLayout { x: 1, y: 2, width: 3, height: 4 };
    assert_eq!(resolve_layout(None, Some(legacy_big), i32::MAX, "b", None).blocks[0].width, 3);

    let empty = NoteCanvasLayout { blocks: vec![], active_block_id: Some("z".to_string()) };
    assert_eq!(resolve_layout(Some(empty), None, 8, "f", None), default_note_canvas_layout(8));

    let legacy = LegacyTextBlockLayout { x: 1, y: 2, width: 3, height: 4 };
    let r = resolve_layout(None, Some(legacy), 8, "old body", Some("[]"));
    assert_eq!(r.blocks.len(), 1);
    assert_eq!((r.blocks[0].x, r.blocks[0].y, r.blocks[0].width, r.blocks[0].height), (1, 2, 3, 4));
    assert_eq!(r.blocks[0].body, "old body");
    assert_eq!(r.blocks[0].body_markup, Some("[]".to_string()));
    assert_eq!(r.active_block_id, Some("text-block-1".to_string()));

    let r = resolve_layout(None, None, 4, "plain", None);
    assert_eq!(r.blocks.len(), 1);
    assert_eq!(r.blocks[0].body, "plain");
    assert_eq!((r.blocks[0].x, r.blocks[0].width), (12, 272));
    assert_eq!(r.active_block_id, Some("text-block-1".to_string()));
}

#[test]
fn page_markup_only_for_single_block() {
    let mut one = NoteCanvasLayout { blocks: vec![block("a", "x")], active_block_id: None };
    assert_eq!(single_block_markup(&one), None);
    one.blocks[0].body_markup = Some("[]".to_string());
    assert_eq!(single_block_markup(&one), Some("[]".to_string()));
    let two = NoteCanvasLayout { blocks: vec![one.blocks[0].clone(), block("b", "y")], active_block_id: None };
    assert_eq!(single_block_markup(&two), None);
}

#[test]
fn canvas_dot_grid() {
    assert_eq!(dot_grid_steps(8), (8, 4));
    assert_eq!(dot_grid_steps(1), (1, 1));
    assert_eq!(dot_grid_steps(0), (1, 1));
    assert_eq!(dot_grid_steps(-3), (1, 1));
    assert_eq!(dot_grid_steps(5), (5, 2));
    assert!(is_major_dot(16, 24, 8));
    assert!(!is_major_dot(12, 24, 8));
    assert!(is_major_dot(0, 0, 3));
}
