use orbitalos::capture::{
    capture_interactive, classify_backend_error, command_outcome, needs_fallback,
    selection_geometry, CaptureError, FileProbe, FileWait, WaitAction, FILE_READY_ATTEMPTS,
};
use orbitalos::editor::{
    bullet_line, checklist_line, list_continuation, point_hits_any_block, point_hits_block,
    bulleted_text, checklisted_text, shortcut_action, ShortcutAction,
};
use orbitalos::layout::TextBlockLayout;
use orbitalos::snapshot::{SnapshotId, SnapshotKind, SnapshotSummary};
use orbitalos::library::{
    ascii_lower_char, ascii_lowercase, captured_file_name, extension, file_label, file_name, file_stem,
    imported_file_name, imported_title, infer_mime_type, parse_tags, snapshot_subtitle,
    new_image_snapshot,
};
use orbitalos::rich_text::{
    collect_spans, color_tag, format_range, needs_markup, PendingFormat, RichTextSpan,
    StyledText, TextStyle,
};
use orbitalos::selection::{
    neighbour_after_removal, note_row_subtitle, page_title, position, selected_row,
};
use orbitalos::text::{decimal_text, starts_with, trim, trim_start};

fn strings(items: &[&str]) -> Vec<String> {
    items.iter().map(|s| s.to_string()).collect()
}

#[test]
fn trimming_matches_std() {
    for s in ["", "  a b  ", "\t\n x\u{00A0}", "\u{3000}wide\u{2003}", "none", " \u{85} "] {
        assert_eq!(trim(s), s.trim());
        assert_eq!(trim_start(s), s.trim_start());
    }
    assert!(starts_with("- [ ] x", "- [ ] "));
    assert!(!starts_with("-", "- "));
    assert_eq!(decimal_text(0), "0");
    assert_eq!(decimal_text(u128::MAX), u128::MAX.to_string());
}

#[test]
fn tags_from_comma_list() {
    assert_eq!(parse_tags(" a, b ,,c , "), strings(&["a", "b", "c"]));
    assert_eq!(parse_tags(""), Vec::<String>::new());
    assert_eq!(parse_tags("one"), strings(&["one"]));
    assert_eq!(parse_tags("x,x"), strings(&["x", "x"]));
}

#[test]
fn file_names_and_extensions_match_std_path() {
    for p in [
        "/a/b.png", "/a/b.png/", "a/./b.JPG", ".bashrc", "a/..", "/", "", "x.", "a.tar.gz",
        "dir/.hidden.svg", "./", ".", "..", "name", "/tmp//shot.WebP",
    ] {
        let path = std::path::Path::new(p);
        assert_eq!(file_name(p), path.file_name().map(|s| s.to_str().unwrap()), "{p}");
        assert_eq!(extension(p), path.extension().map(|s| s.to_str().unwrap()), "{p}");
        assert_eq!(file_stem(p), path.file_stem().map(|s| s.to_str().unwrap()), "{p}");
    }
}

#[test]
fn mime_types_by_extension() {
    assert_eq!(infer_mime_type("/x/shot.PNG"), Some("image/png".to_string()));
    assert_eq!(infer_mime_type("a.jpeg"), Some("image/jpeg".to_string()));
    assert_eq!(infer_mime_type("a.JpG"), Some("image/jpeg".to_string()));
    assert_eq!(infer_mime_type("a.tif"), Some("image/tiff".to_string()));
    assert_eq!(infer_mime_type("a.svg"), Some("image/svg+xml".to_string()));
    assert_eq!(infer_mime_type("a.webp"), Some("image/webp".to_string()));
    assert_eq!(infer_mime_type("a.bmp"), Some("image/bmp".to_string()));
    assert_eq!(infer_mime_type("a.gif"), Some("image/gif".to_string()));
    assert_eq!(infer_mime_type("a.txt"), None);
    assert_eq!(infer_mime_type("png"), None);
    assert_eq!(infer_mime_type(".png"), None);
}

#[test]
fn file_labels() {
    assert_eq!(file_label("/home/a/pic.png"), "pic.png");
    assert_eq!(file_label("/home/a/.."), "/home/a/..");
    assert_eq!(file_label("/home/a/ /"), "/home/a/ /");
    assert_eq!(file_label("plain"), "plain");
}

#[test]
fn enter_on_list_lines() {
    assert_eq!(list_continuation("- item"), Some("\n- ".to_string()));
    assert_eq!(list_continuation("- [ ] todo"), Some("\n- [ ] ".to_string()));
    assert_eq!(list_continuation("- [x] done"), Some("\n- [ ] ".to_string()));
    assert_eq!(list_continuation("- [ ]   "), Some(String::new()));
    assert_eq!(list_continuation("-  "), Some(String::new()));
    assert_eq!(list_continuation("text"), None);
    assert_eq!(list_continuation(" - indented"), None);
}

#[test]
fn bullet_and_checklist_lines() {
    assert_eq!(bullet_line("text"), "- text");
    assert_eq!(bullet_line("  - already"), "  - already");
    assert_eq!(bullet_line("   "), "");
    assert_eq!(bullet_line(&bullet_line("x")), "- x");
    assert_eq!(checklist_line("buy milk"), "- [ ] buy milk");
    assert_eq!(checklist_line(" - [x] done"), " - [x] done");
    assert_eq!(checklist_line("- bullet"), "- [ ] - bullet");
    assert_eq!(checklist_line(""), "");
}

#[test]
fn hit_testing_includes_chrome() {
    let l = TextBlockLayout { x: 100, y: 100, width: 50, height: 40 };
    assert!(point_hits_block(l, 100, 72));
    assert!(point_hits_block(l, 150, 164));
    assert!(!point_hits_block(l, 151, 120));
    assert!(!point_hits_block(l, 120, 71));
    assert!(!point_hits_block(l, 120, 165));
}

fn style(bold: bool, color: Option<&str>) -> TextStyle {
    TextStyle {
        bold,
        italic: false,
        underline: false,
        strikethrough: false,
        color: color.map(|c| c.to_string()),
    }
}

fn piece(text: &str, bold: bool, color: Option<&str>) -> StyledText {
    StyledText { text: text.to_string(), style: style(bold, color) }
}

fn span(text: &str, bold: bool, color: Option<&str>) -> RichTextSpan {
    RichTextSpan {
        text: text.to_string(),
        bold,
        italic: false,
        underline: false,
        strikethrough: false,
        color: color.map(|c| c.to_string()),
    }
}

#[test]
fn spans_group_equal_styles() {
    let pieces = vec![
        piece("a", true, None),
        piece("b", true, None),
        piece("c", false, None),
        piece("d", false, Some("red")),
        piece("e", false, Some("red")),
    ];
    let spans = collect_spans(&pieces);
    assert_eq!(
        spans,
        vec![span("ab", true, None), span("c", false, None), span("de", false, Some("red"))]
    );
    assert!(needs_markup(&spans));
    assert_eq!(collect_spans(&[]), Vec::<RichTextSpan>::new());
    let plain = collect_spans(&[piece("x", false, None), piece("y", false, None)]);
    assert_eq!(plain, vec![span("xy", false, None)]);
    assert!(!needs_markup(&plain));
    assert!(!needs_markup(&[]));
}

#[test]
fn formats_and_colors() {
    assert!(TextStyle::plain() == style(false, None));
    let f = PendingFormat { bold: false, italic: false, underline: false, strikethrough: false, color: None };
    assert!(f.is_plain());
    assert!(!PendingFormat { color: Some("red".to_string()), ..f.clone() }.is_plain());
    assert!(!PendingFormat { italic: true, ..f }.is_plain());
    assert_eq!(color_tag("blue"), Some("format-color-blue"));
    assert_eq!(color_tag("orange"), Some("format-color-orange"));
    assert_eq!(color_tag("pink"), None);
    assert_eq!(format_range(3, 4, 10), Some((3, 7)));
    assert_eq!(format_range(-3, 4, 10), Some((0, 4)));
    assert_eq!(format_range(8, 4, 10), Some((8, 10)));
    assert_eq!(format_range(20, 4, 10), Some((10, 10)));
    assert_eq!(format_range(2, 0, 10), None);
}

#[test]
fn list_selection() {
    let ids = strings(&["a", "b", "c"]);
    assert_eq!(position(&ids, "b"), Some(1));
    assert_eq!(position(&ids, "z"), None);
    assert_eq!(selected_row(&ids, Some("c")), Some(2));
    assert_eq!(selected_row(&ids, Some("z")), Some(0));
    assert_eq!(selected_row(&ids, None), Some(0));
    assert_eq!(selected_row(&[], Some("a")), None);
    assert_eq!(neighbour_after_removal(&ids, "a"), Some(1));
    assert_eq!(neighbour_after_removal(&ids, "c"), Some(1));
    assert_eq!(neighbour_after_removal(&ids, "z"), None);
    assert_eq!(neighbour_after_removal(&strings(&["only"]), "only"), None);
    assert_eq!(page_title("  My page "), "My page");
    assert_eq!(page_title("   "), "Untitled page");
}

#[test]
fn capture_decisions() {
    let unavailable: Result<(), CaptureError> = Err(CaptureError::BackendUnavailable("gnome-screenshot"));
    assert!(needs_fallback(&unavailable));
    assert!(!needs_fallback(&Ok(())));
    assert_eq!(capture_interactive(Ok(()), None), Ok(()));
    assert_eq!(capture_interactive(unavailable.clone(), Some(Ok(()))), Ok(()));
    assert_eq!(
        capture_interactive(unavailable.clone(), Some(Err(CaptureError::BackendUnavailable("slurp")))),
        Err("Capture backend `slurp` is not available. Install `gnome-screenshot` or `grim` + `slurp` to enable Blink capture.".to_string())
    );
    assert_eq!(
        capture_interactive(Err(CaptureError::Failed("boom".to_string())), None),
        Err("boom".to_string())
    );
    assert_eq!(classify_backend_error("grim", true, "x"), CaptureError::BackendUnavailable("grim"));
    assert_eq!(
        classify_backend_error("grim", false, "denied"),
        CaptureError::Failed("grim could not start: denied".to_string())
    );
    assert_eq!(command_outcome("grim", true, "0"), Ok(()));
    assert_eq!(
        command_outcome("grim", false, "exit status: 1"),
        Err(CaptureError::Failed("grim exited with status exit status: 1".to_string()))
    );
    assert_eq!(selection_geometry(" 10,10 20x20\n"), Ok("10,10 20x20".to_string()));
    assert_eq!(
        selection_geometry("\n"),
        Err(CaptureError::Failed("No screen area was selected for capture".to_string()))
    );
    assert_eq!(CaptureError::BackendUnavailable("grim").message(), "Capture backend `grim` is not available");
}

#[test]
fn checklist_twice_is_checklist_once() {
    for line in ["todo", "  - [ ] open", "- [x] done", "", "- bullet"] {
        let once = checklist_line(line);
        assert_eq!(checklist_line(&once), once);
        let b = bullet_line(line);
        assert_eq!(bullet_line(&b), b);
    }
}

#[test]
fn stored_file_names_and_titles() {
    assert_eq!(ascii_lowercase("AbC.PNG-Ü"), "abc.png-Ü");
    assert_eq!(imported_file_name("s1", "/x/Photo.JPG"), "s1.jpg");
    assert_eq!(imported_file_name("s1", "/x/file"), "s1");
    assert_eq!(imported_file_name("s1", "/x/odd."), "s1");
    assert_eq!(captured_file_name("s1", "/tmp/shot"), "s1.png");
    assert_eq!(captured_file_name("s1", "/tmp/shot.WEBP"), "s1.webp");
    assert_eq!(captured_file_name("s1", "/tmp/odd."), "s1.");
    assert_eq!(imported_title("/x/Holiday.png"), "Holiday");
    assert_eq!(imported_title("/x/ .png"), "Imported image");
    assert_eq!(imported_title("/"), "Imported image");
    assert_eq!(imported_title("/x/.config"), ".config");
}

#[test]
fn any_block_hit() {
    let blocks = [
        TextBlockLayout { x: 0, y: 100, width: 10, height: 10 },
        TextBlockLayout { x: 200, y: 200, width: 50, height: 50 },
    ];
    assert!(point_hits_any_block(&blocks, 220, 260));
    assert!(point_hits_any_block(&blocks, 5, 80));
    assert!(!point_hits_any_block(&blocks, 100, 100));
    assert!(!point_hits_any_block(&[], 0, 0));
}

fn summary(kind: SnapshotKind, source: Option<&str>, file_path: Option<&str>) -> SnapshotSummary {
    SnapshotSummary {
        id: SnapshotId::new("snapshot-1".to_string()),
        title: "t".to_string(),
        kind,
        source: source.map(|s| s.to_string()),
        file_path: file_path.map(|s| s.to_string()),
        mime_type: None,
        tags: Vec::new(),
        created_at: 0,
        updated_at: 0,
        archived_at: None,
    }
}

#[test]
fn snapshot_subtitles() {
    let image = summary(SnapshotKind::Image, Some("https://x"), Some("/data/img/shot.png"));
    assert_eq!(snapshot_subtitle(&image), "Image - shot.png");
    let link = summary(SnapshotKind::Link, Some("https://example.org"), None);
    assert_eq!(snapshot_subtitle(&link), "Link - https://example.org");
    let text = summary(SnapshotKind::Text, None, None);
    assert_eq!(snapshot_subtitle(&text), "Text");
    let odd = summary(SnapshotKind::File, None, Some("/data/.."));
    assert_eq!(snapshot_subtitle(&odd), "File - /data/..");
}

#[test]
fn ascii_lower_chars_match_std() {
    for c in ['A', 'Z', 'a', 'm', '0', '[', '@', 'É', 'ß', '\u{10FFFF}'] {
        assert_eq!(ascii_lower_char(c), c.to_ascii_lowercase());
    }
}

#[test]
fn editor_shortcuts() {
    assert_eq!(shortcut_action(true, false, Some('z')), Some(ShortcutAction::Undo));
    assert_eq!(shortcut_action(true, true, Some('Z')), Some(ShortcutAction::Redo));
    assert_eq!(shortcut_action(true, false, Some('y')), Some(ShortcutAction::Redo));
    assert_eq!(shortcut_action(true, false, Some('B')), Some(ShortcutAction::Bold));
    assert_eq!(shortcut_action(true, false, Some('i')), Some(ShortcutAction::Italic));
    assert_eq!(shortcut_action(true, false, Some('u')), Some(ShortcutAction::Underline));
    assert_eq!(shortcut_action(true, false, Some('1')), Some(ShortcutAction::Heading1));
    assert_eq!(shortcut_action(true, false, Some('0')), Some(ShortcutAction::Paragraph));
    assert_eq!(shortcut_action(true, false, Some('7')), Some(ShortcutAction::BulletList));
    assert_eq!(shortcut_action(true, true, Some('7')), Some(ShortcutAction::Checklist));
    assert_eq!(shortcut_action(false, false, Some('z')), None);
    assert_eq!(shortcut_action(true, false, Some('q')), None);
    assert_eq!(shortcut_action(true, false, None), None);
}

fn std_listed(text: &str, item: fn(&str) -> String) -> Option<String> {
    if text.trim().is_empty() {
        return None;
    }
    Some(text.lines().map(item).collect::<Vec<_>>().join("\n"))
}

#[test]
fn selected_lines_become_list_items() {
    assert_eq!(bulleted_text("one\ntwo"), Some("- one\n- two".to_string()));
    assert_eq!(bulleted_text("- one\n\n  - two\n"), Some("- one\n\n  - two".to_string()));
    assert_eq!(checklisted_text("a\r\n- [x] b"), Some("- [ ] a\n- [x] b".to_string()));
    assert_eq!(bulleted_text("  \n "), None);
    assert_eq!(checklisted_text(""), None);
    for text in ["x", "x\n", "x\r", "\nx", "a\r\n\r\nb\r", "a\n\n", " - a\n- [ ] b\n\tc"] {
        assert_eq!(bulleted_text(text), std_listed(text, bullet_line), "{text:?}");
        assert_eq!(checklisted_text(text), std_listed(text, checklist_line), "{text:?}");
    }
}

#[test]
fn file_wait_ends_when_ready() {
    let mut w = FileWait::new();
    assert_eq!(w.step(FileProbe::NotReady, "/tmp/s.png"), WaitAction::SleepThenProbe);
    assert_eq!(w.step(FileProbe::Ready, "/tmp/s.png"), WaitAction::Done);
}

#[test]
fn file_wait_gives_up_with_the_latest_reason() {
    let mut w = FileWait::new();
    for _ in 0..FILE_READY_ATTEMPTS - 2 {
        assert_eq!(w.step(FileProbe::Unreadable("gone".to_string()), "/s"), WaitAction::SleepThenProbe);
    }
    assert_eq!(w.step(FileProbe::NotReady, "/s"), WaitAction::SleepThenProbe);
    assert_eq!(
        w.step(FileProbe::OpenFailed, "/s"),
        WaitAction::SleepThenFail("Screenshot file is not ready yet: /s".to_string())
    );

    let mut w = FileWait::new();
    let mut last = WaitAction::Done;
    for _ in 0..FILE_READY_ATTEMPTS {
        last = w.step(FileProbe::OpenFailed, "/s");
    }
    assert_eq!(last, WaitAction::SleepThenFail("Screenshot file did not become ready: /s".to_string()));
}

#[test]
fn note_row_subtitles() {
    assert_eq!(note_row_subtitle("", false), Some("Empty page".to_string()));
    assert_eq!(note_row_subtitle("first words", false), Some("first words".to_string()));
    assert_eq!(note_row_subtitle("first words", true), None);
}

#[test]
fn image_snapshots_carry_their_file() {
    let s = new_image_snapshot(
        SnapshotId::new("snapshot-5".to_string()),
        "Holiday".to_string(),
        "/data/blink/imports/snapshot-5.JPG".to_string(),
        Some("/home/a/Holiday.JPG".to_string()),
    );
    assert_eq!(s.id.as_str(), "snapshot-5");
    assert_eq!(s.title, "Holiday");
    assert_eq!(s.kind, SnapshotKind::Image);
    assert_eq!(s.file_path.as_deref(), Some("/data/blink/imports/snapshot-5.JPG"));
    assert_eq!(s.mime_type.as_deref(), Some("image/jpeg"));
    assert_eq!(s.source.as_deref(), Some("/home/a/Holiday.JPG"));
    assert!(s.tags.is_empty());
    let plain = new_image_snapshot(SnapshotId::new("x".to_string()), "t".to_string(), "/d/x".to_string(), None);
    assert_eq!(plain.mime_type, None);
    assert_eq!(plain.source, None);
}
