use orbitalos::app::{OrbitalApp, APP_NAMESPACE};
use orbitalos::error::OrbitalError;
use orbitalos::note::{note_id_at, NoteId};
use orbitalos::paths::{join_path, OrbitalPaths};
use orbitalos::records::{
    normalized_tags, pending_migrations, require_reloaded, require_updated, snapshot_from_row,
    SnapshotRow,
};
use orbitalos::snapshot::{
    snapshot_id_at, NewSnapshot, SnapshotId, SnapshotKind, INVALID_KIND_MESSAGE,
    SNAPSHOT_ENTITY_TYPE,
};

fn strings(items: &[&str]) -> Vec<String> {
    items.iter().map(|s| s.to_string()).collect()
}

#[test]
fn app_identity() {
    assert_eq!(OrbitalApp::Drift.slug(), "drift");
    assert_eq!(OrbitalApp::Blink.display_name(), "Blink");
    assert_eq!(OrbitalApp::Vector.application_id(), "io.github.grvtyai.orbitalos.vector");
    let d = OrbitalApp::Control.descriptor();
    assert_eq!(d.app, OrbitalApp::Control);
    assert_eq!(d.display_name, "Control");
    assert_eq!(d.slug, "control");
    assert_eq!(d.application_id, format!("{APP_NAMESPACE}.control"));
}

#[test]
fn path_joining_follows_pathbuf() {
    assert_eq!(join_path("/home/a", "x"), "/home/a/x");
    assert_eq!(join_path("/home/a/", "x"), "/home/a/x");
    assert_eq!(join_path("", "x"), "x");
    assert_eq!(join_path("/home/a", "/etc"), "/etc");
    for (base, name) in [("/a/b", "c"), ("rel", "d"), ("/", "e"), ("", "f"), ("/x", "/y")] {
        let expected = std::path::Path::new(base).join(name);
        assert_eq!(join_path(base, name), expected.to_str().unwrap());
    }
}

#[test]
fn discover_defaults_under_home() {
    let paths = OrbitalPaths::discover(Some("/home/ada"), None, None, None).unwrap();
    assert_eq!(paths.data_root(), "/home/ada/.local/share/orbitalos");
    assert_eq!(paths.config_root(), "/home/ada/.config/orbitalos");
    assert_eq!(paths.cache_root(), "/home/ada/.cache/orbitalos");
    assert_eq!(paths.documents_root(), "/home/ada/Documents/OrbitalOS");
    assert_eq!(paths.database_path(), "/home/ada/.local/share/orbitalos/orbital.db");
    assert_eq!(paths.attachments_dir(), "/home/ada/Documents/OrbitalOS/attachments");
    assert_eq!(paths.app_data_dir(OrbitalApp::Blink), "/home/ada/.local/share/orbitalos/blink");
    assert_eq!(paths.app_config_dir(OrbitalApp::Drift), "/home/ada/.config/orbitalos/drift");
    assert_eq!(paths.app_cache_dir(OrbitalApp::Prism), "/home/ada/.cache/orbitalos/prism");
    assert_eq!(paths.app_documents_dir(OrbitalApp::Drift), "/home/ada/Documents/OrbitalOS/Drift");
    assert_eq!(paths.settings_file(OrbitalApp::Blink), "/home/ada/.config/orbitalos/blink/settings.conf");
    assert_eq!(
        paths.missing_directories(),
        strings(&[
            "/home/ada/.local/share/orbitalos",
            "/home/ada/.config/orbitalos",
            "/home/ada/.cache/orbitalos",
            "/home/ada/Documents/OrbitalOS",
            "/home/ada/Documents/OrbitalOS/attachments",
        ])
    );
}

#[test]
fn discover_honours_xdg_variables() {
    let paths = OrbitalPaths::discover(Some("/home/ada"), Some("/data"), Some("/cfg/"), Some("")).unwrap();
    assert_eq!(paths.data_root(), "/data/orbitalos");
    assert_eq!(paths.config_root(), "/cfg/orbitalos");
    assert_eq!(paths.cache_root(), "/home/ada/.cache/orbitalos");
    assert_eq!(paths.documents_root(), "/home/ada/Documents/OrbitalOS");
}

#[test]
fn discover_treats_empty_xdg_variables_as_unset() {
    let paths = OrbitalPaths::discover(Some("/home/ada"), Some(""), Some(""), Some("")).unwrap();
    assert_eq!(paths.data_root(), "/home/ada/.local/share/orbitalos");
    assert_eq!(paths.config_root(), "/home/ada/.config/orbitalos");
    assert_eq!(paths.cache_root(), "/home/ada/.cache/orbitalos");
}

#[test]
fn discover_without_home_fails() {
    assert_eq!(OrbitalPaths::discover(None, Some("/data"), None, None), Err(OrbitalError::MissingHomeDirectory));
}

#[test]
fn error_messages() {
    assert_eq!(OrbitalError::DataInvariant("broken").message(), "data invariant violated: broken");
    assert_eq!(OrbitalError::Database("locked".to_string()).message(), "database error: locked");
    assert_eq!(
        OrbitalError::MissingHomeDirectory.message(),
        "could not determine the current user's home directory"
    );
    assert_eq!(OrbitalError::Io("denied".to_string()).message(), "i/o error: denied");
    assert_eq!(
        OrbitalError::NotFound { entity: "snapshot", id: "s-1".to_string() }.message(),
        "snapshot with id 's-1' was not found"
    );
    assert_eq!(OrbitalError::Time("skew".to_string()).message(), "system time error: skew");
}

#[test]
fn snapshot_kinds_round_trip() {
    for kind in [SnapshotKind::Link, SnapshotKind::Image, SnapshotKind::File, SnapshotKind::Text] {
        assert_eq!(SnapshotKind::from_stored(kind.as_str()), Ok(kind));
    }
    assert_eq!(SnapshotKind::Image.as_str(), "image");
    assert_eq!(SnapshotKind::Image.label(), "Image");
    assert_eq!(SnapshotKind::from_stored("Image"), Err(OrbitalError::DataInvariant(INVALID_KIND_MESSAGE)));
    assert_eq!(SnapshotKind::from_stored(""), Err(OrbitalError::DataInvariant(INVALID_KIND_MESSAGE)));
}

#[test]
fn ids_and_new_snapshot() {
    let id = SnapshotId::new("snap-7".to_string());
    assert_eq!(id.as_str(), "snap-7");
    assert_eq!(SnapshotId::from("x".to_string()).as_str(), "x");
    assert_eq!(SnapshotId::from("x".to_string()), SnapshotId::new("x".to_string()));
    assert_eq!(SnapshotId::new("snap-7".to_string()).to_string(), "snap-7");
    assert_eq!(NoteId::new("n".to_string()).as_str(), "n");
    assert_eq!(snapshot_id_at(1712345678901234567).as_str(), "snapshot-1712345678901234567");
    assert_eq!(snapshot_id_at(0).as_str(), "snapshot-0");
    assert_eq!(note_id_at(42).as_str(), "note-42");
    let s = NewSnapshot::new(id.clone(), "Title".to_string(), SnapshotKind::Text);
    assert_eq!(s.id, id);
    assert_eq!(s.title, "Title");
    assert_eq!(s.kind, SnapshotKind::Text);
    assert!(s.source.is_none() && s.file_path.is_none() && s.mime_type.is_none());
    assert!(s.tags.is_empty());
    assert_eq!(SNAPSHOT_ENTITY_TYPE, "snapshot");
}

#[test]
fn tags_are_trimmed_deduplicated_and_ordered() {
    let tags = strings(&[" rust ", "", "gtk", "rust", "  ", "gtk ", "ubuntu"]);
    assert_eq!(normalized_tags(&tags), strings(&["rust", "gtk", "ubuntu"]));
    assert_eq!(normalized_tags(&[]), Vec::<String>::new());
    let once = normalized_tags(&tags);
    assert_eq!(normalized_tags(&once), once);
}

#[test]
fn row_becomes_summary() {
    let row = SnapshotRow {
        id: "s1".to_string(),
        title: "Shot".to_string(),
        kind: "image".to_string(),
        source: Some("Blink".to_string()),
        file_path: None,
        mime_type: Some("image/png".to_string()),
        created_at: 10,
        updated_at: 20,
        archived_at: None,
    };
    let s = snapshot_from_row(row.clone(), strings(&["a"])).unwrap();
    assert_eq!(s.id.as_str(), "s1");
    assert_eq!(s.kind, SnapshotKind::Image);
    assert_eq!(s.tags, strings(&["a"]));
    assert_eq!((s.created_at, s.updated_at, s.archived_at), (10, 20, None));
    let bad = SnapshotRow { kind: "video".to_string(), ..row };
    assert_eq!(snapshot_from_row(bad, vec![]), Err(OrbitalError::DataInvariant(INVALID_KIND_MESSAGE)));
}

#[test]
fn update_and_reload_outcomes() {
    assert_eq!(require_updated(1, "snapshot", "s1"), Ok(()));
    assert_eq!(
        require_updated(0, "snapshot", "s1"),
        Err(OrbitalError::NotFound { entity: "snapshot", id: "s1".to_string() })
    );
    assert_eq!(require_reloaded(Some(3), "gone"), Ok(3));
    assert_eq!(require_reloaded::<i32>(None, "gone"), Err(OrbitalError::DataInvariant("gone")));
}

#[test]
fn migrations_after_current_version() {
    assert_eq!(pending_migrations(&[1, 2, 3, 4], 2), vec![2, 3]);
    assert_eq!(pending_migrations(&[1, 2, 3, 4], 0), vec![0, 1, 2, 3]);
    assert_eq!(pending_migrations(&[1, 2, 3, 4], 4), Vec::<usize>::new());
}
