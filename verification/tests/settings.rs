use orbitalos::blink_settings::{theme_mode_labels, BlinkSettings, ThemeMode};
use orbitalos::config::{assigned_value, lookup_value, render_assignment};
use orbitalos::drift_settings::{grid_density_labels, DriftSettings, GridDensity};

#[test]
fn lookup_takes_last_assignment() {
    let text = "# comment\n\n  theme_mode = light \nother=1\ntheme_mode=dark\n";
    assert_eq!(lookup_value(text, "theme_mode"), Some("dark".to_string()));
    assert_eq!(lookup_value(text, "other"), Some("1".to_string()));
    assert_eq!(lookup_value(text, "missing"), None);
    assert_eq!(lookup_value("", "theme_mode"), None);
    assert_eq!(lookup_value("theme_mode=light", "theme_mode"), Some("light".to_string()));
    assert_eq!(lookup_value("theme_mode=light\r\n", "theme_mode"), Some("light".to_string()));
}

#[test]
fn lines_without_assignment_are_skipped() {
    assert_eq!(assigned_value("#theme_mode=light", "theme_mode"), None);
    assert_eq!(assigned_value("   ", "theme_mode"), None);
    assert_eq!(assigned_value("theme_mode", "theme_mode"), None);
    assert_eq!(assigned_value("a=b=c", "a"), Some("b=c".to_string()));
    assert_eq!(assigned_value(" a =", "a"), Some(String::new()));
}

#[test]
fn render_writes_header_and_assignment() {
    assert_eq!(render_assignment("# h\n", "k", "v"), "# h\nk=v\n");
}

#[test]
fn blink_settings_file() {
    assert_eq!(BlinkSettings::default().theme_mode, ThemeMode::Dark);
    let light = BlinkSettings { theme_mode: ThemeMode::Light };
    assert_eq!(
        light.render(),
        "# Blink settings\n# Stored in OrbitalOS app config\n\ntheme_mode=light\n"
    );
    assert_eq!(BlinkSettings::parse(&light.render()), light);
    let dark = BlinkSettings { theme_mode: ThemeMode::Dark };
    assert_eq!(BlinkSettings::parse(&dark.render()), dark);
    assert_eq!(BlinkSettings::parse("theme_mode=purple").theme_mode, ThemeMode::Dark);
    assert_eq!(BlinkSettings::parse("nothing here").theme_mode, ThemeMode::Dark);
}

#[test]
fn theme_modes() {
    assert_eq!(ThemeMode::from_index(1), ThemeMode::Light);
    assert_eq!(ThemeMode::from_index(0), ThemeMode::Dark);
    assert_eq!(ThemeMode::from_index(7), ThemeMode::Dark);
    for mode in [ThemeMode::Dark, ThemeMode::Light] {
        assert_eq!(ThemeMode::from_index(mode.index()), mode);
        assert_eq!(ThemeMode::from_storage(mode.storage_key()), mode);
    }
    assert_eq!(ThemeMode::Light.label(), "Light");
    assert_eq!(theme_mode_labels(), ["Dark", "Light"]);
}

#[test]
fn drift_settings_file() {
    assert_eq!(DriftSettings::default().grid_density, GridDensity::Standard);
    assert_eq!(DriftSettings::default().grid_size(), 8);
    for d in [
        GridDensity::ExtraFine,
        GridDensity::Fine,
        GridDensity::Standard,
        GridDensity::Relaxed,
        GridDensity::Wide,
    ] {
        let s = DriftSettings { grid_density: d };
        assert_eq!(DriftSettings::parse(&s.render()), s);
        assert_eq!(GridDensity::from_index(d.index()), d);
        assert_eq!(GridDensity::from_storage(d.storage_key()), d);
    }
    assert_eq!(
        DriftSettings { grid_density: GridDensity::Wide }.render(),
        "# Drift settings\n# Stored in OrbitalOS app config\n\ngrid_density=wide\n"
    );
    assert_eq!(DriftSettings::parse("grid_density=bogus").grid_density, GridDensity::Standard);
}

#[test]
fn grid_densities() {
    assert_eq!(GridDensity::from_index(0), GridDensity::ExtraFine);
    assert_eq!(GridDensity::from_index(9), GridDensity::Standard);
    assert_eq!(GridDensity::ExtraFine.grid_size(), 4);
    assert_eq!(GridDensity::Fine.grid_size(), 6);
    assert_eq!(GridDensity::Relaxed.grid_size(), 12);
    assert_eq!(GridDensity::Wide.grid_size(), 16);
    assert_eq!(GridDensity::ExtraFine.storage_key(), "extra-fine");
    assert_eq!(grid_density_labels(), ["Sehr fein", "Fein", "Standard", "Locker", "Groß"]);
}
