//! Blink's own settings: the theme, stored as `theme_mode=dark|light`.

use vstd::prelude::*;
use vstd::string::*;
use crate::config::{
    config_value, lemma_render_then_lookup, lookup_value, plain_token, render_assignment,
    rendered_assignment,
};
use crate::text::same_text;

verus! {

/// The colour scheme of the Blink window.
#[derive(Debug, Clone, Copy, PartialEq, Eq, Structural)]
pub enum ThemeMode {
    Dark,
    Light,
}

/// Blink's settings.
#[derive(Debug, Clone, Copy, PartialEq, Eq, Structural)]
pub struct BlinkSettings {
    pub theme_mode: ThemeMode,
}

/// The key under which the theme is stored.
pub const THEME_MODE_KEY: &'static str = "theme_mode";

/// The comment lines at the top of Blink's settings file.
pub const BLINK_SETTINGS_HEADER: &'static str = "# Blink settings\n# Stored in OrbitalOS app config\n\n";

pub open spec fn theme_from_index(index: u32) -> ThemeMode {
    if index == 1 {
        ThemeMode::Light
    } else {
        ThemeMode::Dark
    }
}

pub open spec fn theme_index(mode: ThemeMode) -> u32 {
    match mode {
        ThemeMode::Dark => 0,
        ThemeMode::Light => 1,
    }
}

pub open spec fn theme_label(mode: ThemeMode) -> Seq<char> {
    match mode {
        ThemeMode::Dark => "Dark"@,
        ThemeMode::Light => "Light"@,
    }
}

pub open spec fn theme_storage_key(mode: ThemeMode) -> Seq<char> {
    match mode {
        ThemeMode::Dark => "dark"@,
        ThemeMode::Light => "light"@,
    }
}

/// The theme a stored value names; anything but `light` means dark.
pub open spec fn theme_from_storage(value: Seq<char>) -> ThemeMode {
    if value == "light"@ {
        ThemeMode::Light
    } else {
        ThemeMode::Dark
    }
}

/// The settings a settings file describes; without a theme line, the default.
pub open spec fn parsed_blink_settings(contents: Seq<char>) -> BlinkSettings {
    match config_value(contents, THEME_MODE_KEY@) {
        Some(v) => BlinkSettings { theme_mode: theme_from_storage(v) },
        None => BlinkSettings { theme_mode: ThemeMode::Dark },
    }
}

/// The text that Blink writes to its settings file.
pub open spec fn rendered_blink_settings(settings: BlinkSettings) -> Seq<char> {
    rendered_assignment(
        BLINK_SETTINGS_HEADER@,
        THEME_MODE_KEY@,
        theme_storage_key(settings.theme_mode),
    )
}

impl Default for BlinkSettings {
    fn default() -> (s: Self)
        ensures
            s.theme_mode == ThemeMode::Dark,
    {
        BlinkSettings { theme_mode: ThemeMode::Dark }
    }
}

impl ThemeMode {
    pub fn from_index(index: u32) -> (m: Self)
        ensures
            m == theme_from_index(index),
    {
        match index {
            1 => ThemeMode::Light,
            _ => ThemeMode::Dark,
        }
    }

    pub fn index(self) -> (i: u32)
        ensures
            i == theme_index(self),
    {
        match self {
            ThemeMode::Dark => 0,
            ThemeMode::Light => 1,
        }
    }

    pub fn label(self) -> (s: &'static str)
        ensures
            s@ == theme_label(self),
    {
        match self {
            ThemeMode::Dark => "Dark",
            ThemeMode::Light => "Light",
        }
    }

    pub fn from_storage(value: &str) -> (m: Self)
        ensures
            m == theme_from_storage(value@),
    {
        if same_text(value, "light") {
            ThemeMode::Light
        } else {
            ThemeMode::Dark
        }
    }

    pub fn storage_key(self) -> (s: &'static str)
        ensures
            s@ == theme_storage_key(self),
    {
        match self {
            ThemeMode::Dark => "dark",
            ThemeMode::Light => "light",
        }
    }
}

/// The labels of the themes, in index order.
pub fn theme_mode_labels() -> (labels: [&'static str; 2])
    ensures
        labels@.len() == 2,
        labels@[0]@ == theme_label(ThemeMode::Dark),
        labels@[1]@ == theme_label(ThemeMode::Light),
{
    [ThemeMode::Dark.label(), ThemeMode::Light.label()]
}

impl BlinkSettings {
    /// The settings that a settings file's text describes.
    pub fn parse(contents: &str) -> (s: Self)
        ensures
            s == parsed_blink_settings(contents@),
    {
        match lookup_value(contents, THEME_MODE_KEY) {
            Some(v) => BlinkSettings { theme_mode: ThemeMode::from_storage(v.as_str()) },
            None => BlinkSettings::default(),
        }
    }

    /// The text of the settings file for these settings.
    pub fn render(&self) -> (text: String)
        ensures
            text@ == rendered_blink_settings(*self),
    {
        render_assignment(BLINK_SETTINGS_HEADER, THEME_MODE_KEY, self.theme_mode.storage_key())
    }
}

/// A theme's index selects that theme again.
pub proof fn lemma_theme_index_round_trip(mode: ThemeMode)
    ensures
        theme_from_index(theme_index(mode)) == mode,
{
}

/// A theme's stored value reads back as that theme.
pub proof fn lemma_theme_storage_round_trip(mode: ThemeMode)
    ensures
        theme_from_storage(theme_storage_key(mode)) == mode,
{
    reveal_strlit("dark");
    reveal_strlit("light");
    assert("dark"@.len() != "light"@.len());
}

/// Reading back the settings file that Blink writes gives the settings it wrote.
pub proof fn lemma_blink_settings_round_trip(settings: BlinkSettings)
    ensures
        parsed_blink_settings(rendered_blink_settings(settings)) == settings,
{
    reveal_strlit("theme_mode");
    reveal_strlit("dark");
    reveal_strlit("light");
    reveal_strlit("# Blink settings\n# Stored in OrbitalOS app config\n\n");
    let key = THEME_MODE_KEY@;
    let value = theme_storage_key(settings.theme_mode);
    assert(plain_token(key));
    assert(plain_token(value));
    lemma_render_then_lookup(BLINK_SETTINGS_HEADER@, key, value);
    lemma_theme_storage_round_trip(settings.theme_mode);
}

} // verus!
