//! Drift's own settings: the density of the canvas grid, stored as
//! `grid_density=<key>`.

use vstd::prelude::*;
use vstd::string::*;
use crate::canvas::{default_fits, MIN_CODE_BLOCK_UNITS, MIN_TEXT_BLOCK_UNITS};
use crate::config::{
    config_value, lemma_render_then_lookup, lookup_value, plain_token, render_assignment,
    rendered_assignment,
};
use crate::layout::{clamping_fits, dot_steps, fits_i32, min_side, DEFAULT_GRID_SIZE};
use crate::text::same_text;

verus! {

/// How far apart the lines of the canvas grid are.
#[derive(Debug, Clone, Copy, PartialEq, Eq, Structural)]
pub enum GridDensity {
    ExtraFine,
    Fine,
    Standard,
    Relaxed,
    Wide,
}

/// Drift's settings.
#[derive(Debug, Clone, Copy, PartialEq, Eq, Structural)]
pub struct DriftSettings {
    pub grid_density: GridDensity,
}

/// The key under which the grid density is stored.
pub const GRID_DENSITY_KEY: &'static str = "grid_density";

/// The comment lines at the top of Drift's settings file.
pub const DRIFT_SETTINGS_HEADER: &'static str = "# Drift settings\n# Stored in OrbitalOS app config\n\n";

pub open spec fn density_from_index(index: u32) -> GridDensity {
    if index == 0 {
        GridDensity::ExtraFine
    } else if index == 1 {
        GridDensity::Fine
    } else if index == 3 {
        GridDensity::Relaxed
    } else if index == 4 {
        GridDensity::Wide
    } else {
        GridDensity::Standard
    }
}

pub open spec fn density_index(d: GridDensity) -> u32 {
    match d {
        GridDensity::ExtraFine => 0,
        GridDensity::Fine => 1,
        GridDensity::Standard => 2,
        GridDensity::Relaxed => 3,
        GridDensity::Wide => 4,
    }
}

pub open spec fn density_label(d: GridDensity) -> Seq<char> {
    match d {
        GridDensity::ExtraFine => "Sehr fein"@,
        GridDensity::Fine => "Fein"@,
        GridDensity::Standard => "Standard"@,
        GridDensity::Relaxed => "Locker"@,
        GridDensity::Wide => "Groß"@,
    }
}

pub open spec fn density_grid_size(d: GridDensity) -> i32 {
    match d {
        GridDensity::ExtraFine => 4,
        GridDensity::Fine => 6,
        GridDensity::Standard => DEFAULT_GRID_SIZE,
        GridDensity::Relaxed => 12,
        GridDensity::Wide => 16,
    }
}

pub open spec fn density_storage_key(d: GridDensity) -> Seq<char> {
    match d {
        GridDensity::ExtraFine => "extra-fine"@,
        GridDensity::Fine => "fine"@,
        GridDensity::Standard => "standard"@,
        GridDensity::Relaxed => "relaxed"@,
        GridDensity::Wide => "wide"@,
    }
}

/// The density a stored value names; an unknown value means standard.
pub open spec fn density_from_storage(value: Seq<char>) -> GridDensity {
    if value == "extra-fine"@ {
        GridDensity::ExtraFine
    } else if value == "fine"@ {
        GridDensity::Fine
    } else if value == "standard"@ {
        GridDensity::Standard
    } else if value == "relaxed"@ {
        GridDensity::Relaxed
    } else if value == "wide"@ {
        GridDensity::Wide
    } else {
        GridDensity::Standard
    }
}

/// The settings a settings file describes; without a density line, the default.
pub open spec fn parsed_drift_settings(contents: Seq<char>) -> DriftSettings {
    match config_value(contents, GRID_DENSITY_KEY@) {
        Some(v) => DriftSettings { grid_density: density_from_storage(v) },
        None => DriftSettings { grid_density: GridDensity::Standard },
    }
}

/// The text that Drift writes to its settings file.
pub open spec fn rendered_drift_settings(settings: DriftSettings) -> Seq<char> {
    rendered_assignment(
        DRIFT_SETTINGS_HEADER@,
        GRID_DENSITY_KEY@,
        density_storage_key(settings.grid_density),
    )
}

impl Default for DriftSettings {
    fn default() -> (s: Self)
        ensures
            s.grid_density == GridDensity::Standard,
    {
        DriftSettings { grid_density: GridDensity::Standard }
    }
}

impl DriftSettings {
    /// The grid spacing these settings select.
    pub fn grid_size(&self) -> (g: i32)
        ensures
            g == density_grid_size(self.grid_density),
    {
        self.grid_density.grid_size()
    }

    /// The settings that a settings file's text describes.
    pub fn parse(contents: &str) -> (s: Self)
        ensures
            s == parsed_drift_settings(contents@),
    {
        match lookup_value(contents, GRID_DENSITY_KEY) {
            Some(v) => DriftSettings { grid_density: GridDensity::from_storage(v.as_str()) },
            None => DriftSettings::default(),
        }
    }

    /// The text of the settings file for these settings.
    pub fn render(&self) -> (text: String)
        ensures
            text@ == rendered_drift_settings(*self),
    {
        render_assignment(DRIFT_SETTINGS_HEADER, GRID_DENSITY_KEY, self.grid_density.storage_key())
    }
}

impl GridDensity {
    pub fn from_index(index: u32) -> (d: Self)
        ensures
            d == density_from_index(index),
    {
        match index {
            0 => GridDensity::ExtraFine,
            1 => GridDensity::Fine,
            2 => GridDensity::Standard,
            3 => GridDensity::Relaxed,
            4 => GridDensity::Wide,
            _ => GridDensity::Standard,
        }
    }

    pub fn index(self) -> (i: u32)
        ensures
            i == density_index(self),
    {
        match self {
            GridDensity::ExtraFine => 0,
            GridDensity::Fine => 1,
            GridDensity::Standard => 2,
            GridDensity::Relaxed => 3,
            GridDensity::Wide => 4,
        }
    }

    pub fn label(self) -> (s: &'static str)
        ensures
            s@ == density_label(self),
    {
        match self {
            GridDensity::ExtraFine => "Sehr fein",
            GridDensity::Fine => "Fein",
            GridDensity::Standard => "Standard",
            GridDensity::Relaxed => "Locker",
            GridDensity::Wide => "Groß",
        }
    }

    pub fn grid_size(self) -> (g: i32)
        ensures
            g == density_grid_size(self),
    {
        match self {
            GridDensity::ExtraFine => 4,
            GridDensity::Fine => 6,
            GridDensity::Standard => DEFAULT_GRID_SIZE,
            GridDensity::Relaxed => 12,
            GridDensity::Wide => 16,
        }
    }

    pub fn from_storage(value: &str) -> (d: Self)
        ensures
            d == density_from_storage(value@),
    {
        if same_text(value, "extra-fine") {
            GridDensity::ExtraFine
        } else if same_text(value, "fine") {
            GridDensity::Fine
        } else if same_text(value, "standard") {
            GridDensity::Standard
        } else if same_text(value, "relaxed") {
            GridDensity::Relaxed
        } else if same_text(value, "wide") {
            GridDensity::Wide
        } else {
            GridDensity::Standard
        }
    }

    pub fn storage_key(self) -> (s: &'static str)
        ensures
            s@ == density_storage_key(self),
    {
        match self {
            GridDensity::ExtraFine => "extra-fine",
            GridDensity::Fine => "fine",
            GridDensity::Standard => "standard",
            GridDensity::Relaxed => "relaxed",
            GridDensity::Wide => "wide",
        }
    }
}

/// The labels of the densities, in index order.
pub fn grid_density_labels() -> (labels: [&'static str; 5])
    ensures
        labels@.len() == 5,
        labels@[0]@ == density_label(GridDensity::ExtraFine),
        labels@[1]@ == density_label(GridDensity::Fine),
        labels@[2]@ == density_label(GridDensity::Standard),
        labels@[3]@ == density_label(GridDensity::Relaxed),
        labels@[4]@ == density_label(GridDensity::Wide),
{
    [
        GridDensity::ExtraFine.label(),
        GridDensity::Fine.label(),
        GridDensity::Standard.label(),
        GridDensity::Relaxed.label(),
        GridDensity::Wide.label(),
    ]
}

/// A density's index selects that density again.
pub proof fn lemma_density_index_round_trip(d: GridDensity)
    ensures
        density_from_index(density_index(d)) == d,
{
}

/// A density's stored value reads back as that density.
pub proof fn lemma_density_storage_round_trip(d: GridDensity)
    ensures
        density_from_storage(density_storage_key(d)) == d,
{
    reveal_strlit("extra-fine");
    reveal_strlit("fine");
    reveal_strlit("standard");
    reveal_strlit("relaxed");
    reveal_strlit("wide");
    assert("extra-fine"@.len() == 10);
    assert("fine"@.len() == 4);
    assert("standard"@.len() == 8);
    assert("relaxed"@.len() == 7);
    assert("wide"@.len() == 4);
    assert("fine"@[0] != "wide"@[0]);
}

/// Reading back the settings file that Drift writes gives the settings it wrote.
pub proof fn lemma_drift_settings_round_trip(settings: DriftSettings)
    ensures
        parsed_drift_settings(rendered_drift_settings(settings)) == settings,
{
    reveal_strlit("grid_density");
    reveal_strlit("extra-fine");
    reveal_strlit("fine");
    reveal_strlit("standard");
    reveal_strlit("relaxed");
    reveal_strlit("wide");
    reveal_strlit("# Drift settings\n# Stored in OrbitalOS app config\n\n");
    let key = GRID_DENSITY_KEY@;
    let value = density_storage_key(settings.grid_density);
    assert(plain_token(key));
    assert(plain_token(value));
    lemma_render_then_lookup(DRIFT_SETTINGS_HEADER@, key, value);
    lemma_density_storage_round_trip(settings.grid_density);
}

/// Every density gives a grid on which the default blocks can be placed and
/// text and code blocks can be clamped to the canvas.
pub proof fn lemma_density_grid_usable(d: GridDensity)
    ensures
        density_grid_size(d) >= 1,
        default_fits(density_grid_size(d)),
        clamping_fits(density_grid_size(d), MIN_TEXT_BLOCK_UNITS),
        clamping_fits(density_grid_size(d), MIN_CODE_BLOCK_UNITS),
{
    let g = density_grid_size(d);
    assert(1 <= g <= 16);
    assert(min_side(g, MIN_TEXT_BLOCK_UNITS) == g * 8);
    assert(min_side(g, MIN_CODE_BLOCK_UNITS) == g * 1);
    assert(g * 8 <= 128) by (nonlinear_arith)
        requires
            1 <= g <= 16,
    ;
    assert(g * 68 <= 1088) by (nonlinear_arith)
        requires
            1 <= g <= 16,
    ;
}

/// At every density the major dots of the canvas grid fall on the minor
/// dots, so each grid point is drawn as a major dot.
pub proof fn lemma_density_dots_on_lattice(d: GridDensity)
    ensures
        dot_steps(density_grid_size(d)).0 % dot_steps(density_grid_size(d)).1 == 0,
{
    let g = density_grid_size(d) as int;
    assert(g == 4 || g == 6 || g == 8 || g == 12 || g == 16);
    assert(dot_steps(g as i32).0 == g);
    assert(dot_steps(g as i32).1 == g / 2);
    assert(g % (g / 2) == 0) by (nonlinear_arith)
        requires
            g == 4 || g == 6 || g == 8 || g == 12 || g == 16,
    ;
}

} // verus!
