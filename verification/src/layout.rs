//! Geometry of the blocks on a Drift page: the canvas, the grid, and how a
//! block's position and size are constrained, snapped and clamped.

use vstd::prelude::*;
use vstd::arithmetic::div_mod::{
    lemma_fundamental_div_mod, lemma_fundamental_div_mod_converse, lemma_mod_multiples_basic,
    lemma_mod_pos_bound,
};

verus! {

/// Width of the page canvas in pixels.
pub const CANVAS_WIDTH: i32 = 1600;

/// Height of the page canvas in pixels.
pub const CANVAS_HEIGHT: i32 = 1200;

/// Grid spacing used when nothing else is configured.
pub const DEFAULT_GRID_SIZE: i32 = 8;

/// Position and size of one block on the canvas.
#[derive(Debug, Clone, Copy, PartialEq, Eq, Structural)]
pub struct TextBlockLayout {
    pub x: i32,
    pub y: i32,
    pub width: i32,
    pub height: i32,
}

pub open spec fn fits_i32(v: int) -> bool {
    i32::MIN <= v <= i32::MAX
}

/// A grid spacing below one counts as one.
pub open spec fn grid_of(grid_size: i32) -> int {
    if grid_size < 1 {
        1
    } else {
        grid_size as int
    }
}

/// A minimum below one grid unit counts as one.
pub open spec fn units_of(min_units: i32) -> int {
    if min_units < 1 {
        1
    } else {
        min_units as int
    }
}

pub open spec fn max_int(a: int, b: int) -> int {
    if a >= b {
        a
    } else {
        b
    }
}

/// `v` limited to `lo..=hi`.
pub open spec fn clamp_int(v: int, lo: int, hi: int) -> int {
    if v > hi {
        hi
    } else if v < lo {
        lo
    } else {
        v
    }
}

/// `v / g` rounded to the nearest integer, halves away from zero.
pub open spec fn round_div(v: int, g: int) -> int {
    if v >= 0 {
        (2 * v + g) / (2 * g)
    } else {
        -((-2 * v + g) / (2 * g))
    }
}

/// `v` moved to the nearest multiple of `g`, halves away from zero.
pub open spec fn snap(v: int, g: int) -> int {
    round_div(v, g) * g
}

/// The smallest block side for a grid and a number of grid units.
pub open spec fn min_side(grid_size: i32, min_units: i32) -> int {
    grid_of(grid_size) * units_of(min_units)
}

pub open spec fn preview_constrained(l: TextBlockLayout, grid_size: i32, min_units: i32) -> TextBlockLayout {
    let m = min_side(grid_size, min_units);
    TextBlockLayout {
        x: l.x,
        y: l.y,
        width: max_int(l.width as int, m) as i32,
        height: max_int(l.height as int, m) as i32,
    }
}

/// No step of snapping `l` leaves the range of `i32`.
pub open spec fn snapping_fits(l: TextBlockLayout, grid_size: i32, min_units: i32) -> bool {
    let g = grid_of(grid_size);
    let right = l.x + l.width;
    let bottom = l.y + l.height;
    &&& fits_i32(right)
    &&& fits_i32(bottom)
    &&& fits_i32(snap(l.x as int, g))
    &&& fits_i32(snap(l.y as int, g))
    &&& fits_i32(snap(right, g))
    &&& fits_i32(snap(bottom, g))
    &&& fits_i32(snap(right, g) - snap(l.x as int, g))
    &&& fits_i32(snap(bottom, g) - snap(l.y as int, g))
    &&& fits_i32(min_side(grid_size, min_units))
}

pub open spec fn snapped(l: TextBlockLayout, grid_size: i32, min_units: i32) -> TextBlockLayout {
    let g = grid_of(grid_size);
    let left = snap(l.x as int, g);
    let top = snap(l.y as int, g);
    let right = snap(l.x + l.width, g);
    let bottom = snap(l.y + l.height, g);
    TextBlockLayout {
        x: left as i32,
        y: top as i32,
        width: max_int(right - left, min_side(grid_size, min_units)) as i32,
        height: max_int(bottom - top, min_side(grid_size, min_units)) as i32,
    }
}

/// Clamping is possible: the minimum side fits on the canvas with one grid
/// unit to spare (else `i32::clamp` would be given a minimum above its maximum).
pub open spec fn clamping_fits(grid_size: i32, min_units: i32) -> bool {
    &&& fits_i32(min_side(grid_size, min_units))
    &&& min_side(grid_size, min_units) <= CANVAS_HEIGHT - grid_of(grid_size)
}

pub open spec fn clamped(l: TextBlockLayout, grid_size: i32, min_units: i32) -> TextBlockLayout {
    let g = grid_of(grid_size);
    let m = min_side(grid_size, min_units);
    let width = clamp_int(l.width as int, m, CANVAS_WIDTH - g);
    let height = clamp_int(l.height as int, m, CANVAS_HEIGHT - g);
    TextBlockLayout {
        x: clamp_int(l.x as int, 0, CANVAS_WIDTH - width) as i32,
        y: clamp_int(l.y as int, 0, CANVAS_HEIGHT - height) as i32,
        width: width as i32,
        height: height as i32,
    }
}

/// The nearest multiple lies within half a grid unit of the value.
pub proof fn lemma_round_div_bounds(v: int, g: int)
    requires
        g >= 1,
    ensures
        2 * (round_div(v, g) * g) - g <= 2 * v <= 2 * (round_div(v, g) * g) + g,
{
    let d = 2 * g;
    if v >= 0 {
        let x = 2 * v + g;
        lemma_fundamental_div_mod(x, d);
        lemma_mod_pos_bound(x, d);
        let q = x / d;
        assert(d * q == 2 * (q * g)) by (nonlinear_arith)
            requires
                d == 2 * g,
        ;
    } else {
        let x = -2 * v + g;
        lemma_fundamental_div_mod(x, d);
        lemma_mod_pos_bound(x, d);
        let q = x / d;
        assert(d * q == 2 * (q * g)) by (nonlinear_arith)
            requires
                d == 2 * g,
        ;
        assert((-q) * g == -(q * g)) by (nonlinear_arith);
    }
}

/// A multiple of the grid is its own nearest multiple.
pub proof fn lemma_snap_multiple(k: int, g: int)
    requires
        g >= 1,
    ensures
        round_div(k * g, g) == k,
        snap(k * g, g) == k * g,
{
    let d = 2 * g;
    if k >= 0 {
        assert(k * g >= 0) by (nonlinear_arith)
            requires
                k >= 0,
                g >= 1,
        ;
        assert(2 * (k * g) + g == k * d + g) by (nonlinear_arith)
            requires
                d == 2 * g,
        ;
        lemma_fundamental_div_mod_converse(2 * (k * g) + g, d, k, g);
    } else {
        assert(k * g < 0) by (nonlinear_arith)
            requires
                k < 0,
                g >= 1,
        ;
        assert(-2 * (k * g) + g == (-k) * d + g) by (nonlinear_arith)
            requires
                d == 2 * g,
        ;
        lemma_fundamental_div_mod_converse(-2 * (k * g) + g, d, -k, g);
    }
}

/// A snapped value is a multiple of the grid.
pub proof fn lemma_snap_aligned(v: int, g: int)
    requires
        g >= 1,
    ensures
        snap(v, g) % g == 0,
{
    lemma_mod_multiples_basic(round_div(v, g), g);
}

/// `value` moved to the nearest multiple of `grid_size`.
fn snap_value(value: i32, grid_size: i32) -> (r: i32)
    requires
        grid_size >= 1,
        fits_i32(snap(value as int, grid_size as int)),
    ensures
        r == snap(value as int, grid_size as int),
{
    proof {
        lemma_round_div_bounds(value as int, grid_size as int);
    }
    let v = value as i64;
    let g = grid_size as i64;
    let q: i64 = if v >= 0 {
        (2 * v + g) / (2 * g)
    } else {
        -((-2 * v + g) / (2 * g))
    };
    assert(q == round_div(value as int, grid_size as int));
    assert(-0x1_0000_0000 <= q * g <= 0x1_0000_0000) by (nonlinear_arith)
        requires
            2 * (q * g) - g <= 2 * v <= 2 * (q * g) + g,
            -0x8000_0000 <= v < 0x8000_0000,
            1 <= g < 0x8000_0000,
    ;
    (q * g) as i32
}

/// A grid spacing of at least one.
fn normalized_grid_size(grid_size: i32) -> (g: i32)
    ensures
        g == grid_of(grid_size),
{
    if grid_size < 1 {
        1
    } else {
        grid_size
    }
}

fn normalized_units(min_units: i32) -> (u: i32)
    ensures
        u == units_of(min_units),
{
    if min_units < 1 {
        1
    } else {
        min_units
    }
}

fn max_i32(a: i32, b: i32) -> (r: i32)
    ensures
        r == max_int(a as int, b as int),
{
    if a >= b {
        a
    } else {
        b
    }
}

fn clamp_i32(v: i32, lo: i32, hi: i32) -> (r: i32)
    requires
        lo <= hi,
    ensures
        r == clamp_int(v as int, lo as int, hi as int),
{
    if v > hi {
        hi
    } else if v < lo {
        lo
    } else {
        v
    }
}

impl TextBlockLayout {
    /// Grows the block, while it is being dragged or resized, to at least
    /// `min_units` grid units on each side.
    pub fn preview_constrained_with_min_units(self, grid_size: i32, min_units: i32) -> (r: Self)
        requires
            fits_i32(min_side(grid_size, min_units)),
        ensures
            r == preview_constrained(self, grid_size, min_units),
    {
        let min_size = normalized_grid_size(grid_size) * normalized_units(min_units);
        TextBlockLayout {
            x: self.x,
            y: self.y,
            width: max_i32(self.width, min_size),
            height: max_i32(self.height, min_size),
        }
    }

    /// Moves each edge of the block to the nearest grid line, keeping each
    /// side at least `min_units` grid units long.
    pub fn snapped_to_grid_with_min_units(self, grid_size: i32, min_units: i32) -> (r: Self)
        requires
            snapping_fits(self, grid_size, min_units),
        ensures
            r == snapped(self, grid_size, min_units),
    {
        let grid_size = normalized_grid_size(grid_size);
        let min_size = grid_size * normalized_units(min_units);
        let snapped_left = snap_value(self.x, grid_size);
        let snapped_top = snap_value(self.y, grid_size);
        let snapped_right = snap_value(self.x + self.width, grid_size);
        let snapped_bottom = snap_value(self.y + self.height, grid_size);
        TextBlockLayout {
            x: snapped_left,
            y: snapped_top,
            width: max_i32(snapped_right - snapped_left, min_size),
            height: max_i32(snapped_bottom - snapped_top, min_size),
        }
    }

    /// Limits the block's size to the canvas less one grid unit, and its
    /// position so that it lies wholly on the canvas.
    pub fn clamp_to_canvas_with_min_units(self, grid_size: i32, min_units: i32) -> (r: Self)
        requires
            clamping_fits(grid_size, min_units),
        ensures
            r == clamped(self, grid_size, min_units),
    {
        let grid_size = normalized_grid_size(grid_size);
        let min_size = grid_size * normalized_units(min_units);
        let width = clamp_i32(self.width, min_size, CANVAS_WIDTH - grid_size);
        let height = clamp_i32(self.height, min_size, CANVAS_HEIGHT - grid_size);
        TextBlockLayout {
            x: clamp_i32(self.x, 0, CANVAS_WIDTH - width),
            y: clamp_i32(self.y, 0, CANVAS_HEIGHT - height),
            width,
            height,
        }
    }
}


/// A clamped block lies wholly on the canvas, each side between the minimum
/// and the canvas less one grid unit.
pub proof fn lemma_clamped_on_canvas(l: TextBlockLayout, grid_size: i32, min_units: i32)
    requires
        clamping_fits(grid_size, min_units),
    ensures
        ({
            let r = clamped(l, grid_size, min_units);
            let g = grid_of(grid_size);
            let m = min_side(grid_size, min_units);
            &&& 0 <= r.x && r.x + r.width <= CANVAS_WIDTH
            &&& 0 <= r.y && r.y + r.height <= CANVAS_HEIGHT
            &&& m <= r.width <= CANVAS_WIDTH - g
            &&& m <= r.height <= CANVAS_HEIGHT - g
        }),
{
}

/// Clamping a clamped block changes nothing.
pub proof fn lemma_clamp_idempotent(l: TextBlockLayout, grid_size: i32, min_units: i32)
    requires
        clamping_fits(grid_size, min_units),
    ensures
        clamped(clamped(l, grid_size, min_units), grid_size, min_units) == clamped(
            l,
            grid_size,
            min_units,
        ),
{
}

/// A snapped block starts on grid lines, its sides are whole grid units and
/// at least the minimum.
pub proof fn lemma_snapped_aligned(l: TextBlockLayout, grid_size: i32, min_units: i32)
    requires
        snapping_fits(l, grid_size, min_units),
    ensures
        ({
            let r = snapped(l, grid_size, min_units);
            let g = grid_of(grid_size);
            &&& (r.x as int) % g == 0
            &&& (r.y as int) % g == 0
            &&& (r.width as int) % g == 0
            &&& (r.height as int) % g == 0
            &&& r.width >= min_side(grid_size, min_units)
            &&& r.height >= min_side(grid_size, min_units)
        }),
{
    let g = grid_of(grid_size);
    let u = units_of(min_units);
    let qx = round_div(l.x as int, g);
    let qy = round_div(l.y as int, g);
    let qr = round_div(l.x + l.width, g);
    let qb = round_div(l.y + l.height, g);
    assert(qr * g - qx * g == (qr - qx) * g) by (nonlinear_arith);
    assert(qb * g - qy * g == (qb - qy) * g) by (nonlinear_arith);
    assert(g * u == u * g) by (nonlinear_arith);
    lemma_mod_multiples_basic(qx, g);
    lemma_mod_multiples_basic(qy, g);
    lemma_mod_multiples_basic(qr - qx, g);
    lemma_mod_multiples_basic(qb - qy, g);
    lemma_mod_multiples_basic(u, g);
}

proof fn lemma_snapped_side_again(q: int, side: int, k: int, g: int, u: int)
    requires
        g >= 1,
        u >= 1,
        side == k * g,
        side >= g * u,
    ensures
        snap(q * g, g) == q * g,
        snap(q * g + side, g) == q * g + side,
        max_int(snap(q * g + side, g) - snap(q * g, g), g * u) == side,
{
    lemma_snap_multiple(q, g);
    assert(q * g + side == (q + k) * g) by (nonlinear_arith)
        requires
            side == k * g,
    ;
    lemma_snap_multiple(q + k, g);
}

/// Snapping a snapped block changes nothing (where both snaps stay within `i32`).
pub proof fn lemma_snap_idempotent(l: TextBlockLayout, grid_size: i32, min_units: i32)
    requires
        snapping_fits(l, grid_size, min_units),
        snapping_fits(snapped(l, grid_size, min_units), grid_size, min_units),
    ensures
        snapped(snapped(l, grid_size, min_units), grid_size, min_units) == snapped(
            l,
            grid_size,
            min_units,
        ),
{
    let g = grid_of(grid_size);
    let u = units_of(min_units);
    let m = min_side(grid_size, min_units);
    let qx = round_div(l.x as int, g);
    let qy = round_div(l.y as int, g);
    let qr = round_div(l.x + l.width, g);
    let qb = round_div(l.y + l.height, g);
    let r = snapped(l, grid_size, min_units);
    assert(m == g * u);
    assert(qr * g - qx * g == (qr - qx) * g) by (nonlinear_arith);
    assert(qb * g - qy * g == (qb - qy) * g) by (nonlinear_arith);
    assert(g * u == u * g) by (nonlinear_arith);
    let w = max_int(qr * g - qx * g, g * u);
    let h = max_int(qb * g - qy * g, g * u);
    assert(r.x == qx * g && r.width == w);
    assert(r.y == qy * g && r.height == h);
    if qr * g - qx * g >= g * u {
        lemma_snapped_side_again(qx, w, qr - qx, g, u);
    } else {
        lemma_snapped_side_again(qx, w, u, g, u);
    }
    if qb * g - qy * g >= g * u {
        lemma_snapped_side_again(qy, h, qb - qy, g, u);
    } else {
        lemma_snapped_side_again(qy, h, u, g, u);
    }
}

/// The preview size is at least the minimum and at least the size asked for;
/// constraining it again changes nothing.
pub proof fn lemma_preview_constrained(l: TextBlockLayout, grid_size: i32, min_units: i32)
    requires
        fits_i32(min_side(grid_size, min_units)),
    ensures
        ({
            let r = preview_constrained(l, grid_size, min_units);
            &&& r.x == l.x && r.y == l.y
            &&& r.width >= l.width && r.width >= min_side(grid_size, min_units)
            &&& r.height >= l.height && r.height >= min_side(grid_size, min_units)
            &&& preview_constrained(r, grid_size, min_units) == r
        }),
{
}

/// The spacing of the canvas's dot grid: major dots one grid apart, minor
/// dots half a grid apart (at least one pixel each).
pub open spec fn dot_steps(grid_size: i32) -> (int, int) {
    let major = grid_of(grid_size);
    let minor = if major / 2 < 1 {
        1
    } else {
        major / 2
    };
    (major, minor)
}

pub fn dot_grid_steps(grid_size: i32) -> (steps: (i32, i32))
    ensures
        steps.0 as int == dot_steps(grid_size).0,
        steps.1 as int == dot_steps(grid_size).1,
        steps.0 >= 1,
        steps.1 >= 1,
{
    let major = if grid_size < 1 {
        1
    } else {
        grid_size
    };
    let half = major / 2;
    let minor = if half < 1 {
        1
    } else {
        half
    };
    (major, minor)
}

/// A dot of the grid, at a point of the canvas the minor steps reach from
/// its top-left corner, is drawn as a major dot when both its coordinates
/// are multiples of the major step.
pub fn is_major_dot(x: i32, y: i32, major_step: i32) -> (b: bool)
    requires
        major_step >= 1,
        x >= 0,
        y >= 0,
    ensures
        b == (x as int % major_step as int == 0 && y as int % major_step as int == 0),
{
    x % major_step == 0 && y % major_step == 0
}

} // verus!
