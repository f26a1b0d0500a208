//! Floor, ceiling and road: each screen row above or below the horizon is a
//! line of the ground or ceiling plane, walked in Q20 steps across the screen.
use vstd::prelude::*;
use crate::grid::{bit_of, get_grid_value, grid_value, has_bit_set, CEILING_BIT, ROAD_BIT};
use crate::texture::{opaque_byte, put_pixel, sample, texel_rgba, Texture};

verus! {

/// How a screen row of the floor stage is drawn.
#[derive(Clone, Copy, Debug, PartialEq, Eq, Structural)]
pub enum RowClass {
    /// A floor row `rows_from_horizon` below the horizon, seen from eye height `cam_z`.
    Floor { rows_from_horizon: i32, cam_z: i32 },
    /// A ceiling row `rows_from_horizon` above the horizon, `cam_z` below the ceiling.
    Ceiling { rows_from_horizon: i32, cam_z: i32 },
    /// A ceiling row while the eye is above the ceiling plane: not drawn.
    Skipped,
}

/// The class of screen row `y` for a screen `height` rows high, a vertical
/// shear `pitch` and an eye offset `z`.
pub open spec fn row_class_spec(y: int, height: int, pitch: int, z: int) -> RowClass {
    let half = height / 2;
    let horizon = half + pitch;
    if y > horizon {
        RowClass::Floor { rows_from_horizon: (y - horizon) as i32, cam_z: (half + z) as i32 }
    } else if half - z < 0 {
        RowClass::Skipped
    } else {
        RowClass::Ceiling { rows_from_horizon: (horizon - y) as i32, cam_z: (half - z) as i32 }
    }
}

/// Classifies screen row `y`: floor below the horizon `height / 2 + pitch`,
/// ceiling above it unless the eye is above the ceiling plane.
pub fn row_class(y: i32, height: i32, pitch: i32, z: i32) -> (r: RowClass)
    requires
        0 <= y < height,
        -1073741824 <= pitch <= 1073741823,
        -1073741824 <= z <= 1073741823,
    ensures
        r == row_class_spec(y as int, height as int, pitch as int, z as int),
{
    let half: i32 = height / 2;
    let horizon: i32 = half + pitch;
    if y > horizon {
        RowClass::Floor { rows_from_horizon: y - horizon, cam_z: half + z }
    } else if half - z < 0 {
        RowClass::Skipped
    } else {
        RowClass::Ceiling { rows_from_horizon: horizon - y, cam_z: half - z }
    }
}

/// Brightness (0 to 256) of a floor or ceiling row at Q20 distance
/// `row_distance`: `1 - (distance / light_range - map_light)` in 8 bits, the
/// quotient rounded toward zero.
pub open spec fn row_alpha_spec(row_distance: i32, light_range: i32, map_light: i32) -> int {
    let quotient = if row_distance >= 0 {
        row_distance as int / light_range as int
    } else {
        -((-row_distance as int) / light_range as int)
    };
    let fixed = 1048576 - (quotient - map_light as int * 1048576);
    let a = if fixed < 0 { 0 } else { fixed / 4096 };
    if a > 256 { 256 } else { a }
}

/// Computes the brightness of a row, `(1 - (d / light_range - map_light)) * 256`,
/// kept within `0..=256`.
pub fn row_alpha(row_distance: i32, light_range: i32, map_light: i32) -> (r: i32)
    requires
        light_range > 0,
    ensures
        r == row_alpha_spec(row_distance, light_range, map_light),
        0 <= r <= 256,
{
    let rd: i64 = row_distance as i64;
    let q: i64 = if rd >= 0 { rd / (light_range as i64) } else { -((-rd) / (light_range as i64)) };
    let fixed: i64 = 1048576 - (q - (map_light as i64) * 1048576);
    let a: i64 = if fixed < 0 { 0 } else { fixed / 4096 };
    if a > 256 { 256 } else { a as i32 }
}

/// Parameters of one floor-stage row: its class, its brightness, the Q20
/// world position left of its first pixel and the Q20 step per pixel.
#[derive(Clone, Copy, Debug, PartialEq, Eq, Structural)]
pub struct FloorRow {
    pub is_floor: bool,
    pub alpha: i32,
    pub base_x: i32,
    pub base_y: i32,
    pub step_x: i32,
    pub step_y: i32,
}

/// Which texture a ground or ceiling point shows: the road on a floor row of a
/// road cell, the floor on a floor row of a ceiling cell without road, the
/// ceiling on a ceiling row of a ceiling cell; 0 for none.
pub open spec fn surface_choice(is_floor: bool, has_road: bool, has_ceiling: bool) -> int {
    if is_floor && !has_road && has_ceiling {
        1
    } else if !is_floor && has_ceiling {
        2
    } else if is_floor && has_road {
        3
    } else {
        0
    }
}

/// A channel scaled by an 8-bit brightness.
pub open spec fn dim(c: u8, alpha: int) -> u8 {
    ((c as int * alpha) / 256) as u8
}

/// The colour at pixel `k` of a floor-stage row, if any.
pub open spec fn floor_pixel(
    k: int,
    r: FloorRow,
    map: Seq<u64>,
    map_width: int,
    floor: &Texture,
    ceiling: &Texture,
    road: &Texture,
) -> Option<(u8, u8, u8)> {
    let wx = r.base_x + (k + 1) * r.step_x;
    let wy = r.base_y + (k + 1) * r.step_y;
    let value = grid_value(wx / 1048576, wy / 1048576, map_width, map);
    let choice = surface_choice(r.is_floor, bit_of(value, 3), bit_of(value, 1));
    if choice == 0 {
        None
    } else {
        let tex = if choice == 1 { floor } else if choice == 2 { ceiling } else { road };
        let tx = tex.width * (wx % 1048576) / 1048576;
        let ty = tex.height * (wy % 1048576) / 1048576;
        match texel_rgba(tex, tx, ty) {
            Some(t) => Some((dim(t.0, r.alpha as int), dim(t.1, r.alpha as int), dim(t.2, r.alpha as int))),
            None => None,
        }
    }
}

/// A row after the floor stage.
pub open spec fn floor_row_spec(
    old: Seq<u8>,
    r: FloorRow,
    map: Seq<u64>,
    map_width: int,
    floor: &Texture,
    ceiling: &Texture,
    road: &Texture,
) -> Seq<u8> {
    Seq::new(
        old.len(),
        |i: int|
            match floor_pixel(i / 4, r, map, map_width, floor, ceiling, road) {
                Some(p) => opaque_byte(p, i % 4),
                None => old[i],
            },
    )
}

/// Reads the grid at 64-bit coordinates; anything outside reads as 0.
fn grid_at(x: i64, y: i64, map_width: i32, map: &[u64]) -> (r: u64)
    ensures
        r == grid_value(x as int, y as int, map_width as int, map@),
{
    if x < 0 || y < 0 || x >= map_width as i64 || y >= map_width as i64 {
        return 0;
    }
    get_grid_value(x as i32, y as i32, map_width, map)
}

/// Texel coordinate of the Q20 fraction of `w` along a side of `size` texels.
fn scale_fraction(size: i32, w: i64) -> (r: i64)
    requires
        size > 0,
    ensures
        r == size as int * (w as int % 1048576) / 1048576,
{
    let f: i64 = w % 1048576;
    let f: i64 = if f < 0 { f + 1048576 } else { f };
    assert(f == w as int % 1048576) by {
        vstd::arithmetic::div_mod::lemma_fundamental_div_mod(w as int, 1048576);
        vstd::arithmetic::div_mod::lemma_mod_bound(w as int, 1048576);
    }
    assert(0 <= size as int * f <= 2147483647 * 1048576) by (nonlinear_arith)
        requires 0 < size <= 2147483647, 0 <= f < 1048576;
    (size as i64) * f / 1048576
}

/// Computes `floor_pixel` at world position `(wx, wy)`.
fn floor_sample(
    wx: i64,
    wy: i64,
    r: FloorRow,
    map: &[u64],
    map_width: i32,
    floor: &Texture,
    ceiling: &Texture,
    road: &Texture,
) -> (p: Option<(u8, u8, u8)>)
    requires
        0 <= r.alpha <= 256,
    ensures
        forall|k: int|
            wx == r.base_x + (k + 1) * r.step_x && wy == r.base_y + (k + 1) * r.step_y ==> p == floor_pixel(
                k, r, map@, map_width as int, floor, ceiling, road),
{
    let value = grid_at(wx >> 20u64, wy >> 20u64, map_width, map);
    proof {
        assert(wx >> 20u64 == wx / 1048576) by (bit_vector);
        assert(wy >> 20u64 == wy / 1048576) by (bit_vector);
    }
    let has_road = has_bit_set(value, ROAD_BIT);
    let has_ceiling = has_bit_set(value, CEILING_BIT);
    let tex: &Texture = if r.is_floor && !has_road && has_ceiling {
        floor
    } else if !r.is_floor && has_ceiling {
        ceiling
    } else if r.is_floor && has_road {
        road
    } else {
        return None;
    };
    if tex.width <= 0 || tex.height <= 0 {
        return None;
    }
    let tx = scale_fraction(tex.width, wx);
    let ty = scale_fraction(tex.height, wy);
    match sample(tex, tx, ty) {
        Some(t) => {
            let a: u32 = r.alpha as u32;
            assert(t.0 as int * a <= 255 * 256 && t.1 as int * a <= 255 * 256 && t.2 as int * a <= 255 * 256)
                by (nonlinear_arith)
                requires a <= 256, t.0 <= 255, t.1 <= 255, t.2 <= 255;
            Some((((t.0 as u32) * a / 256) as u8, ((t.1 as u32) * a / 256) as u8, ((t.2 as u32) * a / 256) as u8))
        },
        None => None,
    }
}

/// Draws one row of the floor stage into `row` (the row's RGBA bytes):
/// walks the ground or ceiling line in Q20 steps, one per pixel, and paints
/// each pixel whose cell has the matching surface.
pub fn draw_floor_row(
    row: &mut [u8],
    r: FloorRow,
    map: &[u64],
    map_width: i32,
    floor: &Texture,
    ceiling: &Texture,
    road: &Texture,
)
    requires
        0 <= r.alpha <= 256,
        old(row)@.len() % 4 == 0,
        old(row)@.len() <= 4 * 2147483647,
    ensures
        final(row)@ == floor_row_spec(old(row)@, r, map@, map_width as int, floor, ceiling, road),
{
    let n: usize = row.len() / 4;
    let ghost start = row@;
    let ghost target = floor_row_spec(start, r, map@, map_width as int, floor, ceiling, road);
    let mut wx: i64 = r.base_x as i64;
    let mut wy: i64 = r.base_y as i64;
    let mut x: usize = 0;
    while x < n
        invariant
            0 <= r.alpha <= 256,
            n <= 2147483647,
            start.len() == 4 * n,
            row@.len() == start.len(),
            target == floor_row_spec(start, r, map@, map_width as int, floor, ceiling, road),
            x <= n,
            wx == r.base_x + x * r.step_x,
            wy == r.base_y + x * r.step_y,
            forall|i: int| 0 <= i < 4 * x ==> #[trigger] row@[i] == target[i],
            forall|i: int| 4 * x <= i < row@.len() ==> #[trigger] row@[i] == start[i],
        decreases n - x,
    {
        assert(-2147483648 * 2147483648 <= x * r.step_x + r.step_x <= 2147483648 * 2147483648
            && -2147483648 * 2147483648 <= x * r.step_y + r.step_y <= 2147483648 * 2147483648) by (nonlinear_arith)
            requires 0 <= x < 2147483647;
        wx = wx + r.step_x as i64;
        wy = wy + r.step_y as i64;
        assert(wx == r.base_x + (x + 1) * r.step_x && wy == r.base_y + (x + 1) * r.step_y) by (nonlinear_arith)
            requires wx == r.base_x + x * r.step_x + r.step_x, wy == r.base_y + x * r.step_y + r.step_y;
        let p = floor_sample(wx, wy, r, map, map_width, floor, ceiling, road);
        match p {
            Some(px) => put_pixel(row, x, px),
            None => {},
        }
        assert forall|i: int| 0 <= i < 4 * (x + 1) implies #[trigger] row@[i] == target[i] by {
            if i >= 4 * x {
                assert(i / 4 == x);
                assert(i % 4 == i - 4 * x);
            }
        }
        x = x + 1;
    }
    assert(row@ =~= target);
}

} // verus!
