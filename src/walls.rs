//! Wall columns: the per-column result of the raycaster, the z-buffer it
//! yields, and the row-by-row rasterisation of the wall bands.
use vstd::prelude::*;
use crate::fixed::{shade, shade_spec};
use crate::texture::{opaque_byte, put_pixel, sample, texel_rgba, Texture};

verus! {

/// What a column's ray stopped at.
#[derive(Clone, Copy, Debug, PartialEq, Eq, Structural)]
pub enum SurfaceKind {
    Wall,
    Door,
    Window,
}

impl SurfaceKind {
    /// The numeric code of the surface: 1 wall, 2 door, 3 window.
    pub fn code(&self) -> (r: i32)
        ensures
            r == match *self {
                SurfaceKind::Wall => 1int,
                SurfaceKind::Door => 2,
                SurfaceKind::Window => 3,
            },
    {
        match self {
            SurfaceKind::Wall => 1,
            SurfaceKind::Door => 2,
            SurfaceKind::Window => 3,
        }
    }
}

/// The outcome of casting the ray of one screen column.
#[derive(Clone, Copy, Debug, PartialEq, Eq, Structural)]
pub struct ColumnData {
    /// Texture column of the wall texel strip.
    pub tex_x: i32,
    /// Screen column.
    pub col: i32,
    /// First screen row of the wall band.
    pub draw_start_y: i32,
    /// Height of the wall band in rows.
    pub wall_height: i32,
    /// Q20 shade factor (1 is full brightness).
    pub alpha: i32,
    /// Whether the ray met a wall within range.
    pub hit: bool,
    pub kind: SurfaceKind,
    /// Perpendicular wall distance, Q20.
    pub distance: i32,
}

/// Darkening of a wall at Q20 distance `distance`: `distance / light_range`
/// kept within 0 and 0.8 (a light range of 0 or less gives no light, the
/// cap), doubled on walls crossed along y (`side` 1), capped at 0.85;
/// the shade is one minus that, in Q20.
pub open spec fn wall_shade_spec(distance: i32, light_range: i32, side: u8) -> int {
    let quotient = if light_range <= 0 {
        838860
    } else if distance >= 0 {
        distance as int / light_range as int
    } else {
        -((-distance as int) / light_range as int)
    };
    let capped = if quotient < 0 { 0 } else if quotient > 838860 { 838860 } else { quotient };
    let sided = if side == 1 { 2 * capped } else { capped };
    let dark = if sided > 891289 { 891289 } else { sided };
    1048576 - dark
}

/// Computes the Q20 shade of a wall column.
pub fn wall_shade(distance: i32, light_range: i32, side: u8) -> (r: i32)
    ensures
        r == wall_shade_spec(distance, light_range, side),
        157287 <= r <= 1048576,
{
    let d: i64 = distance as i64;
    let q: i64 = if light_range <= 0 {
        838860
    } else if d >= 0 {
        d / (light_range as i64)
    } else {
        -((-d) / (light_range as i64))
    };
    let capped: i64 = if q < 0 { 0 } else if q > 838860 { 838860 } else { q };
    let sided: i64 = if side == 1 { 2 * capped } else { capped };
    let dark: i64 = if sided > 891289 { 891289 } else { sided };
    (1048576 - dark) as i32
}

/// Texture column of a wall hit `u` texels into a `tex_width`-wide texture:
/// mirrored (`tex_width - u - 1`) when the ray runs toward +x onto a wall
/// crossed along x (`side` 0) or toward -y onto one crossed along y, so the
/// texture keeps its handedness from every quadrant.
pub open spec fn wall_tex_x_spec(u: i32, tex_width: i32, side: u8, sign_x: i8, sign_y: i8) -> i32 {
    if (side == 0 && sign_x > 0) || (side == 1 && sign_y < 0) {
        (tex_width as int - u as int - 1) as i32
    } else {
        u
    }
}

/// Computes the texture column of a wall hit.
pub fn wall_tex_x(u: i32, tex_width: i32, side: u8, sign_x: i8, sign_y: i8) -> (r: i32)
    ensures
        r == wall_tex_x_spec(u, tex_width, side, sign_x, sign_y),
        0 <= u < tex_width ==> 0 <= r < tex_width,
{
    if (side == 0 && sign_x > 0) || (side == 1 && sign_y < 0) {
        #[verifier::truncate]
        let m: i32 = ((tex_width as i64) - (u as i64) - 1) as i32;
        m
    } else {
        u
    }
}

/// Z-buffer value of a column whose ray met no wall.
pub const NO_HIT_DISTANCE: i32 = 2147483647;

/// The z-buffer entry a column yields: its distance (never negative) on a
/// hit, the no-hit sentinel otherwise.
pub open spec fn depth_of(c: ColumnData) -> i32 {
    if !c.hit {
        NO_HIT_DISTANCE
    } else if c.distance < 0 {
        0
    } else {
        c.distance
    }
}

/// Fills the z-buffer from the column results, column by column.
pub fn fill_zbuffer(columns: &[ColumnData], zbuffer: &mut [i32])
    requires
        old(zbuffer)@.len() == columns@.len(),
    ensures
        final(zbuffer)@.len() == columns@.len(),
        forall|c: int| 0 <= c < columns@.len() ==> #[trigger] final(zbuffer)@[c] == depth_of(columns@[c]),
        forall|c: int| 0 <= c < columns@.len() ==> #[trigger] final(zbuffer)@[c] >= 0,
{
    let n = columns.len();
    let mut c: usize = 0;
    while c < n
        invariant
            n == columns@.len(),
            zbuffer@.len() == n,
            c <= n,
            forall|k: int| 0 <= k < c ==> #[trigger] zbuffer@[k] == depth_of(columns@[k]),
        decreases n - c,
    {
        let col = columns[c];
        let d: i32 = if !col.hit {
            NO_HIT_DISTANCE
        } else if col.distance < 0 {
            0
        } else {
            col.distance
        };
        zbuffer[c] = d;
        c = c + 1;
    }
}

/// The shaded colour that column `c` puts at screen row `y`, if any.
pub open spec fn wall_sample(c: ColumnData, y: int, wall: &Texture, door: &Texture) -> Option<(u8, u8, u8)> {
    if !c.hit || y < c.draw_start_y || y >= c.draw_start_y + c.wall_height {
        None
    } else {
        let tex = if c.kind == SurfaceKind::Door { door } else { wall };
        let ty = (y - c.draw_start_y) * tex.height / (c.wall_height as int);
        match texel_rgba(tex, c.tex_x as int, ty) {
            Some(t) => Some((shade_spec(t.0, c.alpha), shade_spec(t.1, c.alpha), shade_spec(t.2, c.alpha))),
            None => None,
        }
    }
}

/// Row `y` after the wall stage: each column's texel where its wall band
/// covers the row, the earlier content elsewhere.
pub open spec fn walls_row_spec(old: Seq<u8>, y: int, columns: Seq<ColumnData>, wall: &Texture, door: &Texture) -> Seq<u8> {
    Seq::new(
        old.len(),
        |i: int|
            if i / 4 < columns.len() {
                match wall_sample(columns[i / 4], y, wall, door) {
                    Some(p) => opaque_byte(p, i % 4),
                    None => old[i],
                }
            } else {
                old[i]
            },
    )
}

/// Computes `wall_sample` for one column and row.
fn column_sample(c: ColumnData, y: i32, wall: &Texture, door: &Texture) -> (r: Option<(u8, u8, u8)>)
    ensures
        r == wall_sample(c, y as int, wall, door),
{
    if !c.hit || y < c.draw_start_y || (y as i64) >= (c.draw_start_y as i64) + (c.wall_height as i64) {
        return None;
    }
    let tex = if c.kind == SurfaceKind::Door { door } else { wall };
    if tex.height <= 0 {
        assert(texel_rgba(tex, c.tex_x as int, (y - c.draw_start_y) * tex.height / (c.wall_height as int)).is_none());
        return None;
    }
    let dy: i64 = (y as i64) - (c.draw_start_y as i64);
    assert(0 <= dy * (tex.height as int) <= 4294967296 * 2147483647) by (nonlinear_arith)
        requires 0 <= dy <= 4294967296, 0 < tex.height <= 2147483647;
    let ty: i64 = dy * (tex.height as i64) / (c.wall_height as i64);
    match sample(tex, c.tex_x as i64, ty) {
        Some(t) => Some((shade(t.0, c.alpha), shade(t.1, c.alpha), shade(t.2, c.alpha))),
        None => None,
    }
}

/// Draws screen row `y` of the wall stage into `row` (the row's RGBA bytes).
/// Column `x` of the row is drawn from `columns[x]`.
pub fn draw_walls_row(row: &mut [u8], y: i32, columns: &[ColumnData], wall: &Texture, door: &Texture)
    requires
        old(row)@.len() == 4 * columns@.len(),
    ensures
        final(row)@ == walls_row_spec(old(row)@, y as int, columns@, wall, door),
{
    let n = columns.len();
    let ghost start = row@;
    let mut x: usize = 0;
    while x < n
        invariant
            n == columns@.len(),
            start.len() == 4 * n,
            row@.len() == start.len(),
            x <= n,
            forall|i: int| 0 <= i < 4 * x ==> #[trigger] row@[i] == walls_row_spec(start, y as int, columns@, wall, door)[i],
            forall|i: int| 4 * x <= i < row@.len() ==> #[trigger] row@[i] == start[i],
        decreases n - x,
    {
        let s = column_sample(columns[x], y, wall, door);
        let ghost before = row@;
        match s {
            Some(p) => put_pixel(row, x, p),
            None => {},
        }
        assert forall|i: int| 0 <= i < 4 * (x + 1) implies #[trigger] row@[i] == walls_row_spec(start, y as int, columns@, wall, door)[i] by {
            if i >= 4 * x {
                assert(i / 4 == x);
                assert(i % 4 == i - 4 * x);
            }
        }
        x = x + 1;
    }
    assert(row@ =~= walls_row_spec(start, y as int, columns@, wall, door));
}

} // verus!
