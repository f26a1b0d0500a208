//! Sprites: draw order, texture-angle choice, shading, occlusion trimming
//! against the z-buffer, and the per-row alpha-blended compositing.
use vstd::prelude::*;
use crate::fixed::{shade, shade_spec};
use crate::texture::{opaque_byte, sample, texel_rgba, Texture};

verus! {

/// Squared distance of an offset `(dx, dy)` given in Q8.
pub open spec fn squared_distance_spec(dx: i32, dy: i32) -> int {
    dx as int * dx as int + dy as int * dy as int
}

/// The Q8 squared distance `dx² + dy²` of a camera-relative offset in Q8, on 64 bits.
pub fn squared_distance_q8(dx: i32, dy: i32) -> (r: u64)
    ensures
        r == squared_distance_spec(dx, dy),
{
    assert(0 <= dx as int * dx as int <= 2147483648 * 2147483648) by (nonlinear_arith);
    assert(0 <= dy as int * dy as int <= 2147483648 * 2147483648) by (nonlinear_arith);
    let ax: u64 = if dx < 0 { (-(dx as i64)) as u64 } else { dx as u64 };
    let ay: u64 = if dy < 0 { (-(dy as i64)) as u64 } else { dy as u64 };
    assert(ax * ax == dx as int * dx as int && ay * ay == dy as int * dy as int) by (nonlinear_arith)
        requires ax == (if dx < 0 { -(dx as int) } else { dx as int }), ay == (if dy < 0 { -(dy as int) } else { dy as int });
    assert(ax * ax <= 2147483648 * 2147483648 && ay * ay <= 2147483648 * 2147483648) by (nonlinear_arith)
        requires ax <= 2147483648, ay <= 2147483648;
    ax * ax + ay * ay
}

/// Sprite `a` is drawn before sprite `b`: it is farther, or as far and
/// earlier in the list.
pub open spec fn drawn_before(dist: Seq<u64>, a: int, b: int) -> bool {
    dist[a] > dist[b] || (dist[a] == dist[b] && a < b)
}

/// The order in which to draw sprites with squared distances `dist`: farthest
/// first, sprites at equal distance in list order. The result lists every
/// index exactly once.
pub fn far_first_order(dist: &[u64]) -> (r: Vec<usize>)
    ensures
        r@.len() == dist@.len(),
        forall|p: int| 0 <= p < r@.len() ==> #[trigger] r@[p] < dist@.len(),
        forall|p: int, q: int|
            0 <= p < q < r@.len() ==> drawn_before(dist@, #[trigger] r@[p] as int, #[trigger] r@[q] as int),
{
    let n = dist.len();
    let mut order: Vec<usize> = Vec::new();
    let mut i: usize = 0;
    while i < n
        invariant
            n == dist@.len(),
            i <= n,
            order@.len() == i,
            forall|p: int| 0 <= p < order@.len() ==> #[trigger] order@[p] < i,
            forall|p: int, q: int|
                0 <= p < q < order@.len() ==> drawn_before(dist@, #[trigger] order@[p] as int, #[trigger] order@[q] as int),
        decreases n - i,
    {
        let d = dist[i];
        let mut pos: usize = 0;
        while pos < order.len() && dist[order[pos]] >= d
            invariant
                n == dist@.len(),
                i < n,
                d == dist@[i as int],
                order@.len() == i,
                pos <= order@.len(),
                forall|p: int| 0 <= p < order@.len() ==> #[trigger] order@[p] < i,
                forall|p: int| 0 <= p < pos ==> dist@[#[trigger] order@[p] as int] >= d,
            decreases order@.len() - pos,
        {
            pos = pos + 1;
        }
        let ghost before = order@;
        proof {
            assert forall|p: int| pos <= p < before.len() implies dist@[#[trigger] before[p] as int] < d by {
                if pos < before.len() {
                    assert(dist@[before[pos as int] as int] < d);
                    if p > pos {
                        assert(drawn_before(dist@, before[pos as int] as int, before[p] as int));
                    }
                }
            }
        }
        order.insert(pos, i);
        assert forall|p: int, q: int|
            0 <= p < q < order@.len() implies drawn_before(dist@, #[trigger] order@[p] as int, #[trigger] order@[q] as int) by {
            if p < pos && q == pos {
                assert(dist@[before[p] as int] >= d);
            } else if p < pos && q > pos {
                assert(order@[q] == before[q - 1]);
            } else if p == pos {
                assert(order@[q] == before[q - 1]);
                assert(dist@[before[q - 1] as int] < d);
            } else if p > pos {
                assert(order@[p] == before[p - 1] && order@[q] == before[q - 1]);
            }
        }
        i = i + 1;
    }
    order
}

/// Index of the pre-rotated texture for a sprite seen under `angle_degrees`
/// (-180 to 180) with its own bias: the heading `angle + 180 + bias` taken
/// mod 360, in 45-degree sectors; 0 where the texture has no such angle.
pub open spec fn angle_index_spec(angle_degrees: i32, bias: i32, angles: u32) -> int {
    let heading = (angle_degrees as int + 180 + bias as int) % 360;
    let sector = heading / 45;
    if sector >= angles { 0 } else { sector }
}

/// Picks the pre-rotated texture of a sprite seen under `angle_degrees`.
pub fn angle_index(angle_degrees: i32, bias: i32, angles: u32) -> (r: i32)
    ensures
        r == angle_index_spec(angle_degrees, bias, angles),
        0 <= r < 8,
{
    let heading: i64 = match ((angle_degrees as i64) + 180 + (bias as i64)).checked_rem_euclid(360) {
        Some(h) => h,
        None => 0,
    };
    let sector: i64 = heading / 45;
    if sector >= angles as i64 { 0 } else { sector as i32 }
}

/// Q20 shade of a sprite at Q20 depth `depth`: `1 - (depth / light_range -
/// map_light)`, kept between 1/8 and 1 so a sprite never goes fully dark.
pub open spec fn sprite_shade_spec(depth: i32, light_range: i32, map_light: i32) -> int {
    let quotient = if depth >= 0 {
        depth as int / light_range as int
    } else {
        -((-depth as int) / light_range as int)
    };
    let a = 1048576 - (quotient - map_light as int * 1048576);
    if a < 131072 { 131072 } else if a > 1048576 { 1048576 } else { a }
}

/// Computes the shade of a sprite at Q20 depth `depth`.
pub fn sprite_shade(depth: i32, light_range: i32, map_light: i32) -> (r: i32)
    requires
        light_range > 0,
    ensures
        r == sprite_shade_spec(depth, light_range, map_light),
        131072 <= r <= 1048576,
{
    let d: i64 = depth as i64;
    let q: i64 = if d >= 0 { d / (light_range as i64) } else { -((-d) / (light_range as i64)) };
    let a: i64 = 1048576 - (q - (map_light as i64) * 1048576);
    if a < 131072 { 131072 } else if a > 1048576 { 1048576 } else { a as i32 }
}

} // verus!

verus! {

/// A sprite's visible slice on screen, ready to be composited row by row.
pub struct SpritePart<'a> {
    pub sprite_type: i32,
    /// First screen column.
    pub sprite_left_x: u32,
    /// Number of screen columns.
    pub width: i32,
    /// First screen row.
    pub screen_y_ceiling: i32,
    /// Number of screen rows.
    pub height: i32,
    /// First texture column and number of texture columns spanned.
    pub tex_x1: i32,
    pub tex_width: i32,
    /// Q20 shade.
    pub alpha: i32,
    /// Q20 depth along the view direction, tested against the z-buffer.
    pub depth: i32,
    pub texture: Texture<'a>,
}

/// A part spans a non-empty rectangle of the screen and of a non-empty texture.
pub open spec fn part_wf(p: &SpritePart) -> bool {
    &&& p.width > 0
    &&& p.height > 0
    &&& p.tex_x1 >= 0
    &&& p.tex_width >= 0
    &&& p.texture.width > 0
    &&& p.texture.height > 0
}

/// Whether screen pixel `(x, y)` lies in the part's rectangle.
pub open spec fn part_covers(p: &SpritePart, x: int, y: int) -> bool {
    &&& p.screen_y_ceiling <= y < p.screen_y_ceiling + p.height
    &&& p.sprite_left_x <= x < p.sprite_left_x + p.width
}

/// The texel of the part that lands on screen pixel `(x, y)`.
pub open spec fn part_texel(p: &SpritePart, x: int, y: int) -> Option<(u8, u8, u8, u8)> {
    let tex_y = (y - p.screen_y_ceiling) * p.texture.height / (p.height as int);
    let tex_x = p.tex_x1 + (x - p.sprite_left_x) * p.tex_width / (p.width as int);
    texel_rgba(&p.texture, tex_x, tex_y)
}

/// One channel of a texel of opacity `a` shaded by `alpha` and laid over `under`.
pub open spec fn blend(c: u8, a: u8, alpha: i32, under: u8) -> u8 {
    let s = shade_spec(c, alpha);
    if a == 255 { s } else { ((a as int * s as int + under as int * (255 - a as int)) / 256) as u8 }
}

/// The colour the part leaves at screen pixel `(x, y)` over colour `under`,
/// or `None` where it leaves the pixel alone: outside its rectangle, behind
/// the wall of that column, or on a fully transparent texel.
pub open spec fn part_pixel(p: &SpritePart, x: int, y: int, under: (u8, u8, u8), zbuffer: Seq<i32>) -> Option<(u8, u8, u8)> {
    if !part_covers(p, x, y) || x >= zbuffer.len() || p.depth > zbuffer[x] {
        None
    } else {
        match part_texel(p, x, y) {
            Some(t) => if t.3 == 0 {
                None
            } else {
                Some((blend(t.0, t.3, p.alpha, under.0), blend(t.1, t.3, p.alpha, under.1), blend(t.2, t.3, p.alpha, under.2)))
            },
            None => None,
        }
    }
}

/// The colour of pixel `x` of an RGBA row.
pub open spec fn rgb_at(row: Seq<u8>, x: int) -> (u8, u8, u8) {
    (row[4 * x], row[4 * x + 1], row[4 * x + 2])
}

/// Row `y` after compositing one part over it.
pub open spec fn apply_part(row: Seq<u8>, y: int, p: &SpritePart, zbuffer: Seq<i32>) -> Seq<u8> {
    Seq::new(
        row.len(),
        |i: int|
            match part_pixel(p, i / 4, y, rgb_at(row, i / 4), zbuffer) {
                Some(px) => opaque_byte(px, i % 4),
                None => row[i],
            },
    )
}

/// Row `y` after compositing the first `n` parts over it, in order.
pub open spec fn sprites_row_spec(old: Seq<u8>, y: int, parts: Seq<SpritePart>, zbuffer: Seq<i32>, n: int) -> Seq<u8>
    decreases n,
{
    if n <= 0 {
        old
    } else {
        apply_part(sprites_row_spec(old, y, parts, zbuffer, n - 1), y, &parts[n - 1], zbuffer)
    }
}

} // verus!

verus! {

/// Computes `blend` for one channel.
fn blend_channel(c: u8, a: u8, alpha: i32, under: u8) -> (r: u8)
    ensures
        r == blend(c, a, alpha, under),
{
    let s = shade(c, alpha);
    if a == 255 {
        s
    } else {
        let a32: u32 = a as u32;
        assert(a32 * (s as u32) <= 255 * 255 && (under as u32) * (255 - a32) <= 255 * 255) by (nonlinear_arith)
            requires a32 <= 255, s <= 255, under <= 255;
        ((a32 * (s as u32) + (under as u32) * (255 - a32)) / 256) as u8
    }
}

/// Composites one part over row `y` (the row's RGBA bytes).
fn composite_part(row: &mut [u8], y: i32, p: &SpritePart, zbuffer: &[i32])
    requires
        part_wf(p),
        old(row)@.len() % 4 == 0,
    ensures
        final(row)@ == apply_part(old(row)@, y as int, p, zbuffer@),
{
    let ghost before = row@;
    let ghost target = apply_part(before, y as int, p, zbuffer@);
    let row_len: usize = row.len();
    let n: usize = row_len / 4;
    if (y as i64) < (p.screen_y_ceiling as i64) || (y as i64) >= (p.screen_y_ceiling as i64) + (p.height as i64) {
        assert(row@ =~= target);
        return;
    }
    let left: i64 = p.sprite_left_x as i64;
    let span: i64 = if left >= n as i64 {
        0
    } else if (p.width as i64) < (n as i64) - left {
        p.width as i64
    } else {
        (n as i64) - left
    };
    let dy: i64 = (y as i64) - (p.screen_y_ceiling as i64);
    assert(0 <= dy * (p.texture.height as int) <= 4294967296 * 2147483647) by (nonlinear_arith)
        requires 0 <= dy <= 4294967296, 0 < p.texture.height <= 2147483647;
    let tex_y: i64 = dy * (p.texture.height as i64) / (p.height as i64);
    let mut dx: i64 = 0;
    while dx < span
        invariant
            part_wf(p),
            p.screen_y_ceiling <= y < p.screen_y_ceiling + p.height,
            before.len() == 4 * n,
            row_len == row@.len(),
            row@.len() == before.len(),
            target == apply_part(before, y as int, p, zbuffer@),
            left == p.sprite_left_x,
            0 <= span <= p.width,
            left + span <= n || span == 0,
            dy == y - p.screen_y_ceiling,
            tex_y == dy * (p.texture.height as int) / (p.height as int),
            0 <= dx <= span,
            forall|i: int| 0 <= i < row@.len() && i / 4 < left + dx ==> #[trigger] row@[i] == target[i],
            forall|i: int| 0 <= i < row@.len() && i / 4 >= left + dx ==> #[trigger] row@[i] == before[i],
        decreases span - dx,
    {
        let x: usize = (left + dx) as usize;
        assert(0 <= dx * (p.tex_width as int) <= 2147483647 * 2147483647) by (nonlinear_arith)
            requires 0 <= dx < 2147483647, 0 <= p.tex_width <= 2147483647;
        let tex_x: i64 = (p.tex_x1 as i64) + dx * (p.tex_width as i64) / (p.width as i64);
        let visible = x < zbuffer.len() && p.depth <= zbuffer[x];
        let px: Option<(u8, u8, u8)> = if !visible {
            None
        } else {
            match sample(&p.texture, tex_x, tex_y) {
                Some(t) => if t.3 == 0 {
                    None
                } else {
                    let under = (row[4 * x], row[4 * x + 1], row[4 * x + 2]);
                    Some((
                        blend_channel(t.0, t.3, p.alpha, under.0),
                        blend_channel(t.1, t.3, p.alpha, under.1),
                        blend_channel(t.2, t.3, p.alpha, under.2),
                    ))
                },
                None => None,
            }
        };
        proof {
            assert(rgb_at(before, x as int) == (row@[4 * x], row@[4 * x + 1], row@[4 * x + 2])) by {
                assert((4 * x) / 4 == x && (4 * x + 1) / 4 == x && (4 * x + 2) / 4 == x);
            }
            assert(px == part_pixel(p, x as int, y as int, rgb_at(before, x as int), zbuffer@));
        }
        match px {
            Some(c) => crate::texture::put_pixel(row, x, c),
            None => {},
        }
        assert forall|i: int| 0 <= i < row@.len() && i / 4 < left + dx + 1 implies #[trigger] row@[i] == target[i] by {
            if i / 4 == x {
                assert(i % 4 == i - 4 * x);
            }
        }
        dx = dx + 1;
    }
    assert forall|i: int| 0 <= i < row@.len() implies #[trigger] row@[i] == target[i] by {
        if i / 4 >= left + dx {
            assert(!part_covers(p, i / 4, y as int));
        }
    }
    assert(row@ =~= target);
}

/// Composites the sprite parts over screen row `y` (the row's RGBA bytes),
/// in list order, each only in the columns where it is not behind the wall.
pub fn draw_sprites_row(row: &mut [u8], y: i32, parts: &[SpritePart], zbuffer: &[i32])
    requires
        old(row)@.len() % 4 == 0,
        forall|k: int| 0 <= k < parts@.len() ==> part_wf(#[trigger] &parts@[k]),
    ensures
        final(row)@ == sprites_row_spec(old(row)@, y as int, parts@, zbuffer@, parts@.len() as int),
{
    let ghost start = row@;
    let mut k: usize = 0;
    while k < parts.len()
        invariant
            forall|j: int| 0 <= j < parts@.len() ==> part_wf(#[trigger] &parts@[j]),
            k <= parts@.len(),
            row@.len() == start.len(),
            start.len() % 4 == 0,
            row@ == sprites_row_spec(start, y as int, parts@, zbuffer@, k as int),
        decreases parts@.len() - k,
    {
        assert(part_wf(&parts@[k as int]));
        composite_part(row, y, &parts[k], zbuffer);
        k = k + 1;
    }
}

} // verus!

verus! {

/// A sprite part writes nothing into a column where it lies behind the wall:
/// if its depth exceeds the z-buffer entry of column `x`, every byte of
/// pixel `x` keeps its value.
pub proof fn lemma_part_occluded(row: Seq<u8>, y: int, p: &SpritePart, zbuffer: Seq<i32>, x: int, j: int)
    requires
        0 <= x < zbuffer.len(),
        p.depth > zbuffer[x],
        0 <= j < 4,
        0 <= 4 * x + j < row.len(),
    ensures
        apply_part(row, y, p, zbuffer)[4 * x + j] == row[4 * x + j],
{
    assert((4 * x + j) / 4 == x);
}

/// No sprite is visible behind a wall: a pixel covered only by sprite parts
/// farther than the z-buffer entry of its column keeps its colour through
/// the whole sprite stage.
pub proof fn lemma_sprites_behind_walls_hidden(old: Seq<u8>, y: int, parts: Seq<SpritePart>, zbuffer: Seq<i32>, n: int, x: int, j: int)
    requires
        0 <= n <= parts.len(),
        0 <= x < zbuffer.len(),
        0 <= j < 4,
        0 <= 4 * x + j < old.len(),
        forall|k: int| 0 <= k < parts.len() && part_covers(&parts[k], x, y) ==> #[trigger] parts[k].depth > zbuffer[x],
    ensures
        sprites_row_spec(old, y, parts, zbuffer, n).len() == old.len(),
        sprites_row_spec(old, y, parts, zbuffer, n)[4 * x + j] == old[4 * x + j],
    decreases n,
{
    if n > 0 {
        lemma_sprites_behind_walls_hidden(old, y, parts, zbuffer, n - 1, x, j);
        let prev = sprites_row_spec(old, y, parts, zbuffer, n - 1);
        let p = parts[n - 1];
        if part_covers(&p, x, y) {
            assert(p.depth > zbuffer[x]);
        }
        assert((4 * x + j) / 4 == x);
        assert(apply_part(prev, y, &p, zbuffer)[4 * x + j] == prev[4 * x + j]);
    }
}

} // verus!

verus! {

/// First column of a billboard span `[s, e)` after skipping the leading
/// columns that a wall at most `d` away hides.
pub open spec fn trim_left(s: int, e: int, d: int, z: Seq<i32>) -> int
    decreases e - s,
{
    if s < e && 0 <= s < z.len() && d >= z[s] { trim_left(s + 1, e, d, z) } else { s }
}

/// End (exclusive) of a billboard span `[s, e)` after skipping the trailing
/// columns that a wall hides.
pub open spec fn trim_right(s: int, e: int, d: int, z: Seq<i32>) -> int
    decreases e - s,
{
    if e > s && 0 <= e - 1 < z.len() && d >= z[e - 1] { trim_right(s, e - 1, d, z) } else { e }
}

/// Width in screen columns of a billboard `full_height` rows high with a
/// `tex_w` x `tex_h` texture.
pub open spec fn billboard_width(full_height: int, tex_w: int, tex_h: int) -> int {
    full_height * tex_w / tex_h
}

/// First screen column and end (exclusive) of a billboard centred on
/// `screen_x`, before trimming, clipped to a screen `width` columns wide.
pub open spec fn billboard_bounds(screen_x: int, sprite_width: int, width: int) -> (int, int) {
    let s = screen_x - sprite_width / 2;
    let e = screen_x + sprite_width / 2;
    (if s < 0 { 0 } else { s }, if e > width { width } else { e })
}

/// Builds the visible slice of a billboard sprite projected to column
/// `screen_x`, its top at row `screen_y_ceiling`, `full_height` rows high, at
/// Q20 depth `depth`: the span `[screen_x - w/2, screen_x + w/2)` is clipped
/// to `[0, width)` and its edges are trimmed while the wall of the edge
/// column is no farther than the sprite. `None` when the sprite is not in
/// front of the camera or the band collapses.
pub fn billboard_part<'a>(
    sprite_type: i32,
    screen_x: i32,
    screen_y_ceiling: i32,
    full_height: i32,
    depth: i32,
    alpha: i32,
    texture: Texture<'a>,
    zbuffer: &[i32],
    width: i32,
) -> (r: Option<SpritePart<'a>>)
    requires
        zbuffer@.len() == width,
    ensures
        ({
            let sw = billboard_width(full_height as int, texture.width as int, texture.height as int);
            let (s0, e0) = billboard_bounds(screen_x as int, sw, width as int);
            let s = trim_left(s0, e0, depth as int, zbuffer@);
            let e = trim_right(s, e0, depth as int, zbuffer@);
            let drawn = depth > 0 && texture.width > 0 && texture.height > 0 && full_height > 0 && sw > 0 && e - s > 0;
            match r {
                Some(p) => drawn && part_wf(&p) && p.sprite_type == sprite_type && p.sprite_left_x == s
                    && p.width == e - s && p.screen_y_ceiling == screen_y_ceiling && p.height == full_height
                    && p.tex_x1 == (s - (screen_x - sw / 2)) * texture.width / sw
                    && p.tex_width == (e - s) * texture.width / sw && p.alpha == alpha && p.depth == depth
                    && p.texture == texture,
                None => !drawn,
            }
        }),
{
    if depth <= 0 || texture.width <= 0 || texture.height <= 0 || full_height <= 0 {
        return None;
    }
    let tw: i64 = texture.width as i64;
    assert(0 < (full_height as int) * tw <= 2147483647 * 2147483647) by (nonlinear_arith)
        requires 0 < full_height <= 2147483647, 0 < tw <= 2147483647;
    let sw: i64 = (full_height as i64) * tw / (texture.height as i64);
    assert(sw <= (full_height as int) * tw) by (nonlinear_arith)
        requires sw == (full_height as int) * tw / (texture.height as int), texture.height >= 1, full_height * tw > 0;
    if sw <= 0 {
        return None;
    }
    let half: i64 = sw / 2;
    let s0: i64 = if (screen_x as i64) - half < 0 { 0 } else { (screen_x as i64) - half };
    let e0: i64 = if (screen_x as i64) + half > (width as i64) { width as i64 } else { (screen_x as i64) + half };
    let ghost g_s0 = s0 as int;
    let ghost g_e0 = e0 as int;
    let mut s: i64 = s0;
    while s < e0 && s < zbuffer.len() as i64 && depth >= zbuffer[s as usize]
        invariant
            g_s0 <= s,
            0 <= s,
            s <= g_s0 || s <= e0,
            g_s0 <= 4294967296,
            g_e0 == e0,
            e0 <= width,
            zbuffer@.len() == width,
            trim_left(s as int, e0 as int, depth as int, zbuffer@) == trim_left(g_s0, g_e0, depth as int, zbuffer@),
        decreases e0 - s,
    {
        s = s + 1;
    }
    let mut e: i64 = e0;
    while e > s && e - 1 < zbuffer.len() as i64 && depth >= zbuffer[(e - 1) as usize]
        invariant
            e <= e0,
            e == e0 || e >= s,
            -4294967296 <= e0,
            e0 <= width,
            0 <= s,
            zbuffer@.len() == width,
            trim_right(s as int, e as int, depth as int, zbuffer@) == trim_right(s as int, g_e0, depth as int, zbuffer@),
            g_e0 == e0,
        decreases e - s,
    {
        e = e - 1;
    }
    if e - s <= 0 {
        return None;
    }
    let off: i64 = s - ((screen_x as i64) - half);
    assert(0 <= off <= sw) by {
        assert(s <= e0);
        assert(e0 <= (screen_x as i64) + half);
    }
    let count: i64 = e - s;
    assert(0 < count <= sw) by {
        assert(e <= e0);
    }
    proof {
        let (o, t, w, c) = (off as int, tw as int, sw as int, count as int);
        assert(0 <= o * t <= w * t && 0 <= c * t <= w * t) by (nonlinear_arith)
            requires 0 <= o <= w, 0 < c <= w, t > 0;
        assert(w * t <= 4611686014132420609 * 2147483647) by (nonlinear_arith)
            requires 0 < w <= 4611686014132420609, 0 < t <= 2147483647;
        vstd::arithmetic::div_mod::lemma_div_is_ordered(o * t, w * t, w);
        vstd::arithmetic::div_mod::lemma_div_is_ordered(c * t, w * t, w);
        vstd::arithmetic::div_mod::lemma_div_is_ordered(0, o * t, w);
        vstd::arithmetic::div_mod::lemma_div_is_ordered(0, c * t, w);
        assert(w * t / w == t) by {
            vstd::arithmetic::div_mod::lemma_div_multiples_vanish(t, w);
        }
    }
    Some(SpritePart {
        sprite_type,
        sprite_left_x: s as u32,
        width: count as i32,
        screen_y_ceiling,
        height: full_height,
        tex_x1: ((off as i128) * (tw as i128) / (sw as i128)) as i32,
        tex_width: ((count as i128) * (tw as i128) / (sw as i128)) as i32,
        alpha,
        depth,
        texture,
    })
}

/// Builds the one-column slice of a window met by the ray of screen column
/// `column`, at texture position `fract` (Q20, 0 to 1 across the window).
/// `None` when the window is not in front of the camera, a wall of that
/// column is nearer than the window, or the position falls outside the texture.
pub fn window_part<'a>(
    column: u32,
    screen_y_ceiling: i32,
    full_height: i32,
    depth: i32,
    fract: i32,
    alpha: i32,
    texture: Texture<'a>,
    zbuffer: &[i32],
) -> (r: Option<SpritePart<'a>>)
    ensures
        ({
            let tex_x = fract as int * texture.width / 1048576;
            let drawn = depth > 0 && column < zbuffer@.len() && depth <= zbuffer@[column as int] && full_height > 0
                && texture.width > 0 && texture.height > 0 && 0 <= tex_x < texture.width;
            match r {
                Some(p) => drawn && part_wf(&p) && p.sprite_left_x == column && p.width == 1 && p.tex_width == 1
                    && p.tex_x1 == tex_x && p.screen_y_ceiling == screen_y_ceiling && p.height == full_height
                    && p.alpha == alpha && p.depth == depth && p.texture == texture,
                None => !drawn,
            }
        }),
{
    if depth <= 0 || column as usize >= zbuffer.len() || depth > zbuffer[column as usize] || full_height <= 0
        || texture.width <= 0 || texture.height <= 0 {
        return None;
    }
    let tw: i64 = texture.width as i64;
    if fract < 0 {
        assert((fract as int) * tw / 1048576 < 0) by (nonlinear_arith)
            requires fract < 0, tw > 0;
        return None;
    }
    assert(0 <= (fract as int) * tw <= 2147483647 * 2147483647) by (nonlinear_arith)
        requires 0 <= fract <= 2147483647, 0 < tw <= 2147483647;
    let tex_x: i64 = (fract as i64) * tw / 1048576;
    if tex_x >= tw {
        return None;
    }
    Some(SpritePart {
        sprite_type: 12,
        sprite_left_x: column,
        width: 1,
        screen_y_ceiling,
        height: full_height,
        tex_x1: tex_x as i32,
        tex_width: 1,
        alpha,
        depth,
        texture,
    })
}

/// The sprite stage keeps a row's length.
pub proof fn lemma_sprites_row_len(old: Seq<u8>, y: int, parts: Seq<SpritePart>, zbuffer: Seq<i32>, n: int)
    ensures
        sprites_row_spec(old, y, parts, zbuffer, n).len() == old.len(),
    decreases n,
{
    if n > 0 {
        lemma_sprites_row_len(old, y, parts, zbuffer, n - 1);
    }
}

/// What a part leaves at pixel `x` depends only on pixel `x` beneath it.
proof fn lemma_apply_part_local(a: Seq<u8>, b: Seq<u8>, y: int, p: &SpritePart, zbuffer: Seq<i32>, x: int)
    requires
        a.len() == b.len(),
        0 <= x,
        4 * x + 4 <= a.len(),
        forall|j: int| 0 <= j < 4 ==> #[trigger] a[4 * x + j] == b[4 * x + j],
    ensures
        forall|j: int| 0 <= j < 4 ==> #[trigger] apply_part(a, y, p, zbuffer)[4 * x + j] == apply_part(b, y, p, zbuffer)[4 * x + j],
{
    assert(a[4 * x] == b[4 * x] && a[4 * x + 1] == b[4 * x + 1] && a[4 * x + 2] == b[4 * x + 2]) by {
        assert(a[4 * x + 0] == b[4 * x + 0]);
    }
    assert(rgb_at(a, x) == rgb_at(b, x));
    assert forall|j: int| 0 <= j < 4 implies #[trigger] apply_part(a, y, p, zbuffer)[4 * x + j] == apply_part(b, y, p, zbuffer)[4 * x + j] by {
        assert((4 * x + j) / 4 == x);
    }
}

/// Before position `k`, the part list with part `k` removed draws the same.
proof fn lemma_prefix_unchanged(old: Seq<u8>, y: int, parts: Seq<SpritePart>, zbuffer: Seq<i32>, k: int, n: int)
    requires
        0 <= k < parts.len(),
        0 <= n <= k,
    ensures
        sprites_row_spec(old, y, parts, zbuffer, n) == sprites_row_spec(old, y, parts.remove(k), zbuffer, n),
    decreases n,
{
    if n > 0 {
        lemma_prefix_unchanged(old, y, parts, zbuffer, k, n - 1);
        assert(parts.remove(k)[n - 1] == parts[n - 1]);
    }
}

/// Pixel `x` after the first `n` parts equals pixel `x` after the first
/// `n - 1` parts of the list without part `k`, once `n` is past `k`.
proof fn lemma_removed_suffix(old: Seq<u8>, y: int, parts: Seq<SpritePart>, zbuffer: Seq<i32>, k: int, n: int, x: int)
    requires
        0 <= k < n <= parts.len(),
        0 <= x < zbuffer.len(),
        parts[k].depth > zbuffer[x],
        4 * x + 4 <= old.len(),
    ensures
        forall|j: int| 0 <= j < 4 ==> #[trigger] sprites_row_spec(old, y, parts, zbuffer, n)[4 * x + j]
            == sprites_row_spec(old, y, parts.remove(k), zbuffer, n - 1)[4 * x + j],
    decreases n,
{
    let rest = parts.remove(k);
    lemma_sprites_row_len(old, y, parts, zbuffer, n - 1);
    lemma_sprites_row_len(old, y, rest, zbuffer, n - 1);
    if n == k + 1 {
        lemma_prefix_unchanged(old, y, parts, zbuffer, k, k);
        let before = sprites_row_spec(old, y, parts, zbuffer, k);
        assert forall|j: int| 0 <= j < 4 implies #[trigger] sprites_row_spec(old, y, parts, zbuffer, n)[4 * x + j]
            == sprites_row_spec(old, y, rest, zbuffer, n - 1)[4 * x + j] by {
            lemma_part_occluded(before, y, &parts[k], zbuffer, x, j);
        }
    } else {
        lemma_removed_suffix(old, y, parts, zbuffer, k, n - 1, x);
        lemma_sprites_row_len(old, y, rest, zbuffer, n - 2);
        lemma_sprites_row_len(old, y, parts, zbuffer, n - 1);
        assert(rest[n - 2] == parts[n - 1]);
        lemma_apply_part_local(
            sprites_row_spec(old, y, parts, zbuffer, n - 1),
            sprites_row_spec(old, y, rest, zbuffer, n - 2),
            y,
            &parts[n - 1],
            zbuffer,
            x,
        );
    }
}

/// A sprite behind the wall is invisible: removing from the list a part whose
/// depth exceeds the z-buffer entry of column `x` leaves every byte of pixel
/// `x` of the composited row as it was.
pub proof fn lemma_hidden_part_removable(old: Seq<u8>, y: int, parts: Seq<SpritePart>, zbuffer: Seq<i32>, k: int, x: int, j: int)
    requires
        0 <= k < parts.len(),
        0 <= x < zbuffer.len(),
        parts[k].depth > zbuffer[x],
        4 * x + 4 <= old.len(),
        0 <= j < 4,
    ensures
        sprites_row_spec(old, y, parts, zbuffer, parts.len() as int)[4 * x + j]
            == sprites_row_spec(old, y, parts.remove(k), zbuffer, parts.remove(k).len() as int)[4 * x + j],
{
    lemma_removed_suffix(old, y, parts, zbuffer, k, parts.len() as int, x);
}

} // verus!
