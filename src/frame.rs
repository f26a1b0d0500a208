//! One screen row through the whole pipeline: sky, then floor and ceiling,
//! then walls, then sprites, each stage drawing over the previous ones.
use vstd::prelude::*;
use crate::floor::{draw_floor_row, floor_row_spec, FloorRow};
use crate::sky::BackgroundImageWasm;
use crate::sprites::{draw_sprites_row, lemma_hidden_part_removable, lemma_sprites_row_len, part_wf, sprites_row_spec, SpritePart};
use crate::texture::Texture;
use crate::walls::{draw_walls_row, walls_row_spec, ColumnData};

verus! {

/// The textures the pipeline reads besides the sprites' own.
pub struct SceneTextures<'a> {
    pub wall: Texture<'a>,
    pub door: Texture<'a>,
    pub floor: Texture<'a>,
    pub ceiling: Texture<'a>,
    pub road: Texture<'a>,
}

/// Everything one frame's rows are drawn from, once the rays are cast.
pub struct FrameScene<'a> {
    pub sky: &'a BackgroundImageWasm,
    /// Strip column shown at screen column 0.
    pub sky_offset: i32,
    pub pitch: i32,
    pub map: &'a [u64],
    pub map_width: i32,
    pub textures: SceneTextures<'a>,
    /// One result per screen column.
    pub columns: &'a [ColumnData],
    /// Sprite parts in draw order.
    pub parts: &'a [SpritePart<'a>],
    /// One Q20 wall distance per screen column.
    pub zbuffer: &'a [i32],
}

/// The scene is drawable on rows of `width` pixels.
pub open spec fn scene_wf(s: &FrameScene, width: int) -> bool {
    &&& s.sky.wf()
    &&& s.columns@.len() == width
    &&& width <= 2147483647
    &&& forall|k: int| 0 <= k < s.parts@.len() ==> part_wf(#[trigger] &s.parts@[k])
}

/// Screen row `y` after the whole pipeline; `floor` is the row's floor-stage
/// parameters, `None` on a row that stage skips.
pub open spec fn render_row_spec(old: Seq<u8>, y: int, s: &FrameScene, floor: Option<FloorRow>) -> Seq<u8> {
    let after_sky = s.sky.sky_row_spec(old, y, s.pitch as int, s.sky_offset as int);
    let after_floor = match floor {
        Some(f) => floor_row_spec(
            after_sky,
            f,
            s.map@,
            s.map_width as int,
            &s.textures.floor,
            &s.textures.ceiling,
            &s.textures.road,
        ),
        None => after_sky,
    };
    let after_walls = walls_row_spec(after_floor, y, s.columns@, &s.textures.wall, &s.textures.door);
    sprites_row_spec(after_walls, y, s.parts@, s.zbuffer@, s.parts@.len() as int)
}

/// Draws screen row `y` of a frame into `row` (the row's RGBA bytes).
pub fn render_row(row: &mut [u8], y: i32, scene: &FrameScene, floor: Option<FloorRow>)
    requires
        old(row)@.len() == 4 * scene.columns@.len(),
        scene_wf(scene, scene.columns@.len() as int),
        floor matches Some(f) ==> 0 <= f.alpha <= 256,
    ensures
        final(row)@ == render_row_spec(old(row)@, y as int, scene, floor),
{
    scene.sky.draw_sky_row(row, y, scene.pitch, scene.sky_offset);
    match floor {
        Some(f) => draw_floor_row(
            row,
            f,
            scene.map,
            scene.map_width,
            &scene.textures.floor,
            &scene.textures.ceiling,
            &scene.textures.road,
        ),
        None => {},
    }
    draw_walls_row(row, y, scene.columns, &scene.textures.wall, &scene.textures.door);
    draw_sprites_row(row, y, scene.parts, scene.zbuffer);
}

/// A row that the sky covers comes out of the pipeline the same whatever it
/// held before, so rendering the same inputs twice in a row yields the same
/// bytes: drawing over a rendered row gives that row back.
pub proof fn lemma_render_row_repeatable(old: Seq<u8>, other: Seq<u8>, y: int, s: &FrameScene, floor: Option<FloorRow>)
    requires
        s.sky.wf(),
        old.len() == other.len(),
        0 <= y - s.pitch < s.sky.strip_height(),
    ensures
        render_row_spec(old, y, s, floor) == render_row_spec(other, y, s, floor),
        render_row_spec(render_row_spec(old, y, s, floor), y, s, floor) == render_row_spec(old, y, s, floor),
{
    let a = s.sky.sky_row_spec(old, y, s.pitch as int, s.sky_offset as int);
    let b = s.sky.sky_row_spec(other, y, s.pitch as int, s.sky_offset as int);
    assert(a =~= b);
    let once = render_row_spec(old, y, s, floor);
    assert(once.len() == old.len()) by {
        lemma_render_row_len(old, y, s, floor);
    }
    let c = s.sky.sky_row_spec(once, y, s.pitch as int, s.sky_offset as int);
    assert(c =~= a);
}

/// The pipeline keeps a row's length.
pub proof fn lemma_render_row_len(old: Seq<u8>, y: int, s: &FrameScene, floor: Option<FloorRow>)
    ensures
        render_row_spec(old, y, s, floor).len() == old.len(),
{
    let after_sky = s.sky.sky_row_spec(old, y, s.pitch as int, s.sky_offset as int);
    let after_floor = match floor {
        Some(f) => floor_row_spec(after_sky, f, s.map@, s.map_width as int, &s.textures.floor, &s.textures.ceiling, &s.textures.road),
        None => after_sky,
    };
    let after_walls = walls_row_spec(after_floor, y, s.columns@, &s.textures.wall, &s.textures.door);
    lemma_sprites_row_len(after_walls, y, s.parts@, s.zbuffer@, s.parts@.len() as int);
}

/// A sprite behind the wall leaves no trace in the frame: a scene that
/// differs only by lacking sprite part `k` renders every byte of pixel `x`
/// of row `y` the same, when that part is deeper than the z-buffer at `x`.
pub proof fn lemma_hidden_sprite_leaves_no_trace(
    old: Seq<u8>,
    y: int,
    s: &FrameScene,
    without: &FrameScene,
    floor: Option<FloorRow>,
    k: int,
    x: int,
    j: int,
)
    requires
        without.sky == s.sky,
        without.sky_offset == s.sky_offset,
        without.pitch == s.pitch,
        without.map@ == s.map@,
        without.map_width == s.map_width,
        without.textures == s.textures,
        without.columns@ == s.columns@,
        without.zbuffer@ == s.zbuffer@,
        without.parts@ == s.parts@.remove(k),
        0 <= k < s.parts@.len(),
        0 <= x < s.zbuffer@.len(),
        s.parts@[k].depth > s.zbuffer@[x],
        4 * x + 4 <= old.len(),
        0 <= j < 4,
    ensures
        render_row_spec(old, y, s, floor)[4 * x + j] == render_row_spec(old, y, without, floor)[4 * x + j],
{
    let after_sky = s.sky.sky_row_spec(old, y, s.pitch as int, s.sky_offset as int);
    let after_floor = match floor {
        Some(f) => floor_row_spec(after_sky, f, s.map@, s.map_width as int, &s.textures.floor, &s.textures.ceiling, &s.textures.road),
        None => after_sky,
    };
    let after_walls = walls_row_spec(after_floor, y, s.columns@, &s.textures.wall, &s.textures.door);
    lemma_hidden_part_removable(after_walls, y, s.parts@, s.zbuffer@, k, x, j);
}

} // verus!
