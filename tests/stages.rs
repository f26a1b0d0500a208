use raycaster::floor::{draw_floor_row, row_alpha, row_class, FloorRow, RowClass};
use raycaster::frame::{render_row, FrameScene, SceneTextures};
use raycaster::sky::BackgroundImageWasm;
use raycaster::sprites::SpritePart;
use raycaster::texture::Texture;
use raycaster::walls::{draw_walls_row, fill_zbuffer, wall_shade, wall_tex_x, ColumnData, SurfaceKind, NO_HIT_DISTANCE};

const ONE: i32 = 1 << 20;

fn solid(w: usize, h: usize, rgba: [u8; 4]) -> Vec<u8> {
    let mut v = Vec::new();
    for _ in 0..w * h {
        v.extend_from_slice(&rgba);
    }
    v
}

fn no_hit(col: i32) -> ColumnData {
    ColumnData {
        tex_x: 0,
        col,
        draw_start_y: 0,
        wall_height: 0,
        alpha: ONE,
        hit: false,
        kind: SurfaceKind::Wall,
        distance: 9 * ONE,
    }
}

fn wall_hit(col: i32, distance: i32) -> ColumnData {
    ColumnData { tex_x: 1, col, draw_start_y: 1, wall_height: 2, alpha: ONE, hit: true, kind: SurfaceKind::Wall, distance }
}

/// A 4-texel-wide strip of 2 rows whose texel (x, y) is (10x, 100 + y, 7).
fn strip_source() -> Vec<u8> {
    let mut v = Vec::new();
    for y in 0..2u8 {
        for x in 0..2u8 {
            v.extend_from_slice(&[10 * x, 100 + y, 7, 0]);
        }
    }
    v
}

#[test]
fn zbuffer_has_sentinel_without_hit_and_never_negative() {
    let cols = vec![no_hit(0), wall_hit(1, ONE / 2), wall_hit(2, -5), no_hit(3)];
    let mut z = vec![0i32; 4];
    fill_zbuffer(&cols, &mut z);
    assert_eq!(z, vec![NO_HIT_DISTANCE, ONE / 2, 0, NO_HIT_DISTANCE]);
    assert!(z.iter().all(|d| *d >= 0));
}

#[test]
fn walls_paint_only_their_band() {
    // 2x2 wall texture, texel (x, y) = (50 + x, 60 + y, 70 + y)
    let tex_bytes = vec![50, 60, 70, 255, 51, 60, 70, 255, 50, 61, 71, 255, 51, 61, 71, 255];
    let door_bytes = solid(2, 2, [9, 9, 9, 255]);
    let wall = Texture { data: &tex_bytes, width: 2, height: 2 };
    let door = Texture { data: &door_bytes, width: 2, height: 2 };
    let mut cols = vec![no_hit(0), wall_hit(1, ONE / 2), wall_hit(2, ONE / 2), no_hit(3)];
    cols[2].kind = SurfaceKind::Door;
    cols[2].alpha = ONE / 2;
    // row 2 is the second row of the band [1, 3): texture row 1
    let mut row = vec![1u8; 16];
    draw_walls_row(&mut row, 2, &cols, &wall, &door);
    assert_eq!(row, vec![1, 1, 1, 1, 51, 61, 71, 255, 4, 4, 4, 255, 1, 1, 1, 1]);
    // row 0 lies above every band
    let mut above = vec![1u8; 16];
    draw_walls_row(&mut above, 0, &cols, &wall, &door);
    assert_eq!(above, vec![1u8; 16]);
}

#[test]
fn sky_strip_is_prescaled_and_opaque() {
    let src = strip_source();
    let sky = BackgroundImageWasm::new(&src, 2, 2, 2);
    // round(2 * 2 / 2 * 2) = 4 columns
    assert_eq!(sky.get_width(), 4);
    let data = sky.get_data();
    assert_eq!(data.len(), 4 * 2 * 4);
    // strip column 3 maps to source column 3 * 2 / 4 = 1
    assert_eq!(&data[12..16], &[10, 100, 7, 255]);
    // strip row 1 column 0 maps to source (0, 1)
    assert_eq!(&data[16..20], &[0, 101, 7, 255]);
}

#[test]
fn sky_row_wraps_around_the_strip() {
    let src = strip_source();
    let sky = BackgroundImageWasm::new(&src, 2, 2, 2);
    let mut row = vec![0u8; 12];
    sky.draw_sky_row(&mut row, 0, 0, 2);
    // strip columns 2, 3, 0
    assert_eq!(row, vec![10, 100, 7, 255, 10, 100, 7, 255, 0, 100, 7, 255]);
    // negative offsets wrap too: -1 is column 3
    let mut neg = vec![0u8; 4];
    sky.draw_sky_row(&mut neg, 1, 0, -1);
    assert_eq!(neg, vec![10, 101, 7, 255]);
    // rows pushed out of the strip by the pitch stay as they were
    let mut off = vec![5u8; 4];
    sky.draw_sky_row(&mut off, 0, 1, 0);
    assert_eq!(off, vec![5u8; 4]);
}

#[test]
fn sky_shift_by_k_columns_is_a_shifted_copy() {
    let mut src = Vec::new();
    for x in 0..8u8 {
        src.extend_from_slice(&[x, x, x, 255]);
    }
    let sky = BackgroundImageWasm::new(&src, 8, 1, 1);
    assert_eq!(sky.get_width(), 16);
    let mut base = vec![0u8; 4 * 6];
    let mut shifted = vec![0u8; 4 * 6];
    sky.draw_sky_row(&mut base, 0, 0, 5);
    sky.draw_sky_row(&mut shifted, 0, 0, 7);
    assert_eq!(&shifted[0..16], &base[8..24]);
}

#[test]
fn rows_are_classified_around_the_horizon() {
    assert_eq!(row_class(3, 4, 0, 0), RowClass::Floor { rows_from_horizon: 1, cam_z: 2 });
    assert_eq!(row_class(0, 4, 0, 0), RowClass::Ceiling { rows_from_horizon: 2, cam_z: 2 });
    assert_eq!(row_class(2, 4, 0, 0), RowClass::Ceiling { rows_from_horizon: 0, cam_z: 2 });
    // eye above the ceiling plane: ceiling rows are skipped
    assert_eq!(row_class(0, 4, 0, 3), RowClass::Skipped);
    assert_eq!(row_class(3, 4, 1, 3), RowClass::Skipped);
}

#[test]
fn row_alpha_falls_with_distance() {
    assert_eq!(row_alpha(0, 4, 0), 256);
    assert_eq!(row_alpha(2 * ONE, 4, 0), 128);
    assert_eq!(row_alpha(8 * ONE, 4, 0), 0);
    assert_eq!(row_alpha(2 * ONE, 4, 1), 256);
}

#[test]
fn floor_row_samples_cells_with_surfaces() {
    // 2x1 grid: cell 0 has a ceiling (floor drawn), cell 1 nothing
    let map = vec![0b10u64, 0];
    let floor_bytes = solid(2, 2, [200, 100, 50, 255]);
    let ceiling_bytes = solid(2, 2, [1, 2, 3, 255]);
    let road_bytes = solid(2, 2, [9, 9, 9, 255]);
    let floor = Texture { data: &floor_bytes, width: 2, height: 2 };
    let ceiling = Texture { data: &ceiling_bytes, width: 2, height: 2 };
    let road = Texture { data: &road_bytes, width: 2, height: 2 };
    let params = FloorRow { is_floor: true, alpha: 128, base_x: 0, base_y: ONE / 2, step_x: ONE / 2, step_y: 0 };
    let mut row = vec![7u8; 16];
    draw_floor_row(&mut row, params, &map, 2, &floor, &ceiling, &road);
    // pixels at x = 0.5, 1.0, 1.5, 2.0: the first one in cell 0 only
    assert_eq!(row, vec![100, 50, 25, 255, 7, 7, 7, 7, 7, 7, 7, 7, 7, 7, 7, 7]);
    // the same cells on a ceiling row show the ceiling texture at full brightness
    let ceiling_row = FloorRow { is_floor: false, alpha: 256, ..params };
    let mut up = vec![7u8; 4];
    draw_floor_row(&mut up, ceiling_row, &map, 2, &floor, &ceiling, &road);
    assert_eq!(up, vec![1, 2, 3, 255]);
}

#[test]
fn road_wins_over_floor() {
    let map = vec![0b1010u64];
    let floor_bytes = solid(1, 1, [200, 200, 200, 255]);
    let road_bytes = solid(1, 1, [40, 80, 120, 255]);
    let floor = Texture { data: &floor_bytes, width: 1, height: 1 };
    let road = Texture { data: &road_bytes, width: 1, height: 1 };
    let params = FloorRow { is_floor: true, alpha: 256, base_x: 0, base_y: 0, step_x: 1, step_y: 1 };
    let mut row = vec![0u8; 4];
    draw_floor_row(&mut row, params, &map, 1, &floor, &floor, &road);
    assert_eq!(row, vec![40, 80, 120, 255]);
}

#[test]
fn empty_map_frame_shows_only_sky() {
    // 4x4 screen, all-zero 3x3 map, no walls, no sprites
    let mut src = Vec::new();
    for x in 0..4u8 {
        src.extend_from_slice(&[x, 10, 20, 255]);
    }
    let sky = BackgroundImageWasm::new(&src, 4, 1, 4);
    let map = vec![0u64; 9];
    let t = solid(1, 1, [255, 255, 255, 255]);
    let tex = || Texture { data: &t, width: 1, height: 1 };
    let cols = vec![no_hit(0), no_hit(1), no_hit(2), no_hit(3)];
    let mut z = vec![0i32; 4];
    fill_zbuffer(&cols, &mut z);
    assert!(z.iter().all(|d| *d == NO_HIT_DISTANCE));
    let parts: Vec<SpritePart> = Vec::new();
    let scene = FrameScene {
        sky: &sky,
        sky_offset: 0,
        pitch: 0,
        map: &map,
        map_width: 3,
        textures: SceneTextures { wall: tex(), door: tex(), floor: tex(), ceiling: tex(), road: tex() },
        columns: &cols,
        parts: &parts,
        zbuffer: &z,
    };
    for y in 0..4 {
        let floor = FloorRow { is_floor: y > 2, alpha: 256, base_x: ONE, base_y: ONE, step_x: 1000, step_y: 1000 };
        let mut row = vec![0u8; 16];
        render_row(&mut row, y, &scene, Some(floor));
        let mut sky_only = vec![0u8; 16];
        sky.draw_sky_row(&mut sky_only, y, 0, 0);
        assert_eq!(row, sky_only);
    }
}

#[test]
fn rendering_twice_gives_the_same_row() {
    let mut src = Vec::new();
    for x in 0..4u8 {
        src.extend_from_slice(&[x, 10, 20, 255]);
    }
    let sky = BackgroundImageWasm::new(&src, 4, 1, 4);
    let map = vec![0b10u64; 9];
    let t = solid(2, 2, [90, 90, 90, 128]);
    let wall_bytes = solid(2, 2, [200, 0, 0, 255]);
    let tex = || Texture { data: &t, width: 2, height: 2 };
    let cols = vec![no_hit(0), wall_hit(1, ONE / 2), wall_hit(2, ONE / 2), no_hit(3)];
    let mut z = vec![0i32; 4];
    fill_zbuffer(&cols, &mut z);
    let parts = vec![SpritePart {
        sprite_type: 6,
        sprite_left_x: 0,
        width: 4,
        screen_y_ceiling: 0,
        height: 4,
        tex_x1: 0,
        tex_width: 2,
        alpha: ONE,
        depth: ONE / 4,
        texture: tex(),
    }];
    let scene = FrameScene {
        sky: &sky,
        sky_offset: 1,
        pitch: 0,
        map: &map,
        map_width: 3,
        textures: SceneTextures {
            wall: Texture { data: &wall_bytes, width: 2, height: 2 },
            door: tex(),
            floor: tex(),
            ceiling: tex(),
            road: tex(),
        },
        columns: &cols,
        parts: &parts,
        zbuffer: &z,
    };
    let floor = FloorRow { is_floor: true, alpha: 200, base_x: ONE, base_y: ONE, step_x: ONE / 4, step_y: 0 };
    let mut row = vec![3u8; 16];
    render_row(&mut row, 2, &scene, Some(floor));
    let first = row.clone();
    render_row(&mut row, 2, &scene, Some(floor));
    assert_eq!(row, first);
}

#[test]
fn full_turn_of_the_sky_changes_nothing() {
    let mut src = Vec::new();
    for x in 0..3u8 {
        src.extend_from_slice(&[x, 2 * x, 3 * x, 255]);
    }
    let sky = BackgroundImageWasm::new(&src, 3, 1, 2);
    let w = sky.get_width();
    assert_eq!(w, 12);
    for offset in [-5, 0, 7] {
        let mut a = vec![0u8; 4 * 5];
        let mut b = vec![0u8; 4 * 5];
        sky.draw_sky_row(&mut a, 1, 0, offset);
        sky.draw_sky_row(&mut b, 1, 0, offset + w);
        assert_eq!(a, b);
    }
}

#[test]
fn wall_shade_darkens_with_distance_and_side() {
    assert_eq!(wall_shade(0, 10, 0), ONE);
    assert_eq!(wall_shade(2 * ONE, 10, 0), ONE - ONE / 5);
    assert_eq!(wall_shade(2 * ONE, 10, 1), ONE - 2 * (ONE / 5));
    // capped at 0.8, then at 0.85 on y sides
    assert_eq!(wall_shade(100 * ONE, 10, 0), ONE - 838860);
    assert_eq!(wall_shade(100 * ONE, 10, 1), ONE - 891289);
    assert_eq!(wall_shade(-ONE, 10, 1), ONE);
}

#[test]
fn wall_shade_without_light_is_darkest() {
    assert_eq!(wall_shade(ONE, 0, 0), ONE - 838860);
    assert_eq!(wall_shade(ONE, -3, 1), ONE - 891289);
}

#[test]
fn texture_column_mirrors_in_two_quadrants() {
    // +x ray on a wall crossed along x, -y ray on one crossed along y
    assert_eq!(wall_tex_x(3, 64, 0, 1, 1), 60);
    assert_eq!(wall_tex_x(3, 64, 1, 1, -1), 60);
    // the other two keep the column
    assert_eq!(wall_tex_x(3, 64, 0, -1, 1), 3);
    assert_eq!(wall_tex_x(3, 64, 1, -1, 1), 3);
}
