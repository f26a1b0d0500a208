use raycaster::cells::{SpriteRecord, WasmStripePerCoordMap};
use raycaster::sprites::{
    angle_index, billboard_part, draw_sprites_row, far_first_order, sprite_shade, squared_distance_q8, window_part,
    SpritePart,
};
use raycaster::store::{parse_sprite_texture_array, TextureData, WasmTextureMap, WasmTextureMetaMap};
use raycaster::texture::Texture;
use raycaster::walk::{walk_next, WalkAction, WalkProbe, WalkStep, CLEARANCE};
use raycaster::walls::{ColumnData, SurfaceKind, NO_HIT_DISTANCE};

const ONE: i32 = 1 << 20;

fn solid(w: usize, h: usize, rgba: [u8; 4]) -> Vec<u8> {
    let mut v = Vec::new();
    for _ in 0..w * h {
        v.extend_from_slice(&rgba);
    }
    v
}

fn part<'a>(left: u32, width: i32, depth: i32, tex: &'a [u8], tw: i32, th: i32) -> SpritePart<'a> {
    SpritePart {
        sprite_type: 6,
        sprite_left_x: left,
        width,
        screen_y_ceiling: 0,
        height: 4,
        tex_x1: 0,
        tex_width: tw,
        alpha: ONE,
        depth,
        texture: Texture { data: tex, width: tw, height: th },
    }
}

fn probe_result(distance: i32, kind: SurfaceKind) -> ColumnData {
    ColumnData { tex_x: 0, col: 2, draw_start_y: 0, wall_height: 1, alpha: ONE, hit: true, kind, distance }
}

#[test]
fn squared_distance_in_q8() {
    assert_eq!(squared_distance_q8(3 * 256, -4 * 256), 25 * 65536);
    assert_eq!(squared_distance_q8(i32::MIN, i32::MIN), 1u64 << 63);
}

#[test]
fn far_sprites_come_first_and_ties_keep_list_order() {
    assert_eq!(far_first_order(&[5, 9, 5, 1, 9]), vec![1, 4, 0, 2, 3]);
    assert_eq!(far_first_order(&[]), Vec::<usize>::new());
}

#[test]
fn two_sprites_ahead_far_one_drawn_first() {
    // sprites at (1.5, 2.3) and (1.5, 2.7), camera at (1.5, 1.5) looking +y
    let near = squared_distance_q8(0, (0.8 * 256.0) as i32);
    let far = squared_distance_q8(0, (1.2 * 256.0) as i32);
    assert_eq!(far_first_order(&[near, far]), vec![1, 0]);
    // both red and opaque: the near one, drawn last, covers the center
    let red = solid(16, 16, [255, 0, 0, 255]);
    let z = vec![NO_HIT_DISTANCE; 4];
    let far_part = part(1, 2, (1.2 * ONE as f64) as i32, &red, 16, 16);
    let near_part = part(0, 4, (0.8 * ONE as f64) as i32, &red, 16, 16);
    let mut row = vec![0u8; 16];
    draw_sprites_row(&mut row, 1, &[far_part, near_part], &z);
    assert_eq!(row, [255, 0, 0, 255].repeat(4));
}

#[test]
fn angle_sectors_of_45_degrees() {
    assert_eq!(angle_index(-180, 0, 8), 0);
    assert_eq!(angle_index(0, 0, 8), 4);
    assert_eq!(angle_index(179, 0, 8), 7);
    assert_eq!(angle_index(0, 0, 4), 0);
    assert_eq!(angle_index(-180, -90, 8), 6);
    assert_eq!(angle_index(100, 400, 8), 7);
}

#[test]
fn sprite_shade_never_fully_dark() {
    assert_eq!(sprite_shade(0, 10, 0), ONE);
    assert_eq!(sprite_shade(5 * ONE, 10, 0), ONE / 2);
    assert_eq!(sprite_shade(100 * ONE, 10, 0), ONE / 8);
}

#[test]
fn billboard_edges_behind_walls_are_trimmed() {
    let tex = solid(8, 8, [1, 2, 3, 255]);
    let t = Texture { data: &tex, width: 8, height: 8 };
    // walls nearer than the sprite in columns 0 and 1
    let z = vec![ONE / 4, ONE / 4, 2 * ONE, 2 * ONE, 2 * ONE, 2 * ONE];
    let p = billboard_part(6, 3, 0, 4, ONE, ONE, t, &z, 6).unwrap();
    // span [1, 5] clipped, trimmed on the left to column 2
    assert_eq!(p.sprite_left_x, 2);
    assert_eq!(p.width, 3);
    assert_eq!(p.tex_x1, 2);
    assert_eq!(p.tex_width, 6);
    assert_eq!(p.depth, ONE);
}

#[test]
fn billboard_behind_camera_or_hidden_is_dropped() {
    let tex = solid(8, 8, [1, 2, 3, 255]);
    let z = vec![2 * ONE; 6];
    assert!(billboard_part(6, 3, 0, 4, 0, ONE, Texture { data: &tex, width: 8, height: 8 }, &z, 6).is_none());
    assert!(billboard_part(6, 3, 0, 4, -ONE, ONE, Texture { data: &tex, width: 8, height: 8 }, &z, 6).is_none());
    assert!(billboard_part(6, 30, 0, 4, ONE, ONE, Texture { data: &tex, width: 8, height: 8 }, &z, 6).is_none());
}

#[test]
fn window_column_checked_against_its_wall() {
    let tex = solid(4, 4, [0, 0, 200, 100]);
    let z = vec![ONE, ONE / 8, ONE];
    let t = || Texture { data: &tex, width: 4, height: 4 };
    let p = window_part(0, 0, 4, ONE / 2, ONE / 2, ONE, t(), &z).unwrap();
    assert_eq!((p.sprite_left_x, p.width, p.tex_x1, p.tex_width), (0, 1, 2, 1));
    assert!(window_part(1, 0, 4, ONE / 2, ONE / 2, ONE, t(), &z).is_none());
    assert!(window_part(7, 0, 4, ONE / 2, ONE / 2, ONE, t(), &z).is_none());
    // a window at or behind the camera plane is culled
    assert!(window_part(0, 0, 4, 0, ONE / 2, ONE, t(), &z).is_none());
    assert!(window_part(0, 0, 4, -ONE, ONE / 2, ONE, t(), &z).is_none());
}

#[test]
fn billboard_reaches_the_last_column() {
    let tex = solid(8, 8, [1, 2, 3, 255]);
    let z = vec![2 * ONE; 6];
    let p = billboard_part(6, 5, 0, 2, ONE, ONE, Texture { data: &tex, width: 8, height: 8 }, &z, 6).unwrap();
    assert_eq!((p.sprite_left_x, p.width), (4, 2));
    // fully behind walls: the band collapses
    let near = vec![ONE / 2; 6];
    assert!(billboard_part(6, 3, 0, 4, ONE, ONE, Texture { data: &tex, width: 8, height: 8 }, &near, 6).is_none());
}

#[test]
fn translucent_window_blends_over_what_is_behind() {
    let tex = solid(1, 1, [0, 0, 200, 128]);
    let z = vec![NO_HIT_DISTANCE];
    let p = window_part(0, 0, 4, ONE / 2, 0, ONE, Texture { data: &tex, width: 1, height: 1 }, &z).unwrap();
    let mut row = vec![100u8, 100, 100, 255];
    draw_sprites_row(&mut row, 1, &[p], &z);
    // (128 * 200 + 127 * 100) >> 8 = 149; (127 * 100) >> 8 = 49
    assert_eq!(row, vec![49, 49, 149, 255]);
}

#[test]
fn sprites_behind_walls_leave_pixels_alone() {
    let red = solid(2, 2, [255, 0, 0, 255]);
    let z = vec![ONE / 2, 2 * ONE, ONE / 2];
    let mut row = vec![7u8; 12];
    draw_sprites_row(&mut row, 0, &[part(0, 3, ONE, &red, 2, 2)], &z);
    assert_eq!(row, vec![7, 7, 7, 7, 255, 0, 0, 255, 7, 7, 7, 7]);
}

#[test]
fn transparent_texels_are_skipped() {
    let clear = solid(2, 2, [255, 255, 255, 0]);
    let z = vec![NO_HIT_DISTANCE; 2];
    let mut row = vec![7u8; 8];
    draw_sprites_row(&mut row, 0, &[part(0, 2, ONE, &clear, 2, 2)], &z);
    assert_eq!(row, vec![7u8; 8]);
}

#[test]
fn walk_through_doors_and_stop_at_walls() {
    // a door just ahead still lets the full step through
    let door = probe_result(CLEARANCE / 2, SurfaceKind::Door);
    assert_eq!(walk_next(WalkProbe::Forward, &door), WalkAction::Move(WalkStep::Full));
    let wall = probe_result(CLEARANCE, SurfaceKind::Wall);
    assert_eq!(walk_next(WalkProbe::Forward, &wall), WalkAction::Probe(WalkProbe::AlongX));
    assert_eq!(walk_next(WalkProbe::AlongX, &wall), WalkAction::Probe(WalkProbe::AlongY));
    assert_eq!(walk_next(WalkProbe::AlongY, &wall), WalkAction::Move(WalkStep::Stay));
    let clear = probe_result(CLEARANCE + 1, SurfaceKind::Wall);
    assert_eq!(walk_next(WalkProbe::Forward, &clear), WalkAction::Move(WalkStep::Full));
    assert_eq!(walk_next(WalkProbe::AlongX, &clear), WalkAction::Move(WalkStep::OnlyX));
    assert_eq!(walk_next(WalkProbe::AlongY, &clear), WalkAction::Move(WalkStep::OnlyY));
    // sideways probes do not pass through doors
    assert_eq!(walk_next(WalkProbe::AlongX, &door), WalkAction::Probe(WalkProbe::AlongY));
}

#[test]
fn texture_metadata_store() {
    let mut meta = WasmTextureMetaMap::new();
    assert!(meta.get(1).is_none());
    meta.populate_from_array(1, 64, 32, 1);
    meta.populate_from_array(6, 16, 16, 8);
    meta.populate_from_array(1, 128, 64, 1);
    assert_eq!(meta.get(1), Some(&TextureData { width: 128, height: 64, angles: 1 }));
    assert_eq!(meta.get(6).unwrap().angles, 8);
    assert_eq!(meta.get_map().len(), 2);
}

#[test]
fn texture_bytes_store() {
    let mut meta = WasmTextureMetaMap::new();
    meta.populate_from_array(6, 1, 1, 2);
    let mut store = WasmTextureMap::new();
    assert_eq!(store.count_cells(), 0);
    store.populate_from_array(6, 0, &[1, 2, 3, 4]);
    store.populate_from_array(6, 1, &[5, 6, 7, 8]);
    store.populate_from_array(-6, 0, &[9, 9, 9, 9]);
    assert_eq!(store.count_cells(), 3);
    assert_eq!(store.get(6, 1).unwrap(), &vec![5, 6, 7, 8]);
    assert_eq!(store.get(-6, 0).unwrap(), &vec![9, 9, 9, 9]);
    assert!(store.get(0, 6).is_none());
    let t = store.texture(&meta, 6, 0).unwrap();
    assert_eq!((t.data, t.width, t.height), (&[1u8, 2, 3, 4][..], 1, 1));
    assert!(store.texture(&meta, -6, 0).is_none());
}

#[test]
fn texture_array_records_last_one_wins() {
    let m = parse_sprite_texture_array(&[6, 16, 32, 8, 7, 1, 2, 3, 6, 4, 5, 6, 99]);
    assert_eq!(m.len(), 2);
    assert_eq!(m.get(&6), Some(&(4, 5, 6)));
    assert_eq!(m.get(&7), Some(&(1, 2, 3)));
    assert!(m.get(&99).is_none());
}

#[test]
fn sprites_grouped_by_cell_and_gathered_once() {
    let rec = |x: f64, y: f64, kind: i32| SpriteRecord {
        x: (x * ONE as f64) as i32,
        y: (y * ONE as f64) as i32,
        angle: 0,
        height: 100,
        kind,
    };
    let records = vec![rec(1.5, 2.3, 6), rec(1.2, 2.7, 7), rec(0.5, 0.5, 8), rec(-0.5, 0.5, 9)];
    let mut index = WasmStripePerCoordMap::new();
    index.populate_from_array(&records);
    assert_eq!(index.count_cells(), 3);
    let mut same = WasmStripePerCoordMap::new();
    same.populate_from_array(&[records[0], records[1]]);
    assert_eq!(same.count_cells(), 1);
    assert_eq!(index.get(1, 2).unwrap(), &vec![records[0], records[1]]);
    assert_eq!(index.get(-1, 0).unwrap(), &vec![records[3]]);
    assert!(index.get(2, 2).is_none());
    let found = index.gather(&[(1, 2), (2, 2), (0, 0), (1, 2), (0, 0)]);
    assert_eq!(found, vec![records[0], records[1], records[2]]);
}
