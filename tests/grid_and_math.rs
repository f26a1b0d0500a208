use raycaster::fixed::{fixed_div, fixed_mul, shade, FIXED_ONE};
use raycaster::geometry::{slot_geometry, slot_hit, visit_cell, CellVisit, Segment};
use raycaster::walls::SurfaceKind;
use raycaster::grid::{decode_cell, decode_slot, get_bits, get_grid_value, has_bit_set, WallSlot};
use raycaster::texture::TextureType;

/// A cell holding one wall slot with the given tenths.
fn one_slot_cell(offset: u64, thickness: u64, depth: u64, secondary: u64) -> u64 {
    (1 << 12) | (offset << 16) | (thickness << 20) | (depth << 24) | (secondary << 28)
}

#[test]
fn fixed_mul_multiplies_q20() {
    assert_eq!(fixed_mul(FIXED_ONE, 3 * FIXED_ONE), 3 * FIXED_ONE);
    assert_eq!(fixed_mul(FIXED_ONE / 2, FIXED_ONE / 2), FIXED_ONE / 4);
    assert_eq!(fixed_mul(-FIXED_ONE, FIXED_ONE / 2), -FIXED_ONE / 2);
}

#[test]
fn fixed_div_divides_and_zero_divisor_gives_zero() {
    assert_eq!(fixed_div(1, 2), 524288);
    assert_eq!(fixed_div(-1, 2), -524288);
    assert_eq!(fixed_div(7, 0), 0);
    assert_eq!(fixed_div(3, -3), -FIXED_ONE);
    // the numerator is widened before dividing
    assert_eq!(fixed_div(4096, 4 * FIXED_ONE), 1024);
    assert_eq!(fixed_div(-4096, 4 * FIXED_ONE), -1024);
    assert_eq!(fixed_div(100_000, 1000 * FIXED_ONE), 100);
}

#[test]
fn shade_scales_and_clamps() {
    assert_eq!(shade(200, FIXED_ONE), 200);
    assert_eq!(shade(200, FIXED_ONE / 2), 100);
    assert_eq!(shade(200, -5), 0);
    assert_eq!(shade(200, 3 * FIXED_ONE), 200);
}

#[test]
fn bits_and_nibbles() {
    assert!(has_bit_set(0b1010, 1));
    assert!(!has_bit_set(0b1010, 2));
    assert!(has_bit_set(1u64 << 63, 63));
    assert_eq!(get_bits(0xABCD, 4), 0xC);
    assert_eq!(get_bits(0xF000_0000_0000_0000, 60), 0xF);
}

#[test]
fn grid_reads_zero_outside() {
    let map = vec![1u64, 2, 3, 4, 5, 6, 7, 8, 9];
    assert_eq!(get_grid_value(2, 1, 3, &map), 6);
    assert_eq!(get_grid_value(0, 0, 3, &map), 1);
    assert_eq!(get_grid_value(-1, 0, 3, &map), 0);
    assert_eq!(get_grid_value(3, 0, 3, &map), 0);
    assert_eq!(get_grid_value(0, 3, 3, &map), 0);
    // a grid declared wider than its data reads 0 past the end
    assert_eq!(get_grid_value(3, 2, 4, &map), 0);
}

#[test]
fn decode_single_east_slot() {
    let cell = one_slot_cell(5, 1, 10, 0);
    let slots = decode_cell(cell);
    assert_eq!(slots.len(), 1);
    assert_eq!(
        slots[0],
        WallSlot { offset: 5, thickness: 1, depth: 10, offset_secondary: 0, is_east: true, is_door: false, is_window: false }
    );
}

#[test]
fn decode_flags_and_fields_mod_eleven() {
    // slot 0 door + window, slot 1 north, count 2; field value 15 reads as 4
    let cell = (2u64 << 12) | (1 << 5) | (1 << 8) | (1 << 7) | (15u64 << 16) | (3u64 << 32) | (7u64 << 40);
    let slots = decode_cell(cell);
    assert_eq!(slots.len(), 2);
    assert_eq!(slots[0].offset, 4);
    assert!(slots[0].is_door && slots[0].is_window && slots[0].is_east);
    assert_eq!(slots[1].offset, 3);
    assert_eq!(slots[1].depth, 7);
    assert!(!slots[1].is_east && !slots[1].is_door && !slots[1].is_window);
    // slot 2 shares the door bit of slot 1 and has no window
    let s2 = decode_slot((1 << 4) | (1 << 2), 2);
    assert!(s2.is_door && !s2.is_east && !s2.is_window);
}

#[test]
fn wall_count_is_capped_at_three() {
    assert_eq!(decode_cell(15u64 << 12).len(), 3);
    assert_eq!(decode_cell(0).len(), 0);
}

#[test]
fn geometry_of_half_offset_east_wall() {
    let slot = decode_cell(one_slot_cell(5, 1, 10, 0))[0];
    // ray heading +x from the cell at (2, 1)
    let g = slot_geometry(slot, 2, 1, 1, 0);
    assert_eq!(g.face, Segment { x0: 25, y0: 10, x1: 25, y1: 20 });
    assert_eq!(g.face_multiplier, 5);
    assert_eq!(g.face_side, 0);
    assert_eq!((g.face_tex_width, g.face_tex_offset), (10, 0));
    assert_eq!(g.ret, Segment { x0: 25, y0: 20, x1: 26, y1: 20 });
    assert_eq!(g.ret_multiplier, 0);
    assert_eq!(g.ret_side, 1);
    // ray heading -x sees the far side of the thickness
    let back = slot_geometry(slot, 2, 1, -1, 1);
    assert_eq!(back.face, Segment { x0: 26, y0: 10, x1: 26, y1: 20 });
    assert_eq!(back.face_multiplier, 4);
    assert_eq!(back.ret, Segment { x0: 25, y0: 10, x1: 26, y1: 10 });
}

#[test]
fn door_face_stretches_texture_over_depth() {
    let slot = WallSlot { offset: 0, thickness: 2, depth: 6, offset_secondary: 2, is_east: false, is_door: true, is_window: false };
    let g = slot_geometry(slot, 0, 0, 0, -1);
    assert_eq!((g.face_tex_width, g.face_tex_offset), (6, 2));
    assert_eq!(g.face, Segment { x0: 2, y0: 2, x1: 8, y1: 2 });
    assert_eq!(g.face_multiplier, 8);
    assert_eq!(g.face_side, 1);
    assert_eq!(g.ret_multiplier, 2);
}

#[test]
fn texture_type_codes_round_trip() {
    assert_eq!(TextureType::Wall.code(), 1);
    assert_eq!(TextureType::Window.code(), 12);
    assert_eq!(TextureType::from_code(6), Some(TextureType::TreeCone));
    assert_eq!(TextureType::from_code(0), None);
    assert_eq!(TextureType::from_code(13), None);
}

#[test]
fn slot_hits_follow_door_and_window_rules() {
    let plain = WallSlot { offset: 0, thickness: 1, depth: 10, offset_secondary: 0, is_east: true, is_door: false, is_window: false };
    let door = WallSlot { is_door: true, ..plain };
    let window = WallSlot { is_window: true, ..plain };
    let both = WallSlot { is_door: true, is_window: true, ..plain };
    let h = slot_hit(plain, true, false);
    assert!(h.stops && !h.window && h.kind == SurfaceKind::Wall);
    assert_eq!(slot_hit(door, true, false).kind, SurfaceKind::Door);
    assert_eq!(slot_hit(door, false, false).kind, SurfaceKind::Wall);
    let w = slot_hit(window, true, false);
    assert!(!w.stops && w.window && w.kind == SurfaceKind::Window);
    assert!(slot_hit(window, true, true).stops);
    let b = slot_hit(both, true, false);
    assert!(b.stops && !b.window && b.kind == SurfaceKind::Door);
    assert!(plain.is_enabled());
    assert!(!WallSlot { depth: 0, ..plain }.is_enabled());
}

#[test]
fn full_cell_walls_stop_the_ray_and_show_as_wall() {
    let v = visit_cell(1, false, SurfaceKind::Window, 3, false, false);
    assert_eq!(v, CellVisit { hit: true, kind: SurfaceKind::Wall, record: false });
    let open = visit_cell(0, false, SurfaceKind::Window, 3, false, false);
    assert_eq!(open, CellVisit { hit: false, kind: SurfaceKind::Window, record: false });
    // cells with sprites are recorded on every fifth column, never on probes
    assert!(visit_cell(0, false, SurfaceKind::Wall, 10, false, true).record);
    assert!(!visit_cell(0, false, SurfaceKind::Wall, 11, false, true).record);
    assert!(!visit_cell(0, false, SurfaceKind::Wall, 10, true, true).record);
    assert!(!visit_cell(0, false, SurfaceKind::Wall, 10, false, false).record);
}
