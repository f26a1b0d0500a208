//! Sub-cell wall geometry. Each wall slot is a face segment plus a return
//! segment perpendicular to it; coordinates here are world coordinates
//! scaled by ten (tenths of a cell), so they are exact integers.
use vstd::prelude::*;
use crate::grid::{slot_valid, WallSlot};
use crate::walls::SurfaceKind;

verus! {

/// A segment from `(x0, y0)` to `(x1, y1)`, in tenths of a cell.
#[derive(Clone, Copy, Debug, PartialEq, Eq, Structural)]
pub struct Segment {
    pub x0: i64,
    pub y0: i64,
    pub x1: i64,
    pub y1: i64,
}

/// Where a slot's two segments lie for a ray of given direction signs, and
/// what a hit on each of them means.
#[derive(Clone, Copy, Debug, PartialEq, Eq, Structural)]
pub struct SlotGeometry {
    /// The visible face.
    pub face: Segment,
    /// Fraction (tenths) of a cell step to add to the side distances on a face hit.
    pub face_multiplier: i32,
    /// Axis crossed by a face hit: 0 for x, 1 for y.
    pub face_side: u8,
    /// Texture span of the face (tenths): doors and windows stretch over their depth.
    pub face_tex_width: u8,
    pub face_tex_offset: u8,
    /// The return, closing the wall's thickness.
    pub ret: Segment,
    /// Fraction (tenths) of a cell step to add to the side distances on a return hit.
    pub ret_multiplier: i32,
    /// Axis crossed by a return hit.
    pub ret_side: u8,
}

/// The geometry of `slot` in cell `(mx, my)` for a ray whose direction has
/// sign `sx` along x and `sy` along y (each -1, 0 or 1).
pub open spec fn slot_geometry_spec(slot: WallSlot, mx: int, my: int, sx: int, sy: int) -> SlotGeometry {
    let major = if slot.is_east { sx } else { sy };
    let minor = if slot.is_east { sy } else { sx };
    let o1 = slot.offset as int;
    let th = slot.thickness as int;
    let d = slot.depth as int;
    let os = slot.offset_secondary as int;
    let face_off = if major <= 0 { o1 + th } else { o1 };
    let face_mult = if major <= 0 { 10 - (o1 + th) } else { o1 };
    let adder = if minor > 0 { os } else { os + d };
    let ret_mult = if minor < 0 { 10 - d - os } else { os };
    let cx = 10 * mx;
    let cy = 10 * my;
    SlotGeometry {
        face: if slot.is_east {
            Segment { x0: (cx + face_off) as i64, y0: (cy + os) as i64, x1: (cx + face_off) as i64, y1: (cy + os + d) as i64 }
        } else {
            Segment { x0: (cx + os) as i64, y0: (cy + face_off) as i64, x1: (cx + os + d) as i64, y1: (cy + face_off) as i64 }
        },
        face_multiplier: face_mult as i32,
        face_side: if slot.is_east { 0 } else { 1 },
        face_tex_width: if slot.is_door || slot.is_window { slot.depth } else { 10 },
        face_tex_offset: if slot.is_door || slot.is_window { slot.offset_secondary } else { 0 },
        ret: if slot.is_east {
            Segment { x0: (cx + o1) as i64, y0: (cy + adder) as i64, x1: (cx + o1 + th) as i64, y1: (cy + adder) as i64 }
        } else {
            Segment { x0: (cx + adder) as i64, y0: (cy + o1) as i64, x1: (cx + adder) as i64, y1: (cy + o1 + th) as i64 }
        },
        ret_multiplier: ret_mult as i32,
        ret_side: if slot.is_east { 1 } else { 0 },
    }
}

/// Computes the face and return segments of `slot` in cell `(map_x, map_y)`
/// for a ray with direction signs `sign_x`, `sign_y`.
pub fn slot_geometry(slot: WallSlot, map_x: i32, map_y: i32, sign_x: i8, sign_y: i8) -> (r: SlotGeometry)
    requires
        slot_valid(slot),
        -1 <= sign_x <= 1,
        -1 <= sign_y <= 1,
    ensures
        r == slot_geometry_spec(slot, map_x as int, map_y as int, sign_x as int, sign_y as int),
{
    let major: i8 = if slot.is_east { sign_x } else { sign_y };
    let minor: i8 = if slot.is_east { sign_y } else { sign_x };
    let o1: i64 = slot.offset as i64;
    let th: i64 = slot.thickness as i64;
    let d: i64 = slot.depth as i64;
    let os: i64 = slot.offset_secondary as i64;
    let face_off: i64 = if major <= 0 { o1 + th } else { o1 };
    let face_mult: i64 = if major <= 0 { 10 - (o1 + th) } else { o1 };
    let adder: i64 = if minor > 0 { os } else { os + d };
    let ret_mult: i64 = if minor < 0 { 10 - d - os } else { os };
    let cx: i64 = 10 * (map_x as i64);
    let cy: i64 = 10 * (map_y as i64);
    let stretched = slot.is_door || slot.is_window;
    if slot.is_east {
        SlotGeometry {
            face: Segment { x0: cx + face_off, y0: cy + os, x1: cx + face_off, y1: cy + os + d },
            face_multiplier: face_mult as i32,
            face_side: 0,
            face_tex_width: if stretched { slot.depth } else { 10 },
            face_tex_offset: if stretched { slot.offset_secondary } else { 0 },
            ret: Segment { x0: cx + o1, y0: cy + adder, x1: cx + o1 + th, y1: cy + adder },
            ret_multiplier: ret_mult as i32,
            ret_side: 1,
        }
    } else {
        SlotGeometry {
            face: Segment { x0: cx + os, y0: cy + face_off, x1: cx + os + d, y1: cy + face_off },
            face_multiplier: face_mult as i32,
            face_side: 1,
            face_tex_width: if stretched { slot.depth } else { 10 },
            face_tex_offset: if stretched { slot.offset_secondary } else { 0 },
            ret: Segment { x0: cx + adder, y0: cy + o1, x1: cx + adder, y1: cy + o1 + th },
            ret_multiplier: ret_mult as i32,
            ret_side: 0,
        }
    }
}

/// What a ray meeting one segment of a slot means for its column.
#[derive(Clone, Copy, Debug, PartialEq, Eq, Structural)]
pub struct SlotHit {
    /// The meeting stops the ray here (if it is the nearest in the cell).
    pub stops: bool,
    /// The surface the column shows.
    pub kind: SurfaceKind,
    /// The meeting adds a window sprite to the column.
    pub window: bool,
}

/// The meaning of a ray meeting `slot` on its face (`on_face`) or on its
/// return: windows let the ray go on unless `stop_at_window`, and are drawn
/// as sprites; a door shows as a door on its face only, its return as wall;
/// a window flag on a door slot has no effect.
pub open spec fn slot_hit_spec(slot: WallSlot, on_face: bool, stop_at_window: bool) -> SlotHit {
    let window = slot.is_window && !slot.is_door;
    SlotHit {
        stops: !window || stop_at_window,
        kind: if slot.is_door && on_face {
            SurfaceKind::Door
        } else if window {
            SurfaceKind::Window
        } else {
            SurfaceKind::Wall
        },
        window,
    }
}

/// Classifies a ray meeting `slot`.
pub fn slot_hit(slot: WallSlot, on_face: bool, stop_at_window: bool) -> (r: SlotHit)
    ensures
        r == slot_hit_spec(slot, on_face, stop_at_window),
{
    let window = slot.is_window && !slot.is_door;
    SlotHit {
        stops: !window || stop_at_window,
        kind: if slot.is_door && on_face {
            SurfaceKind::Door
        } else if window {
            SurfaceKind::Window
        } else {
            SurfaceKind::Wall
        },
        window,
    }
}

/// What the ray of one column makes of a cell it enters.
#[derive(Clone, Copy, Debug, PartialEq, Eq, Structural)]
pub struct CellVisit {
    /// The ray stops in this cell.
    pub hit: bool,
    /// The surface the column shows so far.
    pub kind: SurfaceKind,
    /// The cell is recorded for sprite gathering.
    pub record: bool,
}

/// A cell whose whole value is 1 is a full-cell wall: it stops the ray and
/// shows as wall. Cells with sprites are recorded on every fifth column only,
/// and never on a probe ray.
pub open spec fn visit_cell_spec(
    value: u64,
    slot_hit: bool,
    kind: SurfaceKind,
    column: i32,
    skip_sprites: bool,
    cell_has_sprites: bool,
) -> CellVisit {
    let thick = value == 1;
    let fifth = match column.checked_rem_euclid(5) {
        Some(m) => m == 0,
        None => false,
    };
    CellVisit {
        hit: slot_hit || thick,
        kind: if thick { SurfaceKind::Wall } else { kind },
        record: !skip_sprites && fifth && cell_has_sprites,
    }
}

/// Finishes the visit of a cell after its wall slots were tested: `slot_hit`
/// tells whether one of them stopped the ray, `kind` is the surface they showed.
pub fn visit_cell(
    value: u64,
    slot_hit: bool,
    kind: SurfaceKind,
    column: i32,
    skip_sprites: bool,
    cell_has_sprites: bool,
) -> (r: CellVisit)
    ensures
        r == visit_cell_spec(value, slot_hit, kind, column, skip_sprites, cell_has_sprites),
{
    let thick = value == 1;
    let fifth = match column.checked_rem_euclid(5) {
        Some(m) => m == 0,
        None => false,
    };
    CellVisit {
        hit: slot_hit || thick,
        kind: if thick { SurfaceKind::Wall } else { kind },
        record: !skip_sprites && fifth && cell_has_sprites,
    }
}

} // verus!
