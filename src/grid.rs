//! The map grid: a square array of 64-bit packed cells and the decoding of
//! their bit fields into wall slots.
use vstd::prelude::*;

verus! {

/// Value of bit `bit` of `value`.
pub open spec fn bit_of(value: u64, bit: u8) -> bool {
    value & (1u64 << bit) != 0
}

/// The 4-bit field of `value` that starts at bit `start`.
pub open spec fn nibble_of(value: u64, start: u8) -> u8 {
    ((value >> start) & 15u64) as u8
}

/// Whether bit `bit` of `value` is set.
pub fn has_bit_set(value: u64, bit: u8) -> (r: bool)
    requires
        bit < 64,
    ensures
        r == bit_of(value, bit),
{
    (value & (1u64 << bit)) != 0
}

/// The 4-bit field of `value` starting at bit `start_bit`.
pub fn get_bits(value: u64, start_bit: u8) -> (r: u8)
    requires
        start_bit < 64,
    ensures
        r == nibble_of(value, start_bit),
        r < 16,
{
    let v: u64 = (value >> start_bit) & 15u64;
    assert(v < 16) by (bit_vector)
        requires v == (value >> start_bit) & 15u64;
    v as u8
}

/// The cell at `(x, y)` of a `width`-wide row-major grid; 0 outside the grid
/// or past the end of the data.
pub open spec fn grid_value(x: int, y: int, width: int, data: Seq<u64>) -> u64 {
    if x < 0 || y < 0 || x >= width || y >= width || y * width + x >= data.len() {
        0
    } else {
        data[y * width + x]
    }
}

/// Reads the cell at `(map_x, map_y)`; coordinates outside the grid read as 0.
pub fn get_grid_value(map_x: i32, map_y: i32, map_width: i32, map_data: &[u64]) -> (r: u64)
    ensures
        r == grid_value(map_x as int, map_y as int, map_width as int, map_data@),
{
    if map_x < 0 || map_y < 0 || map_x >= map_width || map_y >= map_width {
        return 0;
    }
    assert(0 <= (map_y as int) * (map_width as int) <= 2147483647 * 2147483647)
        by (nonlinear_arith)
        requires
            0 <= map_y < map_width,
            map_width <= 2147483647,
    ;
    let index: i64 = (map_y as i64) * (map_width as i64) + (map_x as i64);
    if index as u64 >= map_data.len() as u64 {
        return 0;
    }
    map_data[index as usize]
}

/// Bit of the ceiling flag.
pub const CEILING_BIT: u8 = 1;

/// Bit of the road flag.
pub const ROAD_BIT: u8 = 3;

/// First bit of the wall-count field.
pub const WALL_COUNT_BIT: u8 = 12;

/// First bit of the three 16-bit wall-slot records.
pub const SLOT_BASE_BIT: u8 = 16;

/// Number of wall slots a cell can hold.
pub const MAX_SLOTS: u8 = 3;

/// One decoded wall slot. Lengths are tenths of a cell, in `0..=10`.
#[derive(Clone, Copy, Debug, PartialEq, Eq, Structural)]
pub struct WallSlot {
    pub offset: u8,
    pub thickness: u8,
    pub depth: u8,
    pub offset_secondary: u8,
    /// The face runs along the y axis at a fixed x ("east"); else along x.
    pub is_east: bool,
    pub is_door: bool,
    pub is_window: bool,
}

impl WallSlot {
    /// A slot with zero depth holds no wall.
    pub fn is_enabled(&self) -> (r: bool)
        ensures
            r == (self.depth != 0),
    {
        self.depth != 0
    }
}

/// Lengths of a decoded slot are tenths in `0..=10`.
pub open spec fn slot_valid(slot: WallSlot) -> bool {
    slot.offset <= 10 && slot.thickness <= 10 && slot.depth <= 10 && slot.offset_secondary <= 10
}

/// Bit of the door flag of slot `i`.
pub open spec fn door_bit(i: int) -> u8 {
    if i == 0 { 5 } else { 4 }
}

/// Bit of the (inverted) north flag of slot `i`.
pub open spec fn north_bit(i: int) -> u8 {
    if i == 0 { 6 } else if i == 1 { 7 } else { 2 }
}

/// Slot `i` (in `0..3`) of a packed cell, as tenths of a cell.
pub open spec fn slot_spec(value: u64, i: int) -> WallSlot {
    let base = (16 + 16 * i) as u8;
    WallSlot {
        offset: nibble_of(value, base) % 11,
        thickness: nibble_of(value, (base + 4) as u8) % 11,
        depth: nibble_of(value, (base + 8) as u8) % 11,
        offset_secondary: nibble_of(value, (base + 12) as u8) % 11,
        is_east: !bit_of(value, north_bit(i)),
        is_door: bit_of(value, door_bit(i)),
        is_window: if i == 0 {
            bit_of(value, 8)
        } else if i == 1 {
            bit_of(value, 9)
        } else {
            false
        },
    }
}

/// Number of slots a cell holds: its wall-count field, capped at three.
pub open spec fn slot_count(value: u64) -> int {
    if nibble_of(value, 12) > 3 { 3 } else { nibble_of(value, 12) as int }
}

/// Decodes slot `i` of a packed cell.
pub fn decode_slot(value: u64, i: u8) -> (r: WallSlot)
    requires
        i < 3,
    ensures
        r == slot_spec(value, i as int),
        slot_valid(r),
{
    let base: u8 = SLOT_BASE_BIT + 16 * i;
    let (door, north, window) = if i == 0 {
        (5u8, 6u8, has_bit_set(value, 8))
    } else if i == 1 {
        (4u8, 7u8, has_bit_set(value, 9))
    } else {
        (4u8, 2u8, false)
    };
    WallSlot {
        offset: get_bits(value, base) % 11,
        thickness: get_bits(value, base + 4) % 11,
        depth: get_bits(value, base + 8) % 11,
        offset_secondary: get_bits(value, base + 12) % 11,
        is_east: !has_bit_set(value, north),
        is_door: has_bit_set(value, door),
        is_window: window,
    }
}

/// Decodes the wall slots of a packed cell, in slot order.
pub fn decode_cell(value: u64) -> (r: Vec<WallSlot>)
    ensures
        r@.len() == slot_count(value),
        forall|i: int| 0 <= i < r@.len() ==> r@[i] == slot_spec(value, i),
        forall|i: int| 0 <= i < r@.len() ==> slot_valid(#[trigger] r@[i]),
{
    let count: u8 = get_bits(value, WALL_COUNT_BIT);
    let n: u8 = if count > MAX_SLOTS { MAX_SLOTS } else { count };
    let mut slots: Vec<WallSlot> = Vec::new();
    let mut i: u8 = 0;
    while i < n
        invariant
            n as int == slot_count(value),
            i <= n <= 3,
            slots@.len() == i,
            forall|j: int| 0 <= j < i ==> slots@[j] == slot_spec(value, j),
            forall|j: int| 0 <= j < i ==> slot_valid(#[trigger] slots@[j]),
        decreases n - i,
    {
        slots.push(decode_slot(value, i));
        i = i + 1;
    }
    slots
}

} // verus!
