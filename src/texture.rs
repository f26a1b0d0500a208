//! Textures: RGBA pixel data with its size, and the logical texture types.
use vstd::prelude::*;

verus! {

/// The logical texture types, each with a fixed numeric code.
#[derive(Clone, Copy, Debug, PartialEq, Eq, Structural)]
pub enum TextureType {
    Wall,
    Ceiling,
    Floor,
    Road,
    Door,
    TreeCone,
    Pillar,
    Bush1,
    TreeVase,
    TreeColumnar,
    Lady,
    Window,
}

/// The numeric code of a texture type.
pub open spec fn type_code(t: TextureType) -> i32 {
    match t {
        TextureType::Wall => 1,
        TextureType::Ceiling => 2,
        TextureType::Floor => 3,
        TextureType::Road => 4,
        TextureType::Door => 5,
        TextureType::TreeCone => 6,
        TextureType::Pillar => 7,
        TextureType::Bush1 => 8,
        TextureType::TreeVase => 9,
        TextureType::TreeColumnar => 10,
        TextureType::Lady => 11,
        TextureType::Window => 12,
    }
}

impl TextureType {
    /// The numeric code under which textures of this type are stored.
    pub fn code(&self) -> (r: i32)
        ensures
            r == type_code(*self),
            1 <= r <= 12,
    {
        match self {
            TextureType::Wall => 1,
            TextureType::Ceiling => 2,
            TextureType::Floor => 3,
            TextureType::Road => 4,
            TextureType::Door => 5,
            TextureType::TreeCone => 6,
            TextureType::Pillar => 7,
            TextureType::Bush1 => 8,
            TextureType::TreeVase => 9,
            TextureType::TreeColumnar => 10,
            TextureType::Lady => 11,
            TextureType::Window => 12,
        }
    }

    /// The texture type with numeric code `code`, if there is one.
    pub fn from_code(code: i32) -> (r: Option<TextureType>)
        ensures
            match r {
                Some(t) => type_code(t) == code,
                None => code < 1 || code > 12,
            },
    {
        match code {
            1 => Some(TextureType::Wall),
            2 => Some(TextureType::Ceiling),
            3 => Some(TextureType::Floor),
            4 => Some(TextureType::Road),
            5 => Some(TextureType::Door),
            6 => Some(TextureType::TreeCone),
            7 => Some(TextureType::Pillar),
            8 => Some(TextureType::Bush1),
            9 => Some(TextureType::TreeVase),
            10 => Some(TextureType::TreeColumnar),
            11 => Some(TextureType::Lady),
            12 => Some(TextureType::Window),
            _ => None,
        }
    }
}

/// RGBA pixels, top row first, four bytes per texel, with the image size.
pub struct Texture<'a> {
    pub data: &'a [u8],
    pub width: i32,
    pub height: i32,
}

/// Byte index of texel `(tx, ty)` in a `width`-wide image, if that texel
/// lies inside the image and its four bytes inside `len`.
pub open spec fn texel_index(width: int, height: int, len: int, tx: int, ty: int) -> Option<int> {
    if 0 <= tx < width && 0 <= ty < height && (ty * width + tx) * 4 + 4 <= len {
        Some((ty * width + tx) * 4)
    } else {
        None
    }
}

/// Computes `texel_index` on machine integers.
pub fn texel_offset(width: i32, height: i32, len: usize, tx: i64, ty: i64) -> (r: Option<usize>)
    ensures
        match texel_index(width as int, height as int, len as int, tx as int, ty as int) {
            Some(i) => r == Some(i as usize),
            None => r.is_none(),
        },
{
    if tx < 0 || ty < 0 || tx >= width as i64 || ty >= height as i64 {
        return None;
    }
    assert(0 <= (ty as int) * (width as int) + tx <= 2147483647 * 2147483647) by (nonlinear_arith)
        requires 0 <= ty < height, 0 <= tx < width, height <= 2147483647, width <= 2147483647;
    let base: i64 = ty * (width as i64) + tx;
    let quads: u64 = (len / 4) as u64;
    assert((base * 4 + 4 <= len) == (base < len / 4)) by (nonlinear_arith)
        requires base >= 0, len >= 0;
    if base as u64 >= quads {
        return None;
    }
    let idx: usize = (base as usize) * 4;
    Some(idx)
}

} // verus!

verus! {

/// The colour channels of texel `(tx, ty)` of `tex`, if it lies inside the image.
pub open spec fn texel_rgba(tex: &Texture, tx: int, ty: int) -> Option<(u8, u8, u8, u8)> {
    match texel_index(tex.width as int, tex.height as int, tex.data@.len() as int, tx, ty) {
        Some(i) => Some((tex.data@[i], tex.data@[i + 1], tex.data@[i + 2], tex.data@[i + 3])),
        None => None,
    }
}

/// Byte `j` (0 red, 1 green, 2 blue, 3 alpha) of an opaque pixel.
pub open spec fn opaque_byte(p: (u8, u8, u8), j: int) -> u8 {
    if j == 0 { p.0 } else if j == 1 { p.1 } else if j == 2 { p.2 } else { 255 }
}

/// Reads texel `(tx, ty)` of `tex`, or `None` outside the image.
pub fn sample(tex: &Texture, tx: i64, ty: i64) -> (r: Option<(u8, u8, u8, u8)>)
    ensures
        r == texel_rgba(tex, tx as int, ty as int),
{
    match texel_offset(tex.width, tex.height, tex.data.len(), tx, ty) {
        Some(i) => Some((tex.data[i], tex.data[i + 1], tex.data[i + 2], tex.data[i + 3])),
        None => None,
    }
}

/// Writes an opaque pixel at pixel position `x` of an RGBA row.
pub fn put_pixel(row: &mut [u8], x: usize, p: (u8, u8, u8))
    requires
        4 * x + 4 <= old(row)@.len(),
    ensures
        final(row)@.len() == old(row)@.len(),
        forall|i: int|
            0 <= i < old(row)@.len() ==> #[trigger] final(row)@[i] == if 4 * x <= i < 4 * x + 4 {
                opaque_byte(p, i - 4 * x)
            } else {
                old(row)@[i]
            },
{
    let i: usize = 4 * x;
    row[i] = p.0;
    row[i + 1] = p.1;
    row[i + 2] = p.2;
    row[i + 3] = 255;
}

} // verus!
