//! The panoramic sky: a strip prescaled to screen height once, then copied
//! into each frame with a horizontal offset that wraps around the strip.
use vstd::prelude::*;

verus! {

/// A prescaled sky strip: `width * height` RGBA texels, top row first.
pub struct BackgroundImageWasm {
    data: Vec<u8>,
    width: i32,
    height: i32,
}

/// Column of the strip shown at screen column `x` for a strip offset `left`.
pub open spec fn sky_column(left: int, x: int, sky_width: int) -> int {
    (left + x) % sky_width
}

/// Width of the strip for a `tw` x `th` panorama scaled to `sh` rows:
/// `round(tw * sh / th * 2)`.
pub open spec fn sky_width_for(tw: int, th: int, sh: int) -> int {
    (4 * tw * sh + th) / (2 * th)
}

/// Source row of strip row `y`.
pub open spec fn source_row(y: int, th: int, sh: int) -> int {
    if y * th / sh > th - 1 { th - 1 } else { y * th / sh }
}

/// Source column of strip column `x`.
pub open spec fn source_column(x: int, tw: int, sw: int) -> int {
    (x * tw / sw) % tw
}

/// Byte `j` of strip texel `(x, y)`: the colour of the nearest source texel,
/// made opaque.
pub open spec fn strip_byte(src: Seq<u8>, tw: int, th: int, sh: int, sw: int, x: int, y: int, j: int) -> u8 {
    if j == 3 {
        255
    } else {
        src[(source_row(y, th, sh) * tw + source_column(x, tw, sw)) * 4 + j]
    }
}

impl BackgroundImageWasm {
    /// The strip's texels.
    pub closed spec fn pixels(&self) -> Seq<u8> {
        self.data@
    }

    /// The strip's width in texels.
    pub closed spec fn strip_width(&self) -> int {
        self.width as int
    }

    /// The strip's height in texels (the screen height it was scaled to).
    pub closed spec fn strip_height(&self) -> int {
        self.height as int
    }

    /// The strip holds exactly `width * height` texels, with a positive width.
    pub open spec fn wf(&self) -> bool {
        &&& self.strip_width() > 0
        &&& self.strip_height() >= 0
        &&& self.pixels().len() == self.strip_width() * self.strip_height() * 4
    }

    /// Prescales a `texture_width` x `texture_height` panorama to a strip of
    /// `screen_height` rows and twice the proportional width, by nearest
    /// neighbour, with every texel opaque.
    pub fn new(src: &[u8], texture_width: i32, texture_height: i32, screen_height: i32) -> (r: BackgroundImageWasm)
        requires
            texture_width > 0,
            texture_height > 0,
            screen_height > 0,
            src@.len() >= texture_width as int * texture_height as int * 4,
            4 * texture_width * screen_height >= texture_height,
            sky_width_for(texture_width as int, texture_height as int, screen_height as int) * screen_height * 4
                <= 2147483647,
        ensures
            r.wf(),
            r.strip_width() == sky_width_for(texture_width as int, texture_height as int, screen_height as int),
            r.strip_height() == screen_height,
            forall|i: int|
                0 <= i < r.pixels().len() ==> #[trigger] r.pixels()[i] == strip_byte(
                    src@,
                    texture_width as int,
                    texture_height as int,
                    screen_height as int,
                    r.strip_width(),
                    (i / 4) % r.strip_width(),
                    (i / 4) / r.strip_width(),
                    i % 4,
                ),
    {
        let tw: i64 = texture_width as i64;
        let th: i64 = texture_height as i64;
        let sh: i64 = screen_height as i64;
        assert(0 <= 4 * tw * sh + th <= 4 * 2147483647 * 2147483647 + 2147483647) by (nonlinear_arith)
            requires 0 < tw <= 2147483647, 0 < th <= 2147483647, 0 < sh <= 2147483647;
        let wide: i128 = (4 * (tw as i128) * (sh as i128) + (th as i128)) / (2 * (th as i128));
        assert(wide == sky_width_for(tw as int, th as int, sh as int));
        assert(wide <= 2147483647) by (nonlinear_arith)
            requires wide * sh * 4 <= 2147483647, sh >= 1, wide >= 0;
        let sw: i64 = wide as i64;
        assert(sw >= 1) by (nonlinear_arith)
            requires sw == (4 * tw * sh + th) / (2 * th), 4 * tw * sh >= th, th > 0;
        assert(sw * sh * 4 <= 2147483647);
        assert(sw <= 2147483647 && sw * sh <= 2147483647) by (nonlinear_arith)
            requires sw * sh * 4 <= 2147483647, sh >= 1, sw >= 1;
        let ghost g_sw = sw as int;
        let src_len: usize = src.len();
        let mut data: Vec<u8> = Vec::new();
        let mut y: i64 = 0;
        let mut k: i64 = 0;
        while y < sh
            invariant
                0 < tw <= 2147483647,
                0 < th <= 2147483647,
                0 < sh <= 2147483647,
                1 <= sw <= 2147483647,
                sw * sh * 4 <= 2147483647,
                src@.len() >= tw * th * 4,
                src_len == src@.len(),
                g_sw == sw,
                0 <= y <= sh,
                k == y * sw,
                data@.len() == 4 * k,
                forall|i: int|
                    0 <= i < data@.len() ==> #[trigger] data@[i] == strip_byte(
                        src@, tw as int, th as int, sh as int, sw as int, (i / 4) % g_sw, (i / 4) / g_sw, i % 4),
            decreases sh - y,
        {
            assert(y * th < sh * th && sh * th <= 2147483647 * 2147483647) by (nonlinear_arith)
                requires 0 <= y < sh, 0 < th <= 2147483647, sh <= 2147483647;
            let q: i64 = y * th / sh;
            let src_y: i64 = if q > th - 1 { th - 1 } else { q };
            assert(0 <= (y as int) * (th as int) / (sh as int)) by (nonlinear_arith)
                requires y >= 0, th > 0, sh > 0;
            let mut x: i64 = 0;
            assert(k + sw <= sw * sh) by (nonlinear_arith) requires k == y * sw, y < sh, sw > 0;
            while x < sw
                invariant
                    0 < tw <= 2147483647,
                    0 < th <= 2147483647,
                    0 < sh <= 2147483647,
                    1 <= sw <= 2147483647,
                    sw * sh * 4 <= 2147483647,
                    src@.len() >= tw * th * 4,
                    src_len == src@.len(),
                    g_sw == sw,
                    0 <= y < sh,
                    src_y == source_row(y as int, th as int, sh as int),
                    0 <= src_y < th,
                    0 <= x <= sw,
                    k == y * sw + x,
                    k - x + sw <= sw * sh,
                    data@.len() == 4 * k,
                    forall|i: int|
                        0 <= i < data@.len() ==> #[trigger] data@[i] == strip_byte(
                            src@, tw as int, th as int, sh as int, sw as int, (i / 4) % g_sw, (i / 4) / g_sw, i % 4),
                decreases sw - x,
            {
                assert(0 <= x * tw <= 2147483647 * 2147483647) by (nonlinear_arith)
                    requires 0 <= x < sw <= 2147483647, 0 < tw <= 2147483647;
                let src_x: i64 = (x * tw / sw) % tw;
                assert(0 <= (x as int) * (tw as int) / (sw as int)) by (nonlinear_arith)
                    requires x >= 0, tw > 0, sw > 0;
                assert(0 <= (src_y * tw + src_x) * 4 && (src_y * tw + src_x) * 4 + 4 <= tw * th * 4) by (nonlinear_arith)
                    requires 0 <= src_y < th, 0 <= src_x < tw;
                let si: usize = ((src_y as usize) * (tw as usize) + (src_x as usize)) * 4;
                let ghost before = data@;
                data.push(src[si]);
                data.push(src[si + 1]);
                data.push(src[si + 2]);
                data.push(255u8);
                proof {
                    vstd::arithmetic::div_mod::lemma_fundamental_div_mod_converse(k as int, sw as int, y as int, x as int);
                    assert forall|i: int| 0 <= i < data@.len() implies #[trigger] data@[i] == strip_byte(
                        src@, tw as int, th as int, sh as int, sw as int, (i / 4) % g_sw, (i / 4) / g_sw, i % 4) by {
                        if i >= 4 * k {
                            assert(i / 4 == k);
                            assert(i % 4 == i - 4 * k);
                        } else {
                            assert(data@[i] == before[i]);
                        }
                    }
                }
                x = x + 1;
                k = k + 1;
            }
            assert(k == (y + 1) * sw) by (nonlinear_arith) requires k == y * sw + sw;
            y = y + 1;
        }
        assert(data@.len() == sw * sh * 4) by (nonlinear_arith) requires data@.len() == 4 * k, k == sh * sw;
        BackgroundImageWasm { data, width: sw as i32, height: screen_height }
    }

    /// The strip's texels.
    pub fn get_data(&self) -> (r: &Vec<u8>)
        ensures
            r@ == self.pixels(),
    {
        &self.data
    }

    /// The strip's width in texels.
    pub fn get_width(&self) -> (r: i32)
        ensures
            r == self.strip_width(),
    {
        self.width
    }

    /// Screen row `y` after the sky stage: row `y - pitch` of the strip, read
    /// from strip column `left_offset + x` (mod the strip width) at screen
    /// column `x`; unchanged where `y - pitch` is outside the strip.
    pub open spec fn sky_row_spec(&self, old: Seq<u8>, y: int, pitch: int, left_offset: int) -> Seq<u8> {
        let sy = y - pitch;
        if sy < 0 || sy >= self.strip_height() {
            old
        } else {
            Seq::new(
                old.len(),
                |i: int|
                    self.pixels()[(sy * self.strip_width() + sky_column(left_offset, i / 4, self.strip_width())) * 4 + i % 4],
            )
        }
    }

    /// Draws screen row `y` of the sky stage into `row` (the row's RGBA bytes).
    pub fn draw_sky_row(&self, row: &mut [u8], y: i32, pitch: i32, left_offset: i32)
        requires
            self.wf(),
            old(row)@.len() % 4 == 0,
        ensures
            final(row)@ == self.sky_row_spec(old(row)@, y as int, pitch as int, left_offset as int),
    {
        let sy: i64 = (y as i64) - (pitch as i64);
        if sy < 0 || sy >= self.height as i64 {
            return;
        }
        let sw: i64 = self.width as i64;
        let n: usize = row.len() / 4;
        let ghost start = row@;
        let ghost target = self.sky_row_spec(start, y as int, pitch as int, left_offset as int);
        let mut col: i64 = match (left_offset as i64).checked_rem_euclid(sw) {
            Some(c) => c,
            None => 0,
        };
        assert(0 <= sy * sw && sy * sw + sw <= (self.height as int) * sw && sy * sw <= 2147483647 * 2147483647)
            by (nonlinear_arith)
            requires 0 <= sy < self.height, 0 < sw <= 2147483647, self.height <= 2147483647;
        let row_base: i64 = sy * sw;
        assert((self.height as int) * sw * 4 == self.data@.len()) by (nonlinear_arith)
            requires self.data@.len() == (self.width as int) * (self.height as int) * 4, sw == self.width;
        let data_len: usize = self.data.len();
        let row_len: usize = row.len();
        let mut x: usize = 0;
        while x < n
            invariant
                self.wf(),
                data_len == self.data@.len(),
                row_len == row@.len(),
                0 <= sy < self.height,
                sy == y as int - pitch as int,
                sw == self.width,
                row_base == sy * sw,
                0 <= row_base,
                row_base + sw <= self.height as int * sw,
                (self.height as int) * sw * 4 == self.data@.len(),
                start.len() == 4 * n,
                row@.len() == start.len(),
                target == self.sky_row_spec(start, y as int, pitch as int, left_offset as int),
                x <= n,
                0 <= col < sw,
                col == sky_column(left_offset as int, x as int, sw as int),
                forall|i: int| 0 <= i < 4 * x ==> #[trigger] row@[i] == target[i],
                forall|i: int| 4 * x <= i < row@.len() ==> #[trigger] row@[i] == start[i],
            decreases n - x,
        {
            assert((row_base + col) * 4 + 4 <= self.data@.len()) by (nonlinear_arith)
                requires
                    row_base + sw <= self.height as int * sw,
                    (self.height as int) * sw * 4 == self.data@.len(),
                    0 <= col < sw,
            ;
            let src: usize = ((row_base as usize) + (col as usize)) * 4;
            row[4 * x] = self.data[src];
            row[4 * x + 1] = self.data[src + 1];
            row[4 * x + 2] = self.data[src + 2];
            row[4 * x + 3] = self.data[src + 3];
            assert forall|i: int| 0 <= i < 4 * (x + 1) implies #[trigger] row@[i] == target[i] by {
                if i >= 4 * x {
                    assert(i / 4 == x);
                    assert(i % 4 == i - 4 * x);
                    assert(target[i] == self.data@[src as int + (i - 4 * x)]);
                }
            }
            proof {
                let m = sw as int;
                let a = left_offset as int + x;
                vstd::arithmetic::div_mod::lemma_add_mod_noop(a, 1, m);
                if m == 1 {
                    vstd::arithmetic::div_mod::lemma_mod_self_0(1);
                    assert((a + 1) % m == 0) by { vstd::arithmetic::div_mod::lemma_mod_bound(a + 1, m); }
                } else {
                    vstd::arithmetic::div_mod::lemma_small_mod(1, m as nat);
                    if col + 1 < m {
                        vstd::arithmetic::div_mod::lemma_small_mod((col + 1) as nat, m as nat);
                    } else {
                        vstd::arithmetic::div_mod::lemma_mod_self_0(m);
                    }
                }
                assert(sky_column(left_offset as int, x + 1, m) == if col + 1 == sw { 0 } else { col + 1 });
            }
            col = if col + 1 == sw { 0 } else { col + 1 };
            x = x + 1;
        }
        assert(row@ =~= target);
    }
}

/// Shifting the strip offset by `k` columns shifts the sky band of every
/// row by `k` screen columns: what showed at column `x + k` now shows at `x`.
pub proof fn lemma_sky_shift(img: BackgroundImageWasm, old: Seq<u8>, y: int, pitch: int, left_offset: int, k: int, x: int, j: int)
    requires
        img.wf(),
        old.len() % 4 == 0,
        0 <= y - pitch < img.strip_height(),
        0 <= x,
        0 <= k,
        x + k < old.len() / 4,
        0 <= j < 4,
    ensures
        img.sky_row_spec(old, y, pitch, left_offset + k)[4 * x + j]
            == img.sky_row_spec(old, y, pitch, left_offset)[4 * (x + k) + j],
{
    assert((4 * x + j) / 4 == x && (4 * x + j) % 4 == j);
    assert((4 * (x + k) + j) / 4 == x + k && (4 * (x + k) + j) % 4 == j);
    assert(left_offset + k + x == left_offset + (x + k));
}

/// A full turn of the heading moves the strip offset by the strip's width
/// and leaves every sky row as it was.
pub proof fn lemma_sky_full_turn(img: BackgroundImageWasm, old: Seq<u8>, y: int, pitch: int, left_offset: int)
    requires
        img.wf(),
    ensures
        img.sky_row_spec(old, y, pitch, left_offset + img.strip_width()) == img.sky_row_spec(old, y, pitch, left_offset),
{
    let w = img.strip_width();
    assert forall|x: int| #[trigger] sky_column(left_offset + w, x, w) == sky_column(left_offset, x, w) by {
        assert(left_offset + w + x == (left_offset + x) + w);
        vstd::arithmetic::div_mod::lemma_mod_add_multiples_vanish(left_offset + x, w);
    }
    assert(img.sky_row_spec(old, y, pitch, left_offset + w) =~= img.sky_row_spec(old, y, pitch, left_offset));
}

} // verus!
