//! Colors, textures, the screen buffer, and the projection stage that
//! turns wall hits into shaded vertical strips and composites sprite
//! billboards against the per-column wall depths.
//!
//! Headings arrive as fixed-point direction vectors; the projection
//! plane distance `nc` (`screen_width / 2 / tan(half_fov)`) is evaluated
//! by the caller.  Everything here is exact integer arithmetic: the
//! fisheye correction is the dot product of the hit vector with the view
//! direction, which equals the radial distance times the cosine of the
//! ray's angular offset.

use crate::level::{Level, LevelBlock};
use crate::math::Vec2;
use crate::num::{abs_int, div_floor, lemma_muldiv_bound, muldiv, muldiv_spec, FRAC_ONE};
use vstd::arithmetic::div_mod::lemma_fundamental_div_mod;
use vstd::prelude::*;

verus! {

/// Largest accepted screen dimension.
pub const MAX_SCREEN_DIM: usize = 4096;

/// An RGBA color, one byte per channel.
#[derive(Clone, Copy, Debug, PartialEq, Eq, Structural)]
pub struct Color {
    pub r: u8,
    pub g: u8,
    pub b: u8,
    pub a: u8,
}

/// Builds a color from its channels.
pub fn rgba(r: u8, g: u8, b: u8, a: u8) -> (c: Color)
    ensures
        c == (Color { r, g, b, a }),
{
    Color { r, g, b, a }
}

/// The packed ARGB word of a color.
pub open spec fn color_to_u32_spec(c: Color) -> u32 {
    ((c.a as u32) << 24) | ((c.r as u32) << 16) | ((c.g as u32) << 8) | (c.b as u32)
}

/// Packs a color into one ARGB word.
pub fn color_to_u32(c: Color) -> (r: u32)
    ensures
        r == color_to_u32_spec(c),
{
    ((c.a as u32) << 24) | ((c.r as u32) << 16) | ((c.g as u32) << 8) | (c.b as u32)
}

/// One channel scaled by `factor / FRAC_ONE`.
pub open spec fn shade_channel_spec(v: u8, factor: int) -> int {
    (v as int) * factor / (FRAC_ONE as int)
}

/// A color with its red, green and blue channels scaled by
/// `factor / FRAC_ONE`; alpha is kept.
pub open spec fn shade_spec(c: Color, factor: int) -> Color {
    Color {
        r: shade_channel_spec(c.r, factor) as u8,
        g: shade_channel_spec(c.g, factor) as u8,
        b: shade_channel_spec(c.b, factor) as u8,
        a: c.a,
    }
}

/// Scales one channel by `factor / FRAC_ONE`.
fn shade_channel(v: u8, factor: i64) -> (r: u8)
    requires
        0 <= factor <= FRAC_ONE,
    ensures
        r == shade_channel_spec(v, factor as int),
{
    proof {
        crate::num::lemma_div_magnitude((v as int) * (factor as int), FRAC_ONE as int);
        assert(0 <= (v as int) * (factor as int) <= 255 * 65536) by (nonlinear_arith)
            requires
                0 <= v <= 255,
                0 <= factor <= 65536,
        ;
        assert((v as int) * (factor as int) / 65536 < 256) by (nonlinear_arith)
            requires
                0 <= (v as int) * (factor as int) <= 255 * 65536,
        ;
    }
    ((v as u64) * (factor as u64) / (FRAC_ONE as u64)) as u8
}

/// Scales the red, green and blue channels of a color by
/// `factor / FRAC_ONE`, the distance shading of the renderer.
pub fn shade(c: Color, factor: i64) -> (r: Color)
    requires
        0 <= factor <= FRAC_ONE,
    ensures
        r == shade_spec(c, factor as int),
{
    Color {
        r: shade_channel(c.r, factor),
        g: shade_channel(c.g, factor),
        b: shade_channel(c.b, factor),
        a: c.a,
    }
}

/// The wall shading factor: `min(1, shadow_decay / corrected)` in
/// `FRAC_ONE` subunits, scaled by a further four fifths when the hit lies
/// on a horizontal grid line, so the two wall families read differently.
pub open spec fn color_factor_spec(corrected: int, shadow_decay: int, is_horizontal: bool) -> int {
    let base = if shadow_decay * (FRAC_ONE as int) / corrected < FRAC_ONE as int {
        shadow_decay * (FRAC_ONE as int) / corrected
    } else {
        FRAC_ONE as int
    };
    if is_horizontal {
        base * 4 / 5
    } else {
        base
    }
}

/// Computes the wall shading factor.
pub fn color_factor(corrected: i64, shadow_decay: i64, is_horizontal: bool) -> (r: i64)
    requires
        corrected > 0,
        0 <= shadow_decay <= 0x10_0000,
    ensures
        r == color_factor_spec(corrected as int, shadow_decay as int, is_horizontal),
        0 <= r <= FRAC_ONE,
{
    proof {
        assert(0 <= (shadow_decay as int) * (FRAC_ONE as int) <= 0x10_0000_0000) by (nonlinear_arith)
            requires
                0 <= shadow_decay <= 0x10_0000,
        ;
        crate::num::lemma_div_magnitude(
            (shadow_decay as int) * (FRAC_ONE as int),
            corrected as int,
        );
    }
    let scaled: i64 = shadow_decay * FRAC_ONE;
    let q = div_floor(scaled, corrected);
    let base = if q < FRAC_ONE {
        q
    } else {
        FRAC_ONE
    };
    if is_horizontal {
        proof {
            assert(0 <= base * 4 <= 4 * FRAC_ONE) by (nonlinear_arith)
                requires
                    0 <= base <= FRAC_ONE,
            ;
            crate::num::lemma_div_magnitude(base as int * 4, 5);
            assert(base as int * 4 / 5 <= FRAC_ONE) by (nonlinear_arith)
                requires
                    0 <= base <= FRAC_ONE,
            ;
        }
        div_floor(base * 4, 5)
    } else {
        base
    }
}

/// A texture: a rectangle of texels.
pub struct Texture {
    pub width: usize,
    pub height: usize,
    pub pixels: Vec<Color>,
}

impl Texture {
    /// Well-formedness: nonempty, bounded, row-major storage.
    pub open spec fn wf(&self) -> bool {
        &&& 1 <= self.width <= MAX_SCREEN_DIM
        &&& 1 <= self.height <= MAX_SCREEN_DIM
        &&& self.pixels@.len() == self.width * self.height
    }

    /// The texel at `(tx, ty)`.
    pub open spec fn texel_at(&self, tx: int, ty: int) -> Color {
        self.pixels@[ty * self.width + tx]
    }

    /// The texel sampled at fractional coordinates `u_num / u_den` and
    /// `v_num / v_den` of the image.
    pub open spec fn sample_spec(&self, u_num: int, u_den: int, v_num: int, v_den: int) -> Color {
        self.texel_at(u_num * self.width / u_den, v_num * self.height / v_den)
    }

    /// Samples the texel under fractional coordinates
    /// `(u_num / u_den, v_num / v_den)`, each in `[0, 1)`.
    pub fn sample(&self, u_num: i64, u_den: i64, v_num: i64, v_den: i64) -> (c: Color)
        requires
            self.wf(),
            0 <= u_num < u_den,
            0 <= v_num < v_den,
            u_den <= 0x100_0000_0000,
            v_den <= 0x100_0000_0000,
        ensures
            c == self.sample_spec(u_num as int, u_den as int, v_num as int, v_den as int),
    {
        proof {
            lemma_frac_index_bounds(u_num as int, u_den as int, self.width as int);
            lemma_frac_index_bounds(v_num as int, v_den as int, self.height as int);
            assert(abs_int(u_num as int * (self.width as int)) <= 0x10_0000_0000_0000
                && abs_int(v_num as int * (self.height as int)) <= 0x10_0000_0000_0000)
                by (nonlinear_arith)
                requires
                    0 <= u_num <= 0x100_0000_0000,
                    0 <= v_num <= 0x100_0000_0000,
                    0 < self.width as int <= MAX_SCREEN_DIM as int,
                    0 < self.height as int <= MAX_SCREEN_DIM as int,
            ;
        }
        let tx = div_floor(u_num * (self.width as i64), u_den);
        let ty = div_floor(v_num * (self.height as i64), v_den);
        proof {
            assert((ty as int) * (self.width as int) + tx < self.pixels@.len()) by (nonlinear_arith)
                requires
                    0 <= tx && (tx as int) < self.width as int,
                    0 <= ty && (ty as int) < self.height as int,
                    self.pixels@.len() == (self.width as int) * (self.height as int),
            ;
            assert((ty as int) * (self.width as int) >= 0) by (nonlinear_arith)
                requires
                    ty >= 0,
                    self.width as int >= 0,
            ;
            assert((ty as int) * (self.width as int) <= 0x100_0000) by (nonlinear_arith)
                requires
                    0 <= ty && (ty as int) < self.height as int,
                    self.height <= MAX_SCREEN_DIM,
                    self.width <= MAX_SCREEN_DIM,
            ;
        }
        let idx: usize = (ty as usize) * self.width + (tx as usize);
        self.pixels[idx]
    }
}

/// A fractional index lands inside the image: for `0 <= a < d`,
/// `a * w / d` lies in `[0, w)`.
proof fn lemma_frac_index_bounds(a: int, d: int, w: int)
    requires
        0 <= a < d,
        w >= 1,
        d >= 1,
    ensures
        0 <= a * w / d < w,
        a * w <= d * w,
{
    assert(0 <= a * w && a * w <= (d - 1) * w) by (nonlinear_arith)
        requires
            0 <= a < d,
            w >= 1,
    ;
    crate::num::lemma_div_magnitude(a * w, d);
    assert(a * w < w * d && a * w <= d * w) by (nonlinear_arith)
        requires
            0 <= a < d,
            w >= 1,
    ;
    crate::num::lemma_div_lt(a * w, d, w);
}

/// The read-only texture atlas: tiles and sprites hold keys into it.
pub struct TextureStore {
    pub images: Vec<Texture>,
}

impl TextureStore {
    /// Every image is well formed.
    pub open spec fn wf(&self) -> bool {
        forall|i: int| 0 <= i < self.images@.len() ==> (#[trigger] self.images@[i]).wf()
    }

    /// The image under a key, or `None` for an unknown key.
    pub fn get(&self, key: usize) -> (r: Option<&Texture>)
        ensures
            key < self.images@.len() ==> r == Some(&self.images@[key as int]),
            key >= self.images@.len() ==> r is None,
    {
        if key < self.images.len() {
            Some(&self.images[key])
        } else {
            None
        }
    }
}

/// The frame buffer: a rectangle of packed ARGB words.
pub struct ScreenBuffer {
    pub pixels: Vec<u32>,
    pub width: usize,
    pub height: usize,
}

impl ScreenBuffer {
    /// Well-formedness: bounded dimensions, row-major storage.
    pub open spec fn wf(&self) -> bool {
        &&& 1 <= self.width <= MAX_SCREEN_DIM
        &&& 1 <= self.height <= MAX_SCREEN_DIM
        &&& self.pixels@.len() == self.width * self.height
    }

    /// The packed pixel at `(x, y)`.
    pub open spec fn pixel_at(&self, x: int, y: int) -> u32 {
        self.pixels@[y * self.width + x]
    }

    /// A black buffer of the given size.
    pub fn new(width: usize, height: usize) -> (r: ScreenBuffer)
        requires
            1 <= width <= MAX_SCREEN_DIM,
            1 <= height <= MAX_SCREEN_DIM,
        ensures
            r.wf(),
            r.width == width,
            r.height == height,
            forall|i: int| 0 <= i < r.pixels@.len() ==> r.pixels@[i] == 0u32,
    {
        proof {
            assert(0 <= (width as int) * (height as int) <= 0x100_0000) by (nonlinear_arith)
                requires
                    1 <= width <= MAX_SCREEN_DIM,
                    1 <= height <= MAX_SCREEN_DIM,
            ;
        }
        let total: usize = width * height;
        let mut pixels: Vec<u32> = Vec::new();
        let mut i: usize = 0;
        while i < total
            invariant
                0 <= i <= total,
                pixels@.len() == i,
                forall|j: int| 0 <= j < i ==> pixels@[j] == 0u32,
            decreases total - i,
        {
            pixels.push(0);
            i += 1;
        }
        ScreenBuffer { pixels, width, height }
    }

    /// Number of columns.
    pub fn width(&self) -> (r: usize)
        ensures
            r == self.width,
    {
        self.width
    }

    /// Number of rows.
    pub fn height(&self) -> (r: usize)
        ensures
            r == self.height,
    {
        self.height
    }

    /// Linear index of `(x, y)`.
    pub fn xy_to_index(&self, x: usize, y: usize) -> (r: usize)
        requires
            self.wf(),
            x < self.width,
            y < self.height,
        ensures
            r == y * self.width + x,
            r < self.pixels@.len(),
    {
        proof {
            lemma_row_major_bounds(
                x as int,
                y as int,
                self.width as int,
                self.height as int,
            );
            assert((self.height as int) * (self.width as int) <= 0x100_0000) by (nonlinear_arith)
                requires
                    0 < self.width as int <= MAX_SCREEN_DIM as int,
                    0 < self.height as int <= MAX_SCREEN_DIM as int,
            ;
        }
        y * self.width + x
    }

    /// Linear index of `(x, y)`, clamped to the buffer length.
    pub fn xy_to_index_safe(&self, x: usize, y: usize) -> (r: usize)
        requires
            self.wf(),
        ensures
            r == if y * self.width + x < self.pixels@.len() {
                y * self.width + x
            } else {
                self.pixels@.len() as int
            },
    {
        proof {
            assert(0 <= (y as int) * (self.width as int) <= 0x1_0000_0000_0000_0000_0000)
                by (nonlinear_arith)
                requires
                    0 <= y as int <= 0xFFFF_FFFF_FFFF_FFFF,
                    0 <= self.width as int <= MAX_SCREEN_DIM as int,
            ;
        }
        let idx: u128 = (y as u128) * (self.width as u128) + (x as u128);
        if idx < self.pixels.len() as u128 {
            idx as usize
        } else {
            self.pixels.len()
        }
    }

    /// Writes one pixel; every other pixel is untouched.
    pub fn set_pixel(&mut self, x: usize, y: usize, color: Color)
        requires
            old(self).wf(),
            x < old(self).width,
            y < old(self).height,
        ensures
            final(self).wf(),
            final(self).width == old(self).width,
            final(self).height == old(self).height,
            final(self).pixel_at(x as int, y as int) == color_to_u32_spec(color),
            forall|xx: int, yy: int|
                0 <= xx < old(self).width && 0 <= yy < old(self).height && !(xx == x as int && yy
                    == y as int) ==> final(self).pixel_at(xx, yy) == old(self).pixel_at(xx, yy),
    {
        let idx = self.xy_to_index(x, y);
        let packed = color_to_u32(color);
        self.pixels[idx] = packed;
        proof {
            assert forall|xx: int, yy: int|
                0 <= xx < old(self).width && 0 <= yy < old(self).height && !(xx == x as int && yy
                    == y as int) implies final(self).pixel_at(xx, yy) == old(self).pixel_at(
                xx,
                yy,
            ) by {
                lemma_row_major_bounds(xx, yy, self.width as int, self.height as int);
                if yy * self.width + xx == y as int * self.width + x as int {
                    lemma_pixel_index_injective(
                        self.width as int,
                        xx,
                        yy,
                        x as int,
                        y as int,
                    );
                }
            }
        }
    }

    /// Fills the linear pixel range from index `(x_start, y_start)` up to
    /// (excluding) index `(x_end, y_end)` with one color.
    #[verifier::loop_isolation(false)]
    pub fn fill(&mut self, x_start: usize, y_start: usize, x_end: usize, y_end: usize, color: Color)
        requires
            old(self).wf(),
        ensures
            final(self).wf(),
            final(self).width == old(self).width,
            final(self).height == old(self).height,
            ({
                let lo = if y_start * old(self).width + x_start < old(self).pixels@.len() {
                    y_start * old(self).width + x_start
                } else {
                    old(self).pixels@.len() as int
                };
                let hi = if y_end * old(self).width + x_end < old(self).pixels@.len() {
                    y_end * old(self).width + x_end
                } else {
                    old(self).pixels@.len() as int
                };
                forall|i: int|
                    0 <= i < old(self).pixels@.len() ==> final(self).pixels@[i] == if lo <= i < hi {
                        color_to_u32_spec(color)
                    } else {
                        old(self).pixels@[i]
                    }
            }),
    {
        let lo = self.xy_to_index_safe(x_start, y_start);
        let hi = self.xy_to_index_safe(x_end, y_end);
        let packed = color_to_u32(color);
        let mut i = lo;
        while i < hi
            invariant
                lo <= i <= if hi >= lo {
                    hi as int
                } else {
                    lo as int
                },
                hi <= self.pixels@.len(),
                self.wf(),
                self.width == old(self).width,
                self.height == old(self).height,
                self.pixels@.len() == old(self).pixels@.len(),
                forall|j: int|
                    0 <= j < old(self).pixels@.len() ==> self.pixels@[j] == if lo <= j < i {
                        color_to_u32_spec(color)
                    } else {
                        old(self).pixels@[j]
                    },
            decreases hi - i,
        {
            self.pixels[i] = packed;
            i += 1;
        }
    }
}

/// Row-major indices stay inside the buffer.
proof fn lemma_row_major_bounds(x: int, y: int, w: int, h: int)
    requires
        0 <= x < w,
        0 <= y < h,
    ensures
        0 <= y * w + x < h * w,
{
    assert(0 <= y * w && (y + 1) * w <= h * w && (y + 1) * w == y * w + w) by (nonlinear_arith)
        requires
            0 <= y < h,
            w > 0,
    ;
}

/// Distinct on-screen coordinates have distinct row-major indices.
proof fn lemma_pixel_index_injective(w: int, x1: int, y1: int, x2: int, y2: int)
    requires
        0 <= x1 < w,
        0 <= x2 < w,
        0 <= y1,
        0 <= y2,
        y1 * w + x1 == y2 * w + x2,
    ensures
        x1 == x2,
        y1 == y2,
{
    lemma_fundamental_div_mod(y1 * w + x1, w);
    assert(y1 == (y1 * w + x1) / w && x1 == (y1 * w + x1) % w) by {
        vstd::arithmetic::div_mod::lemma_fundamental_div_mod_converse(y1 * w + x1, w, y1, x1);
    }
    assert(y2 == (y2 * w + x2) / w && x2 == (y2 * w + x2) % w) by {
        vstd::arithmetic::div_mod::lemma_fundamental_div_mod_converse(y2 * w + x2, w, y2, x2);
    }
}


/// The (unnormalized) ray direction of screen column `i`: the view
/// direction scaled by the projection-plane distance plus the rightward
/// screen axis scaled by the column's offset from the screen center.
/// Its slope equals `tan(heading - atan((i - w/2) / nc))`, so ray
/// spacing is uniform on the projection plane.
pub open spec fn column_ray_dir_spec(view: Vec2, nc: int, half_w: int, i: int) -> (int, int) {
    (nc * view.x + (i - half_w) * view.y, nc * view.y - (i - half_w) * view.x)
}

/// Computes the ray direction of screen column `i`.
pub fn column_ray_dir(view: Vec2, nc: i64, half_w: i64, i: i64) -> (dir: Vec2)
    requires
        0 < nc <= 4096,
        abs_int(view.x as int) <= FRAC_ONE,
        abs_int(view.y as int) <= FRAC_ONE,
        0 <= half_w <= 2048,
        0 <= i <= 4096,
    ensures
        (dir.x as int, dir.y as int) == column_ray_dir_spec(view, nc as int, half_w as int, i as int),
        abs_int(dir.x as int) <= crate::raycast::MAX_RAY_DIR,
        abs_int(dir.y as int) <= crate::raycast::MAX_RAY_DIR,
{
    proof {
        assert(abs_int((nc as int) * (view.x as int)) <= 0x1000_0000 && abs_int(
            (nc as int) * (view.y as int),
        ) <= 0x1000_0000 && abs_int((i as int - half_w as int) * (view.y as int)) <= 0x1000_0000
            && abs_int((i as int - half_w as int) * (view.x as int)) <= 0x1000_0000)
            by (nonlinear_arith)
            requires
                0 < nc <= 4096,
                abs_int(view.x as int) <= FRAC_ONE,
                abs_int(view.y as int) <= FRAC_ONE,
                abs_int(i as int - half_w as int) <= 4096,
        ;
    }
    let off: i64 = i - half_w;
    Vec2 { x: nc * view.x + off * view.y, y: nc * view.y - off * view.x }
}

/// The fisheye-corrected depth of a hit: the projection of the hit
/// vector onto the view axis, `dot(point - pos, view) / FRAC_ONE`, which
/// equals the radial distance times the cosine of the ray's angular
/// offset from the view direction.
pub open spec fn corrected_distance_spec(point: Vec2, pos: Vec2, view: Vec2) -> int {
    ((point.x - pos.x) * view.x + (point.y - pos.y) * view.y) / (FRAC_ONE as int)
}

/// Computes the fisheye-corrected depth of a hit point.
pub fn corrected_distance(point: Vec2, pos: Vec2, view: Vec2) -> (r: i64)
    requires
        abs_int(point.x as int) <= 0x10_0000_0000_0000,
        abs_int(point.y as int) <= 0x10_0000_0000_0000,
        abs_int(pos.x as int) <= 0x10_0000_0000_0000,
        abs_int(pos.y as int) <= 0x10_0000_0000_0000,
        abs_int(view.x as int) <= FRAC_ONE,
        abs_int(view.y as int) <= FRAC_ONE,
    ensures
        r == corrected_distance_spec(point, pos, view),
{
    let dx: i128 = point.x as i128 - pos.x as i128;
    let dy: i128 = point.y as i128 - pos.y as i128;
    proof {
        assert(abs_int(dx as int * (view.x as int)) <= 590295810358705651712 && abs_int(
            dy as int * (view.y as int),
        ) <= 590295810358705651712) by (nonlinear_arith)
            requires
                abs_int(dx as int) <= 0x20_0000_0000_0000,
                abs_int(dy as int) <= 0x20_0000_0000_0000,
                abs_int(view.x as int) <= FRAC_ONE,
                abs_int(view.y as int) <= FRAC_ONE,
        ;
    }
    let dot: i128 = dx * (view.x as i128) + dy * (view.y as i128);
    proof {
        crate::num::lemma_div_magnitude(dot as int, FRAC_ONE as int);
        vstd::arithmetic::div_mod::lemma_div_is_ordered(
            dot as int,
            2361183241434822606848,
            FRAC_ONE as int,
        );
        vstd::arithmetic::div_mod::lemma_div_is_ordered(
            -2361183241434822606848,
            dot as int,
            FRAC_ONE as int,
        );
        assert(2361183241434822606848int / 65536int == 36028797018963968int) by (nonlinear_arith);
        assert((-2361183241434822606848int) / 65536int == -36028797018963968int) by (nonlinear_arith);
    }
    let q: i128 = dot.checked_div_euclid(FRAC_ONE as i128).unwrap();
    q as i64
}

/// The top of a strip of height `sh` centered on a screen of height `h`.
pub open spec fn strip_top_spec(h: int, sh: int) -> int {
    (h - sh) / 2
}

/// The pixel a wall strip paints at screen row `y`: the texel under the
/// strip-relative coordinates (or white for an untextured tile), shaded.
pub open spec fn wall_pixel_spec(
    tex: Option<&Texture>,
    u_num: int,
    u_den: int,
    y: int,
    y_top: int,
    sh: int,
    factor: int,
) -> Color {
    let base = match tex {
        Some(t) => t.sample_spec(u_num, u_den, y - y_top, sh),
        None => Color { r: 255, g: 255, b: 255, a: 255 },
    };
    shade_spec(base, factor)
}

/// Draws one vertical wall strip into column `x`: the strip of height
/// `strip_height` centered vertically, clipped to the screen, textured
/// by the fractional `u` coordinate and shaded by `factor`.  Pixels
/// outside the strip are untouched.
#[verifier::loop_isolation(false)]
pub fn draw_wall_column(
    buf: &mut ScreenBuffer,
    x: usize,
    strip_height: i64,
    tex: Option<&Texture>,
    u_num: i64,
    u_den: i64,
    factor: i64,
)
    requires
        old(buf).wf(),
        x < old(buf).width,
        0 <= strip_height <= 0x100_0000_0000,
        0 <= u_num < u_den <= 0x100_0000_0000,
        0 <= factor <= FRAC_ONE,
        tex is Some ==> tex->0.wf(),
    ensures
        final(buf).wf(),
        final(buf).width == old(buf).width,
        final(buf).height == old(buf).height,
        ({
            let y_top = strip_top_spec(old(buf).height as int, strip_height as int);
            let lo = if y_top > 0 {
                y_top
            } else {
                0
            };
            let hi = if y_top + strip_height < old(buf).height as int {
                y_top + strip_height
            } else {
                old(buf).height as int
            };
            forall|xx: int, yy: int|
                0 <= xx < old(buf).width && 0 <= yy < old(buf).height
                    ==> #[trigger] final(buf).pixel_at(xx, yy) == if xx == x as int && lo <= yy
                    < hi {
                    color_to_u32_spec(
                        wall_pixel_spec(
                            tex,
                            u_num as int,
                            u_den as int,
                            yy,
                            y_top,
                            strip_height as int,
                            factor as int,
                        ),
                    )
                } else {
                    old(buf).pixel_at(xx, yy)
                }
        }),
{
    let h: i64 = buf.height() as i64;
    let y_top: i64 = div_floor(h - strip_height, 2);
    let lo: i64 = if y_top > 0 {
        y_top
    } else {
        0
    };
    let hi_raw: i64 = y_top + strip_height;
    let hi: i64 = if hi_raw < h {
        hi_raw
    } else {
        h
    };
    let mut y: i64 = lo;
    while y < hi
        invariant
            lo <= y <= if hi >= lo {
                hi as int
            } else {
                lo as int
            },
            buf.wf(),
            buf.width == old(buf).width,
            buf.height == old(buf).height,
            forall|xx: int, yy: int|
                0 <= xx < old(buf).width && 0 <= yy < old(buf).height
                    ==> #[trigger] buf.pixel_at(xx, yy) == if xx == x as int && lo <= yy < y {
                    color_to_u32_spec(
                        wall_pixel_spec(
                            tex,
                            u_num as int,
                            u_den as int,
                            yy,
                            y_top as int,
                            strip_height as int,
                            factor as int,
                        ),
                    )
                } else {
                    old(buf).pixel_at(xx, yy)
                },
        decreases hi - y,
    {
        let base: Color = match tex {
            Some(t) => t.sample(u_num, u_den, y - y_top, strip_height),
            None => Color { r: 255, g: 255, b: 255, a: 255 },
        };
        let c = shade(base, factor);
        buf.set_pixel(x, y as usize, c);
        y += 1;
    }
}

/// Draws one vertical sprite strip of height `sh` into column `x`, a
/// flat color, centered vertically and clipped to the screen; every
/// other pixel is untouched.
#[verifier::loop_isolation(false)]
fn draw_sprite_column(buf: &mut ScreenBuffer, x: usize, sh: i64, color: Color)
    requires
        old(buf).wf(),
        x < old(buf).width,
        0 <= sh <= 0x100_0000_0000,
    ensures
        final(buf).wf(),
        final(buf).width == old(buf).width,
        final(buf).height == old(buf).height,
        ({
            let y_top = strip_top_spec(old(buf).height as int, sh as int);
            forall|xx: int, yy: int|
                0 <= xx < old(buf).width && 0 <= yy < old(buf).height
                    ==> #[trigger] final(buf).pixel_at(xx, yy) == if xx == x as int && y_top <= yy
                    < y_top + sh {
                    color_to_u32_spec(color)
                } else {
                    old(buf).pixel_at(xx, yy)
                }
        }),
{
    let h: i64 = buf.height() as i64;
    let y_top: i64 = div_floor(h - sh, 2);
    let lo: i64 = if y_top > 0 {
        y_top
    } else {
        0
    };
    let hi_raw: i64 = y_top + sh;
    let hi: i64 = if hi_raw < h {
        hi_raw
    } else {
        h
    };
    let mut y: i64 = lo;
    while y < hi
        invariant
            lo <= y <= if hi >= lo {
                hi as int
            } else {
                lo as int
            },
            buf.wf(),
            buf.width == old(buf).width,
            buf.height == old(buf).height,
            forall|xx: int, yy: int|
                0 <= xx < old(buf).width && 0 <= yy < old(buf).height
                    ==> #[trigger] buf.pixel_at(xx, yy) == if xx == x as int && lo <= yy < y {
                    color_to_u32_spec(color)
                } else {
                    old(buf).pixel_at(xx, yy)
                },
        decreases hi - y,
    {
        buf.set_pixel(x, y as usize, color);
        y += 1;
    }
}

/// How far in front of the view plane a sprite stands: the dot product
/// of its offset from the viewer with the `FRAC_ONE`-scaled view
/// direction.  Positive in front, nonpositive behind.
pub open spec fn sprite_view_depth_spec(sprite_pos: Vec2, pos: Vec2, view: Vec2) -> int {
    (sprite_pos.x - pos.x) * view.x + (sprite_pos.y - pos.y) * view.y
}

/// The screen column under a sprite's center:
/// `half_w - nc * tan(angle between the sprite and the view axis)`,
/// the tangent written as the exact ratio of the offset's cross and dot
/// products with the view direction.
pub open spec fn sprite_screen_center_spec(
    sprite_pos: Vec2,
    pos: Vec2,
    view: Vec2,
    nc: int,
    half_w: int,
) -> int {
    half_w - nc * ((sprite_pos.y - pos.y) * view.x - (sprite_pos.x - pos.x) * view.y)
        / sprite_view_depth_spec(sprite_pos, pos, view)
}

/// A billboard's on-screen height and width: the same
/// `nc * wall_height / distance` formula the wall strips use.
pub open spec fn sprite_size_spec(nc: int, wall_height: int, distance: int) -> int {
    nc * wall_height / distance
}

/// Depth-composites one sprite billboard.  Nothing is drawn unless some
/// ray of the frame stepped through the sprite's cached cell; a pixel
/// changes only in a span column whose wall hit is strictly farther than
/// the sprite, taking the sprite's flat color; and wherever the sprite
/// is visible, in front of the view plane, and strictly nearer than the
/// column's wall, its whole clipped strip is painted.
#[verifier::loop_isolation(false)]
pub fn draw_sprite(
    buf: &mut ScreenBuffer,
    sprite: &crate::level::LevelSprite,
    raycasts: &crate::raycast::LevelRaycastResults,
    pos: Vec2,
    view: Vec2,
    nc: i64,
    wall_height: i64,
    color: Color,
)
    requires
        old(buf).wf(),
        raycasts.hits@.len() >= old(buf).width,
        abs_int(sprite.pos.x as int) <= 0x10_0000_0000_0000,
        abs_int(sprite.pos.y as int) <= 0x10_0000_0000_0000,
        abs_int(pos.x as int) <= 0x10_0000_0000_0000,
        abs_int(pos.y as int) <= 0x10_0000_0000_0000,
        abs_int(view.x as int) <= FRAC_ONE,
        abs_int(view.y as int) <= FRAC_ONE,
        0 < nc <= 4096,
        0 < wall_height <= 0x10_0000,
        sprite.distance_to_player >= 0,
    ensures
        final(buf).wf(),
        final(buf).width == old(buf).width,
        final(buf).height == old(buf).height,
        !raycasts.visited_contains(sprite.coords) ==> final(buf).pixels@ == old(buf).pixels@,
        forall|xx: int, yy: int|
            0 <= xx < old(buf).width && 0 <= yy < old(buf).height && #[trigger] final(buf).pixel_at(xx, yy) != old(buf).pixel_at(xx, yy) ==> {
                &&& raycasts.visited_contains(sprite.coords)
                &&& raycasts.hits@[xx].distance > sprite.distance_to_player
                &&& final(buf).pixel_at(xx, yy) == color_to_u32_spec(color)
            },
        raycasts.visited_contains(sprite.coords) && sprite.distance_to_player > 0
            && sprite_view_depth_spec(sprite.pos, pos, view) > 0 ==> ({
            let sh = sprite_size_spec(nc as int, wall_height as int, sprite.distance_to_player as int);
            let center = sprite_screen_center_spec(
                sprite.pos,
                pos,
                view,
                nc as int,
                old(buf).width as int / 2,
            );
            let span_start = center - sh / 2;
            let y_top = strip_top_spec(old(buf).height as int, sh);
            forall|xx: int, yy: int|
                0 <= xx < old(buf).width && 0 <= yy < old(buf).height && span_start <= xx
                    < span_start + sh && raycasts.hits@[xx].distance > sprite.distance_to_player
                    && y_top <= yy < y_top + sh ==> #[trigger] final(buf).pixel_at(xx, yy)
                    == color_to_u32_spec(color)
        }),
{
    if !crate::raycast::is_sprite_visible(sprite, raycasts) {
        return ;
    }
    if sprite.distance_to_player <= 0 {
        return ;
    }
    proof {
        lemma_muldiv_bound(nc as int, wall_height as int, sprite.distance_to_player as int);
        vstd::arithmetic::mul::lemma_mul_upper_bound(
            abs_int(nc as int),
            4096,
            abs_int(wall_height as int),
            0x10_0000,
        );
    }
    let sh: i64 = muldiv(nc, wall_height, sprite.distance_to_player);
    proof {
        assert(sh as int == sprite_size_spec(
            nc as int,
            wall_height as int,
            sprite.distance_to_player as int,
        ));
    }
    let width128: i128 = sh as i128;
    // screen column under the sprite center:
    // half_w - nc * tan(angle between the sprite and the view axis)
    let dx: i128 = sprite.pos.x as i128 - pos.x as i128;
    let dy: i128 = sprite.pos.y as i128 - pos.y as i128;
    proof {
        assert(abs_int(dy as int * (view.x as int)) <= 0x2_0000_0000_0000_0000_0000 && abs_int(
            dx as int * (view.y as int),
        ) <= 0x2_0000_0000_0000_0000_0000 && abs_int(dx as int * (view.x as int))
            <= 0x2_0000_0000_0000_0000_0000 && abs_int(dy as int * (view.y as int))
            <= 0x2_0000_0000_0000_0000_0000) by (nonlinear_arith)
            requires
                abs_int(dx as int) <= 0x20_0000_0000_0000,
                abs_int(dy as int) <= 0x20_0000_0000_0000,
                abs_int(view.x as int) <= FRAC_ONE,
                abs_int(view.y as int) <= FRAC_ONE,
        ;
    }
    let t_num: i128 = dy * (view.x as i128) - dx * (view.y as i128);
    let denom: i128 = dx * (view.x as i128) + dy * (view.y as i128);
    // sprite on or behind the view plane: skip
    if denom <= 0 {
        return ;
    }
    let half_w: i128 = (buf.width() / 2) as i128;
    proof {
        assert(abs_int((nc as int) * (t_num as int)) <= 0x4000_0000_0000_0000_0000_0000)
            by (nonlinear_arith)
            requires
                0 < nc <= 4096,
                abs_int(t_num as int) <= 0x4_0000_0000_0000_0000_0000,
        ;
        crate::num::lemma_div_magnitude((nc as int) * (t_num as int), denom as int);
    }
    let shift: i128 = ((nc as i128) * t_num).checked_div_euclid(denom).unwrap();
    let center: i128 = half_w - shift;
    let half_width: i128 = (crate::num::div_floor(sh, 2)) as i128;
    let start: i128 = center - half_width;
    let end: i128 = start + width128;
    proof {
        assert(center as int == sprite_screen_center_spec(
            sprite.pos,
            pos,
            view,
            nc as int,
            old(buf).width as int / 2,
        ));
    }
    let w: i128 = buf.width() as i128;
    let lo: i128 = if start > 0 {
        start
    } else {
        0
    };
    let hi: i128 = if end < w {
        end
    } else {
        w
    };
    let ghost y_top = strip_top_spec(old(buf).height as int, sh as int);
    let mut i: i128 = lo;
    while i < hi
        invariant
            lo <= i <= if hi >= lo {
                hi as int
            } else {
                lo as int
            },
            0 <= lo,
            lo == if start > 0 {
                start as int
            } else {
                0int
            },
            hi <= buf.width as int,
            hi == if end < buf.width as int {
                end as int
            } else {
                buf.width as int
            },
            buf.wf(),
            buf.width == old(buf).width,
            buf.height == old(buf).height,
            raycasts.visited_contains(sprite.coords),
            forall|xx: int, yy: int|
                0 <= xx < old(buf).width && 0 <= yy < old(buf).height && #[trigger] buf.pixel_at(
                    xx,
                    yy,
                ) != old(buf).pixel_at(xx, yy) ==> {
                    &&& raycasts.hits@[xx].distance > sprite.distance_to_player
                    &&& buf.pixel_at(xx, yy) == color_to_u32_spec(color)
                },
            forall|xx: int, yy: int|
                0 <= xx < old(buf).width && 0 <= yy < old(buf).height && lo <= xx < i
                    && raycasts.hits@[xx].distance > sprite.distance_to_player && y_top <= yy
                    < y_top + sh ==> #[trigger] buf.pixel_at(xx, yy) == color_to_u32_spec(color),
        decreases hi - i,
    {
        let col: usize = i as usize;
        let hit = raycasts.hits[col];
        if hit.distance > sprite.distance_to_player {
            draw_sprite_column(buf, col, sh, color);
        }
        i += 1;
    }
}

/// A fixed-point viewport transform for overview drawing: world
/// positions scaled by `scale / FRAC_ONE` around a pivot, with `y`
/// flipped.
#[derive(Clone, Copy, Debug, PartialEq, Eq, Structural)]
pub struct Viewport2D {
    pub size: Vec2,
    pub pivot: Vec2,
    pub scale: i64,
}

impl Viewport2D {
    /// Builds a viewport.
    pub fn new(pivot: Vec2, size: Vec2, scale: i64) -> (v: Viewport2D)
        ensures
            v == (Viewport2D { size, pivot, scale }),
    {
        Viewport2D { pivot, size, scale }
    }

    /// Maps a world position into viewport pixels:
    /// `pivot + (pos.x, -pos.y) * scale / FRAC_ONE + size / 2`.
    pub fn world_to_viewport(&self, pos: Vec2) -> (r: Vec2)
        requires
            abs_int(pos.x as int) <= 0x1_0000_0000_0000,
            abs_int(pos.y as int) <= 0x1_0000_0000_0000,
            abs_int(self.scale as int) <= FRAC_ONE,
            abs_int(self.pivot.x as int) <= 0x1_0000_0000_0000,
            abs_int(self.pivot.y as int) <= 0x1_0000_0000_0000,
            abs_int(self.size.x as int) <= 0x1_0000_0000_0000,
            abs_int(self.size.y as int) <= 0x1_0000_0000_0000,
        ensures
            r.x == self.pivot.x + muldiv_spec(pos.x as int, self.scale as int, FRAC_ONE as int)
                + self.size.x as int / 2,
            r.y == self.pivot.y - muldiv_spec(pos.y as int, self.scale as int, FRAC_ONE as int)
                + self.size.y as int / 2,
    {
        proof {
            vstd::arithmetic::mul::lemma_mul_upper_bound(
                abs_int(pos.x as int),
                0x1_0000_0000_0000,
                abs_int(self.scale as int),
                FRAC_ONE as int,
            );
            vstd::arithmetic::mul::lemma_mul_upper_bound(
                abs_int(pos.y as int),
                0x1_0000_0000_0000,
                abs_int(self.scale as int),
                FRAC_ONE as int,
            );
            assert(abs_int(pos.x as int) * abs_int(self.scale as int)
                <= 0x1_0000_0000_0000_0000);
            assert(abs_int(pos.y as int) * abs_int(self.scale as int)
                <= 0x1_0000_0000_0000_0000);
            crate::num::lemma_muldiv_div_bound(
                pos.x as int,
                self.scale as int,
                FRAC_ONE as int,
                0x1_0000_0000_0000_0000,
            );
            crate::num::lemma_muldiv_div_bound(
                pos.y as int,
                self.scale as int,
                FRAC_ONE as int,
                0x1_0000_0000_0000_0000,
            );
            assert(0x1_0000_0000_0000_0000int / 65536int == 0x1_0000_0000_0000int);
        }
        let sx = muldiv(pos.x, self.scale, FRAC_ONE);
        let sy = muldiv(pos.y, self.scale, FRAC_ONE);
        let hx = div_floor(self.size.x, 2);
        let hy = div_floor(self.size.y, 2);
        Vec2 { x: self.pivot.x + sx + hx, y: self.pivot.y - sy + hy }
    }

    /// The top-left corner of a rectangle given by center and size, in
    /// the world's y-up convention.
    pub fn rect_top_left(center: Vec2, size: Vec2) -> (r: Vec2)
        requires
            abs_int(center.x as int) <= 0x1_0000_0000_0000,
            abs_int(center.y as int) <= 0x1_0000_0000_0000,
            0 <= size.x <= 0x1_0000_0000_0000,
            0 <= size.y <= 0x1_0000_0000_0000,
        ensures
            r.x == center.x - size.x as int / 2,
            r.y == center.y + size.y as int / 2,
    {
        let hx = div_floor(size.x, 2);
        let hy = div_floor(size.y, 2);
        Vec2 { x: center.x - hx, y: center.y + hy }
    }
}


/// The ray direction of screen column `i` as a vector value.
pub open spec fn column_ray_dir_vec(view: Vec2, nc: int, half_w: int, i: int) -> Vec2 {
    let d = column_ray_dir_spec(view, nc, half_w, i);
    Vec2 { x: d.0 as i64, y: d.1 as i64 }
}

/// The hit of screen column `i`'s ray, as a function of the frame's
/// inputs.
pub open spec fn column_hit(
    level: Level,
    pos: Vec2,
    view: Vec2,
    nc: int,
    half_w: int,
    i: int,
) -> crate::raycast::RaycastGridResult {
    crate::raycast::cast_hit(level, pos, column_ray_dir_vec(view, nc, half_w, i))
}

/// The fisheye-corrected wall depth of screen column `i`.
pub open spec fn column_corrected(
    level: Level,
    pos: Vec2,
    view: Vec2,
    nc: int,
    half_w: int,
    i: int,
) -> int {
    corrected_distance_spec(column_hit(level, pos, view, nc, half_w, i).point, pos, view)
}

/// The cells stepped by the first `n` columns' rays of a frame, in
/// column order.
pub open spec fn frame_cells(
    level: Level,
    pos: Vec2,
    view: Vec2,
    nc: int,
    half_w: int,
    n: int,
) -> Seq<crate::grid::GridCoords>
    decreases n,
{
    if n <= 0 {
        Seq::empty()
    } else {
        frame_cells(level, pos, view, nc, half_w, n - 1) + crate::raycast::cast_cells(
            level,
            pos,
            column_ray_dir_vec(view, nc, half_w, n - 1),
        )
    }
}

/// Whether `(i, yy)` lies in the wall strip of column `i`: the column's
/// corrected depth is positive and `yy` lies in the vertical strip of
/// height `nc * wall_height / corrected` centered on the screen.
pub open spec fn frame_wall_strip(
    level: Level,
    pos: Vec2,
    view: Vec2,
    nc: int,
    half_w: int,
    wall_height: int,
    height: int,
    i: int,
    yy: int,
) -> bool {
    let corrected = column_corrected(level, pos, view, nc, half_w, i);
    let sh = nc * wall_height / corrected;
    let y_top = strip_top_spec(height, sh);
    corrected > 0 && y_top <= yy < y_top + sh
}

/// The pixel the wall pass paints at `(i, yy)`: the hit tile's texture
/// sampled by the strip-relative coordinates (white when the tile is
/// untextured or off the grid), shaded by distance and family.
pub open spec fn frame_wall_pixel(
    textures: TextureStore,
    level: Level,
    pos: Vec2,
    view: Vec2,
    nc: int,
    half_w: int,
    wall_height: int,
    shadow_decay: int,
    height: int,
    i: int,
    yy: int,
) -> Color {
    let hit = column_hit(level, pos, view, nc, half_w, i);
    let corrected = column_corrected(level, pos, view, nc, half_w, i);
    let sh = nc * wall_height / corrected;
    let y_top = strip_top_spec(height, sh);
    let factor = color_factor_spec(corrected, shadow_decay, hit.is_horizontal_hit);
    let u = if hit.is_horizontal_hit {
        hit.point.x as int % level.tile_size as int
    } else {
        hit.point.y as int % level.tile_size as int
    };
    let base = if level.in_bounds(hit.coord.x as int, hit.coord.y as int) && level.block_at(
        hit.coord.x as int,
        hit.coord.y as int,
    ) is Wall && (level.block_at(hit.coord.x as int, hit.coord.y as int)->0 as int)
        < textures.images@.len() {
        textures.images@[level.block_at(hit.coord.x as int, hit.coord.y as int)->0 as int].sample_spec(
            u,
            level.tile_size as int,
            yy - y_top,
            sh,
        )
    } else {
        Color { r: 255, g: 255, b: 255, a: 255 }
    };
    shade_spec(base, factor)
}

/// The flat fill color sprites are composited with.
pub open spec fn sprite_fill_color() -> Color {
    Color { r: 0, g: 0, b: 255, a: 255 }
}

/// A sprite pixel in column `xx` is accounted for: some sprite's cached
/// cell was stepped by a ray of this frame, and that sprite is strictly
/// nearer than the column's wall hit.
pub open spec fn sprite_justifies(
    sprites: Seq<crate::level::LevelSprite>,
    hits: Seq<crate::raycast::RaycastGridResult>,
    visited: Seq<crate::grid::GridCoords>,
    xx: int,
) -> bool {
    exists|j: int|
        0 <= j < sprites.len() && visited.contains((#[trigger] sprites[j]).coords) && 0 <= xx
            < hits.len() && hits[xx].distance > sprites[j].distance_to_player
}

/// Renders one frame of the first-person view: clears the session, casts
/// one ray per screen column (the fan uniform on the projection plane),
/// draws each hit as a fisheye-corrected, shaded, textured vertical
/// strip, then recomputes sprite distances, orders the sprites back to
/// front and depth-composites the visible ones against the per-column
/// wall depths.  `view_dir` is the heading's `(cos, sin) * FRAC_ONE`
/// pair and `nc` the projection-plane distance, both evaluated by the
/// caller; `shadow_decay` is the distance at which wall shading starts.
///
/// The contract pins the frame: the session is rebuilt from scratch
/// (`hits` holds exactly one closed-form hit per column, `visited`
/// exactly the cells this frame's rays stepped), every wall-strip pixel
/// is the column's shaded texel unless a justified sprite covered it,
/// and any other pixel change is a sprite pixel in a column whose wall
/// is strictly farther than some sprite whose cell a ray stepped.
#[verifier::loop_isolation(false)]
#[verifier::rlimit(100)]
pub fn draw_3d_level(
    screen_buf: &mut ScreenBuffer,
    level: &mut Level,
    raycaster: &mut crate::raycast::LevelRaycastResults,
    player: &crate::player::PlayerBundle,
    textures: &TextureStore,
    view_dir: Vec2,
    nc: i64,
    shadow_decay: i64,
)
    requires
        old(screen_buf).wf(),
        old(screen_buf).width <= 4096,
        old(level).grid_wf(),
        textures.wf(),
        abs_int(player.transform.pos.x as int) <= crate::player::MAX_PLAYER_POS,
        abs_int(player.transform.pos.y as int) <= crate::player::MAX_PLAYER_POS,
        abs_int(view_dir.x as int) <= FRAC_ONE,
        abs_int(view_dir.y as int) <= FRAC_ONE,
        0 < nc <= 4096,
        0 <= shadow_decay <= 0x10_0000,
        forall|i: int|
            0 <= i < old(level).sprites@.len() ==> abs_int(
                (#[trigger] old(level).sprites@[i]).pos.x as int,
            ) <= crate::player::MAX_PLAYER_POS && abs_int(old(level).sprites@[i].pos.y as int)
                <= crate::player::MAX_PLAYER_POS,
    ensures
        final(screen_buf).wf(),
        final(screen_buf).width == old(screen_buf).width,
        final(screen_buf).height == old(screen_buf).height,
        final(level).grid == old(level).grid,
        final(level).tile_size == old(level).tile_size,
        final(level).sprites@.len() == old(level).sprites@.len(),
        crate::level::sorted_back_to_front(final(level).sprites@),
        final(raycaster).hits@.len() == old(screen_buf).width,
        forall|i: int|
            0 <= i < old(screen_buf).width ==> #[trigger] final(raycaster).hits@[i] == column_hit(
                *old(level),
                player.transform.pos,
                view_dir,
                nc as int,
                old(screen_buf).width as int / 2,
                i,
            ),
        final(raycaster).visited@ == frame_cells(
            *old(level),
            player.transform.pos,
            view_dir,
            nc as int,
            old(screen_buf).width as int / 2,
            old(screen_buf).width as int,
        ),
        forall|i: int, yy: int|
            0 <= i < old(screen_buf).width && 0 <= yy < old(screen_buf).height && frame_wall_strip(
                *old(level),
                player.transform.pos,
                view_dir,
                nc as int,
                old(screen_buf).width as int / 2,
                old(level).tile_size as int,
                old(screen_buf).height as int,
                i,
                yy,
            ) ==> #[trigger] final(screen_buf).pixel_at(i, yy) == color_to_u32_spec(
                frame_wall_pixel(
                    *textures,
                    *old(level),
                    player.transform.pos,
                    view_dir,
                    nc as int,
                    old(screen_buf).width as int / 2,
                    old(level).tile_size as int,
                    shadow_decay as int,
                    old(screen_buf).height as int,
                    i,
                    yy,
                ),
            ) || (final(screen_buf).pixel_at(i, yy) == color_to_u32_spec(sprite_fill_color())
                && sprite_justifies(
                final(level).sprites@,
                final(raycaster).hits@,
                final(raycaster).visited@,
                i,
            )),
        forall|xx: int, yy: int|
            0 <= xx < old(screen_buf).width && 0 <= yy < old(screen_buf).height && #[trigger] final(screen_buf).pixel_at(xx, yy) != old(screen_buf).pixel_at(xx, yy) ==> ({
                ||| frame_wall_strip(
                    *old(level),
                    player.transform.pos,
                    view_dir,
                    nc as int,
                    old(screen_buf).width as int / 2,
                    old(level).tile_size as int,
                    old(screen_buf).height as int,
                    xx,
                    yy,
                ) && final(screen_buf).pixel_at(xx, yy) == color_to_u32_spec(
                    frame_wall_pixel(
                        *textures,
                        *old(level),
                        player.transform.pos,
                        view_dir,
                        nc as int,
                        old(screen_buf).width as int / 2,
                        old(level).tile_size as int,
                        shadow_decay as int,
                        old(screen_buf).height as int,
                        xx,
                        yy,
                    ),
                )
                ||| final(screen_buf).pixel_at(xx, yy) == color_to_u32_spec(sprite_fill_color())
                    && sprite_justifies(
                    final(level).sprites@,
                    final(raycaster).hits@,
                    final(raycaster).visited@,
                    xx,
                )
            }),
{
    let screen_width = screen_buf.width();
    let wall_height = level.tile_size;
    let half_w: i64 = (screen_width / 2) as i64;
    let pos = player.transform.pos;
    let ts = level.tile_size;
    raycaster.clear();
    let ghost level0 = *level;
    proof {
        assert(raycaster.visited@ =~= frame_cells(
            level0,
            pos,
            view_dir,
            nc as int,
            half_w as int,
            0,
        ));
    }
    let mut i: usize = 0;
    while i < screen_width
        invariant
            0 <= i <= screen_width,
            raycaster.hits@.len() == i,
            *level == level0,
            screen_buf.wf(),
            screen_buf.width == old(screen_buf).width,
            screen_buf.height == old(screen_buf).height,
            forall|j: int|
                0 <= j < i ==> #[trigger] raycaster.hits@[j] == column_hit(
                    level0,
                    pos,
                    view_dir,
                    nc as int,
                    half_w as int,
                    j,
                ),
            raycaster.visited@ == frame_cells(
                level0,
                pos,
                view_dir,
                nc as int,
                half_w as int,
                i as int,
            ),
            forall|xx: int, yy: int|
                0 <= xx < old(screen_buf).width && 0 <= yy < old(screen_buf).height
                    ==> #[trigger] screen_buf.pixel_at(xx, yy) == if xx < i && frame_wall_strip(
                    level0,
                    pos,
                    view_dir,
                    nc as int,
                    half_w as int,
                    wall_height as int,
                    old(screen_buf).height as int,
                    xx,
                    yy,
                ) {
                    color_to_u32_spec(
                        frame_wall_pixel(
                            *textures,
                            level0,
                            pos,
                            view_dir,
                            nc as int,
                            half_w as int,
                            wall_height as int,
                            shadow_decay as int,
                            old(screen_buf).height as int,
                            xx,
                            yy,
                        ),
                    )
                } else {
                    old(screen_buf).pixel_at(xx, yy)
                },
        decreases screen_width - i,
    {
        let dir = column_ray_dir(view_dir, nc, half_w, i as i64);
        proof {
            assert(dir == column_ray_dir_vec(view_dir, nc as int, half_w as int, i as int));
        }
        let hit = crate::raycast::raycast_level(raycaster, level, pos, dir);
        proof {
            assert(hit == column_hit(level0, pos, view_dir, nc as int, half_w as int, i as int));
            assert(frame_cells(level0, pos, view_dir, nc as int, half_w as int, i as int + 1)
                == frame_cells(level0, pos, view_dir, nc as int, half_w as int, i as int)
                + crate::raycast::cast_cells(level0, pos, dir));
        }
        let corrected = corrected_distance(hit.point, pos, view_dir);
        proof {
            assert(corrected as int == column_corrected(
                level0,
                pos,
                view_dir,
                nc as int,
                half_w as int,
                i as int,
            ));
        }
        if corrected > 0 {
            proof {
                lemma_muldiv_bound(nc as int, wall_height as int, corrected as int);
                vstd::arithmetic::mul::lemma_mul_upper_bound(
                    abs_int(nc as int),
                    4096,
                    abs_int(wall_height as int),
                    0x10_0000,
                );
            }
            let strip_height = muldiv(nc, wall_height, corrected);
            proof {
                assert(strip_height as int == (nc as int) * (wall_height as int) / (
                corrected as int));
            }
            let factor = color_factor(corrected, shadow_decay, hit.is_horizontal_hit);
            let u_rem: i64 = if hit.is_horizontal_hit {
                crate::num::rem_floor(hit.point.x, ts)
            } else {
                crate::num::rem_floor(hit.point.y, ts)
            };
            let tex: Option<&Texture> = match level.get_tile(hit.coord.x, hit.coord.y) {
                Some(LevelBlock::Wall(m)) => textures.get(m as usize),
                _ => None,
            };
            let ghost pre = *screen_buf;
            draw_wall_column(screen_buf, i, strip_height, tex, u_rem, ts, factor);
            proof {
                let h0 = old(screen_buf).height as int;
                let y_top = strip_top_spec(h0, strip_height as int);
                assert forall|yy: int| y_top <= yy < y_top + strip_height implies wall_pixel_spec(
                    tex,
                    u_rem as int,
                    ts as int,
                    yy,
                    y_top,
                    strip_height as int,
                    factor as int,
                ) == frame_wall_pixel(
                    *textures,
                    level0,
                    pos,
                    view_dir,
                    nc as int,
                    half_w as int,
                    wall_height as int,
                    shadow_decay as int,
                    h0,
                    i as int,
                    yy,
                ) by {
                    assert(u_rem as int == if hit.is_horizontal_hit {
                        hit.point.x as int % level0.tile_size as int
                    } else {
                        hit.point.y as int % level0.tile_size as int
                    });
                }
            }
        }
        i += 1;
    }
    let ghost ray1 = *raycaster;
    crate::level::update_sprite_distances(level, pos);
    crate::level::sort_sprites_by_distance(level);
    proof {
        assert forall|i2: int|
            0 <= i2 < level.sprites@.len() implies (#[trigger] level.sprites@[i2]).distance_to_player
            >= 0 && abs_int(level.sprites@[i2].pos.x as int) <= 0x10_0000_0000_0000 && abs_int(
            level.sprites@[i2].pos.y as int,
        ) <= 0x10_0000_0000_0000 by {
            let x = level.sprites@[i2];
            assert(level.sprites@.contains(x));
            let mid = choose|j: int|
                0 <= j < level.sprites@.len() && #[trigger] level.sprites@[j] == x;
        }
    }
    let ghost level1 = *level;
    let ghost buf1 = *screen_buf;
    let sprite_color = Color { r: 0, g: 0, b: 255, a: 255 };
    proof {
        assert(sprite_color == sprite_fill_color());
    }
    let n = level.sprites.len();
    let mut s: usize = 0;
    while s < n
        invariant
            0 <= s <= n,
            n == level.sprites@.len(),
            *level == level1,
            *raycaster == ray1,
            screen_buf.wf(),
            screen_buf.width == old(screen_buf).width,
            screen_buf.height == old(screen_buf).height,
            forall|i2: int|
                0 <= i2 < level.sprites@.len() ==> (#[trigger] level.sprites@[i2]).distance_to_player
                    >= 0 && abs_int(level.sprites@[i2].pos.x as int) <= 0x10_0000_0000_0000
                    && abs_int(level.sprites@[i2].pos.y as int) <= 0x10_0000_0000_0000,
            forall|xx: int, yy: int|
                0 <= xx < old(screen_buf).width && 0 <= yy < old(screen_buf).height
                    ==> #[trigger] screen_buf.pixel_at(xx, yy) == buf1.pixel_at(xx, yy) || (
                screen_buf.pixel_at(xx, yy) == color_to_u32_spec(sprite_fill_color())
                    && sprite_justifies(level1.sprites@, ray1.hits@, ray1.visited@, xx)),
        decreases n - s,
    {
        let sprite = level.sprites[s];
        let ghost pre = *screen_buf;
        draw_sprite(
            screen_buf,
            &sprite,
            raycaster,
            pos,
            view_dir,
            nc,
            wall_height,
            sprite_color,
        );
        proof {
            assert forall|xx: int, yy: int|
                0 <= xx < old(screen_buf).width && 0 <= yy < old(screen_buf).height implies
                #[trigger] screen_buf.pixel_at(xx, yy) == buf1.pixel_at(xx, yy) || (
            screen_buf.pixel_at(xx, yy) == color_to_u32_spec(sprite_fill_color())
                && sprite_justifies(level1.sprites@, ray1.hits@, ray1.visited@, xx)) by {
                if screen_buf.pixel_at(xx, yy) != pre.pixel_at(xx, yy) {
                    assert(level1.sprites@[s as int] == sprite);
                    assert(sprite_justifies(level1.sprites@, ray1.hits@, ray1.visited@, xx));
                }
            }
        }
        s += 1;
    }
    proof {
        assert forall|xx: int, yy: int|
            0 <= xx < old(screen_buf).width && 0 <= yy < old(screen_buf).height && #[trigger] screen_buf.pixel_at(xx, yy) != old(screen_buf).pixel_at(xx, yy) implies ({
            ||| frame_wall_strip(
                level0,
                pos,
                view_dir,
                nc as int,
                half_w as int,
                wall_height as int,
                old(screen_buf).height as int,
                xx,
                yy,
            ) && screen_buf.pixel_at(xx, yy) == color_to_u32_spec(
                frame_wall_pixel(
                    *textures,
                    level0,
                    pos,
                    view_dir,
                    nc as int,
                    half_w as int,
                    wall_height as int,
                    shadow_decay as int,
                    old(screen_buf).height as int,
                    xx,
                    yy,
                ),
            )
            ||| screen_buf.pixel_at(xx, yy) == color_to_u32_spec(sprite_fill_color())
                && sprite_justifies(level1.sprites@, ray1.hits@, ray1.visited@, xx)
        }) by {
            if screen_buf.pixel_at(xx, yy) == buf1.pixel_at(xx, yy) {
                assert(buf1.pixel_at(xx, yy) != old(screen_buf).pixel_at(xx, yy));
            }
        }
    }
}

} // verus!
