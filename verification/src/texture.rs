//! Textures: the color a material samples at a hit. A closed set of
//! variants — solid color, checkerboard, and image lookup — dispatched by
//! pattern match, each pinned by an exact spec mirror.

use vstd::prelude::*;
use crate::fixed::{fadd, fadd_s, fdiv, fdiv_s, floor_div, fmul, fmul_s, ONE, SCALE};
use crate::perlin::{turb_s, Perlin, HALF_W, POINT_COUNT, TEN_F};
use crate::rng::Rng;
use crate::trig::{sin_rad_s, sin_rad};
use crate::vec3::scale_v;
use crate::vec3::{Color, Point3, Vec3};

verus! {

/// Upper bound on image dimensions, keeping pixel indexing in range.
pub const MAX_DIM: usize = 16384;

#[derive(Debug)]
pub struct SolidColor {
    pub color_value: Color,
}

#[derive(Debug)]
pub struct CheckerTexture {
    pub inv_scale: i64,
    pub even: Box<Texture>,
    pub odd: Box<Texture>,
}

#[derive(Debug)]
pub struct ImageTexture {
    pub width: usize,
    pub height: usize,
    pub data: Vec<u8>,
}

#[derive(Debug)]
pub struct NoiseTexture {
    pub noise: Perlin,
    pub scale: i64,
}

#[derive(Debug)]
pub enum Texture {
    Solid(SolidColor),
    Checker(CheckerTexture),
    Image(ImageTexture),
    Noise(NoiseTexture),
}

impl ImageTexture {
    /// Pixels are three bytes each, row by row, and the dimensions are
    /// small enough that every index computation stays in range.
    pub open spec fn wf(self) -> bool {
        &&& self.data@.len() == 3 * self.width * self.height
        &&& self.width <= MAX_DIM
        &&& self.height <= MAX_DIM
    }

    /// An image texture from raw pixel rows; refused when the byte count
    /// does not match the dimensions or a dimension is out of range.
    pub fn from_pixels(width: usize, height: usize, data: Vec<u8>) -> (r: Option<
        ImageTexture,
    >)
        ensures
            match r {
                Some(t) => t.wf() && t.width == width && t.height == height
                    && t.data@ == data@,
                None => width > MAX_DIM || height > MAX_DIM || data@.len() != 3 * width
                    * height,
            },
    {
        if width > MAX_DIM || height > MAX_DIM {
            return None;
        }
        proof {
            assert(3 * width * height <= 0x3000_0000) by (nonlinear_arith)
                requires width <= MAX_DIM, height <= MAX_DIM
            ;
        }
        if data.len() != 3usize * width * height {
            return None;
        }
        Some(ImageTexture { width, height, data })
    }

    /// Clamp `x` into `[low, high)`.
    pub fn clamp(x: usize, low: usize, high: usize) -> (r: usize)
        requires
            low < high,
        ensures
            r as int == clamp_idx_s(x as int, low as int, high as int),
            low <= r < high,
    {
        if x < low {
            return low;
        }
        if x < high {
            return x;
        }
        high - 1
    }
}

/// Clamp an index into `[low, high)`.
pub open spec fn clamp_idx_s(x: int, low: int, high: int) -> int {
    if x < low {
        low
    } else if x < high {
        x
    } else {
        high - 1
    }
}

/// Clamp a texture coordinate into `[0, ONE]`.
pub open spec fn clamp_unit_s(x: int) -> int {
    if x < 0 {
        0
    } else if x > ONE as int {
        ONE as int
    } else {
        x
    }
}

/// The color an image texture answers at `(u, v)`: a clamped nearest
/// pixel lookup, with a fixed sentinel color for an empty image.
pub open spec fn image_value_s(t: ImageTexture, u: int, v: int) -> Color {
    if t.height == 0 || t.width == 0 {
        Color { x: 0i64, y: ONE, z: ONE }
    } else {
        let uc = clamp_unit_s(u);
        let vc = ONE as int - clamp_unit_s(v);
        let i = clamp_idx_s(floor_div(uc * t.width as int, SCALE as int), 0,
            t.width as int);
        let j = clamp_idx_s(floor_div(vc * t.height as int, SCALE as int), 0,
            t.height as int);
        let base = 3 * (j * t.width as int + i);
        Color {
            x: floor_div(t.data@[base] as int * SCALE as int, 255) as i64,
            y: floor_div(t.data@[base + 1] as int * SCALE as int, 255) as i64,
            z: floor_div(t.data@[base + 2] as int * SCALE as int, 255) as i64,
        }
    }
}

/// The marble pattern a noise texture answers: a sine driven by one
/// coordinate of the scaled point plus amplified turbulence.
pub open spec fn noise_value_s(nt: NoiseTexture, p: Vec3) -> Color {
    let s = scale_v(p, nt.scale as int);
    let arg = fadd_s(s.z as int, fmul_s(TEN_F as int, turb_s(nt.noise, s, 7)));
    scale_v(scale_v(Vec3 { x: ONE, y: ONE, z: ONE }, HALF_W as int),
        fadd_s(ONE as int, sin_rad_s(arg)))
}

/// The color a texture answers at `(u, v)` and point `p`.
pub open spec fn tex_value_s(t: Texture, u: int, v: int, p: Vec3) -> Color
    decreases t,
{
    match t {
        Texture::Solid(s) => s.color_value,
        Texture::Checker(c) => {
            let xi = floor_div(fmul_s(c.inv_scale as int, p.x as int), SCALE as int);
            let yi = floor_div(fmul_s(c.inv_scale as int, p.y as int), SCALE as int);
            let zi = floor_div(fmul_s(c.inv_scale as int, p.z as int), SCALE as int);
            if (xi + yi + zi) % 2 == 0 {
                tex_value_s(*c.even, u, v, p)
            } else {
                tex_value_s(*c.odd, u, v, p)
            }
        },
        Texture::Image(img) => image_value_s(img, u, v),
        Texture::Noise(nt) => noise_value_s(nt, p),
    }
}

/// Every image and noise variant inside a texture is well formed.
pub open spec fn tex_wf(t: Texture) -> bool
    decreases t,
{
    match t {
        Texture::Solid(_) => true,
        Texture::Checker(c) => tex_wf(*c.even) && tex_wf(*c.odd),
        Texture::Image(img) => img.wf(),
        Texture::Noise(nt) => nt.noise.wf(),
    }
}

impl NoiseTexture {
    /// A marble texture over fresh noise tables at unit scale.
    pub fn new(rng: &mut Rng) -> (r: NoiseTexture)
        ensures
            r.noise.wf(),
            r.scale == ONE,
    {
        NoiseTexture { noise: Perlin::new(POINT_COUNT, rng), scale: ONE }
    }

    /// A marble texture over fresh noise tables at a chosen scale.
    pub fn from(point_count: usize, scale: i64, rng: &mut Rng) -> (r: NoiseTexture)
        requires
            point_count == POINT_COUNT,
        ensures
            r.noise.wf(),
            r.scale == scale,
    {
        NoiseTexture { noise: Perlin::new(point_count, rng), scale }
    }
}

impl SolidColor {
    pub fn new() -> (r: SolidColor)
        ensures
            r.color_value == (Vec3 { x: 0i64, y: 0i64, z: 0i64 }),
    {
        SolidColor { color_value: Vec3::zeros() }
    }

    pub fn from_color(color_value: Color) -> (r: SolidColor)
        ensures
            r.color_value == color_value,
    {
        SolidColor { color_value }
    }

    pub fn from_rgb(red: i64, green: i64, blue: i64) -> (r: SolidColor)
        ensures
            r.color_value == (Vec3 { x: red, y: green, z: blue }),
    {
        SolidColor { color_value: Vec3 { x: red, y: green, z: blue } }
    }
}

impl CheckerTexture {
    /// The stored factor is the reciprocal of the given scale.
    pub fn new(inv_scale: i64, even: Box<Texture>, odd: Box<Texture>) -> (r:
        CheckerTexture)
        ensures
            r.inv_scale as int == fdiv_s(ONE as int, inv_scale as int),
            r.even == even,
            r.odd == odd,
    {
        CheckerTexture { inv_scale: fdiv(ONE, inv_scale), even, odd }
    }

    /// A checkerboard of two solid colors.
    pub fn from(scale: i64, c1: Color, c2: Color) -> (r: CheckerTexture)
        ensures
            r.inv_scale as int == fdiv_s(ONE as int, scale as int),
            *r.even == (Texture::Solid(SolidColor { color_value: c1 })),
            *r.odd == (Texture::Solid(SolidColor { color_value: c2 })),
    {
        CheckerTexture {
            inv_scale: fdiv(ONE, scale),
            even: Box::new(Texture::Solid(SolidColor { color_value: c1 })),
            odd: Box::new(Texture::Solid(SolidColor { color_value: c2 })),
        }
    }
}

impl Texture {
    /// The color this texture answers at `(u, v)` and point `p`; never
    /// fails after construction.
    pub fn value(&self, u: i64, v: i64, p: &Point3) -> (r: Color)
        requires
            tex_wf(*self),
        ensures
            r == tex_value_s(*self, u as int, v as int, *p),
        decreases *self,
    {
        match self {
            Texture::Solid(s) => s.color_value,
            Texture::Checker(c) => {
                let xi = floor_of(fmul(c.inv_scale, p.x));
                let yi = floor_of(fmul(c.inv_scale, p.y));
                let zi = floor_of(fmul(c.inv_scale, p.z));
                let sum: i128 = xi as i128 + yi as i128 + zi as i128;
                if parity_even(sum) {
                    c.even.value(u, v, p)
                } else {
                    c.odd.value(u, v, p)
                }
            },
            Texture::Image(img) => img.value_at(u, v),
            Texture::Noise(nt) => {
                let s = p.mul_scalar(nt.scale);
                let t = nt.noise.turb(s, 7);
                let arg = fadd(s.z, fmul(TEN_F, t));
                let sv = sin_rad(arg);
                Vec3::ones().mul_scalar(HALF_W).mul_scalar(fadd(ONE, sv))
            },
        }
    }
}

/// The integer part of a fixed-point value, rounded toward negative
/// infinity.
fn floor_of(x: i64) -> (r: i64)
    ensures
        r as int == floor_div(x as int, SCALE as int),
{
    let q = crate::fixed::idiv_floor(x as i128, SCALE as i128);
    proof {
        vstd::arithmetic::div_mod::lemma_fundamental_div_mod(x as int, SCALE as int);
        vstd::arithmetic::div_mod::lemma_mod_bound(x as int, SCALE as int);
    }
    q as i64
}

/// Whether a sum is even, matching the Euclidean remainder in spec.
fn parity_even(s: i128) -> (r: bool)
    requires
        -0x7fff_ffff_ffff_ffff_ffff_ffff_ffff_ffff <= s,
    ensures
        r == ((s as int) % 2 == 0),
{
    let m = if s < 0 {
        ((-s) as u128) % 2
    } else {
        (s as u128) % 2
    };
    proof {
        vstd::arithmetic::div_mod::lemma_fundamental_div_mod(s as int, 2);
        vstd::arithmetic::div_mod::lemma_mod_bound(s as int, 2);
        if s < 0 {
            let q = s as int / 2;
            let r0 = s as int % 2;
            if r0 == 0 {
                vstd::arithmetic::div_mod::lemma_fundamental_div_mod_converse(
                    -(s as int), 2, -q, 0);
            } else {
                vstd::arithmetic::div_mod::lemma_fundamental_div_mod_converse(
                    -(s as int), 2, -q - 1, 1);
            }
        }
    }
    m == 0
}

impl ImageTexture {
    /// The clamped nearest-pixel lookup behind the image variant.
    pub fn value_at(&self, u: i64, v: i64) -> (r: Color)
        requires
            self.wf(),
        ensures
            r == image_value_s(*self, u as int, v as int),
    {
        if self.height == 0 || self.width == 0 {
            return Color { x: 0, y: ONE, z: ONE };
        }
        let uc = if u < 0 {
            0
        } else if u > ONE {
            ONE
        } else {
            u
        };
        let vc = ONE - (if v < 0 {
            0
        } else if v > ONE {
            ONE
        } else {
            v
        });
        proof {
            crate::fixed::lemma_mul_bound(uc as int, self.width as int, 0x1_0000,
                0x4000);
            crate::fixed::lemma_mul_bound(vc as int, self.height as int, 0x1_0000,
                0x4000);
            lemma_coord_bounds(uc as int, self.width as int);
            lemma_coord_bounds(vc as int, self.height as int);
        }
        let iw = crate::fixed::idiv_floor((uc as i128) * (self.width as i128),
            SCALE as i128);
        let jh = crate::fixed::idiv_floor((vc as i128) * (self.height as i128),
            SCALE as i128);
        let i = ImageTexture::clamp(iw as usize, 0, self.width);
        let j = ImageTexture::clamp(jh as usize, 0, self.height);
        proof {
            lemma_pixel_index(self.width as int, self.height as int, i as int, j as int);
        }
        let base = 3 * (j * self.width + i);
        Color {
            x: byte_to_fixed(self.data[base]),
            y: byte_to_fixed(self.data[base + 1]),
            z: byte_to_fixed(self.data[base + 2]),
        }
    }
}

/// A clamped coordinate scaled by a dimension and divided by the scale
/// stays within the dimension.
proof fn lemma_coord_bounds(c: int, w: int)
    requires
        0 <= c <= ONE,
        1 <= w <= MAX_DIM,
    ensures
        0 <= floor_div(c * w, SCALE as int) <= w,
{
    vstd::arithmetic::mul::lemma_mul_nonnegative(c, w);
    vstd::arithmetic::div_mod::lemma_div_pos_is_pos(c * w, SCALE as int);
    vstd::arithmetic::mul::lemma_mul_inequality(c, SCALE as int, w);
    vstd::arithmetic::div_mod::lemma_div_is_ordered(c * w, SCALE as int * w,
        SCALE as int);
    vstd::arithmetic::div_mod::lemma_div_multiples_vanish(w, SCALE as int);
    vstd::arithmetic::mul::lemma_mul_is_commutative(c, w);
    vstd::arithmetic::mul::lemma_mul_is_commutative(SCALE as int, w);
}

/// A pixel's byte triple starts strictly inside the data buffer.
proof fn lemma_pixel_index(w: int, h: int, i: int, j: int)
    requires
        0 <= i < w,
        0 <= j < h,
        w <= MAX_DIM,
        h <= MAX_DIM,
    ensures
        3 * (j * w + i) + 2 < 3 * w * h,
        0 <= 3 * (j * w + i),
        0 <= j * w,
        j * w + i < w * h,
        3 * w * h <= 0x3000_0000,
{
    assert(3 * (j * w + i) + 2 < 3 * w * h && 0 <= 3 * (j * w + i) && 0 <= j * w
        && j * w + i < w * h) by (nonlinear_arith)
        requires 0 <= i < w, 0 <= j < h
    ;
    assert(3 * w * h <= 0x3000_0000) by (nonlinear_arith)
        requires 0 < w <= MAX_DIM, 0 < h <= MAX_DIM
    ;
}

/// A color channel byte rescaled into `[0, ONE]`.
fn byte_to_fixed(b: u8) -> (r: i64)
    ensures
        r as int == floor_div(b as int * SCALE as int, 255),
{
    proof {
        crate::fixed::lemma_mul_bound(b as int, SCALE as int, 255, 0x1_0000);
    }
    let v: u64 = (b as u64) * (SCALE as u64) / 255;
    v as i64
}

} // verus!
