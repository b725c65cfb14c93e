//! Gradient noise over fixed-point coordinates: a table of unit gradient
//! vectors indexed through shuffled permutation tables, interpolated
//! trilinearly with double Hermite smoothing.

use vstd::prelude::*;
use crate::fixed::{
    fadd, fadd_s, fmul, fmul_s, fsub, fsub_s, clip, floor_div, ONE, SCALE,
};
use crate::rng::Rng;
use crate::rtweekend::random_int;
use crate::vec3::{dot_v, scale_v, Point3, Vec3};

verus! {

/// Size of the gradient and permutation tables.
pub const POINT_COUNT: usize = 256;

/// Half a unit, the per-octave weight factor of the turbulence sum.
pub const HALF_W: i64 = 32768;

/// Two units, the per-octave frequency factor of the turbulence sum.
pub const TWO_F: i64 = 131072;

/// Three units, the Hermite smoothing constant.
pub const THREE_F: i64 = 196608;

/// Ten units, the turbulence amplitude inside the marble pattern.
pub const TEN_F: i64 = 655360;

#[derive(Debug)]
pub struct Perlin {
    pub ranvec: Vec<Vec3>,
    pub perm_x: Vec<i64>,
    pub perm_y: Vec<i64>,
    pub perm_z: Vec<i64>,
}

/// A permutation table holds one byte-sized entry per table slot.
pub open spec fn perm_wf(p: Seq<i64>) -> bool {
    &&& p.len() == POINT_COUNT
    &&& forall|k: int| 0 <= k < p.len() ==> 0 <= #[trigger] p[k] < 256
}

/// Hermite smoothing of a fractional coordinate.
pub open spec fn smooth_s(t: int) -> int {
    fmul_s(fmul_s(t, t), fsub_s(THREE_F as int, fmul_s(TWO_F as int, t)))
}

/// The gradient vector of one lattice corner, looked up through the three
/// permutation tables.
pub open spec fn gather_s(pn: Perlin, flx: int, fly: int, flz: int, di: int, dj: int,
    dk: int) -> Vec3 {
    let ix = ((((flx + di) as i64) & 255) as int);
    let iy = ((((fly + dj) as i64) & 254) as int);
    let iz = ((((flz + dk) as i64) & 255) as int);
    pn.ranvec@[(((pn.perm_x@[ix] ^ pn.perm_y@[iy]) ^ pn.perm_z@[iz]) as int)]
}

/// One corner's contribution to the trilinear blend: the smoothed blend
/// factors on each axis times the gradient's pull toward the sample point.
pub open spec fn corner_term_s(c: Vec3, sel_u: int, sel_v: int, sel_w: int, u: int,
    v: int, w: int, di: int, dj: int, dk: int) -> int {
    let fx = if di == 1 { sel_u } else { fsub_s(ONE as int, sel_u) };
    let fy = if dj == 1 { sel_v } else { fsub_s(ONE as int, sel_v) };
    let fz = if dk == 1 { sel_w } else { fsub_s(ONE as int, sel_w) };
    let wv = Vec3 {
        x: fsub_s(u, if di == 1 { ONE as int } else { 0 }) as i64,
        y: fsub_s(v, if dj == 1 { ONE as int } else { 0 }) as i64,
        z: fsub_s(w, if dk == 1 { ONE as int } else { 0 }) as i64,
    };
    fmul_s(fmul_s(fmul_s(fx, fy), fz), dot_v(c, wv))
}

/// The noise value at a point: fractional coordinates are smoothed once,
/// handed to the blend, and smoothed once more for the blend factors.
pub open spec fn noise_s(pn: Perlin, p: Vec3) -> int {
    let flx = floor_div(p.x as int, SCALE as int);
    let fly = floor_div(p.y as int, SCALE as int);
    let flz = floor_div(p.z as int, SCALE as int);
    let u = smooth_s(p.x as int - SCALE as int * flx);
    let v = smooth_s(p.y as int - SCALE as int * fly);
    let w = smooth_s(p.z as int - SCALE as int * flz);
    let uu = smooth_s(u);
    let vv = smooth_s(v);
    let ww = smooth_s(w);
    let t000 = corner_term_s(gather_s(pn, flx, fly, flz, 0, 0, 0), uu, vv, ww, u, v, w,
        0, 0, 0);
    let t001 = corner_term_s(gather_s(pn, flx, fly, flz, 0, 0, 1), uu, vv, ww, u, v, w,
        0, 0, 1);
    let t010 = corner_term_s(gather_s(pn, flx, fly, flz, 0, 1, 0), uu, vv, ww, u, v, w,
        0, 1, 0);
    let t011 = corner_term_s(gather_s(pn, flx, fly, flz, 0, 1, 1), uu, vv, ww, u, v, w,
        0, 1, 1);
    let t100 = corner_term_s(gather_s(pn, flx, fly, flz, 1, 0, 0), uu, vv, ww, u, v, w,
        1, 0, 0);
    let t101 = corner_term_s(gather_s(pn, flx, fly, flz, 1, 0, 1), uu, vv, ww, u, v, w,
        1, 0, 1);
    let t110 = corner_term_s(gather_s(pn, flx, fly, flz, 1, 1, 0), uu, vv, ww, u, v, w,
        1, 1, 0);
    let t111 = corner_term_s(gather_s(pn, flx, fly, flz, 1, 1, 1), uu, vv, ww, u, v, w,
        1, 1, 1);
    fadd_s(fadd_s(fadd_s(fadd_s(fadd_s(fadd_s(fadd_s(fadd_s(0, t000), t001), t010),
        t011), t100), t101), t110), t111)
}

/// The running turbulence sum: each octave adds a weighted noise sample
/// and then halves the weight and doubles the frequency.
pub open spec fn turb_loop_s(pn: Perlin, p: Vec3, depth: int, weight: int,
    accum: int) -> int
    decreases depth,
{
    if depth <= 0 {
        accum
    } else {
        turb_loop_s(pn, scale_v(p, TWO_F as int), depth - 1, fmul_s(weight, HALF_W as int),
            fadd_s(accum, fmul_s(weight, noise_s(pn, p))))
    }
}

/// Turbulence: the absolute value of the octave sum.
pub open spec fn turb_s(pn: Perlin, p: Vec3, depth: int) -> int {
    let a = turb_loop_s(pn, p, depth, ONE as int, 0);
    clip(if a < 0 { -a } else { a })
}

/// Integer part and fractional remainder of a fixed-point coordinate.
fn frac_of(x: i64) -> (r: (i64, i64))
    ensures
        r.0 as int == floor_div(x as int, SCALE as int),
        r.1 as int == x as int - SCALE as int * r.0 as int,
        0 <= r.1 < SCALE,
        -0x1_0000_0000_0000 <= r.0 <= 0x1_0000_0000_0000,
{
    let q = crate::fixed::idiv_floor(x as i128, SCALE as i128);
    proof {
        vstd::arithmetic::div_mod::lemma_fundamental_div_mod(x as int, SCALE as int);
        vstd::arithmetic::div_mod::lemma_mod_bound(x as int, SCALE as int);
    }
    let rem = (x as i128 - (SCALE as i128) * q) as i64;
    (q as i64, rem)
}

/// A lattice coordinate wrapped into the table by a byte mask.
fn mask_byte(a: i64, m: i64) -> (r: usize)
    requires
        m == 255 || m == 254,
    ensures
        r as int == ((a & m) as int),
        r < 256,
{
    proof {
        assert(0 <= (a & m) && (a & m) < 256) by (bit_vector)
            requires m == 255i64 || m == 254i64
        ;
    }
    (a & m) as usize
}

/// Three byte-sized table entries folded into one table index.
fn xor3(a: i64, b: i64, c: i64) -> (r: usize)
    requires
        0 <= a < 256,
        0 <= b < 256,
        0 <= c < 256,
    ensures
        r as int == (((a ^ b) ^ c) as int),
        r < 256,
{
    proof {
        assert(0 <= ((a ^ b) ^ c) && ((a ^ b) ^ c) < 256) by (bit_vector)
            requires 0 <= a < 256, 0 <= b < 256, 0 <= c < 256
        ;
    }
    ((a ^ b) ^ c) as usize
}

/// Hermite smoothing of a fractional coordinate.
fn smooth(t: i64) -> (r: i64)
    ensures
        r as int == smooth_s(t as int),
{
    fmul(fmul(t, t), fsub(THREE_F, fmul(TWO_F, t)))
}

impl Perlin {
    /// Tables are full-sized and every permutation entry fits in a byte.
    pub open spec fn wf(self) -> bool {
        &&& self.ranvec@.len() == 256
        &&& perm_wf(self.perm_x@)
        &&& perm_wf(self.perm_y@)
        &&& perm_wf(self.perm_z@)
    }

    /// Fresh tables: normalized random gradients and three independently
    /// shuffled permutations. The byte-masked lookup reads exactly this
    /// many permutation slots and folds three byte-sized entries into a
    /// gradient index, so the tables are tied to this one size; any other
    /// count could fold to an index past the gradient table.
    pub fn new(point_count: usize, rng: &mut Rng) -> (r: Perlin)
        requires
            point_count == POINT_COUNT,
        ensures
            r.wf(),
    {
        let mut ranvec: Vec<Vec3> = Vec::new();
        let mut i: usize = 0;
        while i < point_count
            invariant
                ranvec@.len() == i,
                i <= POINT_COUNT,
                point_count == POINT_COUNT,
            decreases point_count - i,
        {
            let p = Vec3::random_interval(rng, -ONE, ONE);
            ranvec.push(p.unit_vector());
            i += 1;
        }
        Perlin {
            ranvec,
            perm_x: Perlin::perlin_generate_perm(point_count, rng),
            perm_y: Perlin::perlin_generate_perm(point_count, rng),
            perm_z: Perlin::perlin_generate_perm(point_count, rng),
        }
    }

    /// The identity table shuffled in place.
    fn perlin_generate_perm(point_count: usize, rng: &mut Rng) -> (r: Vec<i64>)
        requires
            point_count == POINT_COUNT,
        ensures
            perm_wf(r@),
    {
        let mut p: Vec<i64> = Vec::new();
        let mut i: usize = 0;
        while i < point_count
            invariant
                p@.len() == i,
                i <= POINT_COUNT,
                point_count == POINT_COUNT,
                forall|k: int| 0 <= k < i ==> 0 <= #[trigger] p@[k] < 256,
            decreases point_count - i,
        {
            p.push(i as i64);
            i += 1;
        }
        Perlin::permute(&mut p, point_count, rng);
        p
    }

    /// A backward swap pass; entries move, their byte range does not.
    fn permute(p: &mut Vec<i64>, n: usize, rng: &mut Rng)
        requires
            perm_wf(old(p)@),
            n == POINT_COUNT,
        ensures
            perm_wf(final(p)@),
    {
        let mut i: usize = n - 1;
        while i > 0
            invariant
                perm_wf(p@),
                i < POINT_COUNT,
            decreases i,
        {
            let target = random_int(rng, 0, i as i64) as usize;
            let a = p[i];
            let b = p[target];
            set_entry(p, i, b);
            set_entry(p, target, a);
            i -= 1;
        }
    }

    /// The gradient vector of one lattice corner.
    fn gather(&self, flx: i64, fly: i64, flz: i64, di: i64, dj: i64, dk: i64) -> (c:
        Vec3)
        requires
            self.wf(),
            -0x1_0000_0000_0000 <= flx <= 0x1_0000_0000_0000,
            -0x1_0000_0000_0000 <= fly <= 0x1_0000_0000_0000,
            -0x1_0000_0000_0000 <= flz <= 0x1_0000_0000_0000,
            0 <= di <= 1,
            0 <= dj <= 1,
            0 <= dk <= 1,
        ensures
            c == gather_s(*self, flx as int, fly as int, flz as int, di as int,
                dj as int, dk as int),
    {
        let ix = mask_byte(flx + di, 255);
        let iy = mask_byte(fly + dj, 254);
        let iz = mask_byte(flz + dk, 255);
        let px = self.perm_x[ix];
        let py = self.perm_y[iy];
        let pz = self.perm_z[iz];
        self.ranvec[xor3(px, py, pz)]
    }

    /// The noise value at a point.
    pub fn noise(&self, p: &Point3) -> (r: i64)
        requires
            self.wf(),
        ensures
            r as int == noise_s(*self, *p),
    {
        let (flx, rx) = frac_of(p.x);
        let (fly, ry) = frac_of(p.y);
        let (flz, rz) = frac_of(p.z);
        let u = smooth(rx);
        let v = smooth(ry);
        let w = smooth(rz);
        let uu = smooth(u);
        let vv = smooth(v);
        let ww = smooth(w);
        let mut accum: i64 = 0;
        let c000 = self.gather(flx, fly, flz, 0, 0, 0);
        let c001 = self.gather(flx, fly, flz, 0, 0, 1);
        let c010 = self.gather(flx, fly, flz, 0, 1, 0);
        let c011 = self.gather(flx, fly, flz, 0, 1, 1);
        let c100 = self.gather(flx, fly, flz, 1, 0, 0);
        let c101 = self.gather(flx, fly, flz, 1, 0, 1);
        let c110 = self.gather(flx, fly, flz, 1, 1, 0);
        let c111 = self.gather(flx, fly, flz, 1, 1, 1);
        accum = fadd(accum, corner_term(c000, uu, vv, ww, u, v, w, 0, 0, 0));
        accum = fadd(accum, corner_term(c001, uu, vv, ww, u, v, w, 0, 0, 1));
        accum = fadd(accum, corner_term(c010, uu, vv, ww, u, v, w, 0, 1, 0));
        accum = fadd(accum, corner_term(c011, uu, vv, ww, u, v, w, 0, 1, 1));
        accum = fadd(accum, corner_term(c100, uu, vv, ww, u, v, w, 1, 0, 0));
        accum = fadd(accum, corner_term(c101, uu, vv, ww, u, v, w, 1, 0, 1));
        accum = fadd(accum, corner_term(c110, uu, vv, ww, u, v, w, 1, 1, 0));
        accum = fadd(accum, corner_term(c111, uu, vv, ww, u, v, w, 1, 1, 1));
        accum
    }

    /// Turbulence: octaves of noise at doubling frequency and halving
    /// weight, folded into an absolute value.
    pub fn turb(&self, p: Point3, depth: i32) -> (r: i64)
        requires
            self.wf(),
            0 <= depth <= 64,
        ensures
            r as int == turb_s(*self, p, depth as int),
    {
        let mut accum: i64 = 0;
        let mut temp_p = p;
        let mut weight: i64 = ONE;
        let mut it: i32 = 0;
        while it < depth
            invariant
                self.wf(),
                0 <= it <= depth,
                depth <= 64,
                turb_loop_s(*self, p, depth as int, ONE as int, 0) == turb_loop_s(
                    *self, temp_p, depth as int - it as int, weight as int,
                    accum as int),
            decreases depth - it,
        {
            let n = self.noise(&temp_p);
            accum = fadd(accum, fmul(weight, n));
            weight = fmul(weight, HALF_W);
            temp_p = temp_p.mul_scalar(TWO_F);
            it += 1;
        }
        crate::fixed::fabs(accum)
    }
}

/// One corner's contribution to the trilinear blend.
fn corner_term(c: Vec3, sel_u: i64, sel_v: i64, sel_w: i64, u: i64, v: i64, w: i64,
    di: i64, dj: i64, dk: i64) -> (r: i64)
    requires
        0 <= di <= 1,
        0 <= dj <= 1,
        0 <= dk <= 1,
    ensures
        r as int == corner_term_s(c, sel_u as int, sel_v as int, sel_w as int,
            u as int, v as int, w as int, di as int, dj as int, dk as int),
{
    let fx = if di == 1 { sel_u } else { fsub(ONE, sel_u) };
    let fy = if dj == 1 { sel_v } else { fsub(ONE, sel_v) };
    let fz = if dk == 1 { sel_w } else { fsub(ONE, sel_w) };
    let wv = Vec3 {
        x: fsub(u, if di == 1 { ONE } else { 0 }),
        y: fsub(v, if dj == 1 { ONE } else { 0 }),
        z: fsub(w, if dk == 1 { ONE } else { 0 }),
    };
    fmul(fmul(fmul(fx, fy), fz), c.dot(wv))
}

/// Overwrite one table entry in place.
fn set_entry(v: &mut Vec<i64>, i: usize, x: i64)
    requires
        i < old(v)@.len(),
    ensures
        final(v)@ =~= old(v)@.update(i as int, x),
{
    let _removed = v.remove(i);
    v.insert(i, x);
}

} // verus!
