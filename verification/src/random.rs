//! Deterministic pseudo-random generator.
//!
//! A xorshift recurrence over a single 64-bit state. The next state is a pure
//! function of the current one, so a seed determines the whole output stream;
//! each rendering work unit owns one generator.

use vstd::prelude::*;

verus! {

use crate::fp::SCALE;
use crate::vec3::Vec3;
use crate::vec3::V3;
use crate::vec3::in_bounds;
use crate::vec3::v_dot;
use crate::vec3::v_neg;
use crate::vec3::zero_v3;
use crate::fp::lemma_fmul_neg;
use crate::fp::lemma_fmul_bound;

/// One xorshift step: three shift-xor rounds over the 64-bit state.
pub open spec fn xorshift(x0: u64) -> u64 {
    let x1 = x0 ^ (x0 << 13u64);
    let x2 = x1 ^ (x1 >> 7u64);
    x2 ^ (x2 << 17u64)
}

/// The state after `n` xorshift steps from `seed`.
pub open spec fn nth_state(seed: u64, n: nat) -> u64
    decreases n,
{
    if n == 0 {
        seed
    } else {
        xorshift(nth_state(seed, (n - 1) as nat))
    }
}

/// Mapping of a raw 64-bit draw onto `span` fixed-point units.
pub open spec fn uniform_scale(x: u64, span: int) -> int {
    ((x as int) * span) / 0xffff_ffff_ffff_ffff
}

/// A vector drawn from the unit sphere: squared magnitude below one.
pub open spec fn in_unit_sphere(v: V3) -> bool {
    &&& in_bounds(v, SCALE as int)
    &&& v_dot(v, v) < SCALE as int
}

/// One draw in `[-1, 1]`, as `gen_fixed` maps it.
pub open spec fn symmetric_draw(state: u64) -> int {
    -(SCALE as int) + uniform_scale(state, 2 * SCALE as int)
}

/// The in-sphere rejection sampler as a function of the generator state:
/// the vector drawn and the state left behind. Each attempt consumes three
/// draws; `fuel` attempts remain, and exhausted fuel yields the center.
pub open spec fn in_sphere_from(state: u64, fuel: nat) -> (V3, u64)
    decreases fuel,
{
    if fuel == 0 {
        (zero_v3(), state)
    } else {
        let s1 = xorshift(state);
        let s2 = xorshift(s1);
        let s3 = xorshift(s2);
        let p = V3 {
            x: symmetric_draw(s1),
            y: symmetric_draw(s2),
            z: symmetric_draw(s3),
        };
        if v_dot(p, p) < SCALE as int {
            (p, s3)
        } else {
            in_sphere_from(s3, (fuel - 1) as nat)
        }
    }
}

/// The in-hemisphere sampler as a function of the generator state: the
/// in-sphere draw, negated when it points against `normal`.
pub open spec fn in_hemisphere_from(state: u64, normal: V3) -> (V3, u64) {
    let ps = in_sphere_from(state, 64);
    if v_dot(ps.0, normal) > 0 {
        ps
    } else {
        (v_neg(ps.0), ps.1)
    }
}

/// Law: the generator is deterministic. Two generators seeded with the same
/// value are at the same state after any number of steps, so they produce
/// identical output sequences.
pub proof fn lemma_generator_deterministic(seed_a: u64, seed_b: u64, n: nat)
    requires
        seed_a == seed_b,
    ensures
        nth_state(seed_a, n) == nth_state(seed_b, n),
{
}

pub struct Random {
    state: u64,
}

impl View for Random {
    type V = u64;

    closed spec fn view(&self) -> u64 {
        self.state
    }
}

impl Random {
    /// A generator starting from the given seed.
    pub fn new(initial_state: u64) -> (r: Self)
        ensures
            r@ == initial_state,
    {
        Random { state: initial_state }
    }

    /// The next raw 64-bit value; it is also the new state.
    pub fn gen_u64(&mut self) -> (r: u64)
        ensures
            r == xorshift(old(self)@),
            final(self)@ == xorshift(old(self)@),
    {
        let mut x = self.state;
        x = x ^ (x << 13u64);
        x = x ^ (x >> 7u64);
        x = x ^ (x << 17u64);
        self.state = x;
        x
    }

    /// A fixed-point value in `[low, high]`, uniform over the raw draws.
    pub fn gen_fixed(&mut self, low: i64, high: i64) -> (r: i64)
        requires
            low < high,
            -(4 * SCALE as int) <= low,
            high <= 4 * SCALE as int,
        ensures
            final(self)@ == xorshift(old(self)@),
            r == low + uniform_scale(xorshift(old(self)@), high - low),
            low <= r <= high,
    {
        let x = self.gen_u64();
        let span = high - low;
        proof {
            assert((x as int) * (span as int) <= 0xffff_ffff_ffff_ffff * 0x8_0000)
                by (nonlinear_arith)
                requires
                    x <= 0xffff_ffff_ffff_ffffu64,
                    0 <= span <= 0x8_0000,
            ;
            assert(0 <= (x as int) * (span as int)) by (nonlinear_arith)
                requires
                    0 <= x,
                    0 <= span,
            ;
        }
        let p: u128 = (x as u128) * (span as u128);
        let q: u128 = p / 0xffff_ffff_ffff_ffffu128;
        proof {
            assert(p as int <= 0xffff_ffff_ffff_ffff * (span as int)) by (nonlinear_arith)
                requires
                    p == (x as int) * (span as int),
                    x <= 0xffff_ffff_ffff_ffffu64,
                    0 <= span,
            ;
            vstd::arithmetic::div_mod::lemma_div_is_ordered(
                p as int,
                0xffff_ffff_ffff_ffff * (span as int),
                0xffff_ffff_ffff_ffff,
            );
            vstd::arithmetic::div_mod::lemma_div_multiples_vanish(
                span as int,
                0xffff_ffff_ffff_ffff,
            );
            vstd::arithmetic::div_mod::lemma_div_pos_is_pos(p as int, 0xffff_ffff_ffff_ffff);
        }
        low + (q as i64)
    }

    /// A point within the unit sphere, by rejection sampling.
    ///
    /// Draws three coordinates in `[-1, 1]` until their squared magnitude is
    /// below one. Termination checking forces a cap on the retries; after 64
    /// failed draws (a probability below 2^-60) the center is returned, which
    /// lies in the sphere like every accepted draw.
    pub fn gen_in_sphere(&mut self) -> (r: Vec3)
        ensures
            in_unit_sphere(r@),
            (r@, final(self)@) == in_sphere_from(old(self)@, 64),
    {
        let mut attempts: u64 = 0;
        while attempts < 64
            invariant
                attempts <= 64,
                in_sphere_from(old(self)@, 64) == in_sphere_from(self@, (64 - attempts) as nat),
            decreases 64 - attempts,
        {
            let x = self.gen_fixed(-SCALE, SCALE);
            let y = self.gen_fixed(-SCALE, SCALE);
            let z = self.gen_fixed(-SCALE, SCALE);
            let p = Vec3::new(x, y, z);
            let m = p.dot(&p);
            if m < SCALE {
                proof {
                    lemma_fmul_bound(x as int, x as int, SCALE as int, SCALE as int);
                    lemma_fmul_bound(y as int, y as int, SCALE as int, SCALE as int);
                    lemma_fmul_bound(z as int, z as int, SCALE as int, SCALE as int);
                }
                return p;
            }
            attempts = attempts + 1;
        }
        proof {
            crate::fp::lemma_fmul_nonneg(0, 0);
        }
        Vec3::new(0, 0, 0)
    }

    /// A point within the hemisphere whose pole is `normal`: an in-sphere
    /// draw, negated when it points against the normal.
    pub fn gen_in_hemisphere(&mut self, normal: Vec3) -> (r: Vec3)
        requires
            in_bounds(normal@, SCALE as int),
        ensures
            in_unit_sphere(r@),
            v_dot(r@, normal@) >= 0,
            (r@, final(self)@) == in_hemisphere_from(old(self)@, normal@),
    {
        let in_sphere = self.gen_in_sphere();
        let d = in_sphere.dot(&normal);
        if d > 0 {
            in_sphere
        } else {
            proof {
                lemma_fmul_neg(in_sphere@.x as int, normal@.x as int);
                lemma_fmul_neg(in_sphere@.y as int, normal@.y as int);
                lemma_fmul_neg(in_sphere@.z as int, normal@.z as int);
                lemma_fmul_neg(in_sphere@.x as int, in_sphere@.x as int);
                lemma_fmul_neg(in_sphere@.y as int, in_sphere@.y as int);
                lemma_fmul_neg(in_sphere@.z as int, in_sphere@.z as int);
            }
            in_sphere.neg()
        }
    }
}

} // verus!
