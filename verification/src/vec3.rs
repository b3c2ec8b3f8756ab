//! Three-component fixed-point vectors.
//!
//! `Vec3` is the executable vector; `V3` is its mathematical model with
//! unbounded integer components. Every operation is specified exactly over
//! the model, including the rounding of the fixed-point product, quotient
//! and square root.

use vstd::prelude::*;

verus! {

use crate::fp::SCALE;
use crate::fp::OP_MAX;
use crate::fp::fmul;
use crate::fp::fdiv;
use crate::fp::sqrt_floor;
use crate::fp::fp_mul;
use crate::fp::isqrt;
use crate::fp::lemma_fmul_bound;
use crate::fp::lemma_fdiv_unit;
use crate::fp::lemma_sqrt_floor_is;

/// Mathematical model of a vector: unbounded integer components.
pub ghost struct V3 {
    pub x: int,
    pub y: int,
    pub z: int,
}

/// Largest component magnitude accepted by the fixed-point dot product.
pub const DOT_MAX: i64 = 137438953472;

/// Largest component magnitude accepted by normalization.
pub const NORM_MAX: i64 = 1099511627776;

pub open spec fn zero_v3() -> V3 {
    V3 { x: 0, y: 0, z: 0 }
}

pub open spec fn in_bounds(v: V3, m: int) -> bool {
    &&& -m <= v.x <= m
    &&& -m <= v.y <= m
    &&& -m <= v.z <= m
}

pub open spec fn is_zero(v: V3) -> bool {
    v.x == 0 && v.y == 0 && v.z == 0
}

pub open spec fn v_add(a: V3, b: V3) -> V3 {
    V3 { x: a.x + b.x, y: a.y + b.y, z: a.z + b.z }
}

pub open spec fn v_sub(a: V3, b: V3) -> V3 {
    V3 { x: a.x - b.x, y: a.y - b.y, z: a.z - b.z }
}

pub open spec fn v_neg(a: V3) -> V3 {
    V3 { x: -a.x, y: -a.y, z: -a.z }
}

/// Componentwise scaling by a fixed-point factor.
pub open spec fn v_scale(k: int, v: V3) -> V3 {
    V3 { x: fmul(k, v.x), y: fmul(k, v.y), z: fmul(k, v.z) }
}

/// Fixed-point dot product.
pub open spec fn v_dot(a: V3, b: V3) -> int {
    fmul(a.x, b.x) + fmul(a.y, b.y) + fmul(a.z, b.z)
}

/// Dot product of the raw representations, without rescaling: carries twice
/// the scale, which the square root brings back to one scale.
pub open spec fn raw_dot(a: V3, b: V3) -> int {
    a.x * b.x + a.y * b.y + a.z * b.z
}

/// Mirror reflection of `d` about the plane with normal `n`.
pub open spec fn v_reflect(d: V3, n: V3) -> V3 {
    v_sub(d, v_scale(2 * v_dot(d, n), n))
}

/// The vector scaled to unit magnitude, with fixed-point rounding.
pub open spec fn v_normalize(v: V3) -> V3 {
    let m = sqrt_floor(raw_dot(v, v));
    V3 { x: fdiv(v.x, m), y: fdiv(v.y, m), z: fdiv(v.z, m) }
}

/// Magnitude bound for the fixed-point dot product.
pub proof fn lemma_v_dot_bound(a: V3, b: V3, m: int, n: int)
    requires
        in_bounds(a, m),
        in_bounds(b, n),
    ensures
        -(3 * ((m * n) / (SCALE as int))) <= v_dot(a, b) <= 3 * ((m * n) / (SCALE as int)),
{
    lemma_fmul_bound(a.x, b.x, m, n);
    lemma_fmul_bound(a.y, b.y, m, n);
    lemma_fmul_bound(a.z, b.z, m, n);
}

/// Magnitude bound for the raw dot product.
pub proof fn lemma_raw_dot_bound(a: V3, b: V3, m: int, n: int)
    requires
        in_bounds(a, m),
        in_bounds(b, n),
    ensures
        -(3 * (m * n)) <= raw_dot(a, b) <= 3 * (m * n),
{
    assert(-(m * n) <= a.x * b.x <= m * n) by (nonlinear_arith)
        requires
            -m <= a.x <= m,
            -n <= b.x <= n,
    ;
    assert(-(m * n) <= a.y * b.y <= m * n) by (nonlinear_arith)
        requires
            -m <= a.y <= m,
            -n <= b.y <= n,
    ;
    assert(-(m * n) <= a.z * b.z <= m * n) by (nonlinear_arith)
        requires
            -m <= a.z <= m,
            -n <= b.z <= n,
    ;
}

#[derive(Clone, Copy, Debug)]
pub struct Vec3 {
    pub x: i64,
    pub y: i64,
    pub z: i64,
}

impl View for Vec3 {
    type V = V3;

    open spec fn view(&self) -> V3 {
        V3 { x: self.x as int, y: self.y as int, z: self.z as int }
    }
}

impl Vec3 {
    pub fn new(x: i64, y: i64, z: i64) -> (r: Self)
        ensures
            r@ == (V3 { x: x as int, y: y as int, z: z as int }),
    {
        Vec3 { x, y, z }
    }

    pub fn is_zero_vec(&self) -> (r: bool)
        ensures
            r == is_zero(self@),
    {
        self.x == 0 && self.y == 0 && self.z == 0
    }

    pub fn add(&self, other: &Vec3) -> (r: Vec3)
        requires
            in_bounds(self@, OP_MAX as int),
            in_bounds(other@, OP_MAX as int),
        ensures
            r@ == v_add(self@, other@),
    {
        Vec3 { x: self.x + other.x, y: self.y + other.y, z: self.z + other.z }
    }

    pub fn sub(&self, other: &Vec3) -> (r: Vec3)
        requires
            in_bounds(self@, OP_MAX as int),
            in_bounds(other@, OP_MAX as int),
        ensures
            r@ == v_sub(self@, other@),
    {
        Vec3 { x: self.x - other.x, y: self.y - other.y, z: self.z - other.z }
    }

    pub fn neg(&self) -> (r: Vec3)
        requires
            in_bounds(self@, OP_MAX as int),
        ensures
            r@ == v_neg(self@),
    {
        Vec3 { x: -self.x, y: -self.y, z: -self.z }
    }

    pub fn scale(&self, k: i64) -> (r: Vec3)
        requires
            in_bounds(self@, OP_MAX as int),
            -OP_MAX <= k <= OP_MAX,
        ensures
            r@ == v_scale(k as int, self@),
    {
        Vec3 { x: fp_mul(k, self.x), y: fp_mul(k, self.y), z: fp_mul(k, self.z) }
    }

    pub fn dot(&self, other: &Vec3) -> (r: i64)
        requires
            in_bounds(self@, DOT_MAX as int),
            in_bounds(other@, DOT_MAX as int),
        ensures
            r == v_dot(self@, other@),
    {
        proof {
            lemma_fmul_bound(self@.x, other@.x, DOT_MAX as int, DOT_MAX as int);
            lemma_fmul_bound(self@.y, other@.y, DOT_MAX as int, DOT_MAX as int);
            lemma_fmul_bound(self@.z, other@.z, DOT_MAX as int, DOT_MAX as int);
        }
        fp_mul(self.x, other.x) + fp_mul(self.y, other.y) + fp_mul(self.z, other.z)
    }

    /// Dot product of the raw representations, in wide arithmetic, without
    /// rescaling.
    pub fn raw_dot_wide(&self, other: &Vec3) -> (r: i128)
        requires
            in_bounds(self@, 2147483648),
            in_bounds(other@, 2147483648),
        ensures
            r as int == raw_dot(self@, other@),
            -(3 * (2147483648 * 2147483648)) <= r <= 3 * (2147483648 * 2147483648),
    {
        proof {
            lemma_raw_dot_bound(self@, other@, 2147483648, 2147483648);
            assert(-0x4000_0000_0000_0000 <= self@.x * other@.x <= 0x4000_0000_0000_0000)
                by (nonlinear_arith)
                requires
                    -2147483648 <= self@.x <= 2147483648,
                    -2147483648 <= other@.x <= 2147483648,
            ;
            assert(-0x4000_0000_0000_0000 <= self@.y * other@.y <= 0x4000_0000_0000_0000)
                by (nonlinear_arith)
                requires
                    -2147483648 <= self@.y <= 2147483648,
                    -2147483648 <= other@.y <= 2147483648,
            ;
            assert(-0x4000_0000_0000_0000 <= self@.z * other@.z <= 0x4000_0000_0000_0000)
                by (nonlinear_arith)
                requires
                    -2147483648 <= self@.z <= 2147483648,
                    -2147483648 <= other@.z <= 2147483648,
            ;
        }
        (self.x as i128) * (other.x as i128) + (self.y as i128) * (other.y as i128) + (
        self.z as i128) * (other.z as i128)
    }

    /// Mirror reflection about the plane with normal `normal`.
    pub fn reflect(&self, normal: &Vec3) -> (r: Vec3)
        requires
            in_bounds(self@, 1048576),
            in_bounds(normal@, SCALE as int),
        ensures
            r@ == v_reflect(self@, normal@),
            in_bounds(r@, 8388608),
    {
        let d = self.dot(normal);
        proof {
            lemma_fmul_bound(self@.x, normal@.x, 1048576, SCALE as int);
            lemma_fmul_bound(self@.y, normal@.y, 1048576, SCALE as int);
            lemma_fmul_bound(self@.z, normal@.z, 1048576, SCALE as int);
            lemma_fmul_bound(2 * (d as int), normal@.x, 6291456, SCALE as int);
            lemma_fmul_bound(2 * (d as int), normal@.y, 6291456, SCALE as int);
            lemma_fmul_bound(2 * (d as int), normal@.z, 6291456, SCALE as int);
        }
        let s = normal.scale(2 * d);
        self.sub(&s)
    }

    /// The vector scaled to unit magnitude, rounding each component toward
    /// zero. Every component of the result stays within one.
    pub fn normalize(&self) -> (r: Vec3)
        requires
            in_bounds(self@, NORM_MAX as int),
            !is_zero(self@),
        ensures
            r@ == v_normalize(self@),
            in_bounds(r@, SCALE as int),
    {
        proof {
            assert(0 <= (self@.x) * (self@.x) <= 0x10000_0000_0000_0000_0000) by (nonlinear_arith)
                requires
                    -0x100_0000_0000 <= self@.x <= 0x100_0000_0000,
            ;
            assert(0 <= (self@.y) * (self@.y) <= 0x10000_0000_0000_0000_0000) by (nonlinear_arith)
                requires
                    -0x100_0000_0000 <= self@.y <= 0x100_0000_0000,
            ;
            assert(0 <= (self@.z) * (self@.z) <= 0x10000_0000_0000_0000_0000) by (nonlinear_arith)
                requires
                    -0x100_0000_0000 <= self@.z <= 0x100_0000_0000,
            ;
            assert(self@.x * self@.x + self@.y * self@.y + self@.z * self@.z >= 1)
                by (nonlinear_arith)
                requires
                    !(self@.x == 0 && self@.y == 0 && self@.z == 0),
            ;
        }
        let xx: i128 = (self.x as i128) * (self.x as i128);
        let yy: i128 = (self.y as i128) * (self.y as i128);
        let zz: i128 = (self.z as i128) * (self.z as i128);
        let m2: i128 = xx + yy + zz;
        let m: u64 = isqrt(m2 as u128);
        proof {
            lemma_sqrt_floor_is(raw_dot(self@, self@), m as int);
            assert(m as int >= 1) by (nonlinear_arith)
                requires
                    m2 as int >= 1,
                    (m2 as int) < ((m as int) + 1) * ((m as int) + 1),
                    0 <= m as int,
            ;
            assert((m as int) * (m as int) <= m2 as int);
            assert(m as int <= 0x200_0000_0000) by (nonlinear_arith)
                requires
                    (m as int) * (m as int) <= 0x30000_0000_0000_0000_0000,
                    0 <= m as int,
            ;
            assert(self@.x * self@.x <= (m2 as int)) by (nonlinear_arith)
                requires
                    0 <= self@.y * self@.y,
                    0 <= self@.z * self@.z,
                    m2 as int == self@.x * self@.x + self@.y * self@.y + self@.z * self@.z,
            ;
            assert(-(m as int) <= self@.x <= m as int) by (nonlinear_arith)
                requires
                    self@.x * self@.x <= (m2 as int),
                    (m2 as int) < ((m as int) + 1) * ((m as int) + 1),
                    0 <= m as int,
            ;
            assert(self@.y * self@.y <= (m2 as int)) by (nonlinear_arith)
                requires
                    0 <= self@.x * self@.x,
                    0 <= self@.z * self@.z,
                    m2 as int == self@.x * self@.x + self@.y * self@.y + self@.z * self@.z,
            ;
            assert(-(m as int) <= self@.y <= m as int) by (nonlinear_arith)
                requires
                    self@.y * self@.y <= (m2 as int),
                    (m2 as int) < ((m as int) + 1) * ((m as int) + 1),
                    0 <= m as int,
            ;
            assert(self@.z * self@.z <= (m2 as int)) by (nonlinear_arith)
                requires
                    0 <= self@.x * self@.x,
                    0 <= self@.y * self@.y,
                    m2 as int == self@.x * self@.x + self@.y * self@.y + self@.z * self@.z,
            ;
            assert(-(m as int) <= self@.z <= m as int) by (nonlinear_arith)
                requires
                    self@.z * self@.z <= (m2 as int),
                    (m2 as int) < ((m as int) + 1) * ((m as int) + 1),
                    0 <= m as int,
            ;
            lemma_fdiv_unit(self@.x, m as int);
            lemma_fdiv_unit(self@.y, m as int);
            lemma_fdiv_unit(self@.z, m as int);
        }
        let rx: i128 = ((self.x as i128) * (SCALE as i128)) / (m as i128);
        let ry: i128 = ((self.y as i128) * (SCALE as i128)) / (m as i128);
        let rz: i128 = ((self.z as i128) * (SCALE as i128)) / (m as i128);
        Vec3 { x: rx as i64, y: ry as i64, z: rz as i64 }
    }
}

} // verus!
