//! Composition of integer affine transforms.

use crate::geometry::{Affine, Matrix};
use vstd::arithmetic::mul::{
    lemma_mul_is_associative, lemma_mul_is_distributive_add,
    lemma_mul_is_distributive_add_other_way,
};
use vstd::prelude::*;

verus! {

/// `(x*a + y*b)*u + (x*c + y*d)*v` regrouped around `x` and `y`.
proof fn lemma_dot_assoc(x: int, y: int, a: int, b: int, c: int, d: int, u: int, v: int)
    ensures
        (x * a + y * b) * u + (x * c + y * d) * v == x * (a * u + c * v) + y * (b * u + d * v),
{
    lemma_mul_is_distributive_add_other_way(u, x * a, y * b);
    lemma_mul_is_distributive_add_other_way(v, x * c, y * d);
    lemma_mul_is_associative(x, a, u);
    lemma_mul_is_associative(y, b, u);
    lemma_mul_is_associative(x, c, v);
    lemma_mul_is_associative(y, d, v);
    lemma_mul_is_distributive_add(x, a * u, c * v);
    lemma_mul_is_distributive_add(y, b * u, d * v);
}

impl Matrix {
    pub open spec fn identity() -> Matrix {
        Matrix { a: 1, b: 0, c: 0, d: 1, e: 0, f: 0 }
    }

    /// The product `self * other`: the map that applies `other` first and
    /// `self` second.
    pub open spec fn compose(self, other: Matrix) -> Matrix {
        Matrix {
            a: self.a * other.a + self.c * other.b,
            b: self.b * other.a + self.d * other.b,
            c: self.a * other.c + self.c * other.d,
            d: self.b * other.c + self.d * other.d,
            e: self.a * other.e + self.c * other.f + self.e,
            f: self.b * other.e + self.d * other.f + self.f,
        }
    }

    /// Every coefficient can be held in an `i32`.
    pub open spec fn fits(self) -> bool {
        &&& i32::MIN <= self.a <= i32::MAX
        &&& i32::MIN <= self.b <= i32::MAX
        &&& i32::MIN <= self.c <= i32::MAX
        &&& i32::MIN <= self.d <= i32::MAX
        &&& i32::MIN <= self.e <= i32::MAX
        &&& i32::MIN <= self.f <= i32::MAX
    }

    /// Composition is associative.
    pub proof fn lemma_compose_assoc(p: Matrix, q: Matrix, r: Matrix)
        ensures
            p.compose(q).compose(r) == p.compose(q.compose(r)),
    {
        lemma_dot_assoc(p.a, p.c, q.a, q.b, q.c, q.d, r.a, r.b);
        lemma_dot_assoc(p.b, p.d, q.a, q.b, q.c, q.d, r.a, r.b);
        lemma_dot_assoc(p.a, p.c, q.a, q.b, q.c, q.d, r.c, r.d);
        lemma_dot_assoc(p.b, p.d, q.a, q.b, q.c, q.d, r.c, r.d);
        lemma_dot_assoc(p.a, p.c, q.a, q.b, q.c, q.d, r.e, r.f);
        lemma_dot_assoc(p.b, p.d, q.a, q.b, q.c, q.d, r.e, r.f);
        lemma_mul_is_distributive_add(p.a, q.a * r.e + q.c * r.f, q.e);
        lemma_mul_is_distributive_add(p.c, q.b * r.e + q.d * r.f, q.f);
        lemma_mul_is_distributive_add(p.b, q.a * r.e + q.c * r.f, q.e);
        lemma_mul_is_distributive_add(p.d, q.b * r.e + q.d * r.f, q.f);
    }

    /// The identity is neutral on both sides.
    pub proof fn lemma_compose_identity(p: Matrix)
        ensures
            p.compose(Matrix::identity()) == p,
            Matrix::identity().compose(p) == p,
    {
    }
}

impl View for Affine {
    type V = Matrix;

    open spec fn view(&self) -> Matrix {
        Matrix {
            a: self.a as int,
            b: self.b as int,
            c: self.c as int,
            d: self.d as int,
            e: self.e as int,
            f: self.f as int,
        }
    }
}

/// `x * y + z * w + t` for operands within `i32`, without loss.
fn dot(x: i32, y: i32, z: i32, w: i32, t: i32) -> (r: i128)
    ensures
        r == x * y + z * w + t,
{
    let xy: i64 = product(x, y);
    let zw: i64 = product(z, w);
    xy as i128 + zw as i128 + t as i128
}

fn product(x: i32, y: i32) -> (r: i64)
    ensures
        r == x * y,
{
    assert(-0x8000_0000 * 0x8000_0000 <= x * y <= 0x8000_0000 * 0x8000_0000) by (nonlinear_arith)
        requires
            -0x8000_0000 <= x <= 0x8000_0000,
            -0x8000_0000 <= y <= 0x8000_0000,
    ;
    (x as i64) * (y as i64)
}

fn in_i32(v: i128) -> (r: bool)
    ensures
        r == (i32::MIN <= v <= i32::MAX),
{
    -0x8000_0000 <= v && v <= 0x7fff_ffff
}

impl Affine {
    pub fn identity() -> (t: Affine)
        ensures
            t@ == Matrix::identity(),
    {
        Affine { a: 1, b: 0, c: 0, d: 1, e: 0, f: 0 }
    }

    /// The transform that moves every point by `(dx, dy)`.
    pub fn translate(dx: i32, dy: i32) -> (t: Affine)
        ensures
            t@ == (Matrix { a: 1, b: 0, c: 0, d: 1, e: dx as int, f: dy as int }),
    {
        Affine { a: 1, b: 0, c: 0, d: 1, e: dx, f: dy }
    }

    pub fn new(a: i32, b: i32, c: i32, d: i32, e: i32, f: i32) -> (t: Affine)
        ensures
            t == (Affine { a, b, c, d, e, f }),
    {
        Affine { a, b, c, d, e, f }
    }

    /// The six coefficients, `[a, b, c, d, e, f]`.
    pub fn as_coeffs(&self) -> (k: [i32; 6])
        ensures
            k@ == seq![self.a, self.b, self.c, self.d, self.e, self.f],
    {
        [self.a, self.b, self.c, self.d, self.e, self.f]
    }

    /// The product `self * other`, or `None` where a coefficient of the
    /// product leaves the range of `i32`.
    pub fn checked_mul(&self, other: &Affine) -> (r: Option<Affine>)
        ensures
            r.is_some() == self@.compose(other@).fits(),
            r matches Some(t) ==> t@ == self@.compose(other@),
    {
        let a = dot(self.a, other.a, self.c, other.b, 0);
        let b = dot(self.b, other.a, self.d, other.b, 0);
        let c = dot(self.a, other.c, self.c, other.d, 0);
        let d = dot(self.b, other.c, self.d, other.d, 0);
        let e = dot(self.a, other.e, self.c, other.f, self.e);
        let f = dot(self.b, other.e, self.d, other.f, self.f);
        if in_i32(a) && in_i32(b) && in_i32(c) && in_i32(d) && in_i32(e) && in_i32(f) {
            Some(
                Affine {
                    a: a as i32,
                    b: b as i32,
                    c: c as i32,
                    d: d as i32,
                    e: e as i32,
                    f: f as i32,
                },
            )
        } else {
            None
        }
    }
}

} // verus!
