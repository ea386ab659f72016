//! Points, rectangles, colors and integer affine transforms.

use vstd::prelude::*;

verus! {

/// A point in user space.
#[derive(Clone, Copy, Debug, PartialEq, Eq, Structural)]
pub struct Point {
    pub x: i32,
    pub y: i32,
}

/// A point in device space.
#[derive(Clone, Copy, Debug, PartialEq, Eq, Structural)]
pub struct DevicePoint {
    pub x: i64,
    pub y: i64,
}

/// The position of a vertex of a mesh, in thousandths of a device unit, so
/// that what a tessellation resolves is kept.
#[derive(Clone, Copy, Debug, PartialEq, Eq, Structural)]
pub struct MeshPoint {
    pub x: i64,
    pub y: i64,
}

/// The number of units of a [`MeshPoint`] in one device unit.
pub const MESH_UNITS: i64 = 1000;

/// An axis-aligned rectangle in user space, from `(x0, y0)` to `(x1, y1)`.
#[derive(Clone, Copy, Debug, PartialEq, Eq, Structural)]
pub struct Rect {
    pub x0: i32,
    pub y0: i32,
    pub x1: i32,
    pub y1: i32,
}

/// An axis-aligned rectangle in device space.
#[derive(Clone, Copy, Debug, PartialEq, Eq, Structural)]
pub struct DeviceRect {
    pub x0: i64,
    pub y0: i64,
    pub x1: i64,
    pub y1: i64,
}

/// A color with 8-bit channels. Alpha 255 is fully opaque.
#[derive(Clone, Copy, Debug, PartialEq, Eq, Structural)]
pub struct Color {
    pub r: u8,
    pub g: u8,
    pub b: u8,
    pub a: u8,
}

/// A 2x3 affine matrix over the mathematical integers. It maps `(x, y)` to
/// `(a*x + c*y + e, b*x + d*y + f)`.
pub struct Matrix {
    pub a: int,
    pub b: int,
    pub c: int,
    pub d: int,
    pub e: int,
    pub f: int,
}

/// An affine transform with machine-integer coefficients.
#[derive(Clone, Copy, Debug, PartialEq, Eq, Structural)]
pub struct Affine {
    pub a: i32,
    pub b: i32,
    pub c: i32,
    pub d: i32,
    pub e: i32,
    pub f: i32,
}

pub open spec fn max_int(x: int, y: int) -> int {
    if x >= y {
        x
    } else {
        y
    }
}

pub open spec fn min_int(x: int, y: int) -> int {
    if x <= y {
        x
    } else {
        y
    }
}

fn max_i64(x: i64, y: i64) -> (m: i64)
    ensures
        m == max_int(x as int, y as int),
{
    if x >= y {
        x
    } else {
        y
    }
}

fn min_i64(x: i64, y: i64) -> (m: i64)
    ensures
        m == min_int(x as int, y as int),
{
    if x <= y {
        x
    } else {
        y
    }
}

impl Color {
    /// Whether the color hides everything beneath it.
    pub open spec fn opaque(self) -> bool {
        self.a == 255
    }

    pub fn is_opaque(&self) -> (r: bool)
        ensures
            r == self.opaque(),
    {
        self.a == 255
    }

    pub fn rgba8(r: u8, g: u8, b: u8, a: u8) -> (c: Color)
        ensures
            c == (Color { r, g, b, a }),
    {
        Color { r, g, b, a }
    }
}

impl Rect {
    pub fn new(x0: i32, y0: i32, x1: i32, y1: i32) -> (r: Rect)
        ensures
            r == (Rect { x0, y0, x1, y1 }),
    {
        Rect { x0, y0, x1, y1 }
    }

    /// `inner` is a rectangle with `x0 <= x1` and `y0 <= y1` that lies
    /// within `self`.
    pub open spec fn encloses(self, inner: Rect) -> bool {
        &&& self.x0 <= inner.x0 <= inner.x1 <= self.x1
        &&& self.y0 <= inner.y0 <= inner.y1 <= self.y1
    }

    /// The rectangle moved by `(dx, dy)` into device space.
    pub open spec fn spec_to_device(self, dx: int, dy: int) -> DeviceRect {
        DeviceRect {
            x0: (self.x0 + dx) as i64,
            y0: (self.y0 + dy) as i64,
            x1: (self.x1 + dx) as i64,
            y1: (self.y1 + dy) as i64,
        }
    }

    pub fn to_device(&self, dx: i32, dy: i32) -> (r: DeviceRect)
        ensures
            r == self.spec_to_device(dx as int, dy as int),
            r.x0 == self.x0 + dx,
            r.y0 == self.y0 + dy,
            r.x1 == self.x1 + dx,
            r.y1 == self.y1 + dy,
    {
        DeviceRect {
            x0: self.x0 as i64 + dx as i64,
            y0: self.y0 as i64 + dy as i64,
            x1: self.x1 as i64 + dx as i64,
            y1: self.y1 as i64 + dy as i64,
        }
    }
}

impl Point {
    pub fn new(x: i32, y: i32) -> (p: Point)
        ensures
            p == (Point { x, y }),
    {
        Point { x, y }
    }

    /// The point moved by `(dx, dy)` into device space.
    pub open spec fn spec_to_device(self, dx: int, dy: int) -> DevicePoint {
        DevicePoint { x: (self.x + dx) as i64, y: (self.y + dy) as i64 }
    }

    pub fn to_device(&self, dx: i32, dy: i32) -> (p: DevicePoint)
        ensures
            p == self.spec_to_device(dx as int, dy as int),
            p.x == self.x + dx,
            p.y == self.y + dy,
    {
        DevicePoint { x: self.x as i64 + dx as i64, y: self.y as i64 + dy as i64 }
    }
}

impl DeviceRect {
    /// The rectangle that stands for "no clip": all four edges at zero.
    pub open spec fn spec_zero() -> DeviceRect {
        DeviceRect { x0: 0, y0: 0, x1: 0, y1: 0 }
    }

    pub fn zero() -> (r: DeviceRect)
        ensures
            r == Self::spec_zero(),
    {
        DeviceRect { x0: 0, y0: 0, x1: 0, y1: 0 }
    }

    /// `inner` is a rectangle with `x0 <= x1` and `y0 <= y1` that lies
    /// within `self`.
    pub open spec fn encloses(self, inner: DeviceRect) -> bool {
        &&& self.x0 <= inner.x0 <= inner.x1 <= self.x1
        &&& self.y0 <= inner.y0 <= inner.y1 <= self.y1
    }

    /// The intersection of `self` with `other`. Where the two do not overlap
    /// the result has zero width or height, and is never inverted.
    pub open spec fn spec_intersect(self, other: DeviceRect) -> DeviceRect {
        let x0 = max_int(self.x0 as int, other.x0 as int);
        let y0 = max_int(self.y0 as int, other.y0 as int);
        let x1 = min_int(self.x1 as int, other.x1 as int);
        let y1 = min_int(self.y1 as int, other.y1 as int);
        DeviceRect {
            x0: x0 as i64,
            y0: y0 as i64,
            x1: max_int(x1, x0) as i64,
            y1: max_int(y1, y0) as i64,
        }
    }

    /// The part of `self` that lies within `other`.
    pub fn intersect(&self, other: &DeviceRect) -> (r: DeviceRect)
        ensures
            r == self.spec_intersect(*other),
    {
        let x0 = max_i64(self.x0, other.x0);
        let y0 = max_i64(self.y0, other.y0);
        let x1 = min_i64(self.x1, other.x1);
        let y1 = min_i64(self.y1, other.y1);
        DeviceRect { x0, y0, x1: max_i64(x1, x0), y1: max_i64(y1, y0) }
    }

    /// The rectangle grown by `by` on every side, edges held within `i64`.
    pub open spec fn spec_inflate(self, by: int) -> DeviceRect {
        DeviceRect {
            x0: clamp_i64(self.x0 - by),
            y0: clamp_i64(self.y0 - by),
            x1: clamp_i64(self.x1 + by),
            y1: clamp_i64(self.y1 + by),
        }
    }

    /// The rectangle grown by `by` on every side.
    pub fn inflate(&self, by: u64) -> (r: DeviceRect)
        ensures
            r == self.spec_inflate(by as int),
    {
        DeviceRect {
            x0: sub_clamped(self.x0, by),
            y0: sub_clamped(self.y0, by),
            x1: add_clamped(self.x1, by),
            y1: add_clamped(self.y1, by),
        }
    }
}

/// `v` held within the range of `i64`.
pub open spec fn clamp_i64(v: int) -> i64 {
    if v < i64::MIN {
        i64::MIN
    } else if v > i64::MAX {
        i64::MAX
    } else {
        v as i64
    }
}

fn add_clamped(x: i64, by: u64) -> (r: i64)
    ensures
        r == clamp_i64(x + by),
{
    let wide: i128 = x as i128 + by as i128;
    if wide > i64::MAX as i128 {
        i64::MAX
    } else {
        wide as i64
    }
}

fn sub_clamped(x: i64, by: u64) -> (r: i64)
    ensures
        r == clamp_i64(x - by),
{
    let wide: i128 = x as i128 - by as i128;
    if wide < i64::MIN as i128 {
        i64::MIN
    } else {
        wide as i64
    }
}

} // verus!
