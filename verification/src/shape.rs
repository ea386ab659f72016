//! Shapes, brushes, and what is handed to a tessellator.

use crate::geometry::{Color, DevicePoint, DeviceRect, Point, Rect};
use vstd::prelude::*;

verus! {

/// An element of a path in user space.
#[derive(Clone, Copy, Debug, PartialEq, Eq, Structural)]
pub enum PathEl {
    MoveTo(Point),
    LineTo(Point),
    QuadTo(Point, Point),
    CurveTo(Point, Point, Point),
    ClosePath,
}

#[derive(Clone, Copy, Debug, PartialEq, Eq, Structural)]
pub struct Circle {
    pub center: Point,
    pub radius: u32,
}

#[derive(Clone, Copy, Debug, PartialEq, Eq, Structural)]
pub struct Line {
    pub start: Point,
    pub end: Point,
}

#[derive(Debug)]
pub enum Shape {
    Rect(Rect),
    Circle(Circle),
    Line(Line),
    Path(Vec<PathEl>),
}

/// What a shape is painted with.
#[derive(Clone, Copy, Debug, PartialEq, Eq, Structural)]
pub enum Brush {
    Solid(Color),
}

/// A step of a path in device space, as a path builder takes it.
#[derive(Clone, Copy, Debug, PartialEq, Eq, Structural)]
pub enum PathEvent {
    Begin(DevicePoint),
    Line(DevicePoint),
    Quadratic(DevicePoint, DevicePoint),
    Cubic(DevicePoint, DevicePoint, DevicePoint),
    End { close: bool },
}

/// The geometry of a tessellation, in device space.
#[derive(Debug)]
pub enum Outline {
    /// The area of a circle.
    FillCircle { center: DevicePoint, radius: u32 },
    /// The border of a rectangle.
    StrokeRect { rect: DeviceRect, width: u32 },
    /// The border of a circle.
    StrokeCircle { center: DevicePoint, radius: u32, width: u32 },
    /// A path, stroked with round caps and round joins.
    StrokePath { events: Vec<PathEvent>, width: u32 },
}

pub enum OutlineView {
    FillCircle { center: DevicePoint, radius: u32 },
    StrokeRect { rect: DeviceRect, width: u32 },
    StrokeCircle { center: DevicePoint, radius: u32, width: u32 },
    StrokePath { events: Seq<PathEvent>, width: u32 },
}

pub enum ShapeView {
    Rect(Rect),
    Circle(Circle),
    Line(Line),
    Path(Seq<PathEl>),
}

/// The tolerance of every tessellation, in thousandths of a device unit,
/// the unit of a mesh position.
pub const TOLERANCE_MILLI: u32 = 20;

impl Brush {
    pub open spec fn color(self) -> Color {
        match self {
            Brush::Solid(c) => c,
        }
    }

    pub fn solid_color(&self) -> (c: Color)
        ensures
            c == self.color(),
    {
        match self {
            Brush::Solid(c) => *c,
        }
    }
}

impl View for Shape {
    type V = ShapeView;

    open spec fn view(&self) -> ShapeView {
        match self {
            Shape::Rect(r) => ShapeView::Rect(*r),
            Shape::Circle(c) => ShapeView::Circle(*c),
            Shape::Line(l) => ShapeView::Line(*l),
            Shape::Path(p) => ShapeView::Path(p@),
        }
    }
}

impl View for Outline {
    type V = OutlineView;

    open spec fn view(&self) -> OutlineView {
        match self {
            Outline::FillCircle { center, radius } => OutlineView::FillCircle {
                center: *center,
                radius: *radius,
            },
            Outline::StrokeRect { rect, width } => OutlineView::StrokeRect {
                rect: *rect,
                width: *width,
            },
            Outline::StrokeCircle { center, radius, width } => OutlineView::StrokeCircle {
                center: *center,
                radius: *radius,
                width: *width,
            },
            Outline::StrokePath { events, width } => OutlineView::StrokePath {
                events: events@,
                width: *width,
            },
        }
    }
}

impl Shape {
    /// The rectangle that the shape is, if it is one.
    pub fn as_rect(&self) -> (r: Option<Rect>)
        ensures
            r == (match self@ {
                ShapeView::Rect(rect) => Some(rect),
                _ => None,
            }),
    {
        match self {
            Shape::Rect(rect) => Some(*rect),
            _ => None,
        }
    }

    /// The circle that the shape is, if it is one.
    pub fn as_circle(&self) -> (r: Option<Circle>)
        ensures
            r == (match self@ {
                ShapeView::Circle(c) => Some(c),
                _ => None,
            }),
    {
        match self {
            Shape::Circle(c) => Some(*c),
            _ => None,
        }
    }
}

/// The builder step that stands for one path element, moved by `(dx, dy)`.
pub open spec fn event_of(el: PathEl, dx: int, dy: int) -> PathEvent {
    match el {
        PathEl::MoveTo(p) => PathEvent::Begin(p.spec_to_device(dx, dy)),
        PathEl::LineTo(p) => PathEvent::Line(p.spec_to_device(dx, dy)),
        PathEl::QuadTo(c, p) => PathEvent::Quadratic(
            c.spec_to_device(dx, dy),
            p.spec_to_device(dx, dy),
        ),
        PathEl::CurveTo(c1, c2, p) => PathEvent::Cubic(
            c1.spec_to_device(dx, dy),
            c2.spec_to_device(dx, dy),
            p.spec_to_device(dx, dy),
        ),
        PathEl::ClosePath => PathEvent::End { close: true },
    }
}

/// Whether a sub-path is open after `els`: the last `MoveTo` has no
/// `ClosePath` behind it.
pub open spec fn open_after(els: Seq<PathEl>) -> bool
    decreases els.len(),
{
    if els.len() == 0 {
        false
    } else {
        match els.last() {
            PathEl::MoveTo(_) => true,
            PathEl::ClosePath => false,
            _ => open_after(els.drop_last()),
        }
    }
}

/// The builder steps for a path: one per element, and an `End` that does
/// not close where a sub-path is left open.
pub open spec fn path_events(els: Seq<PathEl>, dx: int, dy: int) -> Seq<PathEvent> {
    let steps = Seq::new(els.len(), |i: int| event_of(els[i], dx, dy));
    if open_after(els) {
        steps.push(PathEvent::End { close: false })
    } else {
        steps
    }
}

/// The builder steps for a line: a closed sub-path of its two points.
pub open spec fn line_events(line: Line, dx: int, dy: int) -> Seq<PathEvent> {
    seq![
        PathEvent::Begin(line.start.spec_to_device(dx, dy)),
        PathEvent::Line(line.end.spec_to_device(dx, dy)),
        PathEvent::End { close: true },
    ]
}

/// Turns a line into the builder steps of a closed sub-path.
pub fn flatten_line(line: &Line, dx: i32, dy: i32) -> (events: Vec<PathEvent>)
    ensures
        events@ == line_events(*line, dx as int, dy as int),
{
    let mut events: Vec<PathEvent> = Vec::new();
    events.push(PathEvent::Begin(line.start.to_device(dx, dy)));
    events.push(PathEvent::Line(line.end.to_device(dx, dy)));
    events.push(PathEvent::End { close: true });
    assert(events@ =~= line_events(*line, dx as int, dy as int));
    events
}

/// Turns the elements of a path into builder steps in device space.
pub fn flatten_path(els: &Vec<PathEl>, dx: i32, dy: i32) -> (events: Vec<PathEvent>)
    ensures
        events@ == path_events(els@, dx as int, dy as int),
{
    let mut events: Vec<PathEvent> = Vec::new();
    let mut in_subpath = false;
    let n = els.len();
    let mut i: usize = 0;
    while i < n
        invariant
            i <= n,
            n == els@.len(),
            in_subpath == open_after(els@.take(i as int)),
            events@ == Seq::new(i as nat, |j: int| event_of(els@[j], dx as int, dy as int)),
        decreases n - i,
    {
        let event = match els[i] {
            PathEl::MoveTo(p) => {
                in_subpath = true;
                PathEvent::Begin(p.to_device(dx, dy))
            },
            PathEl::LineTo(p) => PathEvent::Line(p.to_device(dx, dy)),
            PathEl::QuadTo(c, p) => PathEvent::Quadratic(c.to_device(dx, dy), p.to_device(dx, dy)),
            PathEl::CurveTo(c1, c2, p) => PathEvent::Cubic(
                c1.to_device(dx, dy),
                c2.to_device(dx, dy),
                p.to_device(dx, dy),
            ),
            PathEl::ClosePath => {
                in_subpath = false;
                PathEvent::End { close: true }
            },
        };
        events.push(event);
        proof {
            assert(els@.take(i + 1).drop_last() == els@.take(i as int));
            assert(els@.take(i + 1).last() == els@[i as int]);
            assert(events@ =~= Seq::new(
                (i + 1) as nat,
                |j: int| event_of(els@[j], dx as int, dy as int),
            ));
        }
        i += 1;
    }
    assert(els@.take(n as int) == els@);
    if in_subpath {
        events.push(PathEvent::End { close: false });
    }
    events
}

} // verus!
