//! The draw context: the drawing calls of one frame.

use crate::command::{frame_setup, layer_pass, strictly_ascending, DrawCommand};
use crate::error::DrawError;
use crate::geometry::{Affine, Color, DeviceRect, Matrix, Point, Rect};
use crate::image::{result_view, Image};
use crate::layer::{Layer, LayerView};
use crate::mesh::{triangle_list, Triangles};
use crate::records::{AtlasRect, BlurQuad, Primitive, Quad, Tex};
use crate::shape::{
    flatten_line, flatten_path, line_events, path_events, Brush, Outline, OutlineView, Shape,
    ShapeView, TOLERANCE_MILLI,
};
use crate::state::{StackView, StateStack};
use vstd::prelude::*;

verus! {

/// A glyph of a laid-out run: where it goes, relative to the origin of the
/// layout, and where it lies in the atlas.
#[derive(Clone, Copy, Debug, PartialEq, Eq, Structural)]
pub struct Glyph {
    pub rect: Rect,
    pub tex_rect: AtlasRect,
    pub color: Color,
    /// Whether the atlas holds the glyph in color; otherwise it holds a
    /// coverage mask.
    pub colored: bool,
}

/// What a text layout hands over for drawing.
#[derive(Debug)]
pub struct TextLayout {
    pub glyphs: Vec<Glyph>,
}

/// A shape that is left to tessellate, with all that its vertices carry and
/// the place where the mesh goes.
#[derive(Debug)]
pub struct MeshJob {
    pub outline: Outline,
    pub color: Color,
    pub depth: u32,
    pub clip: DeviceRect,
    /// Whether the mesh goes to a transparent bucket.
    pub transparent: bool,
    /// The alpha-layer index at the time of the drawing call.
    pub alpha_depth: usize,
    /// The tolerance of the tessellation, in thousandths of a device unit.
    pub tolerance_milli: u32,
}

pub struct MeshJobView {
    pub outline: OutlineView,
    pub color: Color,
    pub depth: u32,
    pub clip: DeviceRect,
    pub transparent: bool,
    pub alpha_depth: usize,
    pub tolerance_milli: u32,
}

impl View for MeshJob {
    type V = MeshJobView;

    open spec fn view(&self) -> MeshJobView {
        MeshJobView {
            outline: self.outline@,
            color: self.color,
            depth: self.depth,
            clip: self.clip,
            transparent: self.transparent,
            alpha_depth: self.alpha_depth,
            tolerance_milli: self.tolerance_milli,
        }
    }
}

/// The state of one frame: the save/restore stack, the layer, the snapshots
/// of translation and clip, and the depth counter.
pub struct DrawContext {
    stack: StateStack,
    layer: Layer,
    primitives: Vec<Primitive>,
    depth: u32,
}

pub struct ContextView {
    pub stack: StackView,
    pub layer: LayerView,
    pub primitives: Seq<Primitive>,
    pub depth: u32,
}

/// The color of an image that is drawn as it is.
pub open spec fn no_color() -> Color {
    Color { r: 0, g: 0, b: 0, a: 0 }
}

/// The record of a glyph of a layout drawn at `(dx, dy)`.
pub open spec fn glyph_tex(g: Glyph, dx: int, dy: int, depth: u32, clip: DeviceRect) -> Tex {
    Tex { rect: g.rect.spec_to_device(dx, dy), tex_rect: g.tex_rect, color: g.color, depth, clip }
}

/// The records of those glyphs that are colored, or of those that are not,
/// in the order of the layout.
pub open spec fn glyph_texs(
    glyphs: Seq<Glyph>,
    colored: bool,
    dx: int,
    dy: int,
    depth: u32,
    clip: DeviceRect,
) -> Seq<Tex>
    decreases glyphs.len(),
{
    if glyphs.len() == 0 {
        Seq::empty()
    } else {
        let rest = glyph_texs(glyphs.drop_last(), colored, dx, dy, depth, clip);
        if glyphs.last().colored == colored {
            rest.push(glyph_tex(glyphs.last(), dx, dy, depth, clip))
        } else {
            rest
        }
    }
}

impl ContextView {
    /// The snapshot of translation and clip that is taken of `stack`.
    pub open spec fn snapshot(stack: StackView) -> Primitive {
        Primitive {
            translate: Point { x: stack.transform.e as i32, y: stack.transform.f as i32 },
            clip_rect: stack.current_clip(),
        }
    }

    pub open spec fn initial() -> ContextView {
        ContextView {
            stack: StackView::initial(),
            layer: LayerView::empty(),
            primitives: seq![Self::snapshot(StackView::initial())],
            depth: 0,
        }
    }

    /// The context with a changed transform or clip, of which a snapshot is
    /// taken.
    pub open spec fn moved(self, stack: StackView) -> ContextView {
        ContextView { stack, primitives: self.primitives.push(Self::snapshot(stack)), ..self }
    }

    pub open spec fn save(self) -> ContextView {
        ContextView { stack: self.stack.save(), ..self }
    }

    pub open spec fn restore(self) -> ContextView {
        if self.stack.states.len() == 0 {
            self
        } else {
            self.moved(self.stack.restore())
        }
    }

    pub open spec fn transform(self, m: Matrix) -> ContextView {
        self.moved(self.stack.transform(m))
    }

    /// A rectangle is intersected with the clip; any other shape is ignored.
    pub open spec fn clip_nested(self, shape: ShapeView) -> ContextView {
        match shape {
            ShapeView::Rect(r) => self.moved(self.stack.clip_nested(r)),
            _ => self,
        }
    }

    /// A rectangle replaces the clip; any other shape is ignored.
    pub open spec fn clip_override(self, shape: ShapeView) -> ContextView {
        match shape {
            ShapeView::Rect(r) => self.moved(self.stack.clip_override(r)),
            _ => self,
        }
    }

    /// The depth of the next drawing call.
    pub open spec fn next_depth(self) -> u32 {
        (self.depth + 1) as u32
    }

    /// The quad that filling `r` with `color` emits.
    pub open spec fn filled_quad(self, r: Rect, color: Color) -> Quad {
        Quad {
            rect: self.stack.to_device(r),
            color,
            depth: self.next_depth(),
            clip: self.stack.current_clip(),
        }
    }

    /// The layer with the mesh for geometry of `color` in place: for a color
    /// that is not opaque the bucket of the current alpha-layer index exists
    /// afterwards.
    pub open spec fn layer_prepared(self, color: Color) -> LayerView {
        self.layer.with_triangles(
            !color.opaque(),
            self.stack.alpha_depth,
            self.layer.triangles_of(!color.opaque(), self.stack.alpha_depth),
        )
    }

    /// The job for `outline`, issued by the next drawing call.
    pub open spec fn job(self, outline: OutlineView, color: Color) -> MeshJobView {
        MeshJobView {
            outline,
            color,
            depth: self.next_depth(),
            clip: self.stack.current_clip(),
            transparent: !color.opaque(),
            alpha_depth: self.stack.alpha_depth,
            tolerance_milli: TOLERANCE_MILLI,
        }
    }

    /// The context after `fill`: the depth counter has advanced; a rectangle
    /// has become one quad; for a circle the mesh is in place; any other
    /// shape has left no trace.
    pub open spec fn fill(self, shape: ShapeView, brush: Brush) -> ContextView {
        let color = brush.color();
        match shape {
            ShapeView::Rect(r) => ContextView {
                depth: self.next_depth(),
                layer: self.layer.add_quad(self.filled_quad(r, color), self.stack.alpha_depth),
                ..self
            },
            ShapeView::Circle(_) => ContextView {
                depth: self.next_depth(),
                layer: self.layer_prepared(color),
                ..self
            },
            _ => ContextView { depth: self.next_depth(), ..self },
        }
    }

    /// What `fill` leaves to tessellate: the area of a circle, and nothing
    /// for any other shape.
    pub open spec fn fill_job(self, shape: ShapeView, brush: Brush) -> Option<MeshJobView> {
        match shape {
            ShapeView::Circle(c) => Some(
                self.job(
                    OutlineView::FillCircle {
                        center: c.center.spec_to_device(
                            self.stack.transform.e,
                            self.stack.transform.f,
                        ),
                        radius: c.radius,
                    },
                    brush.color(),
                ),
            ),
            _ => None,
        }
    }

    /// The border of `shape` in device space.
    pub open spec fn stroke_outline(self, shape: ShapeView, width: u32) -> OutlineView {
        let dx = self.stack.transform.e;
        let dy = self.stack.transform.f;
        match shape {
            ShapeView::Rect(r) => OutlineView::StrokeRect { rect: self.stack.to_device(r), width },
            ShapeView::Line(l) => OutlineView::StrokePath { events: line_events(l, dx, dy), width },
            ShapeView::Circle(c) => OutlineView::StrokeCircle {
                center: c.center.spec_to_device(dx, dy),
                radius: c.radius,
                width,
            },
            ShapeView::Path(els) => OutlineView::StrokePath {
                events: path_events(els, dx, dy),
                width,
            },
        }
    }

    /// The context after `stroke`: the depth counter has advanced and the
    /// mesh for the stroke is in place.
    pub open spec fn stroke(self, brush: Brush) -> ContextView {
        ContextView {
            depth: self.next_depth(),
            layer: self.layer_prepared(brush.color()),
            ..self
        }
    }

    /// What `stroke` leaves to tessellate.
    pub open spec fn stroke_job(self, shape: ShapeView, brush: Brush, width: u32) -> MeshJobView {
        self.job(self.stroke_outline(shape, width), brush.color())
    }

    /// The context after the mesh of `job` has arrived.
    pub open spec fn add_mesh(self, job: MeshJobView, tri: Triangles) -> ContextView {
        ContextView {
            layer: self.layer.add_triangles(
                job.transparent,
                job.alpha_depth,
                tri,
                job.color,
                job.depth,
                job.clip,
            ),
            ..self
        }
    }

    /// The blurred quad for `rect`: the outer rectangle is `rect` in device
    /// space grown by three times the radius, the inner one is `rect` itself.
    pub open spec fn blurred_quad(self, rect: Rect, blur_radius: u32, color: Color) -> BlurQuad {
        BlurQuad {
            rect: self.stack.to_device(rect).spec_inflate(3 * blur_radius),
            blur_rect: self.stack.to_device(rect),
            blur_radius,
            color,
            depth: self.next_depth(),
            clip: self.stack.current_clip(),
        }
    }

    pub open spec fn blurred_rect(self, rect: Rect, blur_radius: u32, brush: Brush) -> ContextView {
        ContextView {
            depth: self.next_depth(),
            layer: self.layer.add_blurred_quad(
                self.blurred_quad(rect, blur_radius, brush.color()),
                self.stack.alpha_depth,
            ),
            ..self
        }
    }

    /// The record of an image drawn into `rect` from `tex_rect` of the atlas.
    pub open spec fn image_tex(self, tex_rect: AtlasRect, rect: Rect, color: Color) -> Tex {
        Tex {
            rect: self.stack.to_device(rect),
            tex_rect,
            color,
            depth: self.depth,
            clip: self.stack.current_clip(),
        }
    }

    /// The context after an image is drawn: with an atlas rectangle it has
    /// one more atlas record; without, it is as it was.
    pub open spec fn draw_image(
        self,
        cached: Result<AtlasRect, DrawError>,
        rect: Rect,
        color: Color,
    ) -> ContextView {
        match cached {
            Ok(tex_rect) => ContextView {
                layer: self.layer.add_atlas(
                    self.image_tex(tex_rect, rect, color),
                    self.stack.alpha_depth,
                ),
                ..self
            },
            Err(_) => self,
        }
    }

    /// The context after a layout is drawn with its origin at `pos`: the
    /// mask glyphs and the colored glyphs are appended to their batches.
    pub open spec fn draw_text(self, glyphs: Seq<Glyph>, pos: Point) -> ContextView {
        let dx = pos.x + self.stack.transform.e;
        let dy = pos.y + self.stack.transform.f;
        let clip = self.stack.current_clip();
        let k = self.stack.alpha_depth;
        ContextView {
            layer: self.layer.add_text(
                glyph_texs(glyphs, false, dx, dy, self.depth, clip),
                k,
            ).add_color_text(glyph_texs(glyphs, true, dx, dy, self.depth, clip), k),
            ..self
        }
    }
}

fn shifted(rect: Rect, dx: i64, dy: i64) -> (r: DeviceRect)
    requires
        -0x1_0000_0000 <= dx <= 0x1_0000_0000,
        -0x1_0000_0000 <= dy <= 0x1_0000_0000,
    ensures
        r == rect.spec_to_device(dx as int, dy as int),
{
    DeviceRect {
        x0: rect.x0 as i64 + dx,
        y0: rect.y0 as i64 + dy,
        x1: rect.x1 as i64 + dx,
        y1: rect.y1 as i64 + dy,
    }
}

impl View for DrawContext {
    type V = ContextView;

    closed spec fn view(&self) -> ContextView {
        ContextView {
            stack: self.stack@,
            layer: self.layer@,
            primitives: self.primitives@,
            depth: self.depth,
        }
    }
}

impl DrawContext {
    /// The stack and the layer are well formed.
    pub closed spec fn wf(&self) -> bool {
        &&& self.stack.wf()
        &&& self.layer.wf()
    }

    /// The alpha-layer indices of the transparent buckets, in the order in
    /// which `finish` composites them.
    pub closed spec fn compositing_order(&self) -> Seq<usize> {
        self.layer.depths()
    }

    /// What holds of every well-formed context: the stack is well formed,
    /// every mesh of the layer is, and the compositing order is strictly
    /// ascending over exactly the transparent buckets that exist.
    pub proof fn lemma_wf(&self)
        requires
            self.wf(),
        ensures
            self@.stack.wf(),
            self@.layer.triangles.wf(),
            forall|k: usize|
                self@.layer.transparent.dom().contains(k) ==> (
                #[trigger] self@.layer.transparent[k]).triangles.wf(),
            strictly_ascending(self.compositing_order()),
            forall|k: usize|
                self.compositing_order().contains(k) <==> self@.layer.transparent.dom().contains(k),
    {
        self.stack.lemma_wf();
        self.layer.lemma_depths();
    }

    /// A context for a new frame: nothing saved, no clip, nothing drawn.
    pub fn new() -> (ctx: DrawContext)
        ensures
            ctx.wf(),
            ctx@ == ContextView::initial(),
    {
        let mut ctx = DrawContext {
            stack: StateStack::new(),
            layer: Layer::new(),
            primitives: Vec::new(),
            depth: 0,
        };
        ctx.add_primitive();
        assert(ctx@.primitives =~= seq![ContextView::snapshot(StackView::initial())]);
        ctx
    }

    /// Takes a snapshot of the translation and the clip in effect.
    fn add_primitive(&mut self)
        ensures
            final(self).stack == old(self).stack,
            final(self).layer == old(self).layer,
            final(self).depth == old(self).depth,
            final(self).primitives@ == old(self).primitives@.push(
                ContextView::snapshot(old(self).stack@),
            ),
    {
        let translate = self.stack.translation();
        let clip_rect = self.stack.current_clip();
        self.primitives.push(Primitive { translate, clip_rect });
    }

    pub fn current_transform(&self) -> (t: Affine)
        ensures
            t@ == self@.stack.transform,
    {
        self.stack.current_transform()
    }

    /// The clip in effect, if there is one.
    pub fn get_current_clip(&self) -> (r: Option<DeviceRect>)
        ensures
            r == self@.stack.get_current_clip(),
    {
        self.stack.get_current_clip()
    }

    /// The clip in effect; the zero rectangle where there is none.
    pub fn current_clip(&self) -> (r: DeviceRect)
        ensures
            r == self@.stack.current_clip(),
    {
        self.stack.current_clip()
    }

    /// The number of drawing calls that advanced the depth counter.
    pub fn depth(&self) -> (d: u32)
        ensures
            d == self@.depth,
    {
        self.depth
    }

    /// The alpha-layer index in effect.
    pub fn alpha_depth(&self) -> (k: usize)
        ensures
            k == self@.stack.alpha_depth,
    {
        self.stack.alpha_depth()
    }

    /// The number of save-points.
    pub fn save_depth(&self) -> (n: usize)
        ensures
            n == self@.stack.states.len(),
    {
        self.stack.save_depth()
    }

    /// The number of clips on the stack.
    pub fn clip_depth(&self) -> (n: usize)
        ensures
            n == self@.stack.clips.len(),
    {
        self.stack.clip_depth()
    }

    /// The geometry of the frame so far.
    pub fn layer(&self) -> (layer: &Layer)
        requires
            self.wf(),
        ensures
            layer.wf(),
            layer@ == self@.layer,
            layer.depths() == self.compositing_order(),
    {
        &self.layer
    }

    /// The snapshots taken so far, oldest first.
    pub fn primitives(&self) -> (p: &Vec<Primitive>)
        ensures
            p@ == self@.primitives,
    {
        &self.primitives
    }

    pub fn solid_brush(&self, color: Color) -> (b: Brush)
        ensures
            b == Brush::Solid(color),
    {
        Brush::Solid(color)
    }

    /// Sets the alpha-layer index that transparent geometry is filed under
    /// from now on.
    pub fn set_alpha_depth(&mut self, alpha_depth: usize)
        requires
            old(self).wf(),
        ensures
            final(self).wf(),
            final(self)@ == (ContextView {
                stack: old(self)@.stack.set_alpha_depth(alpha_depth),
                ..old(self)@
            }),
    {
        self.stack.set_alpha_depth(alpha_depth);
    }

    /// Moves on to the next alpha-layer index.
    pub fn incr_alpha_depth(&mut self)
        requires
            old(self).wf(),
            old(self)@.stack.alpha_depth < usize::MAX,
        ensures
            final(self).wf(),
            final(self)@ == (ContextView {
                stack: old(self)@.stack.incr_alpha_depth(),
                ..old(self)@
            }),
    {
        self.stack.incr_alpha_depth();
    }

    /// Pushes a save-point that holds the transform and the alpha-layer
    /// index in effect.
    pub fn save(&mut self) -> (r: Result<(), DrawError>)
        requires
            old(self).wf(),
        ensures
            final(self).wf(),
            r.is_ok(),
            final(self)@ == old(self)@.save(),
    {
        self.stack.save();
        Ok(())
    }

    /// Goes back to the last save-point. Without one the call fails and
    /// nothing changes.
    pub fn restore(&mut self) -> (r: Result<(), DrawError>)
        requires
            old(self).wf(),
        ensures
            final(self).wf(),
            final(self)@ == old(self)@.restore(),
            old(self)@.stack.states.len() == 0 ==> r == Err::<(), DrawError>(
                DrawError::StackImbalance,
            ) && final(self)@ == old(self)@,
            old(self)@.stack.states.len() > 0 ==> r.is_ok(),
    {
        match self.stack.restore() {
            Ok(()) => {
                self.add_primitive();
                Ok(())
            },
            Err(e) => Err(e),
        }
    }

    /// Ends a scope that began with `save`, whatever came of the drawing in
    /// it: the state is restored in any case, and a failure of the drawing
    /// goes before one of the restoring.
    pub fn end_save(&mut self, drawn: Result<(), DrawError>) -> (r: Result<(), DrawError>)
        requires
            old(self).wf(),
        ensures
            final(self).wf(),
            final(self)@ == old(self)@.restore(),
            r == (match drawn {
                Err(e) => Err::<(), DrawError>(e),
                Ok(_) => if old(self)@.stack.states.len() == 0 {
                    Err::<(), DrawError>(DrawError::StackImbalance)
                } else {
                    Ok::<(), DrawError>(())
                },
            }),
    {
        let restored = self.restore();
        match drawn {
            Err(e) => Err(e),
            Ok(()) => match restored {
                Ok(()) => Ok(()),
                Err(e) => Err(e),
            },
        }
    }

    /// Whether `transform(m)` can be called: the coefficients of the
    /// product fit.
    pub fn can_transform(&self, m: &Affine) -> (r: bool)
        ensures
            r == self@.stack.can_transform(m@),
    {
        self.stack.can_transform(m)
    }

    /// Multiplies `m` onto the current transform from the right.
    pub fn transform(&mut self, m: Affine)
        requires
            old(self).wf(),
            old(self)@.stack.can_transform(m@),
        ensures
            final(self).wf(),
            final(self)@ == old(self)@.transform(m@),
    {
        self.stack.transform(m);
        self.add_primitive();
    }

    /// Makes `shape` the clip, whatever the clip in effect, if `shape` is a
    /// rectangle.
    pub fn clip_override(&mut self, shape: &Shape)
        requires
            old(self).wf(),
        ensures
            final(self).wf(),
            final(self)@ == old(self)@.clip_override(shape@),
    {
        match shape.as_rect() {
            Some(rect) => {
                self.stack.clip_override(rect);
                self.add_primitive();
            },
            None => {},
        }
    }

    /// Intersects `shape` with the clip in effect, if `shape` is a rectangle.
    pub fn clip_nested(&mut self, shape: &Shape)
        requires
            old(self).wf(),
        ensures
            final(self).wf(),
            final(self)@ == old(self)@.clip_nested(shape@),
    {
        match shape.as_rect() {
            Some(rect) => {
                self.stack.clip_nested(rect);
                self.add_primitive();
            },
            None => {},
        }
    }

    /// Narrows the clip to `shape`, if `shape` is a rectangle.
    pub fn clip(&mut self, shape: &Shape)
        requires
            old(self).wf(),
        ensures
            final(self).wf(),
            final(self)@ == old(self)@.clip_nested(shape@),
    {
        self.clip_nested(shape);
    }

    /// Fills `shape`. A rectangle becomes a quad at once. For a circle the
    /// call returns what is left to tessellate; the mesh is handed to
    /// `add_mesh`.
    pub fn fill(&mut self, shape: &Shape, brush: &Brush) -> (job: Option<MeshJob>)
        requires
            old(self).wf(),
            old(self)@.depth < u32::MAX,
        ensures
            final(self).wf(),
            final(self)@ == old(self)@.fill(shape@, *brush),
            job.is_some() == old(self)@.fill_job(shape@, *brush).is_some(),
            job matches Some(j) ==> Some(j@) == old(self)@.fill_job(shape@, *brush),
    {
        let origin = self.stack.translation();
        let clip = self.stack.current_clip();
        self.depth += 1;
        let depth = self.depth;
        let color = brush.solid_color();
        let alpha_depth = self.stack.alpha_depth();
        match shape.as_rect() {
            Some(rect) => {
                let device = rect.to_device(origin.x, origin.y);
                self.layer.add_quad(device, color, depth, clip, alpha_depth);
                None
            },
            None => match shape.as_circle() {
                Some(circle) => {
                    let transparent = !color.is_opaque();
                    self.layer.get_triangles(transparent, alpha_depth);
                    Some(
                        MeshJob {
                            outline: Outline::FillCircle {
                                center: circle.center.to_device(origin.x, origin.y),
                                radius: circle.radius,
                            },
                            color,
                            depth,
                            clip,
                            transparent,
                            alpha_depth,
                            tolerance_milli: TOLERANCE_MILLI,
                        },
                    )
                },
                None => None,
            },
        }
    }

    /// Strokes `shape` with a line of `width`. The call returns what is left
    /// to tessellate; the mesh is handed to `add_mesh`.
    pub fn stroke(&mut self, shape: &Shape, brush: &Brush, width: u32) -> (job: MeshJob)
        requires
            old(self).wf(),
            old(self)@.depth < u32::MAX,
        ensures
            final(self).wf(),
            final(self)@ == old(self)@.stroke(*brush),
            job@ == old(self)@.stroke_job(shape@, *brush, width),
    {
        let origin = self.stack.translation();
        self.depth += 1;
        let depth = self.depth;
        let color = brush.solid_color();
        let clip = self.stack.current_clip();
        let alpha_depth = self.stack.alpha_depth();
        let transparent = !color.is_opaque();
        self.layer.get_triangles(transparent, alpha_depth);
        let outline = match shape {
            Shape::Rect(rect) => Outline::StrokeRect {
                rect: rect.to_device(origin.x, origin.y),
                width,
            },
            Shape::Line(line) => Outline::StrokePath {
                events: flatten_line(line, origin.x, origin.y),
                width,
            },
            Shape::Circle(circle) => Outline::StrokeCircle {
                center: circle.center.to_device(origin.x, origin.y),
                radius: circle.radius,
                width,
            },
            Shape::Path(els) => Outline::StrokePath {
                events: flatten_path(els, origin.x, origin.y),
                width,
            },
        };
        MeshJob {
            outline,
            color,
            depth,
            clip,
            transparent,
            alpha_depth,
            tolerance_milli: TOLERANCE_MILLI,
        }
    }

    /// Takes the mesh of a tessellated shape into the bucket that `job`
    /// names. Returns whether the bucket's mesh had room for it; where it
    /// had none, the mesh is dropped.
    pub fn add_mesh(&mut self, job: &MeshJob, tri: &Triangles) -> (done: bool)
        requires
            old(self).wf(),
            triangle_list(*tri),
        ensures
            final(self).wf(),
            final(self)@ == old(self)@.add_mesh(job@, *tri),
            done == old(self)@.layer.has_room(
                job.transparent,
                job.alpha_depth,
                tri.vertices@.len(),
            ),
    {
        self.layer.add_triangles(
            job.transparent,
            job.alpha_depth,
            tri,
            job.color,
            job.depth,
            job.clip,
        )
    }

    /// Filling by the even-odd rule is not drawn: nothing changes.
    pub fn fill_even_odd(&mut self, shape: &Shape, brush: &Brush) -> (r: Result<(), DrawError>)
        ensures
            *final(self) == *old(self),
            r == Err::<(), DrawError>(DrawError::Unsupported),
    {
        Err(DrawError::Unsupported)
    }

    /// Styled strokes are not drawn: nothing changes.
    pub fn stroke_styled(&mut self, shape: &Shape, brush: &Brush, width: u32) -> (r: Result<
        (),
        DrawError,
    >)
        ensures
            *final(self) == *old(self),
            r == Err::<(), DrawError>(DrawError::Unsupported),
    {
        Err(DrawError::Unsupported)
    }

    /// Draws a rectangle with a blurred edge.
    pub fn blurred_rect(&mut self, rect: Rect, blur_radius: u32, brush: &Brush)
        requires
            old(self).wf(),
            old(self)@.depth < u32::MAX,
        ensures
            final(self).wf(),
            final(self)@ == old(self)@.blurred_rect(rect, blur_radius, *brush),
    {
        self.depth += 1;
        let depth = self.depth;
        let origin = self.stack.translation();
        let clip = self.stack.current_clip();
        let inner = rect.to_device(origin.x, origin.y);
        let outer = inner.inflate(3 * (blur_radius as u64));
        let color = brush.solid_color();
        let alpha_depth = self.stack.alpha_depth();
        self.layer.add_blurred_quad(outer, inner, blur_radius, color, depth, clip, alpha_depth);
    }

    /// Decodes the bytes of a raster image and names it by the digest of
    /// the bytes. The call fails where the decoder refuses `buf`, and makes
    /// no image then.
    pub fn make_image(&self, buf: &[u8]) -> (r: Result<Image, DrawError>)
        ensures
            Image::decodes(buf@, result_view(r)),
    {
        Image::from_bytes(buf)
    }

    /// Draws an image into `dst_rect`, given the rectangle that the atlas
    /// holds it in. Where the atlas has none, nothing is drawn.
    pub fn draw_image(&mut self, cached: Result<AtlasRect, DrawError>, dst_rect: Rect)
        requires
            old(self).wf(),
        ensures
            final(self).wf(),
            final(self)@ == old(self)@.draw_image(cached, dst_rect, no_color()),
    {
        self.draw_atlas(cached, dst_rect, Color { r: 0, g: 0, b: 0, a: 0 });
    }

    /// Draws a vector icon into `rect`, given the rectangle that the atlas
    /// holds it in, in `override_color` if there is one. Where the atlas has
    /// no rectangle, nothing is drawn.
    pub fn draw_svg(
        &mut self,
        cached: Result<AtlasRect, DrawError>,
        rect: Rect,
        override_color: Option<Color>,
    )
        requires
            old(self).wf(),
        ensures
            final(self).wf(),
            final(self)@ == old(self)@.draw_image(
                cached,
                rect,
                match override_color {
                    Some(c) => c,
                    None => no_color(),
                },
            ),
    {
        let color = match override_color {
            Some(c) => c,
            None => Color { r: 0, g: 0, b: 0, a: 0 },
        };
        self.draw_atlas(cached, rect, color);
    }

    fn draw_atlas(&mut self, cached: Result<AtlasRect, DrawError>, rect: Rect, color: Color)
        requires
            old(self).wf(),
        ensures
            final(self).wf(),
            final(self)@ == old(self)@.draw_image(cached, rect, color),
    {
        let depth = self.depth;
        let origin = self.stack.translation();
        let clip = self.stack.current_clip();
        match cached {
            Ok(tex_rect) => {
                let tex = Tex {
                    rect: rect.to_device(origin.x, origin.y),
                    tex_rect,
                    color,
                    depth,
                    clip,
                };
                self.layer.add_atlas(tex, self.stack.alpha_depth());
            },
            Err(_) => {},
        }
    }

    /// Draws the glyphs of `layout` with the origin of the layout at `pos`:
    /// colored glyphs and mask glyphs go to their own batches of the bucket
    /// of the current alpha-layer index.
    pub fn draw_text(&mut self, layout: &TextLayout, pos: Point)
        requires
            old(self).wf(),
        ensures
            final(self).wf(),
            final(self)@ == old(self)@.draw_text(layout.glyphs@, pos),
    {
        let origin = self.stack.translation();
        let dx: i64 = pos.x as i64 + origin.x as i64;
        let dy: i64 = pos.y as i64 + origin.y as i64;
        let clip = self.stack.current_clip();
        let depth = self.depth;
        let mut masks: Vec<Tex> = Vec::new();
        let mut colored: Vec<Tex> = Vec::new();
        let n = layout.glyphs.len();
        let mut i: usize = 0;
        while i < n
            invariant
                i <= n,
                n == layout.glyphs@.len(),
                -0x1_0000_0000 <= dx <= 0x1_0000_0000,
                -0x1_0000_0000 <= dy <= 0x1_0000_0000,
                masks@ == glyph_texs(
                    layout.glyphs@.take(i as int),
                    false,
                    dx as int,
                    dy as int,
                    depth,
                    clip,
                ),
                colored@ == glyph_texs(
                    layout.glyphs@.take(i as int),
                    true,
                    dx as int,
                    dy as int,
                    depth,
                    clip,
                ),
            decreases n - i,
        {
            let g = layout.glyphs[i];
            let tex = Tex {
                rect: shifted(g.rect, dx, dy),
                tex_rect: g.tex_rect,
                color: g.color,
                depth,
                clip,
            };
            proof {
                assert(layout.glyphs@.take(i + 1).drop_last() == layout.glyphs@.take(i as int));
                assert(layout.glyphs@.take(i + 1).last() == g);
            }
            if g.colored {
                colored.push(tex);
            } else {
                masks.push(tex);
            }
            i += 1;
        }
        assert(layout.glyphs@.take(n as int) == layout.glyphs@);
        let alpha_depth = self.stack.alpha_depth();
        self.layer.add_text(masks, alpha_depth);
        self.layer.add_color_text(colored, alpha_depth);
    }

    /// The commands of the frame: the buffers are cleared and the depth test
    /// set up, then the layer is drawn, the opaque bucket first and the
    /// transparent buckets in ascending order of their alpha-layer index,
    /// with the depth counter as the depth to normalize by.
    pub fn finish(&mut self) -> (r: Result<Vec<DrawCommand>, DrawError>)
        requires
            old(self).wf(),
        ensures
            final(self).wf(),
            final(self)@ == old(self)@,
            final(self).compositing_order() == old(self).compositing_order(),
            r matches Ok(cmds) && cmds@ == frame_setup() + layer_pass(
                old(self)@.layer,
                old(self).compositing_order(),
                old(self)@.depth,
            ),
            strictly_ascending(old(self).compositing_order()),
            forall|k: usize|
                old(self).compositing_order().contains(k) <==> old(
                    self,
                )@.layer.transparent.dom().contains(k),
    {
        let mut cmds: Vec<DrawCommand> = Vec::new();
        cmds.push(DrawCommand::Clear);
        cmds.push(DrawCommand::DepthTestLessEqual);
        cmds.push(DrawCommand::DepthWrite(true));
        assert(cmds@ =~= frame_setup());
        let mut layer_cmds = self.layer.draw(self.depth);
        cmds.append(&mut layer_cmds);
        Ok(cmds)
    }
}

} // verus!
