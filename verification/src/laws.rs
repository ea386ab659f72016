//! What holds of the save/restore stack and of the buckets, whatever the
//! sequence of calls.

use crate::context::ContextView;
use crate::error::DrawError;
use crate::geometry::{Color, Matrix, Rect};
use crate::layer::LayerView;
use crate::mesh::{triangle_list, MeshView, Triangles};
use crate::records::{AtlasRect, Quad};
use crate::shape::{Brush, Circle, ShapeView};
use crate::state::{lemma_pushed_push, lemma_pushed_update_last, pushed, StackView};
use vstd::prelude::*;

verus! {

/// A call that acts on the save/restore stack.
pub enum StackOp {
    Save,
    Restore,
    Transform(Matrix),
    ClipNested(Rect),
    ClipOverride(Rect),
    SetAlphaDepth(usize),
    IncrAlphaDepth,
}

/// The stack after one call.
pub open spec fn apply(v: StackView, op: StackOp) -> StackView {
    match op {
        StackOp::Save => v.save(),
        StackOp::Restore => v.restore(),
        StackOp::Transform(m) => v.transform(m),
        StackOp::ClipNested(r) => v.clip_nested(r),
        StackOp::ClipOverride(r) => v.clip_override(r),
        StackOp::SetAlphaDepth(k) => v.set_alpha_depth(k),
        StackOp::IncrAlphaDepth => v.incr_alpha_depth(),
    }
}

/// The stack after a sequence of calls.
pub open spec fn run(v: StackView, ops: Seq<StackOp>) -> StackView
    decreases ops.len(),
{
    if ops.len() == 0 {
        v
    } else {
        apply(run(v, ops.drop_last()), ops.last())
    }
}

/// The number of saves less the number of restores.
pub open spec fn nesting(ops: Seq<StackOp>) -> int
    decreases ops.len(),
{
    if ops.len() == 0 {
        0
    } else {
        nesting(ops.drop_last()) + match ops.last() {
            StackOp::Save => 1int,
            StackOp::Restore => -1int,
            _ => 0int,
        }
    }
}

/// The sequence is balanced, and all that it does besides saving happens
/// between a save and its restore.
pub open spec fn scoped(ops: Seq<StackOp>) -> bool {
    &&& nesting(ops) == 0
    &&& forall|p: int|
        0 <= p < ops.len() ==> (#[trigger] ops[p] is Save) || nesting(ops.take(p)) >= 1
}

/// What holds of the stack `w` reached from `v` at nesting `d` within a
/// scoped sequence.
spec fn inside(v: StackView, w: StackView, d: int) -> bool {
    let k = v.states.len() as int;
    let base = v.clips.len() as int;
    &&& d >= 0
    &&& w.states.len() == k + d
    &&& w.states.take(k) == v.states
    &&& d == 0 ==> w == v
    &&& d > 0 ==> {
        &&& w.states[k].transform == v.transform
        &&& w.states[k].alpha_depth == v.alpha_depth
        &&& w.clips.len() == base + pushed(w.states.subrange(k, k + d))
        &&& w.clips.take(base) == v.clips
    }
}

proof fn lemma_step(v: StackView, w: StackView, d: int, op: StackOp)
    requires
        inside(v, w, d),
        op is Save || d >= 1,
    ensures
        inside(
            v,
            apply(w, op),
            d + match op {
                StackOp::Save => 1int,
                StackOp::Restore => -1int,
                _ => 0int,
            },
        ),
{
    let k = v.states.len() as int;
    let base = v.clips.len() as int;
    let x = apply(w, op);
    let sub = w.states.subrange(k, k + d);
    match op {
        StackOp::Save => {
            let s = x.states.last();
            assert(x.states.take(k) =~= w.states.take(k));
            assert(x.states.subrange(k, k + d + 1) =~= sub.push(s));
            lemma_pushed_push(sub, s);
            if d == 0 {
                assert(sub =~= Seq::empty());
                assert(pushed(sub) == 0);
                assert(x.clips.take(base) =~= v.clips);
                assert(x.states[k] == s);
            } else {
                assert(x.states[k] == w.states[k]);
            }
        },
        StackOp::Restore => {
            let top = w.states.last();
            assert(sub.last() == top);
            assert(x.states.take(k) =~= w.states.take(k));
            assert(x.states.subrange(k, k + d - 1) =~= sub.drop_last());
            assert(pushed(sub) == pushed(sub.drop_last()) + top.n_clip);
            assert(x.clips.take(base) =~= w.clips.take(base));
            if d == 1 {
                assert(sub.drop_last() =~= Seq::empty());
                assert(x.clips =~= x.clips.take(base));
                assert(x.states =~= w.states.take(k));
                assert(w.states[k] == top);
            } else {
                assert(x.states[k] == w.states[k]);
            }
        },
        StackOp::Transform(m) => {
            lemma_changed_top(v, w, x, d);
        },
        StackOp::ClipNested(r) => {
            lemma_changed_top(v, w, x, d);
            assert(x.clips.take(base) =~= w.clips.take(base));
        },
        StackOp::ClipOverride(r) => {
            lemma_changed_top(v, w, x, d);
            assert(x.clips.take(base) =~= w.clips.take(base));
        },
        StackOp::SetAlphaDepth(_) => {},
        StackOp::IncrAlphaDepth => {},
    }
}

/// A call that replaces the last save-point by one with the same parent
/// transform and alpha-layer index leaves the save-points below it alone.
proof fn lemma_changed_top(v: StackView, w: StackView, x: StackView, d: int)
    requires
        inside(v, w, d),
        d >= 1,
        x.states == w.states.update(w.states.len() - 1, x.states.last()),
        x.states.last().transform == w.states.last().transform,
        x.states.last().alpha_depth == w.states.last().alpha_depth,
    ensures
        x.states.take(v.states.len() as int) == v.states,
        x.states[v.states.len() as int].transform == v.transform,
        x.states[v.states.len() as int].alpha_depth == v.alpha_depth,
        pushed(x.states.subrange(v.states.len() as int, v.states.len() + d)) == pushed(
            w.states.subrange(v.states.len() as int, v.states.len() + d),
        ) - w.states.last().n_clip + x.states.last().n_clip,
{
    let k = v.states.len() as int;
    let sub = w.states.subrange(k, k + d);
    let top = x.states.last();
    assert(x.states.take(k) =~= w.states.take(k));
    assert(x.states.subrange(k, k + d) =~= sub.update(d - 1, top));
    assert(sub.last() == w.states.last());
    lemma_pushed_update_last(sub, top);
}

proof fn lemma_prefix(v: StackView, ops: Seq<StackOp>, p: int)
    requires
        scoped(ops),
        0 <= p <= ops.len(),
    ensures
        inside(v, run(v, ops.take(p)), nesting(ops.take(p))),
    decreases p,
{
    if p == 0 {
        assert(ops.take(0) =~= Seq::empty());
        assert(v.states.take(v.states.len() as int) =~= v.states);
    } else {
        lemma_prefix(v, ops, p - 1);
        assert(ops.take(p).drop_last() =~= ops.take(p - 1));
        assert(ops.take(p).last() == ops[p - 1]);
        lemma_step(v, run(v, ops.take(p - 1)), nesting(ops.take(p - 1)), ops[p - 1]);
    }
}

/// Round trip. After a balanced sequence of saves and restores, with any
/// transforms, clips and changes of the alpha-layer index between a save and
/// its restore, the stack is what it was: the transform, the alpha-layer
/// index, the clips and the save-points.
pub proof fn lemma_round_trip(v: StackView, ops: Seq<StackOp>)
    requires
        scoped(ops),
    ensures
        run(v, ops) == v,
{
    lemma_prefix(v, ops, ops.len() as int);
    assert(ops.take(ops.len() as int) =~= ops);
}

/// A restore without a save-point changes nothing.
pub proof fn lemma_restore_unbalanced(v: StackView)
    requires
        v.states.len() == 0,
    ensures
        v.restore() == v,
{
}

/// Nested clips. Where `inner` lies within `outer`, and within the clip in
/// effect if there is one, clipping to both, in either order, leaves
/// `inner`, in device space, as the clip.
pub proof fn lemma_nested_clips(v: StackView, outer: Rect, inner: Rect)
    requires
        v.wf(),
        outer.encloses(inner),
        v.get_current_clip() matches Some(current) ==> current.encloses(v.to_device(inner)),
    ensures
        v.clip_nested(outer).clip_nested(inner).current_clip() == v.to_device(inner),
        v.clip_nested(inner).clip_nested(outer).current_clip() == v.to_device(inner),
        v.clips.len() == 0 ==> v.clip_nested(outer).current_clip() == v.to_device(outer),
{
    let first = v.clip_nested(outer);
    assert(first.clips.last() == first.current_clip());
    assert(first.transform == v.transform);
    assert(first.current_clip().encloses(v.to_device(inner)));
    let second = v.clip_nested(inner);
    assert(second.clips.last() == v.to_device(inner));
    assert(second.transform == v.transform);
}

/// A quad of an opaque color is in the opaque bucket afterwards, and no
/// transparent bucket has changed.
pub proof fn lemma_opaque_quad(v: LayerView, quad: Quad, k: usize)
    requires
        quad.color.opaque(),
    ensures
        v.add_quad(quad, k).quads == v.quads.push(quad),
        v.add_quad(quad, k).quads.contains(quad),
        v.add_quad(quad, k).transparent == v.transparent,
        v.add_quad(quad, k).triangles == v.triangles,
{
    assert(v.quads.push(quad)[v.quads.len() as int] == quad);
}

/// A quad of a color that is not opaque is in the transparent bucket of the
/// given alpha-layer index afterwards; the opaque bucket and the other
/// transparent buckets have not changed.
pub proof fn lemma_transparent_quad(v: LayerView, quad: Quad, k: usize)
    requires
        !quad.color.opaque(),
    ensures
        v.add_quad(quad, k).transparent.dom().contains(k),
        v.add_quad(quad, k).transparent[k].quads == v.bucket(k).quads.push(quad),
        v.add_quad(quad, k).transparent[k].quads.contains(quad),
        v.add_quad(quad, k).quads == v.quads,
        v.add_quad(quad, k).triangles == v.triangles,
        forall|j: usize| j != k ==> v.add_quad(quad, k).bucket(j) == v.bucket(j),
{
    let q = v.bucket(k).quads.push(quad);
    assert(q[v.bucket(k).quads.len() as int] == quad);
}

/// Filling a rectangle leaves nothing to tessellate and adds exactly one
/// quad: to the opaque bucket where the brush is opaque, and to the
/// transparent bucket of the alpha-layer index in effect where it is not.
/// No other batch changes.
pub proof fn lemma_fill_rect(c: ContextView, r: Rect, brush: Brush)
    ensures
        c.fill_job(ShapeView::Rect(r), brush).is_none(),
        c.fill(ShapeView::Rect(r), brush).layer.triangles == c.layer.triangles,
        brush.color().opaque() ==> {
            &&& c.fill(ShapeView::Rect(r), brush).layer.quads == c.layer.quads.push(
                c.filled_quad(r, brush.color()),
            )
            &&& c.fill(ShapeView::Rect(r), brush).layer.transparent == c.layer.transparent
        },
        !brush.color().opaque() ==> {
            &&& c.fill(ShapeView::Rect(r), brush).layer.quads == c.layer.quads
            &&& c.fill(ShapeView::Rect(r), brush).layer.bucket(c.stack.alpha_depth) == (
            crate::layer::BucketView {
                quads: c.layer.bucket(c.stack.alpha_depth).quads.push(
                    c.filled_quad(r, brush.color()),
                ),
                ..c.layer.bucket(c.stack.alpha_depth)
            })
            &&& forall|j: usize|
                j != c.stack.alpha_depth ==> c.fill(ShapeView::Rect(r), brush).layer.bucket(j)
                    == c.layer.bucket(j)
        },
{
}

/// Filling a circle adds no quad to any bucket and leaves the circle, in
/// device space, to tessellate.
pub proof fn lemma_fill_circle(c: ContextView, circle: Circle, brush: Brush)
    ensures
        c.fill_job(ShapeView::Circle(circle), brush) matches Some(job) && job.outline
            is FillCircle && job.transparent == !brush.color().opaque() && job.alpha_depth
            == c.stack.alpha_depth,
        c.fill(ShapeView::Circle(circle), brush).layer.quads == c.layer.quads,
        forall|j: usize|
            c.fill(ShapeView::Circle(circle), brush).layer.bucket(j).quads == c.layer.bucket(
                j,
            ).quads,
{
}

/// The depth counter advances by one with every fill, stroke and blurred
/// rectangle, and stays where it is when an image is drawn.
pub proof fn lemma_depth_advances(
    c: ContextView,
    shape: ShapeView,
    brush: Brush,
    rect: Rect,
    blur_radius: u32,
    cached: Result<AtlasRect, DrawError>,
)
    requires
        c.depth < u32::MAX,
    ensures
        c.fill(shape, brush).depth == c.depth + 1,
        c.stroke(brush).depth == c.depth + 1,
        c.blurred_rect(rect, blur_radius, brush).depth == c.depth + 1,
        c.draw_image(cached, rect, brush.color()).depth == c.depth,
{
}

/// The outer rectangle of a blurred quad lies three times the blur radius
/// outside of the inner one on every side, and the inner one is the
/// rectangle of the call in device space.
pub proof fn lemma_blur_falloff(c: ContextView, rect: Rect, blur_radius: u32, color: Color)
    requires
        c.stack.wf(),
    ensures
        ({
            let q = c.blurred_quad(rect, blur_radius, color);
            &&& q.blur_rect.x0 == rect.x0 + c.stack.transform.e
            &&& q.blur_rect.y0 == rect.y0 + c.stack.transform.f
            &&& q.blur_rect.x1 == rect.x1 + c.stack.transform.e
            &&& q.blur_rect.y1 == rect.y1 + c.stack.transform.f
            &&& q.rect.x0 == q.blur_rect.x0 - 3 * blur_radius
            &&& q.rect.y0 == q.blur_rect.y0 - 3 * blur_radius
            &&& q.rect.x1 == q.blur_rect.x1 + 3 * blur_radius
            &&& q.rect.y1 == q.blur_rect.y1 + 3 * blur_radius
        }),
{
}

/// Routing of a stroke. Whatever the shape and whatever mesh arrives for
/// it: an opaque stroke changes the opaque mesh alone, and no transparent
/// bucket comes to be or gains anything; a stroke that is not opaque
/// changes the mesh of the transparent bucket of the alpha-layer index at
/// the time of the call alone, which is made if it was not there and keeps
/// what it held, while the opaque bucket and every other transparent bucket
/// stay as they were. Where the mesh has room, it is the old one with the
/// arrival appended.
pub proof fn lemma_stroke_routing(
    c: ContextView,
    shape: ShapeView,
    brush: Brush,
    width: u32,
    tri: Triangles,
)
    ensures
        ({
            let k = c.stack.alpha_depth;
            let job = c.stroke_job(shape, brush, width);
            let after = c.stroke(brush).add_mesh(job, tri).layer;
            let grow = |m: MeshView|
                if m.has_room(tri.vertices@.len()) {
                    m.append(tri, job.color, job.depth, job.clip)
                } else {
                    m
                };
            &&& after.quads == c.layer.quads
            &&& brush.color().opaque() ==> {
                &&& after.triangles == grow(c.layer.triangles)
                &&& after.transparent == c.layer.transparent
            }
            &&& !brush.color().opaque() ==> {
                &&& after.triangles == c.layer.triangles
                &&& after.transparent.dom().contains(k)
                &&& after.bucket(k) == (crate::layer::BucketView {
                    triangles: grow(c.layer.bucket(k).triangles),
                    ..c.layer.bucket(k)
                })
                &&& forall|j: usize| j != k ==> after.bucket(j) == c.layer.bucket(j)
                &&& forall|j: usize|
                    j != k ==> (after.transparent.dom().contains(j)
                        <==> c.layer.transparent.dom().contains(j))
            }
        }),
{
    let k = c.stack.alpha_depth;
    let job = c.stroke_job(shape, brush, width);
    let mid = c.stroke(brush).layer;
    let after = c.stroke(brush).add_mesh(job, tri).layer;
    if brush.color().opaque() {
        assert(after.transparent =~= c.layer.transparent);
    } else {
        assert(mid.bucket(k) == c.layer.bucket(k));
    }
}

/// Routing of a filled circle: as for a stroke, and no quad is added
/// anywhere. The indices of the bucket's mesh stay in threes and within
/// its vertices, whatever triangle list arrives.
pub proof fn lemma_fill_circle_routing(c: ContextView, circle: Circle, brush: Brush, tri: Triangles)
    requires
        triangle_list(tri),
        c.layer.triangles_of(!brush.color().opaque(), c.stack.alpha_depth).wf(),
    ensures
        ({
            let k = c.stack.alpha_depth;
            let shape = ShapeView::Circle(circle);
            let job = c.fill_job(shape, brush).unwrap();
            let after = c.fill(shape, brush).add_mesh(job, tri).layer;
            let before = c.layer.triangles_of(!brush.color().opaque(), k);
            let target = after.triangles_of(!brush.color().opaque(), k);
            &&& c.fill_job(shape, brush).is_some()
            &&& after.quads == c.layer.quads
            &&& forall|j: usize| after.bucket(j).quads == c.layer.bucket(j).quads
            &&& brush.color().opaque() ==> after.transparent == c.layer.transparent
            &&& !brush.color().opaque() ==> {
                &&& after.triangles == c.layer.triangles
                &&& forall|j: usize| j != k ==> after.bucket(j) == c.layer.bucket(j)
            }
            &&& target.wf()
            &&& (target.indices.len() - before.indices.len()) % 3 == 0
            &&& before.has_room(tri.vertices@.len()) ==> target == before.append(
                tri,
                job.color,
                job.depth,
                job.clip,
            )
            &&& !before.has_room(tri.vertices@.len()) ==> target == before
        }),
{
    let k = c.stack.alpha_depth;
    let shape = ShapeView::Circle(circle);
    let job = c.fill_job(shape, brush).unwrap();
    let mid = c.fill(shape, brush).layer;
    let after = c.fill(shape, brush).add_mesh(job, tri).layer;
    let before = c.layer.triangles_of(!brush.color().opaque(), k);
    let target = after.triangles_of(!brush.color().opaque(), k);
    if brush.color().opaque() {
        assert(after.transparent =~= c.layer.transparent);
    } else {
        assert(mid.bucket(k) == c.layer.bucket(k));
    }
    if before.has_room(tri.vertices@.len()) {
        assert(target == before.append(tri, job.color, job.depth, job.clip));
        assert forall|i: int| 0 <= i < target.indices.len() implies (#[trigger] target.indices[i])
            < target.vertices.len() by {
            if i >= before.indices.len() {
                let m = i - before.indices.len();
                assert(tri.indices@[m] < tri.vertices@.len());
            }
        }
    }
}

} // verus!
