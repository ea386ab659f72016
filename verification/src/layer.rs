//! The layer: one opaque bucket and, per alpha-layer index, one transparent
//! bucket. The transparent buckets are kept in ascending order of their
//! index, which is the order in which they are composited.

use crate::command::{
    bucket_pass, layer_pass, opaque_pass, strictly_ascending, transparent_pass,
    Batch, BlendFunc, Bucket, DrawCall, DrawCommand, Scale,
};
use crate::geometry::{Color, DeviceRect};
use crate::mesh::{
    append, clear_mesh, empty_mesh, mesh_view, triangle_list, Mesh, MeshView, Triangles,
};
use crate::records::{BlurQuad, Quad, Tex};
use vstd::prelude::*;

verus! {

/// What is drawn with blending for one alpha-layer index.
#[derive(Debug)]
pub struct TransparentLayer {
    pub quads: Vec<Quad>,
    pub blurred_quads: Vec<BlurQuad>,
    pub triangles: Mesh,
    pub texts: Vec<Tex>,
    pub color_texts: Vec<Tex>,
    pub atlas: Vec<Tex>,
}

pub struct BucketView {
    pub quads: Seq<Quad>,
    pub blurred_quads: Seq<BlurQuad>,
    pub triangles: MeshView,
    pub texts: Seq<Tex>,
    pub color_texts: Seq<Tex>,
    pub atlas: Seq<Tex>,
}

/// A transparent bucket with its alpha-layer index.
#[derive(Debug)]
pub struct Slot {
    pub index: usize,
    pub bucket: TransparentLayer,
}

/// All geometry of one frame.
#[derive(Debug)]
pub struct Layer {
    quads: Vec<Quad>,
    triangles: Mesh,
    transparent_layer: Vec<Slot>,
}

pub struct LayerView {
    pub quads: Seq<Quad>,
    pub triangles: MeshView,
    pub transparent: Map<usize, BucketView>,
}

impl BucketView {
    pub open spec fn empty() -> BucketView {
        BucketView {
            quads: Seq::empty(),
            blurred_quads: Seq::empty(),
            triangles: MeshView::empty(),
            texts: Seq::empty(),
            color_texts: Seq::empty(),
            atlas: Seq::empty(),
        }
    }
}

impl View for TransparentLayer {
    type V = BucketView;

    open spec fn view(&self) -> BucketView {
        BucketView {
            quads: self.quads@,
            blurred_quads: self.blurred_quads@,
            triangles: mesh_view(self.triangles),
            texts: self.texts@,
            color_texts: self.color_texts@,
            atlas: self.atlas@,
        }
    }
}

impl TransparentLayer {
    /// The mesh of the bucket is well formed.
    pub open spec fn triangles_wf(&self) -> bool {
        mesh_view(self.triangles).wf()
    }

    pub fn new() -> (b: TransparentLayer)
        ensures
            b@ == BucketView::empty(),
    {
        TransparentLayer {
            quads: Vec::new(),
            blurred_quads: Vec::new(),
            triangles: empty_mesh(),
            texts: Vec::new(),
            color_texts: Vec::new(),
            atlas: Vec::new(),
        }
    }
}

/// The indices rise strictly from slot to slot.
pub open spec fn ascending(slots: Seq<Slot>) -> bool {
    forall|i: int, j: int| 0 <= i < j < slots.len() ==> slots[i].index < slots[j].index
}

/// Whether a slot for `k` exists.
pub open spec fn has_slot(slots: Seq<Slot>, k: usize) -> bool {
    exists|i: int| 0 <= i < slots.len() && (#[trigger] slots[i]).index == k
}

/// The position of a slot for `k`.
pub open spec fn slot_of(slots: Seq<Slot>, k: usize) -> int {
    choose|i: int| 0 <= i < slots.len() && (#[trigger] slots[i]).index == k
}

/// The slots as a map from alpha-layer index to bucket.
pub open spec fn slots_view(slots: Seq<Slot>) -> Map<usize, BucketView> {
    Map::new(|k: usize| has_slot(slots, k), |k: usize| slots[slot_of(slots, k)].bucket@)
}

/// The alpha-layer indices of the slots, in slot order.
pub open spec fn slot_indices(slots: Seq<Slot>) -> Seq<usize> {
    Seq::new(slots.len(), |i: int| slots[i].index)
}

/// In ascending slots, the slot at `i` is the one that the map holds for its
/// index.
pub proof fn lemma_slot_lookup(slots: Seq<Slot>, i: int)
    requires
        ascending(slots),
        0 <= i < slots.len(),
    ensures
        slots_view(slots).dom().contains(slots[i].index),
        slots_view(slots)[slots[i].index] == slots[i].bucket@,
        slot_of(slots, slots[i].index) == i,
{
    let k = slots[i].index;
    assert(has_slot(slots, k));
    let j = slot_of(slots, k);
    if j < i {
        assert(slots[j].index < slots[i].index);
    } else if i < j {
        assert(slots[i].index < slots[j].index);
    }
}

/// Replacing the bucket of slot `i` replaces the entry of its index in the
/// map.
pub proof fn lemma_slot_update(before: Seq<Slot>, after: Seq<Slot>, i: int)
    requires
        ascending(before),
        0 <= i < before.len(),
        after.len() == before.len(),
        after[i].index == before[i].index,
        forall|j: int| 0 <= j < before.len() && j != i ==> after[j] == before[j],
    ensures
        ascending(after),
        slots_view(after) == slots_view(before).insert(before[i].index, after[i].bucket@),
{
    assert forall|a: int, b: int| 0 <= a < b < after.len() implies after[a].index
        < after[b].index by {
        assert(after[a].index == before[a].index);
        assert(after[b].index == before[b].index);
    }
    let l = slots_view(after);
    let r = slots_view(before).insert(before[i].index, after[i].bucket@);
    assert forall|k: usize| l.dom().contains(k) <==> r.dom().contains(k) by {
        if has_slot(after, k) {
            let j = slot_of(after, k);
            assert(before[j].index == k);
        }
        if has_slot(before, k) {
            let j = slot_of(before, k);
            assert(after[j].index == k);
        }
        if k == before[i].index {
            assert(after[i].index == k);
        }
    }
    assert forall|k: usize| l.dom().contains(k) implies l[k] == r[k] by {
        let j = slot_of(after, k);
        lemma_slot_lookup(after, j);
        if j != i {
            assert(before[j] == after[j]);
            lemma_slot_lookup(before, j);
            assert(before[j].index != before[i].index) by {
                if j < i {
                    assert(before[j].index < before[i].index);
                } else {
                    assert(before[i].index < before[j].index);
                }
            }
        }
    }
    assert(l =~= r);
}

/// Inserting a slot at the place that keeps the order adds its entry to the
/// map.
pub proof fn lemma_slot_insert(before: Seq<Slot>, at: int, slot: Slot)
    requires
        ascending(before),
        0 <= at <= before.len(),
        forall|j: int| 0 <= j < at ==> before[j].index < slot.index,
        forall|j: int| at <= j < before.len() ==> slot.index < before[j].index,
    ensures
        ascending(before.insert(at, slot)),
        slots_view(before.insert(at, slot)) == slots_view(before).insert(
            slot.index,
            slot.bucket@,
        ),
        !slots_view(before).dom().contains(slot.index),
{
    let after = before.insert(at, slot);
    assert forall|a: int, b: int| 0 <= a < b < after.len() implies after[a].index
        < after[b].index by {
        let pa = if a < at {
            a
        } else {
            a - 1
        };
        let pb = if b < at {
            b
        } else {
            b - 1
        };
        if a != at && b != at {
            assert(after[a] == before[pa]);
            assert(after[b] == before[pb]);
            assert(pa < pb);
        } else if a == at {
            assert(after[b] == before[pb]);
        } else {
            assert(after[a] == before[pa]);
        }
    }
    if has_slot(before, slot.index) {
        let j = slot_of(before, slot.index);
        assert(false);
    }
    let l = slots_view(after);
    let r = slots_view(before).insert(slot.index, slot.bucket@);
    assert forall|k: usize| l.dom().contains(k) <==> r.dom().contains(k) by {
        if has_slot(after, k) {
            let j = slot_of(after, k);
            if j < at {
                assert(before[j].index == k);
            } else if j > at {
                assert(before[j - 1].index == k);
            }
        }
        if has_slot(before, k) {
            let j = slot_of(before, k);
            if j < at {
                assert(after[j].index == k);
            } else {
                assert(after[j + 1].index == k);
            }
        }
        if k == slot.index {
            assert(after[at].index == k);
        }
    }
    assert forall|k: usize| l.dom().contains(k) implies l[k] == r[k] by {
        let j = slot_of(after, k);
        lemma_slot_lookup(after, j);
        if j < at {
            assert(after[j] == before[j]);
            lemma_slot_lookup(before, j);
        } else if j > at {
            assert(after[j] == before[j - 1]);
            lemma_slot_lookup(before, j - 1);
        }
    }
    assert(l =~= r);
}

/// A second insertion under one key replaces the first.
proof fn lemma_overwrite(m: Map<usize, BucketView>, k: usize)
    ensures
        forall|a: BucketView, b: BucketView| #[trigger]
            m.insert(k, a).insert(k, b) == m.insert(k, b),
{
    assert forall|a: BucketView, b: BucketView| #[trigger]
        m.insert(k, a).insert(k, b) == m.insert(k, b) by {
        assert(m.insert(k, a).insert(k, b) =~= m.insert(k, b));
    }
}

impl LayerView {
    pub open spec fn empty() -> LayerView {
        LayerView {
            quads: Seq::empty(),
            triangles: MeshView::empty(),
            transparent: Map::empty(),
        }
    }

    /// The transparent bucket of `k`; the empty one where nothing has been
    /// added for `k` yet.
    pub open spec fn bucket(self, k: usize) -> BucketView {
        if self.transparent.dom().contains(k) {
            self.transparent[k]
        } else {
            BucketView::empty()
        }
    }

    /// The layer with the transparent bucket of `k` set to `b`.
    pub open spec fn with_bucket(self, k: usize, b: BucketView) -> LayerView {
        LayerView { transparent: self.transparent.insert(k, b), ..self }
    }

    /// The layer after a quad is added under alpha-layer index `k`: to the
    /// opaque bucket where its color is opaque, else to the bucket of `k`.
    pub open spec fn add_quad(self, quad: Quad, k: usize) -> LayerView {
        if quad.color.opaque() {
            LayerView { quads: self.quads.push(quad), ..self }
        } else {
            self.with_bucket(
                k,
                BucketView { quads: self.bucket(k).quads.push(quad), ..self.bucket(k) },
            )
        }
    }

    /// The layer after a blurred quad is added to the bucket of `k`.
    pub open spec fn add_blurred_quad(self, quad: BlurQuad, k: usize) -> LayerView {
        self.with_bucket(
            k,
            BucketView {
                blurred_quads: self.bucket(k).blurred_quads.push(quad),
                ..self.bucket(k)
            },
        )
    }

    /// The layer after mask glyphs are appended to the bucket of `k`.
    pub open spec fn add_text(self, text: Seq<Tex>, k: usize) -> LayerView {
        self.with_bucket(k, BucketView { texts: self.bucket(k).texts + text, ..self.bucket(k) })
    }

    /// The layer after colored glyphs are appended to the bucket of `k`.
    pub open spec fn add_color_text(self, text: Seq<Tex>, k: usize) -> LayerView {
        self.with_bucket(
            k,
            BucketView { color_texts: self.bucket(k).color_texts + text, ..self.bucket(k) },
        )
    }

    /// The layer after an atlas image is added to the bucket of `k`.
    pub open spec fn add_atlas(self, tex: Tex, k: usize) -> LayerView {
        self.with_bucket(k, BucketView { atlas: self.bucket(k).atlas.push(tex), ..self.bucket(k) })
    }

    /// The mesh that geometry goes to: the opaque one, or that of the
    /// transparent bucket of `k`.
    pub open spec fn triangles_of(self, transparent: bool, k: usize) -> MeshView {
        if transparent {
            self.bucket(k).triangles
        } else {
            self.triangles
        }
    }

    /// The layer with `mesh` in the place that [`Self::triangles_of`] names.
    pub open spec fn with_triangles(self, transparent: bool, k: usize, mesh: MeshView) -> LayerView {
        if transparent {
            self.with_bucket(k, BucketView { triangles: mesh, ..self.bucket(k) })
        } else {
            LayerView { triangles: mesh, ..self }
        }
    }

    /// Whether `count` more vertices fit into the mesh that
    /// [`Self::triangles_of`] names.
    pub open spec fn has_room(self, transparent: bool, k: usize, count: nat) -> bool {
        self.triangles_of(transparent, k).has_room(count)
    }

    /// The layer after a tessellated shape is added. A transparent shape
    /// makes sure that the bucket of `k` exists even where the mesh has no
    /// room left for it.
    pub open spec fn add_triangles(
        self,
        transparent: bool,
        k: usize,
        tri: Triangles,
        color: Color,
        depth: u32,
        clip: DeviceRect,
    ) -> LayerView {
        let target = self.triangles_of(transparent, k);
        let grown = if target.has_room(tri.vertices@.len()) {
            target.append(tri, color, depth, clip)
        } else {
            target
        };
        if transparent {
            self.with_bucket(k, BucketView { triangles: grown, ..self.bucket(k) })
        } else {
            LayerView { triangles: grown, ..self }
        }
    }
}

impl View for Layer {
    type V = LayerView;

    closed spec fn view(&self) -> LayerView {
        LayerView {
            quads: self.quads@,
            triangles: mesh_view(self.triangles),
            transparent: slots_view(self.transparent_layer@),
        }
    }
}

impl Layer {
    /// The slots are in ascending order and every mesh is well formed.
    pub closed spec fn wf(&self) -> bool {
        &&& ascending(self.transparent_layer@)
        &&& mesh_view(self.triangles).wf()
        &&& forall|i: int|
            0 <= i < self.transparent_layer@.len() ==> (
            #[trigger] self.transparent_layer@[i]).bucket.triangles_wf()
    }

    /// The alpha-layer indices that have a bucket, in the order in which the
    /// buckets are composited.
    pub closed spec fn depths(&self) -> Seq<usize> {
        slot_indices(self.transparent_layer@)
    }

    /// The compositing order is strictly ascending and names exactly the
    /// alpha-layer indices that have a bucket.
    pub proof fn lemma_depths(&self)
        requires
            self.wf(),
        ensures
            forall|i: int, j: int|
                0 <= i < j < self.depths().len() ==> self.depths()[i] < self.depths()[j],
            forall|k: usize| self.depths().contains(k) <==> self@.transparent.dom().contains(k),
            forall|k: usize|
                self@.transparent.dom().contains(k) ==> (
                #[trigger] self@.transparent[k]).triangles.wf(),
            self@.triangles.wf(),
    {
        let slots = self.transparent_layer@;
        assert forall|k: usize|
            self.depths().contains(k) <==> self@.transparent.dom().contains(k) by {
            if self.depths().contains(k) {
                let i = choose|i: int| 0 <= i < self.depths().len() && self.depths()[i] == k;
                assert(slots[i].index == k);
            }
            if has_slot(slots, k) {
                let i = slot_of(slots, k);
                assert(self.depths()[i] == k);
            }
        }
        assert forall|k: usize| self@.transparent.dom().contains(k) implies (
        #[trigger] self@.transparent[k]).triangles.wf() by {
            let i = slot_of(slots, k);
            lemma_slot_lookup(slots, i);
        }
    }

    pub fn new() -> (layer: Layer)
        ensures
            layer.wf(),
            layer@ == LayerView::empty(),
    {
        let layer = Layer {
            quads: Vec::new(),
            triangles: empty_mesh(),
            transparent_layer: Vec::new(),
        };
        assert(layer@.transparent =~= Map::empty());
        layer
    }

    /// Empties every bucket and forgets the transparent buckets.
    pub fn reset(&mut self)
        ensures
            final(self).wf(),
            final(self)@ == LayerView::empty(),
    {
        self.quads.clear();
        clear_mesh(&mut self.triangles);
        self.transparent_layer.clear();
        assert(self@.transparent =~= Map::empty());
    }

    /// The position of the slot for `alpha_depth`, which is made, empty,
    /// where it does not exist yet.
    fn slot(&mut self, alpha_depth: usize) -> (at: usize)
        requires
            old(self).wf(),
        ensures
            final(self).wf(),
            at < final(self).transparent_layer@.len(),
            final(self).transparent_layer@[at as int].index == alpha_depth,
            final(self).transparent_layer@[at as int].bucket@ == old(self)@.bucket(alpha_depth),
            final(self)@ == old(self)@.with_bucket(alpha_depth, old(self)@.bucket(alpha_depth)),
    {
        let ghost before = self.transparent_layer@;
        let n = self.transparent_layer.len();
        let mut at: usize = 0;
        while at < n && self.transparent_layer[at].index < alpha_depth
            invariant
                at <= n,
                n == self.transparent_layer@.len(),
                self.transparent_layer@ == before,
                forall|j: int| 0 <= j < at ==> before[j].index < alpha_depth,
            decreases n - at,
        {
            at += 1;
        }
        if at < n && self.transparent_layer[at].index == alpha_depth {
            proof {
                lemma_slot_lookup(before, at as int);
                assert(self@.transparent =~= self@.transparent.insert(
                    alpha_depth,
                    self@.bucket(alpha_depth),
                ));
            }
        } else {
            let fresh = Slot { index: alpha_depth, bucket: TransparentLayer::new() };
            proof {
                assert forall|j: int| at <= j < before.len() implies alpha_depth
                    < before[j].index by {
                    assert(before[at as int].index <= before[j].index);
                }
                lemma_slot_insert(before, at as int, fresh);
            }
            self.transparent_layer.insert(at, fresh);
            assert forall|i: int| 0 <= i < self.transparent_layer@.len() implies (
            #[trigger] self.transparent_layer@[i]).bucket.triangles_wf() by {
                if i < at {
                    assert(self.transparent_layer@[i] == before[i]);
                } else if i > at {
                    assert(self.transparent_layer@[i] == before[i - 1]);
                }
            }
        }
        at
    }

    /// Adds a filled quad under the alpha-layer index `alpha_depth`.
    pub fn add_quad(
        &mut self,
        rect: DeviceRect,
        color: Color,
        depth: u32,
        clip: DeviceRect,
        alpha_depth: usize,
    )
        requires
            old(self).wf(),
        ensures
            final(self).wf(),
            final(self)@ == old(self)@.add_quad((Quad { rect, color, depth, clip }), alpha_depth),
    {
        let quad = Quad { rect, color, depth, clip };
        if color.a < 255 {
            let at = self.slot(alpha_depth);
            let ghost mid = self.transparent_layer@;
            self.transparent_layer[at].bucket.quads.push(quad);
            proof {
                lemma_slot_update(mid, self.transparent_layer@, at as int);
                lemma_overwrite(old(self)@.transparent, alpha_depth);
            }
        } else {
            self.quads.push(quad);
        }
    }

    /// Adds a blurred quad to the transparent bucket of `alpha_depth`.
    pub fn add_blurred_quad(
        &mut self,
        rect: DeviceRect,
        blur_rect: DeviceRect,
        blur_radius: u32,
        color: Color,
        depth: u32,
        clip: DeviceRect,
        alpha_depth: usize,
    )
        requires
            old(self).wf(),
        ensures
            final(self).wf(),
            final(self)@ == old(self)@.add_blurred_quad(
                (BlurQuad { rect, blur_rect, blur_radius, color, depth, clip }),
                alpha_depth,
            ),
    {
        let quad = BlurQuad { rect, blur_rect, blur_radius, color, depth, clip };
        let at = self.slot(alpha_depth);
        let ghost mid = self.transparent_layer@;
        self.transparent_layer[at].bucket.blurred_quads.push(quad);
        proof {
            lemma_slot_update(mid, self.transparent_layer@, at as int);
            lemma_overwrite(old(self)@.transparent, alpha_depth);
        }
    }

    /// Appends a run of mask glyphs to the transparent bucket of
    /// `alpha_depth`.
    pub fn add_text(&mut self, text: Vec<Tex>, alpha_depth: usize)
        requires
            old(self).wf(),
        ensures
            final(self).wf(),
            final(self)@ == old(self)@.add_text(text@, alpha_depth),
    {
        let mut text = text;
        let at = self.slot(alpha_depth);
        let ghost mid = self.transparent_layer@;
        self.transparent_layer[at].bucket.texts.append(&mut text);
        proof {
            lemma_slot_update(mid, self.transparent_layer@, at as int);
            lemma_overwrite(old(self)@.transparent, alpha_depth);
        }
    }

    /// Appends a run of colored glyphs to the transparent bucket of
    /// `alpha_depth`.
    pub fn add_color_text(&mut self, text: Vec<Tex>, alpha_depth: usize)
        requires
            old(self).wf(),
        ensures
            final(self).wf(),
            final(self)@ == old(self)@.add_color_text(text@, alpha_depth),
    {
        let mut text = text;
        let at = self.slot(alpha_depth);
        let ghost mid = self.transparent_layer@;
        self.transparent_layer[at].bucket.color_texts.append(&mut text);
        proof {
            lemma_slot_update(mid, self.transparent_layer@, at as int);
            lemma_overwrite(old(self)@.transparent, alpha_depth);
        }
    }

    /// Adds an atlas image to the transparent bucket of `alpha_depth`.
    pub fn add_atlas(&mut self, atlas: Tex, alpha_depth: usize)
        requires
            old(self).wf(),
        ensures
            final(self).wf(),
            final(self)@ == old(self)@.add_atlas(atlas, alpha_depth),
    {
        let at = self.slot(alpha_depth);
        let ghost mid = self.transparent_layer@;
        self.transparent_layer[at].bucket.atlas.push(atlas);
        proof {
            lemma_slot_update(mid, self.transparent_layer@, at as int);
            lemma_overwrite(old(self)@.transparent, alpha_depth);
        }
    }

    /// The mesh that geometry of the given kind goes to: the opaque one, or
    /// that of the transparent bucket of `alpha_depth`, which is made where
    /// it does not exist yet.
    pub fn get_triangles(&mut self, transparent: bool, alpha_depth: usize) -> (mesh: &mut Mesh)
        requires
            old(self).wf(),
        ensures
            mesh_view(*mesh) == old(self)@.triangles_of(transparent, alpha_depth),
            mesh_view(*mesh).wf(),
            final(self)@ == old(self)@.with_triangles(
                transparent,
                alpha_depth,
                mesh_view(*final(mesh)),
            ),
            mesh_view(*final(mesh)).wf() ==> final(self).wf(),
    {
        if !transparent {
            &mut self.triangles
        } else {
            let at = self.slot(alpha_depth);
            let ghost mid = self.transparent_layer@;
            let mesh = &mut self.transparent_layer[at].bucket.triangles;
            proof {
                lemma_overwrite(old(self)@.transparent, alpha_depth);
                let after = after_borrow(self.transparent_layer)@;
                lemma_slot_update(mid, after, at as int);
                assert forall|i: int| 0 <= i < after.len() && mesh_view(*final(mesh)).wf() implies (
                #[trigger] after[i]).bucket.triangles_wf() by {
                    if i != at {
                        assert(after[i] == mid[i]);
                    }
                }
            }
            mesh
        }
    }

    /// Adds a tessellated shape: to the opaque mesh, or, where `transparent`
    /// holds, to the mesh of the bucket of `alpha_depth`. Returns whether
    /// the mesh had room for it.
    pub fn add_triangles(
        &mut self,
        transparent: bool,
        alpha_depth: usize,
        tri: &Triangles,
        color: Color,
        depth: u32,
        clip: DeviceRect,
    ) -> (done: bool)
        requires
            old(self).wf(),
            triangle_list(*tri),
        ensures
            final(self).wf(),
            done == old(self)@.has_room(transparent, alpha_depth, tri.vertices@.len()),
            final(self)@ == old(self)@.add_triangles(
                transparent,
                alpha_depth,
                *tri,
                color,
                depth,
                clip,
            ),
    {
        if !transparent {
            append(&mut self.triangles, tri, color, depth, clip)
        } else {
            let at = self.slot(alpha_depth);
            let ghost mid = self.transparent_layer@;
            let done = append(
                &mut self.transparent_layer[at].bucket.triangles,
                tri,
                color,
                depth,
                clip,
            );
            proof {
                lemma_slot_update(mid, self.transparent_layer@, at as int);
                lemma_overwrite(old(self)@.transparent, alpha_depth);
                assert forall|i: int| 0 <= i < self.transparent_layer@.len() implies (
                #[trigger] self.transparent_layer@[i]).bucket.triangles_wf() by {
                    if i != at {
                        assert(self.transparent_layer@[i] == mid[i]);
                    }
                }
            }
            done
        }
    }

    /// The opaque quads.
    pub fn quads(&self) -> (q: &Vec<Quad>)
        ensures
            q@ == self@.quads,
    {
        &self.quads
    }

    /// The opaque mesh.
    pub fn triangles(&self) -> (m: &Mesh)
        ensures
            mesh_view(*m) == self@.triangles,
    {
        &self.triangles
    }

    /// The transparent bucket of `alpha_depth`, if anything was added under
    /// that index.
    pub fn transparent(&self, alpha_depth: usize) -> (b: Option<&TransparentLayer>)
        requires
            self.wf(),
        ensures
            b.is_some() == self@.transparent.dom().contains(alpha_depth),
            b matches Some(bucket) ==> bucket@ == self@.transparent[alpha_depth],
    {
        let n = self.transparent_layer.len();
        let mut at: usize = 0;
        while at < n
            invariant
                self.wf(),
                at <= n,
                n == self.transparent_layer@.len(),
                forall|j: int| 0 <= j < at ==> self.transparent_layer@[j].index != alpha_depth,
            decreases n - at,
        {
            if self.transparent_layer[at].index == alpha_depth {
                proof {
                    lemma_slot_lookup(self.transparent_layer@, at as int);
                }
                return Some(&self.transparent_layer[at].bucket);
            }
            at += 1;
        }
        proof {
            if has_slot(self.transparent_layer@, alpha_depth) {
                let j = slot_of(self.transparent_layer@, alpha_depth);
                assert(self.transparent_layer@[j].index != alpha_depth);
            }
        }
        None
    }

    /// The alpha-layer indices that have a bucket, ascending.
    pub fn alpha_depths(&self) -> (keys: Vec<usize>)
        ensures
            keys@ == self.depths(),
    {
        let mut keys: Vec<usize> = Vec::new();
        let n = self.transparent_layer.len();
        let mut i: usize = 0;
        while i < n
            invariant
                i <= n,
                n == self.transparent_layer@.len(),
                keys@ == self.depths().take(i as int),
            decreases n - i,
        {
            keys.push(self.transparent_layer[i].index);
            assert(self.depths().take(i + 1) == self.depths().take(i as int).push(
                self.depths()[i as int],
            ));
            i += 1;
        }
        assert(self.depths().take(n as int) == self.depths());
        keys
    }
}

/// Appends the commands of one transparent bucket.
fn push_bucket_pass(cmds: &mut Vec<DrawCommand>, slot: &Slot, max_depth: u32)
    ensures
        final(cmds)@ == old(cmds)@ + bucket_pass(slot.index, slot.bucket@, max_depth),
{
    let at = Bucket::Transparent(slot.index);
    let b = &slot.bucket;
    cmds.push(DrawCommand::Blending(true));
    cmds.push(DrawCommand::BlendFunc(BlendFunc::SourceAlpha));
    cmds.push(draw_call(at, Batch::Quads, b.quads.len(), Scale::Device, false, max_depth));
    cmds.push(mesh_call(at, &b.triangles, max_depth));
    cmds.push(draw_call(at, Batch::ColorTexts, b.color_texts.len(), Scale::Unit, false, max_depth));
    cmds.push(draw_call(at, Batch::Atlas, b.atlas.len(), Scale::Device, false, max_depth));
    cmds.push(DrawCommand::Blending(true));
    cmds.push(DrawCommand::BlendFunc(BlendFunc::DualSourceColor));
    cmds.push(draw_call(at, Batch::Texts, b.texts.len(), Scale::Unit, true, max_depth));
    cmds.push(DrawCommand::Blending(true));
    cmds.push(DrawCommand::BlendFunc(BlendFunc::SourceAlpha));
    cmds.push(
        draw_call(at, Batch::BlurredQuads, b.blurred_quads.len(), Scale::Device, false, max_depth),
    );
    assert(cmds@ =~= old(cmds)@ + bucket_pass(slot.index, slot.bucket@, max_depth));
}

fn draw_call(bucket: Bucket, batch: Batch, len: usize, scale: Scale, mask: bool, max_depth: u32) -> (c:
    DrawCommand)
    ensures
        c == crate::command::draw(bucket, batch, len as nat, scale, mask, max_depth),
{
    DrawCommand::Draw(DrawCall { bucket, batch, len, vertices: 0, scale, mask, max_depth })
}

fn mesh_call(bucket: Bucket, mesh: &Mesh, max_depth: u32) -> (c: DrawCommand)
    ensures
        c == crate::command::draw_mesh(bucket, mesh_view(*mesh), max_depth),
{
    DrawCommand::Draw(
        DrawCall {
            bucket,
            batch: Batch::Triangles,
            len: mesh.indices.len(),
            vertices: mesh.vertices.len(),
            scale: Scale::Device,
            mask: false,
            max_depth,
        },
    )
}

impl Layer {
    /// The commands that draw the layer: the opaque bucket first, with
    /// blending off; then, with depth writes off, the transparent buckets in
    /// ascending order of their alpha-layer index; at last blending off and
    /// depth writes on again.
    pub fn draw(&self, max_depth: u32) -> (cmds: Vec<DrawCommand>)
        requires
            self.wf(),
        ensures
            cmds@ == layer_pass(self@, self.depths(), max_depth),
            strictly_ascending(self.depths()),
            forall|k: usize| self.depths().contains(k) <==> self@.transparent.dom().contains(k),
    {
        proof {
            self.lemma_depths();
        }
        let mut cmds: Vec<DrawCommand> = Vec::new();
        cmds.push(DrawCommand::Blending(false));
        cmds.push(DrawCommand::BlendFunc(BlendFunc::SourceAlpha));
        cmds.push(
            draw_call(
                Bucket::Opaque,
                Batch::Quads,
                self.quads.len(),
                Scale::Device,
                false,
                max_depth,
            ),
        );
        cmds.push(mesh_call(Bucket::Opaque, &self.triangles, max_depth));
        cmds.push(DrawCommand::DepthWrite(false));
        assert(cmds@ =~= opaque_pass(self@, max_depth));
        let ghost keys = self.depths();
        let n = self.transparent_layer.len();
        let mut i: usize = 0;
        while i < n
            invariant
                self.wf(),
                i <= n,
                n == self.transparent_layer@.len(),
                keys == self.depths(),
                cmds@ == opaque_pass(self@, max_depth) + transparent_pass(
                    self@,
                    keys.take(i as int),
                    max_depth,
                ),
            decreases n - i,
        {
            let ghost before = cmds@;
            push_bucket_pass(&mut cmds, &self.transparent_layer[i], max_depth);
            proof {
                lemma_slot_lookup(self.transparent_layer@, i as int);
                let next = keys.take(i + 1);
                assert(next.drop_last() == keys.take(i as int));
                assert(next.last() == self.transparent_layer@[i as int].index);
                assert(cmds@ =~= opaque_pass(self@, max_depth) + transparent_pass(
                    self@,
                    next,
                    max_depth,
                ));
            }
            i += 1;
        }
        assert(keys.take(n as int) == keys);
        cmds.push(DrawCommand::Blending(false));
        cmds.push(DrawCommand::DepthWrite(true));
        assert(cmds@ =~= layer_pass(self@, keys, max_depth));
        cmds
    }
}

} // verus!
