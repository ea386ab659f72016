//! The commands of one frame, in the order in which they have to reach the
//! graphics device.

use crate::layer::{BucketView, LayerView};
use crate::mesh::MeshView;
use vstd::prelude::*;

verus! {

/// How source and destination are blended.
#[derive(Clone, Copy, Debug, PartialEq, Eq, Structural)]
pub enum BlendFunc {
    /// Source alpha over one minus source alpha.
    SourceAlpha,
    /// Second source color over one minus second source color: per-channel
    /// coverage, for mask glyphs.
    DualSourceColor,
}

/// Which bucket of the layer a draw call reads.
#[derive(Clone, Copy, Debug, PartialEq, Eq, Structural)]
pub enum Bucket {
    Opaque,
    Transparent(usize),
}

/// Which batch of a bucket a draw call reads.
#[derive(Clone, Copy, Debug, PartialEq, Eq, Structural)]
pub enum Batch {
    Quads,
    Triangles,
    ColorTexts,
    Atlas,
    Texts,
    BlurredQuads,
}

/// The scale factor that a draw call hands to its pipeline.
#[derive(Clone, Copy, Debug, PartialEq, Eq, Structural)]
pub enum Scale {
    /// One: the records are in device pixels already.
    Unit,
    /// The scale of the output device.
    Device,
}

/// One batched draw: all records of one batch of one bucket.
#[derive(Clone, Copy, Debug, PartialEq, Eq, Structural)]
pub struct DrawCall {
    pub bucket: Bucket,
    pub batch: Batch,
    /// The number of records; for `Triangles`, the number of indices.
    pub len: usize,
    /// For `Triangles`, the number of vertices that the indices point into;
    /// zero for every other batch.
    pub vertices: usize,
    pub scale: Scale,
    /// Whether the mask variant of the texture program is used.
    pub mask: bool,
    /// The depth by which the pipeline normalizes record depths.
    pub max_depth: u32,
}

#[derive(Clone, Copy, Debug, PartialEq, Eq, Structural)]
pub enum DrawCommand {
    /// Clear color to white and depth to the far plane.
    Clear,
    /// Enable the depth test with the comparison less-or-equal.
    DepthTestLessEqual,
    /// Switch blending on or off.
    Blending(bool),
    /// Set the blend equation to addition and the blend function.
    BlendFunc(BlendFunc),
    /// Switch depth writes on or off.
    DepthWrite(bool),
    Draw(DrawCall),
}

/// The command for one batched draw.
pub open spec fn draw(
    bucket: Bucket,
    batch: Batch,
    len: nat,
    scale: Scale,
    mask: bool,
    max_depth: u32,
) -> DrawCommand {
    DrawCommand::Draw(
        DrawCall { bucket, batch, len: len as usize, vertices: 0, scale, mask, max_depth },
    )
}

/// The command for the draw of a mesh.
pub open spec fn draw_mesh(bucket: Bucket, mesh: MeshView, max_depth: u32) -> DrawCommand {
    DrawCommand::Draw(
        DrawCall {
            bucket,
            batch: Batch::Triangles,
            len: mesh.indices.len() as usize,
            vertices: mesh.vertices.len() as usize,
            scale: Scale::Device,
            mask: false,
            max_depth,
        },
    )
}

/// The opaque bucket: blending off, quads before triangles; depth writes
/// are switched off after it.
pub open spec fn opaque_pass(v: LayerView, max_depth: u32) -> Seq<DrawCommand> {
    seq![
        DrawCommand::Blending(false),
        DrawCommand::BlendFunc(BlendFunc::SourceAlpha),
        draw(Bucket::Opaque, Batch::Quads, v.quads.len(), Scale::Device, false, max_depth),
        draw_mesh(Bucket::Opaque, v.triangles, max_depth),
        DrawCommand::DepthWrite(false),
    ]
}

/// One transparent bucket: quads, triangles, colored glyphs and atlas images
/// with source-alpha blending, mask glyphs with dual-source blending, then
/// blurred quads with source-alpha blending again.
pub open spec fn bucket_pass(k: usize, b: BucketView, max_depth: u32) -> Seq<DrawCommand> {
    let at = Bucket::Transparent(k);
    seq![
        DrawCommand::Blending(true),
        DrawCommand::BlendFunc(BlendFunc::SourceAlpha),
        draw(at, Batch::Quads, b.quads.len(), Scale::Device, false, max_depth),
        draw_mesh(at, b.triangles, max_depth),
        draw(at, Batch::ColorTexts, b.color_texts.len(), Scale::Unit, false, max_depth),
        draw(at, Batch::Atlas, b.atlas.len(), Scale::Device, false, max_depth),
        DrawCommand::Blending(true),
        DrawCommand::BlendFunc(BlendFunc::DualSourceColor),
        draw(at, Batch::Texts, b.texts.len(), Scale::Unit, true, max_depth),
        DrawCommand::Blending(true),
        DrawCommand::BlendFunc(BlendFunc::SourceAlpha),
        draw(at, Batch::BlurredQuads, b.blurred_quads.len(), Scale::Device, false, max_depth),
    ]
}

/// The transparent buckets of `keys`, one after the other.
pub open spec fn transparent_pass(v: LayerView, keys: Seq<usize>, max_depth: u32) -> Seq<
    DrawCommand,
>
    decreases keys.len(),
{
    if keys.len() == 0 {
        Seq::empty()
    } else {
        transparent_pass(v, keys.drop_last(), max_depth) + bucket_pass(
            keys.last(),
            v.bucket(keys.last()),
            max_depth,
        )
    }
}

/// Blending off and depth writes on again.
pub open spec fn closing_pass() -> Seq<DrawCommand> {
    seq![DrawCommand::Blending(false), DrawCommand::DepthWrite(true)]
}

/// All commands of a layer whose transparent buckets are composited in the
/// order `keys`.
pub open spec fn layer_pass(v: LayerView, keys: Seq<usize>, max_depth: u32) -> Seq<DrawCommand> {
    opaque_pass(v, max_depth) + transparent_pass(v, keys, max_depth) + closing_pass()
}

/// What comes before the layer at the end of a frame: the buffers are
/// cleared and the depth test is set up with depth writes on.
pub open spec fn frame_setup() -> Seq<DrawCommand> {
    seq![DrawCommand::Clear, DrawCommand::DepthTestLessEqual, DrawCommand::DepthWrite(true)]
}

/// `s[i] < s[j]` wherever `i < j`.
pub open spec fn strictly_ascending(s: Seq<usize>) -> bool {
    forall|i: int, j: int| 0 <= i < j < s.len() ==> s[i] < s[j]
}

/// There is one strictly ascending order of a set of alpha-layer indices:
/// two strictly ascending sequences with the same members are equal.
pub proof fn lemma_order_unique(a: Seq<usize>, b: Seq<usize>)
    requires
        strictly_ascending(a),
        strictly_ascending(b),
        forall|k: usize| a.contains(k) <==> b.contains(k),
    ensures
        a == b,
    decreases a.len(),
{
    if a.len() == 0 {
        if b.len() > 0 {
            assert(b.contains(b[0]));
            assert(a.contains(b[0]));
        }
        assert(a =~= b);
    } else {
        let la = a.last();
        assert(a[a.len() - 1] == la);
        assert(a.contains(la));
        assert(b.contains(la));
        let lb = b.last();
        assert(b[b.len() - 1] == lb);
        assert(b.contains(lb));
        assert(a.contains(lb));
        let ja = choose|j: int| 0 <= j < a.len() && a[j] == lb;
        let jb = choose|j: int| 0 <= j < b.len() && b[j] == la;
        assert(lb <= la) by {
            if ja < a.len() - 1 {
                assert(a[ja] < a[a.len() - 1]);
            }
        }
        assert(la <= lb) by {
            if jb < b.len() - 1 {
                assert(b[jb] < b[b.len() - 1]);
            }
        }
        let ha = a.drop_last();
        let hb = b.drop_last();
        assert forall|k: usize| ha.contains(k) <==> hb.contains(k) by {
            if ha.contains(k) {
                let i = choose|i: int| 0 <= i < ha.len() && ha[i] == k;
                assert(a[i] == k);
                assert(a[i] < a[a.len() - 1]);
                assert(a.contains(k));
                let j = choose|j: int| 0 <= j < b.len() && b[j] == k;
                assert(j < b.len() - 1);
                assert(hb[j] == k);
            }
            if hb.contains(k) {
                let i = choose|i: int| 0 <= i < hb.len() && hb[i] == k;
                assert(b[i] == k);
                assert(b[i] < b[b.len() - 1]);
                assert(b.contains(k));
                let j = choose|j: int| 0 <= j < a.len() && a[j] == k;
                assert(j < a.len() - 1);
                assert(ha[j] == k);
            }
        }
        lemma_order_unique(ha, hb);
        assert(a =~= ha.push(la));
        assert(b =~= hb.push(lb));
    }
}

/// Every draw call among `cmds` reads a transparent bucket whose index lies
/// in `keys`.
pub open spec fn draws_within(cmds: Seq<DrawCommand>, keys: Seq<usize>) -> bool {
    forall|p: int|
        0 <= p < cmds.len() ==> match #[trigger] cmds[p] {
            DrawCommand::Draw(c) => match c.bucket {
                Bucket::Transparent(k) => keys.contains(k),
                Bucket::Opaque => false,
            },
            _ => true,
        }
}

/// Among `cmds`, a draw call never comes after one that reads a transparent
/// bucket of a higher index.
pub open spec fn back_to_front(cmds: Seq<DrawCommand>) -> bool {
    forall|p: int, q: int|
        0 <= p < q < cmds.len() ==> match (#[trigger] cmds[p], #[trigger] cmds[q]) {
            (DrawCommand::Draw(c), DrawCommand::Draw(d)) => match (c.bucket, d.bucket) {
                (Bucket::Transparent(i), Bucket::Transparent(j)) => i <= j,
                (Bucket::Transparent(_), Bucket::Opaque) => false,
                _ => true,
            },
            _ => true,
        }
}

proof fn lemma_bucket_pass(k: usize, b: BucketView, max_depth: u32)
    ensures
        bucket_pass(k, b, max_depth).len() == 12,
        draws_within(bucket_pass(k, b, max_depth), seq![k]),
        back_to_front(bucket_pass(k, b, max_depth)),
{
    let cmds = bucket_pass(k, b, max_depth);
    assert(seq![k][0] == k);
    assert forall|p: int| 0 <= p < cmds.len() implies match #[trigger] cmds[p] {
        DrawCommand::Draw(c) => match c.bucket {
            Bucket::Transparent(j) => seq![k].contains(j),
            Bucket::Opaque => false,
        },
        _ => true,
    } by {}
}

proof fn lemma_transparent_pass(v: LayerView, keys: Seq<usize>, max_depth: u32)
    requires
        strictly_ascending(keys),
    ensures
        draws_within(transparent_pass(v, keys, max_depth), keys),
        back_to_front(transparent_pass(v, keys, max_depth)),
        transparent_pass(v, keys, max_depth).len() == 12 * keys.len(),
    decreases keys.len(),
{
    if keys.len() > 0 {
        let head = keys.drop_last();
        let k = keys.last();
        lemma_transparent_pass(v, head, max_depth);
        lemma_bucket_pass(k, v.bucket(k), max_depth);
        let front = transparent_pass(v, head, max_depth);
        let back = bucket_pass(k, v.bucket(k), max_depth);
        let cmds = transparent_pass(v, keys, max_depth);
        assert(cmds == front + back);
        assert forall|p: int| 0 <= p < cmds.len() implies match #[trigger] cmds[p] {
            DrawCommand::Draw(c) => match c.bucket {
                Bucket::Transparent(j) => keys.contains(j),
                Bucket::Opaque => false,
            },
            _ => true,
        } by {
            if p < front.len() {
                assert(cmds[p] == front[p]);
                if let DrawCommand::Draw(c) = front[p] {
                    if let Bucket::Transparent(j) = c.bucket {
                        let w = choose|w: int| 0 <= w < head.len() && head[w] == j;
                        assert(keys[w] == j);
                    }
                }
            } else {
                assert(cmds[p] == back[p - front.len()]);
                if let DrawCommand::Draw(c) = cmds[p] {
                    if let Bucket::Transparent(j) = c.bucket {
                        assert(seq![k].contains(j));
                        assert(j == k);
                        assert(keys[keys.len() - 1] == k);
                    }
                }
            }
        }
        assert forall|p: int, q: int| 0 <= p < q < cmds.len() implies match (
            #[trigger] cmds[p],
            #[trigger] cmds[q],
        ) {
            (DrawCommand::Draw(c), DrawCommand::Draw(d)) => match (c.bucket, d.bucket) {
                (Bucket::Transparent(i), Bucket::Transparent(j)) => i <= j,
                (Bucket::Transparent(_), Bucket::Opaque) => false,
                _ => true,
            },
            _ => true,
        } by {
            if q < front.len() {
                assert(cmds[p] == front[p]);
                assert(cmds[q] == front[q]);
            } else if p >= front.len() {
                assert(cmds[p] == back[p - front.len()]);
                assert(cmds[q] == back[q - front.len()]);
            } else {
                assert(cmds[p] == front[p]);
                assert(cmds[q] == back[q - front.len()]);
                if let DrawCommand::Draw(c) = front[p] {
                    if let Bucket::Transparent(i) = c.bucket {
                        let w = choose|w: int| 0 <= w < head.len() && head[w] == i;
                        assert(keys[w] < keys[keys.len() - 1]);
                    }
                }
                if let DrawCommand::Draw(d) = back[q - front.len()] {
                    if let Bucket::Transparent(j) = d.bucket {
                        assert(seq![k].contains(j));
                        assert(j == k);
                    }
                }
            }
        }
    }
}

/// The opaque bucket is drawn first, and the transparent buckets follow in
/// ascending order of their alpha-layer index: among the commands of a
/// layer, no draw call comes after one that reads a transparent bucket of a
/// higher index, and none that reads the opaque bucket comes after one that
/// reads a transparent bucket.
pub proof fn lemma_layer_pass_back_to_front(v: LayerView, keys: Seq<usize>, max_depth: u32)
    requires
        strictly_ascending(keys),
    ensures
        back_to_front(layer_pass(v, keys, max_depth)),
        layer_pass(v, keys, max_depth).len() == 7 + 12 * keys.len(),
{
    lemma_transparent_pass(v, keys, max_depth);
    let a = opaque_pass(v, max_depth);
    let b = transparent_pass(v, keys, max_depth);
    let c = closing_pass();
    let cmds = layer_pass(v, keys, max_depth);
    assert forall|p: int, q: int| 0 <= p < q < cmds.len() implies match (
        #[trigger] cmds[p],
        #[trigger] cmds[q],
    ) {
        (DrawCommand::Draw(c), DrawCommand::Draw(d)) => match (c.bucket, d.bucket) {
            (Bucket::Transparent(i), Bucket::Transparent(j)) => i <= j,
            (Bucket::Transparent(_), Bucket::Opaque) => false,
            _ => true,
        },
        _ => true,
    } by {
        if p < 5 {
            assert(cmds[p] == a[p]);
        } else if p < 5 + b.len() {
            assert(cmds[p] == b[p - 5]);
        } else {
            assert(cmds[p] == c[p - 5 - b.len()]);
        }
        if q < 5 {
            assert(cmds[q] == a[q]);
        } else if q < 5 + b.len() {
            assert(cmds[q] == b[q - 5]);
        } else {
            assert(cmds[q] == c[q - 5 - b.len()]);
        }
    }
}

} // verus!
