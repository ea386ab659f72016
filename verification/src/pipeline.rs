//! What a pipeline does with a batch: the layout of its instance buffer and
//! the one draw that it issues.

use crate::command::{Batch, Bucket, DrawCall, Scale};
use crate::error::DrawError;
use vstd::prelude::*;

verus! {

/// The number of records that the instance buffer of a pipeline holds, and
/// the number of vertices and of indices that the buffers of the mesh
/// pipeline hold.
pub const MAX_INSTANCES: usize = 100_000;

/// The number of attributes that a record can have.
pub const MAX_ATTRIBUTES: usize = 16;

/// The shader program of a draw.
#[derive(Clone, Copy, Debug, PartialEq, Eq, Structural)]
pub enum Program {
    Quad,
    Triangle,
    Tex,
    Mask,
    BlurQuad,
}

/// How the records of a draw reach the device.
#[derive(Clone, Copy, Debug, PartialEq, Eq, Structural)]
pub enum Geometry {
    /// A triangle strip of four vertices, once for each of `instances`
    /// records.
    Strip { instances: u32 },
    /// The triangles that `indices` indices into `vertices` vertices
    /// describe.
    Indexed { indices: usize, vertices: usize },
}

/// One draw as a pipeline issues it.
#[derive(Clone, Copy, Debug, PartialEq, Eq, Structural)]
pub struct GpuDraw {
    pub program: Program,
    pub bucket: Bucket,
    pub batch: Batch,
    pub geometry: Geometry,
    pub scale: Scale,
    pub max_depth: u32,
}

/// An attribute of an instance record: `components` numbers of four bytes,
/// `offset` bytes into the record.
#[derive(Clone, Copy, Debug, PartialEq, Eq, Structural)]
pub struct VertexAttribute {
    pub location: u32,
    pub components: u8,
    pub offset: u32,
}

/// The attributes of an instance record and the size of the record in
/// bytes.
#[derive(Debug)]
pub struct InstanceLayout {
    pub attributes: Vec<VertexAttribute>,
    pub stride: u32,
}

/// The program that draws a batch; textured batches have a mask variant.
pub open spec fn program_of(batch: Batch, mask: bool) -> Program {
    match batch {
        Batch::Quads => Program::Quad,
        Batch::Triangles => Program::Triangle,
        Batch::BlurredQuads => Program::BlurQuad,
        _ => if mask {
            Program::Mask
        } else {
            Program::Tex
        },
    }
}

/// What a pipeline makes of a call: nothing for an empty batch, one draw
/// for a batch that its buffers can hold, and a failure for a batch that
/// they cannot hold: one of more than [`MAX_INSTANCES`] records, or a mesh
/// of more than [`MAX_INSTANCES`] indices or vertices.
pub open spec fn dispatched(call: DrawCall) -> Result<Option<GpuDraw>, DrawError> {
    if call.len == 0 {
        Ok(None)
    } else if call.len > MAX_INSTANCES || (call.batch == Batch::Triangles && call.vertices
        > MAX_INSTANCES) {
        Err(DrawError::Capacity)
    } else if call.batch == Batch::Triangles {
        Ok(
            Some(
                GpuDraw {
                    program: Program::Triangle,
                    bucket: call.bucket,
                    batch: call.batch,
                    geometry: Geometry::Indexed { indices: call.len, vertices: call.vertices },
                    scale: call.scale,
                    max_depth: call.max_depth,
                },
            ),
        )
    } else {
        Ok(
            Some(
                GpuDraw {
                    program: program_of(call.batch, call.mask),
                    bucket: call.bucket,
                    batch: call.batch,
                    geometry: Geometry::Strip { instances: call.len as u32 },
                    scale: call.scale,
                    max_depth: call.max_depth,
                },
            ),
        )
    }
}

/// Decides the draw for one call.
pub fn dispatch(call: &DrawCall) -> (r: Result<Option<GpuDraw>, DrawError>)
    ensures
        r == dispatched(*call),
{
    if call.len == 0 {
        return Ok(None);
    }
    if call.len > MAX_INSTANCES {
        return Err(DrawError::Capacity);
    }
    let (program, geometry) = match call.batch {
        Batch::Triangles => {
            if call.vertices > MAX_INSTANCES {
                return Err(DrawError::Capacity);
            }
            (
                Program::Triangle,
                Geometry::Indexed { indices: call.len, vertices: call.vertices },
            )
        },
        batch => {
            let program = match batch {
                Batch::Quads => Program::Quad,
                Batch::BlurredQuads => Program::BlurQuad,
                _ => if call.mask {
                    Program::Mask
                } else {
                    Program::Tex
                },
            };
            (program, Geometry::Strip { instances: call.len as u32 })
        },
    };
    Ok(
        Some(
            GpuDraw {
                program,
                bucket: call.bucket,
                batch: call.batch,
                geometry,
                scale: call.scale,
                max_depth: call.max_depth,
            },
        ),
    )
}

/// The sizes of the attributes of a record of `batch`, in numbers of four
/// bytes, in the order of the record's fields.
pub open spec fn components_of(batch: Batch) -> Seq<u8> {
    match batch {
        Batch::Quads => seq![4u8, 4u8, 1u8, 4u8],
        Batch::Triangles => seq![2u8, 4u8, 1u8, 4u8],
        Batch::BlurredQuads => seq![4u8, 4u8, 1u8, 4u8, 1u8, 4u8],
        _ => seq![4u8, 4u8, 4u8, 1u8, 4u8],
    }
}

/// The sizes of the attributes of a record of `batch`.
pub fn record_components(batch: Batch) -> (c: Vec<u8>)
    ensures
        c@ == components_of(batch),
{
    let c = match batch {
        Batch::Quads => vec![4u8, 4u8, 1u8, 4u8],
        Batch::Triangles => vec![2u8, 4u8, 1u8, 4u8],
        Batch::BlurredQuads => vec![4u8, 4u8, 1u8, 4u8, 1u8, 4u8],
        _ => vec![4u8, 4u8, 4u8, 1u8, 4u8],
    };
    assert(c@ =~= components_of(batch));
    c
}

/// The bytes that the first `n` attributes take.
pub open spec fn bytes_before(components: Seq<u8>, n: int) -> int
    decreases n,
{
    if n <= 0 {
        0
    } else {
        bytes_before(components, n - 1) + 4 * components[n - 1]
    }
}

/// Whether attributes of these sizes can be laid out: there are no more
/// than [`MAX_ATTRIBUTES`] and each has one to four components.
pub open spec fn layable(components: Seq<u8>) -> bool {
    &&& components.len() <= MAX_ATTRIBUTES
    &&& forall|i: int| 0 <= i < components.len() ==> 1 <= (#[trigger] components[i]) <= 4
}

proof fn lemma_bytes_before(components: Seq<u8>, n: int)
    requires
        0 <= n <= components.len(),
    ensures
        0 <= bytes_before(components, n) <= 1020 * n,
    decreases n,
{
    if n > 0 {
        lemma_bytes_before(components, n - 1);
    }
}

/// Lays the attributes of a record out one behind the other. `None` where
/// they cannot be laid out.
pub fn instance_layout(components: &Vec<u8>) -> (r: Option<InstanceLayout>)
    ensures
        r.is_some() == layable(components@),
        r matches Some(layout) ==> {
            &&& layout.attributes@.len() == components@.len()
            &&& layout.stride == bytes_before(components@, components@.len() as int)
            &&& forall|i: int|
                0 <= i < components@.len() ==> (#[trigger] layout.attributes@[i])
                    == (VertexAttribute {
                    location: i as u32,
                    components: components@[i],
                    offset: bytes_before(components@, i) as u32,
                })
        },
{
    let n = components.len();
    if n > MAX_ATTRIBUTES {
        return None;
    }
    let mut attributes: Vec<VertexAttribute> = Vec::new();
    let mut offset: u32 = 0;
    let mut i: usize = 0;
    while i < n
        invariant
            i <= n,
            n == components@.len(),
            n <= MAX_ATTRIBUTES,
            offset == bytes_before(components@, i as int),
            attributes@.len() == i,
            forall|j: int| 0 <= j < i ==> 1 <= (#[trigger] components@[j]) <= 4,
            forall|j: int|
                0 <= j < i ==> (#[trigger] attributes@[j]) == (VertexAttribute {
                    location: j as u32,
                    components: components@[j],
                    offset: bytes_before(components@, j) as u32,
                }),
        decreases n - i,
    {
        let c = components[i];
        if c < 1 || c > 4 {
            return None;
        }
        proof {
            lemma_bytes_before(components@, i as int);
        }
        attributes.push(VertexAttribute { location: i as u32, components: c, offset });
        offset = offset + 4 * (c as u32);
        i += 1;
    }
    Some(InstanceLayout { attributes, stride: offset })
}

/// The size in bytes of an instance buffer for records of `stride` bytes.
pub fn buffer_size(stride: u32) -> (bytes: u64)
    ensures
        bytes == MAX_INSTANCES * stride,
{
    (MAX_INSTANCES as u64) * (stride as u64)
}

} // verus!
