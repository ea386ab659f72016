use layered_draw::command::{Batch, Bucket, DrawCall, Scale};
use layered_draw::error::DrawError;
use layered_draw::pipeline::{
    buffer_size, dispatch, instance_layout, record_components, Geometry, GpuDraw, Program,
    VertexAttribute, MAX_INSTANCES,
};

fn call(batch: Batch, len: usize, mask: bool) -> DrawCall {
    DrawCall {
        bucket: Bucket::Transparent(2),
        batch,
        len,
        vertices: 0,
        scale: Scale::Unit,
        mask,
        max_depth: 9,
    }
}

#[test]
fn empty_batch_is_not_drawn() {
    for batch in [Batch::Quads, Batch::Triangles, Batch::Texts, Batch::BlurredQuads] {
        assert_eq!(dispatch(&call(batch, 0, false)), Ok(None));
    }
}

#[test]
fn batch_beyond_the_buffer_is_a_capacity_error() {
    assert_eq!(dispatch(&call(Batch::Quads, MAX_INSTANCES + 1, false)), Err(DrawError::Capacity));
    assert_eq!(dispatch(&call(Batch::Atlas, usize::MAX, false)), Err(DrawError::Capacity));
    let full = dispatch(&call(Batch::Quads, MAX_INSTANCES, false)).unwrap().unwrap();
    assert_eq!(full.geometry, Geometry::Strip { instances: 100_000 });
}

#[test]
fn mesh_beyond_the_buffers_is_a_capacity_error() {
    let mesh = |len: usize, vertices: usize| DrawCall { vertices, ..call(Batch::Triangles, len, false) };
    assert_eq!(dispatch(&mesh(MAX_INSTANCES + 1, 3)), Err(DrawError::Capacity));
    assert_eq!(dispatch(&mesh(3, MAX_INSTANCES + 1)), Err(DrawError::Capacity));
    assert_eq!(dispatch(&mesh(usize::MAX, usize::MAX)), Err(DrawError::Capacity));
    assert!(dispatch(&mesh(MAX_INSTANCES, 1)).is_ok());
}

#[test]
fn each_batch_is_drawn_by_its_program() {
    let program = |batch: Batch, mask: bool| dispatch(&call(batch, 1, mask)).unwrap().unwrap().program;
    assert_eq!(program(Batch::Quads, false), Program::Quad);
    assert_eq!(program(Batch::Quads, true), Program::Quad);
    assert_eq!(program(Batch::Triangles, false), Program::Triangle);
    assert_eq!(program(Batch::ColorTexts, false), Program::Tex);
    assert_eq!(program(Batch::Atlas, false), Program::Tex);
    assert_eq!(program(Batch::Texts, true), Program::Mask);
    assert_eq!(program(Batch::BlurredQuads, false), Program::BlurQuad);
}

#[test]
fn one_draw_for_the_whole_batch() {
    assert_eq!(
        dispatch(&call(Batch::Texts, 42, true)),
        Ok(Some(GpuDraw {
            program: Program::Mask,
            bucket: Bucket::Transparent(2),
            batch: Batch::Texts,
            geometry: Geometry::Strip { instances: 42 },
            scale: Scale::Unit,
            max_depth: 9,
        }))
    );
    let mesh = |len: usize, vertices: usize| DrawCall { vertices, ..call(Batch::Triangles, len, false) };
    assert_eq!(
        dispatch(&mesh(MAX_INSTANCES, MAX_INSTANCES)).unwrap().unwrap().geometry,
        Geometry::Indexed { indices: MAX_INSTANCES, vertices: MAX_INSTANCES }
    );
    assert_eq!(dispatch(&mesh(3, 1)).unwrap().unwrap().program, Program::Triangle);
    assert_eq!(dispatch(&mesh(0, 7)), Ok(None));
}

#[test]
fn textured_quad_layout() {
    let layout = instance_layout(&record_components(Batch::Atlas)).unwrap();
    let at = |location: u32, components: u8, offset: u32| VertexAttribute { location, components, offset };
    assert_eq!(
        layout.attributes,
        vec![at(0, 4, 0), at(1, 4, 16), at(2, 4, 32), at(3, 1, 48), at(4, 4, 52)]
    );
    assert_eq!(layout.stride, 68);
    assert_eq!(buffer_size(layout.stride), 6_800_000);
}

#[test]
fn strides_of_the_other_records() {
    assert_eq!(instance_layout(&record_components(Batch::Quads)).unwrap().stride, 52);
    assert_eq!(instance_layout(&record_components(Batch::Triangles)).unwrap().stride, 44);
    assert_eq!(instance_layout(&record_components(Batch::BlurredQuads)).unwrap().stride, 72);
    assert_eq!(record_components(Batch::Texts), record_components(Batch::ColorTexts));
}

#[test]
fn layout_refuses_what_cannot_be_an_attribute() {
    assert!(instance_layout(&vec![4, 0, 4]).is_none());
    assert!(instance_layout(&vec![5]).is_none());
    assert!(instance_layout(&vec![1; 17]).is_none());
    let full = instance_layout(&vec![4; 16]).unwrap();
    assert_eq!(full.stride, 256);
    assert_eq!(full.attributes[15].offset, 240);
    let none = instance_layout(&Vec::new()).unwrap();
    assert_eq!(none.stride, 0);
    assert!(none.attributes.is_empty());
    assert_eq!(buffer_size(u32::MAX), 429_496_729_500_000);
}
