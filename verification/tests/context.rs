use layered_draw::command::{Batch, BlendFunc, Bucket, DrawCall, DrawCommand, Scale};
use layered_draw::context::{DrawContext, Glyph, TextLayout};
use layered_draw::error::DrawError;
use layered_draw::geometry::{
    Affine, Color, DevicePoint, DeviceRect, MeshPoint, Point, Rect, MESH_UNITS,
};
use layered_draw::mesh::{is_triangle_list, Triangles};
use layered_draw::records::{AtlasRect, BlurQuad, Primitive, Quad, Tex};
use layered_draw::shape::{Brush, Circle, Line, Outline, PathEl, PathEvent, Shape};

fn red() -> Brush {
    Brush::Solid(Color::rgba8(255, 0, 0, 255))
}

fn blue() -> Brush {
    Brush::Solid(Color::rgba8(0, 0, 255, 255))
}

fn glass(a: u8) -> Brush {
    Brush::Solid(Color::rgba8(10, 20, 30, a))
}

fn dev(x0: i64, y0: i64, x1: i64, y1: i64) -> DeviceRect {
    DeviceRect { x0, y0, x1, y1 }
}

fn square() -> Shape {
    Shape::Rect(Rect::new(0, 0, 5, 5))
}

#[test]
fn translated_fill_then_restored_fill() {
    let mut ctx = DrawContext::new();
    ctx.save().unwrap();
    let m = Affine::translate(10, 10);
    assert!(ctx.can_transform(&m));
    ctx.transform(m);
    assert!(ctx.fill(&square(), &red()).is_none());
    ctx.restore().unwrap();
    assert!(ctx.fill(&square(), &blue()).is_none());

    let quads = ctx.layer().quads();
    assert_eq!(quads.len(), 2);
    assert_eq!(
        quads[0],
        Quad {
            rect: dev(10, 10, 15, 15),
            color: Color::rgba8(255, 0, 0, 255),
            depth: 1,
            clip: dev(0, 0, 0, 0),
        }
    );
    assert_eq!(
        quads[1],
        Quad {
            rect: dev(0, 0, 5, 5),
            color: Color::rgba8(0, 0, 255, 255),
            depth: 2,
            clip: dev(0, 0, 0, 0),
        }
    );
    assert!(quads[1].depth > quads[0].depth);
    assert!(ctx.layer().alpha_depths().is_empty());
    assert_eq!(ctx.depth(), 2);
}

#[test]
fn layer_one_is_composited_over_layer_zero_whatever_the_call_order() {
    for first in [0usize, 1usize] {
        let second = 1 - first;
        let mut ctx = DrawContext::new();
        ctx.set_alpha_depth(first);
        ctx.fill(&Shape::Rect(Rect::new(0, 0, 10, 10)), &glass(128));
        ctx.set_alpha_depth(second);
        ctx.fill(&Shape::Rect(Rect::new(5, 5, 15, 15)), &glass(64));

        let cmds = ctx.finish().unwrap();
        let drawn: Vec<usize> = cmds
            .iter()
            .filter_map(|c| match c {
                DrawCommand::Draw(DrawCall { bucket: Bucket::Transparent(k), batch: Batch::Quads, .. }) => {
                    Some(*k)
                }
                _ => None,
            })
            .collect();
        assert_eq!(drawn, vec![0, 1]);
        assert_eq!(ctx.layer().alpha_depths(), vec![0, 1]);
        assert!(ctx.layer().quads().is_empty());
        assert_eq!(ctx.layer().transparent(0).unwrap().quads.len(), 1);
        assert_eq!(ctx.layer().transparent(1).unwrap().quads.len(), 1);
    }
}

#[test]
fn save_restore_round_trip_keeps_transform_and_clips() {
    let mut ctx = DrawContext::new();
    ctx.transform(Affine::translate(3, 4));
    ctx.clip(&Shape::Rect(Rect::new(0, 0, 100, 100)));
    ctx.set_alpha_depth(2);
    let transform = ctx.current_transform();
    let clip = ctx.get_current_clip();
    let clips = ctx.clip_depth();

    ctx.save().unwrap();
    ctx.transform(Affine::new(2, 0, 0, 2, 7, 7));
    ctx.clip(&Shape::Rect(Rect::new(1, 1, 5, 5)));
    ctx.save().unwrap();
    ctx.clip(&Shape::Rect(Rect::new(2, 2, 3, 3)));
    ctx.clip_override(&Shape::Rect(Rect::new(-9, -9, 9, 9)));
    ctx.incr_alpha_depth();
    ctx.restore().unwrap();
    assert_eq!(ctx.clip_depth(), clips + 1);
    assert_eq!(ctx.alpha_depth(), 2);
    ctx.restore().unwrap();

    assert_eq!(ctx.current_transform(), transform);
    assert_eq!(ctx.get_current_clip(), clip);
    assert_eq!(ctx.clip_depth(), clips);
    assert_eq!(ctx.alpha_depth(), 2);
    assert_eq!(ctx.save_depth(), 0);
}

#[test]
fn restore_without_save_fails_and_changes_nothing() {
    let mut ctx = DrawContext::new();
    ctx.transform(Affine::translate(1, 2));
    ctx.clip(&Shape::Rect(Rect::new(0, 0, 4, 4)));
    let primitives = ctx.primitives().len();
    assert_eq!(ctx.restore(), Err(DrawError::StackImbalance));
    assert_eq!(ctx.current_transform(), Affine::translate(1, 2));
    assert_eq!(ctx.clip_depth(), 1);
    assert_eq!(ctx.get_current_clip(), Some(dev(1, 2, 5, 6)));
    assert_eq!(ctx.primitives().len(), primitives);
    ctx.save().unwrap();
    assert_eq!(ctx.restore(), Ok(()));
    assert_eq!(ctx.restore(), Err(DrawError::StackImbalance));
}

#[test]
fn nested_clips_leave_the_inner_rectangle() {
    let outer = Shape::Rect(Rect::new(0, 0, 100, 100));
    let inner = Shape::Rect(Rect::new(10, 20, 30, 40));
    let mut ctx = DrawContext::new();
    ctx.transform(Affine::translate(5, 5));
    ctx.clip(&outer);
    assert_eq!(ctx.current_clip(), dev(5, 5, 105, 105));
    ctx.clip(&inner);
    assert_eq!(ctx.current_clip(), dev(15, 25, 35, 45));

    let mut ctx = DrawContext::new();
    ctx.transform(Affine::translate(5, 5));
    ctx.clip(&inner);
    ctx.clip(&outer);
    assert_eq!(ctx.current_clip(), dev(15, 25, 35, 45));
    assert_eq!(ctx.clip_depth(), 2);
}

#[test]
fn nested_clips_within_a_clip_in_effect_leave_the_inner_rectangle() {
    let outer = Shape::Rect(Rect::new(0, 0, 100, 100));
    let inner = Shape::Rect(Rect::new(10, 20, 30, 40));
    for swap in [false, true] {
        let mut ctx = DrawContext::new();
        ctx.clip(&Shape::Rect(Rect::new(5, 5, 50, 50)));
        ctx.transform(Affine::translate(1, 1));
        let (first, second) = if swap { (&inner, &outer) } else { (&outer, &inner) };
        ctx.clip(first);
        ctx.clip(second);
        assert_eq!(ctx.current_clip(), dev(11, 21, 31, 41));
    }
}

#[test]
fn disjoint_clips_leave_an_empty_rectangle() {
    let mut ctx = DrawContext::new();
    ctx.clip(&Shape::Rect(Rect::new(0, 0, 10, 10)));
    ctx.clip(&Shape::Rect(Rect::new(20, 30, 40, 50)));
    assert_eq!(ctx.current_clip(), dev(20, 30, 20, 30));
}

#[test]
fn clip_override_replaces_the_clip() {
    let mut ctx = DrawContext::new();
    ctx.clip(&Shape::Rect(Rect::new(0, 0, 10, 10)));
    ctx.clip_override(&Shape::Rect(Rect::new(20, 30, 40, 50)));
    assert_eq!(ctx.current_clip(), dev(20, 30, 40, 50));
}

#[test]
fn clip_of_a_shape_that_is_no_rectangle_is_ignored() {
    let mut ctx = DrawContext::new();
    let primitives = ctx.primitives().len();
    ctx.clip(&Shape::Circle(Circle { center: Point::new(0, 0), radius: 5 }));
    ctx.clip_override(&Shape::Line(Line { start: Point::new(0, 0), end: Point::new(1, 1) }));
    assert_eq!(ctx.get_current_clip(), None);
    assert_eq!(ctx.current_clip(), dev(0, 0, 0, 0));
    assert_eq!(ctx.clip_depth(), 0);
    assert_eq!(ctx.primitives().len(), primitives);
}

#[test]
fn opaque_goes_to_the_opaque_bucket_and_transparent_to_its_layer() {
    let mut ctx = DrawContext::new();
    ctx.set_alpha_depth(7);
    ctx.fill(&square(), &red());
    ctx.fill(&square(), &glass(254));
    ctx.fill(&square(), &glass(0));

    let layer = ctx.layer();
    assert_eq!(layer.quads().len(), 1);
    assert_eq!(layer.quads()[0].color, Color::rgba8(255, 0, 0, 255));
    assert_eq!(layer.alpha_depths(), vec![7]);
    let bucket = layer.transparent(7).unwrap();
    assert_eq!(bucket.quads.len(), 2);
    assert_eq!(bucket.quads[0].color.a, 254);
    assert_eq!(bucket.quads[0].depth, 2);
    assert_eq!(bucket.quads[1].color.a, 0);
    assert_eq!(bucket.quads[1].depth, 3);
    assert!(layer.transparent(0).is_none());
}

#[test]
fn fill_reads_the_clip_and_the_translation_in_effect() {
    let mut ctx = DrawContext::new();
    ctx.transform(Affine::translate(-3, 8));
    ctx.clip(&Shape::Rect(Rect::new(0, 0, 50, 50)));
    ctx.fill(&Shape::Rect(Rect::new(1, 2, 3, 4)), &red());
    assert_eq!(
        ctx.layer().quads()[0],
        Quad {
            rect: dev(-2, 10, 0, 12),
            color: Color::rgba8(255, 0, 0, 255),
            depth: 1,
            clip: dev(-3, 8, 47, 58),
        }
    );
}

#[test]
fn fill_at_the_edge_of_user_space_does_not_wrap() {
    let mut ctx = DrawContext::new();
    ctx.transform(Affine::translate(i32::MAX, i32::MIN));
    ctx.fill(&Shape::Rect(Rect::new(i32::MAX, i32::MIN, i32::MAX, i32::MIN)), &red());
    assert_eq!(
        ctx.layer().quads()[0].rect,
        dev(4294967294, -4294967296, 4294967294, -4294967296)
    );
}

#[test]
fn rectangle_fill_makes_one_quad_and_circle_fill_leaves_a_job() {
    let mut ctx = DrawContext::new();
    ctx.transform(Affine::translate(2, 3));
    assert!(ctx.fill(&square(), &red()).is_none());
    assert_eq!(ctx.layer().quads().len(), 1);
    assert!(ctx.layer().triangles().vertices.is_empty());

    let circle = Shape::Circle(Circle { center: Point::new(10, 10), radius: 4 });
    let job = ctx.fill(&circle, &red()).unwrap();
    assert_eq!(ctx.layer().quads().len(), 1);
    match job.outline {
        Outline::FillCircle { center, radius } => {
            assert_eq!(center, DevicePoint { x: 12, y: 13 });
            assert_eq!(radius, 4);
        }
        _ => panic!("a circle is tessellated as a circle"),
    }
    assert_eq!(job.depth, 2);
    assert_eq!(job.tolerance_milli, 20);
    assert_eq!(MESH_UNITS, 1000);
    assert!(!job.transparent);
    assert_eq!(job.color, Color::rgba8(255, 0, 0, 255));
    assert_eq!(ctx.depth(), 2);
}

#[test]
fn fill_of_a_line_or_a_path_only_advances_the_depth() {
    let mut ctx = DrawContext::new();
    let line = Shape::Line(Line { start: Point::new(0, 0), end: Point::new(1, 1) });
    assert!(ctx.fill(&line, &red()).is_none());
    assert!(ctx.fill(&Shape::Path(vec![PathEl::MoveTo(Point::new(0, 0))]), &glass(1)).is_none());
    assert_eq!(ctx.depth(), 2);
    assert!(ctx.layer().quads().is_empty());
    assert!(ctx.layer().triangles().vertices.is_empty());
    assert!(ctx.layer().alpha_depths().is_empty());
}

#[test]
fn transparent_circle_makes_its_bucket_before_the_mesh_arrives() {
    let mut ctx = DrawContext::new();
    ctx.set_alpha_depth(3);
    let circle = Shape::Circle(Circle { center: Point::new(0, 0), radius: 1 });
    let job = ctx.fill(&circle, &glass(100)).unwrap();
    assert!(job.transparent);
    assert_eq!(job.alpha_depth, 3);
    assert_eq!(ctx.layer().alpha_depths(), vec![3]);
    assert!(ctx.layer().transparent(3).unwrap().triangles.vertices.is_empty());
}

#[test]
fn mesh_goes_to_the_bucket_of_the_call_not_of_the_arrival() {
    let mut ctx = DrawContext::new();
    ctx.clip(&Shape::Rect(Rect::new(0, 0, 9, 9)));
    ctx.set_alpha_depth(1);
    let circle = Shape::Circle(Circle { center: Point::new(0, 0), radius: 1 });
    let job = ctx.fill(&circle, &glass(100)).unwrap();
    ctx.set_alpha_depth(5);
    ctx.clip_override(&Shape::Rect(Rect::new(0, 0, 1, 1)));

    let vertices = vec![
        MeshPoint { x: 0, y: 0 },
        MeshPoint { x: 1500, y: 0 },
        MeshPoint { x: 0, y: 20 },
    ];
    let tri = Triangles { vertices, indices: vec![0, 1, 2] };
    assert!(is_triangle_list(&tri));
    assert!(ctx.add_mesh(&job, &tri));
    assert!(ctx.add_mesh(&job, &tri));

    assert_eq!(ctx.layer().alpha_depths(), vec![1]);
    let mesh = &ctx.layer().transparent(1).unwrap().triangles;
    assert_eq!(mesh.vertices.len(), 6);
    assert_eq!(mesh.indices, vec![0, 1, 2, 3, 4, 5]);
    assert_eq!(mesh.vertices[4].pos, MeshPoint { x: 1500, y: 0 });
    assert_eq!(mesh.vertices[4].color, Color::rgba8(10, 20, 30, 100));
    assert_eq!(mesh.vertices[4].depth, 1);
    assert_eq!(mesh.vertices[4].clip, dev(0, 0, 9, 9));
    assert!(ctx.layer().triangles().vertices.is_empty());
}

#[test]
fn opaque_mesh_goes_to_the_opaque_bucket() {
    let mut ctx = DrawContext::new();
    ctx.set_alpha_depth(4);
    let job = ctx.stroke(&square(), &red(), 2);
    let tri = Triangles { vertices: vec![MeshPoint { x: 7, y: 7 }], indices: vec![0, 0, 0] };
    assert!(is_triangle_list(&tri));
    assert!(ctx.add_mesh(&job, &tri));
    assert_eq!(ctx.layer().triangles().vertices.len(), 1);
    assert_eq!(ctx.layer().triangles().indices, vec![0, 0, 0]);
    assert!(ctx.layer().alpha_depths().is_empty());
}

#[test]
fn stroke_hands_out_the_border_in_device_space() {
    let mut ctx = DrawContext::new();
    ctx.transform(Affine::translate(100, 200));

    let job = ctx.stroke(&Shape::Rect(Rect::new(1, 2, 3, 4)), &red(), 6);
    match job.outline {
        Outline::StrokeRect { rect, width } => {
            assert_eq!(rect, dev(101, 202, 103, 204));
            assert_eq!(width, 6);
        }
        _ => panic!("a rectangle is stroked as a rectangle"),
    }
    assert_eq!(job.depth, 1);

    let line = Shape::Line(Line { start: Point::new(0, 0), end: Point::new(5, 6) });
    let job = ctx.stroke(&line, &red(), 1);
    match job.outline {
        Outline::StrokePath { events, width } => {
            assert_eq!(
                events,
                vec![
                    PathEvent::Begin(DevicePoint { x: 100, y: 200 }),
                    PathEvent::Line(DevicePoint { x: 105, y: 206 }),
                    PathEvent::End { close: true },
                ]
            );
            assert_eq!(width, 1);
        }
        _ => panic!("a line is stroked as a path"),
    }
    assert_eq!(job.depth, 2);

    let circle = Shape::Circle(Circle { center: Point::new(-100, -200), radius: 9 });
    let job = ctx.stroke(&circle, &glass(9), 3);
    match job.outline {
        Outline::StrokeCircle { center, radius, width } => {
            assert_eq!(center, DevicePoint { x: 0, y: 0 });
            assert_eq!(radius, 9);
            assert_eq!(width, 3);
        }
        _ => panic!("a circle is stroked as a circle"),
    }
    assert!(job.transparent);
    assert_eq!(ctx.depth(), 3);
}

#[test]
fn stroke_of_a_path_ends_an_open_sub_path() {
    let mut ctx = DrawContext::new();
    ctx.transform(Affine::translate(1, 1));
    let p = |x: i32, y: i32| Point::new(x, y);
    let d = |x: i64, y: i64| DevicePoint { x, y };
    let path = Shape::Path(vec![
        PathEl::MoveTo(p(0, 0)),
        PathEl::LineTo(p(4, 0)),
        PathEl::QuadTo(p(5, 1), p(4, 2)),
        PathEl::ClosePath,
        PathEl::MoveTo(p(9, 9)),
        PathEl::CurveTo(p(1, 2), p(3, 4), p(5, 6)),
    ]);
    let job = ctx.stroke(&path, &red(), 2);
    match job.outline {
        Outline::StrokePath { events, .. } => assert_eq!(
            events,
            vec![
                PathEvent::Begin(d(1, 1)),
                PathEvent::Line(d(5, 1)),
                PathEvent::Quadratic(d(6, 2), d(5, 3)),
                PathEvent::End { close: true },
                PathEvent::Begin(d(10, 10)),
                PathEvent::Cubic(d(2, 3), d(4, 5), d(6, 7)),
                PathEvent::End { close: false },
            ]
        ),
        _ => panic!("a path is stroked as a path"),
    }

    let closed = Shape::Path(vec![PathEl::MoveTo(p(0, 0)), PathEl::ClosePath]);
    let job = ctx.stroke(&closed, &red(), 2);
    match job.outline {
        Outline::StrokePath { events, .. } => assert_eq!(
            events,
            vec![PathEvent::Begin(d(1, 1)), PathEvent::End { close: true }]
        ),
        _ => panic!("a path is stroked as a path"),
    }

    let job = ctx.stroke(&Shape::Path(Vec::new()), &red(), 2);
    match job.outline {
        Outline::StrokePath { events, .. } => assert!(events.is_empty()),
        _ => panic!("a path is stroked as a path"),
    }
}

#[test]
fn blurred_rect_carries_the_outer_and_the_inner_rectangle() {
    let mut ctx = DrawContext::new();
    ctx.transform(Affine::translate(10, 20));
    ctx.set_alpha_depth(2);
    ctx.blurred_rect(Rect::new(0, 0, 100, 50), 4, &red());
    let bucket = ctx.layer().transparent(2).unwrap();
    assert_eq!(
        bucket.blurred_quads,
        vec![BlurQuad {
            rect: dev(-2, 8, 122, 82),
            blur_rect: dev(10, 20, 110, 70),
            blur_radius: 4,
            color: Color::rgba8(255, 0, 0, 255),
            depth: 1,
            clip: dev(0, 0, 0, 0),
        }]
    );
    assert!(ctx.layer().quads().is_empty());
    assert_eq!(ctx.depth(), 1);

    ctx.blurred_rect(Rect::new(0, 0, 1, 1), u32::MAX, &red());
    let bucket = ctx.layer().transparent(2).unwrap();
    assert_eq!(
        bucket.blurred_quads[1].rect,
        dev(10 - 12884901885, 20 - 12884901885, 11 + 12884901885, 21 + 12884901885)
    );
}

#[test]
fn image_without_an_atlas_rectangle_is_skipped() {
    let mut ctx = DrawContext::new();
    ctx.draw_image(Err(DrawError::ResourceUnavailable), Rect::new(0, 0, 8, 8));
    ctx.draw_svg(Err(DrawError::ResourceUnavailable), Rect::new(0, 0, 8, 8), None);
    assert!(ctx.layer().alpha_depths().is_empty());
    assert_eq!(ctx.depth(), 0);
}

#[test]
fn image_and_icon_become_atlas_records_at_the_current_depth() {
    let mut ctx = DrawContext::new();
    ctx.transform(Affine::translate(1, 1));
    ctx.fill(&square(), &red());
    ctx.draw_image(Ok(AtlasRect::new(0, 0, 16, 16)), Rect::new(0, 0, 8, 8));
    ctx.draw_svg(
        Ok(AtlasRect::new(16, 0, 32, 16)),
        Rect::new(10, 10, 18, 18),
        Some(Color::rgba8(1, 2, 3, 4)),
    );
    ctx.draw_svg(Ok(AtlasRect::new(1, 2, 3, 4)), Rect::new(0, 0, 1, 1), None);
    let atlas = &ctx.layer().transparent(0).unwrap().atlas;
    assert_eq!(
        atlas[0],
        Tex {
            rect: dev(1, 1, 9, 9),
            tex_rect: AtlasRect::new(0, 0, 16, 16),
            color: Color::rgba8(0, 0, 0, 0),
            depth: 1,
            clip: dev(0, 0, 0, 0),
        }
    );
    assert_eq!(atlas[1].rect, dev(11, 11, 19, 19));
    assert_eq!(atlas[1].color, Color::rgba8(1, 2, 3, 4));
    assert_eq!(atlas[2].color, Color::rgba8(0, 0, 0, 0));
    assert_eq!(atlas.len(), 3);
    assert_eq!(ctx.depth(), 1);
}

#[test]
fn text_is_split_into_colored_and_mask_glyphs() {
    let glyph = |x: i32, colored: bool| Glyph {
        rect: Rect::new(x, 0, x + 8, 12),
        tex_rect: AtlasRect::new(x as u32, 0, x as u32 + 8, 12),
        color: Color::rgba8(9, 9, 9, 255),
        colored,
    };
    let layout = TextLayout {
        glyphs: vec![glyph(0, false), glyph(8, true), glyph(16, false), glyph(24, false)],
    };
    let mut ctx = DrawContext::new();
    ctx.transform(Affine::translate(100, 0));
    ctx.set_alpha_depth(1);
    ctx.draw_text(&layout, Point::new(5, 50));
    let bucket = ctx.layer().transparent(1).unwrap();
    assert_eq!(bucket.texts.len(), 3);
    assert_eq!(bucket.color_texts.len(), 1);
    assert_eq!(bucket.texts[1].rect, dev(121, 50, 129, 62));
    assert_eq!(bucket.texts[2].rect, dev(129, 50, 137, 62));
    assert_eq!(bucket.color_texts[0].rect, dev(113, 50, 121, 62));
    assert_eq!(bucket.color_texts[0].tex_rect, AtlasRect::new(8, 0, 16, 12));
    assert_eq!(bucket.texts[0].depth, 0);

    ctx.draw_text(&layout, Point::new(i32::MAX, i32::MAX));
    let bucket = ctx.layer().transparent(1).unwrap();
    assert_eq!(bucket.texts.len(), 6);
    assert_eq!(bucket.texts[3].rect.x0, 2147483647 + 100);
}

#[test]
fn finish_draws_opaque_first_and_layers_ascending() {
    let mut ctx = DrawContext::new();
    for k in [3usize, 1, 2] {
        ctx.set_alpha_depth(k);
        ctx.fill(&square(), &glass(100));
    }
    ctx.set_alpha_depth(9);
    ctx.fill(&square(), &red());
    ctx.set_alpha_depth(1);
    ctx.draw_image(Ok(AtlasRect::new(0, 0, 1, 1)), Rect::new(0, 0, 1, 1));

    let cmds = ctx.finish().unwrap();
    assert_eq!(cmds.len(), 3 + 7 + 3 * 12);
    assert_eq!(
        &cmds[..8],
        &[
            DrawCommand::Clear,
            DrawCommand::DepthTestLessEqual,
            DrawCommand::DepthWrite(true),
            DrawCommand::Blending(false),
            DrawCommand::BlendFunc(BlendFunc::SourceAlpha),
            DrawCommand::Draw(DrawCall {
                bucket: Bucket::Opaque,
                batch: Batch::Quads,
                len: 1,
                vertices: 0,
                scale: Scale::Device,
                mask: false,
                max_depth: 4,
            }),
            DrawCommand::Draw(DrawCall {
                bucket: Bucket::Opaque,
                batch: Batch::Triangles,
                len: 0,
                vertices: 0,
                scale: Scale::Device,
                mask: false,
                max_depth: 4,
            }),
            DrawCommand::DepthWrite(false),
        ]
    );
    let call = |batch: Batch, len: usize, scale: Scale, mask: bool| {
        DrawCommand::Draw(DrawCall {
            bucket: Bucket::Transparent(1),
            batch,
            len,
            vertices: 0,
            scale,
            mask,
            max_depth: 4,
        })
    };
    assert_eq!(
        &cmds[8..20],
        &[
            DrawCommand::Blending(true),
            DrawCommand::BlendFunc(BlendFunc::SourceAlpha),
            call(Batch::Quads, 1, Scale::Device, false),
            call(Batch::Triangles, 0, Scale::Device, false),
            call(Batch::ColorTexts, 0, Scale::Unit, false),
            call(Batch::Atlas, 1, Scale::Device, false),
            DrawCommand::Blending(true),
            DrawCommand::BlendFunc(BlendFunc::DualSourceColor),
            call(Batch::Texts, 0, Scale::Unit, true),
            DrawCommand::Blending(true),
            DrawCommand::BlendFunc(BlendFunc::SourceAlpha),
            call(Batch::BlurredQuads, 0, Scale::Device, false),
        ]
    );
    assert_eq!(
        &cmds[cmds.len() - 2..],
        &[DrawCommand::Blending(false), DrawCommand::DepthWrite(true)]
    );
    let order: Vec<Bucket> = cmds
        .iter()
        .filter_map(|c| match c {
            DrawCommand::Draw(DrawCall { bucket, batch: Batch::Quads, .. }) => Some(*bucket),
            _ => None,
        })
        .collect();
    assert_eq!(
        order,
        vec![
            Bucket::Opaque,
            Bucket::Transparent(1),
            Bucket::Transparent(2),
            Bucket::Transparent(3)
        ]
    );
}

#[test]
fn finish_of_an_empty_frame() {
    let mut ctx = DrawContext::new();
    let cmds = ctx.finish().unwrap();
    assert_eq!(cmds.len(), 10);
    assert_eq!(cmds[0], DrawCommand::Clear);
    assert_eq!(cmds[9], DrawCommand::DepthWrite(true));
}

#[test]
fn primitives_follow_transform_and_clip() {
    let mut ctx = DrawContext::new();
    assert_eq!(
        ctx.primitives().as_slice(),
        &[Primitive { translate: Point::new(0, 0), clip_rect: dev(0, 0, 0, 0) }]
    );
    ctx.save().unwrap();
    ctx.transform(Affine::translate(4, 5));
    ctx.clip(&Shape::Rect(Rect::new(0, 0, 2, 2)));
    ctx.restore().unwrap();
    assert_eq!(
        &ctx.primitives()[1..],
        &[
            Primitive { translate: Point::new(4, 5), clip_rect: dev(0, 0, 0, 0) },
            Primitive { translate: Point::new(4, 5), clip_rect: dev(4, 5, 6, 7) },
            Primitive { translate: Point::new(0, 0), clip_rect: dev(0, 0, 0, 0) },
        ]
    );
}

#[test]
fn end_save_restores_whatever_the_drawing_returned() {
    let mut ctx = DrawContext::new();
    ctx.save().unwrap();
    ctx.transform(Affine::translate(1, 1));
    assert_eq!(ctx.end_save(Err(DrawError::Decode)), Err(DrawError::Decode));
    assert_eq!(ctx.current_transform(), Affine::identity());
    assert_eq!(ctx.save_depth(), 0);

    ctx.save().unwrap();
    assert_eq!(ctx.end_save(Ok(())), Ok(()));
    assert_eq!(ctx.end_save(Ok(())), Err(DrawError::StackImbalance));
    assert_eq!(ctx.end_save(Err(DrawError::Capacity)), Err(DrawError::Capacity));
}

#[test]
fn unsupported_calls_report_it_and_draw_nothing() {
    let mut ctx = DrawContext::new();
    assert_eq!(ctx.fill_even_odd(&square(), &red()), Err(DrawError::Unsupported));
    assert_eq!(ctx.stroke_styled(&square(), &red(), 2), Err(DrawError::Unsupported));
    assert_eq!(ctx.depth(), 0);
    assert!(ctx.layer().quads().is_empty());
}

#[test]
fn transform_multiplies_from_the_right() {
    let mut ctx = DrawContext::new();
    ctx.transform(Affine::new(2, 0, 0, 3, 10, 20));
    ctx.save().unwrap();
    ctx.transform(Affine::translate(1, 1));
    assert_eq!(ctx.current_transform(), Affine::new(2, 0, 0, 3, 12, 23));
    ctx.transform(Affine::new(0, 1, -1, 0, 0, 0));
    assert_eq!(ctx.current_transform(), Affine::new(0, 3, -2, 0, 12, 23));
    assert!(!ctx.can_transform(&Affine::new(i32::MAX, 0, 0, 1, 0, 0)));
    assert!(ctx.can_transform(&Affine::translate(i32::MAX, 0)) == false);
    assert!(ctx.can_transform(&Affine::identity()));
}

#[test]
fn solid_brush_holds_its_color() {
    let ctx = DrawContext::new();
    let c = Color::rgba8(1, 2, 3, 4);
    assert_eq!(ctx.solid_brush(c), Brush::Solid(c));
    assert_eq!(ctx.solid_brush(c).solid_color(), c);
    assert!(!c.is_opaque());
    assert!(Color::rgba8(0, 0, 0, 255).is_opaque());
}
