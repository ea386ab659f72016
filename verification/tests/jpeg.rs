use layered_draw::jpeg::check_samples;

fn stream(segments: &[&[u8]]) -> Vec<u8> {
    let mut bytes = vec![0xFF, 0xD8];
    for s in segments {
        bytes.extend_from_slice(s);
    }
    bytes
}

fn frame(code: u8, precision: u8, components: u8) -> Vec<u8> {
    vec![0xFF, code, 0, 8 + 3 * components, precision, 0, 8, 0, 8, components, 1, 17, 0]
}

const JFIF: [u8; 18] = [0xFF, 0xE0, 0, 16, 74, 70, 73, 70, 0, 1, 1, 0, 0, 1, 0, 1, 0, 0];

#[test]
fn bytes_that_are_no_jpeg_stream_pass() {
    assert!(check_samples(&[]));
    assert!(check_samples(&[0xFF, 0xD8]));
    assert!(check_samples(b"\x89PNG\r\n\x1a\n"));
    assert!(check_samples(&frame(0xC3, 12, 3)));
    let mut png = b"\x89PNG".to_vec();
    png.extend_from_slice(&frame(0xC3, 12, 3));
    assert!(check_samples(&png));
}

#[test]
fn frames_of_eight_bits_pass() {
    for code in [0xC0u8, 0xC1, 0xC2, 0xC3, 0xC7, 0xCB, 0xCF] {
        for components in [1u8, 3, 4] {
            assert!(check_samples(&stream(&[&JFIF, &frame(code, 8, components)])));
        }
    }
}

#[test]
fn lossless_frames_of_one_component_pass_from_nine_bits_on() {
    for precision in 9..=16u8 {
        assert!(check_samples(&stream(&[&frame(0xC3, precision, 1)])));
    }
    for precision in [0u8, 1, 2, 7, 17, 255] {
        assert!(!check_samples(&stream(&[&frame(0xC3, precision, 1)])));
    }
}

#[test]
fn lossless_frames_of_several_components_pass_at_eight_bits_only() {
    for components in [0u8, 2, 3, 4, 5, 255] {
        for precision in [2u8, 7, 9, 12, 16] {
            for code in [0xC3u8, 0xC7, 0xCB, 0xCF] {
                let bytes = stream(&[&JFIF, &frame(code, precision, components)]);
                assert!(!check_samples(&bytes));
            }
        }
    }
}

#[test]
fn frames_that_are_not_lossless_pass_whatever_they_announce() {
    for code in [0xC0u8, 0xC1, 0xC2, 0xC5, 0xC6, 0xC9, 0xCA, 0xCD, 0xCE] {
        assert!(check_samples(&stream(&[&JFIF, &frame(code, 12, 3)])));
    }
}

#[test]
fn application_data_and_comments_are_passed_over() {
    let inner = frame(0xC3, 12, 3);
    let mut app = vec![0xFF, 0xE1, 0, 2 + inner.len() as u8];
    app.extend_from_slice(&inner);
    let mut comment = vec![0xFF, 0xFE, 0, 2 + inner.len() as u8];
    comment.extend_from_slice(&inner);
    assert!(check_samples(&stream(&[&app, &comment, &frame(0xC0, 8, 3), &inner])));
    assert!(!check_samples(&stream(&[&app, &comment, &inner])));
    assert!(check_samples(&stream(&[&app, &comment])));
}

#[test]
fn only_the_first_frame_header_counts() {
    let bytes = stream(&[&JFIF, &frame(0xC0, 8, 3), &frame(0xC3, 12, 3)]);
    assert!(check_samples(&bytes));
    let bytes = stream(&[&JFIF, &frame(0xC3, 12, 3), &frame(0xC0, 8, 3)]);
    assert!(!check_samples(&bytes));
}

#[test]
fn behind_anything_unexpected_every_place_counts() {
    let table = [0xFFu8, 0xDB, 0, 3, 0];
    assert!(!check_samples(&stream(&[&table, &frame(0xC0, 8, 3), &frame(0xC3, 12, 3)])));
    assert!(check_samples(&stream(&[&table, &frame(0xC0, 8, 3), &frame(0xC3, 8, 3)])));
    let stray = [0xFFu8, 0x00, 7];
    assert!(!check_samples(&stream(&[&stray, &frame(0xC3, 12, 3)])));
    let fill = [0xFFu8, 0xFF];
    assert!(!check_samples(&stream(&[&fill[..1], &frame(0xC3, 5, 1)])));
    let short = [0xFFu8, 0xE0, 0, 1];
    assert!(!check_samples(&stream(&[&short, &frame(0xC3, 12, 4)])));
}

#[test]
fn a_header_that_is_cut_off_passes() {
    let whole = stream(&[&JFIF, &frame(0xC3, 12, 3)]);
    assert!(!check_samples(&whole[..30]));
    assert!(check_samples(&whole[..29]));
    let long = [0xFFu8, 0xE0, 0xFF, 0xFF, 1, 2, 3];
    assert!(check_samples(&stream(&[&long, &frame(0xC3, 12, 3)])));
}
