use layered_draw::error::DrawError;
use layered_draw::geometry::{Affine, DeviceRect, Point, Rect};
use layered_draw::state::StateStack;

#[test]
fn new_stack_is_at_the_identity_without_clip() {
    let s = StateStack::new();
    assert_eq!(s.current_transform(), Affine::identity());
    assert_eq!(s.translation(), Point::new(0, 0));
    assert_eq!(s.alpha_depth(), 0);
    assert_eq!(s.save_depth(), 0);
    assert_eq!(s.clip_depth(), 0);
    assert_eq!(s.get_current_clip(), None);
    assert_eq!(s.current_clip(), DeviceRect::zero());
}

#[test]
fn restore_takes_off_the_clips_pushed_since_the_save() {
    let mut s = StateStack::new();
    s.clip_nested(Rect::new(0, 0, 50, 50));
    s.save();
    s.clip_nested(Rect::new(10, 10, 40, 40));
    s.clip_nested(Rect::new(20, 20, 30, 30));
    s.save();
    s.clip_override(Rect::new(0, 0, 1, 1));
    assert_eq!(s.clip_depth(), 4);
    assert_eq!(s.save_depth(), 2);
    assert_eq!(s.restore(), Ok(()));
    assert_eq!(s.clip_depth(), 3);
    assert_eq!(s.current_clip(), DeviceRect { x0: 20, y0: 20, x1: 30, y1: 30 });
    assert_eq!(s.restore(), Ok(()));
    assert_eq!(s.clip_depth(), 1);
    assert_eq!(s.current_clip(), DeviceRect { x0: 0, y0: 0, x1: 50, y1: 50 });
    assert_eq!(s.restore(), Err(DrawError::StackImbalance));
    assert_eq!(s.clip_depth(), 1);
}

#[test]
fn restore_brings_back_transform_and_alpha_depth() {
    let mut s = StateStack::new();
    s.transform(Affine::translate(2, 3));
    s.set_alpha_depth(5);
    s.save();
    assert!(s.can_transform(&Affine::new(3, 0, 0, 3, 1, 1)));
    s.transform(Affine::new(3, 0, 0, 3, 1, 1));
    s.incr_alpha_depth();
    assert_eq!(s.current_transform(), Affine::new(3, 0, 0, 3, 3, 4));
    assert_eq!(s.translation(), Point::new(3, 4));
    assert_eq!(s.alpha_depth(), 6);
    assert_eq!(s.restore(), Ok(()));
    assert_eq!(s.current_transform(), Affine::translate(2, 3));
    assert_eq!(s.alpha_depth(), 5);
}

#[test]
fn transform_that_only_the_relative_transform_cannot_hold_is_refused() {
    let mut s = StateStack::new();
    s.transform(Affine::new(0, 0, 0, 0, 0, 0));
    s.save();
    s.transform(Affine::new(i32::MAX, 0, 0, 1, 0, 0));
    assert_eq!(s.current_transform(), Affine::new(0, 0, 0, 0, 0, 0));
    assert!(!s.can_transform(&Affine::new(2, 0, 0, 1, 0, 0)));
    assert!(s.can_transform(&Affine::identity()));
}
