use ray_tracer::animator::{Frame, VAnimator};
use ray_tracer::zequality::ZEq;
use std::cell::RefCell;

#[test]
fn frame_filename_pads_the_position_to_six_digits() {
    let f = Frame::new(10, 7);
    assert_eq!(f.current(), 7);
    assert_eq!(f.count(), 10);
    assert_eq!(f.filename("animation", "output", ".png"), "animation/output000007.png");
}

#[test]
fn frame_filename_keeps_all_digits_of_a_long_position() {
    let f = Frame::new(2_000_000, 1_234_567);
    assert_eq!(f.filename("out", "f", ".ppm"), "out/f1234567.ppm");
    let f = Frame::new(1, 0);
    assert_eq!(f.filename("", "", ""), "/000000");
}

#[test]
fn animator_visits_every_frame_in_order() {
    let seen = RefCell::new(Vec::new());
    let animator = VAnimator::new(4);
    animator.animate(|frame: Frame| seen.borrow_mut().push((frame.current(), frame.count())));
    assert_eq!(seen.into_inner(), vec![(0, 4), (1, 4), (2, 4), (3, 4)]);
}

#[test]
fn animator_without_frames_does_nothing() {
    let seen = RefCell::new(0);
    VAnimator::new(0).animate(|_frame: Frame| *seen.borrow_mut() += 1);
    assert_eq!(seen.into_inner(), 0);
}

#[derive(Clone, Debug)]
struct Approx(i64);

impl ZEq<Approx> for Approx {
    /// The same test as `zeq`, as the trait's statement of it.
    fn zeq_spec(&self, other: Approx) -> bool {
        self.zeq(other)
    }

    fn zeq(&self, other: Approx) -> bool {
        (self.0 - other.0).abs() <= 1
    }
}

#[test]
fn options_compare_within_tolerance() {
    assert!(Some(Approx(10)).zeq(Some(Approx(11))));
    assert!(Some(Approx(10)).zneg(Some(Approx(12))));
    assert!(None::<Approx>.zeq(None));
    assert!(Some(Approx(1)).zneg(None));
    assert!(None.zneg(Some(Approx(1))));
}
