use show::basics;
use show::math;

#[test]
fn it_works() {
    assert_eq!(2 + 2, 4)
}

#[test]
fn contains_is_half_open_on_the_max_edge() {
    let b = math::Bounds::new(0, 0, 10, 10);
    assert!(b.contains(math::Point::new(0, 0)));
    assert!(b.contains(math::Point::new(9, 9)));
    assert!(!b.contains(math::Point::new(10, 0)));
    assert!(!b.contains(math::Point::new(0, 10)));
    assert!(!b.contains(b.max));
}

#[test]
fn contains_min_corner_iff_non_degenerate() {
    let b = math::Bounds::new(3, 4, 5, 6);
    assert!(b.contains(b.min));
    let empty = math::Bounds::new(3, 4, 3, 6);
    assert!(!empty.contains(empty.min));
    let zero = math::Bounds::zero();
    assert!(!zero.contains(zero.min));
}

#[test]
fn interval_contains_is_half_open() {
    let i = math::Interval::from_bounds(-3, 3);
    assert!(i.contains(-3));
    assert!(i.contains(2));
    assert!(!i.contains(3));
    assert!(!i.contains(-4));
}

#[test]
fn fix_reorders_inverted_rectangles() {
    let b = math::Bounds::new(10, 20, 3, 4).fix();
    assert_eq!(b.min, math::Point::new(3, 4));
    assert_eq!(b.max, math::Point::new(10, 20));
    let i = math::Interval::from_bounds(9, -9).fixed();
    assert_eq!((i.min, i.max), (-9, 9));
}

#[test]
fn pull_anchors_a_rectangle_with_possibly_negative_extent() {
    let b = math::Bounds::pull(math::Point::new(5, 5), math::Point::new(-2, 3));
    assert_eq!(b.min, math::Point::new(5, 5));
    assert_eq!(b.max, math::Point::new(3, 8));
    let fixed = b.fix();
    assert_eq!(fixed.min, math::Point::new(3, 5));
    assert_eq!(fixed.max, math::Point::new(5, 8));
}

#[test]
fn widths_heights_sizes_and_corners() {
    let b = math::Bounds::new(2, 3, 12, 23);
    assert_eq!(b.width(), 10);
    assert_eq!(b.height(), 20);
    assert_eq!(b.size(), math::Point::new(10, 20));
    assert_eq!(b.min_max(), math::Point::new(2, 23));
    assert_eq!(b.max_min(), math::Point::new(12, 3));
    assert_eq!(b.x().length(), 10);
    assert_eq!(b.y().length(), 20);
}

#[test]
fn centers_round_toward_zero_like_machine_division() {
    assert_eq!(math::Interval::from_bounds(0, 7).center(), 3);
    assert_eq!(math::Interval::from_bounds(-8, 1).center(), -3);
    let b = math::Bounds::new(-8, -8, 1, 1);
    assert_eq!(b.center(), math::Point::new(-3, -3));
    assert_eq!(math::Point::new(-7, 7).div(2), math::Point::new(-3, 3));
    assert_eq!(math::Point::new(-7, 7).div(-2), math::Point::new(3, -3));
}

#[test]
fn point_arithmetic() {
    assert_eq!(math::Point::new(2, -3).mul(4), math::Point::new(8, -12));
    assert_eq!(math::Point::from_pair((1, 2)), math::Point::new(1, 2));
    assert_eq!(math::Point::zero(), math::Point::new(0, 0));
    let b = math::Bounds::new(0, 0, 4, 4).add(math::Point::new(10, 20));
    assert_eq!(b.min, math::Point::new(10, 20));
    assert_eq!(b.max, math::Point::new(14, 24));
    let i = math::Interval::from_bounds(1, 3).add(5);
    assert_eq!((i.min, i.max), (6, 8));
    let s = math::Interval::from_bounds(0, 10).shrink(2);
    assert_eq!((s.min, s.max), (2, 8));
}

#[test]
fn basics_kernel_matches_the_same_geometry() {
    let p = basics::Point::new(1, 2);
    let r = p.blow_rectangle(basics::Point::new(3, 4));
    assert_eq!(r.min, basics::Point::new(1, 2));
    assert_eq!(r.max, basics::Point::new(4, 6));
    let shrunk = basics::Bounds::new(0, 0, 10, 10).shrink((1, 2, 3, 4));
    assert_eq!(shrunk.min, basics::Point::new(1, 2));
    assert_eq!(shrunk.max, basics::Point::new(7, 6));
    let f = basics::Bounds::from_points(basics::Point::new(9, 9), basics::Point::new(0, 0))
        .fixed();
    assert_eq!(f.min, basics::Point::new(0, 0));
    assert_eq!(f.max, basics::Point::new(9, 9));
    assert!(basics::Bounds::new(0, 0, 5, 5).contains(basics::Point::new(4, 4)));
    assert!(!basics::Bounds::new(0, 0, 5, 5).contains(basics::Point::new(5, 4)));
    assert_eq!(basics::Bounds::from_size(basics::Point::new(5, 6)).size(), basics::Point::new(5, 6));
    assert_eq!(basics::Interval::from_size(10, -4).length(), -4);
    assert_eq!(basics::Bounds::from_intervals(
        basics::Interval::from_bounds(1, 2),
        basics::Interval::from_bounds(3, 4),
    ).max, basics::Point::new(2, 4));
}

#[test]
fn nd_points_scale_componentwise() {
    let p = basics::NDPoint::new([1, -2, 3]);
    let q = p.mul(3);
    assert_eq!(q.coordinates, [3, -6, 9]);
    let d = basics::NDPoint::new([7, -7, 8]).div(2);
    assert_eq!(d.coordinates, [3, -3, 4]);
    let z = basics::NDPoint::<4>::zero();
    assert_eq!(z.coordinates, [0, 0, 0, 0]);
}

#[test]
fn point_add_sub_neg() {
    let a = math::Point::new(3, -4);
    let b = math::Point::new(10, 20);
    assert_eq!(a.add(b), math::Point::new(13, 16));
    assert_eq!(b.sub(a), math::Point::new(7, 24));
    assert_eq!(a.neg(), math::Point::new(-3, 4));
    let c = basics::Point::new(1, 2);
    assert_eq!(c.add(basics::Point::new(3, 4)), basics::Point::new(4, 6));
    assert_eq!(c.sub(basics::Point::new(3, 4)), basics::Point::new(-2, -2));
    assert_eq!(c.neg(), basics::Point::new(-1, -2));
}
