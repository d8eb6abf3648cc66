use lattice_toolkit::lattice3::Lattice3Size;
use lattice_toolkit::point::Point;
use lattice_toolkit::universal_point::UniversalLatticePoint;
use lattice_toolkit::universal_point::UniversalLatticeSize;
use lattice_toolkit::universal_point::UniversalPoint;
use lattice_toolkit::universal_point_generator::UniversalPointGenerator;
use lattice_toolkit::utils::clamp_coordinate;
use lattice_toolkit::utils::generate_points_until;
use lattice_toolkit::utils::point_from_flat_index;
use lattice_toolkit::utils::size_product;
use lattice_toolkit::utils::wrap_coordinate;

#[test]
fn wrap_coordinate_wraps_negative_inputs() {
    assert_eq!(wrap_coordinate(-1, 5), 4);
    assert_eq!(wrap_coordinate(-5, 5), 0);
    assert_eq!(wrap_coordinate(-6, 5), 4);
    assert_eq!(wrap_coordinate(7, 5), 2);
    assert_eq!(wrap_coordinate(3, 5), 3);
    assert_eq!(wrap_coordinate(0, 5), 0);
}

#[test]
fn wrap_coordinate_of_empty_axis_is_zero() {
    assert_eq!(wrap_coordinate(42, 0), 0);
    assert_eq!(wrap_coordinate(-42, 0), 0);
}

#[test]
fn clamp_coordinate_pins_into_range() {
    assert_eq!(clamp_coordinate(-3, 5), 0);
    assert_eq!(clamp_coordinate(9, 5), 4);
    assert_eq!(clamp_coordinate(2, 5), 2);
    assert_eq!(clamp_coordinate(4, 5), 4);
    assert_eq!(clamp_coordinate(0, 5), 0);
}

#[test]
fn clamp_coordinate_of_empty_axis_is_zero() {
    assert_eq!(clamp_coordinate(7, 0), 0);
    assert_eq!(clamp_coordinate(-7, 0), 0);
}

#[test]
fn universal_point_accessors() {
    let p: UniversalLatticePoint<3> = UniversalPoint::new([4, -2, 7]);
    assert_eq!(p.coords(), [4, -2, 7]);
    assert_eq!(p.values(), [4, -2, 7]);
    assert_eq!(p.get(0), Some(&4));
    assert_eq!(p.get(1), Some(&-2));
    assert_eq!(p.get(2), Some(&7));
    assert_eq!(p.get(3), None);
}

#[test]
fn universal_size_accessors_and_contains() {
    let size: UniversalLatticeSize<2> = UniversalPoint::new([3, 4]);
    assert_eq!(size.sizes(), [3, 4]);
    assert_eq!(size.get(0), Some(&3));
    assert_eq!(size.get(5), None);
    assert!(size.contains(&UniversalPoint::new([0, 0])));
    assert!(size.contains(&UniversalPoint::new([2, 3])));
    assert!(!size.contains(&UniversalPoint::new([3, 0])));
    assert!(!size.contains(&UniversalPoint::new([0, 4])));
    assert!(!size.contains(&UniversalPoint::new([-1, 2])));
}

#[test]
fn universal_size_converts_to_signed_coordinates() {
    let size: UniversalLatticeSize<3> = UniversalPoint::new([1, 2, 3]);
    let signed = size.convert();
    assert_eq!(signed.coords(), [1, 2, 3]);
}

#[test]
fn plain_point_accessors() {
    let p: Point<2, i64> = Point::new([10, -20]);
    assert_eq!(p.coords(), [10, -20]);
    assert_eq!(p.get(0), Some(&10));
    assert_eq!(p.get(1), Some(&-20));
    assert_eq!(p.get(2), None);
    assert_eq!(p, Point::new([10, -20]));
}

#[test]
fn plain_point_fill_and_dimension_helpers() {
    let filled: Point<3, u32> = Point::fill(9);
    assert_eq!(filled.coords(), [9, 9, 9]);
    let one = Point::<0, i64>::point_1d(5);
    assert_eq!(one.x(), 5);
    let two = Point::<0, i64>::point_2d(5, 6);
    assert_eq!((two.x(), two.y()), (5, 6));
    let three = Point::<0, i64>::point_3d(5, 6, 7);
    assert_eq!((three.x(), three.y(), three.z()), (5, 6, 7));
}

#[test]
fn lattice3_size_getters() {
    let s = Lattice3Size::new(4, 5, 6);
    assert_eq!(s.width(), 4);
    assert_eq!(s.height(), 5);
    assert_eq!(s.depth(), 6);
}

#[test]
fn size_product_multiplies_extents() {
    assert_eq!(size_product::<3>(&UniversalPoint::new([2, 3, 4])), 24);
    assert_eq!(size_product::<2>(&UniversalPoint::new([7, 0])), 0);
    assert_eq!(size_product::<1>(&UniversalPoint::new([9])), 9);
}

#[test]
fn point_from_flat_index_walks_axis_zero_fastest() {
    let size: UniversalLatticeSize<2> = UniversalPoint::new([2, 3]);
    assert_eq!(point_from_flat_index(0, size).coords(), [0, 0]);
    assert_eq!(point_from_flat_index(1, size).coords(), [1, 0]);
    assert_eq!(point_from_flat_index(2, size).coords(), [0, 1]);
    assert_eq!(point_from_flat_index(3, size).coords(), [1, 1]);
    assert_eq!(point_from_flat_index(4, size).coords(), [0, 2]);
    assert_eq!(point_from_flat_index(5, size).coords(), [1, 2]);
}

#[test]
fn generate_points_until_enumerates_the_box_in_order() {
    let size: UniversalLatticeSize<2> = UniversalPoint::new([2, 3]);
    let points = generate_points_until(size);
    let expected: Vec<[i128; 2]> = vec![[0, 0], [1, 0], [0, 1], [1, 1], [0, 2], [1, 2]];
    assert_eq!(points.len(), expected.len());
    for (point, want) in points.iter().zip(expected.iter()) {
        assert_eq!(point.coords(), *want);
    }
}

#[test]
fn generate_points_until_of_empty_axis_is_empty() {
    let size: UniversalLatticeSize<2> = UniversalPoint::new([0, 5]);
    assert!(generate_points_until(size).is_empty());
}

#[test]
fn point_generator_hands_out_every_point_once() {
    let size: UniversalLatticeSize<2> = UniversalPoint::new([2, 2]);
    let mut generator = UniversalPointGenerator::new(size);
    assert_eq!(generator.next().unwrap().coords(), [0, 0]);
    assert_eq!(generator.next().unwrap().coords(), [1, 0]);
    assert_eq!(generator.next().unwrap().coords(), [0, 1]);
    assert_eq!(generator.next().unwrap().coords(), [1, 1]);
    assert!(generator.next().is_none());
    assert!(generator.next().is_none());
}
