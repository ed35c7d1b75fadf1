use raytrace::scalar::Scalar;
use raytrace::scene::{grid_cells, keeps_clear, pick_material, MaterialKind, GRID_REACH, HALF_BITS, NINE_TENTHS_BITS};

fn s(x: f32) -> Scalar {
    Scalar::from_bits(x.to_bits())
}

#[test]
fn thresholds_are_the_numbers_they_name() {
    assert_eq!(HALF_BITS, 0.5f32.to_bits());
    assert_eq!(NINE_TENTHS_BITS, 0.9f32.to_bits());
    assert_eq!(GRID_REACH, 10);
}

#[test]
fn material_goes_by_the_sample() {
    assert_eq!(pick_material(s(0.0)), MaterialKind::Lambertian);
    assert_eq!(pick_material(s(0.499_999_97)), MaterialKind::Lambertian);
    assert_eq!(pick_material(s(0.5)), MaterialKind::Metal);
    assert_eq!(pick_material(s(0.7)), MaterialKind::Metal);
    assert_eq!(pick_material(s(0.899_999_9)), MaterialKind::Metal);
    assert_eq!(pick_material(s(0.9)), MaterialKind::Dielectric);
    assert_eq!(pick_material(s(0.999_999_9)), MaterialKind::Dielectric);
}

#[test]
fn material_agrees_with_the_hardware_comparisons() {
    let mut k = 0;
    while k < 1000 {
        let x = (k as f32) / 1000.0;
        let expected = if x < 0.5 {
            MaterialKind::Lambertian
        } else if x < 0.9 {
            MaterialKind::Metal
        } else {
            MaterialKind::Dielectric
        };
        assert_eq!(pick_material(s(x)), expected);
        k += 1;
    }
}

#[test]
fn a_small_sphere_keeps_clear_of_the_large_one() {
    assert!(keeps_clear(s(0.900_000_1)));
    assert!(keeps_clear(s(5.0)));
    assert!(!keeps_clear(s(0.9)));
    assert!(!keeps_clear(s(0.3)));
    assert!(!keeps_clear(s(f32::NAN)));
}

#[test]
fn the_grid_has_four_hundred_cells_row_by_row() {
    let mut expected: Vec<(i32, i32)> = vec![];
    for a in -10..10 {
        for b in -10..10 {
            expected.push((a, b));
        }
    }
    assert_eq!(grid_cells(), expected);
    assert_eq!(grid_cells().len(), 400);
    assert_eq!(grid_cells()[0], (-10, -10));
    assert_eq!(grid_cells()[399], (9, 9));
}
