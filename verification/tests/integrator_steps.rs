use raytrace::integrator::{Integrator, Step, Surface, EPSILON_BITS, MAX_DEPTH};
use raytrace::scalar::Scalar;

fn follow(g: &Integrator, met: &[Surface]) -> (Option<Step>, u32) {
    let mut depth: u32 = 0;
    let mut bounces: u32 = 0;
    for &surface in met {
        match g.step(depth, surface) {
            Step::Bounce { depth: deeper } => {
                depth = deeper;
                bounces += 1;
            }
            end => return (Some(end), bounces),
        }
    }
    (None, bounces)
}

#[test]
fn a_miss_ends_in_the_sky_at_any_depth() {
    let g = Integrator::default();
    for depth in [0u32, 1, 49, 50, 51, u32::MAX] {
        assert_eq!(g.step(depth, Surface::Miss), Step::Sky);
    }
}

#[test]
fn an_absorption_ends_in_black_at_any_depth() {
    let g = Integrator::default();
    for depth in [0u32, 1, 49, 50, 51, u32::MAX] {
        assert_eq!(g.step(depth, Surface::Absorbed), Step::Black);
    }
}

#[test]
fn a_scattered_ray_is_followed_one_level_deeper() {
    let g = Integrator::default();
    assert_eq!(g.step(0, Surface::Scattered), Step::Bounce { depth: 1 });
    assert_eq!(g.step(17, Surface::Scattered), Step::Bounce { depth: 18 });
    assert_eq!(g.step(49, Surface::Scattered), Step::Bounce { depth: 50 });
}

#[test]
fn at_the_cap_a_scattered_ray_ends_in_black() {
    let g = Integrator::default();
    assert_eq!(g.step(50, Surface::Scattered), Step::Black);
    assert_eq!(g.step(51, Surface::Scattered), Step::Black);
    assert_eq!(g.step(u32::MAX, Surface::Scattered), Step::Black);
}

#[test]
fn the_usual_cap_is_fifty() {
    assert_eq!(MAX_DEPTH, 50);
    assert_eq!(Integrator::default().max_depth, 50);
    assert_eq!(Integrator::default(), Integrator::new(50));
}

#[test]
fn a_path_between_mirrors_ends_in_black_after_fifty_bounces() {
    let g = Integrator::default();
    let mirrors = vec![Surface::Scattered; 1000];
    assert_eq!(follow(&g, &mirrors), (Some(Step::Black), 50));
    let just_enough = vec![Surface::Scattered; 51];
    assert_eq!(follow(&g, &just_enough), (Some(Step::Black), 50));
    let one_short = vec![Surface::Scattered; 50];
    assert_eq!(follow(&g, &one_short), (None, 50));
}

#[test]
fn the_cap_can_be_set() {
    let none = Integrator::new(0);
    assert_eq!(none.step(0, Surface::Scattered), Step::Black);
    let three = Integrator::new(3);
    assert_eq!(follow(&three, &vec![Surface::Scattered; 10]), (Some(Step::Black), 3));
    let most = Integrator::new(u32::MAX);
    assert_eq!(most.step(u32::MAX - 1, Surface::Scattered), Step::Bounce { depth: u32::MAX });
    assert_eq!(most.step(u32::MAX, Surface::Scattered), Step::Black);
}

#[test]
fn a_path_ends_where_it_first_misses_or_is_absorbed() {
    let g = Integrator::default();
    let met = [Surface::Scattered, Surface::Scattered, Surface::Miss, Surface::Scattered];
    assert_eq!(follow(&g, &met), (Some(Step::Sky), 2));
    let met = [Surface::Scattered, Surface::Absorbed, Surface::Miss];
    assert_eq!(follow(&g, &met), (Some(Step::Black), 1));
    assert_eq!(follow(&g, &[]), (None, 0));
}

#[test]
fn no_path_bounces_more_often_than_the_cap() {
    let kinds = [Surface::Miss, Surface::Absorbed, Surface::Scattered];
    for cap in 0u32..6 {
        let g = Integrator::new(cap);
        let mut code: u32 = 0;
        while code < 3 * 3 * 3 * 3 * 3 * 3 * 3 {
            let mut met = Vec::new();
            let mut rest = code;
            for _ in 0..7 {
                met.push(kinds[(rest % 3) as usize]);
                rest /= 3;
            }
            let (_, bounces) = follow(&g, &met);
            assert!(bounces <= cap);
            code += 1;
        }
    }
}

#[test]
fn crossings_are_looked_for_from_a_thousandth_to_infinity() {
    assert_eq!(EPSILON_BITS, 0.001f32.to_bits());
    assert_eq!(Integrator::t_min(), Scalar::from_bits(0.001f32.to_bits()));
    assert_eq!(Integrator::t_max(), Scalar::from_bits(f32::INFINITY.to_bits()));
    assert!(Scalar::from_bits(f32::MAX.to_bits()).lt(Integrator::t_max()));
    assert!(!Integrator::t_max().lt(Integrator::t_max()));
}
