//! Geometry tests: bearings, continuity unwrapping, distances, zones and
//! the weighted-walk selection.

use itggen::angle::{PI_2_U, PI_4_U, PI_U, TWO_PI_U, UNITS_PER_RAD};
use itggen::coord::Coord;
use itggen::fixed::{ONE_Q32};
use itggen::generator::{Generator, Zone};
use itggen::Style;

fn c(x: i64, y: i64) -> Coord {
    Coord { x, y }
}

#[test]
fn test_angle() {
    // coordinates in tenths of a panel; angles in PI_U units
    assert_eq!(c(0, 0).angle(&c(10, 0), 0), 0);
    assert_eq!(c(10, 0).angle(&c(20, 0), 0), 0);
    assert_eq!(c(10, 0).angle(&c(10, 10), 0), PI_2_U);
    // a previous angle just past pi pulls the zero bearing up a full turn
    assert_eq!(c(0, 0).angle(&c(10, 0), PI_U + 100_000), TWO_PI_U);
    assert_eq!(c(0, 0).angle(&c(-10, 0), 100_000), PI_U);
    assert_eq!(c(0, 0).angle(&c(-10, 0), -100_000), -PI_U);
    assert_eq!(c(0, 0).angle(&c(-10, 0), TWO_PI_U - 100_000), PI_U);
    assert_eq!(c(0, 0).angle(&c(-10, 0), TWO_PI_U + 100_000), 3 * PI_U);
    assert_eq!(c(-10, 0).angle(&c(-10, -10), PI_2_U + 100_000), 3 * PI_2_U);
    assert_eq!(c(-10, 0).angle(&c(-10, -10), PI_2_U - 100_000), -PI_2_U);

    // small changes of the previous angle that stay inside one branch of
    // the continuity window do not change the result
    let a = c(0, 10);
    let b = c(10, 20);
    let p1 = (2 * UNITS_PER_RAD) / 10; // 0.2 rad
    let p2 = p1 + 24_000; // ~0.221 rad
    assert_eq!(a.angle(&b, p2), a.angle(&b, p1));
    assert_eq!(a.angle(&b, p1), PI_4_U);
}

#[test]
fn angle_principal_directions_exact() {
    let o = c(0, 0);
    assert_eq!(o.angle(&c(10, 10), 0), PI_4_U);
    assert_eq!(o.angle(&c(0, 10), 0), PI_2_U);
    assert_eq!(o.angle(&c(-10, 10), 0), 3 * PI_4_U);
    assert_eq!(o.angle(&c(-10, -10), 0), -3 * PI_4_U);
    assert_eq!(o.angle(&c(0, -10), 0), -PI_2_U);
    assert_eq!(o.angle(&c(10, -10), 0), -PI_4_U);
}

#[test]
fn angle_window_and_congruence() {
    // the result is congruent to the raw bearing modulo a full turn and
    // lies in (prev - pi, prev + pi]
    let a = c(0, 0);
    let b = c(10, 7);
    let raw = a.angle(&b, 0);
    for prev in [-3 * PI_U, -PI_U, -100_000, 0, 100_000, PI_U, 5 * PI_U / 2] {
        let r = a.angle(&b, prev);
        assert_eq!((r - raw).rem_euclid(TWO_PI_U), 0);
        assert!(prev - PI_U < r && r <= prev + PI_U);
    }
}

#[test]
fn dist_symmetry() {
    // dist(a, b) == dist(b, a) and dist(a, a) == 0, in hundredths
    let pts = [c(0, 0), c(10, 0), c(20, 18), c(-5, 7), c(110, 48)];
    for &p in pts.iter() {
        for &q in pts.iter() {
            assert_eq!(p.dist(&q), q.dist(&p));
        }
        assert_eq!(p.dist(&p), 0);
    }
    assert_eq!(c(0, 0).dist(&c(20, 0)), 200);
    assert_eq!(c(0, 0).dist(&c(30, 40)), 500);
}

#[test]
fn test_zone() {
    let mut z = Zone { start_x: 10, end_x: 70, total_move_steps: 6, steps_until_end: 6 };
    assert!(!z.is_done());
    assert_eq!(z.current_x(), 10);
    z.step();
    assert_eq!(z.current_x(), 20);
    z.step();
    assert_eq!(z.current_x(), 30);
    z.step();
    assert_eq!(z.current_x(), 40);
    z.step();
    assert_eq!(z.current_x(), 50);
    z.step();
    assert!(!z.is_done());
    assert_eq!(z.current_x(), 60);
    z.step();
    assert!(z.is_done());
    assert_eq!(z.current_x(), 70);
}

#[test]
fn test_rand_zone() {
    let mut rand: rand::rngs::StdRng = rand::SeedableRng::from_entropy();
    let style = Style::ItgDoubles;
    assert!(Generator::rand_zone(&mut rand, style, 40, None, None).end_x <= style.center_x());
    assert!(Generator::rand_zone(&mut rand, style, 20, None, None).end_x >= style.center_x());
}

#[test]
fn test_choose_from_probs_with_prob() {
    let w = ONE_Q32 / 10;
    assert_eq!(
        Generator::choose_from_probs_with_prob(&vec![(5, w)], w / 2),
        5
    );
    assert_eq!(
        Generator::choose_from_probs_with_prob(&vec![(5, w), (6, w)], w / 2),
        5
    );
    assert_eq!(
        Generator::choose_from_probs_with_prob(&vec![(5, w), (6, w)], w + w / 2),
        6
    );
}
