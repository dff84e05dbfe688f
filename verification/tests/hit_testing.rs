//! Hit-testing and coordinate arithmetic at the fraction level.

use ui_overlay::frac::add_half;
use ui_overlay::frac::hit_test;
use ui_overlay::frac::normalize;
use ui_overlay::frac::sub_half;
use ui_overlay::Frac;
use ui_overlay::Vec2;

fn fr(num: i64, den: i64) -> Frac {
    Frac::new(num, den)
}

fn v2(xn: i64, xd: i64, yn: i64, yd: i64) -> Vec2 {
    Vec2 { x: fr(xn, xd), y: fr(yn, yd) }
}

#[test]
fn lt_compares_exactly() {
    assert!(fr(1, 3).lt(&fr(1, 2)));
    assert!(!fr(1, 2).lt(&fr(1, 3)));
    assert!(!fr(1, 2).lt(&fr(2, 4)));
    assert!(fr(-1, 2).lt(&fr(0, 1)));
}

#[test]
fn eq_value_sees_through_representations() {
    assert!(fr(1, 2).eq_value(&fr(2, 4)));
    assert!(fr(0, 5).eq_value(&fr(0, 1)));
    assert!(!fr(1, 2).eq_value(&fr(1, 3)));
}

#[test]
fn box_edges_are_exact() {
    let lo = sub_half(&fr(1, 2), &fr(1, 5));
    assert_eq!(lo, Frac { num: 8, den: 20 });
    let hi = add_half(&fr(1, 2), &fr(1, 5));
    assert_eq!(hi, Frac { num: 12, den: 20 });
}

#[test]
fn normalization_is_exact_division() {
    let n = normalize(&fr(400, 1), 800);
    assert_eq!(n, Frac { num: 400, den: 800 });
    assert!(n.eq_value(&fr(1, 2)));
    let n = normalize(&fr(300, 1), 600);
    assert_eq!(n, Frac { num: 300, den: 600 });
    let n = normalize(&fr(7, 2), 100);
    assert_eq!(n, Frac { num: 7, den: 200 });
}

#[test]
fn boundary_is_never_a_hit() {
    let anchor = v2(1, 2, 1, 2);
    let dims = v2(1, 5, 1, 5);
    // x exactly on the upper edge 12/20 == 3/5, y inside
    assert!(!hit_test(&anchor, &dims, &fr(3, 5), &fr(1, 2)));
    // x exactly on the lower edge 8/20 == 2/5
    assert!(!hit_test(&anchor, &dims, &fr(2, 5), &fr(1, 2)));
    // y exactly on the upper edge
    assert!(!hit_test(&anchor, &dims, &fr(1, 2), &fr(3, 5)));
    // y exactly on the lower edge
    assert!(!hit_test(&anchor, &dims, &fr(1, 2), &fr(2, 5)));
}

#[test]
fn strict_interior_is_a_hit() {
    let anchor = v2(1, 2, 1, 2);
    let dims = v2(1, 5, 1, 5);
    assert!(hit_test(&anchor, &dims, &fr(1, 2), &fr(1, 2)));
    // just inside each edge
    assert!(hit_test(&anchor, &dims, &fr(41, 100), &fr(59, 100)));
    assert!(hit_test(&anchor, &dims, &fr(59, 100), &fr(41, 100)));
}

#[test]
fn outside_the_box_is_a_miss() {
    let anchor = v2(1, 2, 1, 2);
    let dims = v2(1, 5, 1, 5);
    assert!(!hit_test(&anchor, &dims, &fr(0, 1), &fr(0, 1)));
    assert!(!hit_test(&anchor, &dims, &fr(1, 1), &fr(1, 2)));
    assert!(!hit_test(&anchor, &dims, &fr(1, 2), &fr(7, 10)));
}
