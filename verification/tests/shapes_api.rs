//! Tests for the shape API: constructors, translations, normals and the
//! perpendicular-component helpers.

use pointmass::error::SimError;
use pointmass::shapes::{line_line_norm_component, line_norm_component, Ball, Line, Shape};
use pointmass::vec2::Vec2;

#[test]
fn default_ball_shape() {
    let b = Ball::new_default();
    assert_eq!(b.position, Vec2::new(0, 0));
    assert_eq!(b.mass, 1_000);
    assert_eq!(b.radius, 10_000);
    assert_eq!(b.elasticity, 1_000);
    assert_eq!(b.friction, 0);
}

#[test]
fn ball_translations() {
    let b = Ball::new_default().translate_to(Vec2::new(7, 8));
    assert_eq!(b.position, Vec2::new(7, 8));
    let mut b2 = b;
    b2.translate_by(Vec2::new(-10, 2));
    assert_eq!(b2.position, Vec2::new(-3, 10));
    assert_eq!(b2.velocity, b.velocity);
}

#[test]
fn line_construction_caches_direction() {
    let l = Line::new(Vec2::new(1_000, 2_000), Vec2::new(4_000, 6_000));
    assert_eq!(l.d, Vec2::new(3_000, 4_000));
    assert_eq!(Line::to_vector(&l), Vec2::new(3_000, 4_000));
    let from = Line::from_vector(Vec2::new(3_000, 4_000));
    assert_eq!(from.start_point, Vec2::new(0, 0));
    assert_eq!(from.end_point, Vec2::new(3_000, 4_000));
}

#[test]
fn line_translations_keep_span() {
    let mut l = Line::new(Vec2::new(0, 0), Vec2::new(10_000, 0));
    l.translate_by(Vec2::new(500, 500));
    assert_eq!(l.start_point, Vec2::new(500, 500));
    assert_eq!(l.end_point, Vec2::new(10_500, 500));
    l.translate_to(Vec2::new(0, 1_000));
    assert_eq!(l.start_point, Vec2::new(0, 1_000));
    assert_eq!(l.end_point, Vec2::new(10_000, 1_000));
}

#[test]
fn line_normal_is_perpendicular() {
    let l = Line::new(Vec2::new(0, 0), Vec2::new(10_000, 0));
    let n = l.normal();
    assert_eq!(n, Vec2::new(0, -20_000));
    // Perpendicular: zero dot product with the span.
    assert_eq!(n.x * l.d.x + n.y * l.d.y, 0);
    let nl = l.normal_line();
    assert_eq!(nl.start_point, Vec2::new(0, 10_000));
    assert_eq!(nl.end_point, Vec2::new(0, -10_000));
}

#[test]
fn norm_component_drops_parallel_part() {
    let l = Line::new(Vec2::new(0, 0), Vec2::new(10_000, 0));
    // A vector along the line has no normal component.
    let along = line_norm_component(&Vec2::new(4_000, 0), &l);
    assert_eq!(along, Vec2::new(0, 0));
    // A perpendicular vector passes through unchanged.
    let across = line_norm_component(&Vec2::new(0, 4_000), &l);
    assert_eq!(across, Vec2::new(0, 4_000));
    // A mixed vector keeps only its perpendicular part.
    let mixed = line_norm_component(&Vec2::new(3_000, 4_000), &l);
    assert_eq!(mixed, Vec2::new(0, 4_000));
}

#[test]
fn line_line_norm_component_of_spans() {
    let flat = Line::new(Vec2::new(0, 0), Vec2::new(10_000, 0));
    let diagonal = Line::new(Vec2::new(0, 0), Vec2::new(5_000, 7_000));
    let r = line_line_norm_component(&diagonal, &flat);
    assert_eq!(r, Vec2::new(0, 7_000));
}

#[test]
fn shapes_carry_both_kinds() {
    let s1 = Shape::Ball(Ball::new_default());
    let s2 = Shape::Line(Line::new(Vec2::new(0, 0), Vec2::new(1, 1)));
    assert!(matches!(s1, Shape::Ball(_)));
    assert!(matches!(s2, Shape::Line(_)));
}

#[test]
fn error_descriptions() {
    assert_eq!(SimError::DegenerateGeometry.describe(), "degenerate geometry");
    assert_eq!(SimError::InvalidConfiguration.describe(), "invalid configuration");
    assert_eq!(SimError::NumericalInstability.describe(), "numerical instability");
}
