use ptgui::common::is_inside;
use ptgui::error::GuiError;
use ptgui::fraction::Fraction;
use ptgui::gui_theme::{state_get_colour, StateColour};
use ptgui::types::Colour;

#[test]
fn point_in_the_middle_is_inside() {
    assert!(is_inside((10, 20), (100, 50), (60, 45)));
    assert!(is_inside((10, 20), (100, 50), (11, 21)));
    assert!(is_inside((10, 20), (100, 50), (109, 69)));
}

#[test]
fn points_on_the_edges_are_outside() {
    // left, right, top and bottom edge
    assert!(!is_inside((10, 20), (100, 50), (10, 45)));
    assert!(!is_inside((10, 20), (100, 50), (110, 45)));
    assert!(!is_inside((10, 20), (100, 50), (60, 20)));
    assert!(!is_inside((10, 20), (100, 50), (60, 70)));
}

#[test]
fn both_corners_are_outside() {
    let position = (10, 20);
    let dimensions = (100, 50);
    assert!(!is_inside(position, dimensions, position));
    assert!(!is_inside(position, dimensions, (110, 70)));
    assert!(!is_inside((0, 0), (10, 10), (0, 0)));
}

#[test]
fn points_beyond_the_rectangle_are_outside() {
    assert!(!is_inside((10, 20), (100, 50), (5, 45)));
    assert!(!is_inside((10, 20), (100, 50), (200, 45)));
    assert!(!is_inside((10, 20), (100, 50), (60, 0)));
    assert!(!is_inside((10, 20), (100, 50), (60, 100)));
}

#[test]
fn negative_size_has_no_inside() {
    assert!(!is_inside((10, 20), (-100, 50), (5, 45)));
    assert!(!is_inside((10, 20), (-100, -50), (-20, 0)));
    assert!(!is_inside((10, 20), (1, 1), (10, 20)));
}

#[test]
fn hit_test_at_the_limits_of_coordinates() {
    assert!(is_inside((i32::MAX - 10, 0), (i32::MAX, 10), (i32::MAX, 5)));
    assert!(is_inside((i32::MIN, i32::MIN), (20, 20), (i32::MIN + 1, i32::MIN + 1)));
    assert!(!is_inside((i32::MIN, i32::MIN), (20, 20), (i32::MIN, i32::MIN + 1)));
}

#[test]
fn theme_has_four_states() {
    let dark_gray = Colour { r: 80, g: 80, b: 80, a: 255 };
    assert_eq!(state_get_colour(StateColour::Hovered), dark_gray);
    assert_eq!(state_get_colour(StateColour::Active), dark_gray);
    assert_eq!(state_get_colour(StateColour::Default), Colour { r: 130, g: 130, b: 130, a: 255 });
    assert_eq!(state_get_colour(StateColour::Text), Colour { r: 245, g: 245, b: 245, a: 255 });
}

#[test]
fn errors_in_words() {
    assert_eq!(
        GuiError::Configuration.message(),
        "Cannot draw. Actions function for buttons has not been set."
    );
    assert_eq!(
        GuiError::Index.message(),
        "Cannot return the value of a Slider that is out of index range"
    );
    assert_eq!(
        GuiError::SurfaceReleased.message(),
        "Cannot draw. The drawing scope has already been released."
    );
    assert_ne!(GuiError::SurfaceReleased, GuiError::Configuration);
    assert_ne!(GuiError::SurfaceReleased, GuiError::Index);
}

#[test]
fn fraction_needs_a_positive_denominator() {
    assert_eq!(Fraction::new(3, 4), Some(Fraction { numerator: 3, denominator: 4 }));
    assert_eq!(Fraction::new(3, 0), None);
    assert_eq!(Fraction::new(3, -4), None);
    assert_eq!(Fraction::from_int(-7), Fraction { numerator: -7, denominator: 1 });
}

#[test]
fn fraction_compares_with_integers() {
    let half = Fraction { numerator: 1, denominator: 2 };
    assert!(half.is_below(1));
    assert!(!half.is_below(0));
    assert!(half.is_above(0));
    assert!(!half.is_above(1));
    let three = Fraction::from_int(3);
    assert!(!three.is_below(3));
    assert!(!three.is_above(3));
    let huge = Fraction { numerator: i64::MAX, denominator: i64::MAX };
    assert!(!huge.is_below(1));
    assert!(!huge.is_above(1));
    assert!(huge.is_below(i32::MAX));
    assert!(huge.is_above(i32::MIN));
}

#[test]
fn fraction_truncates_toward_zero() {
    assert_eq!(Fraction { numerator: 7, denominator: 2 }.truncate(), 3);
    assert_eq!(Fraction { numerator: -7, denominator: 2 }.truncate(), -3);
    assert_eq!(Fraction { numerator: 7, denominator: -2 }.truncate(), -3);
    assert_eq!(Fraction { numerator: 250, denominator: 70 }.truncate(), 3);
    assert_eq!(Fraction { numerator: 0, denominator: 5 }.truncate(), 0);
    assert_eq!(Fraction { numerator: 5, denominator: 0 }.truncate(), 0);
    assert_eq!(Fraction { numerator: i64::MAX, denominator: 1 }.truncate(), i32::MAX);
    assert_eq!(Fraction { numerator: i64::MIN, denominator: 1 }.truncate(), i32::MIN);
}
