use orient::angle::Angle;
use orient::compass::Compass;

/// The angle, in degrees, of the horizontal field vector `(x, y)`.
fn heading(x: i32, y: i32) -> Angle {
    Angle::from_bits((x as f32).atan2(y as f32).to_degrees().to_bits())
}

fn bearing_north(x: i32, y: i32) -> Angle {
    Compass::new().bearing_north(heading(x, y))
}

fn value(angle: Angle) -> f32 {
    f32::from_bits(angle.to_bits())
}

#[test]
fn bearing_is_the_mirrored_heading() {
    let compass = Compass::new();
    for h in [0.0f32, 12.5, -12.5, 180.0, -179.5, 90.0] {
        let bearing = compass.bearing_north(Angle::from_bits(h.to_bits()));
        assert_eq!(bearing.to_bits(), (h * -1.0).to_bits());
    }
}

#[test]
fn bearing_lies_in_the_half_open_circle() {
    let mut x = -2000;
    while x <= 2000 {
        let mut y = -2000;
        while y <= 2000 {
            if x != 0 || y != 0 {
                let bearing = bearing_north(x, y);
                assert!(bearing.in_range(), "({}, {}) gives {}", x, y, value(bearing));
            }
            y += 125;
        }
        x += 125;
    }
    for (x, y) in [(0, -1), (1, i32::MIN), (i32::MAX, i32::MIN), (i32::MIN, i32::MIN)] {
        assert!(bearing_north(x, y).in_range());
    }
}

#[test]
fn a_heading_rounded_onto_the_seam_from_below_leaves_the_circle() {
    // The angle of this vector lies a hair above -180 degrees; in single
    // precision it is -180 degrees, and its mirror image is 180 degrees.
    let bearing = bearing_north(-1, i32::MIN);
    assert_eq!(bearing, Angle::from_degrees(180));
    assert!(!bearing.in_range());
}

#[test]
fn a_field_along_the_forward_axis_bears_zero() {
    for y in [1, 1000, i32::MAX] {
        let bearing = bearing_north(0, y);
        assert_eq!(value(bearing), 0.0);
        let zero = Angle::from_degrees(0);
        assert!(bearing.le(zero) && zero.le(bearing));
    }
}

#[test]
fn a_field_against_the_forward_axis_bears_minus_180() {
    for y in [-1, -1000, i32::MIN] {
        assert_eq!(bearing_north(0, y), Angle::from_degrees(-180));
    }
}

#[test]
fn fields_along_the_axes() {
    assert_eq!(bearing_north(1000, 0), Angle::from_degrees(-90));
    assert_eq!(bearing_north(-1000, 0), Angle::from_degrees(90));
    assert_eq!(value(bearing_north(0, 1000)), 0.0);
}
