use sim_lib::signal::{scale_mul, squash, SCALE};

#[test]
fn squash_known_values() {
    assert_eq!(0, squash(0));
    assert_eq!(7777, squash(10000));
    assert_eq!(-7777, squash(-10000));
    assert_eq!(10000, squash(30000));
    assert_eq!(-10000, squash(-123456789));
    assert_eq!(1976, squash(2000));
}

#[test]
fn scale_mul_is_fixed_point_product() {
    assert_eq!(10000, SCALE);
    assert_eq!(5000, scale_mul(5000, 10000));
    assert_eq!(-5000, scale_mul(5000, -10000));
    assert_eq!(2500, scale_mul(5000, 5000));
    assert_eq!(0, scale_mul(0, 32767));
    // magnitudes round towards zero on either sign
    assert_eq!(0, scale_mul(1, 9999));
    assert_eq!(0, scale_mul(-1, 9999));
}
