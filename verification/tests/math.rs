use tock_drivers::math::{closest_power_of_two, log_base_two};

#[test]
fn powers_of_two() {
    assert_eq!(closest_power_of_two(1), 1);
    assert_eq!(closest_power_of_two(2), 2);
    assert_eq!(closest_power_of_two(3), 4);
    assert_eq!(closest_power_of_two(1000), 1024);
    assert_eq!(closest_power_of_two(0x8000_0000), 0x8000_0000);
}

#[test]
fn logarithms() {
    assert_eq!(log_base_two(0), 0);
    assert_eq!(log_base_two(1), 0);
    assert_eq!(log_base_two(2), 1);
    assert_eq!(log_base_two(3), 1);
    assert_eq!(log_base_two(1024), 10);
    assert_eq!(log_base_two(u32::MAX), 31);
}
