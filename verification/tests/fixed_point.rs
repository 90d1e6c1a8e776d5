use cargo_esr::esr_fixed::{
    isqrt, months, pow15_of_months, sqrt_of_count, sqrt_of_months, MAX_MONTHS, MAX_ROOT_COUNT,
    SECONDS_PER_MONTH,
};

#[test]
fn isqrt_rounds_down() {
    assert_eq!(isqrt(0), 0);
    assert_eq!(isqrt(1), 1);
    assert_eq!(isqrt(2), 1);
    assert_eq!(isqrt(15), 3);
    assert_eq!(isqrt(16), 4);
    assert_eq!(isqrt(17), 4);
}

#[test]
fn isqrt_of_the_largest_number() {
    assert_eq!(isqrt(u128::MAX), 18_446_744_073_709_551_615);
}

#[test]
fn square_root_of_two_in_millionths() {
    assert_eq!(sqrt_of_months(2_000_000_000), 1_414_213);
    assert_eq!(sqrt_of_count(2), 1_414_213);
}

#[test]
fn square_root_of_a_square() {
    assert_eq!(sqrt_of_count(900), 30_000_000);
    assert_eq!(sqrt_of_months(4_000_000_000), 2_000_000);
    assert_eq!(sqrt_of_count(0), 0);
    assert_eq!(sqrt_of_months(0), 0);
}

#[test]
fn square_roots_of_the_largest_arguments() {
    assert_eq!(sqrt_of_count(MAX_ROOT_COUNT), 1_099_511_627_775_999_999);
    assert_eq!(sqrt_of_months(MAX_MONTHS), 3_073_228_427_198);
}

#[test]
fn power_of_one_and_a_half() {
    assert_eq!(pow15_of_months(4_000_000_000), 8_000_000);
    assert_eq!(pow15_of_months(2_000_000_000), 2_828_427);
    // 30 to the power of 1.5 is 164.316767..., 99 to the power of 1.5 is 985.037562...
    assert_eq!(pow15_of_months(30_000_000_000), 164_316_767);
    assert_eq!(pow15_of_months(99_000_000_000), 985_037_562);
    assert_eq!(pow15_of_months(0), 0);
}

#[test]
fn power_of_the_longest_time() {
    assert_eq!(pow15_of_months(MAX_MONTHS), 29_025_821_837_606_205_493_869_676);
}

#[test]
fn one_month_is_thirty_and_a_half_days() {
    assert_eq!(SECONDS_PER_MONTH, 30 * 86_400 + 43_200);
    assert_eq!(months(2_635_200), 1_000_000_000);
    assert_eq!(months(2_635_199), 999_999_620);
    assert_eq!(months(86_400), 32_786_885);
    assert_eq!(months(0), 0);
}

#[test]
fn months_of_the_longest_span() {
    assert_eq!(months(u64::MAX), 7_000_130_568_347_583_339_025);
    assert!(months(u64::MAX) <= MAX_MONTHS);
}
