use svd_img::encode::{CompressionPolicy, Options};
use svd_img::Error;

#[test]
fn ratio_formula_exact() {
    // round(25/100 * 80000 / (8 * 201)) == round(12.44) == 12
    let mut o = Options::default();
    o.policy = CompressionPolicy::with_ratio_percentage(25);
    o.use_f64 = true;
    o.original_file_size = 80000;
    assert_eq!(o.n_with(100, 100), Ok(12));
}

#[test]
fn ratio_formula_single_precision() {
    // round(25/100 * 80000 / (4 * 201)) == round(24.87) == 25
    let mut o = Options::default();
    o.policy = CompressionPolicy::with_ratio_percentage(25);
    o.use_f64 = false;
    o.original_file_size = 80000;
    assert_eq!(o.n_with(100, 100), Ok(25));
}

#[test]
fn ratio_rounds_half_up() {
    // 50/100 * 804 / (4 * (1 + 0 + 1)) == 50.25 -> 50
    let mut o = Options::default();
    o.policy = CompressionPolicy::with_ratio_percentage(50);
    o.use_f64 = false;
    o.original_file_size = 804;
    assert_eq!(o.n_with(0, 1), Ok(50));
}

#[test]
fn fixed_count_zero_always_fails() {
    let mut o = Options::default();
    o.policy = CompressionPolicy::with_number(0);
    assert_eq!(o.n_with(100, 100), Err(Error::NTooSmall));
    assert_eq!(o.n_with(0, 0), Err(Error::NTooSmall));
    assert_eq!(o.n_with(1, 1), Err(Error::NTooSmall));
}

#[test]
fn fixed_count_passes_through() {
    let mut o = Options::default();
    o.policy = CompressionPolicy::with_number(5);
    assert_eq!(o.n_with(100, 100), Ok(5));
}

#[test]
fn ratio_too_restrictive_fails() {
    // round(25/100 * 3000 / 1608) == round(0.466) == 0
    let mut o = Options::default();
    o.policy = CompressionPolicy::with_ratio_percentage(25);
    o.use_f64 = true;
    o.original_file_size = 3000;
    assert_eq!(o.n_with(100, 100), Err(Error::RatioTooRestrictive));
}

#[test]
fn default_options_values() {
    let o = Options::default();
    assert_eq!(o.policy, CompressionPolicy::Ratio(25));
    assert!(o.use_f64);
    assert_eq!(o.n_iter, 0);
    assert_eq!(o.original_file_size, 0);
    assert!(o.use_aggregate);
    assert!(!o.with_alpha);
    assert!(!o.is_wav);
    assert!(!o.is_reduce);
    assert_eq!(o.bits_per_sample, None);
}
