use svgx::plugins::cleanup_list_of_values::{cleanup_list, CleanupListOfValues};

#[test]
fn test_cleanup_viewbox() {
    let opts = CleanupListOfValues::default();
    let val = "0 0 100.500 100.1234";
    let out = cleanup_list(val, &opts);
    assert_eq!(out, "0 0 100.5 100.123");
}

#[test]
fn test_cleanup_points() {
    let opts = CleanupListOfValues::default();
    let val = "0,0 100,0 100,100";
    let out = cleanup_list(val, &opts);
    assert_eq!(out, "0 0 100 0 100 100");
}

#[test]
fn test_leading_zero_stripped() {
    let opts = CleanupListOfValues::default();
    assert_eq!(cleanup_list("0.5", &opts), ".5");
    assert_eq!(cleanup_list("-0.5", &opts), "-.5");
    assert_eq!(cleanup_list("0", &opts), "0");
}

#[test]
fn test_leading_zero_kept_when_disabled() {
    let mut opts = CleanupListOfValues::default();
    opts.leading_zero = false;
    assert_eq!(cleanup_list("0.5", &opts), "0.5");
}

#[test]
fn test_px_suffix_dropped() {
    let opts = CleanupListOfValues::default();
    assert_eq!(cleanup_list("10px 20px", &opts), "10 20");
}

#[test]
fn test_non_numeric_tokens_kept() {
    let opts = CleanupListOfValues::default();
    assert_eq!(cleanup_list("10 auto 20", &opts), "10 auto 20");
}

#[test]
fn test_exponent_numerals() {
    let opts = CleanupListOfValues::default();
    assert_eq!(cleanup_list("1e2 1.5e-1", &opts), "100 .15");
}

#[test]
fn test_rounding_half_away() {
    let opts = CleanupListOfValues::default();
    assert_eq!(cleanup_list("0.0005", &opts), ".001");
    assert_eq!(cleanup_list("1.2345", &opts), "1.235");
    assert_eq!(cleanup_list("1.2335", &opts), "1.234");
}
