use exa::format::{format_IEC_bytes, format_metric_bytes};

#[test]
fn test_0() {
    let kk = format_metric_bytes(0);
    assert!(kk == ("0".to_string(), "".to_string()));
}

#[test]
fn test_999() {
    let kk = format_metric_bytes(999);
    assert!(kk == ("999".to_string(), "".to_string()));
}

#[test]
fn test_1000() {
    let kk = format_metric_bytes(1000);
    assert!(kk == ("1.0".to_string(), "K".to_string()));
}

#[test]
fn test_1030() {
    let kk = format_metric_bytes(1030);
    assert!(kk == ("1.0".to_string(), "K".to_string()));
}

#[test]
fn test_1100() {
    let kk = format_metric_bytes(1100);
    assert!(kk == ("1.1".to_string(), "K".to_string()));
}

#[test]
fn test_1111() {
    let kk = format_metric_bytes(1111);
    assert!(kk == ("1.1".to_string(), "K".to_string()));
}

#[test]
fn test_104857() {
    let kk = format_IEC_bytes(126456);
    assert!(kk == ("123".to_string(), "Ki".to_string()));
}

#[test]
fn test_1048576() {
    let kk = format_IEC_bytes(1048576);
    assert!(kk == ("1.0".to_string(), "Mi".to_string()));
}

/// The same computation done with hardware floats.
fn with_floats(amount: u64, kilo: f64, prefixes: &[&str]) -> (String, String) {
    let mut value = amount as f64;
    let mut prefix = 0;
    while value >= kilo {
        value /= kilo;
        prefix += 1;
    }
    if value < 10.0 && prefix != 0 {
        (format!("{:.1}", value), prefixes[prefix].to_string())
    } else {
        (format!("{:.0}", value), prefixes[prefix].to_string())
    }
}

const METRIC: [&str; 9] = ["", "K", "M", "G", "T", "P", "E", "Z", "Y"];
const BINARY: [&str; 9] = ["", "Ki", "Mi", "Gi", "Ti", "Pi", "Ei", "Zi", "Yi"];

fn check(amount: u64) {
    assert_eq!(format_metric_bytes(amount), with_floats(amount, 1000.0, &METRIC), "metric {}", amount);
    assert_eq!(format_IEC_bytes(amount), with_floats(amount, 1024.0, &BINARY), "binary {}", amount);
}

#[test]
fn agrees_with_floats_on_small_sizes() {
    for amount in 0..30000u64 {
        check(amount);
    }
}

#[test]
fn agrees_with_floats_at_rounding_ties() {
    for amount in [1050u64, 1150, 1250, 1280, 1792, 2560, 9950, 9999, 10240, 10239, 1049600, 999_500, 999_950_000] {
        check(amount);
    }
}

#[test]
fn agrees_with_floats_on_large_sizes() {
    let mut x: u64 = 0x9E37_79B9_7F4A_7C15;
    for _ in 0..200000 {
        x = x.wrapping_mul(6364136223846793005).wrapping_add(1442695040888963407);
        check(x);
        check(x >> (x % 64));
    }
    for amount in [u64::MAX, u64::MAX - 1, 1 << 53, (1 << 53) + 1, 999_999_999_999_999_999, 1_000_000_000_000_000_000] {
        check(amount);
    }
}

#[test]
fn exact_binary_tie_rounds_to_even() {
    // 1280 / 1024 is exactly 1.25, which goes to 1.2
    assert_eq!(format_IEC_bytes(1280), ("1.2".to_string(), "Ki".to_string()));
    // 1050 / 1000 is a little above 1.05 as a float, so it goes up
    assert_eq!(format_metric_bytes(1050), ("1.1".to_string(), "K".to_string()));
}

#[test]
fn largest_size() {
    assert_eq!(format_metric_bytes(u64::MAX), ("18".to_string(), "E".to_string()));
    assert_eq!(format_IEC_bytes(u64::MAX), ("16".to_string(), "Ei".to_string()));
}
