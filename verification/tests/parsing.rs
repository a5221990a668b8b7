//! Threshold and number parsing.

use liboskar::cli_helpers::threshold;
use liboskar::get_depth;
use liboskar::get_num;
use liboskar::get_threads;
use liboskar::Internal;
use liboskar::worker_count;

#[test]
fn test_parser() {
    let cli_input = "30M";
    assert_eq!(Some(30 * 1024 * 1024), threshold(Some(cli_input)));
}

#[test]
fn threshold_units() {
    assert_eq!(Some(31457280), threshold(Some("30m")));
    assert_eq!(Some(2048), threshold(Some("2k")));
    assert_eq!(Some(2048), threshold(Some("2K")));
    assert_eq!(Some(7), threshold(Some("7b")));
    assert_eq!(Some(7), threshold(Some("7B")));
    assert_eq!(Some(3 * 1073741824), threshold(Some("3G")));
    assert_eq!(Some(3 * 1073741824), threshold(Some("3g")));
    assert_eq!(Some(32505856), threshold(Some("31M")));
}

#[test]
fn threshold_absent() {
    assert_eq!(None, threshold(None));
}

#[test]
fn threshold_trailing_noise_is_ignored() {
    assert_eq!(Some(5 * 1024), threshold(Some("5kextra")));
}

#[test]
fn threshold_malformed_defaults_to_one_mib() {
    assert_eq!(Some(1048576), threshold(Some("")));
    assert_eq!(Some(1048576), threshold(Some("M")));
    assert_eq!(Some(1048576), threshold(Some("12")));
    assert_eq!(Some(1048576), threshold(Some("12x")));
    assert_eq!(Some(1048576), threshold(Some("x12M")));
}

#[test]
fn threshold_overflow_defaults_to_one_mib() {
    assert_eq!(Some(1048576), threshold(Some("99999999999999999999b")));
    assert_eq!(Some(1048576), threshold(Some("99999999999999999999G")));
}

#[test]
fn depth_parsing() {
    assert_eq!(Ok(2), get_depth(None));
    assert_eq!(Ok(7), get_depth(Some("7")));
    assert_eq!(Ok(7), get_depth(Some("+7")));
    assert_eq!(Ok(255), get_depth(Some("255")));
    assert_eq!(Err(Internal::ParseNum), get_depth(Some("256")));
    assert_eq!(Err(Internal::ParseNum), get_depth(Some("")));
    assert_eq!(Err(Internal::ParseNum), get_depth(Some("+")));
    assert_eq!(Err(Internal::ParseNum), get_depth(Some("-1")));
    assert_eq!(Err(Internal::ParseNum), get_depth(Some("two")));
}

#[test]
fn num_parsing() {
    assert_eq!(Ok(8), get_num(None));
    assert_eq!(Ok(12), get_num(Some("12")));
    assert_eq!(Err(Internal::ParseNum), get_num(Some("12.5")));
}

#[test]
fn threads_parsing() {
    assert_eq!(Ok(4), get_threads(Some("4")));
    assert_eq!(Err(Internal::ParseNum), get_threads(Some("none")));
    let auto = get_threads(None).unwrap();
    assert!(auto >= 1);
}

#[test]
fn worker_count_keeps_one_core_back() {
    assert_eq!(1, worker_count(1));
    assert_eq!(1, worker_count(2));
    assert_eq!(3, worker_count(4));
    assert_eq!(0, worker_count(0));
}
