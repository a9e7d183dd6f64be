//! Tests of the coordinator's termination protocol and of the progress
//! estimator's window and projection.

use optivanity::coordinator::Coordinator;
use optivanity::estimator::{estimate_minutes, instantaneous_rate, RateWindow};

#[test]
fn coordinator_terminates_at_exactly_the_target() {
    let mut c = Coordinator::new(3);
    assert!(!c.is_done());
    assert!(!c.record_match());
    assert!(!c.is_done());
    assert!(!c.record_match());
    assert!(c.record_match());
    assert!(c.is_done());
}

#[test]
fn coordinator_with_target_one_terminates_immediately() {
    let mut c = Coordinator::new(1);
    assert!(!c.is_done());
    assert!(c.record_match());
    assert!(c.is_done());
}

#[test]
fn rate_window_fills_then_averages() {
    let mut w = RateWindow::new();
    for sample in [10u64, 20, 30, 40, 51] {
        assert!(!w.is_full());
        w.push_sample(sample);
    }
    assert!(w.is_full());
    assert_eq!(w.average(), 30);
}

#[test]
fn rate_window_average_of_equal_samples() {
    let mut w = RateWindow::new();
    for _ in 0..5 {
        w.push_sample(7);
    }
    assert_eq!(w.average(), 7);
}

#[test]
fn instantaneous_rate_projects_to_one_second() {
    assert_eq!(instantaneous_rate(100, 150), 500);
    assert_eq!(instantaneous_rate(0, 0), 0);
}

#[test]
fn estimate_follows_the_search_space_formula() {
    // 16^3 * 10 / (1 * 60) = 40960 / 60 = 682
    assert_eq!(estimate_minutes(3, 10, 1), Some(String::from("682")));
    // 16^1 * 60 / (4 * 60) = 4
    assert_eq!(estimate_minutes(1, 60, 4), Some(String::from("4")));
    // 16^2 * 1 / (16 * 60) rounds down to 0
    assert_eq!(estimate_minutes(2, 1, 16), Some(String::from("0")));
}

#[test]
fn estimate_handles_spaces_beyond_64_bits() {
    // 16^20 = 2^80 overflows u64; 16^20 * 1 / (16^10 * 60) = 16^10 / 60
    let r = estimate_minutes(20, 1, u64::MAX);
    assert!(r.is_some());
    // 16^20 / (MAX * 60) ~= 2^80 / (2^64 * 60) = 2^16 / 60 = 1092
    assert_eq!(r, Some(String::from("1092")));
}

#[test]
fn zero_rate_projects_nothing() {
    assert_eq!(estimate_minutes(4, 1, 0), None);
}
