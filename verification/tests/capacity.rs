use sysmon::capacity::compute_capacity;

#[test]
fn app_test_compute_capacity_time_based_wins() {
    assert_eq!(compute_capacity(500, 60, 80), 120);
}

#[test]
fn app_test_compute_capacity_term_width_wins() {
    assert_eq!(compute_capacity(25, 3, 200), 200);
}

#[test]
fn test_compute_capacity_takes_larger() {
    assert_eq!(compute_capacity(500, 60, 80), 120);
    assert_eq!(compute_capacity(25, 3, 200), 200);
}

#[test]
fn compute_capacity_truncates_the_time_based_count() {
    assert_eq!(compute_capacity(333, 1, 0), 3);
    assert_eq!(compute_capacity(1000, 0, 0), 0);
}
