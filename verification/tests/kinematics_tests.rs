use invaders::kinematics::{scaled_delta, split_whole_cells};

#[test]
fn scaled_delta_exact_values() {
    // 60 cells/s over 16 ms is 0.96 cells: 960 milli-cells.
    assert_eq!(scaled_delta(60_000, 16), 960);
    // 20 cells/s over 16 ms is 0.32 cells.
    assert_eq!(scaled_delta(20_000, 16), 320);
    // negative speeds accumulate downward, truncated toward zero
    assert_eq!(scaled_delta(-20_000, 16), -320);
    assert_eq!(scaled_delta(-1, 999), 0);
    assert_eq!(scaled_delta(1, 999), 0);
}

#[test]
fn split_whole_cells_exact_values() {
    assert_eq!(split_whole_cells(0), (0, 0));
    assert_eq!(split_whole_cells(999), (0, 999));
    assert_eq!(split_whole_cells(1000), (1, 0));
    assert_eq!(split_whole_cells(1500), (1, 500));
    assert_eq!(split_whole_cells(-999), (0, -999));
    assert_eq!(split_whole_cells(-1500), (-1, -500));
    assert_eq!(split_whole_cells(2999), (2, 999));
}

#[test]
fn accumulator_bounded_and_drift_free() {
    // Average-speed convergence: over N fixed steps the whole-cell
    // displacement stays within one cell of speed * N * dt, and the carried
    // remainder stays sub-cell after every step.
    for &(speed, dt) in &[(60_000i64, 16u64), (20_000, 16), (-20_000, 20), (7_777, 17)] {
        let n: i64 = 1000;
        let delta = scaled_delta(speed, dt);
        let mut acc: i64 = 0;
        let mut steps_total: i64 = 0;
        for _ in 0..n {
            let (steps, rest) = split_whole_cells(acc + delta);
            steps_total += steps;
            acc = rest;
            assert!(acc.abs() < 1000, "accumulator left the sub-cell range");
        }
        let nominal = n * delta;
        assert!(
            (steps_total * 1000 - nominal).abs() < 1000,
            "drift beyond one cell for speed {speed}"
        );
    }
}
