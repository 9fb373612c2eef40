use mandelbrot::escape::{escape_time, CalcResult};

/// One step of `z <- z * z + c` over Gaussian integers, escaping once
/// `|z|²` exceeds `threshold²`.
fn gaussian_step(c: (i64, i64), threshold: i64) -> impl Fn((i64, i64)) -> ((i64, i64), bool) {
    move |(re, im): (i64, i64)| {
        let z = (re * re - im * im + c.0, 2 * re * im + c.1);
        let escaped = z.0 * z.0 + z.1 * z.1 > threshold * threshold;
        (z, escaped)
    }
}

#[test]
fn origin_is_bounded() {
    assert_eq!(escape_time((0, 0), 50, gaussian_step((0, 0), 2)), CalcResult::Bounded);
}

#[test]
fn far_point_escapes_at_once() {
    assert_eq!(
        escape_time((0, 0), 50, gaussian_step((2, 2), 2)),
        CalcResult::BailedOut(0)
    );
}

#[test]
fn escape_index_counts_from_zero() {
    // 0 -> 1 -> 2 -> 5: |5|² = 25 is the first to pass 4.
    assert_eq!(
        escape_time((0, 0), 50, gaussian_step((1, 0), 2)),
        CalcResult::BailedOut(2)
    );
    // The same point within a budget that ends before the escape.
    assert_eq!(escape_time((0, 0), 2, gaussian_step((1, 0), 2)), CalcResult::Bounded);
    assert_eq!(
        escape_time((0, 0), 3, gaussian_step((1, 0), 2)),
        CalcResult::BailedOut(2)
    );
}

#[test]
fn threshold_is_strict() {
    // -2 -> 2 -> 2 -> ...: |z|² = 4 never exceeds 2².
    assert_eq!(escape_time((0, 0), 50, gaussian_step((-2, 0), 2)), CalcResult::Bounded);
}

#[test]
fn zero_budget_is_bounded() {
    assert_eq!(escape_time((0, 0), 0, gaussian_step((2, 2), 2)), CalcResult::Bounded);
    assert_eq!(escape_time(0u8, 0, |z: u8| (z, true)), CalcResult::Bounded);
}

#[test]
fn stops_at_first_escape() {
    let calls = std::cell::Cell::new(0u32);
    let r = escape_time(0u32, 100, |z: u32| {
        calls.set(calls.get() + 1);
        (z + 1, z + 1 == 7)
    });
    assert_eq!(r, CalcResult::BailedOut(6));
    assert_eq!(calls.get(), 7);
}

#[test]
fn full_budget_runs_every_step() {
    let calls = std::cell::Cell::new(0u32);
    let r = escape_time(0u32, u16::MAX, |z: u32| {
        calls.set(calls.get() + 1);
        (z + 1, false)
    });
    assert_eq!(r, CalcResult::Bounded);
    assert_eq!(calls.get(), u16::MAX as u32);
}
