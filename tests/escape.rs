use mandelbrot::escape::{EscapeCounter, EscapeStep, MAX_ITERATIONS};

const ESCAPE_THRESHOLD_SQ: f64 = 10.0;

fn evaluate(re: f64, im: f64, max_iterations: u16) -> Option<u16> {
    let mut counter = EscapeCounter::new(max_iterations);
    let (mut zr, mut zi) = (0.0f64, 0.0f64);
    loop {
        match counter.observe(zr * zr + zi * zi > ESCAPE_THRESHOLD_SQ) {
            EscapeStep::Finished(result) => return result,
            EscapeStep::Iterate => {
                let next_r = zr * zr - zi * zi + re;
                let next_i = zr * zi + zi * zr + im;
                zr = next_r;
                zi = next_i;
            }
        }
    }
}

#[test]
fn origin_never_escapes() {
    assert_eq!(evaluate(0.0, 0.0, MAX_ITERATIONS), None);
}

#[test]
fn far_point_escapes_at_second_term() {
    // z(1) = 2 + 2i has squared magnitude 8; z(2) = 2 + 10i escapes.
    assert_eq!(evaluate(2.0, 2.0, MAX_ITERATIONS), Some(2));
}

#[test]
fn threshold_is_strict() {
    // z(2) = 1 + 3i has squared magnitude exactly 10 and does not escape.
    assert_eq!(evaluate(1.0, 1.0, MAX_ITERATIONS), Some(3));
}

#[test]
fn point_outside_threshold_escapes_at_first_update() {
    assert_eq!(evaluate(4.0, 0.0, MAX_ITERATIONS), Some(1));
}

#[test]
fn escape_at_zero_term() {
    let mut counter = EscapeCounter::new(5);
    assert_eq!(counter.observe(true), EscapeStep::Finished(Some(0)));
}

#[test]
fn bounded_when_term_at_bound_stays_bounded() {
    let mut counter = EscapeCounter::new(2);
    assert_eq!(counter.observe(false), EscapeStep::Iterate);
    assert_eq!(counter.observe(false), EscapeStep::Iterate);
    assert_eq!(counter.observe(false), EscapeStep::Finished(None));
}

#[test]
fn term_at_bound_can_still_escape() {
    let mut counter = EscapeCounter::new(2);
    for _ in 0..2 {
        assert_eq!(counter.observe(false), EscapeStep::Iterate);
    }
    assert_eq!(counter.observe(true), EscapeStep::Finished(Some(2)));
}

#[test]
fn escape_index_never_passes_bound() {
    // The orbit of 1 + i first escapes at term 3.
    assert_eq!(evaluate(1.0, 1.0, 2), None);
    assert_eq!(evaluate(1.0, 1.0, 3), Some(3));
}

#[test]
fn zero_bound() {
    let mut counter = EscapeCounter::new(0);
    assert_eq!(counter.observe(false), EscapeStep::Finished(None));
    let mut counter = EscapeCounter::new(0);
    assert_eq!(counter.observe(true), EscapeStep::Finished(Some(0)));
}

#[test]
fn largest_bound() {
    let mut counter = EscapeCounter::new(u16::MAX);
    for _ in 0..u16::MAX {
        assert_eq!(counter.observe(false), EscapeStep::Iterate);
    }
    assert_eq!(counter.observe(true), EscapeStep::Finished(Some(u16::MAX)));
    let mut counter = EscapeCounter::new(u16::MAX);
    for _ in 0..u16::MAX {
        assert_eq!(counter.observe(false), EscapeStep::Iterate);
    }
    assert_eq!(counter.observe(false), EscapeStep::Finished(None));
}
