use mandelbrot::escape::{EscapeCounter, EscapeStep, MAX_ITERATIONS};
use mandelbrot::render::render;

const SYMBOLS: [char; 10] = ['@', ' ', '.', ':', '-', '=', '+', '*', '#', '%'];

fn evaluate(re: f64, im: f64) -> Option<u16> {
    let mut counter = EscapeCounter::new(MAX_ITERATIONS);
    let (mut zr, mut zi) = (0.0f64, 0.0f64);
    loop {
        match counter.observe(zr * zr + zi * zi > 10.0) {
            EscapeStep::Finished(result) => return result,
            EscapeStep::Iterate => {
                let next_r = zr * zr - zi * zi + re;
                let next_i = zr * zi + zi * zr + im;
                zr = next_r;
                zi = next_i;
            }
        }
    }
}

/// Classifies cell (x, y) of a grid over the viewport x in [-3, 1], y in [-2, 2].
fn default_view(width: u16, height: u16) -> impl Fn(u16, u16) -> Option<u16> {
    move |x, y| {
        let re = (x as f64 / width as f64) * 4.0 - 3.0;
        let im = (y as f64 / height as f64) * 4.0 - 2.0;
        evaluate(re, im)
    }
}

#[test]
fn end_to_end_ten_by_ten() {
    let frame = render(10, 10, default_view(10, 10));
    assert_eq!(frame.chars().count(), 100);
    assert!(frame.chars().all(|c| SYMBOLS.contains(&c)));
    // Cell (0, 0) is -3 - 2i, far outside the set.
    assert_eq!(frame.chars().next(), Some(' '));
    // Cell (5, 5) is -1 + 0i, whose orbit cycles between 0 and -1.
    assert_eq!(frame.chars().nth(5 * 10 + 5), Some('@'));
}

#[test]
fn rendering_is_deterministic() {
    let a = render(24, 12, default_view(24, 12));
    let b = render(24, 12, default_view(24, 12));
    assert_eq!(a, b);
}

#[test]
fn row_major_order() {
    let frame = render(3, 2, |x: u16, y: u16| {
        if x == 2 && y == 0 {
            None
        } else {
            Some(y * 300 + x * 100 + 50)
        }
    });
    assert_eq!(frame, " .@-=+");
}

#[test]
fn empty_grid() {
    assert_eq!(render(0, 5, |_: u16, _: u16| None), "");
    assert_eq!(render(5, 0, |_: u16, _: u16| None), "");
}
