//! The frame sweep: rows top to bottom, columns left to right.
use vstd::prelude::*;
use vstd::arithmetic::div_mod::{lemma_fundamental_div_mod, lemma_mod_bound};
use crate::shading::{push_pixel, shade_of, is_shade_symbol, lemma_shade_is_symbol};

verus! {

/// The position of cell `(x, y)` in a frame of rows of `width` cells.
pub open spec fn cell_index(width: int, x: int, y: int) -> int {
    y * width + x
}

/// Cell `(x, y)` of `frame` holds the symbol of a result that `classify`
/// may return for that cell.
pub open spec fn cell_drawn<F: Fn(u16, u16) -> Option<u16>>(
    classify: F,
    frame: Seq<char>,
    width: u16,
    x: u16,
    y: u16,
) -> bool {
    exists|r: Option<u16>|
        #[trigger] classify.ensures((x, y), r) && frame[cell_index(width as int, x as int, y as int)]
            == shade_of(r)
}

/// `frame` is a frame of the grid of `width` by `height` cells, each cell
/// drawn from its classification, in row-major order.
pub open spec fn is_frame_of<F: Fn(u16, u16) -> Option<u16>>(
    classify: F,
    width: u16,
    height: u16,
    frame: Seq<char>,
) -> bool {
    &&& frame.len() == width * height
    &&& forall|x: u16, y: u16| x < width && y < height ==> #[trigger] cell_drawn(classify, frame, width, x, y)
}

proof fn lemma_cell_in_rows(width: int, x: int, y: int, rows: int)
    requires
        0 <= x < width,
        0 <= y < rows,
    ensures
        0 <= cell_index(width, x, y) < rows * width,
        cell_index(width, x, y) + 1 <= rows * width,
{
    assert(y * width + x < rows * width) by (nonlinear_arith)
        requires
            0 <= x < width,
            0 <= y < rows,
    ;
    assert(0 <= y * width) by (nonlinear_arith)
        requires
            0 <= x < width,
            0 <= y,
    ;
}

/// Rendering is deterministic: two frames of one grid whose classifiers give
/// each cell one and the same result are identical.
pub proof fn lemma_render_deterministic<F: Fn(u16, u16) -> Option<u16>, G: Fn(u16, u16) -> Option<u16>>(
    first: F,
    second: G,
    width: u16,
    height: u16,
    a: Seq<char>,
    b: Seq<char>,
)
    requires
        is_frame_of(first, width, height, a),
        is_frame_of(second, width, height, b),
        forall|x: u16, y: u16, r1: Option<u16>, r2: Option<u16>|
            #[trigger] first.ensures((x, y), r1) && #[trigger] second.ensures((x, y), r2) ==> r1
                == r2,
    ensures
        a == b,
{
    assert forall|i: int| 0 <= i < a.len() implies a[i] == b[i] by {
        let w = width as int;
        let h = height as int;
        assert(w > 0) by (nonlinear_arith)
            requires
                0 <= i < w * h,
                0 <= h,
        ;
        lemma_fundamental_div_mod(i, w);
        lemma_mod_bound(i, w);
        assert(i / w < h) by (nonlinear_arith)
            requires
                0 <= i < w * h,
                w > 0,
                i == w * (i / w) + i % w,
                0 <= i % w,
        ;
        assert(0 <= i / w) by (nonlinear_arith)
            requires
                0 <= i,
                w > 0,
        ;
        let x = (i % w) as u16;
        let y = (i / w) as u16;
        assert(cell_index(w, x as int, y as int) == i) by (nonlinear_arith)
            requires
                i == w * (i / w) + i % w,
                x as int == i % w,
                y as int == i / w,
        ;
        assert(cell_drawn(first, a, width, x, y));
        assert(cell_drawn(second, b, width, x, y));
        let r1 = choose|r: Option<u16>| #[trigger] first.ensures((x, y), r) && a[cell_index(w, x as int, y as int)] == shade_of(r);
        let r2 = choose|r: Option<u16>| #[trigger] second.ensures((x, y), r) && b[cell_index(w, x as int, y as int)] == shade_of(r);
    }
    assert(a =~= b);
}

/// Sweeps the grid in row-major order, classifies each cell with
/// `classify(x, y)`, and returns the frame of their symbols.
pub fn render<F: Fn(u16, u16) -> Option<u16>>(grid_width: u16, grid_height: u16, classify: F) -> (frame: String)
    requires
        forall|x: u16, y: u16| x < grid_width && y < grid_height ==> #[trigger] classify.requires((x, y)),
    ensures
        is_frame_of(classify, grid_width, grid_height, frame@),
        forall|i: int| 0 <= i < frame@.len() ==> is_shade_symbol(#[trigger] frame@[i]),
{
    let mut frame = String::new();
    let mut y: u16 = 0;
    while y < grid_height
        invariant
            forall|x: u16, y: u16| x < grid_width && y < grid_height ==> #[trigger] classify.requires((x, y)),
            y <= grid_height,
            frame@.len() == y * grid_width,
            forall|xx: u16, yy: u16| xx < grid_width && yy < y ==> #[trigger] cell_drawn(classify, frame@, grid_width, xx, yy),
            forall|i: int| 0 <= i < frame@.len() ==> is_shade_symbol(#[trigger] frame@[i]),
        decreases grid_height - y,
    {
        let mut x: u16 = 0;
        while x < grid_width
            invariant
                forall|x: u16, y: u16| x < grid_width && y < grid_height ==> #[trigger] classify.requires((x, y)),
                y < grid_height,
                x <= grid_width,
                frame@.len() == y * grid_width + x,
                forall|xx: u16, yy: u16| xx < grid_width && yy < y ==> #[trigger] cell_drawn(classify, frame@, grid_width, xx, yy),
                forall|xx: u16| xx < x ==> #[trigger] cell_drawn(classify, frame@, grid_width, xx, y),
                forall|i: int| 0 <= i < frame@.len() ==> is_shade_symbol(#[trigger] frame@[i]),
            decreases grid_width - x,
        {
            let result = classify(x, y);
            let ghost before = frame@;
            push_pixel(result, &mut frame);
            proof {
                lemma_shade_is_symbol(result);
                assert forall|xx: u16, yy: u16| xx < grid_width && yy < y implies #[trigger] cell_drawn(classify, frame@, grid_width, xx, yy) by {
                    assert(cell_drawn(classify, before, grid_width, xx, yy));
                    lemma_cell_in_rows(grid_width as int, xx as int, yy as int, y as int);
                    let r = choose|r: Option<u16>| #[trigger] classify.ensures((xx, yy), r) && before[cell_index(grid_width as int, xx as int, yy as int)] == shade_of(r);
                    assert(frame@[cell_index(grid_width as int, xx as int, yy as int)] == before[cell_index(grid_width as int, xx as int, yy as int)]);
                }
                assert forall|xx: u16| xx < x + 1 implies #[trigger] cell_drawn(classify, frame@, grid_width, xx, y) by {
                    if xx < x {
                        assert(cell_drawn(classify, before, grid_width, xx, y));
                        let r = choose|r: Option<u16>| #[trigger] classify.ensures((xx, y), r) && before[cell_index(grid_width as int, xx as int, y as int)] == shade_of(r);
                        assert(frame@[cell_index(grid_width as int, xx as int, y as int)] == before[cell_index(grid_width as int, xx as int, y as int)]);
                    } else {
                        assert(classify.ensures((xx, y), result));
                    }
                }
            }
            x = x + 1;
        }
        proof {
            assert((y + 1) * grid_width == y * grid_width + grid_width) by (nonlinear_arith);
        }
        y = y + 1;
    }
    proof {
        assert(grid_height * grid_width == grid_width * grid_height) by (nonlinear_arith);
    }
    frame
}

} // verus!
