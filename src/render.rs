use vstd::prelude::*;
use crate::cell::Cell;
use crate::grid::lemma_index_in_bounds;

verus! {

/// The glyph that shows a cell.
pub open spec fn glyph(c: Cell) -> char {
    if c == Cell::Dead {
        '◻'
    } else {
        '◼'
    }
}

/// The text of a `w` by `h` buffer: each row as one glyph per cell, followed
/// by a newline.
pub open spec fn rendered(cells: Seq<Cell>, w: int, h: int) -> Seq<char> {
    Seq::new(
        (h * (w + 1)) as nat,
        |k: int|
            if k % (w + 1) == w {
                '\n'
            } else {
                glyph(cells[(k / (w + 1)) * w + k % (w + 1)])
            },
    )
}

/// Relies on `String::push`: appends the character at the end of the string.
#[verifier::external_body]
fn push_char(s: &mut String, c: char)
    ensures
        final(s)@ == old(s)@.push(c),
{
    s.push(c);
}

/// Writes a `width` by `height` buffer as text, one line per row.
pub fn render_cells(cells: &[Cell], width: u32, height: u32) -> (r: String)
    requires
        0 < width,
        0 < height,
        width * height <= u32::MAX,
        cells@.len() == width * height,
    ensures
        r@ == rendered(cells@, width as int, height as int),
{
    let ghost w = width as int;
    let ghost h = height as int;
    let ghost target = rendered(cells@, w, h);
    let mut text = String::new();
    let mut row: u32 = 0;
    while row < height
        invariant
            w == width,
            h == height,
            0 < w,
            w * h <= u32::MAX,
            cells@.len() == w * h,
            target == rendered(cells@, w, h),
            0 <= row <= h,
            text@.len() == row * (w + 1),
            forall|k: int| 0 <= k < text@.len() ==> text@[k] == target[k],
        decreases h - row,
    {
        let mut column: u32 = 0;
        while column < width
            invariant
                w == width,
                h == height,
                0 < w,
                w * h <= u32::MAX,
                cells@.len() == w * h,
                target == rendered(cells@, w, h),
                0 <= row < h,
                0 <= column <= w,
                text@.len() == row * (w + 1) + column,
                forall|k: int| 0 <= k < text@.len() ==> text@[k] == target[k],
            decreases w - column,
        {
            proof {
                lemma_index_in_bounds(w, h, row as int, column as int);
                lemma_index_in_bounds(w + 1, h, row as int, column as int);
            }
            let idx = (row * width + column) as usize;
            if cells[idx] == Cell::Dead {
                push_char(&mut text, '◻');
            } else {
                push_char(&mut text, '◼');
            }
            column += 1;
        }
        proof {
            lemma_index_in_bounds(w + 1, h, row as int, w);
            assert((row + 1) * (w + 1) == row * (w + 1) + w + 1) by (nonlinear_arith);
        }
        push_char(&mut text, '\n');
        row += 1;
    }
    proof {
        assert(h * (w + 1) == row * (w + 1));
    }
    assert(text@ =~= target);
    text
}

} // verus!
