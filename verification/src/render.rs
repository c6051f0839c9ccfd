//! The text that shows a grid on a terminal: one space per cell on the cell's background
//! colour, a colour code only where the colour changes.

use crate::palette::PaletteColor;
use crate::vec2d::{lemma_row_in_bounds, Vec2D};
use vstd::prelude::*;

verus! {

/// The escape character that opens a control sequence.
pub const ESC: u8 = 27;

/// `[`, the second character of a control sequence.
pub const BRACKET: u8 = 91;

/// The digit `0`.
pub const ZERO: u8 = 48;

/// `m`, which ends a colour code.
pub const SET_COLOR: u8 = 109;

/// `A`, which ends a code that moves the cursor up.
pub const CURSOR_UP: u8 = 65;

/// One cell on the terminal.
pub const SPACE: u8 = 32;

/// Back to the first column.
pub const CARRIAGE_RETURN: u8 = 13;

/// The end of a row.
pub const LINE_FEED: u8 = 10;

/// A number in decimal digits, without leading zeros.
pub open spec fn digits_of(n: nat) -> Seq<u8>
    decreases n,
{
    if n < 10 {
        seq![(ZERO + n) as u8]
    } else {
        digits_of(n / 10).push((ZERO + n % 10) as u8)
    }
}

/// The head of a frame: styles cleared, the cursor moved up by `lines` lines and back to
/// the first column.
pub open spec fn move_up(lines: nat) -> Seq<u8> {
    seq![ESC, BRACKET, ZERO, SET_COLOR, ESC, BRACKET] + digits_of(lines) + seq![
        CURSOR_UP,
        CARRIAGE_RETURN,
    ]
}

/// The colour in force before cell `i` of the grid: that of the cell before, and 0 at the
/// start.
pub open spec fn color_before(cells: Seq<PaletteColor>, i: int) -> PaletteColor {
    if i <= 0 {
        0
    } else {
        cells[i - 1]
    }
}

/// The text of one cell: its colour code where the colour differs from the one in force,
/// then a space.
pub open spec fn cell_bytes(color: PaletteColor, last: PaletteColor) -> Seq<u8> {
    if color != last {
        seq![ESC, BRACKET] + digits_of(color as nat) + seq![SET_COLOR, SPACE]
    } else {
        seq![SPACE]
    }
}

/// The text of `count` cells from cell `start` on.
pub open spec fn span_bytes(cells: Seq<PaletteColor>, start: int, count: nat) -> Seq<u8>
    decreases count,
{
    if count == 0 {
        Seq::<u8>::empty()
    } else {
        span_bytes(cells, start, (count - 1) as nat) + cell_bytes(
            cells[start + count - 1],
            color_before(cells, start + count - 1),
        )
    }
}

/// The text of the first `rows` rows, each ended by a line feed.
pub open spec fn rows_bytes(cells: Seq<PaletteColor>, width: nat, rows: nat) -> Seq<u8>
    decreases rows,
{
    if rows == 0 {
        Seq::<u8>::empty()
    } else {
        rows_bytes(cells, width, (rows - 1) as nat) + span_bytes(
            cells,
            (rows - 1) * width,
            width,
        ) + seq![LINE_FEED]
    }
}

/// The text of a whole frame that is drawn over the one `lines` lines above the cursor.
pub open spec fn frame_bytes(cells: Seq<PaletteColor>, width: nat, height: nat, lines: nat) -> Seq<
    u8,
> {
    move_up(lines) + rows_bytes(cells, width, height)
}

/// Appends a number in decimal digits.
pub fn push_decimal(text: &mut Vec<u8>, n: usize)
    ensures
        final(text)@ == old(text)@ + digits_of(n as nat),
    decreases n,
{
    if n >= 10 {
        push_decimal(text, n / 10);
    }
    text.push(ZERO + (n % 10) as u8);
    assert(text@ =~= old(text)@ + digits_of(n as nat));
}

/// The text of a frame: the grid, row by row, to be written over the frame that ends
/// `lines` lines above the cursor.
pub fn frame_text(canvas: &Vec2D<PaletteColor>, lines: usize) -> (text: Vec<u8>)
    requires
        canvas.wf(),
    ensures
        text@ == frame_bytes(canvas@, canvas.width() as nat, canvas.height() as nat, lines as nat),
{
    let ghost cells = canvas@;
    let ghost width = canvas.width() as nat;
    let mut text: Vec<u8> = Vec::new();
    text.push(ESC);
    text.push(BRACKET);
    text.push(ZERO);
    text.push(SET_COLOR);
    text.push(ESC);
    text.push(BRACKET);
    push_decimal(&mut text, lines);
    text.push(CURSOR_UP);
    text.push(CARRIAGE_RETURN);
    assert(text@ =~= move_up(lines as nat));

    let rows = canvas.row_iter();
    let mut last_clr: PaletteColor = 0;
    let mut y: usize = 0;
    while y < rows.len()
        invariant
            y <= rows@.len(),
            canvas.wf(),
            cells == canvas@,
            width == canvas.width(),
            rows@.len() == canvas.height(),
            forall|k: int| 0 <= k < rows@.len() ==> (#[trigger] rows@[k])@ == canvas.row(k),
            last_clr == color_before(cells, y * width),
            text@ == move_up(lines as nat) + rows_bytes(cells, width, y as nat),
        decreases rows@.len() - y,
    {
        let row: &[PaletteColor] = rows[y];
        proof {
            lemma_row_in_bounds(width as int, canvas.height() as int, y as int);
            assert(row@ == canvas.row(y as int));
        }
        let mut x: usize = 0;
        while x < row.len()
            invariant
                x <= row@.len(),
                row@.len() == width,
                0 <= y * width,
                y * width + width <= cells.len(),
                row@ == cells.subrange(y * width, y * width + width),
                last_clr == color_before(cells, y * width + x),
                text@ == move_up(lines as nat) + rows_bytes(cells, width, y as nat) + span_bytes(
                    cells,
                    y * width,
                    x as nat,
                ),
            decreases row@.len() - x,
        {
            let color: PaletteColor = row[x];
            assert(color == cells[y * width + x]);
            let ghost before = text@;
            if last_clr != color {
                last_clr = color;
                text.push(ESC);
                text.push(BRACKET);
                push_decimal(&mut text, color);
                text.push(SET_COLOR);
                text.push(SPACE);
            } else {
                text.push(SPACE);
            }
            x += 1;
            assert(text@ =~= before + cell_bytes(color, color_before(cells, y * width + x - 1)));
            assert(text@ =~= move_up(lines as nat) + rows_bytes(cells, width, y as nat) + span_bytes(
                cells,
                y * width,
                x as nat,
            ));
        }
        text.push(LINE_FEED);
        assert((y + 1) * width == y * width + width) by (nonlinear_arith);
        y += 1;
        assert(text@ =~= move_up(lines as nat) + rows_bytes(cells, width, y as nat));
    }
    text
}

} // verus!
