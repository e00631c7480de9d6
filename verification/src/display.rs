//! Laying an image out for a terminal in half-block characters.
//!
//! A half-block character shows two pixels, one above the other, so an image of
//! 28 rows takes 14 lines of 28 characters: line `l` shows row `2 l` over row
//! `2 l + 1`.
use crate::reader::IMAGE_LEN;
use vstd::prelude::*;

verus! {

/// Pixels in one row of an image.
pub const IMAGE_WIDTH: usize = 28;

/// Lines of half-block characters that an image takes.
pub const IMAGE_LINES: usize = 14;

/// The pixel of row `row` and column `column` of an image stored row after row.
pub open spec fn pixel(gray: Seq<u8>, row: int, column: int) -> u8 {
    gray[row * IMAGE_WIDTH + column]
}

/// The upper and the lower pixel of the character at `column` of line `line`.
pub open spec fn half_block(gray: Seq<u8>, line: int, column: int) -> (u8, u8) {
    (pixel(gray, 2 * line, column), pixel(gray, 2 * line + 1, column))
}

/// Whether `lines` lays out the image `gray`: 14 lines of 28 characters, each
/// with the two pixels that it shows.
pub open spec fn lays_out(lines: Seq<Vec<(u8, u8)>>, gray: Seq<u8>) -> bool {
    &&& lines.len() == IMAGE_LINES
    &&& forall|line: int|
        0 <= line < IMAGE_LINES ==> (#[trigger] lines[line])@.len() == IMAGE_WIDTH
    &&& forall|line: int, column: int|
        0 <= line < IMAGE_LINES && 0 <= column < IMAGE_WIDTH ==> (#[trigger] lines[line]@[column])
            == half_block(gray, line, column)
}

/// Pairs the pixels of an image into the characters that show it, line by
/// line and, within a line, column by column.
pub fn half_blocks(gray: &[u8; IMAGE_LEN]) -> (lines: Vec<Vec<(u8, u8)>>)
    ensures
        lays_out(lines@, gray@),
{
    let mut lines: Vec<Vec<(u8, u8)>> = Vec::new();
    let mut line: usize = 0;
    while line < IMAGE_LINES
        invariant
            line <= IMAGE_LINES,
            lines@.len() == line,
            forall|l: int| 0 <= l < line ==> (#[trigger] lines@[l])@.len() == IMAGE_WIDTH,
            forall|l: int, c: int|
                0 <= l < line && 0 <= c < IMAGE_WIDTH ==> (#[trigger] lines@[l]@[c]) == half_block(
                    gray@,
                    l,
                    c,
                ),
        decreases IMAGE_LINES - line,
    {
        let upper_row: usize = 2 * line * IMAGE_WIDTH;
        let lower_row: usize = upper_row + IMAGE_WIDTH;
        let mut cells: Vec<(u8, u8)> = Vec::new();
        let mut column: usize = 0;
        while column < IMAGE_WIDTH
            invariant
                line < IMAGE_LINES,
                upper_row == 2 * line * IMAGE_WIDTH,
                lower_row == (2 * line + 1) * IMAGE_WIDTH,
                column <= IMAGE_WIDTH,
                cells@.len() == column,
                forall|c: int|
                    0 <= c < column ==> (#[trigger] cells@[c]) == half_block(gray@, line as int, c),
            decreases IMAGE_WIDTH - column,
        {
            cells.push((gray[upper_row + column], gray[lower_row + column]));
            column = column + 1;
        }
        lines.push(cells);
        line = line + 1;
    }
    lines
}

/// The layout shows every pixel once: the pixel at `at` is the upper half of
/// its character when its row is even and the lower half when its row is odd.
pub proof fn lemma_every_pixel_shown(gray: Seq<u8>, at: int)
    requires
        0 <= at < IMAGE_LEN,
    ensures
        ({
            let row = at / (IMAGE_WIDTH as int);
            let column = at % (IMAGE_WIDTH as int);
            let shown = half_block(gray, row / 2, column);
            &&& 0 <= row / 2 < IMAGE_LINES
            &&& 0 <= column < IMAGE_WIDTH
            &&& gray[at] == if row % 2 == 0 {
                shown.0
            } else {
                shown.1
            }
        }),
{
}

} // verus!
