//! Screen-level layout decisions: whether the frame chrome fits, and
//! whether the cursor falls inside the typing body.

use vstd::prelude::*;

verus! {

/// Rows taken by the frame itself: the top rule, the header, the rule
/// under it, the rule over the footer, the footer and the bottom rule.
pub const CHROME_ROWS: u16 = 6;

/// The framed layout is used when the screen has room for the chrome
/// rows plus one body row, and for the gutter, the seam and its
/// trailing space plus one body column; smaller screens get the plain
/// layout (body and a one-row footer).
pub fn uses_frame(area_width: u16, area_height: u16, gutter_width: u16) -> (b: bool)
    ensures
        b == (area_height >= CHROME_ROWS + 1 && area_width >= gutter_width + 3),
{
    (area_height as u32) >= (CHROME_ROWS as u32) + 1 && (area_width as u32) >= (gutter_width as u32) + 3
}

/// The cursor is shown only when its `(col, row)` falls inside a body of
/// `width` by `height` cells.
pub fn cursor_visible(col: u16, row: u16, width: u16, height: u16) -> (b: bool)
    ensures
        b == (col < width && row < height),
{
    col < width && row < height
}

} // verus!
