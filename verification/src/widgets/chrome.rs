//! Frame chrome: the box-drawing rules around the typing UI.
//!
//! The frame has a top and a bottom rule, two interior rules fencing
//! the header and footer bands, and a vertical seam between the gutter
//! and the typing body, with `┬ ┼ ┴` junctions where the seam meets a
//! rule.

use vstd::prelude::*;

verus! {

/// The frame glyph at column `dx`, row `dy` of a frame `height` rows
/// tall, with the seam at column `seam_col` and interior rules at rows
/// `mid1` and `mid2`; `None` where the frame leaves the cell alone.
pub open spec fn frame_glyph(dx: int, dy: int, height: int, seam_col: int, mid1: int, mid2: int) -> Option<char> {
    let is_top = dy == 0;
    let is_bot = dy == height - 1;
    let is_mid = dy == mid1 || dy == mid2;
    let is_seam = dx == seam_col;
    if is_top && is_seam {
        Some('┬')
    } else if is_bot && is_seam {
        Some('┴')
    } else if is_mid && is_seam {
        Some('┼')
    } else if is_top || is_bot || is_mid {
        Some('─')
    } else if is_seam {
        Some('│')
    } else {
        None
    }
}

/// The frame glyph at `(dx, dy)`, relative to the frame's area (see
/// [`frame_glyph`]).
pub fn chrome_glyph(dx: u16, dy: u16, height: u16, seam_col: u16, mid1: u16, mid2: u16) -> (g: Option<char>)
    requires
        height > 0,
    ensures
        g == frame_glyph(dx as int, dy as int, height as int, seam_col as int, mid1 as int, mid2 as int),
{
    let is_top = dy == 0;
    let is_bot = dy == height - 1;
    let is_mid = dy == mid1 || dy == mid2;
    let is_seam = dx == seam_col;
    if is_top && is_seam {
        Some('┬')
    } else if is_bot && is_seam {
        Some('┴')
    } else if is_mid && is_seam {
        Some('┼')
    } else if is_top || is_bot || is_mid {
        Some('─')
    } else if is_seam {
        Some('│')
    } else {
        None
    }
}

} // verus!
