//! Sheets of the well-known paper sizes, upright and without margins.

use crate::units::{Millis, Paper};
use vstd::prelude::*;

verus! {

/// The sheet of the given width and height in millimetres, without margins.
pub open spec fn sheet_mm(width: int, height: int) -> Paper<Millis> {
    Paper {
        width: Millis((width * 1000) as i64),
        height: Millis((height * 1000) as i64),
        margin_top: Millis(0),
        margin_bottom: Millis(0),
        margin_left: Millis(0),
        margin_right: Millis(0),
    }
}

/// The sheet of the given width and height in thousandths of a millimetre,
/// without margins.
fn sheet(width: i64, height: i64) -> (paper: Paper<Millis>)
    ensures
        paper == (Paper {
            width: Millis(width),
            height: Millis(height),
            margin_top: Millis(0),
            margin_bottom: Millis(0),
            margin_left: Millis(0),
            margin_right: Millis(0),
        }),
{
    Paper {
        width: Millis(width),
        height: Millis(height),
        margin_top: Millis(0),
        margin_bottom: Millis(0),
        margin_left: Millis(0),
        margin_right: Millis(0),
    }
}

/// DIN A0 paper (841 mm x 1189 mm).
pub fn din_a0() -> (paper: Paper<Millis>)
    ensures
        paper == sheet_mm(841, 1189),
{
    sheet(841_000, 1189_000)
}

/// DIN A1 paper (594 mm x 841 mm).
pub fn din_a1() -> (paper: Paper<Millis>)
    ensures
        paper == sheet_mm(594, 841),
{
    sheet(594_000, 841_000)
}

/// DIN A2 paper (420 mm x 594 mm).
pub fn din_a2() -> (paper: Paper<Millis>)
    ensures
        paper == sheet_mm(420, 594),
{
    sheet(420_000, 594_000)
}

/// DIN A3 paper (297 mm x 420 mm).
pub fn din_a3() -> (paper: Paper<Millis>)
    ensures
        paper == sheet_mm(297, 420),
{
    sheet(297_000, 420_000)
}

/// DIN A4 paper (210 mm x 297 mm).
pub fn din_a4() -> (paper: Paper<Millis>)
    ensures
        paper == sheet_mm(210, 297),
{
    sheet(210_000, 297_000)
}

/// DIN A5 paper (148 mm x 210 mm).
pub fn din_a5() -> (paper: Paper<Millis>)
    ensures
        paper == sheet_mm(148, 210),
{
    sheet(148_000, 210_000)
}

/// DIN A6 paper (105 mm x 147 mm).
pub fn din_a6() -> (paper: Paper<Millis>)
    ensures
        paper == sheet_mm(105, 147),
{
    sheet(105_000, 147_000)
}

/// DIN A7 paper (74 mm x 105 mm).
pub fn din_a7() -> (paper: Paper<Millis>)
    ensures
        paper == sheet_mm(74, 105),
{
    sheet(74_000, 105_000)
}

/// DIN A8 paper (52 mm x 74 mm).
pub fn din_a8() -> (paper: Paper<Millis>)
    ensures
        paper == sheet_mm(52, 74),
{
    sheet(52_000, 74_000)
}

/// DIN A9 paper (37 mm x 52 mm).
pub fn din_a9() -> (paper: Paper<Millis>)
    ensures
        paper == sheet_mm(37, 52),
{
    sheet(37_000, 52_000)
}

/// DIN A10 paper (26 mm x 37 mm).
pub fn din_a10() -> (paper: Paper<Millis>)
    ensures
        paper == sheet_mm(26, 37),
{
    sheet(26_000, 37_000)
}

} // verus!
