//! The size of the screen, as the terminal reports it.

use crate::editor::Position;
use vstd::prelude::*;

verus! {

/// The columns and rows of the terminal.
#[derive(Clone, Copy, Debug, PartialEq, Eq, Structural)]
pub struct Size {
    pub width: u16,
    pub height: u16,
}

/// The cell of the screen at `position`, column first. The terminal counts
/// rows and columns from 1, and in 16 bits: a larger number loses what is
/// above them.
pub fn cursor_cell(position: &Position) -> (cell: (u16, u16))
    ensures
        cell.0 == position.x.saturating_add(1) % 0x10000,
        cell.1 == position.y.saturating_add(1) % 0x10000,
{
    (
        (position.x.saturating_add(1) % 0x10000) as u16,
        (position.y.saturating_add(1) % 0x10000) as u16,
    )
}

} // verus!
