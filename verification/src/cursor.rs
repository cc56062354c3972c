//! Where the cursor goes on a navigation key, and how the viewport follows it.

use crate::document::{Document, DocumentView};
use crate::editor::{Key, Position};
use crate::row::display_len;
use vstd::prelude::*;

verus! {

/// The width of row `y` with tabs `tab_width` columns wide, or 0 where the
/// document has no such row.
pub open spec fn width_at(rows: Seq<Seq<char>>, y: int, tab_width: usize) -> usize {
    if 0 <= y < rows.len() {
        display_len(rows[y], tab_width)
    } else {
        0
    }
}

/// The smaller of two numbers.
pub open spec fn at_most(a: usize, b: usize) -> usize {
    if a < b {
        a
    } else {
        b
    }
}

/// What the cursor keys read of the document around the cursor: the number
/// of rows, and the widths of the cursor's row, of the row above it and of the
/// row below it, each 0 where the document has no such row.
#[derive(Clone, Copy, Debug, PartialEq, Eq, Structural)]
pub struct Around {
    pub rows: usize,
    pub width: usize,
    pub above: usize,
    pub below: usize,
}

/// Where the cursor stands after `key`, with `around` it what the document
/// holds, shown `height` rows at a time.
///
/// Left and right step through a row and pass from one row to the next at its
/// ends. Up and down change the row, never past the line below the last row,
/// and bring the column back into the new row. Home and End go to the ends of
/// the row. A page is `height` rows. Any other key leaves the cursor where it
/// is.
pub open spec fn stepped(key: Key, cursor: Position, around: Around, height: usize) -> Position {
    let x = cursor.x;
    let y = cursor.y;
    match key {
        Key::Left | Key::Ctrl('b') => {
            if x > 0 {
                Position { x: (x - 1) as usize, y }
            } else if y > 0 {
                Position { x: around.above, y: (y - 1) as usize }
            } else {
                cursor
            }
        },
        Key::Right | Key::Ctrl('f') => {
            if x < around.width {
                Position { x: (x + 1) as usize, y }
            } else if y + 1 < around.rows {
                Position { x: 0, y: (y + 1) as usize }
            } else {
                cursor
            }
        },
        Key::Up | Key::Ctrl('p') => {
            if y > 0 {
                Position { x: at_most(x, around.above), y: (y - 1) as usize }
            } else {
                Position { x: at_most(x, around.width), y }
            }
        },
        Key::Down | Key::Ctrl('n') => {
            if y < around.rows {
                Position { x: at_most(x, around.below), y: (y + 1) as usize }
            } else {
                Position { x: at_most(x, around.width), y }
            }
        },
        Key::Home | Key::Ctrl('a') => Position { x: 0, y },
        Key::End | Key::Ctrl('e') => Position { x: around.width, y },
        Key::PageUp => Position { x, y: y.saturating_sub(height) },
        Key::PageDown => {
            if y + height < around.rows {
                Position { x, y: (y + height) as usize }
            } else {
                Position { x, y: around.rows }
            }
        },
        _ => cursor,
    }
}

/// What stands around row `y` of `rows`, with tabs `tab_width` columns wide.
pub open spec fn around(rows: Seq<Seq<char>>, y: usize, tab_width: usize) -> Around {
    Around {
        rows: rows.len() as usize,
        width: width_at(rows, y as int, tab_width),
        above: width_at(rows, y - 1, tab_width),
        below: width_at(rows, y + 1, tab_width),
    }
}

/// Where the cursor stands after `key` in `document`.
pub open spec fn moved(
    key: Key,
    cursor: Position,
    document: DocumentView,
    height: usize,
) -> Position {
    stepped(key, cursor, around(document.rows, cursor.y, document.tab_width), height)
}

/// Where a window of `size` cells that began at `offset` begins once it has
/// followed the cursor to `at`: at the cursor where that lies before the
/// window, as far on as the cursor lies past its end, and else where it was.
pub open spec fn followed(at: usize, size: usize, offset: usize) -> usize {
    if at < offset {
        at
    } else if at >= offset.saturating_add(size) {
        at.saturating_sub(size).saturating_add(1)
    } else {
        offset
    }
}

/// The offset of a viewport of `width` columns and `height` rows that stood
/// at `offset`, once it has followed the cursor.
pub open spec fn scrolled(
    cursor: Position,
    width: usize,
    height: usize,
    offset: Position,
) -> Position {
    Position { x: followed(cursor.x, width, offset.x), y: followed(cursor.y, height, offset.y) }
}

/// The cursor after `key`, with `around` it what the document holds.
pub fn step_cursor(key: Key, cursor: Position, around: Around, height: usize) -> (to: Position)
    ensures
        to == stepped(key, cursor, around, height),
{
    let x = cursor.x;
    let y = cursor.y;
    match key {
        Key::Left | Key::Ctrl('b') => {
            if x > 0 {
                Position { x: x - 1, y }
            } else if y > 0 {
                Position { x: around.above, y: y - 1 }
            } else {
                cursor
            }
        },
        Key::Right | Key::Ctrl('f') => {
            if x < around.width {
                Position { x: x + 1, y }
            } else if y < around.rows.saturating_sub(1) {
                Position { x: 0, y: y + 1 }
            } else {
                cursor
            }
        },
        Key::Up | Key::Ctrl('p') => {
            if y > 0 {
                Position { x: if x < around.above { x } else { around.above }, y: y - 1 }
            } else {
                Position { x: if x < around.width { x } else { around.width }, y }
            }
        },
        Key::Down | Key::Ctrl('n') => {
            if y < around.rows {
                Position { x: if x < around.below { x } else { around.below }, y: y + 1 }
            } else {
                Position { x: if x < around.width { x } else { around.width }, y }
            }
        },
        Key::Home | Key::Ctrl('a') => Position { x: 0, y },
        Key::End | Key::Ctrl('e') => Position { x: around.width, y },
        Key::PageUp => Position { x, y: y.saturating_sub(height) },
        Key::PageDown => {
            let below = y.saturating_add(height);
            if below < around.rows {
                Position { x, y: below }
            } else {
                Position { x, y: around.rows }
            }
        },
        _ => cursor,
    }
}

/// The cursor after `key` in `document`.
pub fn move_cursor(key: Key, cursor: Position, document: &Document, height: usize) -> (to: Position)
    requires
        document.wf(),
    ensures
        to == moved(key, cursor, document@, height),
{
    let y = cursor.y;
    let around = Around {
        rows: document.len(),
        width: row_width(document, y),
        above: if y > 0 { row_width(document, y - 1) } else { 0 },
        below: match y.checked_add(1) {
            Some(next) => row_width(document, next),
            None => 0,
        },
    };
    proof {
        document.lemma_wf();
    }
    step_cursor(key, cursor, around, height)
}

/// The offset of the viewport once it has followed the cursor.
pub fn scroll(cursor: &Position, width: usize, height: usize, offset: &Position) -> (to: Position)
    ensures
        to == scrolled(*cursor, width, height, *offset),
{
    Position {
        x: follow(cursor.x, width, offset.x),
        y: follow(cursor.y, height, offset.y),
    }
}

fn follow(at: usize, size: usize, offset: usize) -> (to: usize)
    ensures
        to == followed(at, size, offset),
{
    if at < offset {
        at
    } else if at >= offset.saturating_add(size) {
        at.saturating_sub(size).saturating_add(1)
    } else {
        offset
    }
}

/// The width of row `y`, or 0 where the document has no such row.
fn row_width(document: &Document, y: usize) -> (width: usize)
    requires
        document.wf(),
    ensures
        width == width_at(document@.rows, y as int, document@.tab_width),
{
    match document.row(y) {
        Some(row) => row.len(),
        None => 0,
    }
}

/// A cursor on a row of the document, or on the line below the last row,
/// stays there whatever the key; after a move up or down it stands inside
/// its row.
pub proof fn lemma_moved_stays_in_document(
    key: Key,
    cursor: Position,
    document: DocumentView,
    height: usize,
)
    requires
        cursor.y <= document.rows.len() <= usize::MAX,
    ensures
        moved(key, cursor, document, height).y <= document.rows.len(),
        key == Key::Up || key == Key::Down ==> moved(key, cursor, document, height).x <= width_at(
            document.rows,
            moved(key, cursor, document, height).y as int,
            document.tab_width,
        ),
{
}

/// A cursor that lies `by` lines below the window moves the window down by
/// just as many, and one that lies above it brings the window's first line to
/// its own. Columns go the same way.
pub proof fn lemma_scrolled_follows(
    cursor: Position,
    width: usize,
    height: usize,
    offset: Position,
    by: int,
)
    ensures
        ({
            let to = scrolled(cursor, width, height, offset);
            &&& by >= 1 && cursor.y == offset.y + height - 1 + by && offset.y + by <= usize::MAX
                ==> to.y == offset.y + by
            &&& by >= 1 && cursor.x == offset.x + width - 1 + by && offset.x + by <= usize::MAX
                ==> to.x == offset.x + by
            &&& cursor.y < offset.y ==> to.y == cursor.y
            &&& cursor.x < offset.x ==> to.x == cursor.x
        }),
{
}

/// After scrolling, the cursor lies inside a window that has any room: not
/// before its first line or column, and not past its last.
pub proof fn lemma_scrolled_shows_cursor(
    cursor: Position,
    width: usize,
    height: usize,
    offset: Position,
)
    ensures
        ({
            let to = scrolled(cursor, width, height, offset);
            &&& width > 0 ==> to.x <= cursor.x
            &&& height > 0 ==> to.y <= cursor.y
            &&& width > 0 ==> cursor.x < to.x + width
            &&& height > 0 ==> cursor.y < to.y + height
        }),
{
}

} // verus!
