//! The text of the bars and of the welcome line, laid out for a screen of a
//! given width.

use crate::row::{push_spaces, spaces};
use vstd::prelude::*;
use vstd::string::*;

verus! {

/// The version that the welcome line shows.
pub const VERSION: &'static str = "0.1.0";

/// The longest file name that the status bar shows, in characters.
pub const NAME_WIDTH: usize = 20;

/// The decimal digit for `d`.
pub open spec fn digit(d: int) -> char {
    if d == 0 {
        '0'
    } else if d == 1 {
        '1'
    } else if d == 2 {
        '2'
    } else if d == 3 {
        '3'
    } else if d == 4 {
        '4'
    } else if d == 5 {
        '5'
    } else if d == 6 {
        '6'
    } else if d == 7 {
        '7'
    } else if d == 8 {
        '8'
    } else {
        '9'
    }
}

/// `n` written in decimal digits.
pub open spec fn decimal(n: nat) -> Seq<char>
    decreases n,
{
    if n < 10 {
        seq![digit(n as int)]
    } else {
        decimal(n / 10).push(digit((n % 10) as int))
    }
}

/// The first `width` characters of `text`, or all of it where it has fewer.
pub open spec fn truncated(text: Seq<char>, width: nat) -> Seq<char> {
    if width < text.len() {
        text.take(width as int)
    } else {
        text
    }
}

/// The name that the status bar shows for a document: the start of its file
/// name, or a word for a document without one.
pub open spec fn shown_name(filename: Option<Seq<char>>) -> Seq<char> {
    match filename {
        Some(name) => truncated(name, NAME_WIDTH as nat),
        None => "[No Name]"@,
    }
}

/// The status bar of a document of `rows` rows with the cursor in row `line`,
/// on a screen `width` columns wide: a mark for unsaved changes, the name and
/// the number of rows at the left, the cursor's line of all lines at the
/// right, spaces between them as far as there is room, and no more than
/// `width` characters of it all.
pub open spec fn status_bar(
    filename: Option<Seq<char>>,
    dirty: bool,
    rows: usize,
    line: usize,
    width: usize,
) -> Seq<char> {
    let mark = if dirty { "* "@ } else { "  "@ };
    let left = mark + shown_name(filename) + " - "@ + decimal(rows as nat);
    let right = decimal(line.saturating_add(1) as nat) + "/"@ + decimal(rows as nat);
    let gap = if left.len() + right.len() < width {
        spaces((width - left.len() - right.len()) as nat)
    } else {
        spaces(0)
    };
    truncated(left + gap + right, width as nat)
}

/// The welcome line on a screen `width` columns wide: a tilde, then the
/// editor's name and version moved towards the middle.
pub open spec fn welcome(width: usize) -> Seq<char> {
    let message = "Hecto Editor -- Version "@ + VERSION@;
    let room = if message.len() < width { width - message.len() } else { 0 };
    let padding = room / 2;
    let indent = if padding > 0 { padding - 1 } else { 0 };
    truncated(seq!['~'] + spaces(indent as nat) + message, width as nat)
}

/// The decimal digit for `d`.
fn digit_of(d: usize) -> (c: char)
    requires
        d < 10,
    ensures
        c == digit(d as int),
{
    if d == 0 {
        '0'
    } else if d == 1 {
        '1'
    } else if d == 2 {
        '2'
    } else if d == 3 {
        '3'
    } else if d == 4 {
        '4'
    } else if d == 5 {
        '5'
    } else if d == 6 {
        '6'
    } else if d == 7 {
        '7'
    } else if d == 8 {
        '8'
    } else {
        '9'
    }
}

/// Writes `n` in decimal digits at the end of `out`.
pub fn push_decimal(out: &mut String, n: usize)
    ensures
        final(out)@ == old(out)@ + decimal(n as nat),
    decreases n,
{
    if n >= 10 {
        push_decimal(out, n / 10);
    }
    out.push(digit_of(n % 10));
    assert(out@ == old(out)@ + decimal(n as nat));
}

/// No more than the first `width` characters of `text`.
pub fn truncate(text: &str, width: usize) -> (cut: String)
    ensures
        cut@ == truncated(text@, width as nat),
{
    if width < text.unicode_len() {
        String::from_str(text.substring_char(0, width))
    } else {
        String::from_str(text)
    }
}

/// The text of the status bar.
pub fn status_bar_text(
    filename: &Option<String>,
    dirty: bool,
    rows: usize,
    line: usize,
    width: usize,
) -> (bar: String)
    ensures
        bar@ == status_bar(
            match *filename {
                Some(name) => Some(name@),
                None => None,
            },
            dirty,
            rows,
            line,
            width,
        ),
{
    let mut status = String::from_str(if dirty { "* " } else { "  " });
    match filename {
        Some(name) => {
            let name = truncate(name.as_str(), NAME_WIDTH);
            status.append(name.as_str());
        },
        None => {
            status.append("[No Name]");
        },
    }
    status.append(" - ");
    push_decimal(&mut status, rows);
    let mut indicator = String::new();
    push_decimal(&mut indicator, line.saturating_add(1));
    indicator.append("/");
    push_decimal(&mut indicator, rows);
    let taken = status.as_str().unicode_len();
    let wanted = indicator.as_str().unicode_len();
    let ghost left = status@;
    if wanted < width && taken < width - wanted {
        push_spaces(&mut status, width - wanted - taken);
    } else {
        assert(status@ + spaces(0) == status@);
    }
    status.append(indicator.as_str());
    truncate(status.as_str(), width)
}

/// The text of the welcome line.
pub fn welcome_text(width: usize) -> (line: String)
    ensures
        line@ == welcome(width),
{
    let mut message = String::from_str("Hecto Editor -- Version ");
    message.append(VERSION);
    let len = message.as_str().unicode_len();
    let padding = width.saturating_sub(len) / 2;
    let mut line = String::from_str("~");
    proof {
        reveal_strlit("~");
        assert("~"@ == seq!['~']);
    }
    push_spaces(&mut line, padding.saturating_sub(1));
    line.append(message.as_str());
    truncate(line.as_str(), width)
}

} // verus!
