//! What the bars of the screen say, as text cut to the width of the screen.
use crate::text::{blanks, clip, clipped, decimal, decimal_string, pad};
use vstd::prelude::*;

verus! {

/// The version that the welcome line names.
pub const VERSION: &'static str = "0.1.0";

/// The seconds for which a message stays on the message bar.
pub const STATUS_MESSAGE_LIVE_TIME: u64 = 5;

/// The scalar values of a file name that the status bar shows at most.
pub const FILE_NAME_WIDTH: usize = 20;

/// The left part of the status bar: the file name, cut to
/// `FILE_NAME_WIDTH`, or a stand-in for it; the number of lines; and a mark
/// where the document was edited.
pub open spec fn status_left(name: Option<Seq<char>>, lines: nat, dirty: bool) -> Seq<char> {
    let name = match name {
        Some(name) => clipped(name, FILE_NAME_WIDTH as int),
        None => "[No Name]"@,
    };
    let mark = if dirty {
        " (modified)"@
    } else {
        Seq::empty()
    };
    name + " -- "@ + decimal(lines) + " lines"@ + mark
}

/// The right part of the status bar: the line and the column of the cursor.
pub open spec fn status_right(x: nat, y: nat) -> Seq<char> {
    decimal(y) + "/"@ + decimal(x)
}

/// The status bar of a screen of `width` cells: the left part, as many
/// spaces as bring the right part to the right edge, and the right part, cut
/// to the width.
pub open spec fn status_bar(
    name: Option<Seq<char>>,
    lines: nat,
    dirty: bool,
    x: nat,
    y: nat,
    width: nat,
) -> Seq<char> {
    let left = status_left(name, lines, dirty);
    let right = status_right(x, y);
    clipped(left + blanks(width - left.len() - right.len()) + right, width as int)
}

/// The message bar of a screen of `width` cells for a message that is `age`
/// seconds old: the message, cut to the width, while it is fresh; nothing
/// after that.
pub open spec fn message_bar(text: Seq<char>, age: u64, width: nat) -> Seq<char> {
    if age < STATUS_MESSAGE_LIVE_TIME {
        clipped(text, width as int)
    } else {
        Seq::empty()
    }
}

/// The line that greets the user of an empty document.
pub open spec fn welcome_text() -> Seq<char> {
    "Slime editor -- version "@ + VERSION@
}

/// The column in which the welcome line starts on a screen of `width` cells:
/// the one that centres it, or 0 where it is wider than the screen.
pub open spec fn welcome_column(width: u16) -> int {
    if welcome_text().len() < width {
        (width - welcome_text().len()) / 2
    } else {
        0
    }
}

/// The welcome line, cut to a screen of `width` cells.
pub open spec fn clipped_welcome(width: u16) -> Seq<char> {
    clipped(welcome_text(), width as int)
}

/// The cell of the screen that distance `d` from the start of the window
/// falls on, counted as the screen counts: in 16 bits.
pub open spec fn cell(d: int) -> u16 {
    (d % 0x1_0000) as u16
}

/// The status bar.
pub fn status_bar_text(
    name: Option<&str>,
    lines: usize,
    dirty: bool,
    x: usize,
    y: usize,
    width: usize,
) -> (bar: String)
    ensures
        bar@ == status_bar(
            match name {
                Some(name) => Some(name@),
                None => None,
            },
            lines as nat,
            dirty,
            x as nat,
            y as nat,
            width as nat,
        ),
{
    let mut status = match name {
        Some(name) => clip(name, FILE_NAME_WIDTH),
        None => String::from_str("[No Name]"),
    };
    status.append(" -- ");
    status.append(decimal_string(lines).as_str());
    status.append(" lines");
    if dirty {
        status.append(" (modified)");
    }
    let mut line_indicator = decimal_string(y);
    line_indicator.append("/");
    line_indicator.append(decimal_string(x).as_str());
    let left = status.as_str().unicode_len();
    let right = line_indicator.as_str().unicode_len();
    assert(status@ =~= status_left(
        match name {
            Some(name) => Some(name@),
            None => None,
        },
        lines as nat,
        dirty,
    ));
    if left <= width && right < width - left {
        pad(&mut status, width - left - right);
    } else {
        assert(status@ + blanks(width - left - right) =~= status@);
    }
    status.append(line_indicator.as_str());
    clip(status.as_str(), width)
}

/// The message bar for a message that is `age` seconds old.
pub fn message_bar_text(text: &str, age: u64, width: usize) -> (bar: String)
    ensures
        bar@ == message_bar(text@, age, width as nat),
{
    if age < STATUS_MESSAGE_LIVE_TIME {
        clip(text, width)
    } else {
        String::new()
    }
}

/// The welcome line for a screen of `width` by `height` cells: the column and
/// the row it starts in, and its text cut to the width. The row is the middle
/// one.
pub fn welcome_message(width: u16, height: u16) -> (placed: (u16, u16, String))
    ensures
        placed.0 == welcome_column(width),
        placed.1 == height / 2,
        placed.2@ == clipped_welcome(width),
{
    let mut message = String::from_str("Slime editor -- version ");
    message.append(VERSION);
    let len = message.as_str().unicode_len();
    let pos_x = if len < width as usize {
        (width - len as u16) / 2
    } else {
        0
    };
    let pos_y = height / 2;
    (pos_x, pos_y, clip(message.as_str(), width as usize))
}

/// The cell that distance `d` from the start of the window falls on.
pub fn cell_of(d: usize) -> (c: u16)
    ensures
        c == cell(d as int),
{
    (d % 0x1_0000) as u16
}

} // verus!
