//! The editor as a state machine over plain values.
//!
//! [`State`] is what an editor holds, seen as mathematics: the lines as
//! sequences, the positions as integers. Each function here says what one
//! step makes of a state. The executable editor is proved to take exactly
//! these steps.
use crate::document::{found_in, lines_of, with_deleted, with_inserted};
use crate::editor::{Position, PromptKind, SearchDir};
use crate::event::{Action, Event, Key, KeyEvent};
use crate::row::{cluster_count, rendered};
use crate::screen::{cell, clipped_welcome, status_bar, welcome_column};
use crate::terminal::Size;
use crate::text::decimal;
use vstd::prelude::*;

verus! {

/// How often control with `c` is to be pressed again before unsaved changes
/// are thrown away.
pub const QUIT_TIMES: u8 = 3;

/// The number of clusters of line `y`; 0 where there is no such line.
pub open spec fn line_len(lines: Seq<Seq<char>>, y: int) -> int {
    if 0 <= y < lines.len() {
        cluster_count(lines[y]) as int
    } else {
        0
    }
}

/// The lines that a page key moves over on a screen of `height` rows.
pub open spec fn page(height: int) -> int {
    if height > 1 {
        height - 1
    } else {
        0
    }
}

/// The rows of a screen of `height` rows that show text: all but the two at
/// the bottom.
pub open spec fn text_rows(height: int) -> int {
    if height > 2 {
        height - 2
    } else {
        0
    }
}

/// Where `key` takes the cursor from `at`, before the result is brought back
/// into the text.
///
/// Left at the start of a line goes to the end of the line above, right at
/// the end of a line to the start of the line below, if there is one. Up and
/// page up stop at line 0; down and page down may leave the text.
pub open spec fn stepped(lines: Seq<Seq<char>>, at: Position<int>, key: Key, height: int) -> Position<
    int,
> {
    match key {
        Key::Left => if at.x > 0 {
            Position { x: at.x - 1, y: at.y }
        } else if at.y > 0 {
            Position { x: line_len(lines, at.y - 1), y: at.y - 1 }
        } else {
            at
        },
        Key::Right => if 0 <= at.y < lines.len() {
            if at.x < line_len(lines, at.y) {
                Position { x: at.x + 1, y: at.y }
            } else if at.y + 1 < lines.len() {
                Position { x: 0, y: at.y + 1 }
            } else {
                at
            }
        } else {
            Position { x: 0, y: at.y }
        },
        Key::Up => Position {
            x: at.x,
            y: if at.y > 0 {
                at.y - 1
            } else {
                0
            },
        },
        Key::Down => Position { x: at.x, y: at.y + 1 },
        Key::Home => Position { x: 0, y: at.y },
        Key::End => Position { x: line_len(lines, at.y), y: at.y },
        Key::PageDown => Position { x: at.x, y: at.y + page(height) },
        Key::PageUp => Position {
            x: at.x,
            y: if at.y > page(height) {
                at.y - page(height)
            } else {
                0
            },
        },
        _ => at,
    }
}

/// `at` brought back into the text: `x` to the length of line `at.y` at most,
/// or to 0 where there is no such line; then `y` to the last line at most, or
/// to 0 where there is no line.
pub open spec fn clamped(lines: Seq<Seq<char>>, at: Position<int>) -> Position<int> {
    Position {
        x: if 0 <= at.y < lines.len() && at.x > line_len(lines, at.y) {
            line_len(lines, at.y)
        } else if 0 <= at.y < lines.len() {
            at.x
        } else {
            0
        },
        y: if lines.len() == 0 {
            0
        } else if at.y > lines.len() - 1 {
            lines.len() - 1
        } else {
            at.y
        },
    }
}

/// Where `key` takes the cursor from `at`.
pub open spec fn moved(lines: Seq<Seq<char>>, at: Position<int>, key: Key, height: int) -> Position<
    int,
> {
    clamped(lines, stepped(lines, at, key, height))
}

/// Where the window starts on one axis once the cursor stands at `cursor`,
/// if it started at `offset` and shows `extent` cells.
///
/// A cursor at or past the far edge pulls the window along until the cursor
/// is its last cell. A cursor before the window pulls its start back onto the
/// cursor. Otherwise the window stays.
pub open spec fn scrolled_axis(cursor: int, offset: int, extent: int) -> int {
    if cursor >= offset + extent {
        if cursor - extent + 1 > usize::MAX {
            usize::MAX as int
        } else {
            cursor - extent + 1
        }
    } else if cursor < offset {
        cursor
    } else {
        offset
    }
}

/// Where the window starts once the cursor stands at `cursor`.
pub open spec fn scrolled(cursor: Position<int>, offset: Position<int>, size: Size) -> Position<
    int,
> {
    Position {
        x: scrolled_axis(cursor.x, offset.x, size.width as int),
        y: scrolled_axis(cursor.y, offset.y, text_rows(size.height as int)),
    }
}

/// The rows of a screen of `height` rows that the text is drawn on: all but
/// the last.
pub open spec fn drawn_rows(height: int) -> int {
    if height > 1 {
        height - 1
    } else {
        0
    }
}

/// What row `r` of the screen shows of `lines` when the window starts at
/// `offset` and is `width` cells wide: the line that falls on it, from the
/// window's first column to its last, or a tilde where the text has ended.
pub open spec fn text_row(lines: Seq<Seq<char>>, offset: Position<int>, width: int, r: int) -> Seq<
    char,
> {
    if 0 <= offset.y + r < lines.len() {
        rendered(lines[offset.y + r], offset.x, offset.x + width)
    } else {
        "~\r"@
    }
}

/// What the prompt line starts with.
pub open spec fn label(kind: PromptKind) -> Seq<char> {
    match kind {
        PromptKind::SaveAs => "Save as: "@,
        PromptKind::Search => "Search: "@,
    }
}

/// The warning shown when the editor is asked to quit with unsaved changes
/// and `left` more requests are needed.
pub open spec fn quit_warning(left: u8) -> Seq<char> {
    "WARNING! File has unsaved changes. Press Ctrl-C "@ + decimal(left as nat)
        + " more times to quit."@
}

/// The direction in which `key` sends an incremental search.
pub open spec fn search_direction(key: Key) -> SearchDir {
    match key {
        Key::Up | Key::Left => SearchDir::Backward,
        _ => SearchDir::Forward,
    }
}

/// Whether `key` asks an incremental search for the next match rather than
/// the one under the cursor.
pub open spec fn search_advances(key: Key) -> bool {
    key is Right || key is Down
}

/// A question that the editor has asked and that is still being answered.
pub struct PromptState {
    /// What is asked.
    pub kind: PromptKind,
    /// What was typed so far.
    pub input: Seq<char>,
    /// Where the cursor stood when the question was asked.
    pub origin: Position<int>,
    /// The direction of the last search step.
    pub direction: SearchDir,
}

/// What an editor holds.
pub struct State {
    pub lines: Seq<Seq<char>>,
    pub dirty: bool,
    pub path: Option<Seq<char>>,
    pub cursor: Position<int>,
    pub offset: Position<int>,
    pub size: Size,
    pub status: Seq<char>,
    pub quit_times: u8,
    pub should_quit: bool,
    pub prompt: Option<PromptState>,
}

/// What is to be on the screen, as plain values.
pub struct Picture {
    /// The text rows from the top down.
    pub rows: Seq<Seq<char>>,
    /// The row of the status bar: the last but one.
    pub status_row: u16,
    /// The status bar.
    pub status_bar: Seq<char>,
    /// The row of the message bar: the last.
    pub message_row: u16,
    /// The column and the row where the welcome line starts, and its text;
    /// it is drawn over the text rows of an empty document.
    pub welcome: Option<(u16, u16, Seq<char>)>,
    /// The column and the row of the screen where the cursor is left.
    pub cursor: (u16, u16),
}

impl State {
    /// The state in which an editor starts on a screen of extent `size`.
    ///
    /// Without a file name it holds an empty document. With a file name and
    /// the contents of that file it holds the lines of the file. With a file
    /// name whose file could not be read it holds an empty document without
    /// a path and says so on the message bar.
    pub open spec fn start(file_name: Option<Seq<char>>, contents: Option<Seq<char>>, size: Size) -> State {
        let opened = file_name is Some && contents is Some;
        State {
            lines: if opened {
                lines_of(contents->0)
            } else {
                Seq::empty()
            },
            dirty: false,
            path: if opened {
                file_name
            } else {
                None
            },
            cursor: Position { x: 0, y: 0 },
            offset: Position { x: 0, y: 0 },
            size,
            status: if file_name is Some && contents is None {
                "ERR: Could not open file "@ + file_name->0
            } else {
                "HELP: Ctrl-C = exit"@
            },
            quit_times: QUIT_TIMES,
            should_quit: false,
            prompt: None,
        }
    }

    /// The status bar of this state.
    pub open spec fn status_line(self) -> Seq<char> {
        status_bar(
            self.path,
            self.lines.len(),
            self.dirty,
            self.cursor.x as nat,
            self.cursor.y as nat,
            self.size.width as nat,
        )
    }

    /// What is to be on the screen in this state, but for the message bar,
    /// which depends on the time.
    ///
    /// Over an empty document the welcome line is drawn, and the cursor is
    /// left in the top left corner. Otherwise the cursor is left where it
    /// stands in the window.
    pub open spec fn picture(self) -> Picture {
        Picture {
            rows: Seq::new(
                drawn_rows(self.size.height as int) as nat,
                |r: int| text_row(self.lines, self.offset, self.size.width as int, r),
            ),
            status_row: text_rows(self.size.height as int) as u16,
            status_bar: self.status_line(),
            message_row: drawn_rows(self.size.height as int) as u16,
            welcome: if self.lines.len() == 0 {
                Some(
                    (
                        welcome_column(self.size.width) as u16,
                        self.size.height / 2,
                        clipped_welcome(self.size.width),
                    ),
                )
            } else {
                None
            },
            cursor: if self.lines.len() == 0 {
                (0u16, 0u16)
            } else {
                (
                    cell(
                        if self.cursor.x > self.offset.x {
                            self.cursor.x - self.offset.x
                        } else {
                            0
                        },
                    ),
                    cell(
                        if self.cursor.y > self.offset.y {
                            self.cursor.y - self.offset.y
                        } else {
                            0
                        },
                    ),
                )
            },
        }
    }

    /// The window follows the cursor.
    pub open spec fn scroll(self) -> State {
        State { offset: scrolled(self.cursor, self.offset, self.size), ..self }
    }

    /// The cursor moves as `key` says.
    pub open spec fn step(self, key: Key) -> State {
        State { cursor: moved(self.lines, self.cursor, key, self.size.height as int), ..self }
    }

    /// What ends every key in editing: a pending quit warning is withdrawn,
    /// and the window follows the cursor.
    pub open spec fn settle(self) -> State {
        if self.quit_times < QUIT_TIMES {
            State { quit_times: QUIT_TIMES, status: Seq::empty(), ..self }.scroll()
        } else {
            self.scroll()
        }
    }

    /// `ch` is typed at the cursor, which then moves right.
    pub open spec fn type_char(self, ch: char) -> State {
        State {
            lines: with_inserted(self.lines, self.cursor.x, self.cursor.y, ch),
            dirty: self.dirty || self.cursor.y <= self.lines.len(),
            ..self
        }.step(Key::Right)
    }

    /// The document deletes at the cursor.
    pub open spec fn erase(self) -> State {
        State {
            lines: with_deleted(self.lines, self.cursor.x, self.cursor.y),
            dirty: self.dirty || self.cursor.y < self.lines.len(),
            ..self
        }
    }

    /// The editor is asked to quit: with unsaved changes it warns and counts
    /// down, otherwise it quits.
    pub open spec fn quit(self) -> State {
        if self.quit_times > 0 && self.dirty {
            State {
                status: quit_warning(self.quit_times),
                quit_times: (self.quit_times - 1) as u8,
                ..self
            }
        } else {
            State { should_quit: true, ..self }.settle()
        }
    }

    /// The editor asks a question of kind `kind`.
    pub open spec fn ask(self, kind: PromptKind) -> State {
        State {
            prompt: Some(
                PromptState {
                    kind,
                    input: Seq::empty(),
                    origin: self.cursor,
                    direction: SearchDir::Forward,
                },
            ),
            status: label(kind),
            ..self
        }
    }

    /// The cursor jumps to the end of the last line, if there is a line.
    pub open spec fn to_end(self) -> State {
        if self.lines.len() > 0 {
            State {
                cursor: Position {
                    x: line_len(self.lines, self.lines.len() - 1),
                    y: self.lines.len() - 1,
                },
                ..self
            }
        } else {
            self
        }
    }

    /// A key is pressed while the text is edited.
    pub open spec fn edit_key(self, event: KeyEvent) -> State {
        if event.accepts() {
            self.type_char('\n').settle()
        } else if event.is_control('c') {
            self.quit()
        } else if event.is_control('s') {
            if self.path is None {
                self.ask(PromptKind::SaveAs)
            } else {
                self
            }
        } else if event.is_control('f') {
            self.ask(PromptKind::Search)
        } else if event.control && event.code is End {
            self.to_end().settle()
        } else if event.control && event.code is Home {
            State { cursor: Position { x: 0, y: 0 }, ..self }.settle()
        } else {
            match event.code {
                Key::Char(c) => self.type_char(c).settle(),
                Key::Backspace => if self.cursor.x == 0 && self.cursor.y == 0 {
                    self.settle()
                } else {
                    self.step(Key::Left).erase().settle()
                },
                Key::Delete => self.erase().settle(),
                Key::Up
                | Key::Down
                | Key::Left
                | Key::Right
                | Key::Home
                | Key::End
                | Key::PageDown
                | Key::PageUp => self.step(event.code).settle(),
                _ => self.settle(),
            }
        }
    }

    /// One step of an incremental search for `query`, set off by `key`.
    ///
    /// Right and down first move the cursor one step right, so that the match
    /// under the cursor is left behind. A match takes the cursor, and the
    /// window follows. Without a match the cursor goes back the step it took.
    pub open spec fn search_step(self, key: Key, query: Seq<char>) -> State {
        let from = if search_advances(key) {
            self.step(Key::Right)
        } else {
            self
        };
        match found_in(from.lines, query, from.cursor.x, from.cursor.y, search_direction(key)) {
            Some((x, y)) => State { cursor: Position { x, y }, ..from }.scroll(),
            None => if search_advances(key) {
                from.step(Key::Left)
            } else {
                from
            },
        }
    }

    /// What `event` makes of the text typed into a prompt.
    pub open spec fn typed(input: Seq<char>, event: KeyEvent) -> Seq<char> {
        if event.accepts() {
            input
        } else {
            match event.code {
                Key::Char(c) => input.push(c),
                Key::Backspace => if input.len() > 0 {
                    input.drop_last()
                } else {
                    input
                },
                Key::Esc => Seq::empty(),
                _ => input,
            }
        }
    }

    /// Whether `event` ends a prompt: it accepts the input, or it is the
    /// escape key.
    pub open spec fn ends_prompt(event: KeyEvent) -> bool {
        event.accepts() || event.code is Esc
    }

    /// A key is pressed while a question is open.
    ///
    /// The key edits the input, accepts it or gives it up; a search then
    /// takes a step for the new input. A question that stays open shows its
    /// label and the input. A search that ends without input puts the cursor
    /// back where it was. A file name that is accepted becomes the path of
    /// the document, which is then to be saved.
    pub open spec fn prompt_key(self, event: KeyEvent) -> State
        recommends
            self.prompt is Some,
    {
        let asked = self.prompt->0;
        let input = Self::typed(asked.input, event);
        let cleared = if event.accepts() {
            State { status: Seq::empty(), ..self }
        } else {
            self
        };
        let searched = match asked.kind {
            PromptKind::SaveAs => cleared,
            PromptKind::Search => cleared.search_step(event.code, input),
        };
        if !Self::ends_prompt(event) {
            State {
                prompt: Some(
                    PromptState {
                        input,
                        direction: match asked.kind {
                            PromptKind::SaveAs => asked.direction,
                            PromptKind::Search => search_direction(event.code),
                        },
                        ..asked
                    },
                ),
                status: label(asked.kind) + input,
                ..searched
            }
        } else {
            let closed = State { prompt: None, ..searched };
            match asked.kind {
                PromptKind::SaveAs => if input.len() == 0 {
                    State { status: "Save aborted"@, ..closed }.settle()
                } else {
                    State { path: Some(input), ..closed }
                },
                PromptKind::Search => if input.len() == 0 {
                    State { status: "Find aborted"@, cursor: asked.origin, ..closed }.scroll().settle()
                } else {
                    closed.settle()
                },
            }
        }
    }

    /// A key is pressed.
    pub open spec fn key(self, event: KeyEvent) -> State {
        if self.prompt is Some {
            self.prompt_key(event)
        } else {
            self.edit_key(event)
        }
    }

    /// What the caller is to do after `event` was pressed in this state: save
    /// where control with `s` is pressed on a document that has a path, or a
    /// file name is accepted; draw the screen otherwise.
    pub open spec fn key_action(self, event: KeyEvent) -> Action {
        if match self.prompt {
            Some(asked) => asked.kind is SaveAs && event.accepts() && asked.input.len() > 0,
            None => event.is_control('s') && self.path is Some,
        } {
            Action::Save
        } else {
            Action::Refresh
        }
    }

    /// An event arrives. While a question is open only keys count.
    pub open spec fn event(self, event: Event) -> State {
        match event {
            Event::Key(key) => self.key(key),
            Event::Resize(width, height) => if self.prompt is Some {
                self
            } else {
                State { size: Size { width, height }, ..self }
            },
        }
    }

    /// What the caller is to do after `event` arrived in this state.
    pub open spec fn event_action(self, event: Event) -> Action {
        match event {
            Event::Key(key) => self.key_action(key),
            Event::Resize(_, _) => Action::Refresh,
        }
    }

    /// The caller reports how saving went.
    pub open spec fn saved(self, ok: bool) -> State {
        if ok {
            State { dirty: false, status: "File saved"@, ..self }.settle()
        } else {
            State { status: "Failed to save file!"@, ..self }.settle()
        }
    }
}

} // verus!
