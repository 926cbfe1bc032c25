//! The cursor and viewport controller.
//!
//! An [`Editor`] owns a document, a cursor and a window on the text. It is
//! driven one event at a time: [`Editor::process_event`] takes the event,
//! changes the editor and says what the caller is to do next. Reading keys,
//! drawing and writing files are the caller's part.
use crate::document::Document;
use crate::event::{Action, Event, Key, KeyEvent};
use crate::model::{drawn_rows, label, scrolled_axis, text_row, PromptState, State, QUIT_TIMES};
use crate::row::{rendered, Row};
use crate::screen::{
    cell_of, clipped_welcome, message_bar, message_bar_text, status_bar_text, welcome_column,
    welcome_message,
};
use crate::terminal::Terminal;
use crate::text::decimal_string;
use std::time::{Duration, Instant};
use vstd::prelude::*;

verus! {

/// A place in a document: `x` counts grapheme clusters within a line, `y`
/// counts lines.
#[derive(Default, Clone, Copy, Debug, PartialEq, Eq)]
pub struct Position<T> {
    pub x: T,
    pub y: T,
}

/// The way a search walks from the cursor.
#[derive(PartialEq, Eq, Copy, Clone, Debug)]
pub enum SearchDir {
    Forward,
    Backward,
}

/// What a prompt asks for.
#[derive(PartialEq, Eq, Copy, Clone, Debug)]
pub enum PromptKind {
    /// The name of the file to save to.
    SaveAs,
    /// The text to search for; every key searches anew.
    Search,
}

/// `at` with its coordinates as integers.
pub open spec fn place(at: Position<usize>) -> Position<int> {
    Position { x: at.x as int, y: at.y as int }
}

/// Trusted: a point in time of the monotonic clock, `std::time::Instant`.
/// Nothing is said of what one holds.
#[verifier::external_type_specification]
#[verifier::external_body]
pub struct ExInstant(Instant);

/// Trusted: `Instant::now` reads the clock. Nothing is claimed of the
/// result.
pub assume_specification[ Instant::now ]() -> (now: Instant);

/// Trusted: `Instant::elapsed` measures the time since the instant. Nothing
/// is claimed of the result.
pub assume_specification[ Instant::elapsed ](then: &Instant) -> (age: Duration);

/// Trusted: `Duration::as_secs` gives the whole seconds of a duration.
/// Nothing is claimed of the result.
pub assume_specification[ Duration::as_secs ](age: &Duration) -> (seconds: u64);

/// A line for the message bar, with the time it was written.
pub struct StatusMessage {
    text: String,
    time: Instant,
}

impl View for StatusMessage {
    type V = Seq<char>;

    closed spec fn view(&self) -> Seq<char> {
        self.text@
    }
}

impl StatusMessage {
    /// The message `message`, written now.
    pub fn from(message: String) -> (status: Self)
        ensures
            status@ == message@,
    {
        Self { text: message, time: Instant::now() }
    }

    /// The text of the message.
    pub fn text(&self) -> (text: &str)
        ensures
            text@ == self@,
    {
        self.text.as_str()
    }

    /// The whole seconds since the message was written.
    pub fn age(&self) -> u64 {
        self.time.elapsed().as_secs()
    }
}

/// A question on the message bar that is being answered.
pub struct Prompt {
    kind: PromptKind,
    input: String,
    origin: Position<usize>,
    direction: SearchDir,
}

impl View for Prompt {
    type V = PromptState;

    closed spec fn view(&self) -> PromptState {
        PromptState {
            kind: self.kind,
            input: self.input@,
            origin: place(self.origin),
            direction: self.direction,
        }
    }
}

/// What a prompt line starts with.
fn label_of(kind: PromptKind) -> (text: &'static str)
    ensures
        text@ == label(kind),
{
    match kind {
        PromptKind::SaveAs => "Save as: ",
        PromptKind::Search => "Search: ",
    }
}

/// Where the window starts on one axis once the cursor stands at `cursor`.
pub fn scroll_axis(cursor: usize, offset: usize, extent: usize) -> (start: usize)
    ensures
        start == scrolled_axis(cursor as int, offset as int, extent as int),
{
    if cursor < offset {
        cursor
    } else if cursor - offset >= extent {
        (cursor - extent).saturating_add(1)
    } else {
        offset
    }
}

/// `text` as a specification sees it.
pub open spec fn text_view(text: Option<&str>) -> Option<Seq<char>> {
    match text {
        Some(text) => Some(text@),
        None => None,
    }
}

/// What is to be on the screen.
pub struct Screen {
    /// The text rows from the top down.
    pub rows: Vec<String>,
    /// The row of the status bar: the last but one.
    pub status_row: u16,
    /// The status bar.
    pub status_bar: String,
    /// The row of the message bar: the last.
    pub message_row: u16,
    /// The message bar.
    pub message_bar: String,
    /// The column and the row where the welcome line starts, and its text.
    pub welcome: Option<(u16, u16, String)>,
    /// The column and the row where the cursor is left.
    pub cursor: (u16, u16),
}

/// An editor: a document, the cursor in it, the window on it, and what the
/// message bar says.
pub struct Editor {
    should_quit: bool,
    terminal: Terminal,
    cursor_position: Position<usize>,
    cursor_offset: Position<usize>,
    document: Document,
    status_message: StatusMessage,
    quit_times: u8,
    prompt: Option<Prompt>,
}

impl View for Editor {
    type V = State;

    closed spec fn view(&self) -> State {
        State {
            lines: self.document@,
            dirty: self.document.dirty(),
            path: self.document.path_view(),
            cursor: place(self.cursor_position),
            offset: place(self.cursor_offset),
            size: self.terminal@,
            status: self.status_message@,
            quit_times: self.quit_times,
            should_quit: self.should_quit,
            prompt: match self.prompt {
                Some(prompt) => Some(prompt@),
                None => None,
            },
        }
    }
}

impl Editor {
    /// The document is well formed.
    pub closed spec fn wf(&self) -> bool {
        self.document.wf()
    }

    /// An editor on `document` for a screen of `width` by `height` cells,
    /// with the cursor and the window at the start of the text and `status`
    /// on the message bar.
    pub fn new(document: Document, status: String, width: u16, height: u16) -> (editor: Editor)
        requires
            document.wf(),
        ensures
            editor.wf(),
            editor@ == (State {
                lines: document@,
                dirty: document.dirty(),
                path: document.path_view(),
                cursor: Position { x: 0, y: 0 },
                offset: Position { x: 0, y: 0 },
                size: crate::terminal::Size { width, height },
                status: status@,
                quit_times: QUIT_TIMES,
                should_quit: false,
                prompt: None,
            }),
    {
        Editor {
            should_quit: false,
            terminal: Terminal::new(width, height),
            cursor_position: Position { x: 0, y: 0 },
            cursor_offset: Position { x: 0, y: 0 },
            document,
            status_message: StatusMessage::from(status),
            quit_times: QUIT_TIMES,
            prompt: None,
        }
    }

    /// The editor as it starts on a screen of `width` by `height` cells.
    ///
    /// `file_name` is the file named on the command line, if one was, and
    /// `contents` what was read from it, if it could be read. A file that
    /// could not be read leaves an empty document and a message saying so.
    pub fn default(file_name: Option<&str>, contents: Option<&str>, width: u16, height: u16) -> (editor:
        Editor)
        ensures
            editor.wf(),
            editor@ == State::start(
                text_view(file_name),
                text_view(contents),
                crate::terminal::Size { width, height },
            ),
    {
        let mut initial_status = String::from_str("HELP: Ctrl-C = exit");
        let document = match file_name {
            Some(file_name) => match contents {
                Some(contents) => Document::open(file_name, contents),
                None => {
                    initial_status = String::from_str("ERR: Could not open file ");
                    initial_status.append(file_name);
                    Document::default()
                },
            },
            None => Document::default(),
        };
        Editor::new(document, initial_status, width, height)
    }

    /// Whether the editor was asked to quit and agreed.
    pub fn should_quit(&self) -> (b: bool)
        ensures
            b == self@.should_quit,
    {
        self.should_quit
    }

    /// The document.
    pub fn document(&self) -> (document: &Document)
        ensures
            document@ == self@.lines,
            document.dirty() == self@.dirty,
            document.path_view() == self@.path,
            document.wf() == self.wf(),
    {
        &self.document
    }

    /// Where the cursor stands.
    pub fn cursor_position(&self) -> (at: Position<usize>)
        ensures
            place(at) == self@.cursor,
    {
        self.cursor_position
    }

    /// Where the window starts.
    pub fn cursor_offset(&self) -> (at: Position<usize>)
        ensures
            place(at) == self@.offset,
    {
        self.cursor_offset
    }

    /// The message on the message bar.
    pub fn status_message(&self) -> (status: &StatusMessage)
        ensures
            status@ == self@.status,
    {
        &self.status_message
    }

    /// The screen as the editor knows it.
    pub fn terminal(&self) -> (terminal: &Terminal)
        ensures
            terminal@ == self@.size,
    {
        &self.terminal
    }

    /// Whether a question is open on the message bar.
    pub fn is_prompting(&self) -> (b: bool)
        ensures
            b == (self@.prompt is Some),
    {
        self.prompt.is_some()
    }

    /// What the screen shows of `row`: its clusters from the first column of
    /// the window to the last.
    pub fn draw_row(&self, row: &Row) -> (line: String)
        requires
            row.wf(),
        ensures
            line@ == rendered(
                row@,
                self@.offset.x,
                self@.offset.x + self@.size.width,
            ),
    {
        let start = self.cursor_offset.x;
        let end = self.cursor_offset.x.saturating_add(self.terminal.size().width as usize);
        proof {
            row.lemma_wf();
        }
        row.render(start, end)
    }

    /// The text rows of the screen from the top down: each shows the line
    /// that falls on it, or a tilde where the text has ended.
    pub fn draw_rows(&self) -> (rows: Vec<String>)
        requires
            self.wf(),
        ensures
            rows.deep_view() == self@.picture().rows,
    {
        let count = self.terminal.size().height.saturating_sub(1);
        let mut rows: Vec<String> = Vec::new();
        let mut terminal_row_index: u16 = 0;
        while terminal_row_index < count
            invariant
                self.wf(),
                terminal_row_index <= count,
                count == drawn_rows(self@.size.height as int),
                rows.len() == terminal_row_index,
                forall|r: int|
                    0 <= r < rows.len() ==> (#[trigger] rows[r])@ == text_row(
                        self@.lines,
                        self@.offset,
                        self@.size.width as int,
                        r,
                    ),
            decreases count - terminal_row_index,
        {
            proof {
                self.document.lemma_wf();
            }
            let line = match self.cursor_offset.y.checked_add(terminal_row_index as usize) {
                Some(row_index) => match self.document.row(row_index) {
                    Some(row) => self.draw_row(row),
                    None => String::from_str("~\r"),
                },
                None => String::from_str("~\r"),
            };
            rows.push(line);
            terminal_row_index += 1;
        }
        assert(rows.deep_view() =~= self@.picture().rows);
        rows
    }

    /// The status bar: the name of the file, the number of lines, whether
    /// they were edited, and where the cursor stands.
    pub fn draw_status_bar(&self) -> (bar: String)
        ensures
            bar@ == self@.status_line(),
    {
        status_bar_text(
            self.document.path(),
            self.document.rows_size(),
            self.document.is_dirty(),
            self.cursor_position.x,
            self.cursor_position.y,
            self.terminal.size().width as usize,
        )
    }

    /// The message bar: the message while it is fresh, nothing after that.
    /// A question that is open stays on the bar however long it takes to
    /// answer.
    pub fn draw_message_bar(&self) -> (bar: String)
        ensures
            exists|age: u64| bar@ == #[trigger] message_bar(self@.status, age, self@.size.width as nat),
            self@.prompt is Some ==> bar@ == message_bar(self@.status, 0, self@.size.width as nat),
    {
        let message = &self.status_message;
        let age = if self.prompt.is_some() {
            0
        } else {
            message.age()
        };
        let bar = message_bar_text(message.text(), age, self.terminal.size().width as usize);
        assert(bar@ == message_bar(self@.status, age, self@.size.width as nat));
        bar
    }

    /// The welcome line: the column and the row where it starts, and its
    /// text cut to the width of the screen.
    pub fn draw_welcome_message(&self) -> (placed: (u16, u16, String))
        ensures
            placed.0 == welcome_column(self@.size.width),
            placed.1 == self@.size.height / 2,
            placed.2@ == clipped_welcome(self@.size.width),
    {
        welcome_message(self.terminal.size().width, self.terminal.size().height)
    }

    /// What is to be on the screen; nothing, so that the screen is cleared,
    /// once the editor has quit.
    pub fn refresh_screen(&self) -> (screen: Option<Screen>)
        requires
            self.wf(),
        ensures
            self@.should_quit <==> screen is None,
            match screen {
                Some(screen) => {
                    &&& screen.rows.deep_view() == self@.picture().rows
                    &&& screen.status_row == self@.picture().status_row
                    &&& screen.status_bar@ == self@.picture().status_bar
                    &&& screen.message_row == self@.picture().message_row
                    &&& exists|age: u64|
                        screen.message_bar@ == #[trigger] message_bar(
                            self@.status,
                            age,
                            self@.size.width as nat,
                        )
                    &&& self@.prompt is Some ==> screen.message_bar@ == message_bar(
                        self@.status,
                        0,
                        self@.size.width as nat,
                    )
                    &&& match screen.welcome {
                        Some(placed) => self@.picture().welcome == Some(
                            (placed.0, placed.1, placed.2@),
                        ),
                        None => self@.picture().welcome is None,
                    }
                    &&& screen.cursor == self@.picture().cursor
                },
                None => true,
            },
    {
        if self.should_quit {
            return None;
        }
        let rows = self.draw_rows();
        let status_bar = self.draw_status_bar();
        let message_bar = self.draw_message_bar();
        let status_row = self.terminal.size().height.saturating_sub(2);
        let message_row = self.terminal.size().height.saturating_sub(1);
        if self.document.is_empty() {
            Some(
                Screen {
                    rows,
                    status_row,
                    status_bar,
                    message_row,
                    message_bar,
                    welcome: Some(self.draw_welcome_message()),
                    cursor: (0, 0),
                },
            )
        } else {
            let cursor = (
                cell_of(self.cursor_position.x.saturating_sub(self.cursor_offset.x)),
                cell_of(self.cursor_position.y.saturating_sub(self.cursor_offset.y)),
            );
            Some(
                Screen {
                    rows,
                    status_row,
                    status_bar,
                    message_row,
                    message_bar,
                    welcome: None,
                    cursor,
                },
            )
        }
    }

    fn set_status(&mut self, text: &str)
        ensures
            final(self)@ == (State { status: text@, ..old(self)@ }),
            final(self).wf() == old(self).wf(),
    {
        self.status_message = StatusMessage::from(String::from_str(text));
    }

    /// Lets the window follow the cursor: a cursor beyond the far edge
    /// becomes the last visible cell, a cursor before the window its first.
    pub fn scroll(&mut self)
        ensures
            final(self)@ == old(self)@.scroll(),
            final(self).wf() == old(self).wf(),
    {
        let Position { x, y } = self.cursor_position;
        let terminal_width = self.terminal.size().width as usize;
        let terminal_height = self.terminal.size().height.saturating_sub(2) as usize;
        self.cursor_offset = Position {
            x: scroll_axis(x, self.cursor_offset.x, terminal_width),
            y: scroll_axis(y, self.cursor_offset.y, terminal_height),
        };
    }

    /// Moves the cursor as `key` says and brings it back into the text.
    pub fn process_move(&mut self, key: Key)
        requires
            old(self).wf(),
        ensures
            final(self).wf(),
            final(self)@ == old(self)@.step(key),
    {
        let Position { x: start_x, y: start_y } = self.cursor_position;
        let mut x = start_x;
        let mut y = start_y;
        let terminal_height = self.terminal.size().height as usize;
        match key {
            Key::Left => {
                if x > 0 {
                    x -= 1;
                } else if y > 0 {
                    y -= 1;
                    if let Some(row) = self.document.row(y) {
                        x = row.size();
                    } else {
                        x = 0;
                    }
                }
            },
            Key::Right => {
                if let Some(row) = self.document.row(y) {
                    if x < row.size() {
                        x = x.saturating_add(1);
                    } else if y < self.document.rows_size().saturating_sub(1) {
                        y += 1;
                        x = 0;
                    }
                } else {
                    x = 0;
                }
            },
            Key::Up => y = y.saturating_sub(1),
            Key::Down => y = y.saturating_add(1),
            Key::Home => x = 0,
            Key::End => {
                if let Some(row) = self.document.row(y) {
                    x = row.size()
                } else {
                    x = 0;
                }
            },
            Key::PageDown => y = y.saturating_add(terminal_height.saturating_sub(1)),
            Key::PageUp => y = y.saturating_sub(terminal_height.saturating_sub(1)),
            _ => {},
        }
        if let Some(row) = self.document.row(y) {
            let size = row.size();
            if x > size {
                x = size;
            }
        } else {
            x = 0;
        }
        let last = self.document.rows_size().saturating_sub(1);
        if y > last {
            y = last;
        }
        self.cursor_position = Position { x, y };
    }

    /// Ends a key in editing: withdraws a pending quit warning and lets the
    /// window follow the cursor.
    fn settle(&mut self)
        ensures
            final(self)@ == old(self)@.settle(),
            final(self).wf() == old(self).wf(),
    {
        if self.quit_times < QUIT_TIMES {
            self.quit_times = QUIT_TIMES;
            self.status_message = StatusMessage::from(String::new());
        }
        self.scroll();
    }

    /// Opens the prompt for the text to search for.
    fn search(&mut self)
        ensures
            final(self)@ == old(self)@.ask(PromptKind::Search),
            final(self).wf() == old(self).wf(),
    {
        self.ask(PromptKind::Search);
    }

    /// Saves the document if it has a path, and asks for one if it has none.
    fn save(&mut self) -> (action: Action)
        ensures
            final(self).wf() == old(self).wf(),
            old(self)@.path is None ==> final(self)@ == old(self)@.ask(PromptKind::SaveAs)
                && action == Action::Refresh,
            old(self)@.path is Some ==> final(self)@ == old(self)@ && action == Action::Save,
    {
        if self.document.path().is_none() {
            self.ask(PromptKind::SaveAs);
            Action::Refresh
        } else {
            Action::Save
        }
    }

    fn ask(&mut self, kind: PromptKind)
        ensures
            final(self)@ == old(self)@.ask(kind),
            final(self).wf() == old(self).wf(),
    {
        self.prompt = Some(
            Prompt {
                kind,
                input: String::new(),
                origin: self.cursor_position,
                direction: SearchDir::Forward,
            },
        );
        self.set_status(label_of(kind));
    }

    /// Takes note of how saving went: a saved document is no longer edited,
    /// and the message bar says which it was.
    pub fn save_done(&mut self, ok: bool)
        ensures
            final(self)@ == old(self)@.saved(ok),
            final(self).wf() == old(self).wf(),
    {
        if ok {
            self.document.mark_saved();
            self.set_status("File saved");
        } else {
            self.set_status("Failed to save file!");
        }
        self.settle();
    }

    /// One step of an incremental search for `query`, set off by `key`.
    fn search_step(&mut self, key: Key, query: &str)
        requires
            old(self).wf(),
        ensures
            final(self).wf(),
            final(self)@ == old(self)@.search_step(key, query@),
    {
        let mut moved = false;
        let search_dir = match key {
            Key::Right | Key::Down => {
                self.process_move(Key::Right);
                moved = true;
                SearchDir::Forward
            },
            Key::Up | Key::Left => SearchDir::Backward,
            _ => SearchDir::Forward,
        };
        if let Some(position) = self.document.find(query, &self.cursor_position, search_dir) {
            self.cursor_position = position;
            self.scroll();
        } else if moved {
            self.process_move(Key::Left);
        }
    }

    /// Takes a key while a question is open.
    fn prompt(&mut self, event: KeyEvent) -> (action: Action)
        requires
            old(self).wf(),
            old(self)@.prompt is Some,
        ensures
            final(self).wf(),
            final(self)@ == old(self)@.prompt_key(event),
            action == old(self)@.key_action(event),
    {
        let mut asked = match self.prompt.take() {
            Some(asked) => asked,
            None => {
                return Action::Refresh;
            },
        };
        let mut run_prompt = true;
        if event.is_accept() {
            self.status_message = StatusMessage::from(String::new());
            run_prompt = false;
        } else {
            match event.code {
                Key::Char(c) => {
                    asked.input.push(c);
                },
                Key::Backspace => {
                    asked.input.pop();
                },
                Key::Esc => {
                    asked.input = String::new();
                    run_prompt = false;
                },
                _ => {},
            }
        }
        match asked.kind {
            PromptKind::SaveAs => {},
            PromptKind::Search => {
                self.search_step(event.code, asked.input.as_str());
                asked.direction = match event.code {
                    Key::Up | Key::Left => SearchDir::Backward,
                    _ => SearchDir::Forward,
                };
            },
        }
        if run_prompt {
            let mut line = String::from_str(label_of(asked.kind));
            line.append(asked.input.as_str());
            self.status_message = StatusMessage::from(line);
            self.prompt = Some(asked);
            return Action::Refresh;
        }
        let answered = !asked.input.as_str().is_empty();
        match asked.kind {
            PromptKind::SaveAs => {
                if answered {
                    self.document.set_path(asked.input);
                    return Action::Save;
                }
                self.set_status("Save aborted");
            },
            PromptKind::Search => {
                if !answered {
                    self.set_status("Find aborted");
                    self.cursor_position = asked.origin;
                    self.scroll();
                }
            },
        }
        self.settle();
        Action::Refresh
    }

    /// Takes a key while the text is edited.
    fn edit(&mut self, event: KeyEvent) -> (action: Action)
        requires
            old(self).wf(),
            old(self)@.prompt is None,
        ensures
            final(self).wf(),
            final(self)@ == old(self)@.edit_key(event),
            action == old(self)@.key_action(event),
    {
        if event.is_accept() {
            self.document.insert(&self.cursor_position, '\n');
            self.process_move(Key::Right);
        } else if event.control_with('c') {
            if self.quit_times > 0 && self.document.is_dirty() {
                let mut warning = String::from_str(
                    "WARNING! File has unsaved changes. Press Ctrl-C ",
                );
                warning.append(decimal_string(self.quit_times as usize).as_str());
                warning.append(" more times to quit.");
                self.status_message = StatusMessage::from(warning);
                self.quit_times -= 1;
                return Action::Refresh;
            }
            self.should_quit = true;
        } else if event.control_with('s') {
            return self.save();
        } else if event.control_with('f') {
            self.search();
            return Action::Refresh;
        } else {
            match (event.control, event.code) {
                (true, Key::End) => {
                    let last_index = self.document.rows_size().saturating_sub(1);
                    if let Some(last_row) = self.document.row(last_index) {
                        self.cursor_position = Position { x: last_row.size(), y: last_index };
                    }
                },
                (true, Key::Home) => {
                    self.cursor_position = Position { x: 0, y: 0 };
                },
                (_, Key::Char(c)) => {
                    self.document.insert(&self.cursor_position, c);
                    self.process_move(Key::Right);
                },
                (_, Key::Backspace) => {
                    if !(self.cursor_position.x == 0 && self.cursor_position.y == 0) {
                        self.process_move(Key::Left);
                        self.document.delete(&self.cursor_position);
                    }
                },
                (_, Key::Delete) => {
                    self.document.delete(&self.cursor_position);
                },
                (
                    _,
                    Key::Up
                    | Key::Down
                    | Key::Left
                    | Key::Right
                    | Key::Home
                    | Key::End
                    | Key::PageDown
                    | Key::PageUp,
                ) => {
                    self.process_move(event.code);
                },
                _ => {},
            }
        }
        self.settle();
        Action::Refresh
    }

    /// Takes a key press and says what the caller is to do next.
    ///
    /// While a question is open on the message bar the key answers it.
    /// Otherwise the key edits the text, moves the cursor, or asks the editor
    /// to save, search or quit.
    pub fn process_keyboard(&mut self, event: KeyEvent) -> (action: Action)
        requires
            old(self).wf(),
        ensures
            final(self).wf(),
            final(self)@ == old(self)@.key(event),
            action == old(self)@.key_action(event),
    {
        if self.prompt.is_some() {
            self.prompt(event)
        } else {
            self.edit(event)
        }
    }

    /// Takes an event and says what the caller is to do next.
    pub fn process_event(&mut self, event: Event) -> (action: Action)
        requires
            old(self).wf(),
        ensures
            final(self).wf(),
            final(self)@ == old(self)@.event(event),
            action == old(self)@.event_action(event),
    {
        match event {
            Event::Key(event) => self.process_keyboard(event),
            Event::Resize(new_cols, new_rows) => {
                if self.prompt.is_none() {
                    self.terminal.resize(new_cols, new_rows);
                }
                Action::Refresh
            },
        }
    }
}

} // verus!
