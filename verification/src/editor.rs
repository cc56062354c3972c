//! The editing session: what each key does to the document, the cursor, the
//! viewport and the message bar, and what the screen shows of them.

use crate::cursor::{
    lemma_scrolled_shows_cursor, move_cursor, moved, scroll, scrolled, width_at,
};
use crate::document::{
    after_delete_backward, after_delete_forward, after_insert, after_newline, column_before,
    empty_document, found_in, lines_of, snapped, Document, DocumentView,
};
use crate::row::{cluster_width, lemma_count_empty, lemma_count_push, rendered, Row};
use crate::screen::{status_bar, status_bar_text, truncate, truncated, welcome, welcome_text};
use crate::terminal::Size;
use vstd::prelude::*;
use vstd::string::*;

verus! {

/// The number of columns that a tab takes on screen, unless a session is set
/// up with another.
pub const TAB_WIDTH: u32 = 4;

/// The rows at the bottom of the screen that the status bar and the message
/// bar take. A page, for the page keys, is the rest of the screen.
pub const BAR_ROWS: u16 = 2;

/// How long a status message shows, in milliseconds, unless a session is set
/// up with another time.
pub const MESSAGE_TIME: u64 = 5000;

/// What a session is set up with: the columns that a tab takes, and the time
/// for which a status message shows, in milliseconds.
#[derive(Clone, Copy, Debug, PartialEq, Eq, Structural)]
pub struct Config {
    pub tab_width: usize,
    pub message_time: u64,
}

impl Default for Config {
    fn default() -> (config: Config)
        ensures
            config == (Config { tab_width: TAB_WIDTH as usize, message_time: MESSAGE_TIME }),
    {
        Config { tab_width: TAB_WIDTH as usize, message_time: MESSAGE_TIME }
    }
}

/// A place in the document: `x` a column, `y` a row.
#[derive(Clone, Copy, Debug, PartialEq, Eq, Structural)]
pub struct Position {
    pub x: usize,
    pub y: usize,
}

impl Default for Position {
    fn default() -> (position: Position)
        ensures
            position == (Position { x: 0, y: 0 }),
    {
        Position { x: 0, y: 0 }
    }
}

/// A key event, as the terminal decodes it. `Char('\n')` is the Enter key.
#[derive(Clone, Copy, Debug, PartialEq, Eq, Structural)]
pub enum Key {
    Char(char),
    Ctrl(char),
    Backspace,
    Delete,
    Esc,
    Left,
    Right,
    Up,
    Down,
    Home,
    End,
    PageUp,
    PageDown,
    /// Any key that the editor has no use for.
    Other,
}

/// Where the session stands: at work, waiting for the answer to "really
/// quit?", or over.
#[derive(Clone, Copy, Debug, PartialEq, Eq, Structural)]
pub enum SessionState {
    Running,
    QuitPending,
    Terminated,
}

/// What a line typed into the message bar is for.
#[derive(Clone, Copy, Debug, PartialEq, Eq, Structural)]
pub enum PromptPurpose {
    SaveAs,
    Search,
}

/// What the program that runs the session has to do after a key.
#[derive(Clone, Copy, Debug, PartialEq, Eq, Structural)]
pub enum Action {
    /// Nothing but to draw the screen.
    Nothing,
    /// Write the document's text to its file, and report with
    /// `Editor::save_finished` whether that worked.
    Save,
}

/// What the program found at the path that it was started with.
pub enum Startup {
    /// It was given no path.
    NoFile,
    /// The file was read.
    Opened { filename: String, contents: String },
    /// The file could not be read.
    Unreadable { filename: String },
}

/// What a status message is: its text and when it was set.
pub struct StatusView {
    pub text: Seq<char>,
    pub set_at: u64,
}

/// A message for the message bar, with the time it was set.
pub struct StatusMessage {
    message: String,
    timestamp: u64,
}

impl View for StatusMessage {
    type V = StatusView;

    closed spec fn view(&self) -> StatusView {
        StatusView { text: self.message@, set_at: self.timestamp }
    }
}

/// Whether a message set at `set_at`, which shows for `message_time`, still
/// shows at `now`.
pub open spec fn fresh(set_at: u64, now: u64, message_time: u64) -> bool {
    now.saturating_sub(set_at) < message_time
}

impl StatusMessage {
    /// The message `message`, set at `now`.
    pub fn new(message: String, now: u64) -> (status: StatusMessage)
        ensures
            status@ == (StatusView { text: message@, set_at: now }),
    {
        StatusMessage { message, timestamp: now }
    }

    /// What the message bar shows of the message at `now`: its text for
    /// `message_time` from when it was set, then nothing.
    pub fn text_at(&self, now: u64, message_time: u64) -> (text: &str)
        ensures
            text@ == if fresh(self@.set_at, now, message_time) {
                self@.text
            } else {
                Seq::<char>::empty()
            },
    {
        if now.saturating_sub(self.timestamp) < message_time {
            self.message.as_str()
        } else {
            proof {
                reveal_strlit("");
            }
            ""
        }
    }
}

/// What a prompt is: its purpose, what has been typed, and where cursor and
/// viewport stood when it came up.
pub struct PromptView {
    pub purpose: PromptPurpose,
    pub buffer: Seq<char>,
    pub cursor: Position,
    pub offset: Position,
}

/// A line that is being typed into the message bar.
struct Prompt {
    purpose: PromptPurpose,
    buffer: String,
    cursor: Position,
    offset: Position,
}

impl View for Prompt {
    type V = PromptView;

    closed spec fn view(&self) -> PromptView {
        PromptView {
            purpose: self.purpose,
            buffer: self.buffer@,
            cursor: self.cursor,
            offset: self.offset,
        }
    }
}

/// What a session is.
pub struct EditorView {
    pub state: SessionState,
    pub size: Size,
    pub cursor: Position,
    pub offset: Position,
    pub document: DocumentView,
    pub status: StatusView,
    pub message_time: u64,
    pub prompt: Option<PromptView>,
}

/// The rows of the screen that show the document.
pub open spec fn viewport_height(size: Size) -> usize {
    size.height.saturating_sub(BAR_ROWS) as usize
}

/// The words in front of what is typed into a prompt.
pub open spec fn label(purpose: PromptPurpose) -> Seq<char> {
    match purpose {
        PromptPurpose::SaveAs => "Save as: "@,
        PromptPurpose::Search => "Search: "@,
    }
}

/// The session with the viewport brought to the cursor.
pub open spec fn scrolled_to_cursor(e: EditorView) -> EditorView {
    EditorView {
        offset: scrolled(e.cursor, e.size.width as usize, viewport_height(e.size), e.offset),
        ..e
    }
}

/// The columns that the character `c` takes when it is typed: those of a
/// tab for a tab, and one for anything else.
pub open spec fn char_width(c: char, tab_width: usize) -> usize {
    if c == '\t' {
        tab_width.saturating_sub(1).saturating_add(1)
    } else {
        1
    }
}

/// A typed character takes the columns of the cluster that it is alone.
pub proof fn lemma_char_width(c: char, tab_width: usize)
    ensures
        char_width(c, tab_width) == cluster_width(seq![c], tab_width),
{
    lemma_count_empty('\t');
    lemma_count_push(Seq::<char>::empty(), c, '\t');
    assert(Seq::<char>::empty().push(c) == seq![c]);
    let more = tab_width.saturating_sub(1) as nat;
    assert(0 * more == 0) by (nonlinear_arith);
    assert(1 * more == more) by (nonlinear_arith);
}

/// The session after the character `c` is typed into the document: a line
/// feed breaks the line and takes the cursor to the start of the new row; any
/// other character goes in at the cursor, which then stands behind it: as
/// many columns as the character takes behind the cluster boundary that the
/// cursor stood for.
pub open spec fn typed(e: EditorView, c: char) -> EditorView {
    let tab_width = e.document.tab_width;
    let rows = if c == '\n' {
        after_newline(e.document.rows, e.cursor, tab_width)
    } else {
        after_insert(e.document.rows, e.cursor, c, tab_width)
    };
    let cursor = if c == '\n' {
        Position { x: 0, y: e.cursor.y.saturating_add(1) }
    } else {
        Position {
            x: snapped(e.document.rows, e.cursor, tab_width).saturating_add(
                char_width(c, tab_width),
            ),
            y: e.cursor.y,
        }
    };
    EditorView { cursor, document: DocumentView { rows, dirty: true, ..e.document }, ..e }
}

/// The session after a backspace in the document: the cursor steps back to
/// where the deleted cluster started, and by one column where none is
/// deleted; at column 0 it goes to where the row above ended.
pub open spec fn backspaced(e: EditorView) -> EditorView {
    let rows = after_delete_backward(e.document.rows, e.cursor, e.document.tab_width);
    let cursor = if e.cursor.x != 0 {
        Position {
            x: column_before(e.document.rows, e.cursor, e.document.tab_width),
            y: e.cursor.y,
        }
    } else if e.cursor.y > 0 {
        Position {
            x: width_at(e.document.rows, e.cursor.y - 1, e.document.tab_width),
            y: (e.cursor.y - 1) as usize,
        }
    } else {
        e.cursor
    };
    EditorView { cursor, document: DocumentView { rows, dirty: true, ..e.document }, ..e }
}

/// The session after a delete in the document.
pub open spec fn deleted(e: EditorView) -> EditorView {
    let rows = after_delete_forward(e.document.rows, e.cursor, e.document.tab_width);
    EditorView { document: DocumentView { rows, dirty: true, ..e.document }, ..e }
}

/// The session after a request to quit: with unsaved changes it waits for
/// the answer to "really quit?"; without any there is nothing to ask, and it
/// is over at once.
pub open spec fn quit_requested(e: EditorView, now: u64) -> EditorView {
    if e.document.dirty {
        EditorView { state: SessionState::QuitPending, ..e }
    } else {
        EditorView {
            state: SessionState::Terminated,
            status: StatusView { text: Seq::empty(), set_at: now },
            ..e
        }
    }
}

/// The session after a key in answer to "really quit?": `y` ends it, `n`,
/// Escape and control-g take it back to work, any other key leaves the
/// question open.
pub open spec fn answered(e: EditorView, key: Key, now: u64) -> EditorView {
    let cleared = StatusView { text: Seq::empty(), set_at: now };
    match key {
        Key::Char('y') => EditorView { state: SessionState::Terminated, status: cleared, ..e },
        Key::Char('n') | Key::Esc | Key::Ctrl('g') => EditorView {
            state: SessionState::Running,
            status: cleared,
            ..e
        },
        _ => e,
    }
}

/// The session after a request to save: a document with a file name is to
/// be written; one without gets a prompt for the name first.
pub open spec fn save_requested(e: EditorView) -> (EditorView, Action) {
    if e.document.filename is None {
        (prompting(e, PromptPurpose::SaveAs), Action::Nothing)
    } else {
        (e, Action::Save)
    }
}

/// The session with a new, empty prompt that remembers cursor and viewport.
pub open spec fn prompting(e: EditorView, purpose: PromptPurpose) -> EditorView {
    EditorView {
        prompt: Some(
            PromptView { purpose, buffer: Seq::empty(), cursor: e.cursor, offset: e.offset },
        ),
        ..e
    }
}

/// The name by which messages call the document's file.
pub open spec fn file_label(filename: Option<Seq<char>>) -> Seq<char> {
    match filename {
        Some(name) => name,
        None => "file"@,
    }
}

/// The session after the document's text went to its file, or failed to: a
/// written document has no unsaved changes; the message says which it was.
pub open spec fn saved(e: EditorView, written: bool, now: u64) -> EditorView {
    if written {
        EditorView {
            document: DocumentView { dirty: false, ..e.document },
            status: StatusView {
                text: "Successfully saved "@ + file_label(e.document.filename),
                set_at: now,
            },
            ..e
        }
    } else {
        EditorView {
            status: StatusView {
                text: "ERROR: Failed to save "@ + file_label(e.document.filename),
                set_at: now,
            },
            ..e
        }
    }
}

/// The session while `p` is being typed: a search takes the cursor to the
/// first place where the text typed so far is found, if there is one.
pub open spec fn typing(e: EditorView, p: PromptView) -> EditorView {
    let cursor = match p.purpose {
        PromptPurpose::Search => match found_in(
            e.document.rows,
            p.buffer,
            e.document.tab_width,
        ) {
            Some(at) => at,
            None => e.cursor,
        },
        PromptPurpose::SaveAs => e.cursor,
    };
    EditorView { cursor, prompt: Some(p), ..e }
}

/// The session after the prompt `p` ended with `entry`, which is empty where
/// nothing was typed or the prompt was given up.
///
/// A name to save as becomes the document's file name, and the document is
/// to be written; without a name the save is off. A search ends at the first
/// place where the entry is found; where it is not found the cursor goes
/// back to where it was, and without an entry so does the viewport.
pub open spec fn finished(e: EditorView, p: PromptView, entry: Seq<char>, now: u64) -> (
    EditorView,
    Action,
) {
    let closed = EditorView {
        prompt: None,
        status: StatusView { text: Seq::empty(), set_at: now },
        ..e
    };
    match p.purpose {
        PromptPurpose::SaveAs => {
            if entry.len() == 0 {
                (
                    EditorView {
                        status: StatusView { text: "Save aborted."@, set_at: now },
                        ..closed
                    },
                    Action::Nothing,
                )
            } else {
                (
                    EditorView {
                        document: DocumentView { filename: Some(entry), ..e.document },
                        ..closed
                    },
                    Action::Save,
                )
            }
        },
        PromptPurpose::Search => {
            if entry.len() == 0 {
                (EditorView { cursor: p.cursor, offset: p.offset, ..closed }, Action::Nothing)
            } else {
                match found_in(e.document.rows, entry, e.document.tab_width) {
                    Some(at) => (EditorView { cursor: at, ..closed }, Action::Nothing),
                    None => (
                        EditorView {
                            cursor: p.cursor,
                            status: StatusView { text: "Not found: "@ + entry, set_at: now },
                            ..closed
                        },
                        Action::Nothing,
                    ),
                }
            }
        },
    }
}

/// The session after a key while the prompt `p` is up: Enter ends the prompt
/// with what was typed, Escape and control-g with nothing; a character goes
/// to the end of the line, Backspace takes the last one away, and any other
/// key is passed over.
pub open spec fn prompt_keyed(e: EditorView, p: PromptView, key: Key, now: u64) -> (
    EditorView,
    Action,
) {
    match key {
        Key::Char('\n') => finished(e, p, p.buffer, now),
        Key::Esc | Key::Ctrl('g') => finished(e, p, Seq::empty(), now),
        Key::Char(c) => (typing(e, PromptView { buffer: p.buffer.push(c), ..p }), Action::Nothing),
        Key::Backspace => (
            typing(
                e,
                PromptView {
                    buffer: if p.buffer.len() > 0 { p.buffer.drop_last() } else { p.buffer },
                    ..p
                },
            ),
            Action::Nothing,
        ),
        _ => (typing(e, p), Action::Nothing),
    }
}

/// The session after a key while the document is being edited: control-q
/// asks to quit, control-w to save, control-s brings up the search prompt; a
/// character is typed, Backspace and Delete delete; any other key moves the
/// cursor, or does nothing.
pub open spec fn edit_keyed(e: EditorView, key: Key, now: u64) -> (EditorView, Action) {
    match key {
        Key::Ctrl('q') => (quit_requested(e, now), Action::Nothing),
        Key::Ctrl('w') => save_requested(e),
        Key::Ctrl('s') => (prompting(e, PromptPurpose::Search), Action::Nothing),
        Key::Char(c) => (typed(e, c), Action::Nothing),
        Key::Backspace => (backspaced(e), Action::Nothing),
        Key::Delete => (deleted(e), Action::Nothing),
        _ => (
            EditorView {
                cursor: moved(key, e.cursor, e.document, viewport_height(e.size)),
                ..e
            },
            Action::Nothing,
        ),
    }
}

/// The session after a key, and what the program has to do then. A session
/// that is over stays as it is; one that waits for the answer to "really
/// quit?" takes the key as the answer; else the key goes to the prompt, if
/// one is up, or to the document, and the viewport follows the cursor.
pub open spec fn keyed(e: EditorView, key: Key, now: u64) -> (EditorView, Action) {
    match e.state {
        SessionState::Terminated => (e, Action::Nothing),
        SessionState::QuitPending => (answered(e, key, now), Action::Nothing),
        SessionState::Running => {
            let next = match e.prompt {
                Some(p) => prompt_keyed(e, p, key, now),
                None => edit_keyed(e, key, now),
            };
            (scrolled_to_cursor(next.0), next.1)
        },
    }
}

/// The session at its start.
pub open spec fn started(config: Config, size: Size, startup: Startup, now: u64) -> EditorView {
    let help = "Help: Ctrl-s to search | Ctrl-w to save | Ctrl-q to exit"@;
    EditorView {
        state: SessionState::Running,
        size,
        cursor: Position { x: 0, y: 0 },
        offset: Position { x: 0, y: 0 },
        document: match startup {
            Startup::Opened { filename, contents } => DocumentView {
                rows: lines_of(contents@),
                filename: Some(filename@),
                dirty: false,
                tab_width: config.tab_width,
            },
            _ => empty_document(config.tab_width),
        },
        status: StatusView {
            text: match startup {
                Startup::Unreadable { filename } => "ERROR: Failed to open file "@ + filename@,
                _ => help,
            },
            set_at: now,
        },
        message_time: config.message_time,
        prompt: None,
    }
}

/// What the message bar asks of the user, if anything.
pub open spec fn question(e: EditorView) -> Option<Seq<char>> {
    if e.state == SessionState::QuitPending {
        Some("Unsaved changes remaining. Really Quit? y or n: "@)
    } else {
        match e.prompt {
            Some(p) => Some(label(p.purpose) + p.buffer),
            None => None,
        }
    }
}

/// The text of the message bar at `now`: the question that is open, or else
/// the status message while it is fresh; no more of it than fits.
pub open spec fn message_bar(e: EditorView, now: u64) -> Seq<char> {
    let text = match question(e) {
        Some(q) => q,
        None => if fresh(e.status.set_at, now, e.message_time) {
            e.status.text
        } else {
            Seq::empty()
        },
    };
    truncated(text, e.size.width as nat)
}

/// The text of screen row `i`: the document row that the viewport shows
/// there, from the viewport's first column on; a tilde where the document
/// has ended; the welcome line a third of the way down an empty document.
pub open spec fn screen_row(e: EditorView, i: int) -> Seq<char> {
    let rows = e.document.rows;
    if i + e.offset.y < rows.len() {
        rendered(
            rows[i + e.offset.y],
            e.offset.x as int,
            e.offset.x.saturating_add(e.size.width as usize) as int,
            e.document.tab_width,
        )
    } else if rows.len() == 0 && i == e.size.height / 3 {
        welcome(e.size.width as usize)
    } else {
        "~"@
    }
}

/// Where the cursor shows on screen, counted from 0: behind an open
/// question in the message bar, and else where it stands in the viewport.
pub open spec fn screen_cursor(e: EditorView) -> Position {
    match question(e) {
        Some(q) => Position {
            x: if q.len() <= usize::MAX { q.len() as usize } else { usize::MAX },
            y: e.size.height.saturating_sub(1) as usize,
        },
        None => Position {
            x: e.cursor.x.saturating_sub(e.offset.x),
            y: e.cursor.y.saturating_sub(e.offset.y),
        },
    }
}

/// One thing for the terminal to do when the screen is drawn.
#[derive(Debug, PartialEq, Eq)]
pub enum Draw {
    HideCursor,
    ShowCursor,
    /// Put the cursor at a cell of the screen, counted from 0.
    MoveTo(Position),
    /// Clear the line that the cursor is on.
    ClearLine,
    /// Write a text, then go to the start of the next line.
    Line(String),
    /// Write a text.
    Text(String),
    /// Take the colours of the status bar.
    BarColors,
    /// Take the terminal's own colours again.
    ResetColors,
    /// Send what was written.
    Flush,
}

/// What a `Draw` is.
pub enum DrawView {
    HideCursor,
    ShowCursor,
    MoveTo(Position),
    ClearLine,
    Line(Seq<char>),
    Text(Seq<char>),
    BarColors,
    ResetColors,
    Flush,
}

impl View for Draw {
    type V = DrawView;

    open spec fn view(&self) -> DrawView {
        match *self {
            Draw::HideCursor => DrawView::HideCursor,
            Draw::ShowCursor => DrawView::ShowCursor,
            Draw::MoveTo(cell) => DrawView::MoveTo(cell),
            Draw::ClearLine => DrawView::ClearLine,
            Draw::Line(text) => DrawView::Line(text@),
            Draw::Text(text) => DrawView::Text(text@),
            Draw::BarColors => DrawView::BarColors,
            Draw::ResetColors => DrawView::ResetColors,
            Draw::Flush => DrawView::Flush,
        }
    }
}

/// What the steps of drawing are.
pub open spec fn views(steps: Seq<Draw>) -> Seq<DrawView> {
    steps.map_values(|step: Draw| step@)
}

/// The steps that draw the first `count` rows of the screen: each line is
/// cleared and then written.
pub open spec fn rows_drawn(e: EditorView, count: int) -> Seq<DrawView>
    decreases count,
{
    if count <= 0 {
        Seq::empty()
    } else {
        rows_drawn(e, count - 1).push(DrawView::ClearLine).push(
            DrawView::Line(screen_row(e, count - 1)),
        )
    }
}

/// The steps that draw the two bars: the status bar in its colours, then the
/// message bar on a cleared line.
pub open spec fn bars_drawn(e: EditorView, now: u64) -> Seq<DrawView> {
    seq![
        DrawView::BarColors,
        DrawView::Line(
            status_bar(
                e.document.filename,
                e.document.dirty,
                e.document.rows.len() as usize,
                e.cursor.y,
                e.size.width as usize,
            ),
        ),
        DrawView::ResetColors,
        DrawView::ClearLine,
        DrawView::Text(message_bar(e, now)),
    ]
}

/// The steps that draw the screen at `now`, with the cursor hidden while
/// they go on. A session at work shows its rows from the top, the two bars,
/// and the cursor in its place. A session that is over says goodbye on the
/// last line.
pub open spec fn refreshed(e: EditorView, now: u64) -> Seq<DrawView> {
    if e.state == SessionState::Terminated {
        seq![
            DrawView::HideCursor,
            DrawView::MoveTo(Position { x: 0, y: e.size.height.saturating_sub(1) as usize }),
            DrawView::ClearLine,
            DrawView::Line("Goodbye!"@),
            DrawView::ShowCursor,
            DrawView::Flush,
        ]
    } else {
        seq![DrawView::HideCursor, DrawView::MoveTo(Position { x: 0, y: 0 })] + rows_drawn(
            e,
            viewport_height(e.size) as int,
        ) + bars_drawn(e, now) + seq![
            DrawView::MoveTo(screen_cursor(e)),
            DrawView::ShowCursor,
            DrawView::Flush,
        ]
    }
}

/// An editing session.
pub struct Editor {
    state: SessionState,
    size: Size,
    cursor_position: Position,
    document: Document,
    offset: Position,
    status_message: StatusMessage,
    message_time: u64,
    prompt: Option<Prompt>,
}

impl View for Editor {
    type V = EditorView;

    closed spec fn view(&self) -> EditorView {
        EditorView {
            state: self.state,
            size: self.size,
            cursor: self.cursor_position,
            offset: self.offset,
            document: self.document@,
            status: self.status_message@,
            message_time: self.message_time,
            prompt: match self.prompt {
                Some(p) => Some(p@),
                None => None,
            },
        }
    }
}

impl Editor {
    /// The session's document is well formed.
    pub closed spec fn wf(&self) -> bool {
        self.document.wf()
    }

    /// A new session on a screen of `size`, with the document that the
    /// program found, and a message that tells the keys or that the file
    /// could not be read. A tab takes `TAB_WIDTH` columns, and a message
    /// shows for `MESSAGE_TIME`.
    pub fn default(size: Size, startup: Startup, now: u64) -> (editor: Editor)
        ensures
            editor.wf(),
            editor@ == started(
                Config { tab_width: TAB_WIDTH as usize, message_time: MESSAGE_TIME },
                size,
                startup,
                now,
            ),
    {
        Editor::with_config(Config::default(), size, startup, now)
    }

    /// A new session set up with `config`, on a screen of `size`, with the
    /// document that the program found, and a message that tells the keys or
    /// that the file could not be read.
    pub fn with_config(config: Config, size: Size, startup: Startup, now: u64) -> (editor: Editor)
        ensures
            editor.wf(),
            editor@ == started(config, size, startup, now),
    {
        let mut status = String::from_str(
            "Help: Ctrl-s to search | Ctrl-w to save | Ctrl-q to exit",
        );
        let document = match startup {
            Startup::NoFile => Document::with_tab_width(config.tab_width),
            Startup::Opened { filename, contents } => Document::open_with_tab_width(
                filename.as_str(),
                contents.as_str(),
                config.tab_width,
            ),
            Startup::Unreadable { filename } => {
                status = String::from_str("ERROR: Failed to open file ");
                status.append(filename.as_str());
                Document::with_tab_width(config.tab_width)
            },
        };
        Editor {
            state: SessionState::Running,
            size,
            cursor_position: Position::default(),
            document,
            offset: Position::default(),
            status_message: StatusMessage::new(status, now),
            message_time: config.message_time,
            prompt: None,
        }
    }

    /// Takes one key, and says what the program has to do before it draws the
    /// screen again.
    pub fn process_keypress(&mut self, key: Key, now: u64) -> (action: Action)
        requires
            old(self).wf(),
        ensures
            final(self).wf(),
            (final(self)@, action) == keyed(old(self)@, key, now),
    {
        match self.state {
            SessionState::Terminated => Action::Nothing,
            SessionState::QuitPending => {
                self.prompt_bool(key, now);
                Action::Nothing
            },
            SessionState::Running => {
                let action = if self.prompt.is_some() {
                    self.prompt_string(key, now)
                } else {
                    self.edit(key, now)
                };
                self.scroll();
                action
            },
        }
    }

    /// Takes the news of how writing the document went.
    pub fn save_finished(&mut self, written: bool, now: u64)
        requires
            old(self).wf(),
        ensures
            final(self).wf(),
            final(self)@ == saved(old(self)@, written, now),
    {
        let mut text = String::from_str(
            if written { "Successfully saved " } else { "ERROR: Failed to save " },
        );
        match self.document.filename() {
            Some(name) => text.append(name.as_str()),
            None => text.append("file"),
        }
        if written {
            self.document.saved();
        }
        self.status_message = StatusMessage::new(text, now);
    }

    /// Puts the session on a screen of another size.
    pub fn resize(&mut self, size: Size)
        requires
            old(self).wf(),
        ensures
            final(self).wf(),
            final(self)@ == (EditorView { size, ..old(self)@ }),
    {
        self.size = size;
    }

    /// Where the session stands.
    pub fn state(&self) -> (state: SessionState)
        ensures
            state == self@.state,
    {
        self.state
    }

    /// Whether the session is over.
    pub fn should_quit(&self) -> (quit: bool)
        ensures
            quit == (self@.state == SessionState::Terminated),
    {
        match self.state {
            SessionState::Terminated => true,
            _ => false,
        }
    }

    /// The document.
    pub fn document(&self) -> (document: &Document)
        ensures
            document@ == self@.document,
            self.wf() ==> document.wf(),
    {
        &self.document
    }

    /// Where the cursor stands in the document.
    pub fn cursor_position(&self) -> (cursor: Position)
        ensures
            cursor == self@.cursor,
    {
        self.cursor_position
    }

    /// The first row and column that the viewport shows.
    pub fn offset(&self) -> (offset: Position)
        ensures
            offset == self@.offset,
    {
        self.offset
    }

    fn edit(&mut self, key: Key, now: u64) -> (action: Action)
        requires
            old(self).wf(),
        ensures
            final(self).wf(),
            (final(self)@, action) == edit_keyed(old(self)@, key, now),
    {
        match key {
            Key::Ctrl('q') => {
                self.request_quit(now);
                Action::Nothing
            },
            Key::Ctrl('w') => self.save(),
            Key::Ctrl('s') => {
                self.find();
                Action::Nothing
            },
            Key::Char(c) => {
                self.insert_char(c);
                Action::Nothing
            },
            Key::Backspace => {
                self.del_char_backward();
                Action::Nothing
            },
            Key::Delete => {
                self.del_char_forward();
                Action::Nothing
            },
            _ => {
                self.move_cursor(key);
                Action::Nothing
            },
        }
    }

    fn request_quit(&mut self, now: u64)
        requires
            old(self).wf(),
        ensures
            final(self).wf(),
            final(self)@ == quit_requested(old(self)@, now),
    {
        if self.document.is_dirty() {
            self.state = SessionState::QuitPending;
        } else {
            self.state = SessionState::Terminated;
            self.status_message = StatusMessage::new(String::new(), now);
        }
    }

    fn save(&mut self) -> (action: Action)
        requires
            old(self).wf(),
        ensures
            final(self).wf(),
            (final(self)@, action) == save_requested(old(self)@),
    {
        if self.document.filename().is_none() {
            self.open_prompt(PromptPurpose::SaveAs);
            Action::Nothing
        } else {
            Action::Save
        }
    }

    fn find(&mut self)
        requires
            old(self).wf(),
        ensures
            final(self).wf(),
            final(self)@ == prompting(old(self)@, PromptPurpose::Search),
    {
        self.open_prompt(PromptPurpose::Search);
    }

    fn open_prompt(&mut self, purpose: PromptPurpose)
        requires
            old(self).wf(),
        ensures
            final(self).wf(),
            final(self)@ == prompting(old(self)@, purpose),
    {
        self.prompt = Some(
            Prompt {
                purpose,
                buffer: String::new(),
                cursor: self.cursor_position,
                offset: self.offset,
            },
        );
    }

    fn insert_char(&mut self, c: char)
        requires
            old(self).wf(),
        ensures
            final(self).wf(),
            final(self)@ == typed(old(self)@, c),
    {
        if c == '\n' {
            self.document.insert_newline(&self.cursor_position);
            self.cursor_position.y = self.cursor_position.y.saturating_add(1);
            self.cursor_position.x = 0;
        } else {
            let from = self.document.snap(&self.cursor_position);
            self.document.insert(&self.cursor_position, c);
            let width = if c == '\t' {
                self.document.tab_width().saturating_sub(1).saturating_add(1)
            } else {
                1
            };
            self.cursor_position.x = from.saturating_add(width);
        }
    }

    fn del_char_backward(&mut self)
        requires
            old(self).wf(),
        ensures
            final(self).wf(),
            final(self)@ == backspaced(old(self)@),
    {
        let above = match self.document.row(self.cursor_position.y.saturating_sub(1)) {
            Some(row) => row.len(),
            None => 0,
        };
        let before = self.document.column_before(&self.cursor_position);
        self.document.del_char_backward(&self.cursor_position);
        if self.cursor_position.x != 0 {
            self.cursor_position.x = before;
        } else if self.cursor_position.y > 0 {
            self.cursor_position.x = above;
            self.cursor_position.y = self.cursor_position.y - 1;
        }
    }

    fn del_char_forward(&mut self)
        requires
            old(self).wf(),
        ensures
            final(self).wf(),
            final(self)@ == deleted(old(self)@),
    {
        self.document.del_char_forward(&self.cursor_position);
    }

    fn scroll(&mut self)
        requires
            old(self).wf(),
        ensures
            final(self).wf(),
            final(self)@ == scrolled_to_cursor(old(self)@),
    {
        let width = self.size.width as usize;
        let height = self.size.height.saturating_sub(BAR_ROWS) as usize;
        self.offset = scroll(&self.cursor_position, width, height, &self.offset);
    }

    fn move_cursor(&mut self, key: Key)
        requires
            old(self).wf(),
        ensures
            final(self).wf(),
            final(self)@ == (EditorView {
                cursor: moved(
                    key,
                    old(self)@.cursor,
                    old(self)@.document,
                    viewport_height(old(self)@.size),
                ),
                ..old(self)@
            }),
    {
        let height = self.size.height.saturating_sub(BAR_ROWS) as usize;
        self.cursor_position = move_cursor(key, self.cursor_position, &self.document, height);
    }

    fn prompt_string(&mut self, key: Key, now: u64) -> (action: Action)
        requires
            old(self).wf(),
            old(self)@.prompt is Some,
        ensures
            final(self).wf(),
            (final(self)@, action) == prompt_keyed(
                old(self)@,
                old(self)@.prompt->0,
                key,
                now,
            ),
    {
        let mut prompt = self.prompt.take().unwrap();
        match key {
            Key::Char('\n') => self.close_prompt(prompt, false, now),
            Key::Esc | Key::Ctrl('g') => self.close_prompt(prompt, true, now),
            Key::Char(c) => {
                prompt.buffer.push(c);
                self.keep_prompt(prompt);
                Action::Nothing
            },
            Key::Backspace => {
                let typed = prompt.buffer.as_str().unicode_len();
                if typed > 0 {
                    prompt.buffer = String::from_str(
                        prompt.buffer.as_str().substring_char(0, typed - 1),
                    );
                }
                self.keep_prompt(prompt);
                Action::Nothing
            },
            _ => {
                self.keep_prompt(prompt);
                Action::Nothing
            },
        }
    }

    fn keep_prompt(&mut self, prompt: Prompt)
        requires
            old(self).wf(),
        ensures
            final(self).wf(),
            final(self)@ == typing(old(self)@, prompt@),
    {
        match prompt.purpose {
            PromptPurpose::Search => {
                if let Some(position) = self.document.find(prompt.buffer.as_str()) {
                    self.cursor_position = position;
                }
            },
            PromptPurpose::SaveAs => {},
        }
        self.prompt = Some(prompt);
    }

    fn close_prompt(&mut self, prompt: Prompt, given_up: bool, now: u64) -> (action: Action)
        requires
            old(self).wf(),
        ensures
            final(self).wf(),
            (final(self)@, action) == finished(
                old(self)@,
                prompt@,
                if given_up { Seq::empty() } else { prompt@.buffer },
                now,
            ),
    {
        self.prompt = None;
        self.status_message = StatusMessage::new(String::new(), now);
        let empty = given_up || prompt.buffer.as_str().unicode_len() == 0;
        match prompt.purpose {
            PromptPurpose::SaveAs => {
                if empty {
                    self.status_message = StatusMessage::new(
                        String::from_str("Save aborted."),
                        now,
                    );
                    Action::Nothing
                } else {
                    self.document.set_filename(prompt.buffer);
                    Action::Save
                }
            },
            PromptPurpose::Search => {
                if empty {
                    self.cursor_position = prompt.cursor;
                    self.offset = prompt.offset;
                } else {
                    match self.document.find(prompt.buffer.as_str()) {
                        Some(position) => {
                            self.cursor_position = position;
                        },
                        None => {
                            self.cursor_position = prompt.cursor;
                            let mut text = String::from_str("Not found: ");
                            text.append(prompt.buffer.as_str());
                            self.status_message = StatusMessage::new(text, now);
                        },
                    }
                }
                Action::Nothing
            },
        }
    }

    fn prompt_bool(&mut self, key: Key, now: u64)
        requires
            old(self).wf(),
        ensures
            final(self).wf(),
            final(self)@ == answered(old(self)@, key, now),
    {
        match key {
            Key::Char('y') => {
                self.state = SessionState::Terminated;
                self.status_message = StatusMessage::new(String::new(), now);
            },
            Key::Char('n') | Key::Esc | Key::Ctrl('g') => {
                self.state = SessionState::Running;
                self.status_message = StatusMessage::new(String::new(), now);
            },
            _ => {},
        }
    }

    /// The part of `row` that the viewport shows.
    pub fn draw_row(&self, row: &Row) -> (text: String)
        requires
            row.wf(),
        ensures
            text@ == rendered(
                row@,
                self@.offset.x as int,
                self@.offset.x.saturating_add(self@.size.width as usize) as int,
                row.tab_width(),
            ),
    {
        let start = self.offset.x;
        let end = start.saturating_add(self.size.width as usize);
        row.render(start, end)
    }

    /// The welcome line.
    pub fn draw_welcome_message(&self) -> (text: String)
        ensures
            text@ == welcome(self@.size.width as usize),
    {
        welcome_text(self.size.width as usize)
    }

    /// The rows of the screen that show the document, top to bottom.
    pub fn draw_rows(&self) -> (rows: Vec<String>)
        requires
            self.wf(),
        ensures
            rows@.len() == viewport_height(self@.size),
            forall|i: int| 0 <= i < rows@.len() ==> (#[trigger] rows@[i])@ == screen_row(self@, i),
    {
        let height = self.size.height.saturating_sub(BAR_ROWS);
        let mut rows: Vec<String> = Vec::new();
        let mut i: u16 = 0;
        while i < height
            invariant
                self.wf(),
                i <= height,
                height == self.size.height.saturating_sub(BAR_ROWS),
                rows@.len() == i,
                forall|k: int| 0 <= k < i ==> (#[trigger] rows@[k])@ == screen_row(self@, k),
            decreases height - i,
        {
            let shown = match self.offset.y.checked_add(i as usize) {
                Some(y) => self.document.row(y),
                None => None,
            };
            let text = match shown {
                Some(row) => self.draw_row(row),
                None => {
                    if self.document.is_empty() && i == self.size.height / 3 {
                        self.draw_welcome_message()
                    } else {
                        String::from_str("~")
                    }
                },
            };
            proof {
                self.document.lemma_wf();
            }
            rows.push(text);
            i += 1;
        }
        rows
    }

    /// The status bar.
    pub fn draw_status_bar(&self) -> (text: String)
        ensures
            text@ == status_bar(
                self@.document.filename,
                self@.document.dirty,
                self@.document.rows.len() as usize,
                self@.cursor.y,
                self@.size.width as usize,
            ),
    {
        status_bar_text(
            self.document.filename(),
            self.document.is_dirty(),
            self.document.len(),
            self.cursor_position.y,
            self.size.width as usize,
        )
    }

    /// The message bar at `now`.
    pub fn draw_message_bar(&self, now: u64) -> (text: String)
        ensures
            text@ == message_bar(self@, now),
    {
        match self.asked() {
            Some(q) => truncate(q.as_str(), self.size.width as usize),
            None => truncate(
                self.status_message.text_at(now, self.message_time),
                self.size.width as usize,
            ),
        }
    }

    /// What the message bar asks of the user, if anything.
    fn asked(&self) -> (text: Option<String>)
        ensures
            match text {
                Some(q) => question(self@) == Some(q@),
                None => question(self@) is None,
            },
    {
        match self.state {
            SessionState::QuitPending => Some(
                String::from_str("Unsaved changes remaining. Really Quit? y or n: "),
            ),
            _ => match &self.prompt {
                Some(prompt) => {
                    let mut text = String::from_str(
                        match prompt.purpose {
                            PromptPurpose::SaveAs => "Save as: ",
                            PromptPurpose::Search => "Search: ",
                        },
                    );
                    text.append(prompt.buffer.as_str());
                    Some(text)
                },
                None => None,
            },
        }
    }

    /// Where the cursor shows on screen, counted from 0.
    pub fn screen_cursor(&self) -> (cell: Position)
        ensures
            cell == screen_cursor(self@),
    {
        match self.asked() {
            Some(q) => Position {
                x: q.as_str().unicode_len(),
                y: self.size.height.saturating_sub(1) as usize,
            },
            None => Position {
                x: self.cursor_position.x.saturating_sub(self.offset.x),
                y: self.cursor_position.y.saturating_sub(self.offset.y),
            },
        }
    }

    /// The steps that draw the screen at `now`.
    pub fn refresh_screen(&self, now: u64) -> (steps: Vec<Draw>)
        requires
            self.wf(),
        ensures
            views(steps@) == refreshed(self@, now),
    {
        let mut steps: Vec<Draw> = Vec::new();
        assert(views(steps@) == Seq::<DrawView>::empty());
        add_step(&mut steps, Draw::HideCursor);
        if self.should_quit() {
            let bottom = self.size.height.saturating_sub(1) as usize;
            add_step(&mut steps, Draw::MoveTo(Position { x: 0, y: bottom }));
            add_step(&mut steps, Draw::ClearLine);
            add_step(&mut steps, Draw::Line(String::from_str("Goodbye!")));
            add_step(&mut steps, Draw::ShowCursor);
            add_step(&mut steps, Draw::Flush);
            assert(views(steps@) == refreshed(self@, now));
            return steps;
        }
        add_step(&mut steps, Draw::MoveTo(Position { x: 0, y: 0 }));
        let ghost top = views(steps@);
        let rows = self.draw_rows();
        assert(views(steps@) == top + rows_drawn(self@, 0));
        for row in it: rows
            invariant
                it.seq().len() == viewport_height(self@.size),
                forall|k: int|
                    0 <= k < it.seq().len() ==> (#[trigger] it.seq()[k])@ == screen_row(self@, k),
                views(steps@) == top + rows_drawn(self@, it.index()),
        {
            add_step(&mut steps, Draw::ClearLine);
            add_step(&mut steps, Draw::Line(row));
            assert(views(steps@) == top + rows_drawn(self@, it.index() + 1));
        }
        let ghost shown = views(steps@);
        add_step(&mut steps, Draw::BarColors);
        add_step(&mut steps, Draw::Line(self.draw_status_bar()));
        add_step(&mut steps, Draw::ResetColors);
        add_step(&mut steps, Draw::ClearLine);
        add_step(&mut steps, Draw::Text(self.draw_message_bar(now)));
        assert(views(steps@) == shown + bars_drawn(self@, now));
        add_step(&mut steps, Draw::MoveTo(self.screen_cursor()));
        add_step(&mut steps, Draw::ShowCursor);
        add_step(&mut steps, Draw::Flush);
        assert(views(steps@) == refreshed(self@, now));
        steps
    }
}

/// Puts one more step at the end.
fn add_step(steps: &mut Vec<Draw>, step: Draw)
    ensures
        views(final(steps)@) == views(old(steps)@).push(step@),
{
    steps.push(step);
    assert(views(steps@) == views(old(steps)@).push(step@));
}

/// After every key that a session at work takes, the cursor lies inside the
/// viewport, as far as the viewport has any room.
pub proof fn lemma_keyed_shows_cursor(e: EditorView, key: Key, now: u64)
    requires
        e.state == SessionState::Running,
    ensures
        ({
            let next = keyed(e, key, now).0;
            &&& next.size.width > 0 ==> next.offset.x <= next.cursor.x < next.offset.x
                + next.size.width
            &&& viewport_height(next.size) > 0 ==> next.offset.y <= next.cursor.y < next.offset.y
                + viewport_height(next.size)
        }),
{
    let next = match e.prompt {
        Some(p) => prompt_keyed(e, p, key, now),
        None => edit_keyed(e, key, now),
    }.0;
    assert(next.size == e.size);
    lemma_scrolled_shows_cursor(
        next.cursor,
        next.size.width as usize,
        viewport_height(next.size),
        next.offset,
    );
}

/// A quit request ends a session whose document has no unsaved changes. With
/// unsaved changes it asks first: the answer `y` ends the session, and the
/// answer `n` takes it back to work with document, cursor and viewport as
/// they were.
pub proof fn lemma_quit_asks_first(e: EditorView, now: u64, later: u64)
    requires
        e.state == SessionState::Running,
        e.prompt is None,
    ensures
        !e.document.dirty ==> keyed(e, Key::Ctrl('q'), now).0.state == SessionState::Terminated,
        e.document.dirty ==> ({
            let asked = keyed(e, Key::Ctrl('q'), now).0;
            let yes = keyed(asked, Key::Char('y'), later).0;
            let no = keyed(asked, Key::Char('n'), later).0;
            &&& asked.state == SessionState::QuitPending
            &&& yes.state == SessionState::Terminated
            &&& no.state == SessionState::Running
            &&& no.document == e.document
            &&& no.cursor == e.cursor
            &&& no.offset == asked.offset
        }),
{
}

} // verus!
