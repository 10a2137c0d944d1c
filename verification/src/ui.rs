//! What the user's input does to the editor: the keys of each mode, and the
//! commands of the command line.
//!
//! Nothing here reads a key or draws a cell. A caller hands over each event
//! as a plain value, and gets back what it has to do itself: reading a file
//! for the command `edit`.

use crate::editor::{Editor, EditorView, Mode};
use crate::terminal::{Position, Size};
use crate::util::Direction;
use vstd::prelude::*;
use vstd::string::*;
use vstd::utf8::*;

verus! {

/// A key, as far as the editor tells keys apart.
#[derive(Clone, Copy, Debug, PartialEq, Eq, Structural)]
pub enum Key {
    Char(char),
    Esc,
    Enter,
    Backspace,
    Other,
}

/// A key that was pressed.
#[derive(Clone, Copy, Debug, PartialEq, Eq, Structural)]
pub struct KeyPress {
    pub key: Key,
    /// Whether Control, and no other modifier, was held.
    pub control: bool,
}

/// What the terminal reports.
#[derive(Clone, Copy, Debug, PartialEq, Eq, Structural)]
pub enum Event {
    Key(KeyPress),
    /// The canvas has a new size.
    Resize(Size),
    Other,
}

/// What is left for the caller to do after an event.
#[derive(Debug, PartialEq, Eq)]
pub enum Action {
    Nothing,
    /// Read the file at this path and show it with `UI::edit`.
    Edit(String),
}

/// A command of the command line.
#[derive(Clone, Copy, Debug, PartialEq, Eq, Structural)]
pub enum Command {
    Edit,
    Quit,
    Split,
    VerticalSplit,
    Redraw,
    TabOpen,
    TabClose,
    TabNext,
    TabPrevious,
    Unrecognized,
}

/// The editor with what the user is typing.
pub struct UI {
    editor: Editor,
    command_line: String,
    quit: bool,
}

/// A `UI`, as a value of the model.
pub struct UIView {
    pub editor: EditorView,
    pub command_line: Seq<char>,
    pub quit: bool,
}

/// What is left for the caller to do, as a value of the model.
pub enum ActionView {
    Nothing,
    Edit(Seq<char>),
}

impl View for Action {
    type V = ActionView;

    open spec fn view(&self) -> ActionView {
        match self {
            Action::Nothing => ActionView::Nothing,
            Action::Edit(path) => ActionView::Edit(path@),
        }
    }
}

impl View for UI {
    type V = UIView;

    closed spec fn view(&self) -> UIView {
        UIView { editor: self.editor@, command_line: self.command_line@, quit: self.quit }
    }
}

/// `String::push` appends the character to the string.
pub assume_specification[ String::push ](text: &mut String, character: char)
    ensures
        final(text)@ == old(text)@.push(character),
;

/// `String::pop` takes the last character off the string and returns it;
/// from an empty string it takes nothing and returns `None`.
pub assume_specification[ String::pop ](text: &mut String) -> (last: Option<char>)
    ensures
        old(text)@.len() == 0 ==> last is None && final(text)@ == old(text)@,
        old(text)@.len() > 0 ==> last == Some(old(text)@.last()) && final(text)@ == old(
            text,
        )@.drop_last(),
;

/// `String::clear` leaves the string empty.
pub assume_specification[ String::clear ](text: &mut String)
    ensures
        final(text)@ == Seq::<char>::empty(),
;

/// Whether a character separates the words of a command line: the
/// characters with the Unicode property `White_Space`.
pub open spec fn is_space(character: char) -> bool {
    let code = character as u32;
    ||| 0x09 <= code <= 0x0d
    ||| code == 0x20
    ||| code == 0x85
    ||| code == 0xa0
    ||| code == 0x1680
    ||| 0x2000 <= code <= 0x200a
    ||| code == 0x2028
    ||| code == 0x2029
    ||| code == 0x202f
    ||| code == 0x205f
    ||| code == 0x3000
}

/// The first place at or behind `from` that holds no space: the end of the
/// line where only spaces follow.
pub open spec fn skip_spaces(line: Seq<char>, from: int) -> int
    decreases line.len() - from,
{
    if 0 <= from < line.len() && is_space(line[from]) {
        skip_spaces(line, from + 1)
    } else {
        from
    }
}

/// The first place at or behind `from` that holds a space: the end of the
/// line where none follows.
pub open spec fn skip_word(line: Seq<char>, from: int) -> int
    decreases line.len() - from,
{
    if 0 <= from < line.len() && !is_space(line[from]) {
        skip_word(line, from + 1)
    } else {
        from
    }
}

/// Where the first word at or behind `from` ends.
pub open spec fn word_end(line: Seq<char>, from: int) -> int {
    skip_word(line, skip_spaces(line, from))
}

/// The first word at or behind `from`: a longest run of characters that
/// are no spaces.
pub open spec fn word_at(line: Seq<char>, from: int) -> Option<Seq<char>> {
    let start = skip_spaces(line, from);
    if start < line.len() {
        Some(line.subrange(start, skip_word(line, start)))
    } else {
        None
    }
}

/// The command that a word names.
pub open spec fn command_named(word: Seq<char>) -> Command {
    if word == "e"@ || word == "edit"@ {
        Command::Edit
    } else if word == "q"@ || word == "quit"@ {
        Command::Quit
    } else if word == "sp"@ || word == "split"@ {
        Command::Split
    } else if word == "vsp"@ || word == "vsplit"@ {
        Command::VerticalSplit
    } else if word == "redraw"@ {
        Command::Redraw
    } else if word == "tabopen"@ {
        Command::TabOpen
    } else if word == "tabclose"@ {
        Command::TabClose
    } else if word == "tabnext"@ {
        Command::TabNext
    } else if word == "tabprev"@ || word == "tabprevious"@ {
        Command::TabPrevious
    } else {
        Command::Unrecognized
    }
}

/// The number of decimal digits of `number`.
pub open spec fn digits(number: nat) -> nat
    decreases number,
{
    if number < 10 {
        1
    } else {
        1 + digits(number / 10)
    }
}

/// The direction that one of the keys `h`, `j`, `k`, `l` stands for.
pub open spec fn direction_of(character: char) -> Option<Direction> {
    if character == 'h' {
        Some(Direction::Left)
    } else if character == 'j' {
        Some(Direction::Down)
    } else if character == 'k' {
        Some(Direction::Up)
    } else if character == 'l' {
        Some(Direction::Right)
    } else {
        None
    }
}

impl UIView {
    /// The first word of the command line.
    pub open spec fn command_word(self) -> Option<Seq<char>> {
        word_at(self.command_line, 0)
    }

    /// The second word of the command line.
    pub open spec fn argument_word(self) -> Option<Seq<char>> {
        word_at(self.command_line, word_end(self.command_line, 0))
    }

    /// The state with another editor.
    pub open spec fn with_editor(self, editor: EditorView) -> UIView {
        UIView { editor, ..self }
    }

    /// The state with another mode.
    pub open spec fn with_mode(self, mode: Mode) -> UIView {
        self.with_editor(EditorView { mode, ..self.editor })
    }

    /// The state after the command line was run. An empty line, and `edit`
    /// without a path, do nothing; a word that names no command leaves a
    /// message.
    pub open spec fn after_command(self) -> UIView {
        match self.command_word() {
            None => self,
            Some(word) => match command_named(word) {
                Command::Edit => self,
                Command::Quit => UIView { quit: true, ..self },
                Command::Split => self.with_editor(self.editor.split_horizontally()),
                Command::VerticalSplit => self.with_editor(self.editor.split_vertically()),
                Command::Redraw => self.with_editor(self.editor.redrawn()),
                Command::TabOpen => self.with_editor(self.editor.tab_opened()),
                Command::TabClose => self.with_editor(self.editor.tab_closed()),
                Command::TabNext => self.with_editor(self.editor.tab_next()),
                Command::TabPrevious => self.with_editor(self.editor.tab_previous()),
                Command::Unrecognized => self.with_editor(
                    self.editor.with_message("Unrecognized command: "@ + word),
                ),
            },
        }
    }

    /// What running the command line leaves to the caller: for `edit` with a
    /// path, to read the file.
    pub open spec fn command_action(self) -> ActionView {
        match (self.command_word(), self.argument_word()) {
            (Some(word), Some(path)) => if command_named(word) == Command::Edit {
                ActionView::Edit(path)
            } else {
                ActionView::Nothing
            },
            _ => ActionView::Nothing,
        }
    }

    /// Whether running the command line opens a tab.
    pub open spec fn command_opens_tab(self) -> bool {
        match self.command_word() {
            Some(word) => command_named(word) == Command::TabOpen,
            None => false,
        }
    }

    /// Whether the key opens a tab in this state. A tab cannot be opened on
    /// a canvas without rows.
    pub open spec fn opens_tab(self, press: KeyPress) -> bool {
        match self.editor.mode {
            Mode::Normal => press.key == Key::Char('t') && press.control,
            Mode::CommandLine => press.key == Key::Enter && self.command_opens_tab(),
            _ => false,
        }
    }

    /// The state after a key in normal mode.
    pub open spec fn after_normal_key(self, press: KeyPress) -> UIView {
        match press.key {
            Key::Char(character) => if press.control && character == 'c' {
                UIView { quit: true, ..self }
            } else if press.control && character == 'w' {
                self.with_mode(Mode::Window)
            } else if press.control && character == 'q' {
                self.with_editor(self.editor.tab_closed())
            } else if press.control && character == 't' {
                self.with_editor(self.editor.tab_opened())
            } else if direction_of(character) is Some {
                self.with_editor(self.editor.cursor_moved(direction_of(character)->0))
            } else if character == 'H' {
                self.with_editor(self.editor.tab_previous())
            } else if character == 'L' {
                self.with_editor(self.editor.tab_next())
            } else if character == 'i' {
                self.with_mode(Mode::Insert)
            } else if character == ':' {
                self.with_mode(Mode::CommandLine)
            } else {
                self
            },
            _ => self,
        }
    }

    /// The state after a key in window mode.
    pub open spec fn after_window_key(self, press: KeyPress) -> UIView {
        match press.key {
            Key::Esc => self.with_mode(Mode::Normal),
            Key::Char(character) => if direction_of(character) is Some {
                self.with_editor(self.editor.focus_moved(direction_of(character)->0))
            } else if character == 's' {
                self.with_editor(self.editor.split_horizontally())
            } else if character == 'v' {
                self.with_editor(self.editor.split_vertically())
            } else if character == 'w' {
                self.with_editor(self.editor.focus_rotated_forward())
            } else if character == 'W' {
                self.with_editor(self.editor.focus_rotated_backward())
            } else {
                self
            },
            _ => self,
        }
    }

    /// The state after a key in insert mode.
    pub open spec fn after_insert_key(self, press: KeyPress) -> UIView {
        match press.key {
            Key::Esc => self.with_mode(Mode::Normal),
            Key::Char(character) => self.with_editor(
                self.editor.with_message("got '"@.push(character) + "'"@),
            ),
            _ => self,
        }
    }

    /// The state after a key in command line mode.
    pub open spec fn after_command_line_key(self, press: KeyPress) -> UIView {
        match press.key {
            Key::Esc => self.with_mode(Mode::Normal),
            Key::Char(character) => if press.control && character == 'c' {
                if self.command_line.len() == 0 {
                    self.with_mode(Mode::Normal)
                } else {
                    UIView { command_line: Seq::empty(), ..self }
                }
            } else {
                UIView { command_line: self.command_line.push(character), ..self }
            },
            Key::Backspace => UIView {
                command_line: if self.command_line.len() == 0 {
                    self.command_line
                } else {
                    self.command_line.drop_last()
                },
                ..self
            },
            Key::Enter => UIView {
                command_line: Seq::empty(),
                ..self.after_command()
            }.with_mode(Mode::Normal),
            Key::Other => self,
        }
    }

    /// The state after a key. In the modes that have no keys of their own,
    /// a key does nothing.
    pub open spec fn after_key(self, press: KeyPress) -> UIView {
        match self.editor.mode {
            Mode::Normal => self.after_normal_key(press),
            Mode::Window => self.after_window_key(press),
            Mode::Insert => self.after_insert_key(press),
            Mode::CommandLine => self.after_command_line_key(press),
            Mode::Visual => self,
            Mode::OperatorPending => self,
        }
    }

    /// What a key leaves to the caller: nothing, but for Enter on a command
    /// line that says `edit` and a path.
    pub open spec fn key_action(self, press: KeyPress) -> ActionView {
        if self.editor.mode == Mode::CommandLine && press.key == Key::Enter {
            self.command_action()
        } else {
            ActionView::Nothing
        }
    }

    /// The state after an event.
    pub open spec fn after_event(self, event: Event) -> UIView {
        match event {
            Event::Key(press) => self.after_key(press),
            Event::Resize(size) => self.with_editor(EditorView { size, ..self.editor }),
            Event::Other => self,
        }
    }

    /// What an event leaves to the caller.
    pub open spec fn event_action(self, event: Event) -> ActionView {
        match event {
            Event::Key(press) => self.key_action(press),
            _ => ActionView::Nothing,
        }
    }

    /// Whether the event opens a tab in this state.
    pub open spec fn event_opens_tab(self, event: Event) -> bool {
        match event {
            Event::Key(press) => self.opens_tab(press),
            _ => false,
        }
    }

    /// Where the terminal's cursor belongs: behind what is typed on the
    /// command line, or on the cursor of the focused window.
    pub open spec fn cursor(self) -> Position {
        if self.editor.mode == Mode::CommandLine {
            let typed = encode_utf8(self.command_line).len();
            let column: int = if typed <= u16::MAX {
                typed as int
            } else if self.editor.size.width == 0 {
                0
            } else {
                self.editor.size.width - 1
            };
            Position {
                x: if column + 1 > u16::MAX {
                    u16::MAX
                } else {
                    (column + 1) as u16
                },
                y: if self.editor.size.height == 0 {
                    0u16
                } else {
                    (self.editor.size.height - 1) as u16
                },
            }
        } else {
            self.editor.cursor_cell()
        }
    }
}

/// The mode after a key, for every state: the table of the modes.
pub proof fn lemma_mode_after_key(state: UIView, press: KeyPress)
    ensures
        state.after_key(press).editor.mode == match state.editor.mode {
            Mode::Normal => match press.key {
                Key::Char(character) => if press.control && (character == 'c' || character == 'q'
                    || character == 't') {
                    Mode::Normal
                } else if press.control && character == 'w' {
                    Mode::Window
                } else if character == 'i' {
                    Mode::Insert
                } else if character == ':' {
                    Mode::CommandLine
                } else {
                    Mode::Normal
                },
                _ => Mode::Normal,
            },
            Mode::Window => if press.key == Key::Esc {
                Mode::Normal
            } else {
                Mode::Window
            },
            Mode::Insert => if press.key == Key::Esc {
                Mode::Normal
            } else {
                Mode::Insert
            },
            Mode::CommandLine => if press.key == Key::Esc || press.key == Key::Enter || (press.key
                == Key::Char('c') && press.control && state.command_line.len() == 0) {
                Mode::Normal
            } else {
                Mode::CommandLine
            },
            Mode::Visual => Mode::Visual,
            Mode::OperatorPending => Mode::OperatorPending,
        },
{
    state.editor.lemma_mode_kept();
}

/// Whether `character` separates the words of a command line.
pub fn is_space_character(character: char) -> (space: bool)
    ensures
        space == is_space(character),
{
    let code = character as u32;
    (0x09 <= code && code <= 0x0d) || code == 0x20 || code == 0x85 || code == 0xa0 || code
        == 0x1680 || (0x2000 <= code && code <= 0x200a) || code == 0x2028 || code == 0x2029
        || code == 0x202f || code == 0x205f || code == 0x3000
}

/// Whether two strings hold the same characters.
fn same_text(left: &str, right: &str) -> (same: bool)
    ensures
        same == (left@ == right@),
{
    left.to_owned() == right.to_owned()
}

/// The command that `word` names.
pub fn command_for(word: &str) -> (command: Command)
    ensures
        command == command_named(word@),
{
    if same_text(word, "e") || same_text(word, "edit") {
        Command::Edit
    } else if same_text(word, "q") || same_text(word, "quit") {
        Command::Quit
    } else if same_text(word, "sp") || same_text(word, "split") {
        Command::Split
    } else if same_text(word, "vsp") || same_text(word, "vsplit") {
        Command::VerticalSplit
    } else if same_text(word, "redraw") {
        Command::Redraw
    } else if same_text(word, "tabopen") {
        Command::TabOpen
    } else if same_text(word, "tabclose") {
        Command::TabClose
    } else if same_text(word, "tabnext") {
        Command::TabNext
    } else if same_text(word, "tabprev") || same_text(word, "tabprevious") {
        Command::TabPrevious
    } else {
        Command::Unrecognized
    }
}

/// The first word of `line` at or behind the character `from`, and where it
/// ends.
pub fn next_word(line: &str, from: usize) -> (found: (Option<&str>, usize))
    requires
        from <= line@.len(),
    ensures
        found.1 == word_end(line@, from as int),
        from <= found.1 <= line@.len(),
        match found.0 {
            Some(word) => word_at(line@, from as int) == Some(word@),
            None => word_at(line@, from as int) is None,
        },
{
    let length = line.unicode_len();
    let mut start = from;
    while start < length && is_space_character(line.get_char(start))
        invariant
            from <= start <= length,
            length == line@.len(),
            skip_spaces(line@, start as int) == skip_spaces(line@, from as int),
        decreases length - start,
    {
        start += 1;
    }
    let mut end = start;
    while end < length && !is_space_character(line.get_char(end))
        invariant
            start <= end <= length,
            length == line@.len(),
            skip_word(line@, end as int) == skip_word(line@, start as int),
        decreases length - end,
    {
        end += 1;
    }
    if start < length {
        (Some(line.substring_char(start, end)), end)
    } else {
        (None, end)
    }
}

/// The part of `line` that a window shows: the bytes from the view's first
/// column, as many as the view is wide. A line that does not reach that
/// far, or whose characters those columns would cut, is shown whole.
pub fn line_view(line: &str, view: crate::editor::View) -> (shown: &str)
    ensures
        shown.spec_bytes() == if is_char_boundary(line.spec_bytes(), view.offset as int)
            && is_char_boundary(line.spec_bytes(), view.offset + view.size.width) {
            line.spec_bytes().subrange(view.offset as int, view.offset + view.size.width)
        } else {
            line.spec_bytes()
        },
{
    let from = view.offset as usize;
    let to = from + view.size.width as usize;
    proof {
        encode_utf8_valid_utf8(line@);
    }
    if line.is_char_boundary(from) && line.is_char_boundary(to) {
        let (head, _) = line.split_at(to);
        proof {
            encode_utf8_valid_utf8(head@);
            crate::text::proofs::lemma_on_boundary(line.spec_bytes(), from as int);
            crate::text::proofs::lemma_on_boundary(head.spec_bytes(), from as int);
        }
        let (_, shown) = head.split_at(from);
        shown
    } else {
        line
    }
}

/// How many columns the numbers of `line_count` lines take: the number of
/// decimal digits of `line_count`.
pub fn line_number_width(line_count: usize) -> (width: usize)
    ensures
        width == digits(line_count as nat),
{
    let mut width: usize = 1;
    let mut rest = line_count;
    while rest >= 10
        invariant
            1 <= width,
            width + digits(rest as nat) == 1 + digits(line_count as nat),
            width + rest / 10 <= 1 + line_count / 10,
        decreases rest,
    {
        rest = rest / 10;
        width += 1;
    }
    width
}

impl UI {
    /// The editor is well formed.
    pub open spec fn wf(&self) -> bool {
        self@.editor.wf()
    }

    /// A user interface on a canvas of the given size: normal mode, an
    /// empty command line.
    pub fn new(size: Size) -> (ui: UI)
        requires
            size.height >= 1,
        ensures
            ui@ == (UIView {
                editor: EditorView::initial(size),
                command_line: Seq::empty(),
                quit: false,
            }),
            ui.wf(),
    {
        UI { editor: Editor::new(size), command_line: String::new(), quit: false }
    }

    /// The editor.
    pub fn editor(&self) -> (editor: &Editor)
        ensures
            editor@ == self@.editor,
    {
        &self.editor
    }

    /// What is typed on the command line.
    pub fn command_line(&self) -> (line: &str)
        ensures
            line@ == self@.command_line,
    {
        self.command_line.as_str()
    }

    /// Whether the user has asked to leave.
    pub fn quit(&self) -> (quit: bool)
        ensures
            quit == self@.quit,
    {
        self.quit
    }

    /// Whether `handle_event` can take the event: every event but one that
    /// opens a tab on a canvas without rows.
    pub fn accepts(&self, event: Event) -> (accepted: bool)
        ensures
            accepted == !(self@.event_opens_tab(event) && self@.editor.size.height == 0),
    {
        if self.editor.size().height > 0 {
            return true;
        }
        match event {
            Event::Key(press) => match self.editor.mode() {
                Mode::Normal => !(press.control && press.key == Key::Char('t')),
                Mode::CommandLine => match press.key {
                    Key::Enter => {
                        let (word, _) = next_word(self.command_line.as_str(), 0);
                        match word {
                            Some(word) => command_for(word) != Command::TabOpen,
                            None => true,
                        }
                    },
                    _ => true,
                },
                _ => true,
            },
            _ => true,
        }
    }

    /// Shows `buffer` in the focused window: what the caller does with the
    /// file that `Action::Edit` asked for.
    pub fn edit(&mut self, buffer: crate::editor::Buffer)
        requires
            old(self).wf(),
            buffer.text.wf(),
            old(self)@.editor.windows[old(self)@.editor.focus().0 as int].size.width >= 2,
            old(self)@.editor.windows[old(self)@.editor.focus().0 as int].size.height >= 2,
        ensures
            final(self)@ == old(self)@.with_editor(old(self)@.editor.edited(buffer@)),
            final(self).wf(),
    {
        self.editor.edit(buffer);
    }

    /// Puts `message` on the status line.
    pub fn emit_message(&mut self, message: String)
        ensures
            final(self)@ == old(self)@.with_editor(old(self)@.editor.with_message(message@)),
            old(self).wf() ==> final(self).wf(),
    {
        self.editor.emit_message(message);
    }

    /// Notes that the window `window` was drawn as it is.
    pub fn mark_drawn(&mut self, window: crate::editor::WindowID)
        requires
            old(self).wf(),
            window.0 < old(self)@.editor.windows.len(),
        ensures
            final(self)@ == old(self)@.with_editor(
                old(self)@.editor.with_window(
                    window,
                    crate::editor::Window {
                        redraw: false,
                        ..old(self)@.editor.windows[window.0 as int]
                    },
                ),
            ),
            final(self).wf(),
    {
        self.editor.mark_drawn(window);
    }

}

/// Where the terminal's cursor belongs.
pub fn compute_current_cursor(ui: &UI) -> (cursor: Position)
    requires
        ui.wf(),
    ensures
        cursor == ui@.cursor(),
{
    if ui.editor.mode() == Mode::CommandLine {
        let typed = ui.command_line.as_str().as_bytes().len();
        let column: u16 = if typed <= u16::MAX as usize {
            typed as u16
        } else {
            ui.editor.size().width.saturating_sub(1)
        };
        Position { x: column.saturating_add(1), y: ui.editor.size().height.saturating_sub(1) }
    } else {
        let window = ui.editor.window(ui.editor.window_focus());
        window.position.offset(window.cursor)
    }
}

/// Runs the command line.
pub fn execute_command_line(ui: &mut UI) -> (action: Action)
    requires
        old(ui).wf(),
        old(ui)@.command_opens_tab() ==> old(ui)@.editor.size.height >= 1,
    ensures
        final(ui)@ == old(ui)@.after_command(),
        action@ == old(ui)@.command_action(),
        final(ui).wf(),
{
    let (word, end) = next_word(ui.command_line.as_str(), 0);
    let word = match word {
        Some(word) => word,
        None => {
            return Action::Nothing;
        },
    };
    match command_for(word) {
        Command::Edit => {
            let (path, _) = next_word(ui.command_line.as_str(), end);
            match path {
                Some(path) => {
                    return Action::Edit(path.to_owned());
                },
                None => {},
            }
        },
        Command::Quit => {
            ui.quit = true;
        },
        Command::Split => {
            ui.editor.horizontal_split_window();
        },
        Command::VerticalSplit => {
            ui.editor.vertical_split_window();
        },
        Command::Redraw => {
            ui.editor.force_redraw();
        },
        Command::TabOpen => {
            ui.editor.tab_open();
        },
        Command::TabClose => {
            ui.editor.tab_close();
        },
        Command::TabNext => {
            ui.editor.tab_next();
        },
        Command::TabPrevious => {
            ui.editor.tab_previous();
        },
        Command::Unrecognized => {
            let mut message = "Unrecognized command: ".to_owned();
            message.append(word);
            ui.editor.emit_message(message);
        },
    }
    Action::Nothing
}

/// Takes a key: what it does depends on the mode.
pub fn handle_key(ui: &mut UI, press: KeyPress) -> (action: Action)
    requires
        old(ui).wf(),
        old(ui)@.opens_tab(press) ==> old(ui)@.editor.size.height >= 1,
    ensures
        final(ui)@ == old(ui)@.after_key(press),
        action@ == old(ui)@.key_action(press),
        final(ui).wf(),
{
    match ui.editor.mode() {
        Mode::Normal => match press.key {
            Key::Char(character) => {
                if press.control && character == 'c' {
                    ui.quit = true;
                } else if press.control && character == 'w' {
                    ui.editor.set_mode(Mode::Window);
                } else if press.control && character == 'q' {
                    ui.editor.tab_close();
                } else if press.control && character == 't' {
                    ui.editor.tab_open();
                } else if character == 'h' {
                    ui.editor.move_cursor(Direction::Left);
                } else if character == 'j' {
                    ui.editor.move_cursor(Direction::Down);
                } else if character == 'k' {
                    ui.editor.move_cursor(Direction::Up);
                } else if character == 'l' {
                    ui.editor.move_cursor(Direction::Right);
                } else if character == 'H' {
                    ui.editor.tab_previous();
                } else if character == 'L' {
                    ui.editor.tab_next();
                } else if character == 'i' {
                    ui.editor.set_mode(Mode::Insert);
                } else if character == ':' {
                    ui.editor.set_mode(Mode::CommandLine);
                }
            },
            _ => {},
        },
        Mode::Window => match press.key {
            Key::Esc => {
                ui.editor.set_mode(Mode::Normal);
            },
            Key::Char(character) => {
                if character == 'h' {
                    ui.editor.move_focus(Direction::Left);
                } else if character == 'j' {
                    ui.editor.move_focus(Direction::Down);
                } else if character == 'k' {
                    ui.editor.move_focus(Direction::Up);
                } else if character == 'l' {
                    ui.editor.move_focus(Direction::Right);
                } else if character == 's' {
                    ui.editor.horizontal_split_window();
                } else if character == 'v' {
                    ui.editor.vertical_split_window();
                } else if character == 'w' {
                    ui.editor.rotate_focus_forward();
                } else if character == 'W' {
                    ui.editor.rotate_focus_backward();
                }
            },
            _ => {},
        },
        Mode::Insert => match press.key {
            Key::Esc => {
                ui.editor.set_mode(Mode::Normal);
            },
            Key::Char(character) => {
                let mut message = "got '".to_owned();
                message.push(character);
                message.append("'");
                ui.editor.emit_message(message);
            },
            _ => {},
        },
        Mode::CommandLine => match press.key {
            Key::Esc => {
                ui.editor.set_mode(Mode::Normal);
            },
            Key::Char(character) => {
                if press.control && character == 'c' {
                    if ui.command_line.as_str().is_empty() {
                        ui.editor.set_mode(Mode::Normal);
                    } else {
                        ui.command_line.clear();
                    }
                } else {
                    ui.command_line.push(character);
                }
            },
            Key::Backspace => {
                ui.command_line.pop();
            },
            Key::Enter => {
                let action = execute_command_line(ui);
                ui.command_line.clear();
                ui.editor.set_mode(Mode::Normal);
                return action;
            },
            Key::Other => {},
        },
        Mode::Visual => {},
        Mode::OperatorPending => {},
    }
    Action::Nothing
}

/// Takes an event of the terminal: a key goes to `handle_key`, a new
/// size of the canvas is noted, and anything else is passed over.
pub fn handle_event(ui: &mut UI, event: Event) -> (action: Action)
    requires
        old(ui).wf(),
        old(ui)@.event_opens_tab(event) ==> old(ui)@.editor.size.height >= 1,
    ensures
        final(ui)@ == old(ui)@.after_event(event),
        action@ == old(ui)@.event_action(event),
        final(ui).wf(),
{
    match event {
        Event::Key(press) => handle_key(ui, press),
        Event::Resize(size) => {
            ui.editor.set_size(size);
            Action::Nothing
        },
        Event::Other => Action::Nothing,
    }
}

} // verus!
