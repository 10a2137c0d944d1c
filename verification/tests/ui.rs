use modal_editor::editor::{Buffer, Mode, View, BufferID, WindowID};
use modal_editor::settings::BufferSettings;
use modal_editor::terminal::{Position, Size};
use modal_editor::text::PieceTable;
use modal_editor::ui::{
    command_for, compute_current_cursor, handle_event, handle_key, is_space_character,
    line_number_width, line_view, next_word, Action, Command, Event, Key, KeyPress, UI,
};

fn ui() -> UI {
    UI::new(Size { width: 80, height: 25 })
}

fn press(ui: &mut UI, character: char) -> Action {
    handle_key(ui, KeyPress { key: Key::Char(character), control: false })
}

fn control(ui: &mut UI, character: char) -> Action {
    handle_key(ui, KeyPress { key: Key::Char(character), control: true })
}

fn special(ui: &mut UI, key: Key) -> Action {
    handle_key(ui, KeyPress { key, control: false })
}

fn command(ui: &mut UI, line: &str) -> Action {
    press(ui, ':');
    for character in line.chars() {
        press(ui, character);
    }
    special(ui, Key::Enter)
}

#[test]
fn a_new_ui_is_in_normal_mode() {
    let ui = ui();
    assert_eq!(ui.editor().mode(), Mode::Normal);
    assert_eq!(ui.command_line(), "");
    assert!(!ui.quit());
    assert_eq!(ui.editor().tab_count(), 1);
}

#[test]
fn the_modes_follow_their_table() {
    let mut ui = ui();
    press(&mut ui, 'i');
    assert_eq!(ui.editor().mode(), Mode::Insert);
    press(&mut ui, ':');
    assert_eq!(ui.editor().mode(), Mode::Insert);
    special(&mut ui, Key::Esc);
    assert_eq!(ui.editor().mode(), Mode::Normal);
    special(&mut ui, Key::Esc);
    assert_eq!(ui.editor().mode(), Mode::Normal);
    control(&mut ui, 'w');
    assert_eq!(ui.editor().mode(), Mode::Window);
    press(&mut ui, 'v');
    assert_eq!(ui.editor().mode(), Mode::Window);
    special(&mut ui, Key::Esc);
    assert_eq!(ui.editor().mode(), Mode::Normal);
    press(&mut ui, ':');
    assert_eq!(ui.editor().mode(), Mode::CommandLine);
    special(&mut ui, Key::Esc);
    assert_eq!(ui.editor().mode(), Mode::Normal);
    press(&mut ui, ':');
    special(&mut ui, Key::Enter);
    assert_eq!(ui.editor().mode(), Mode::Normal);
    press(&mut ui, 'w');
    assert_eq!(ui.editor().mode(), Mode::Normal);
    special(&mut ui, Key::Other);
    assert_eq!(ui.editor().mode(), Mode::Normal);
}

#[test]
fn control_c_clears_the_command_line_and_then_leaves_it() {
    let mut ui = ui();
    press(&mut ui, ':');
    press(&mut ui, 'q');
    press(&mut ui, 'u');
    assert_eq!(ui.command_line(), "qu");
    special(&mut ui, Key::Backspace);
    assert_eq!(ui.command_line(), "q");
    control(&mut ui, 'c');
    assert_eq!(ui.command_line(), "");
    assert_eq!(ui.editor().mode(), Mode::CommandLine);
    special(&mut ui, Key::Backspace);
    assert_eq!(ui.command_line(), "");
    control(&mut ui, 'c');
    assert_eq!(ui.editor().mode(), Mode::Normal);
    assert!(!ui.quit());
}

#[test]
fn control_c_in_normal_mode_asks_to_leave() {
    let mut ui = ui();
    control(&mut ui, 'c');
    assert!(ui.quit());
}

#[test]
fn a_key_in_insert_mode_leaves_a_message() {
    let mut ui = ui();
    press(&mut ui, 'i');
    press(&mut ui, 'x');
    assert_eq!(ui.editor().status().as_deref(), Some("got 'x'"));
    assert_eq!(ui.editor().mode(), Mode::Insert);
}

#[test]
fn keys_of_normal_mode_move_the_cursor_and_the_tabs() {
    let mut ui = ui();
    press(&mut ui, 'l');
    press(&mut ui, 'l');
    press(&mut ui, 'j');
    press(&mut ui, 'h');
    assert_eq!(ui.editor().window(WindowID(0)).cursor, Position { x: 1, y: 1 });
    press(&mut ui, 'k');
    assert_eq!(compute_current_cursor(&ui), Position { x: 1, y: 0 });
    control(&mut ui, 't');
    assert_eq!(ui.editor().tab_count(), 2);
    assert_eq!(ui.editor().current_tab(), 1);
    press(&mut ui, 'H');
    assert_eq!(ui.editor().current_tab(), 0);
    press(&mut ui, 'L');
    assert_eq!(ui.editor().current_tab(), 1);
    control(&mut ui, 'q');
    assert_eq!(ui.editor().tab_count(), 1);
    control(&mut ui, 'q');
    assert_eq!(ui.editor().status().as_deref(), Some("Cannot close last tab"));
}

#[test]
fn keys_of_window_mode_split_and_move_the_focus() {
    let mut ui = ui();
    control(&mut ui, 'w');
    press(&mut ui, 'v');
    press(&mut ui, 's');
    assert_eq!(ui.editor().window_count(), 3);
    press(&mut ui, 'l');
    assert_eq!(ui.editor().window_focus(), WindowID(1));
    press(&mut ui, 'h');
    assert_eq!(ui.editor().window_focus(), WindowID(0));
    press(&mut ui, 'j');
    assert_eq!(ui.editor().window_focus(), WindowID(2));
    press(&mut ui, 'k');
    assert_eq!(ui.editor().window_focus(), WindowID(0));
    press(&mut ui, 'w');
    assert_eq!(ui.editor().window_focus(), WindowID(1));
    press(&mut ui, 'W');
    press(&mut ui, 'W');
    assert_eq!(ui.editor().window_focus(), WindowID(2));
}

#[test]
fn commands_run_on_enter() {
    let mut ui = ui();
    assert_eq!(command(&mut ui, "vsp"), Action::Nothing);
    assert_eq!(ui.editor().window_count(), 2);
    assert_eq!(ui.command_line(), "");
    assert_eq!(ui.editor().mode(), Mode::Normal);
    command(&mut ui, "  split  ");
    assert_eq!(ui.editor().window_count(), 3);
    command(&mut ui, "tabopen");
    assert_eq!(ui.editor().tab_count(), 2);
    command(&mut ui, "tabnext");
    assert_eq!(ui.editor().current_tab(), 0);
    command(&mut ui, "tabprev");
    assert_eq!(ui.editor().current_tab(), 1);
    command(&mut ui, "tabprevious");
    assert_eq!(ui.editor().current_tab(), 0);
    command(&mut ui, "tabclose");
    assert_eq!(ui.editor().tab_count(), 1);
    ui.mark_drawn(WindowID(0));
    assert!(!ui.editor().window(WindowID(0)).redraw);
    command(&mut ui, "redraw");
    assert!(ui.editor().window(WindowID(0)).redraw);
    assert!(!ui.quit());
    command(&mut ui, "q");
    assert!(ui.quit());
}

#[test]
fn an_unknown_command_leaves_a_message() {
    let mut ui = ui();
    assert_eq!(command(&mut ui, "frobnicate now"), Action::Nothing);
    assert_eq!(ui.editor().status().as_deref(), Some("Unrecognized command: frobnicate"));
    let mut other = self::ui();
    command(&mut other, "");
    assert!(other.editor().status().is_none());
    command(&mut other, "   ");
    assert!(other.editor().status().is_none());
}

#[test]
fn edit_asks_the_caller_for_the_file() {
    let mut ui = ui();
    assert_eq!(command(&mut ui, "e  notes.txt more"), Action::Edit(String::from("notes.txt")));
    assert_eq!(command(&mut ui, "edit src/lib.rs"), Action::Edit(String::from("src/lib.rs")));
    assert_eq!(command(&mut ui, "edit"), Action::Nothing);
    assert_eq!(ui.editor().buffer_count(), 0);
    ui.edit(Buffer {
        text: PieceTable::from(String::from("text")),
        file_info: None,
        settings: BufferSettings::default(),
        windows: Vec::new(),
    });
    assert_eq!(ui.editor().buffer_count(), 1);
    assert_eq!(ui.editor().buffer(BufferID(0)).windows, vec![WindowID(0)]);
    ui.emit_message(String::from("No such file or directory"));
    assert_eq!(ui.editor().status().as_deref(), Some("No such file or directory"));
}

#[test]
fn events_other_than_keys() {
    let mut ui = ui();
    let resize = Event::Resize(Size { width: 100, height: 40 });
    assert_eq!(handle_event(&mut ui, resize), Action::Nothing);
    assert_eq!(ui.editor().size(), Size { width: 100, height: 40 });
    assert_eq!(ui.editor().window(WindowID(0)).size, Size { width: 80, height: 24 });
    assert_eq!(handle_event(&mut ui, Event::Other), Action::Nothing);
    let colon = Event::Key(KeyPress { key: Key::Char(':'), control: false });
    assert_eq!(handle_event(&mut ui, colon), Action::Nothing);
    assert_eq!(ui.editor().mode(), Mode::CommandLine);
}

#[test]
fn a_canvas_without_rows_takes_no_new_tab() {
    let mut ui = ui();
    let open = Event::Key(KeyPress { key: Key::Char('t'), control: true });
    let enter = Event::Key(KeyPress { key: Key::Enter, control: false });
    assert!(ui.accepts(open));
    handle_event(&mut ui, Event::Resize(Size { width: 80, height: 0 }));
    assert!(!ui.accepts(open));
    assert!(ui.accepts(enter));
    assert!(ui.accepts(Event::Other));
    assert!(ui.accepts(Event::Key(KeyPress { key: Key::Char('t'), control: false })));
    press(&mut ui, ':');
    assert!(ui.accepts(open));
    for character in "tabopen".chars() {
        press(&mut ui, character);
    }
    assert!(!ui.accepts(enter));
    press(&mut ui, 'x');
    assert!(ui.accepts(enter));
}

#[test]
fn the_cursor_of_the_command_line_stands_behind_the_text() {
    let mut ui = ui();
    press(&mut ui, ':');
    assert_eq!(compute_current_cursor(&ui), Position { x: 1, y: 24 });
    press(&mut ui, 'e');
    press(&mut ui, 'é');
    assert_eq!(compute_current_cursor(&ui), Position { x: 4, y: 24 });
}

#[test]
fn words_are_runs_between_spaces() {
    assert_eq!(next_word("edit  file.txt", 0), (Some("edit"), 4));
    assert_eq!(next_word("edit  file.txt", 4), (Some("file.txt"), 14));
    assert_eq!(next_word("edit  file.txt", 14), (None, 14));
    assert_eq!(next_word(" \t x\u{3000}y", 0), (Some("x"), 4));
    assert_eq!(next_word(" \t x\u{3000}y", 4), (Some("y"), 6));
    assert_eq!(next_word("", 0), (None, 0));
    assert_eq!(next_word("   ", 0), (None, 3));
    assert_eq!(next_word("héllo wörld", 5), (Some("wörld"), 11));
}

#[test]
fn spaces_are_the_white_space_of_unicode() {
    for code in 0..0x11000u32 {
        if let Some(character) = char::from_u32(code) {
            assert_eq!(is_space_character(character), character.is_whitespace());
        }
    }
}

#[test]
fn commands_have_their_names() {
    let names = [
        ("e", Command::Edit),
        ("edit", Command::Edit),
        ("q", Command::Quit),
        ("quit", Command::Quit),
        ("sp", Command::Split),
        ("split", Command::Split),
        ("vsp", Command::VerticalSplit),
        ("vsplit", Command::VerticalSplit),
        ("redraw", Command::Redraw),
        ("tabopen", Command::TabOpen),
        ("tabclose", Command::TabClose),
        ("tabnext", Command::TabNext),
        ("tabprev", Command::TabPrevious),
        ("tabprevious", Command::TabPrevious),
        ("Edit", Command::Unrecognized),
        ("", Command::Unrecognized),
        ("tab", Command::Unrecognized),
    ];
    for (name, expected) in names {
        assert_eq!(command_for(name), expected);
    }
}

#[test]
fn line_view_cuts_the_columns_of_the_view() {
    let view = View { offset: 2, size: Size { width: 3, height: 1 }, buffer: BufferID(0) };
    assert_eq!(line_view("abcdefgh", view), "cde");
    assert_eq!(line_view("abcde", view), "cde");
    assert_eq!(line_view("abcd", view), "abcd");
    assert_eq!(line_view("", view), "");
    assert_eq!(line_view("aébcdef", view), "aébcdef");
    assert_eq!(line_view("éabcdef", view), "abc");
    let empty = View { offset: 3, size: Size { width: 0, height: 1 }, buffer: BufferID(0) };
    assert_eq!(line_view("abc", empty), "");
}

#[test]
fn line_numbers_take_as_many_columns_as_digits() {
    assert_eq!(line_number_width(0), 1);
    assert_eq!(line_number_width(9), 1);
    assert_eq!(line_number_width(10), 2);
    assert_eq!(line_number_width(99), 2);
    assert_eq!(line_number_width(100), 3);
    assert_eq!(line_number_width(12345), 5);
    assert_eq!(line_number_width(usize::MAX), usize::MAX.to_string().len());
}
