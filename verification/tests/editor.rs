use modal_editor::editor::{Buffer, Editor, Mode, Window, WindowID};
use modal_editor::settings::BufferSettings;
use modal_editor::terminal::{Position, Size};
use modal_editor::text::PieceTable;
use modal_editor::util::Direction;

fn canvas() -> Size {
    Size { width: 80, height: 25 }
}

fn buffer(text: &str) -> Buffer {
    Buffer {
        text: PieceTable::from(text.to_owned()),
        file_info: None,
        settings: BufferSettings::default(),
        windows: Vec::new(),
    }
}

/// Four windows that tile the canvas, two by two, with the focus top left.
fn grid() -> Editor {
    let mut editor = Editor::new(canvas());
    editor.vertical_split_window();
    editor.horizontal_split_window();
    editor.move_focus(Direction::Right);
    editor.horizontal_split_window();
    editor.move_focus(Direction::Left);
    editor
}

#[test]
fn a_new_editor_has_one_tab_with_one_window() {
    let editor = Editor::new(canvas());
    assert_eq!(editor.tab_count(), 1);
    assert_eq!(editor.current_tab(), 0);
    assert_eq!(editor.window_count(), 1);
    assert_eq!(editor.buffer_count(), 0);
    assert_eq!(editor.mode(), Mode::Normal);
    assert!(editor.status().is_none());
    assert_eq!(editor.window_focus(), WindowID(0));
    let window = editor.window(WindowID(0));
    assert_eq!(window.position, Position { x: 0, y: 0 });
    assert_eq!(window.size, Size { width: 80, height: 24 });
    assert!(window.is_open);
    assert!(window.redraw);
    assert!(window.view.is_none());
    assert_eq!(editor.tab(0).open_windows, vec![WindowID(0)]);
}

#[test]
fn a_vertical_split_halves_the_width() {
    for width in [6u16, 7, 80, 81] {
        let mut editor = Editor::new(Size { width, height: 25 });
        editor.vertical_split_window();
        assert_eq!(editor.window_count(), 2);
        let left = editor.window(WindowID(0));
        let right = editor.window(WindowID(1));
        assert_eq!(left.size.width + right.size.width, width);
        assert_eq!(left.size.width, width / 2);
        assert_eq!(right.size.width, width - width / 2);
        assert_eq!(right.position, Position { x: width / 2, y: 0 });
        assert_eq!(left.size.height, 24);
        assert_eq!(right.size.height, 24);
        assert!(right.is_open);
        assert_eq!(editor.tab(0).open_windows, vec![WindowID(0), WindowID(1)]);
        assert_eq!(editor.window_focus(), WindowID(0));
        assert!(editor.status().is_none());
    }
}

#[test]
fn a_horizontal_split_halves_the_height() {
    let mut editor = Editor::new(Size { width: 80, height: 26 });
    editor.horizontal_split_window();
    let above = editor.window(WindowID(0));
    let below = editor.window(WindowID(1));
    assert_eq!(above.size, Size { width: 80, height: 12 });
    assert_eq!(below.size, Size { width: 80, height: 13 });
    assert_eq!(below.position, Position { x: 0, y: 12 });
}

#[test]
fn a_small_window_is_not_split() {
    let mut editor = Editor::new(Size { width: 5, height: 6 });
    editor.vertical_split_window();
    assert_eq!(editor.window_count(), 1);
    assert_eq!(editor.tab(0).open_windows, vec![WindowID(0)]);
    assert_eq!(editor.window(WindowID(0)).size, Size { width: 5, height: 5 });
    assert_eq!(
        editor.status().as_deref(),
        Some("The window is too small for a vertical split")
    );
    editor.clear_message();
    editor.horizontal_split_window();
    assert_eq!(editor.window_count(), 1);
    assert_eq!(
        editor.status().as_deref(),
        Some("The window is too small for a horizontal split")
    );
}

#[test]
fn focus_rotates_through_all_windows() {
    let mut editor = grid();
    let count = editor.window_count();
    assert_eq!(count, 4);
    let start = editor.window_focus();
    let mut seen = Vec::new();
    for _ in 0..count {
        editor.rotate_focus_forward();
        seen.push(editor.window_focus());
    }
    assert_eq!(editor.window_focus(), start);
    assert_eq!(seen, vec![WindowID(1), WindowID(2), WindowID(3), WindowID(0)]);
    for _ in 0..count {
        editor.rotate_focus_backward();
    }
    assert_eq!(editor.window_focus(), start);
    editor.rotate_focus_backward();
    assert_eq!(editor.window_focus(), WindowID(3));
}

#[test]
fn focus_moves_to_the_window_beside() {
    let mut editor = grid();
    assert_eq!(editor.window_focus(), WindowID(0));
    assert_eq!(editor.window(WindowID(0)).size, Size { width: 40, height: 12 });
    assert_eq!(editor.window(WindowID(1)).position, Position { x: 40, y: 0 });
    assert_eq!(editor.window(WindowID(2)).position, Position { x: 0, y: 12 });
    assert_eq!(editor.window(WindowID(3)).position, Position { x: 40, y: 12 });

    editor.move_focus(Direction::Right);
    assert_eq!(editor.window_focus(), WindowID(1));
    editor.move_focus(Direction::Right);
    assert_eq!(editor.window_focus(), WindowID(1));
    editor.move_focus(Direction::Down);
    assert_eq!(editor.window_focus(), WindowID(3));
    editor.move_focus(Direction::Down);
    assert_eq!(editor.window_focus(), WindowID(3));
    editor.move_focus(Direction::Left);
    assert_eq!(editor.window_focus(), WindowID(2));
    editor.move_focus(Direction::Left);
    assert_eq!(editor.window_focus(), WindowID(2));
    editor.move_focus(Direction::Up);
    assert_eq!(editor.window_focus(), WindowID(0));
    editor.move_focus(Direction::Up);
    assert_eq!(editor.window_focus(), WindowID(0));
}

#[test]
fn a_beam_finds_the_nearest_window() {
    let editor = grid();
    let beam = vec![Position { x: 39, y: 0 }, Position { x: 40, y: 0 }, Position { x: 41, y: 13 }];
    assert_eq!(editor.run_cursor_focus_beam(&beam), Some(WindowID(1)));
    let below = vec![Position { x: 0, y: 11 }, Position { x: 0, y: 12 }];
    assert_eq!(editor.run_cursor_focus_beam(&below), Some(WindowID(2)));
    assert_eq!(editor.run_cursor_focus_beam(&Vec::new()), None);
    assert_eq!(editor.send_cursor_focus_beam(Direction::Right), Some(WindowID(1)));
    assert_eq!(editor.send_cursor_focus_beam(Direction::Down), Some(WindowID(2)));
    assert_eq!(editor.send_cursor_focus_beam(Direction::Left), None);
    assert_eq!(editor.send_cursor_focus_beam(Direction::Up), None);
}

#[test]
fn a_tab_that_is_opened_and_closed_leaves_the_tabs_as_they_were() {
    let mut editor = Editor::new(canvas());
    editor.tab_open();
    assert_eq!(editor.tab_count(), 2);
    assert_eq!(editor.current_tab(), 1);
    assert_eq!(editor.window_count(), 2);
    assert_eq!(editor.window_focus(), WindowID(1));
    editor.tab_close();
    assert_eq!(editor.tab_count(), 1);
    assert_eq!(editor.current_tab(), 0);
    assert!(!editor.window(WindowID(1)).is_open);
    assert!(editor.window(WindowID(0)).is_open);
    assert!(editor.status().is_none());
}

#[test]
fn closing_a_tab_in_the_middle_shows_the_tab_behind_it() {
    let mut editor = Editor::new(canvas());
    editor.tab_open();
    editor.tab_previous();
    assert_eq!(editor.current_tab(), 0);
    editor.tab_open();
    assert_eq!(editor.tab_count(), 3);
    assert_eq!(editor.current_tab(), 1);
    editor.tab_close();
    assert_eq!(editor.tab_count(), 2);
    assert_eq!(editor.current_tab(), 1);
    assert_eq!(editor.window_focus(), WindowID(1));
}

#[test]
fn the_last_tab_cannot_be_closed() {
    let mut editor = Editor::new(canvas());
    editor.tab_close();
    assert_eq!(editor.tab_count(), 1);
    assert_eq!(editor.current_tab(), 0);
    assert!(editor.window(WindowID(0)).is_open);
    assert_eq!(editor.status().as_deref(), Some("Cannot close last tab"));
}

#[test]
fn tabs_rotate() {
    let mut editor = Editor::new(canvas());
    editor.tab_open();
    editor.tab_open();
    assert_eq!(editor.current_tab(), 2);
    editor.tab_next();
    assert_eq!(editor.current_tab(), 0);
    editor.tab_next();
    assert_eq!(editor.current_tab(), 1);
    editor.tab_previous();
    editor.tab_previous();
    assert_eq!(editor.current_tab(), 2);
    for window in editor.window_ids() {
        assert!(editor.window(window).redraw);
    }
}

#[test]
fn a_split_uses_the_slot_of_a_closed_window() {
    let mut editor = Editor::new(canvas());
    editor.tab_open();
    editor.vertical_split_window();
    assert_eq!(editor.window_count(), 3);
    editor.tab_close();
    assert!(!editor.window(WindowID(1)).is_open);
    assert!(!editor.window(WindowID(2)).is_open);
    editor.vertical_split_window();
    assert_eq!(editor.window_count(), 3);
    assert_eq!(editor.tab(0).open_windows, vec![WindowID(0), WindowID(1)]);
    let right = editor.window(WindowID(1));
    assert!(right.is_open);
    assert_eq!(right.position, Position { x: 40, y: 0 });
    assert_eq!(right.size, Size { width: 40, height: 24 });
    assert_eq!(editor.new_window(), WindowID(2));
    assert_eq!(editor.window_count(), 3);
}

#[test]
fn a_split_of_a_closed_window_keeps_both_halves() {
    let mut editor = Editor::new(Size { width: 81, height: 24 });
    editor.tab_open();
    editor.tab_close();
    editor.rotate_focus_forward();
    assert_eq!(editor.window_focus(), WindowID(1));
    assert!(!editor.window(WindowID(1)).is_open);
    editor.vertical_split_window();
    assert_eq!(editor.window_count(), 3);
    assert_eq!(editor.window(WindowID(0)).size, Size { width: 81, height: 23 });
    let left = editor.window(WindowID(1));
    let right = editor.window(WindowID(2));
    assert_eq!(left.position, Position { x: 0, y: 0 });
    assert_eq!(left.size, Size { width: 40, height: 23 });
    assert_eq!(right.position, Position { x: 40, y: 0 });
    assert_eq!(right.size, Size { width: 41, height: 23 });
    assert!(right.is_open);
    assert_eq!(editor.window_focus(), WindowID(1));
    assert_eq!(editor.tab(0).open_windows, vec![WindowID(0), WindowID(2)]);

    editor.horizontal_split_window();
    assert_eq!(editor.window_count(), 4);
    let above = editor.window(WindowID(1));
    let below = editor.window(WindowID(3));
    assert_eq!(above.position, Position { x: 0, y: 0 });
    assert_eq!(above.size, Size { width: 40, height: 11 });
    assert_eq!(below.position, Position { x: 0, y: 11 });
    assert_eq!(below.size, Size { width: 40, height: 12 });
    assert_eq!(editor.tab(0).open_windows, vec![WindowID(0), WindowID(2), WindowID(3)]);
}

#[test]
fn new_window_adds_a_slot_where_none_is_free() {
    let mut editor = Editor::new(canvas());
    let slot = editor.new_window();
    assert_eq!(slot, WindowID(1));
    assert_eq!(editor.window_count(), 2);
    assert!(!editor.window(slot).is_open);
    assert_eq!(editor.new_window(), WindowID(1));
    assert_eq!(editor.window_count(), 2);
    assert_eq!(editor.window_ids(), vec![WindowID(0), WindowID(1)]);
}

#[test]
fn the_cursor_stays_in_the_window() {
    let mut editor = Editor::new(Size { width: 3, height: 3 });
    for _ in 0..5 {
        editor.move_cursor(Direction::Right);
        editor.move_cursor(Direction::Down);
    }
    assert_eq!(editor.window(WindowID(0)).cursor, Position { x: 2, y: 1 });
    editor.move_cursor(Direction::Left);
    editor.move_cursor(Direction::Up);
    assert_eq!(editor.window(WindowID(0)).cursor, Position { x: 1, y: 0 });
    editor.move_cursor(Direction::Up);
    assert_eq!(editor.window(WindowID(0)).cursor, Position { x: 1, y: 0 });
}

#[test]
fn edit_shows_the_buffer_in_the_focused_window() {
    let mut editor = Editor::new(canvas());
    editor.move_cursor(Direction::Right);
    editor.edit(buffer("one\ntwo\n"));
    assert_eq!(editor.buffer_count(), 1);
    let window = editor.window(WindowID(0));
    let view = window.view.unwrap();
    assert_eq!(view.offset, 1);
    assert_eq!(view.size, Size { width: 78, height: 22 });
    assert_eq!(view.buffer.0, 0);
    assert_eq!(window.cursor, Position { x: 0, y: 0 });
    assert_eq!(editor.buffer(view.buffer).windows, vec![WindowID(0)]);
    assert_eq!(editor.buffer(view.buffer).text.gather(), "one\ntwo\n");

    editor.vertical_split_window();
    assert_eq!(editor.buffer(view.buffer).windows, vec![WindowID(0), WindowID(1)]);
    editor.edit(buffer("three"));
    assert_eq!(editor.buffer_count(), 2);
    assert_eq!(editor.buffer(view.buffer).windows, vec![WindowID(1)]);
    let second = editor.window(WindowID(0)).view.unwrap().buffer;
    assert_eq!(second.0, 1);
    assert_eq!(editor.buffer(second).windows, vec![WindowID(0)]);
}

#[test]
fn closing_a_tab_takes_its_windows_off_the_buffers() {
    let mut editor = Editor::new(canvas());
    editor.tab_open();
    editor.edit(buffer("text"));
    let shown = editor.window(WindowID(1)).view.unwrap().buffer;
    assert_eq!(editor.buffer(shown).windows, vec![WindowID(1)]);
    editor.tab_close();
    assert!(editor.buffer(shown).windows.is_empty());
    assert!(editor.window(WindowID(1)).view.is_none());
}

#[test]
fn mode_size_and_status_can_be_set() {
    let mut editor = Editor::new(canvas());
    editor.set_mode(Mode::Insert);
    assert_eq!(editor.mode(), Mode::Insert);
    editor.set_size(Size { width: 10, height: 4 });
    assert_eq!(editor.size(), Size { width: 10, height: 4 });
    editor.emit_message(String::from("saved"));
    assert_eq!(editor.status().as_deref(), Some("saved"));
    editor.clear_message();
    assert!(editor.status().is_none());
    assert!(editor.settings().showmode);
    editor.mark_drawn(WindowID(0));
    assert!(!editor.window(WindowID(0)).redraw);
    editor.force_redraw();
    assert!(editor.window(WindowID(0)).redraw);
}

#[test]
fn a_window_contains_the_cells_of_its_rectangle() {
    let window = Window::new(Position { x: 2, y: 3 }, Size { width: 4, height: 2 });
    assert!(!window.is_open);
    assert!(window.redraw);
    assert!(window.contains_x(2));
    assert!(window.contains_x(5));
    assert!(!window.contains_x(6));
    assert!(!window.contains_x(1));
    assert!(window.contains_y(3));
    assert!(window.contains_y(4));
    assert!(!window.contains_y(5));
    assert!(window.contains(Position { x: 5, y: 4 }));
    assert!(!window.contains(Position { x: 5, y: 5 }));
    let wide = Window::new(Position { x: 65000, y: 0 }, Size { width: 65000, height: 1 });
    assert!(wide.contains_x(65535));
    assert!(!wide.contains_x(64999));
}

#[test]
fn keep_cursor_within_bounds_moves_the_cursor_back() {
    let mut window = Window::new(Position { x: 0, y: 0 }, Size { width: 4, height: 2 });
    window.cursor = Position { x: 9, y: 9 };
    window.keep_cursor_within_bounds();
    assert_eq!(window.cursor, Position { x: 3, y: 1 });
    let mut empty = Window::default();
    empty.cursor = Position { x: 9, y: 9 };
    empty.keep_cursor_within_bounds();
    assert_eq!(empty.cursor, Position { x: 0, y: 0 });
}
