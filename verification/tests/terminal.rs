use modal_editor::settings::{BufferSettings, EditorSettings, WindowBorders, WindowSettings};
use modal_editor::terminal::{Position, Size};
use modal_editor::util::Direction;

#[test]
fn move_toward_steps_one_cell() {
    let position = Position { x: 4, y: 7 };
    assert_eq!(position.move_toward(Direction::Up), Position { x: 4, y: 6 });
    assert_eq!(position.move_toward(Direction::Down), Position { x: 4, y: 8 });
    assert_eq!(position.move_toward(Direction::Left), Position { x: 3, y: 7 });
    assert_eq!(position.move_toward(Direction::Right), Position { x: 5, y: 7 });
}

#[test]
fn move_toward_stays_at_the_edges() {
    let origin = Position { x: 0, y: 0 };
    assert_eq!(origin.move_toward(Direction::Up), origin);
    assert_eq!(origin.move_toward(Direction::Left), origin);
    let corner = Position { x: u16::MAX, y: u16::MAX };
    assert_eq!(corner.move_toward(Direction::Down), corner);
    assert_eq!(corner.move_toward(Direction::Right), corner);
}

#[test]
fn offsets_add_up() {
    let position = Position { x: 4, y: 7 };
    assert_eq!(position.offset_x(3), Position { x: 7, y: 7 });
    assert_eq!(position.offset_y(3), Position { x: 4, y: 10 });
    assert_eq!(position.offset(Position { x: 1, y: 2 }), Position { x: 5, y: 9 });
    assert_eq!(Position::default(), Position { x: 0, y: 0 });
    assert_eq!(Size::default(), Size { width: 0, height: 0 });
}

#[test]
fn default_settings() {
    assert!(EditorSettings::default().showmode);
    assert!(!BufferSettings::default().modifiable);
    let window = WindowSettings::default();
    assert!(window.number);
    assert_eq!(window.borders, WindowBorders::unicode());
    assert_eq!(WindowBorders::unicode().top_left, '\u{250c}');
    assert_eq!(WindowBorders::unicode().right_bar, '\u{2502}');
    assert_eq!(WindowBorders::ascii().top_left, '+');
    assert_eq!(WindowBorders::ascii().bottom_bar, '-');
    assert_eq!(WindowBorders::ascii().left_bar, '|');
}
