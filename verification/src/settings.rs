//! Display settings of windows, buffers and the editor.

use vstd::prelude::*;

verus! {

/// The characters that frame a window.
#[derive(Clone, Copy, Debug, PartialEq, Eq, Structural)]
pub struct WindowBorders {
    pub top_left: char,
    pub top_right: char,
    pub bottom_left: char,
    pub bottom_right: char,
    pub top_bar: char,
    pub bottom_bar: char,
    pub left_bar: char,
    pub right_bar: char,
}

#[derive(Clone, Copy, Debug, PartialEq, Eq, Structural)]
pub struct WindowSettings {
    pub borders: WindowBorders,
    /// Whether lines are numbered.
    pub number: bool,
}

#[derive(Clone, Copy, Debug, PartialEq, Eq, Structural)]
pub struct EditorSettings {
    /// Whether the status line names the mode.
    pub showmode: bool,
}

#[derive(Clone, Copy, Debug, PartialEq, Eq, Structural)]
pub struct BufferSettings {
    pub modifiable: bool,
}

impl WindowBorders {
    /// A frame of `+`, `-` and `|`.
    pub open spec fn ascii_spec() -> WindowBorders {
        WindowBorders {
            top_left: '+',
            top_right: '+',
            bottom_left: '+',
            bottom_right: '+',
            top_bar: '-',
            bottom_bar: '-',
            left_bar: '|',
            right_bar: '|',
        }
    }

    /// A frame of box-drawing characters.
    pub open spec fn unicode_spec() -> WindowBorders {
        WindowBorders {
            top_left: '\u{250c}',
            top_right: '\u{2510}',
            bottom_left: '\u{2514}',
            bottom_right: '\u{2518}',
            top_bar: '\u{2500}',
            bottom_bar: '\u{2500}',
            left_bar: '\u{2502}',
            right_bar: '\u{2502}',
        }
    }

    /// A frame of `+`, `-` and `|`.
    pub fn ascii() -> (borders: WindowBorders)
        ensures
            borders == WindowBorders::ascii_spec(),
    {
        WindowBorders {
            top_left: '+',
            top_right: '+',
            bottom_left: '+',
            bottom_right: '+',
            top_bar: '-',
            bottom_bar: '-',
            left_bar: '|',
            right_bar: '|',
        }
    }

    /// A frame of box-drawing characters.
    pub fn unicode() -> (borders: WindowBorders)
        ensures
            borders == WindowBorders::unicode_spec(),
    {
        WindowBorders {
            top_left: '\u{250c}',
            top_right: '\u{2510}',
            bottom_left: '\u{2514}',
            bottom_right: '\u{2518}',
            top_bar: '\u{2500}',
            bottom_bar: '\u{2500}',
            left_bar: '\u{2502}',
            right_bar: '\u{2502}',
        }
    }
}

impl WindowSettings {
    /// Box-drawing borders and numbered lines.
    pub open spec fn default_spec() -> WindowSettings {
        WindowSettings { borders: WindowBorders::unicode_spec(), number: true }
    }
}

impl Default for EditorSettings {
    fn default() -> (settings: EditorSettings)
        ensures
            settings == (EditorSettings { showmode: true }),
    {
        EditorSettings { showmode: true }
    }
}

impl Default for BufferSettings {
    fn default() -> (settings: BufferSettings)
        ensures
            settings == (BufferSettings { modifiable: false }),
    {
        BufferSettings { modifiable: false }
    }
}

impl Default for WindowSettings {
    fn default() -> (settings: WindowSettings)
        ensures
            settings == WindowSettings::default_spec(),
    {
        WindowSettings { borders: WindowBorders::unicode(), number: true }
    }
}

} // verus!
