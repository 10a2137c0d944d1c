//! The editor: buffers, the windows that show them, and the tabs that group
//! the windows.
//!
//! Buffers and windows live in arenas and are known by handles. A window that
//! is closed keeps its slot, and the slot is used again for a later window:
//! a handle stays valid for as long as the editor lives. Every function of
//! [`Editor`] is stated over the editor's view, [`EditorView`], on which the
//! rules of focus, splitting and tabs are plain functions.

use crate::editor::consistency::lemma_free_slot_extends;
use crate::editor::model::{all_redrawn, free_slot, free_slot_beside};
use crate::indexvec::{IndexVec, VecIndex};
use crate::settings::{BufferSettings, EditorSettings, WindowSettings};
use crate::terminal::{Position, Size};
use crate::text::PieceTable;
use crate::util::{Direction, rotate_backward, rotate_forward};
use vstd::prelude::*;
use vstd::view::View as _;

pub mod consistency;
pub mod laws;
pub mod model;

verus! {

/// The handle of a buffer.
#[derive(Clone, Copy, Debug, PartialEq, Eq, Structural)]
pub struct BufferID(pub usize);

/// The handle of a window.
#[derive(Clone, Copy, Debug, PartialEq, Eq, Structural)]
pub struct WindowID(pub usize);

impl VecIndex for BufferID {
    open spec fn as_index(self) -> usize {
        self.0
    }

    fn get(self) -> (index: usize) {
        self.0
    }

    fn new(index: usize) -> (handle: Self) {
        BufferID(index)
    }
}

impl VecIndex for WindowID {
    open spec fn as_index(self) -> usize {
        self.0
    }

    fn get(self) -> (index: usize) {
        self.0
    }

    fn new(index: usize) -> (handle: Self) {
        WindowID(index)
    }
}

impl Default for BufferID {
    fn default() -> (handle: BufferID)
        ensures
            handle == BufferID(0),
    {
        BufferID(0)
    }
}

impl Default for WindowID {
    fn default() -> (handle: WindowID)
        ensures
            handle == WindowID(0),
    {
        WindowID(0)
    }
}

pub type BufferVec = IndexVec<Buffer, BufferID>;

pub type WindowVec = IndexVec<Window, WindowID>;

/// How input is read. `Normal` is where the editor starts.
#[derive(Clone, Copy, Debug, PartialEq, Eq, Structural)]
pub enum Mode {
    Normal,
    Visual,
    Insert,
    Window,
    CommandLine,
    OperatorPending,
}

impl Default for Mode {
    fn default() -> (mode: Mode)
        ensures
            mode == Mode::Normal,
    {
        Mode::Normal
    }
}

/// A path of the file system, as std holds it. Nothing here looks inside.
#[verifier::external_type_specification]
#[verifier::external_body]
pub struct ExPathBuf(std::path::PathBuf);

/// A point in time, as std holds it. Nothing here looks inside.
#[verifier::external_type_specification]
#[verifier::external_body]
pub struct ExSystemTime(std::time::SystemTime);

/// The file that a buffer was read from, and when that file was last
/// modified as far as the editor knows.
pub struct FileInfo {
    pub path: std::path::PathBuf,
    pub time: std::time::SystemTime,
}

/// A text with what the editor knows about it.
pub struct Buffer {
    pub text: PieceTable,
    pub file_info: Option<FileInfo>,
    pub settings: BufferSettings,
    /// The windows that show this buffer. The editor keeps this list.
    pub windows: Vec<WindowID>,
}

/// The part of a buffer that a window shows.
#[derive(Clone, Copy, Debug)]
pub struct View {
    /// The first column of the text that is shown.
    pub offset: u16,
    pub size: Size,
    pub buffer: BufferID,
}

/// A rectangle of the canvas, with a cursor and perhaps a view of a buffer.
#[derive(Clone, Copy, Debug)]
pub struct Window {
    /// The top left cell, on the canvas.
    pub position: Position,
    /// The cursor, counted from `position`.
    pub cursor: Position,
    pub size: Size,
    pub view: Option<View>,
    pub settings: WindowSettings,
    pub is_open: bool,
    /// Whether the window has changed since it was last drawn.
    pub redraw: bool,
}

/// A group of windows, one of which has the focus.
pub struct Tab {
    pub open_windows: Vec<WindowID>,
    pub window_focus: WindowID,
}

/// The buffers, the windows and the tabs, with the mode, the status line
/// and the size of the canvas.
pub struct Editor {
    buffers: BufferVec,
    windows: WindowVec,
    tabs: Vec<Tab>,
    status: Option<String>,
    mode: Mode,
    size: Size,
    settings: EditorSettings,
    current_tab: usize,
}

/// A tab, as a value of the model.
pub struct TabView {
    pub open_windows: Seq<WindowID>,
    pub window_focus: WindowID,
}

/// A buffer, as a value of the model.
pub struct BufferView {
    pub text: PieceTable,
    pub file_info: Option<FileInfo>,
    pub settings: BufferSettings,
    pub windows: Seq<WindowID>,
}

/// An editor, as a value of the model.
pub struct EditorView {
    pub buffers: Seq<BufferView>,
    pub windows: Seq<Window>,
    pub tabs: Seq<TabView>,
    pub status: Option<Seq<char>>,
    pub mode: Mode,
    /// The size of the canvas. Its last row is the status line.
    pub size: Size,
    pub settings: EditorSettings,
    pub current_tab: int,
}

impl vstd::view::View for Tab {
    type V = TabView;

    open spec fn view(&self) -> TabView {
        TabView { open_windows: self.open_windows@, window_focus: self.window_focus }
    }
}

impl vstd::view::View for Buffer {
    type V = BufferView;

    open spec fn view(&self) -> BufferView {
        BufferView {
            text: self.text,
            file_info: self.file_info,
            settings: self.settings,
            windows: self.windows@,
        }
    }
}

impl vstd::view::View for Editor {
    type V = EditorView;

    closed spec fn view(&self) -> EditorView {
        EditorView {
            buffers: buffer_views(self.buffers@),
            windows: self.windows@,
            tabs: tab_views(self.tabs@),
            status: status_view(self.status),
            mode: self.mode,
            size: self.size,
            settings: self.settings,
            current_tab: self.current_tab as int,
        }
    }
}

/// The views of the buffers of an arena.
pub open spec fn buffer_views(buffers: Seq<Buffer>) -> Seq<BufferView> {
    Seq::new(buffers.len(), |b: int| buffers[b]@)
}

/// The views of the tabs of a tab list.
pub open spec fn tab_views(tabs: Seq<Tab>) -> Seq<TabView> {
    Seq::new(tabs.len(), |t: int| tabs[t]@)
}

/// The characters of a status message, where there is one.
pub open spec fn status_view(status: Option<String>) -> Option<Seq<char>> {
    match status {
        Some(message) => Some(message@),
        None => None,
    }
}

impl Window {
    pub fn new(position: Position, size: Size) -> (window: Window)
        ensures
            window == Window::new_spec(position, size),
    {
        Window {
            position,
            cursor: Position::default(),
            size,
            view: None,
            settings: WindowSettings::default(),
            is_open: false,
            redraw: true,
        }
    }

    /// Moves the cursor back into the window where it lies beyond it.
    pub fn keep_cursor_within_bounds(&mut self)
        ensures
            *final(self) == old(self).with_cursor_within_bounds(),
    {
        let last_column = self.size.width.saturating_sub(1);
        let last_row = self.size.height.saturating_sub(1);
        if self.cursor.x > last_column {
            self.cursor.x = last_column;
        }
        if self.cursor.y > last_row {
            self.cursor.y = last_row;
        }
    }

    pub fn contains_x(&self, x: u16) -> (inside: bool)
        ensures
            inside == self.covers_x(x),
    {
        (self.position.x <= x) && ((x as u32) < self.position.x as u32 + self.size.width as u32)
    }

    pub fn contains_y(&self, y: u16) -> (inside: bool)
        ensures
            inside == self.covers_y(y),
    {
        (self.position.y <= y) && ((y as u32) < self.position.y as u32 + self.size.height as u32)
    }

    pub fn contains(&self, position: Position) -> (inside: bool)
        ensures
            inside == self.covers(position),
    {
        self.contains_x(position.x) && self.contains_y(position.y)
    }
}

impl Default for Buffer {
    /// A buffer with an empty text that was read from no file.
    fn default() -> (buffer: Buffer)
        ensures
            buffer.text.wf(),
            buffer.text@ == Seq::<u8>::empty(),
            buffer.file_info is None,
            buffer.settings == (BufferSettings { modifiable: false }),
            buffer.windows@ == Seq::<WindowID>::empty(),
    {
        Buffer {
            text: PieceTable::default(),
            file_info: None,
            settings: BufferSettings::default(),
            windows: Vec::new(),
        }
    }
}

impl Default for Window {
    fn default() -> (window: Window)
        ensures
            window == Window::default_spec(),
    {
        Window {
            position: Position::default(),
            cursor: Position::default(),
            size: Size::default(),
            view: None,
            settings: WindowSettings::default(),
            is_open: false,
            redraw: false,
        }
    }
}

/// Marks every window of the arena as changed.
fn redraw_all(windows: &mut WindowVec)
    ensures
        final(windows)@ == all_redrawn(old(windows)@),
{
    let mut index: usize = 0;
    while index < windows.len()
        invariant
            index <= windows@.len(),
            windows@.len() == old(windows)@.len(),
            forall|w: int|
                0 <= w < windows@.len() ==> #[trigger] windows@[w] == if w < index {
                    Window { redraw: true, ..old(windows)@[w] }
                } else {
                    old(windows)@[w]
                },
        decreases windows@.len() - index,
    {
        let handle = WindowID(index);
        let mut window = windows[handle];
        window.redraw = true;
        windows.set(handle, window);
        index += 1;
    }
}

/// Takes `window` off the list of the buffer `buffer`.
fn forget_window(buffers: &mut BufferVec, buffer: BufferID, window: WindowID)
    requires
        buffer.0 < old(buffers)@.len(),
    ensures
        buffer_views(final(buffers)@) == buffer_views(old(buffers)@).update(
            buffer.0 as int,
            BufferView {
                windows: old(buffers)@[buffer.0 as int]@.windows.remove_value(window),
                ..old(buffers)@[buffer.0 as int]@
            },
        ),
{
    let entry = buffers.get_mut(buffer);
    let ghost list = entry.windows@;
    let mut index: usize = 0;
    while index < entry.windows.len() && entry.windows[index] != window
        invariant
            index <= list.len(),
            entry.windows@ == list,
            forall|k: int| 0 <= k < index ==> list[k] != window,
        decreases list.len() - index,
    {
        index += 1;
    }
    proof {
        list.index_of_first_ensures(window);
    }
    if index < entry.windows.len() {
        entry.windows.remove(index);
    }
}

/// Puts `window` on the list of the buffer `buffer`.
fn record_window(buffers: &mut BufferVec, buffer: BufferID, window: WindowID)
    requires
        buffer.0 < old(buffers)@.len(),
    ensures
        buffer_views(final(buffers)@) == buffer_views(old(buffers)@).update(
            buffer.0 as int,
            BufferView {
                windows: old(buffers)@[buffer.0 as int]@.windows.push(window),
                ..old(buffers)@[buffer.0 as int]@
            },
        ),
{
    let entry = buffers.get_mut(buffer);
    entry.windows.push(window);
}

impl Editor {
    /// The view is consistent and has a current tab.
    pub open spec fn wf(&self) -> bool {
        self@.wf()
    }

    /// An editor on a canvas of the given size, with one tab.
    pub fn new(size: Size) -> (editor: Editor)
        requires
            size.height >= 1,
        ensures
            editor@ == EditorView::initial(size),
            editor@.wf(),
            editor@.within_canvas(),
    {
        let mut editor = Editor {
            buffers: BufferVec::new(),
            windows: WindowVec::new(),
            tabs: Vec::new(),
            mode: Mode::Normal,
            size,
            settings: EditorSettings::default(),
            status: None,
            current_tab: 0,
        };
        assert(editor@.buffers =~= Seq::empty());
        assert(editor@.tabs =~= Seq::empty());
        let tab = editor.new_tab();
        editor.tabs.push(tab);
        proof {
            assert(editor@.tabs =~= seq![tab@]);
        }
        editor
    }

    /// Adds the window of a new tab to the arena and returns the tab, which
    /// is not yet on the tab list.
    pub fn new_tab(&mut self) -> (tab: Tab)
        requires
            old(self)@.consistent(),
            old(self)@.size.height >= 1,
        ensures
            final(self)@ == old(self)@.with_tab_window(),
            tab@ == old(self)@.new_tab(),
            final(self)@.consistent(),
            tab@.valid_in(final(self)@.windows.len()),
            old(self)@.within_canvas() ==> final(self)@.within_canvas(),
    {
        let mut window = Window::default();
        window.size = Size { width: self.size.width, height: self.size.height - 1 };
        window.is_open = true;
        window.redraw = true;
        let default_window_id = self.windows.push(window);
        let mut open_windows = Vec::new();
        open_windows.push(default_window_id);
        let tab = Tab { open_windows, window_focus: default_window_id };
        tab
    }

    /// Puts `message` on the status line.
    pub fn emit_message(&mut self, message: String)
        ensures
            final(self)@ == old(self)@.with_message(message@),
            old(self)@.wf() ==> final(self)@.wf(),
    {
        self.status = Some(message);
    }

    /// Takes the message off the status line.
    pub fn clear_message(&mut self)
        ensures
            final(self)@ == (EditorView { status: None, ..old(self)@ }),
            old(self)@.wf() ==> final(self)@.wf(),
    {
        self.status = None;
    }

    /// Marks every window as changed.
    pub fn force_redraw(&mut self)
        ensures
            final(self)@ == old(self)@.redrawn(),
            old(self)@.consistent() ==> final(self)@.consistent(),
            old(self)@.wf() ==> final(self)@.wf(),
            old(self)@.within_canvas() ==> final(self)@.within_canvas(),
    {
        redraw_all(&mut self.windows);
    }

    /// The window that has the focus in the current tab.
    pub fn window_focus(&self) -> (focus: WindowID)
        requires
            self@.wf(),
        ensures
            focus == self@.focus(),
            focus.0 < self@.windows.len(),
    {
        self.tabs[self.current_tab].window_focus
    }

    /// The handles of all windows, open or closed, in the order of the arena.
    pub fn window_ids(&self) -> (handles: Vec<WindowID>)
        ensures
            handles@ == Seq::new(self@.windows.len(), |w: int| WindowID(w as usize)),
    {
        let mut handles = Vec::new();
        let mut index: usize = 0;
        while index < self.windows.len()
            invariant
                index <= self.windows@.len(),
                handles@ == Seq::new(index as nat, |w: int| WindowID(w as usize)),
            decreases self.windows@.len() - index,
        {
            handles.push(WindowID(index));
            index += 1;
        }
        handles
    }

    /// A slot for a new window: the first whose window is closed, or a new
    /// one with a closed default window. The window stays closed.
    pub fn new_window(&mut self) -> (slot: WindowID)
        requires
            old(self)@.wf(),
        ensures
            slot.0 == free_slot(old(self)@.windows),
            final(self)@ == old(self)@.with_free_slot(),
            slot.0 < final(self)@.windows.len(),
            final(self)@.wf(),
            old(self)@.within_canvas() ==> final(self)@.within_canvas(),
    {
        let mut index: usize = 0;
        while index < self.windows.len()
            invariant
                index <= self.windows@.len(),
                index == free_slot(self.windows@.take(index as int)),
                self@ == old(self)@,
                self@.wf(),
            decreases self.windows@.len() - index,
        {
            proof {
                assert(self.windows@.take(index + 1).drop_last() =~= self.windows@.take(
                    index as int,
                ));
            }
            if !self.windows[WindowID(index)].is_open {
                proof {
                    self@.lemma_free_slot_found(index as int);
                }
                return WindowID(index);
            }
            index += 1;
        }
        let slot = self.windows.push(Window::default());
        proof {
            assert(old(self).windows@.take(index as int) =~= old(self).windows@);
        }
        slot
    }

    /// Moves the focus of the current tab to `new_focus`.
    fn set_window_focus(&mut self, new_focus: WindowID)
        requires
            old(self)@.wf(),
            new_focus.0 < old(self)@.windows.len(),
        ensures
            final(self)@ == old(self)@.with_focus(new_focus),
            final(self)@.wf(),
            old(self)@.within_canvas() ==> final(self)@.within_canvas(),
    {
        let before = self.tabs[self.current_tab].window_focus;
        let mut window = self.windows[before];
        window.redraw = true;
        self.windows.set(before, window);
        let mut window = self.windows[new_focus];
        window.redraw = true;
        self.windows.set(new_focus, window);
        self.tabs[self.current_tab].window_focus = new_focus;
        proof {
            assert(self@.tabs =~= old(self)@.with_focus(new_focus).tabs);
        }
    }

    /// Makes the window `window` show `view`, and keeps the lists of the
    /// buffers.
    fn set_view(&mut self, window: WindowID, view: Option<View>)
        requires
            old(self)@.consistent(),
            window.0 < old(self)@.windows.len(),
            match view {
                Some(shown) => shown.buffer.0 < old(self)@.buffers.len(),
                None => true,
            },
        ensures
            final(self)@ == old(self)@.with_view(window, view),
            final(self)@.consistent(),
            old(self)@.within_canvas() ==> final(self)@.within_canvas(),
    {
        let mut updated = self.windows[window];
        proof {
            old(self)@.lemma_with_view(window, view);
        }
        match updated.view {
            Some(shown) => {
                forget_window(&mut self.buffers, shown.buffer, window);
            },
            None => {},
        }
        match view {
            Some(shown) => {
                record_window(&mut self.buffers, shown.buffer, window);
            },
            None => {},
        }
        updated.view = view;
        self.windows.set(window, updated);
    }

    /// A slot for the new half of the focused window: the first whose
    /// window is closed and has not the focus, or a new one with a closed
    /// default window.
    fn slot_beside_focus(&mut self) -> (slot: WindowID)
        requires
            old(self)@.wf(),
        ensures
            slot.0 == free_slot_beside(old(self)@.windows, old(self)@.focus().0 as int),
            final(self)@ == old(self)@.with_slot(slot.0 as int),
            slot.0 < final(self)@.windows.len(),
            slot != old(self)@.focus(),
            final(self)@.wf(),
            old(self)@.within_canvas() ==> final(self)@.within_canvas(),
    {
        let focus = self.window_focus();
        let ghost kept = self@.windows.update(
            focus.0 as int,
            Window { is_open: true, ..self@.windows[focus.0 as int] },
        );
        let mut index: usize = 0;
        while index < self.windows.len()
            invariant
                index <= self.windows@.len(),
                index == free_slot(kept.take(index as int)),
                focus.0 < self.windows@.len(),
                focus == old(self)@.focus(),
                kept == self.windows@.update(
                    focus.0 as int,
                    Window { is_open: true, ..self.windows@[focus.0 as int] },
                ),
                self@ == old(self)@,
                self@.wf(),
            decreases self.windows@.len() - index,
        {
            proof {
                assert(kept.take(index + 1).drop_last() =~= kept.take(index as int));
            }
            if index != focus.0 && !self.windows[WindowID(index)].is_open {
                proof {
                    assert(kept.take(index + 1).last() == self.windows@[index as int]);
                    lemma_free_slot_extends(kept, index + 1);
                }
                return WindowID(index);
            }
            index += 1;
        }
        let slot = self.windows.push(Window::default());
        proof {
            assert(kept.take(index as int) =~= kept);
        }
        slot
    }

    /// Puts `window`, open, in a slot beside the focused window and on the
    /// list of the current tab.
    fn place_window(&mut self, window: Window)
        requires
            old(self)@.wf(),
            window.wf(),
            match window.view {
                Some(shown) => shown.buffer.0 < old(self)@.buffers.len(),
                None => true,
            },
        ensures
            final(self)@ == old(self)@.with_new_window(window),
            final(self)@.wf(),
            old(self)@.within_canvas() && window.position.x + window.size.width
                <= old(self)@.size.width && window.position.y + window.size.height
                <= old(self)@.size.height
                ==> final(self)@.within_canvas(),
    {
        let slot = self.slot_beside_focus();
        self.set_view(slot, None);
        let mut placed = window;
        placed.view = None;
        placed.is_open = true;
        self.windows.set(slot, placed);
        self.set_view(slot, window.view);
        self.tabs[self.current_tab].open_windows.push(slot);
        assert(self@.tabs =~= old(self)@.with_new_window(window).tabs);
    }

    /// Splits the focused window between two columns. The left half stays
    /// in its slot, and the right half is a new window of the current tab.
    /// A window under 6 columns wide is not split, and the status line says
    /// so.
    pub fn vertical_split_window(&mut self)
        requires
            old(self)@.wf(),
        ensures
            final(self)@ == old(self)@.split_vertically(),
            final(self)@.wf(),
            old(self)@.within_canvas() ==> final(self)@.within_canvas(),
    {
        let focus = self.window_focus();
        let mut left = self.windows[focus];
        if left.size.width < 6 {
            self.emit_message("The window is too small for a vertical split".to_owned());
            return ;
        }
        let remainder = left.size.width % 2;
        left.size.width = left.size.width / 2;
        left.keep_cursor_within_bounds();
        left.redraw = true;
        let mut right = left;
        right.size.width = right.size.width + remainder;
        right.position.x = right.position.x + left.size.width;
        self.windows.set(focus, left);
        self.place_window(right);
    }

    /// Splits the focused window between two rows. The upper half stays in
    /// its slot, and the lower half is a new window of the current tab. A
    /// window under 6 rows high is not split, and the status line says so.
    pub fn horizontal_split_window(&mut self)
        requires
            old(self)@.wf(),
        ensures
            final(self)@ == old(self)@.split_horizontally(),
            final(self)@.wf(),
            old(self)@.within_canvas() ==> final(self)@.within_canvas(),
    {
        let focus = self.window_focus();
        let mut above = self.windows[focus];
        if above.size.height < 6 {
            self.emit_message("The window is too small for a horizontal split".to_owned());
            return ;
        }
        let remainder = above.size.height % 2;
        above.size.height = above.size.height / 2;
        above.keep_cursor_within_bounds();
        above.redraw = true;
        let mut below = above;
        below.size.height = below.size.height + remainder;
        below.position.y = below.position.y + above.size.height;
        self.windows.set(focus, above);
        self.place_window(below);
    }

    /// Opens a new tab behind the current one and makes it the current tab.
    pub fn tab_open(&mut self)
        requires
            old(self)@.wf(),
            old(self)@.size.height >= 1,
        ensures
            final(self)@ == old(self)@.tab_opened(),
            final(self)@.wf(),
            old(self)@.within_canvas() ==> final(self)@.within_canvas(),
    {
        let tab = self.new_tab();
        proof {
            assert(self.tabs@.len() == self.tabs.len());
        }
        self.tabs.insert(self.current_tab + 1, tab);
        assert(self@.tabs =~= old(self)@.with_tab_window().tabs.insert(
            old(self)@.current_tab + 1,
            old(self)@.new_tab(),
        ));
        self.set_current_tab(self.current_tab + 1);
    }

    /// Closes the window `window`: it shows no buffer any more, and its slot
    /// is free.
    fn close_window(&mut self, window: WindowID)
        requires
            old(self)@.consistent(),
            window.0 < old(self)@.windows.len(),
        ensures
            final(self)@ == old(self)@.with_window_closed(window),
            final(self)@.consistent(),
            old(self)@.within_canvas() ==> final(self)@.within_canvas(),
    {
        self.set_view(window, None);
        let mut closed = self.windows[window];
        closed.is_open = false;
        self.windows.set(window, closed);
    }

    /// Closes the current tab, unless it is the only one: then the status
    /// line says that it stays.
    pub fn tab_close(&mut self)
        requires
            old(self)@.wf(),
        ensures
            final(self)@ == old(self)@.tab_closed(),
            final(self)@.wf(),
            old(self)@.within_canvas() ==> final(self)@.within_canvas(),
    {
        if self.tabs.len() == 1 {
            self.emit_message("Cannot close last tab".to_owned());
            return ;
        }
        let ghost closing = self@.tabs[self@.current_tab].open_windows;
        let count = self.tabs[self.current_tab].open_windows.len();
        let mut index: usize = 0;
        while index < count
            invariant
                index <= count,
                count == closing.len(),
                old(self)@.wf(),
                closing == old(self)@.tabs[old(self)@.current_tab].open_windows,
                self@ == old(self)@.with_windows_closed(closing.take(index as int)),
                self@.tabs == old(self)@.tabs,
                self@.current_tab == old(self)@.current_tab,
                self@.windows.len() == old(self)@.windows.len(),
                self@.consistent(),
                old(self)@.within_canvas() ==> self@.within_canvas(),
            decreases count - index,
        {
            proof {
                assert(closing.take(index + 1).drop_last() =~= closing.take(index as int));
            }
            let window = self.tabs[self.current_tab].open_windows[index];
            self.close_window(window);
            index += 1;
        }
        proof {
            assert(closing.take(index as int) =~= closing);
        }
        self.tabs.remove(self.current_tab);
        assert(self@.tabs =~= old(self)@.tabs.remove(old(self)@.current_tab));
        if self.current_tab == self.tabs.len() {
            self.set_current_tab(self.current_tab - 1);
        }
    }

    /// Shows `buffer` in the focused window, as a new buffer of the editor.
    /// The window must be 2 cells wide and high at least: the view is the
    /// window without its frame.
    pub fn edit(&mut self, buffer: Buffer)
        requires
            old(self)@.wf(),
            buffer.text.wf(),
            old(self)@.windows[old(self)@.focus().0 as int].size.width >= 2,
            old(self)@.windows[old(self)@.focus().0 as int].size.height >= 2,
        ensures
            final(self)@ == old(self)@.edited(buffer@),
            final(self)@.wf(),
            old(self)@.within_canvas() ==> final(self)@.within_canvas(),
    {
        let mut buffer = buffer;
        buffer.windows = Vec::new();
        let focus = self.window_focus();
        let window = self.windows[focus];
        let handle = self.buffers.push(buffer);
        assert(self@.buffers =~= old(self)@.buffers.push(
            BufferView { windows: Seq::empty(), ..buffer@ },
        ));
        let size = Size { width: window.size.width - 2, height: window.size.height - 2 };
        let view = View { offset: window.position.x + 1, size, buffer: handle };
        self.set_view(focus, Some(view));
        let mut window = self.windows[focus];
        window.cursor = Position::default();
        window.redraw = true;
        self.windows.set(focus, window);
    }

    /// How input is read.
    pub fn mode(&self) -> (mode: Mode)
        ensures
            mode == self@.mode,
    {
        self.mode
    }

    /// Changes how input is read.
    pub fn set_mode(&mut self, mode: Mode)
        ensures
            final(self)@ == (EditorView { mode, ..old(self)@ }),
            old(self)@.wf() ==> final(self)@.wf(),
    {
        self.mode = mode;
    }

    /// The message on the status line, where there is one.
    pub fn status(&self) -> (status: &Option<String>)
        ensures
            status_view(*status) == self@.status,
    {
        &self.status
    }

    /// The size of the canvas.
    pub fn size(&self) -> (size: Size)
        ensures
            size == self@.size,
    {
        self.size
    }

    /// Takes note of a new size of the canvas. The windows stay as they are:
    /// what lies beyond the canvas is for the renderer to clip.
    pub fn set_size(&mut self, size: Size)
        ensures
            final(self)@ == (EditorView { size, ..old(self)@ }),
            old(self)@.wf() ==> final(self)@.wf(),
    {
        self.size = size;
    }

    pub fn settings(&self) -> (settings: EditorSettings)
        ensures
            settings == self@.settings,
    {
        self.settings
    }

    /// The position of the current tab on the tab list.
    pub fn current_tab(&self) -> (tab: usize)
        ensures
            tab == self@.current_tab,
    {
        self.current_tab
    }

    /// The number of tabs.
    pub fn tab_count(&self) -> (count: usize)
        ensures
            count == self@.tabs.len(),
    {
        self.tabs.len()
    }

    /// The tab at the position `tab` of the tab list.
    pub fn tab(&self, tab: usize) -> (found: &Tab)
        requires
            tab < self@.tabs.len(),
        ensures
            found@ == self@.tabs[tab as int],
    {
        &self.tabs[tab]
    }

    /// The number of windows, open or closed.
    pub fn window_count(&self) -> (count: usize)
        ensures
            count == self@.windows.len(),
    {
        self.windows.len()
    }

    /// The window with the handle `window`.
    pub fn window(&self, window: WindowID) -> (found: Window)
        requires
            window.0 < self@.windows.len(),
        ensures
            found == self@.windows[window.0 as int],
    {
        self.windows[window]
    }

    /// The number of buffers.
    pub fn buffer_count(&self) -> (count: usize)
        ensures
            count == self@.buffers.len(),
    {
        self.buffers.len()
    }

    /// The buffer with the handle `buffer`.
    pub fn buffer(&self, buffer: BufferID) -> (found: &Buffer)
        requires
            buffer.0 < self@.buffers.len(),
        ensures
            found@ == self@.buffers[buffer.0 as int],
    {
        &self.buffers[buffer]
    }

    /// Notes that the window `window` was drawn as it is.
    pub fn mark_drawn(&mut self, window: WindowID)
        requires
            window.0 < old(self)@.windows.len(),
        ensures
            final(self)@ == old(self)@.with_window(
                window,
                Window { redraw: false, ..old(self)@.windows[window.0 as int] },
            ),
    {
        let mut drawn = self.windows[window];
        drawn.redraw = false;
        self.windows.set(window, drawn);
    }

    /// The first open window of the current tab, other than the focused
    /// one, that covers the cell `position`.
    fn window_at(&self, position: Position) -> (found: Option<WindowID>)
        requires
            self@.wf(),
        ensures
            found == self@.window_at(self@.tabs[self@.current_tab].open_windows, position),
    {
        let focus = self.window_focus();
        let tab = &self.tabs[self.current_tab];
        let ghost windows = tab.open_windows@;
        let mut index: usize = 0;
        while index < tab.open_windows.len()
            invariant
                index <= windows.len(),
                windows == tab.open_windows@,
                windows == self@.tabs[self@.current_tab].open_windows,
                self@.tabs[self@.current_tab].valid_in(self@.windows.len()),
                focus == self@.focus(),
                self@.window_at(windows.take(index as int), position) is None,
            decreases windows.len() - index,
        {
            let window = tab.open_windows[index];
            proof {
                assert(windows.take(index + 1).drop_last() =~= windows.take(index as int));
            }
            if window != focus && self.windows[window].contains(position) {
                proof {
                    self@.lemma_window_at_extends(windows, index + 1, position);
                }
                return Some(window);
            }
            index += 1;
        }
        proof {
            assert(windows.take(index as int) =~= windows);
        }
        None
    }

    /// Follows a beam over the cells `beam` to the first window that it
    /// finds.
    pub fn run_cursor_focus_beam(&self, beam: &Vec<Position>) -> (target: Option<WindowID>)
        requires
            self@.wf(),
        ensures
            target == self@.beam_target(beam@),
    {
        let mut step: usize = 0;
        while step < beam.len()
            invariant
                step <= beam@.len(),
                self@.wf(),
                self@.beam_target(beam@.take(step as int)) is None,
            decreases beam@.len() - step,
        {
            proof {
                assert(beam@.take(step + 1).drop_last() =~= beam@.take(step as int));
            }
            match self.window_at(beam[step]) {
                Some(window) => {
                    proof {
                        self@.lemma_beam_target_extends(beam@, step + 1);
                    }
                    return Some(window);
                },
                None => {},
            }
            step += 1;
        }
        proof {
            assert(beam@.take(step as int) =~= beam@);
        }
        None
    }

    /// Sends a beam from the focused window in the given direction and
    /// returns the window that it finds.
    pub fn send_cursor_focus_beam(&self, direction: Direction) -> (target: Option<WindowID>)
        requires
            self@.wf(),
        ensures
            target == self@.beam_target(self@.beam(direction)),
    {
        let window = self.windows[self.window_focus()];
        let cursor = window.position.offset(window.cursor);
        let mut beam: Vec<Position> = Vec::new();
        match direction {
            Direction::Up => {
                let mut y: u16 = window.position.y;
                while y > 0
                    invariant
                        y <= window.position.y,
                        beam@ == Seq::new(
                            (window.position.y - y) as nat,
                            |k: int|
                                Position { x: cursor.x, y: (window.position.y - 1 - k) as u16 },
                        ),
                    decreases y,
                {
                    y -= 1;
                    beam.push(Position { x: cursor.x, y });
                }
            },
            Direction::Down => {
                let bottom: u16 = window.position.y + window.size.height;
                let mut y: u16 = bottom;
                while y < self.size.height
                    invariant
                        bottom <= y,
                        y <= self.size.height || y == bottom,
                        beam@ == Seq::new(
                            (y - bottom) as nat,
                            |k: int| Position { x: cursor.x, y: (bottom + k) as u16 },
                        ),
                    decreases self.size.height - y,
                {
                    beam.push(Position { x: cursor.x, y });
                    y += 1;
                }
            },
            Direction::Left => {
                let mut x: u16 = window.position.x;
                while x > 0
                    invariant
                        x <= window.position.x,
                        beam@ == Seq::new(
                            (window.position.x - x) as nat,
                            |k: int|
                                Position { x: (window.position.x - 1 - k) as u16, y: cursor.y },
                        ),
                    decreases x,
                {
                    x -= 1;
                    beam.push(Position { x, y: cursor.y });
                }
            },
            Direction::Right => {
                let right: u16 = window.position.x + window.size.width;
                let mut x: u16 = right;
                while x < self.size.width
                    invariant
                        right <= x,
                        x <= self.size.width || x == right,
                        beam@ == Seq::new(
                            (x - right) as nat,
                            |k: int| Position { x: (right + k) as u16, y: cursor.y },
                        ),
                    decreases self.size.width - x,
                {
                    beam.push(Position { x, y: cursor.y });
                    x += 1;
                }
            },
        }
        self.run_cursor_focus_beam(&beam)
    }

    /// Moves the focus to the nearest window in the given direction, as seen
    /// from the cursor. Where there is none, the focus stays.
    pub fn move_focus(&mut self, direction: Direction)
        requires
            old(self)@.wf(),
        ensures
            final(self)@ == old(self)@.focus_moved(direction),
            final(self)@.wf(),
            old(self)@.within_canvas() ==> final(self)@.within_canvas(),
    {
        match self.send_cursor_focus_beam(direction) {
            Some(window) => {
                proof {
                    self@.lemma_beam_target(self@.beam(direction));
                }
                self.set_window_focus(window);
            },
            None => {},
        }
    }

    /// Makes `tab` the current tab.
    fn set_current_tab(&mut self, tab: usize)
        requires
            old(self)@.consistent(),
            tab < old(self)@.tabs.len(),
        ensures
            final(self)@ == old(self)@.with_current_tab(tab as int),
            final(self)@.wf(),
            old(self)@.within_canvas() ==> final(self)@.within_canvas(),
    {
        self.current_tab = tab;
        self.force_redraw();
    }

    /// Makes the tab behind the current one the current tab.
    pub fn tab_next(&mut self)
        requires
            old(self)@.wf(),
        ensures
            final(self)@ == old(self)@.tab_next(),
            final(self)@.wf(),
            old(self)@.within_canvas() ==> final(self)@.within_canvas(),
    {
        let count = self.tabs.len();
        self.set_current_tab(rotate_forward(0, count, self.current_tab));
    }

    /// Makes the tab before the current one the current tab.
    pub fn tab_previous(&mut self)
        requires
            old(self)@.wf(),
        ensures
            final(self)@ == old(self)@.tab_previous(),
            final(self)@.wf(),
            old(self)@.within_canvas() ==> final(self)@.within_canvas(),
    {
        let count = self.tabs.len();
        self.set_current_tab(rotate_backward(0, count, self.current_tab));
    }

    /// Moves the cursor of the focused window one cell, as far as the window
    /// reaches.
    pub fn move_cursor(&mut self, direction: Direction)
        requires
            old(self)@.wf(),
        ensures
            final(self)@ == old(self)@.cursor_moved(direction),
            final(self)@.wf(),
            old(self)@.within_canvas() ==> final(self)@.within_canvas(),
    {
        let focus = self.tabs[self.current_tab].window_focus;
        let mut window = self.windows[focus];
        window.cursor = window.cursor.move_toward(direction);
        window.keep_cursor_within_bounds();
        self.windows.set(focus, window);
    }

    /// Moves the focus of the current tab to the next window of the arena,
    /// whatever tab shows it.
    pub fn rotate_focus_forward(&mut self)
        requires
            old(self)@.wf(),
        ensures
            final(self)@ == old(self)@.focus_rotated_forward(),
            final(self)@.wf(),
            old(self)@.within_canvas() ==> final(self)@.within_canvas(),
    {
        let index = self.window_focus().get();
        let index = rotate_forward(0, self.windows.len(), index);
        self.set_window_focus(WindowID::new(index));
    }

    /// Moves the focus of the current tab to the window before it in the
    /// arena, whatever tab shows it.
    pub fn rotate_focus_backward(&mut self)
        requires
            old(self)@.wf(),
        ensures
            final(self)@ == old(self)@.focus_rotated_backward(),
            final(self)@.wf(),
            old(self)@.within_canvas() ==> final(self)@.within_canvas(),
    {
        let index = self.window_focus().get();
        let index = rotate_backward(0, self.windows.len(), index);
        self.set_window_focus(WindowID::new(index));
    }
}

} // verus!
