//! The editor as a value: what it means for an editor to be well formed,
//! and the rules of focus, splitting and tabs as functions from one editor
//! to the next.

use crate::editor::{BufferID, BufferView, EditorView, Mode, TabView, Window, WindowID};
use crate::settings::{EditorSettings, WindowSettings};
use crate::terminal::{Position, Size};
use crate::util::{Direction, rotate_backward_spec, rotate_forward_spec};
use vstd::prelude::*;

verus! {

/// `coordinate`, or the last cell of an extent that it lies beyond.
pub open spec fn clamped(coordinate: u16, extent: u16) -> u16 {
    if coordinate < extent {
        coordinate
    } else if extent == 0 {
        0
    } else {
        (extent - 1) as u16
    }
}

/// Every window of the sequence, marked as changed.
pub open spec fn all_redrawn(windows: Seq<Window>) -> Seq<Window> {
    Seq::new(windows.len(), |w: int| Window { redraw: true, ..windows[w] })
}

/// The first slot of the arena whose window is closed; where every window
/// is open, the slot behind the last.
pub open spec fn free_slot(windows: Seq<Window>) -> int
    decreases windows.len(),
{
    if windows.len() == 0 {
        0
    } else if free_slot(windows.drop_last()) < windows.len() - 1 {
        free_slot(windows.drop_last())
    } else if !windows.last().is_open {
        windows.len() - 1
    } else {
        windows.len() as int
    }
}

/// The first slot of the arena, other than the slot `kept`, whose window is
/// closed; where there is none, the slot behind the last. It is the free
/// slot of the arena with the window `kept` counted as open.
pub open spec fn free_slot_beside(windows: Seq<Window>, kept: int) -> int {
    free_slot(windows.update(kept, Window { is_open: true, ..windows[kept] }))
}

impl Window {
    /// The rectangle does not leave the coordinate range, and the cursor
    /// lies in the window, or on its first cell where it has none.
    pub open spec fn wf(self) -> bool {
        &&& self.position.x + self.size.width <= u16::MAX
        &&& self.position.y + self.size.height <= u16::MAX
        &&& self.cursor.x == clamped(self.cursor.x, self.size.width)
        &&& self.cursor.y == clamped(self.cursor.y, self.size.height)
    }

    /// The window of `Default`: no cells, at the origin, closed, and shown
    /// as unchanged.
    pub open spec fn default_spec() -> Window {
        Window {
            position: Position { x: 0, y: 0 },
            cursor: Position { x: 0, y: 0 },
            size: Size { width: 0, height: 0 },
            view: None,
            settings: WindowSettings::default_spec(),
            is_open: false,
            redraw: false,
        }
    }

    /// A closed window at the given place, with the cursor on its first
    /// cell, no view, and marked as changed.
    pub open spec fn new_spec(position: Position, size: Size) -> Window {
        Window {
            position,
            cursor: Position { x: 0, y: 0 },
            size,
            view: None,
            settings: WindowSettings::default_spec(),
            is_open: false,
            redraw: true,
        }
    }

    /// The window with its cursor moved back into the window.
    pub open spec fn with_cursor_within_bounds(self) -> Window {
        Window {
            cursor: Position {
                x: clamped(self.cursor.x, self.size.width),
                y: clamped(self.cursor.y, self.size.height),
            },
            ..self
        }
    }

    /// Whether the column `x` of the canvas crosses the window.
    pub open spec fn covers_x(self, x: u16) -> bool {
        self.position.x <= x < self.position.x + self.size.width
    }

    /// Whether the row `y` of the canvas crosses the window.
    pub open spec fn covers_y(self, y: u16) -> bool {
        self.position.y <= y < self.position.y + self.size.height
    }

    /// Whether the cell `position` of the canvas lies in the window.
    pub open spec fn covers(self, position: Position) -> bool {
        self.covers_x(position.x) && self.covers_y(position.y)
    }

    /// The two halves of the window, cut between two columns: the left one
    /// in the place of the window, and the right one, which gets the odd
    /// column.
    pub open spec fn vertical_halves(self) -> (Window, Window) {
        let left = Window {
            size: Size { width: self.size.width / 2, height: self.size.height },
            redraw: true,
            ..self
        }.with_cursor_within_bounds();
        let right = Window {
            size: Size {
                width: (left.size.width + self.size.width % 2) as u16,
                height: self.size.height,
            },
            position: Position {
                x: (self.position.x + left.size.width) as u16,
                y: self.position.y,
            },
            ..left
        };
        (left, right)
    }

    /// The two halves of the window, cut between two rows: the upper one in
    /// the place of the window, and the lower one, which gets the odd row.
    pub open spec fn horizontal_halves(self) -> (Window, Window) {
        let above = Window {
            size: Size { width: self.size.width, height: self.size.height / 2 },
            redraw: true,
            ..self
        }.with_cursor_within_bounds();
        let below = Window {
            size: Size {
                width: self.size.width,
                height: (above.size.height + self.size.height % 2) as u16,
            },
            position: Position {
                x: self.position.x,
                y: (self.position.y + above.size.height) as u16,
            },
            ..above
        };
        (above, below)
    }
}

impl TabView {
    /// The handles of the tab name windows of an arena of `count` windows.
    pub open spec fn valid_in(self, count: nat) -> bool {
        &&& self.window_focus.0 < count
        &&& forall|k: int|
            0 <= k < self.open_windows.len() ==> (#[trigger] self.open_windows[k]).0 < count
    }
}

impl EditorView {
    /// The window that has the focus in the current tab.
    pub open spec fn focus(self) -> WindowID {
        self.tabs[self.current_tab].window_focus
    }

    /// The window `window` shows the buffer `buffer`.
    pub open spec fn shows(self, window: WindowID, buffer: int) -> bool {
        &&& window.0 < self.windows.len()
        &&& match self.windows[window.0 as int].view {
            Some(view) => view.buffer.0 == buffer,
            None => false,
        }
    }

    /// Every window that shows a buffer is on the list of that buffer.
    pub open spec fn views_recorded(self) -> bool {
        forall|w: int|
            0 <= w < self.windows.len() ==> match (#[trigger] self.windows[w]).view {
                Some(view) => view.buffer.0 < self.buffers.len()
                    && self.buffers[view.buffer.0 as int].windows.contains(WindowID(w as usize)),
                None => true,
            }
    }

    /// Every window on the list of a buffer shows that buffer, and is on the
    /// list once.
    pub open spec fn records_true(self) -> bool {
        &&& forall|b: int, k: int|
            0 <= b < self.buffers.len() && 0 <= k < self.buffers[b].windows.len() ==> self.shows(
                #[trigger] self.buffers[b].windows[k],
                b,
            )
        &&& forall|b: int|
            0 <= b < self.buffers.len() ==> (#[trigger] self.buffers[b]).windows.no_duplicates()
    }

    /// The handles of the editor name what they should: those of the tabs
    /// windows, those of the windows and buffers each other. Every window
    /// and every text is well formed.
    pub open spec fn consistent(self) -> bool {
        &&& self.windows.len() <= usize::MAX
        &&& self.buffers.len() <= usize::MAX
        &&& forall|t: int|
            0 <= t < self.tabs.len() ==> (#[trigger] self.tabs[t]).valid_in(self.windows.len())
        &&& forall|w: int| 0 <= w < self.windows.len() ==> (#[trigger] self.windows[w]).wf()
        &&& forall|b: int| 0 <= b < self.buffers.len() ==> (#[trigger] self.buffers[b]).text.wf()
        &&& self.views_recorded()
        &&& self.records_true()
    }

    /// The editor is consistent and has a current tab.
    pub open spec fn wf(self) -> bool {
        &&& self.consistent()
        &&& 0 <= self.current_tab < self.tabs.len()
    }

    /// No window leaves the canvas.
    pub open spec fn within_canvas(self) -> bool {
        forall|w: int|
            0 <= w < self.windows.len() ==> {
                &&& (#[trigger] self.windows[w]).position.x + self.windows[w].size.width
                    <= self.size.width
                &&& self.windows[w].position.y + self.windows[w].size.height <= self.size.height
            }
    }

    /// The window that a new tab starts with: all of the canvas but the
    /// status line.
    pub open spec fn tab_window(self) -> Window {
        Window {
            size: Size { width: self.size.width, height: (self.size.height - 1) as u16 },
            is_open: true,
            redraw: true,
            ..Window::default_spec()
        }
    }

    /// The editor with the window of a new tab in its arena.
    pub open spec fn with_tab_window(self) -> EditorView {
        EditorView { windows: self.windows.push(self.tab_window()), ..self }
    }

    /// The tab that `with_tab_window` added the window for.
    pub open spec fn new_tab(self) -> TabView {
        let window = WindowID(self.windows.len() as usize);
        TabView { open_windows: seq![window], window_focus: window }
    }

    /// The editor as it starts: one tab, whose window fills a canvas of the
    /// given size, and no buffer.
    pub open spec fn initial(size: Size) -> EditorView {
        let empty = EditorView {
            buffers: Seq::empty(),
            windows: Seq::empty(),
            tabs: Seq::empty(),
            status: None,
            mode: Mode::Normal,
            size,
            settings: EditorSettings { showmode: true },
            current_tab: 0,
        };
        EditorView { tabs: seq![empty.new_tab()], ..empty.with_tab_window() }
    }

    /// The editor with `message` on the status line.
    pub open spec fn with_message(self, message: Seq<char>) -> EditorView {
        EditorView { status: Some(message), ..self }
    }

    /// The editor with every window marked as changed.
    pub open spec fn redrawn(self) -> EditorView {
        EditorView { windows: all_redrawn(self.windows), ..self }
    }

    /// The editor with the window `window` in the place of the one in its slot.
    pub open spec fn with_window(self, slot: WindowID, window: Window) -> EditorView {
        EditorView { windows: self.windows.update(slot.0 as int, window), ..self }
    }

    /// The editor with the focus of the current tab on `window`, and both
    /// the window that had the focus and the one that has it marked as
    /// changed.
    pub open spec fn with_focus(self, window: WindowID) -> EditorView {
        let before = self.focus();
        let marked = self.with_window(
            before,
            Window { redraw: true, ..self.windows[before.0 as int] },
        );
        let marked = marked.with_window(
            window,
            Window { redraw: true, ..marked.windows[window.0 as int] },
        );
        EditorView {
            tabs: self.tabs.update(
                self.current_tab,
                TabView { window_focus: window, ..self.tabs[self.current_tab] },
            ),
            ..marked
        }
    }

    /// The editor with `tab` as the current tab and every window marked as
    /// changed.
    pub open spec fn with_current_tab(self, tab: int) -> EditorView {
        EditorView { current_tab: tab, ..self.redrawn() }
    }

    /// The editor with the tab behind the current one as the current tab:
    /// behind the last comes the first.
    pub open spec fn tab_next(self) -> EditorView {
        self.with_current_tab(rotate_forward_spec(0, self.tabs.len() as int, self.current_tab))
    }

    /// The editor with the tab before the current one as the current tab:
    /// before the first comes the last.
    pub open spec fn tab_previous(self) -> EditorView {
        self.with_current_tab(rotate_backward_spec(0, self.tabs.len() as int, self.current_tab))
    }

    /// The editor with the cursor of the focused window one cell further in
    /// the given direction, as far as the window reaches.
    pub open spec fn cursor_moved(self, direction: Direction) -> EditorView {
        let window = self.windows[self.focus().0 as int];
        self.with_window(
            self.focus(),
            Window {
                cursor: window.cursor.neighbour(direction),
                ..window
            }.with_cursor_within_bounds(),
        )
    }

    /// The editor with the focus of the current tab on the window behind the
    /// focused one in the arena: behind the last comes the first. The arena
    /// holds the windows of every tab.
    pub open spec fn focus_rotated_forward(self) -> EditorView {
        self.with_focus(
            WindowID(
                rotate_forward_spec(0, self.windows.len() as int, self.focus().0 as int) as usize,
            ),
        )
    }

    /// The editor with the focus of the current tab on the window before the
    /// focused one in the arena: before the first comes the last.
    pub open spec fn focus_rotated_backward(self) -> EditorView {
        self.with_focus(
            WindowID(
                rotate_backward_spec(0, self.windows.len() as int, self.focus().0 as int) as usize,
            ),
        )
    }

    /// The editor with the window `window` showing `view`: the window is
    /// off the list of the buffer that it showed and on the list of the
    /// buffer that it shows.
    pub open spec fn with_view(
        self,
        window: WindowID,
        view: Option<crate::editor::View>,
    ) -> EditorView {
        let detached = match self.windows[window.0 as int].view {
            Some(shown) => self.buffers.update(
                shown.buffer.0 as int,
                BufferView {
                    windows: self.buffers[shown.buffer.0 as int].windows.remove_value(window),
                    ..self.buffers[shown.buffer.0 as int]
                },
            ),
            None => self.buffers,
        };
        let attached = match view {
            Some(shown) => detached.update(
                shown.buffer.0 as int,
                BufferView {
                    windows: detached[shown.buffer.0 as int].windows.push(window),
                    ..detached[shown.buffer.0 as int]
                },
            ),
            None => detached,
        };
        EditorView {
            buffers: attached,
            windows: self.windows.update(
                window.0 as int,
                Window { view, ..self.windows[window.0 as int] },
            ),
            ..self
        }
    }

    /// The editor with `window`, open, on the list of the current tab and in
    /// the first slot whose window is closed and has not the focus: a split
    /// never puts the new half in the place of the half that stays.
    pub open spec fn with_new_window(self, window: Window) -> EditorView {
        let free = free_slot_beside(self.windows, self.focus().0 as int);
        let slot = WindowID(free as usize);
        let cleared = self.with_slot(free).with_view(slot, None);
        let placed = cleared.with_window(
            slot,
            Window { view: None, is_open: true, ..window },
        ).with_view(slot, window.view);
        placed.with_open_window(slot)
    }

    /// The editor with `window` behind the open windows of the current tab.
    pub open spec fn with_open_window(self, window: WindowID) -> EditorView {
        EditorView {
            tabs: self.tabs.update(
                self.current_tab,
                TabView {
                    open_windows: self.tabs[self.current_tab].open_windows.push(window),
                    ..self.tabs[self.current_tab]
                },
            ),
            ..self
        }
    }

    /// The editor after a vertical split of the focused window: with a
    /// message where the window is under 6 columns wide, else with the left
    /// half in its place and the right half as a new window in another slot.
    pub open spec fn split_vertically(self) -> EditorView {
        let whole = self.windows[self.focus().0 as int];
        if whole.size.width < 6 {
            self.with_message("The window is too small for a vertical split"@)
        } else {
            self.with_window(self.focus(), whole.vertical_halves().0).with_new_window(
                whole.vertical_halves().1,
            )
        }
    }

    /// The editor after a horizontal split of the focused window: with a
    /// message where the window is under 6 rows high, else with the upper
    /// half in its place and the lower half as a new window in another slot.
    pub open spec fn split_horizontally(self) -> EditorView {
        let whole = self.windows[self.focus().0 as int];
        if whole.size.height < 6 {
            self.with_message("The window is too small for a horizontal split"@)
        } else {
            self.with_window(self.focus(), whole.horizontal_halves().0).with_new_window(
                whole.horizontal_halves().1,
            )
        }
    }

    /// The editor with a new tab behind the current one, as the current tab.
    pub open spec fn tab_opened(self) -> EditorView {
        let grown = self.with_tab_window();
        EditorView {
            tabs: grown.tabs.insert(self.current_tab + 1, self.new_tab()),
            ..grown
        }.with_current_tab(self.current_tab + 1)
    }

    /// The editor with the window `window` closed and showing no buffer.
    pub open spec fn with_window_closed(self, window: WindowID) -> EditorView {
        let detached = self.with_view(window, None);
        detached.with_window(
            window,
            Window { is_open: false, ..detached.windows[window.0 as int] },
        )
    }

    /// The editor with the windows `windows` closed, one after the other.
    pub open spec fn with_windows_closed(self, windows: Seq<WindowID>) -> EditorView
        decreases windows.len(),
    {
        if windows.len() == 0 {
            self
        } else {
            self.with_windows_closed(windows.drop_last()).with_window_closed(windows.last())
        }
    }

    /// The editor after a request to close the current tab: with a message
    /// where it is the only tab; else without the tab, whose windows are
    /// closed. The tab behind it is the current tab then, and where there is
    /// none, the tab before it, with every window marked as changed.
    pub open spec fn tab_closed(self) -> EditorView {
        if self.tabs.len() == 1 {
            self.with_message("Cannot close last tab"@)
        } else {
            let closed = self.with_windows_closed(self.tabs[self.current_tab].open_windows);
            let fewer = EditorView { tabs: closed.tabs.remove(self.current_tab), ..closed };
            if self.current_tab == fewer.tabs.len() {
                fewer.with_current_tab(self.current_tab - 1)
            } else {
                fewer
            }
        }
    }

    /// The view that the focused window gets of a buffer: the window without
    /// its frame.
    pub open spec fn view_of(self, buffer: BufferID) -> crate::editor::View {
        let whole = self.windows[self.focus().0 as int];
        crate::editor::View {
            offset: (whole.position.x + 1) as u16,
            size: Size {
                width: (whole.size.width - 2) as u16,
                height: (whole.size.height - 2) as u16,
            },
            buffer,
        }
    }

    /// The editor with `buffer` as a new buffer, shown in the focused
    /// window, whose cursor is on its first cell.
    pub open spec fn edited(self, buffer: BufferView) -> EditorView {
        let handle = BufferID(self.buffers.len() as usize);
        let stored = EditorView {
            buffers: self.buffers.push(BufferView { windows: Seq::empty(), ..buffer }),
            ..self
        };
        let shown = stored.with_view(self.focus(), Some(self.view_of(handle)));
        shown.with_window(
            self.focus(),
            Window {
                cursor: Position { x: 0, y: 0 },
                redraw: true,
                ..shown.windows[self.focus().0 as int]
            },
        )
    }

    /// The cell of the canvas that the cursor of the focused window is on.
    pub open spec fn cursor_cell(self) -> Position {
        let window = self.windows[self.focus().0 as int];
        window.position.shifted(window.cursor)
    }

    /// The cells that a beam from the focused window crosses, nearest first:
    /// those of the cursor's column above or below the window, or those of
    /// the cursor's row to its left or right, as far as the canvas reaches.
    pub open spec fn beam(self, direction: Direction) -> Seq<Position> {
        let window = self.windows[self.focus().0 as int];
        let cursor = self.cursor_cell();
        let bottom = window.position.y + window.size.height;
        let right = window.position.x + window.size.width;
        match direction {
            Direction::Up => Seq::new(
                window.position.y as nat,
                |k: int| Position { x: cursor.x, y: (window.position.y - 1 - k) as u16 },
            ),
            Direction::Down => Seq::new(
                if bottom < self.size.height {
                    (self.size.height - bottom) as nat
                } else {
                    0
                },
                |k: int| Position { x: cursor.x, y: (bottom + k) as u16 },
            ),
            Direction::Left => Seq::new(
                window.position.x as nat,
                |k: int| Position { x: (window.position.x - 1 - k) as u16, y: cursor.y },
            ),
            Direction::Right => Seq::new(
                if right < self.size.width {
                    (self.size.width - right) as nat
                } else {
                    0
                },
                |k: int| Position { x: (right + k) as u16, y: cursor.y },
            ),
        }
    }

    /// A beam that reaches the cell `position` finds `window` there: the
    /// window covers the cell and is not the focused one.
    pub open spec fn hit_by(self, window: WindowID, position: Position) -> bool {
        window != self.focus() && self.windows[window.0 as int].covers(position)
    }

    /// The first window of `windows` that a beam finds at `position`.
    pub open spec fn window_at(self, windows: Seq<WindowID>, position: Position) -> Option<
        WindowID,
    >
        decreases windows.len(),
    {
        if windows.len() == 0 {
            None
        } else {
            match self.window_at(windows.drop_last(), position) {
                Some(window) => Some(window),
                None => if self.hit_by(windows.last(), position) {
                    Some(windows.last())
                } else {
                    None
                },
            }
        }
    }

    /// The window that a beam over the cells `beam` finds: the first open
    /// window of the current tab at the first cell where there is one.
    pub open spec fn beam_target(self, beam: Seq<Position>) -> Option<WindowID>
        decreases beam.len(),
    {
        if beam.len() == 0 {
            None
        } else {
            match self.beam_target(beam.drop_last()) {
                Some(window) => Some(window),
                None => self.window_at(self.tabs[self.current_tab].open_windows, beam.last()),
            }
        }
    }

    /// The editor with the focus on the window that a beam in the given
    /// direction finds; where it finds none, the editor itself.
    pub open spec fn focus_moved(self, direction: Direction) -> EditorView {
        match self.beam_target(self.beam(direction)) {
            Some(window) => self.with_focus(window),
            None => self,
        }
    }

    /// The editor after `times` rotations of the focus forward.
    pub open spec fn focus_rotated_forward_times(self, times: nat) -> EditorView
        decreases times,
    {
        if times == 0 {
            self
        } else {
            self.focus_rotated_forward_times((times - 1) as nat).focus_rotated_forward()
        }
    }

    /// The editor after `times` rotations of the focus backward.
    pub open spec fn focus_rotated_backward_times(self, times: nat) -> EditorView
        decreases times,
    {
        if times == 0 {
            self
        } else {
            self.focus_rotated_backward_times((times - 1) as nat).focus_rotated_backward()
        }
    }

    /// The editor with the slot `slot` in its arena: with a closed default
    /// window behind its windows where `slot` is the slot behind the last,
    /// else the editor itself.
    pub open spec fn with_slot(self, slot: int) -> EditorView {
        if slot < self.windows.len() {
            self
        } else {
            EditorView { windows: self.windows.push(Window::default_spec()), ..self }
        }
    }

    /// The editor with its free slot in its arena.
    pub open spec fn with_free_slot(self) -> EditorView {
        self.with_slot(free_slot(self.windows))
    }

    /// The list of the buffer `buffer` without `window`, where `window`
    /// shows that buffer; else the list.
    pub open spec fn list_without(self, window: WindowID, buffer: int) -> Seq<WindowID> {
        if self.shows(window, buffer) {
            self.buffers[buffer].windows.remove_value(window)
        } else {
            self.buffers[buffer].windows
        }
    }
}

} // verus!
