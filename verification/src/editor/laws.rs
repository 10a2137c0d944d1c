//! What holds of the rules of the editor: of a split, of a beam, of
//! rotations of the focus, and of tabs that are opened and closed.

use crate::editor::consistency::{lemma_free_slot, lemma_free_slot_same};
use crate::editor::model::free_slot_beside;
use crate::editor::{BufferID, BufferView, EditorView, TabView, Window, WindowID};
use crate::terminal::Position;
use crate::util::{
    Direction, lemma_rotate_backward_times, lemma_rotate_forward_times, rotate_backward_spec,
    rotate_backward_times, rotate_forward_spec, rotate_forward_times,
};
use vstd::prelude::*;

verus! {

impl Window {
    /// The halves of a vertical split lie side by side in the window, are as
    /// high as it, and their widths add up to its width and differ by one
    /// column at most.
    pub proof fn lemma_vertical_halves(self)
        requires
            self.wf(),
        ensures
            ({
                let (left, right) = self.vertical_halves();
                &&& left.wf()
                &&& right.wf()
                &&& left.position == self.position
                &&& right.position.x == self.position.x + left.size.width
                &&& right.position.y == self.position.y
                &&& left.size.width + right.size.width == self.size.width
                &&& left.size.width <= right.size.width <= left.size.width + 1
                &&& left.size.height == self.size.height
                &&& right.size.height == self.size.height
                &&& left.view == self.view
                &&& right.view == self.view
                &&& left.is_open == self.is_open
            }),
    {
    }

    /// The halves of a horizontal split lie one above the other in the
    /// window, are as wide as it, and their heights add up to its height and
    /// differ by one row at most.
    pub proof fn lemma_horizontal_halves(self)
        requires
            self.wf(),
        ensures
            ({
                let (above, below) = self.horizontal_halves();
                &&& above.wf()
                &&& below.wf()
                &&& above.position == self.position
                &&& below.position.y == self.position.y + above.size.height
                &&& below.position.x == self.position.x
                &&& above.size.height + below.size.height == self.size.height
                &&& above.size.height <= below.size.height <= above.size.height + 1
                &&& above.size.width == self.size.width
                &&& below.size.width == self.size.width
                &&& above.view == self.view
                &&& below.view == self.view
                &&& above.is_open == self.is_open
            }),
    {
    }
}

impl EditorView {
    /// What a beam finds at a cell is the first window of the list that it
    /// hits there.
    pub proof fn lemma_window_at(self, windows: Seq<WindowID>, position: Position)
        ensures
            match self.window_at(windows, position) {
                Some(window) => exists|i: int|
                    0 <= i < windows.len() && #[trigger] windows[i] == window && self.hit_by(
                        window,
                        position,
                    ) && forall|j: int|
                        0 <= j < i ==> !self.hit_by(#[trigger] windows[j], position),
                None => forall|i: int|
                    0 <= i < windows.len() ==> !self.hit_by(#[trigger] windows[i], position),
            },
        decreases windows.len(),
    {
        if windows.len() > 0 {
            let front = windows.drop_last();
            self.lemma_window_at(front, position);
            match self.window_at(front, position) {
                Some(window) => {
                    let i = choose|i: int|
                        0 <= i < front.len() && #[trigger] front[i] == window && self.hit_by(
                            window,
                            position,
                        ) && forall|j: int|
                            0 <= j < i ==> !self.hit_by(#[trigger] front[j], position);
                    assert(windows[i] == window);
                    assert forall|j: int| 0 <= j < i implies !self.hit_by(
                        #[trigger] windows[j],
                        position,
                    ) by {
                        assert(front[j] == windows[j]);
                    }
                },
                None => {
                    assert forall|j: int| 0 <= j < windows.len() - 1 implies !self.hit_by(
                        #[trigger] windows[j],
                        position,
                    ) by {
                        assert(front[j] == windows[j]);
                    }
                    if self.hit_by(windows.last(), position) {
                        assert(windows[windows.len() - 1] == windows.last());
                    }
                },
            }
        }
    }

    /// What a beam finds is what it finds at the first of its cells where it
    /// finds a window: the nearest window, which is an open window of the
    /// current tab and not the focused one.
    pub proof fn lemma_beam_target(self, beam: Seq<Position>)
        requires
            self.wf(),
        ensures
            match self.beam_target(beam) {
                Some(window) => {
                    &&& window.0 < self.windows.len()
                    &&& window != self.focus()
                    &&& self.tabs[self.current_tab].open_windows.contains(window)
                    &&& exists|k: int|
                        0 <= k < beam.len() && self.window_at(
                            self.tabs[self.current_tab].open_windows,
                            #[trigger] beam[k],
                        ) == Some(window) && forall|j: int|
                            0 <= j < k ==> self.window_at(
                                self.tabs[self.current_tab].open_windows,
                                #[trigger] beam[j],
                            ) is None
                },
                None => forall|k: int|
                    0 <= k < beam.len() ==> self.window_at(
                        self.tabs[self.current_tab].open_windows,
                        #[trigger] beam[k],
                    ) is None,
            },
        decreases beam.len(),
    {
        let open = self.tabs[self.current_tab].open_windows;
        if beam.len() > 0 {
            let front = beam.drop_last();
            self.lemma_beam_target(front);
            match self.beam_target(front) {
                Some(window) => {
                    let k = choose|k: int|
                        0 <= k < front.len() && self.window_at(open, #[trigger] front[k]) == Some(
                            window,
                        ) && forall|j: int|
                            0 <= j < k ==> self.window_at(open, #[trigger] front[j]) is None;
                    assert(beam[k] == front[k]);
                    assert forall|j: int| 0 <= j < k implies self.window_at(
                        open,
                        #[trigger] beam[j],
                    ) is None by {
                        assert(front[j] == beam[j]);
                    }
                },
                None => {
                    assert forall|j: int| 0 <= j < beam.len() - 1 implies self.window_at(
                        open,
                        #[trigger] beam[j],
                    ) is None by {
                        assert(front[j] == beam[j]);
                    }
                    match self.window_at(open, beam.last()) {
                        Some(window) => {
                            self.lemma_window_at(open, beam.last());
                            assert(self.tabs[self.current_tab].valid_in(self.windows.len()));
                            assert(beam[beam.len() - 1] == beam.last());
                        },
                        None => {},
                    }
                },
            }
        }
    }

    /// No rule of focus, splitting or tabs changes the mode.
    pub proof fn lemma_mode_kept(self)
        ensures
            self.tab_opened().mode == self.mode,
            self.tab_closed().mode == self.mode,
            self.tab_next().mode == self.mode,
            self.tab_previous().mode == self.mode,
            self.split_vertically().mode == self.mode,
            self.split_horizontally().mode == self.mode,
            self.focus_rotated_forward().mode == self.mode,
            self.focus_rotated_backward().mode == self.mode,
            self.redrawn().mode == self.mode,
            forall|direction: Direction|
                (#[trigger] self.cursor_moved(direction)).mode == self.mode,
            forall|direction: Direction| (#[trigger] self.focus_moved(direction)).mode == self.mode,
            forall|message: Seq<char>| (#[trigger] self.with_message(message)).mode == self.mode,
    {
        self.lemma_windows_closed(self.tabs[self.current_tab].open_windows);
    }

    /// Rotations of the focus step through the arena, and leave the windows
    /// in their slots and the tabs in their places.
    pub proof fn lemma_focus_rotated_times(self, times: nat)
        requires
            self.wf(),
        ensures
            self.focus_rotated_forward_times(times).wf(),
            self.focus_rotated_forward_times(times).windows.len() == self.windows.len(),
            self.focus_rotated_forward_times(times).tabs.len() == self.tabs.len(),
            self.focus_rotated_forward_times(times).current_tab == self.current_tab,
            self.focus_rotated_forward_times(times).focus().0 == rotate_forward_times(
                0,
                self.windows.len() as int,
                self.focus().0 as int,
                times,
            ),
            self.focus_rotated_backward_times(times).wf(),
            self.focus_rotated_backward_times(times).windows.len() == self.windows.len(),
            self.focus_rotated_backward_times(times).tabs.len() == self.tabs.len(),
            self.focus_rotated_backward_times(times).current_tab == self.current_tab,
            self.focus_rotated_backward_times(times).focus().0 == rotate_backward_times(
                0,
                self.windows.len() as int,
                self.focus().0 as int,
                times,
            ),
            0 <= rotate_forward_times(0, self.windows.len() as int, self.focus().0 as int, times)
                < self.windows.len(),
            0 <= rotate_backward_times(0, self.windows.len() as int, self.focus().0 as int, times)
                < self.windows.len(),
        decreases times,
    {
        assert(self.tabs[self.current_tab].valid_in(self.windows.len()));
        if times > 0 {
            let fewer = (times - 1) as nat;
            self.lemma_focus_rotated_times(fewer);
            let count = self.windows.len() as int;
            let forward = self.focus_rotated_forward_times(fewer);
            let next = rotate_forward_spec(0, count, forward.focus().0 as int);
            forward.lemma_with_focus(WindowID(next as usize));
            let backward = self.focus_rotated_backward_times(fewer);
            let previous = rotate_backward_spec(0, count, backward.focus().0 as int);
            backward.lemma_with_focus(WindowID(previous as usize));
        }
    }

    /// As many rotations forward as the arena holds windows bring the focus
    /// back to the window that had it.
    pub proof fn lemma_focus_cycle_forward(self)
        requires
            self.wf(),
        ensures
            self.focus_rotated_forward_times(self.windows.len()).focus() == self.focus(),
    {
        assert(self.tabs[self.current_tab].valid_in(self.windows.len()));
        self.lemma_focus_rotated_times(self.windows.len());
        lemma_rotate_forward_times(
            0,
            self.windows.len() as int,
            self.focus().0 as int,
            self.windows.len(),
        );
    }

    /// As many rotations backward as the arena holds windows bring the focus
    /// back to the window that had it.
    pub proof fn lemma_focus_cycle_backward(self)
        requires
            self.wf(),
        ensures
            self.focus_rotated_backward_times(self.windows.len()).focus() == self.focus(),
    {
        assert(self.tabs[self.current_tab].valid_in(self.windows.len()));
        self.lemma_focus_rotated_times(self.windows.len());
        lemma_rotate_backward_times(
            0,
            self.windows.len() as int,
            self.focus().0 as int,
            self.windows.len(),
        );
    }

    /// Closing windows leaves the tabs, the current tab, the canvas, the mode
    /// and the status line as they are.
    pub proof fn lemma_windows_closed(self, windows: Seq<WindowID>)
        ensures
            self.with_windows_closed(windows).tabs == self.tabs,
            self.with_windows_closed(windows).current_tab == self.current_tab,
            self.with_windows_closed(windows).size == self.size,
            self.with_windows_closed(windows).mode == self.mode,
            self.with_windows_closed(windows).status == self.status,
        decreases windows.len(),
    {
        if windows.len() > 0 {
            self.lemma_windows_closed(windows.drop_last());
        }
    }

    /// A tab that is opened and closed again leaves the tab list as it was.
    /// The current tab is the one that was current where that was the last
    /// tab, and the tab behind it otherwise.
    pub proof fn lemma_tab_open_close(self)
        requires
            self.wf(),
        ensures
            self.tab_opened().tabs.len() == self.tabs.len() + 1,
            self.tab_opened().current_tab == self.current_tab + 1,
            self.tab_opened().tab_closed().tabs == self.tabs,
            self.tab_opened().tab_closed().current_tab == if self.current_tab + 1
                == self.tabs.len() {
                self.current_tab
            } else {
                self.current_tab + 1
            },
    {
        let opened = self.tab_opened();
        let closing = opened.tabs[opened.current_tab].open_windows;
        opened.lemma_windows_closed(closing);
        assert(opened.tabs.remove(opened.current_tab) =~= self.tabs);
    }

    /// The only tab cannot be closed: the request leaves everything but the
    /// status line as it is, and puts a message there.
    pub proof fn lemma_last_tab_stays(self)
        requires
            self.tabs.len() == 1,
        ensures
            self.tab_closed() == self.with_message("Cannot close last tab"@),
            self.tab_closed().tabs.len() == 1,
            self.tab_closed().status is Some,
            self.tab_closed().status->0.len() > 0,
    {
        reveal_strlit("Cannot close last tab");
    }

    /// A vertical split of a focused window that is 6 columns wide at least
    /// leaves its left half in its place and puts its right half in another
    /// slot, as one more open window of the current tab. The
    /// widths of the halves add up to the width of the window and differ by
    /// one column at most.
    pub proof fn lemma_split_vertically(self)
        requires
            self.wf(),
            self.windows[self.focus().0 as int].size.width >= 6,
        ensures
            ({
                let whole = self.windows[self.focus().0 as int];
                let (left, right) = whole.vertical_halves();
                let slot = free_slot_beside(self.windows, self.focus().0 as int);
                let after = self.split_vertically();
                &&& slot != self.focus().0
                &&& 0 <= slot < after.windows.len()
                &&& after.windows.len() == if slot < self.windows.len() {
                    self.windows.len()
                } else {
                    self.windows.len() + 1
                }
                &&& after.windows[self.focus().0 as int] == left
                &&& after.windows[slot] == (Window { is_open: true, ..right })
                &&& left.size.width + right.size.width == whole.size.width
                &&& left.size.width <= right.size.width <= left.size.width + 1
                &&& after.tabs == self.tabs.update(
                    self.current_tab,
                    TabView {
                        open_windows: self.tabs[self.current_tab].open_windows.push(
                            WindowID(slot as usize),
                        ),
                        ..self.tabs[self.current_tab]
                    },
                )
                &&& forall|w: int|
                    0 <= w < self.windows.len() && w != slot && w != self.focus().0
                        ==> #[trigger] after.windows[w] == self.windows[w]
            }),
    {
        let focus = self.focus();
        let whole = self.windows[focus.0 as int];
        assert(self.tabs[self.current_tab].valid_in(self.windows.len()));
        assert(whole.wf());
        whole.lemma_vertical_halves();
        let (left, right) = whole.vertical_halves();
        self.lemma_placed(left, right);
    }

    /// A horizontal split of a focused window that is 6 rows high at least
    /// leaves its upper half in its place and puts its lower half in another
    /// slot, as one more open window of the current tab. The
    /// heights of the halves add up to the height of the window and differ
    /// by one row at most.
    pub proof fn lemma_split_horizontally(self)
        requires
            self.wf(),
            self.windows[self.focus().0 as int].size.height >= 6,
        ensures
            ({
                let whole = self.windows[self.focus().0 as int];
                let (above, below) = whole.horizontal_halves();
                let slot = free_slot_beside(self.windows, self.focus().0 as int);
                let after = self.split_horizontally();
                &&& slot != self.focus().0
                &&& 0 <= slot < after.windows.len()
                &&& after.windows.len() == if slot < self.windows.len() {
                    self.windows.len()
                } else {
                    self.windows.len() + 1
                }
                &&& after.windows[self.focus().0 as int] == above
                &&& after.windows[slot] == (Window { is_open: true, ..below })
                &&& above.size.height + below.size.height == whole.size.height
                &&& above.size.height <= below.size.height <= above.size.height + 1
                &&& after.tabs == self.tabs.update(
                    self.current_tab,
                    TabView {
                        open_windows: self.tabs[self.current_tab].open_windows.push(
                            WindowID(slot as usize),
                        ),
                        ..self.tabs[self.current_tab]
                    },
                )
                &&& forall|w: int|
                    0 <= w < self.windows.len() && w != slot && w != self.focus().0
                        ==> #[trigger] after.windows[w] == self.windows[w]
            }),
    {
        let focus = self.focus();
        let whole = self.windows[focus.0 as int];
        assert(self.tabs[self.current_tab].valid_in(self.windows.len()));
        assert(whole.wf());
        whole.lemma_horizontal_halves();
        let (above, below) = whole.horizontal_halves();
        self.lemma_placed(above, below);
    }

    /// Where the halves of the focused window go: the first into its place,
    /// the second into another slot and onto the list of the current tab.
    pub proof fn lemma_placed(self, first: Window, second: Window)
        requires
            self.wf(),
        ensures
            ({
                let slot = free_slot_beside(self.windows, self.focus().0 as int);
                let after = self.with_window(self.focus(), first).with_new_window(second);
                &&& slot != self.focus().0
                &&& 0 <= slot < after.windows.len()
                &&& after.windows.len() == if slot < self.windows.len() {
                    self.windows.len()
                } else {
                    self.windows.len() + 1
                }
                &&& after.windows[self.focus().0 as int] == first
                &&& after.windows[slot] == (Window { is_open: true, ..second })
                &&& after.tabs == self.tabs.update(
                    self.current_tab,
                    TabView {
                        open_windows: self.tabs[self.current_tab].open_windows.push(
                            WindowID(slot as usize),
                        ),
                        ..self.tabs[self.current_tab]
                    },
                )
                &&& forall|w: int|
                    0 <= w < self.windows.len() && w != slot && w != self.focus().0
                        ==> #[trigger] after.windows[w] == self.windows[w]
            }),
    {
        let focus = self.focus();
        assert(self.tabs[self.current_tab].valid_in(self.windows.len()));
        let shrunk = self.with_window(focus, first);
        let kept = self.windows.update(
            focus.0 as int,
            Window { is_open: true, ..self.windows[focus.0 as int] },
        );
        let kept_shrunk = shrunk.windows.update(
            focus.0 as int,
            Window { is_open: true, ..shrunk.windows[focus.0 as int] },
        );
        lemma_free_slot(kept);
        lemma_free_slot_same(kept, kept_shrunk);
    }

    /// A buffer that is shown by `edited` is the last of the arena, the
    /// focused window shows it, and its list names that window alone.
    pub proof fn lemma_edited(self, buffer: BufferView)
        requires
            self.wf(),
        ensures
            ({
                let after = self.edited(buffer);
                let handle = BufferID(self.buffers.len() as usize);
                &&& handle.0 == self.buffers.len()
                &&& after.buffers.len() == self.buffers.len() + 1
                &&& after.buffers[handle.0 as int].text == buffer.text
                &&& after.buffers[handle.0 as int].file_info == buffer.file_info
                &&& after.buffers[handle.0 as int].windows == seq![self.focus()]
                &&& after.windows[self.focus().0 as int] == (Window {
                    view: Some(self.view_of(handle)),
                    cursor: Position { x: 0, y: 0 },
                    redraw: true,
                    ..self.windows[self.focus().0 as int]
                })
                &&& after.tabs == self.tabs
            }),
    {
        let focus = self.focus();
        assert(self.tabs[self.current_tab].valid_in(self.windows.len()));
        assert(self.windows[focus.0 as int].wf());
        let after = self.edited(buffer);
        let handle = self.buffers.len() as int;
        assert(after.buffers[handle].windows =~= seq![focus]);
    }

    /// A split of a window under 6 cells changes nothing but the status
    /// line, which gets a message.
    pub proof fn lemma_split_refused(self)
        ensures
            self.windows[self.focus().0 as int].size.width < 6 ==> {
                &&& self.split_vertically() == self.with_message(
                    "The window is too small for a vertical split"@,
                )
                &&& self.split_vertically().windows == self.windows
                &&& self.split_vertically().tabs == self.tabs
                &&& self.split_vertically().status is Some
                &&& self.split_vertically().status->0.len() > 0
            },
            self.windows[self.focus().0 as int].size.height < 6 ==> {
                &&& self.split_horizontally() == self.with_message(
                    "The window is too small for a horizontal split"@,
                )
                &&& self.split_horizontally().windows == self.windows
                &&& self.split_horizontally().tabs == self.tabs
                &&& self.split_horizontally().status is Some
                &&& self.split_horizontally().status->0.len() > 0
            },
    {
        reveal_strlit("The window is too small for a vertical split");
        reveal_strlit("The window is too small for a horizontal split");
    }
}

} // verus!
