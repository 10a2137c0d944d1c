//! Proofs that the rules of the editor keep it well formed.

use crate::editor::model::free_slot;
use crate::editor::{EditorView, Window, WindowID};
use crate::terminal::Position;
use vstd::prelude::*;

verus! {

/// What makes a slot the free slot: its window is closed, and every window
/// before it is open.
pub proof fn lemma_free_slot(windows: Seq<Window>)
    ensures
        0 <= free_slot(windows) <= windows.len(),
        free_slot(windows) < windows.len() ==> !windows[free_slot(windows)].is_open,
        forall|w: int| 0 <= w < free_slot(windows) ==> (#[trigger] windows[w]).is_open,
    decreases windows.len(),
{
    if windows.len() > 0 {
        lemma_free_slot(windows.drop_last());
        assert forall|w: int|
            0 <= w < free_slot(windows) implies (#[trigger] windows[w]).is_open by {
            if w < windows.len() - 1 {
                assert(windows.drop_last()[w] == windows[w]);
            }
        }
    }
}

/// What is left of a list of distinct handles without one of them.
pub proof fn lemma_remove_value(list: Seq<WindowID>, handle: WindowID)
    requires
        list.no_duplicates(),
    ensures
        list.remove_value(handle).no_duplicates(),
        !list.remove_value(handle).contains(handle),
        forall|other: WindowID|
            other != handle ==> (#[trigger] list.remove_value(handle).contains(other)
                <==> list.contains(other)),
        forall|k: int|
            0 <= k < list.remove_value(handle).len() ==> list.contains(
                #[trigger] list.remove_value(handle)[k],
            ),
{
    list.index_of_first_ensures(handle);
    let rest = list.remove_value(handle);
    match list.index_of_first(handle) {
        Some(at) => {
            assert forall|k: int| 0 <= k < rest.len() implies list.contains(#[trigger] rest[k])
                && rest[k] != handle by {
                if k < at {
                    assert(rest[k] == list[k]);
                } else {
                    assert(rest[k] == list[k + 1]);
                }
            }
            assert forall|other: WindowID|
                other != handle && list.contains(other) implies #[trigger] rest.contains(
                other,
            ) by {
                let k = choose|k: int| 0 <= k < list.len() && list[k] == other;
                if k < at {
                    assert(rest[k] == other);
                } else {
                    assert(rest[k - 1] == other);
                }
            }
            assert forall|i: int, j: int|
                0 <= i < rest.len() && 0 <= j < rest.len() && i != j implies rest[i]
                != rest[j] by {
                let from_i = if i < at { i } else { i + 1 };
                let from_j = if j < at { j } else { j + 1 };
                assert(rest[i] == list[from_i] && rest[j] == list[from_j]);
            }
        },
        None => {},
    }
}

/// Arenas whose windows are open in the same slots have the same free slot.
pub proof fn lemma_free_slot_same(windows: Seq<Window>, others: Seq<Window>)
    requires
        windows.len() == others.len(),
        forall|w: int|
            0 <= w < windows.len() ==> (#[trigger] windows[w]).is_open == others[w].is_open,
    ensures
        free_slot(windows) == free_slot(others),
    decreases windows.len(),
{
    if windows.len() > 0 {
        assert forall|w: int|
            0 <= w < windows.len() - 1 implies (#[trigger] windows.drop_last()[w]).is_open
            == others.drop_last()[w].is_open by {
            assert(windows.drop_last()[w] == windows[w]);
            assert(others.drop_last()[w] == others[w]);
        }
        lemma_free_slot_same(windows.drop_last(), others.drop_last());
        assert(windows.last() == windows[windows.len() - 1]);
    }
}

/// The free slot of a prefix that holds a closed window is the free slot of
/// every longer prefix.
pub proof fn lemma_free_slot_extends(windows: Seq<Window>, count: int)
    requires
        0 <= count <= windows.len(),
        free_slot(windows.take(count)) < count,
    ensures
        free_slot(windows) == free_slot(windows.take(count)),
    decreases windows.len() - count,
{
    if count < windows.len() {
        assert(windows.take(count + 1).drop_last() =~= windows.take(count));
        lemma_free_slot_extends(windows, count + 1);
    } else {
        assert(windows.take(count) =~= windows);
    }
}

impl EditorView {
    /// An editor stays consistent where its buffers stay as they are, every
    /// window is well formed and shows what it showed, a new window shows
    /// nothing, and the tabs name windows of the arena.
    pub proof fn lemma_still_consistent(self, after: EditorView)
        requires
            self.consistent(),
            after.buffers == self.buffers,
            self.windows.len() <= after.windows.len() <= usize::MAX,
            forall|w: int| 0 <= w < after.windows.len() ==> (#[trigger] after.windows[w]).wf(),
            forall|w: int|
                0 <= w < after.windows.len() ==> (#[trigger] after.windows[w]).view == if w
                    < self.windows.len() {
                    self.windows[w].view
                } else {
                    None
                },
            forall|t: int|
                0 <= t < after.tabs.len() ==> (#[trigger] after.tabs[t]).valid_in(
                    after.windows.len(),
                ),
        ensures
            after.consistent(),
    {
        assert(after.views_recorded()) by {
            assert forall|w: int| 0 <= w < after.windows.len() implies match (
            #[trigger] after.windows[w]).view {
                Some(view) => view.buffer.0 < after.buffers.len()
                    && after.buffers[view.buffer.0 as int].windows.contains(WindowID(w as usize)),
                None => true,
            } by {
                if w < self.windows.len() {
                    assert(after.windows[w].view == self.windows[w].view);
                }
            }
        }
        assert(after.records_true()) by {
            assert forall|b: int, k: int|
                0 <= b < after.buffers.len() && 0 <= k < after.buffers[b].windows.len()
                implies after.shows(#[trigger] after.buffers[b].windows[k], b) by {
                let shown = self.buffers[b].windows[k];
                assert(self.shows(shown, b));
                assert(after.windows[shown.0 as int].view == self.windows[shown.0 as int].view);
            }
        }
    }

    /// An editor stays within its canvas where the canvas stays as it is and
    /// every window lies where a window lay, or within the canvas.
    pub proof fn lemma_still_within_canvas(self, after: EditorView)
        requires
            self.within_canvas(),
            after.size == self.size,
            forall|w: int|
                0 <= w < after.windows.len() ==> {
                    ||| w < self.windows.len() && (#[trigger] after.windows[w]).position
                        == self.windows[w].position && after.windows[w].size
                        == self.windows[w].size
                    ||| after.windows[w].position.x + after.windows[w].size.width
                        <= after.size.width && after.windows[w].position.y
                        + after.windows[w].size.height <= after.size.height
                },
        ensures
            after.within_canvas(),
    {
        assert forall|w: int| 0 <= w < after.windows.len() implies {
            &&& (#[trigger] after.windows[w]).position.x + after.windows[w].size.width
                <= after.size.width
            &&& after.windows[w].position.y + after.windows[w].size.height <= after.size.height
        } by {
            if w < self.windows.len() {
                assert(self.windows[w].position.x + self.windows[w].size.width
                    <= self.size.width);
            }
        }
    }

    /// A slot whose window is closed, behind open windows only, is the free
    /// slot.
    pub proof fn lemma_free_slot_found(self, slot: int)
        requires
            0 <= slot < self.windows.len(),
            slot == free_slot(self.windows.take(slot)),
            !self.windows[slot].is_open,
        ensures
            free_slot(self.windows) == slot,
        decreases self.windows.len() - slot,
    {
        lemma_free_slot_extends(self.windows, slot + 1);
        assert(self.windows.take(slot + 1).drop_last() =~= self.windows.take(slot));
    }

    /// `list_without` holds every window of the list but `window`, once.
    pub proof fn lemma_list_without(self, window: WindowID, buffer: int)
        requires
            self.consistent(),
            window.0 < self.windows.len(),
            0 <= buffer < self.buffers.len(),
        ensures
            self.list_without(window, buffer).no_duplicates(),
            !self.list_without(window, buffer).contains(window),
            forall|other: WindowID|
                other != window ==> (#[trigger] self.list_without(window, buffer).contains(other)
                    <==> self.buffers[buffer].windows.contains(other)),
            forall|k: int|
                0 <= k < self.list_without(window, buffer).len()
                    ==> self.buffers[buffer].windows.contains(
                    #[trigger] self.list_without(window, buffer)[k],
                ),
    {
        let list = self.buffers[buffer].windows;
        assert(list.no_duplicates());
        lemma_remove_value(list, window);
        if !self.shows(window, buffer) {
            if list.contains(window) {
                let k = choose|k: int| 0 <= k < list.len() && list[k] == window;
                assert(self.shows(self.buffers[buffer].windows[k], buffer));
            }
        }
    }

    /// The list of the buffer `buffer` after `with_view`.
    pub proof fn lemma_with_view_list(
        self,
        window: WindowID,
        view: Option<crate::editor::View>,
        buffer: int,
    )
        requires
            self.consistent(),
            window.0 < self.windows.len(),
            match view {
                Some(shown) => shown.buffer.0 < self.buffers.len(),
                None => true,
            },
            0 <= buffer < self.buffers.len(),
        ensures
            self.with_view(window, view).buffers.len() == self.buffers.len(),
            self.with_view(window, view).buffers[buffer].text == self.buffers[buffer].text,
            self.with_view(window, view).buffers[buffer].windows == if view is Some
                && view->0.buffer.0 == buffer {
                self.list_without(window, buffer).push(window)
            } else {
                self.list_without(window, buffer)
            },
    {
        assert(self.windows[window.0 as int].wf());
    }

    /// A consistent editor in which a window shows another of its buffers,
    /// or none, is consistent.
    pub proof fn lemma_with_view(self, window: WindowID, view: Option<crate::editor::View>)
        requires
            self.consistent(),
            window.0 < self.windows.len(),
            match view {
                Some(shown) => shown.buffer.0 < self.buffers.len(),
                None => true,
            },
        ensures
            self.with_view(window, view).consistent(),
            self.with_view(window, view).buffers.len() == self.buffers.len(),
            self.windows[window.0 as int].view is None && view is None ==> self.with_view(
                window,
                view,
            ) == self,
            self.within_canvas() ==> self.with_view(window, view).within_canvas(),
    {
        let after = self.with_view(window, view);
        let before = self.windows[window.0 as int].view;
        if before is None && view is None {
            assert(after.windows =~= self.windows);
        }
        assert forall|t: int| 0 <= t < after.tabs.len() implies (#[trigger] after.tabs[t]).valid_in(
            after.windows.len(),
        ) by {
            assert(self.tabs[t].valid_in(self.windows.len()));
        }
        assert forall|w: int|
            0 <= w < after.windows.len() implies (#[trigger] after.windows[w]).wf() by {
            assert(self.windows[w].wf());
        }
        assert forall|b: int|
            0 <= b < after.buffers.len() implies (#[trigger] after.buffers[b]).text.wf() by {
            self.lemma_with_view_list(window, view, b);
            assert(self.buffers[b].text.wf());
        }
        assert(after.views_recorded()) by {
            assert forall|w: int|
                0 <= w < after.windows.len() implies match (#[trigger] after.windows[w]).view {
                Some(shown) => shown.buffer.0 < after.buffers.len()
                    && after.buffers[shown.buffer.0 as int].windows.contains(WindowID(w as usize)),
                None => true,
            } by {
                match after.windows[w].view {
                    Some(shown) => {
                        let b = shown.buffer.0 as int;
                        if w != window.0 {
                            assert(self.windows[w].view == Some(shown));
                        }
                        self.lemma_with_view_list(window, view, b);
                        self.lemma_list_without(window, b);
                        let list = after.buffers[b].windows;
                        let rest = self.list_without(window, b);
                        if w == window.0 {
                            assert(list[list.len() - 1] == window);
                        } else {
                            let other = WindowID(w as usize);
                            assert(self.buffers[b].windows.contains(other));
                            assert(rest.contains(other));
                            let k = choose|k: int| 0 <= k < rest.len() && rest[k] == other;
                            assert(list[k] == other);
                        }
                    },
                    None => {},
                }
            }
        }
        assert(after.records_true()) by {
            assert forall|b: int, k: int|
                0 <= b < after.buffers.len() && 0 <= k < after.buffers[b].windows.len()
                implies after.shows(#[trigger] after.buffers[b].windows[k], b) by {
                self.lemma_with_view_list(window, view, b);
                self.lemma_list_without(window, b);
                let entry = after.buffers[b].windows[k];
                let list = self.buffers[b].windows;
                let rest = self.list_without(window, b);
                if k < rest.len() {
                    assert(entry == rest[k]);
                    assert(list.contains(rest[k]));
                    let at = choose|at: int| 0 <= at < list.len() && list[at] == entry;
                    assert(self.shows(self.buffers[b].windows[at], b));
                    assert(rest.contains(entry));
                }
            }
            assert forall|b: int|
                0 <= b < after.buffers.len()
                implies (#[trigger] after.buffers[b]).windows.no_duplicates() by {
                self.lemma_with_view_list(window, view, b);
                self.lemma_list_without(window, b);
                let rest = self.list_without(window, b);
                let grown = after.buffers[b].windows;
                assert forall|i: int, j: int|
                    0 <= i < grown.len() && 0 <= j < grown.len() && i != j implies grown[i]
                    != grown[j] by {
                    if i < rest.len() && j < rest.len() {
                    } else if i < rest.len() {
                        assert(rest.contains(rest[i]));
                    } else if j < rest.len() {
                        assert(rest.contains(rest[j]));
                    }
                }
            }
        }
        if self.within_canvas() {
            assert forall|w: int| 0 <= w < after.windows.len() implies {
                &&& (#[trigger] after.windows[w]).position.x + after.windows[w].size.width
                    <= after.size.width
                &&& after.windows[w].position.y + after.windows[w].size.height
                    <= after.size.height
            } by {
                assert(self.windows[w].position == after.windows[w].position);
                assert(self.windows[w].size == after.windows[w].size);
            }
        }
    }

    /// A window that a beam finds among the first `count` windows of a list
    /// is the window that it finds on the whole list.
    pub proof fn lemma_window_at_extends(
        self,
        windows: Seq<WindowID>,
        count: int,
        position: Position,
    )
        requires
            0 <= count <= windows.len(),
            self.window_at(windows.take(count), position) is Some,
        ensures
            self.window_at(windows, position) == self.window_at(windows.take(count), position),
        decreases windows.len() - count,
    {
        if count < windows.len() {
            assert(windows.take(count + 1).drop_last() =~= windows.take(count));
            self.lemma_window_at_extends(windows, count + 1, position);
        } else {
            assert(windows.take(count) =~= windows);
        }
    }

    /// A window that a beam finds on its first `count` cells is the window
    /// that the whole beam finds.
    pub proof fn lemma_beam_target_extends(self, beam: Seq<Position>, count: int)
        requires
            0 <= count <= beam.len(),
            self.beam_target(beam.take(count)) is Some,
        ensures
            self.beam_target(beam) == self.beam_target(beam.take(count)),
        decreases beam.len() - count,
    {
        if count < beam.len() {
            assert(beam.take(count + 1).drop_last() =~= beam.take(count));
            self.lemma_beam_target_extends(beam, count + 1);
        } else {
            assert(beam.take(count) =~= beam);
        }
    }

    /// A well-formed editor with the focus on another of its windows is well
    /// formed.
    pub proof fn lemma_with_focus(self, window: WindowID)
        requires
            self.wf(),
            window.0 < self.windows.len(),
        ensures
            self.with_focus(window).wf(),
            self.within_canvas() ==> self.with_focus(window).within_canvas(),
    {
        let after = self.with_focus(window);
        assert(self.tabs[self.current_tab].valid_in(self.windows.len()));
        assert forall|w: int| 0 <= w < after.windows.len() implies (
        #[trigger] after.windows[w]).wf() by {
            assert(self.windows[w].wf());
        }
        assert forall|t: int| 0 <= t < after.tabs.len() implies (
        #[trigger] after.tabs[t]).valid_in(after.windows.len()) by {
            assert(self.tabs[t].valid_in(self.windows.len()));
        }
        self.lemma_still_consistent(after);
        if self.within_canvas() {
            self.lemma_still_within_canvas(after);
        }
    }

}

} // verus!
