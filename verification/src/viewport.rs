//! The highlight and the window of the list, as numbers: which row of the
//! window is highlighted, which entry is the window's first row, and how
//! many entries the last frame drew.

use vstd::prelude::*;

verus! {

/// The state that moving the highlight reads and changes.
///
/// `start + hover` is the entry under the highlight.
pub struct Viewport {
    /// The highlighted row, counted from the first row of the window.
    pub hover: int,
    /// The entry in the first row of the window.
    pub start: int,
    /// How many entries the last frame drew.
    pub rendered: int,
}

impl Viewport {
    /// The entry under the highlight.
    pub open spec fn highlighted(self) -> int {
        self.start + self.hover
    }

    /// The highlight stands on one of the rows that were drawn.
    pub open spec fn hover_in_window(self) -> bool {
        0 <= self.hover < self.rendered
    }

    /// The window starts at an entry and every row drawn shows one of
    /// the `cached` entries.
    pub open spec fn window_in_cache(self, cached: int) -> bool {
        0 <= self.start && self.start + self.rendered <= cached
    }

    /// A move by `delta` rows is taken unless it leads above the first row
    /// or onto the row just below the last one drawn.
    pub open spec fn accepts(self, delta: int) -> bool {
        self.hover + delta >= 0 && self.hover + delta != self.rendered
    }

    /// A move that is taken scrolls the window down by one entry where it
    /// leads past 67 hundredths of the rows drawn while entries that were
    /// not drawn remain below the window.
    pub open spec fn scrolls_down(self, delta: int, cached: int) -> bool {
        &&& self.accepts(delta)
        &&& 100 * (self.hover + delta) > 67 * self.rendered
        &&& self.start + self.rendered < cached
    }

    /// A move upwards that is taken and does not scroll down scrolls the
    /// window up by one entry where it leads above 33 hundredths of the rows
    /// drawn and the window does not start at the first entry.
    pub open spec fn scrolls_up(self, delta: int, cached: int) -> bool {
        &&& self.accepts(delta)
        &&& !self.scrolls_down(delta, cached)
        &&& 100 * (self.hover + delta) < 33 * self.rendered
        &&& self.start > 0
        &&& delta < 0
    }

    /// The state after a move by `delta` rows over `cached` entries.
    ///
    /// A move that is not taken changes nothing. A scroll moves the window
    /// by one entry and the highlight by one row the other way, so that the
    /// highlight stays on the entry it moved to.
    pub open spec fn moved(self, delta: int, cached: int) -> Viewport {
        if !self.accepts(delta) {
            self
        } else if self.scrolls_down(delta, cached) {
            Viewport { hover: self.hover + delta - 1, start: self.start + 1, ..self }
        } else if self.scrolls_up(delta, cached) {
            Viewport { hover: self.hover + delta + 1, start: self.start - 1, ..self }
        } else {
            Viewport { hover: self.hover + delta, ..self }
        }
    }

    /// The state after the moves of `deltas`, one after the other.
    pub open spec fn moved_all(self, deltas: Seq<int>, cached: int) -> Viewport
        decreases deltas.len(),
    {
        if deltas.len() == 0 {
            self
        } else {
            self.moved(deltas[0], cached).moved_all(deltas.drop_first(), cached)
        }
    }
}

/// A move by one row keeps the highlight on the rows that were drawn and the
/// window on entries of the cache.
pub proof fn lemma_move_stays_in_window(view: Viewport, delta: int, cached: int)
    requires
        view.hover_in_window(),
        delta == 1 || delta == -1,
    ensures
        view.moved(delta, cached).hover_in_window(),
        view.moved(delta, cached).rendered == view.rendered,
        view.window_in_cache(cached) ==> view.moved(delta, cached).window_in_cache(cached),
{
}

/// However the highlight is moved up and down, one row at a time, it never
/// goes above the first row of the window and never past the last row that
/// was drawn; and where the rows drawn show entries of the cache, the
/// highlight stays on an entry of the cache.
pub proof fn lemma_moves_stay_in_window(view: Viewport, deltas: Seq<int>, cached: int)
    requires
        view.hover_in_window(),
        forall|i: int| 0 <= i < deltas.len() ==> deltas[i] == 1 || deltas[i] == -1,
    ensures
        0 <= view.moved_all(deltas, cached).hover <= view.rendered - 1,
        view.moved_all(deltas, cached).rendered == view.rendered,
        view.window_in_cache(cached) ==> view.moved_all(deltas, cached).window_in_cache(cached),
        view.window_in_cache(cached) ==> 0 <= view.moved_all(deltas, cached).highlighted()
            < cached,
    decreases deltas.len(),
{
    if deltas.len() > 0 {
        lemma_move_stays_in_window(view, deltas[0], cached);
        let rest = deltas.drop_first();
        assert forall|i: int| 0 <= i < rest.len() implies rest[i] == 1 || rest[i] == -1 by {
            assert(rest[i] == deltas[i + 1]);
        }
        lemma_moves_stay_in_window(view.moved(deltas[0], cached), rest, cached);
    }
}

/// A move that is taken puts the highlight on the neighbouring entry,
/// whether the window scrolls or not; a move that is not taken leaves it
/// where it was. The window never moves by more than one entry, and it
/// moves down only when the move leads past 67 hundredths of the rows drawn.
pub proof fn lemma_move_is_continuous(view: Viewport, delta: int, cached: int)
    ensures
        view.accepts(delta) ==> view.moved(delta, cached).highlighted() == view.highlighted()
            + delta,
        !view.accepts(delta) ==> view.moved(delta, cached) == view,
        view.start - 1 <= view.moved(delta, cached).start <= view.start + 1,
        view.moved(delta, cached).start == view.start + 1 ==> 100 * (view.hover + delta) > 67
            * view.rendered,
        view.moved(delta, cached).start == view.start - 1 ==> 100 * (view.hover + delta) < 33
            * view.rendered && delta < 0,
{
}

/// The first position at which `wanted` stands in `list`; the length of
/// `list` if it stands nowhere.
pub open spec fn position(list: Seq<usize>, wanted: usize) -> int
    decreases list.len(),
{
    if list.len() == 0 {
        0
    } else if list[0] == wanted {
        0
    } else {
        1 + position(list.drop_first(), wanted)
    }
}

/// `position` is at most the length, names a place where `wanted` stands if
/// it is less, and nothing before it is `wanted`.
pub proof fn lemma_position(list: Seq<usize>, wanted: usize)
    ensures
        0 <= position(list, wanted) <= list.len(),
        position(list, wanted) < list.len() ==> list[position(list, wanted)] == wanted,
        forall|i: int| 0 <= i < position(list, wanted) ==> list[i] != wanted,
        position(list, wanted) < list.len() <==> list.contains(wanted),
    decreases list.len(),
{
    if list.len() == 0 {
    } else if list[0] == wanted {
        assert(list.contains(wanted));
    } else {
        let rest = list.drop_first();
        lemma_position(rest, wanted);
        assert forall|i: int| 0 <= i < position(list, wanted) implies list[i] != wanted by {
            if i > 0 {
                assert(list[i] == rest[i - 1]);
            }
        }
        if position(list, wanted) < list.len() {
            assert(list[position(list, wanted)] == rest[position(rest, wanted)]);
            assert(list.contains(wanted));
        }
        if list.contains(wanted) {
            let k = choose|k: int| 0 <= k < list.len() && list[k] == wanted;
            assert(rest[k - 1] == wanted);
            assert(rest.contains(wanted));
        }
    }
}

/// The selection after the entry `index` has been toggled and is now
/// `chosen`: an entry that is chosen and was not selected goes to the end;
/// one that is no longer chosen leaves, and the others keep their order.
pub open spec fn toggled_selection(selection: Seq<usize>, index: usize, chosen: bool) -> Seq<usize> {
    if chosen && !selection.contains(index) {
        selection.push(index)
    } else if !chosen && selection.contains(index) {
        selection.remove(position(selection, index))
    } else {
        selection
    }
}

/// Toggling keeps a selection free of repetitions, and afterwards the entry
/// is selected exactly if it is chosen.
pub proof fn lemma_toggled_selection(selection: Seq<usize>, index: usize, chosen: bool)
    requires
        selection.no_duplicates(),
    ensures
        toggled_selection(selection, index, chosen).no_duplicates(),
        toggled_selection(selection, index, chosen).contains(index) == chosen,
        forall|other: usize|
            other != index ==> toggled_selection(selection, index, chosen).contains(other)
                == selection.contains(other),
{
    let after = toggled_selection(selection, index, chosen);
    lemma_position(selection, index);
    if chosen && !selection.contains(index) {
        assert(after[selection.len() as int] == index);
        assert forall|other: usize| other != index implies after.contains(other)
            == selection.contains(other) by {
            if selection.contains(other) {
                let k = choose|k: int| 0 <= k < selection.len() && selection[k] == other;
                assert(after[k] == other);
            }
            if after.contains(other) {
                let k = choose|k: int| 0 <= k < after.len() && after[k] == other;
                assert(selection[k] == other);
            }
        }
    } else if !chosen && selection.contains(index) {
        let at = position(selection, index);
        assert forall|i: int, j: int| 0 <= i < after.len() && 0 <= j < after.len() && i != j
            implies after[i] != after[j] by {
            let si = if i < at { i } else { i + 1 };
            let sj = if j < at { j } else { j + 1 };
            assert(after[i] == selection[si]);
            assert(after[j] == selection[sj]);
        }
        if after.contains(index) {
            let k = choose|k: int| 0 <= k < after.len() && after[k] == index;
            let sk = if k < at { k } else { k + 1 };
            assert(after[k] == selection[sk]);
            assert(selection[at] == index);
        }
        assert forall|other: usize| other != index implies after.contains(other)
            == selection.contains(other) by {
            if selection.contains(other) {
                let k = choose|k: int| 0 <= k < selection.len() && selection[k] == other;
                let ak = if k < at { k } else { k - 1 };
                assert(after[ak] == other);
            }
            if after.contains(other) {
                let k = choose|k: int| 0 <= k < after.len() && after[k] == other;
                let sk = if k < at { k } else { k + 1 };
                assert(selection[sk] == other);
            }
        }
    } else {
    }
}

} // verus!
