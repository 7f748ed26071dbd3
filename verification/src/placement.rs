//! Where the markers of a display go. A display of `w` by `h` cells is centred
//! in the examination panel; markers are dropped on its cells so that no two
//! of them are within two cells of each other.

use crate::note::{Note, NoteView};
use crate::constants::{EXAM_PANEL_HEIGHT, EXAM_PANEL_WIDTH};
use crate::random::range_i32;
use rltk::RandomNumberGenerator;
use vstd::prelude::*;

verus! {

/// How many random cells are tried for one marker before the display is
/// searched cell by cell.
pub const PLACEMENT_TRIES: u32 = 1000;

pub open spec fn gap(a: int, b: int) -> int {
    if a >= b {
        a - b
    } else {
        b - a
    }
}

/// The Chebyshev distance between two cells: the larger of the two gaps.
pub open spec fn chebyshev(ax: int, ay: int, bx: int, by: int) -> int {
    if gap(ax, bx) >= gap(ay, by) {
        gap(ax, bx)
    } else {
        gap(ay, by)
    }
}

/// The panel column of the leftmost cell of a display that is `w` cells wide.
pub open spec fn left_of(w: int) -> int {
    EXAM_PANEL_WIDTH as int / 2 - w / 2
}

/// The panel row of the topmost cell of a display that is `h` cells high.
pub open spec fn top_of(h: int) -> int {
    EXAM_PANEL_HEIGHT as int / 2 - h / 2
}

/// Whether the cell lies on a display of `w` by `h` cells.
pub open spec fn on_display(w: int, h: int, x: int, y: int) -> bool {
    &&& left_of(w) <= x < left_of(w) + w
    &&& top_of(h) <= y < top_of(h) + h
}

/// Whether the cell is more than two cells away from every marker.
pub open spec fn is_free(markers: Seq<(i32, i32, Note, bool)>, x: int, y: int) -> bool {
    forall|k: int|
        0 <= k < markers.len() ==> chebyshev(
            x,
            y,
            (#[trigger] markers[k]).0 as int,
            markers[k].1 as int,
        ) > 2
}

/// Whether a marker could still be put on the display.
pub open spec fn has_room(markers: Seq<(i32, i32, Note, bool)>, w: int, h: int) -> bool {
    exists|x: int, y: int| on_display(w, h, x, y) && #[trigger] is_free(markers, x, y)
}

/// No two markers are within two cells of each other.
pub open spec fn spaced(markers: Seq<(i32, i32, Note, bool)>) -> bool {
    forall|i: int, j: int|
        0 <= i < j < markers.len() ==> chebyshev(
            (#[trigger] markers[i]).0 as int,
            markers[i].1 as int,
            (#[trigger] markers[j]).0 as int,
            markers[j].1 as int,
        ) > 2
}

/// Every marker lies on the display.
pub open spec fn all_on_display(markers: Seq<(i32, i32, Note, bool)>, w: int, h: int) -> bool {
    forall|k: int|
        0 <= k < markers.len() ==> on_display(
            w,
            h,
            (#[trigger] markers[k]).0 as int,
            markers[k].1 as int,
        )
}

/// The panel cell of the upper left corner of a display of `w` by `h` cells,
/// which is centred in the panel.
pub fn display_origin(w: i32, h: i32) -> (origin: (i32, i32))
    requires
        w >= 0,
        h >= 0,
    ensures
        origin.0 == left_of(w as int),
        origin.1 == top_of(h as int),
{
    (EXAM_PANEL_WIDTH / 2 - w / 2, EXAM_PANEL_HEIGHT / 2 - h / 2)
}

/// The Chebyshev distance between two cells.
pub fn distance(ax: i32, ay: i32, bx: i32, by: i32) -> (d: i64)
    ensures
        d == chebyshev(ax as int, ay as int, bx as int, by as int),
{
    let dx: i64 = if ax >= bx {
        ax as i64 - bx as i64
    } else {
        bx as i64 - ax as i64
    };
    let dy: i64 = if ay >= by {
        ay as i64 - by as i64
    } else {
        by as i64 - ay as i64
    };
    if dx >= dy {
        dx
    } else {
        dy
    }
}

/// Whether a candidate cell keeps its distance from every marker placed so
/// far.
pub fn fits(markers: &Vec<(i32, i32, Note, bool)>, x: i32, y: i32) -> (free: bool)
    ensures
        free == is_free(markers@, x as int, y as int),
{
    let mut k: usize = 0;
    while k < markers.len()
        invariant
            k <= markers.len(),
            forall|j: int|
                0 <= j < k ==> chebyshev(
                    x as int,
                    y as int,
                    (#[trigger] markers@[j]).0 as int,
                    markers@[j].1 as int,
                ) > 2,
        decreases markers.len() - k,
    {
        if distance(x, y, markers[k].0, markers[k].1) <= 2 {
            return false;
        }
        k = k + 1;
    }
    true
}

/// The first free cell of the display, row by row from the top and from left
/// to right within a row; `None` exactly when the display has no free cell.
pub fn first_free_cell(markers: &Vec<(i32, i32, Note, bool)>, w: i32, h: i32) -> (cell: Option<
    (i32, i32),
>)
    ensures
        match cell {
            Some((x, y)) => {
                &&& on_display(w as int, h as int, x as int, y as int)
                &&& is_free(markers@, x as int, y as int)
                &&& forall|px: int, py: int|
                    on_display(w as int, h as int, px, py) && (py < y || (py == y && px < x))
                        ==> !#[trigger] is_free(markers@, px, py)
            },
            None => !has_room(markers@, w as int, h as int),
        },
{
    if w <= 0 || h <= 0 {
        return None;
    }
    let (x0, y0) = display_origin(w, h);
    let mut row: i32 = 0;
    while row < h
        invariant
            0 < w,
            0 < h,
            0 <= row <= h,
            x0 == left_of(w as int),
            y0 == top_of(h as int),
            forall|px: int, py: int|
                on_display(w as int, h as int, px, py) && py < y0 + row ==> !#[trigger] is_free(
                    markers@,
                    px,
                    py,
                ),
        decreases h - row,
    {
        let y: i32 = y0 + row;
        let mut col: i32 = 0;
        while col < w
            invariant
                0 < w,
                0 < h,
                0 <= row < h,
                0 <= col <= w,
                x0 == left_of(w as int),
                y0 == top_of(h as int),
                y == y0 + row,
                forall|px: int, py: int|
                    on_display(w as int, h as int, px, py) && (py < y || (py == y && px < x0 + col))
                        ==> !#[trigger] is_free(markers@, px, py),
            decreases w - col,
        {
            let x: i32 = x0 + col;
            if fits(markers, x, y) {
                return Some((x, y));
            }
            col = col + 1;
        }
        row = row + 1;
    }
    None
}

/// A free cell for one more marker: a random cell of the display where one is
/// found within `PLACEMENT_TRIES` draws, else the first free cell. `None`
/// exactly when the display has no free cell.
pub fn place_marker(
    rng: &mut RandomNumberGenerator,
    markers: &Vec<(i32, i32, Note, bool)>,
    w: i32,
    h: i32,
) -> (cell: Option<(i32, i32)>)
    ensures
        cell.is_some() == has_room(markers@, w as int, h as int),
        match cell {
            Some((x, y)) => {
                &&& on_display(w as int, h as int, x as int, y as int)
                &&& is_free(markers@, x as int, y as int)
            },
            None => true,
        },
{
    if w <= 0 || h <= 0 {
        return None;
    }
    let (x0, y0) = display_origin(w, h);
    let mut tries: u32 = 0;
    while tries < PLACEMENT_TRIES
        invariant
            0 < w,
            0 < h,
            x0 == left_of(w as int),
            y0 == top_of(h as int),
        decreases PLACEMENT_TRIES - tries,
    {
        let x: i32 = x0 + range_i32(rng, 0, w);
        let y: i32 = y0 + range_i32(rng, 0, h);
        if fits(markers, x, y) {
            return Some((x, y));
        }
        tries = tries + 1;
    }
    first_free_cell(markers, w, h)
}

/// A marker as contracts see it: its cell, its note, and whether it has been
/// revealed.
pub type MarkerView = (i32, i32, NoteView, bool);

/// The markers of a display as contracts see them.
pub open spec fn markers_view(markers: Seq<(i32, i32, Note, bool)>) -> Seq<MarkerView> {
    Seq::new(markers.len(), |i: int| (markers[i].0, markers[i].1, markers[i].2@, markers[i].3))
}

/// The notes that the markers carry, in the order of the markers.
pub open spec fn notes_of(markers: Seq<(i32, i32, Note, bool)>) -> Seq<NoteView> {
    Seq::new(markers.len(), |i: int| markers[i].2@)
}

/// Whether no marker has been revealed yet.
pub open spec fn all_hidden(markers: Seq<(i32, i32, Note, bool)>) -> bool {
    forall|i: int| 0 <= i < markers.len() ==> !(#[trigger] markers[i]).3
}

/// Among columns that are at least five apart, and more of them than there are
/// markers, one is more than two columns away from every marker.
proof fn lemma_free_column(markers: Seq<(i32, i32, Note, bool)>, cols: Seq<int>) -> (k: int)
    requires
        cols.len() > markers.len(),
        forall|i: int, j: int| 0 <= i < j < cols.len() ==> cols[j] - cols[i] >= 5,
    ensures
        0 <= k < cols.len(),
        forall|m: int| 0 <= m < markers.len() ==> gap(cols[k], (#[trigger] markers[m]).0 as int) > 2,
    decreases markers.len(),
{
    if markers.len() == 0 {
        0
    } else {
        let last = markers.last();
        let rest = markers.drop_last();
        if exists|j: int| 0 <= j < cols.len() && gap(cols[j], last.0 as int) <= 2 {
            let j = choose|j: int| 0 <= j < cols.len() && gap(cols[j], last.0 as int) <= 2;
            let fewer = cols.remove(j);
            assert forall|a: int, b: int| 0 <= a < b < fewer.len() implies fewer[b] - fewer[a]
                >= 5 by {
                let a0 = if a < j { a } else { a + 1 };
                let b0 = if b < j { b } else { b + 1 };
                assert(fewer[a] == cols[a0]);
                assert(fewer[b] == cols[b0]);
            }
            let k0 = lemma_free_column(rest, fewer);
            let k = if k0 < j { k0 } else { k0 + 1 };
            assert(fewer[k0] == cols[k]);
            assert forall|m: int| 0 <= m < markers.len() implies gap(
                cols[k],
                (#[trigger] markers[m]).0 as int,
            ) > 2 by {
                if m < markers.len() - 1 {
                    assert(markers[m] == rest[m]);
                } else {
                    if k < j {
                        assert(cols[j] - cols[k] >= 5);
                    } else {
                        assert(cols[k] - cols[j] >= 5);
                    }
                }
            }
            k
        } else {
            let k = lemma_free_column(rest, cols);
            assert forall|m: int| 0 <= m < markers.len() implies gap(
                cols[k],
                (#[trigger] markers[m]).0 as int,
            ) > 2 by {
                if m < markers.len() - 1 {
                    assert(markers[m] == rest[m]);
                }
            }
            k
        }
    }
}

/// A display with at least one row, and more than five columns for every
/// marker already on it, has room for one more.
pub proof fn lemma_wide_display_has_room(markers: Seq<(i32, i32, Note, bool)>, w: int, h: int)
    requires
        h >= 1,
        w > 5 * markers.len(),
    ensures
        has_room(markers, w, h),
{
    let cols = Seq::new(markers.len() + 1, |k: int| left_of(w) + 5 * k);
    let k = lemma_free_column(markers, cols);
    let x = cols[k];
    let y = top_of(h);
    assert(on_display(w, h, x, y));
    assert(is_free(markers, x, y)) by {
        assert forall|m: int| 0 <= m < markers.len() implies chebyshev(
            x,
            y,
            (#[trigger] markers[m]).0 as int,
            markers[m].1 as int,
        ) > 2 by {
            assert(gap(cols[k], markers[m].0 as int) > 2);
        }
    }
}

/// Puts one marker per note on a display of `w` by `h` cells, in the order of
/// the notes, each unrevealed and more than two cells from the others. Notes
/// are left out only from the point where the display has no free cell, which
/// cannot happen while it is wider than five columns per marker placed.
pub fn place_markers(rng: &mut RandomNumberGenerator, w: i32, h: i32, notes: &Vec<Note>) -> (markers:
    Vec<(i32, i32, Note, bool)>)
    ensures
        spaced(markers@),
        all_on_display(markers@, w as int, h as int),
        markers.len() <= notes.len(),
        forall|i: int|
            0 <= i < markers.len() ==> (#[trigger] markers@[i]).2@ == notes@[i]@ && !markers@[i].3,
        markers.len() == notes.len() || !has_room(markers@, w as int, h as int),
        h >= 1 && w as int > 5 * (notes.len() - 1) ==> markers.len() == notes.len(),
{
    let mut markers: Vec<(i32, i32, Note, bool)> = Vec::new();
    let mut i: usize = 0;
    while i < notes.len()
        invariant
            i <= notes.len(),
            markers.len() == i,
            spaced(markers@),
            all_on_display(markers@, w as int, h as int),
            forall|j: int|
                0 <= j < markers.len() ==> (#[trigger] markers@[j]).2@ == notes@[j]@
                    && !markers@[j].3,
        decreases notes.len() - i,
    {
        proof {
            if h >= 1 && w as int > 5 * (notes.len() - 1) {
                lemma_wide_display_has_room(markers@, w as int, h as int);
            }
        }
        match place_marker(rng, &markers, w, h) {
            Some((x, y)) => {
                let note = notes[i].clone();
                let ghost before = markers@;
                markers.push((x, y, note, false));
                proof {
                    assert forall|a: int, b: int| 0 <= a < b < markers@.len() implies chebyshev(
                        (#[trigger] markers@[a]).0 as int,
                        markers@[a].1 as int,
                        (#[trigger] markers@[b]).0 as int,
                        markers@[b].1 as int,
                    ) > 2 by {
                        if b < before.len() {
                            assert(markers@[a] == before[a]);
                            assert(markers@[b] == before[b]);
                        } else {
                            assert(markers@[a] == before[a]);
                        }
                    }
                    assert forall|k: int| 0 <= k < markers@.len() implies on_display(
                        w as int,
                        h as int,
                        (#[trigger] markers@[k]).0 as int,
                        markers@[k].1 as int,
                    ) by {
                        if k < before.len() {
                            assert(markers@[k] == before[k]);
                        }
                    }
                    assert forall|j: int| 0 <= j < markers.len() implies (#[trigger] markers@[j]).2@
                        == notes@[j]@ && !markers@[j].3 by {
                        if j < before.len() {
                            assert(markers@[j] == before[j]);
                        }
                    }
                }
            },
            None => {
                return markers;
            },
        }
        i = i + 1;
    }
    markers
}

} // verus!
