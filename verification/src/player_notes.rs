//! What the player has found out: the notes discovered so far, the notes
//! currently selected for linking, and whether a deduction has unlocked the
//! accusation.

use crate::clue::Clue;
use crate::connection::{connections_view, Connection, ConnectionView};
use crate::note::{notes_view, Note, NoteView};
use vstd::prelude::*;
use vstd::string::*;

verus! {

/// Whether a note with the given id is among the notes.
pub open spec fn knows(notes: Seq<NoteView>, id: u32) -> bool {
    exists|i: int| 0 <= i < notes.len() && (#[trigger] notes[i]).id == id
}

/// The notes after one more has been discovered: unchanged where a note with
/// that id is already there, else with the note at the end.
pub open spec fn discovered(notes: Seq<NoteView>, note: NoteView) -> Seq<NoteView> {
    if knows(notes, note.id) {
        notes
    } else {
        notes.push(note)
    }
}

/// No two notes share an id.
pub open spec fn distinct_ids(notes: Seq<NoteView>) -> bool {
    forall|i: int, j: int|
        0 <= i < j < notes.len() ==> (#[trigger] notes[i]).id != (#[trigger] notes[j]).id
}

/// The selection after an id has been selected: unchanged where the id is
/// already selected, else with the id at the end.
pub open spec fn with_selected(selected: Seq<u32>, id: u32) -> Seq<u32> {
    if selected.contains(id) {
        selected
    } else {
        selected.push(id)
    }
}

/// The selection without the given id, the others in their order.
pub open spec fn without_selected(selected: Seq<u32>, id: u32) -> Seq<u32>
    decreases selected.len(),
{
    if selected.len() == 0 {
        Seq::empty()
    } else if selected.last() == id {
        without_selected(selected.drop_last(), id)
    } else {
        without_selected(selected.drop_last(), id).push(selected.last())
    }
}

/// Whether both notes of the connection are selected.
pub open spec fn joins(connection: ConnectionView, selected: Seq<u32>) -> bool {
    selected.contains(connection.ids.0) && selected.contains(connection.ids.1)
}

/// Whether an attempt with this selection consumes the connection at `i`: at
/// least two notes are selected, the connection joins two of them, and no
/// connection before it does.
pub open spec fn match_at(pool: Seq<ConnectionView>, selected: Seq<u32>, i: int) -> bool {
    &&& selected.len() >= 2
    &&& 0 <= i < pool.len()
    &&& joins(pool[i], selected)
    &&& forall|j: int| 0 <= j < i ==> !joins(#[trigger] pool[j], selected)
}

/// What an attempt to link the selected notes gave.
#[derive(Debug)]
pub enum MatchResult {
    /// A connection joined two selected notes; this is the note it brought.
    Matched(Note),
    /// No connection joins two of the selected notes.
    NoMatch,
}

/// What the player is told when the selected notes have nothing to do with
/// each other.
pub open spec fn no_match_text() -> Seq<char> {
    "No connection found."@
}

impl MatchResult {
    /// The line for the log: the text of the new note, or the fixed message
    /// for an attempt that linked nothing.
    pub fn get_log_msg(&self) -> (msg: String)
        ensures
            msg@ == match *self {
                MatchResult::Matched(note) => crate::note::log_text(note@.note),
                MatchResult::NoMatch => no_match_text(),
            },
    {
        match self {
            MatchResult::Matched(note) => note.get_log_msg(),
            MatchResult::NoMatch => String::from_str("No connection found."),
        }
    }
}

/// The notes are kept in the order of their discovery, each id once; the
/// selection holds ids in the order of their selection, each once.
#[derive(Debug, PartialEq)]
pub struct PlayerNotes {
    pub notes: Vec<Note>,
    pub selected: Vec<u32>,
    pub accuse_unlocked: bool,
}

impl Clone for PlayerNotes {
    fn clone(&self) -> (copy: PlayerNotes)
        ensures
            notes_view(copy.notes@) == notes_view(self.notes@),
            copy.selected@ == self.selected@,
            copy.accuse_unlocked == self.accuse_unlocked,
    {
        let mut notes: Vec<Note> = Vec::new();
        let mut i: usize = 0;
        while i < self.notes.len()
            invariant
                i <= self.notes.len(),
                notes.len() == i,
                forall|j: int| 0 <= j < i ==> (#[trigger] notes@[j])@ == self.notes@[j]@,
            decreases self.notes.len() - i,
        {
            notes.push(self.notes[i].clone());
            i = i + 1;
        }
        let mut selected: Vec<u32> = Vec::new();
        let mut k: usize = 0;
        while k < self.selected.len()
            invariant
                k <= self.selected.len(),
                selected@ == self.selected@.take(k as int),
            decreases self.selected.len() - k,
        {
            selected.push(self.selected[k]);
            assert(selected@ =~= self.selected@.take(k + 1));
            k = k + 1;
        }
        assert(self.selected@.take(k as int) == self.selected@);
        assert(notes_view(notes@) =~= notes_view(self.notes@));
        PlayerNotes { notes, selected, accuse_unlocked: self.accuse_unlocked }
    }
}

/// Whether the id is in the list.
fn holds_id(ids: &Vec<u32>, id: u32) -> (held: bool)
    ensures
        held == ids@.contains(id),
{
    let mut i: usize = 0;
    while i < ids.len()
        invariant
            i <= ids.len(),
            forall|j: int| 0 <= j < i ==> ids@[j] != id,
        decreases ids.len() - i,
    {
        if ids[i] == id {
            return true;
        }
        i = i + 1;
    }
    false
}

impl PlayerNotes {
    /// No two discovered notes share an id, and no id is selected twice.
    pub open spec fn wf(&self) -> bool {
        &&& distinct_ids(notes_view(self.notes@))
        &&& self.selected@.no_duplicates()
    }

    /// A player who has found nothing, selected nothing, and cannot accuse
    /// anybody yet.
    pub fn new() -> (fresh: PlayerNotes)
        ensures
            fresh.notes@.len() == 0,
            fresh.selected@.len() == 0,
            !fresh.accuse_unlocked,
            fresh.wf(),
    {
        PlayerNotes { notes: Vec::new(), selected: Vec::new(), accuse_unlocked: false }
    }

    /// Whether a note with this id has been discovered.
    pub fn has_note(&self, id: u32) -> (found: bool)
        ensures
            found == knows(notes_view(self.notes@), id),
    {
        let mut i: usize = 0;
        while i < self.notes.len()
            invariant
                i <= self.notes.len(),
                forall|j: int| 0 <= j < i ==> (#[trigger] notes_view(self.notes@)[j]).id != id,
            decreases self.notes.len() - i,
        {
            if self.notes[i].id == id {
                assert(notes_view(self.notes@)[i as int].id == id);
                return true;
            }
            i = i + 1;
        }
        false
    }

    /// Records a discovered note. A note whose id is already there is not
    /// recorded again.
    pub fn add_note(&mut self, note: Note)
        ensures
            notes_view(final(self).notes@) == discovered(notes_view(old(self).notes@), note@),
            final(self).selected == old(self).selected,
            final(self).accuse_unlocked == old(self).accuse_unlocked,
            old(self).wf() ==> final(self).wf(),
    {
        if !self.has_note(note.id) {
            self.notes.push(note);
            assert(notes_view(self.notes@) =~= notes_view(old(self).notes@).push(note@));
        }
        proof {
            if old(self).wf() {
                lemma_discover_keeps_distinct(notes_view(old(self).notes@), note@);
            }
        }
    }

    /// Examines a clue with the pointer at the given cell. Where the pointer
    /// activates a marker, that marker is revealed and its note is recorded,
    /// and the marker's index is handed back. Where it activates none,
    /// nothing changes.
    pub fn examine(&mut self, clue: &mut Clue, x: i32, y: i32) -> (found: Option<usize>)
        ensures
            match found {
                Some(k) => {
                    &&& k < old(clue).markers.len()
                    &&& old(clue).activates(k as int, x as int, y as int)
                    &&& forall|j: int| 0 <= j < k ==> !old(clue).activates(j, x as int, y as int)
                    &&& final(clue).markers@ == Clue::revealed_at(old(clue).markers@, k as int)
                    &&& notes_view(final(self).notes@) == discovered(
                        notes_view(old(self).notes@),
                        old(clue).markers@[k as int].2@,
                    )
                },
                None => {
                    &&& forall|j: int|
                        0 <= j < old(clue).markers.len() ==> !old(clue).activates(
                            j,
                            x as int,
                            y as int,
                        )
                    &&& final(clue).markers == old(clue).markers
                    &&& final(self).notes == old(self).notes
                },
            },
            final(clue).name == old(clue).name,
            final(clue).color == old(clue).color,
            final(clue).is_murder_weapon == old(clue).is_murder_weapon,
            final(clue).display == old(clue).display,
            old(clue).wf() ==> final(clue).wf(),
            final(self).selected == old(self).selected,
            final(self).accuse_unlocked == old(self).accuse_unlocked,
            old(self).wf() ==> final(self).wf(),
    {
        let found = clue.marker_at(x, y);
        match found {
            Some(k) => {
                clue.reveal_marker(k);
                let note = clue.markers[k].2.clone();
                self.add_note(note);
            },
            None => {},
        }
        found
    }

    /// Selects a note for linking, by id. Selecting a selected note changes
    /// nothing.
    pub fn select(&mut self, id: u32)
        ensures
            final(self).selected@ == with_selected(old(self).selected@, id),
            final(self).notes == old(self).notes,
            final(self).accuse_unlocked == old(self).accuse_unlocked,
            old(self).wf() ==> final(self).wf(),
    {
        if !holds_id(&self.selected, id) {
            self.selected.push(id);
        }
    }

    /// Takes a note out of the selection, by id. Deselecting a note that is
    /// not selected changes nothing.
    pub fn deselect(&mut self, id: u32)
        ensures
            final(self).selected@ == without_selected(old(self).selected@, id),
            final(self).notes == old(self).notes,
            final(self).accuse_unlocked == old(self).accuse_unlocked,
            old(self).wf() ==> final(self).wf(),
    {
        let mut kept: Vec<u32> = Vec::new();
        let mut i: usize = 0;
        assert(self.selected@.take(0) =~= Seq::<u32>::empty());
        while i < self.selected.len()
            invariant
                i <= self.selected.len(),
                self.selected == old(self).selected,
                self.notes == old(self).notes,
                self.accuse_unlocked == old(self).accuse_unlocked,
                kept@ == without_selected(self.selected@.take(i as int), id),
            decreases self.selected.len() - i,
        {
            proof {
                let next = self.selected@.take(i + 1);
                assert(next.drop_last() == self.selected@.take(i as int));
            }
            if self.selected[i] != id {
                kept.push(self.selected[i]);
            }
            i = i + 1;
        }
        assert(self.selected@.take(i as int) == self.selected@);
        proof {
            if old(self).wf() {
                lemma_deselect_keeps_the_rest(old(self).selected@, id);
            }
        }
        self.selected = kept;
    }

    /// Whether the player may accuse somebody: true from the first successful
    /// match on.
    pub fn can_accuse(&self) -> (can: bool)
        ensures
            can == self.accuse_unlocked,
    {
        self.accuse_unlocked
    }

    /// The first connection of the pool that joins two selected notes, if at
    /// least two notes are selected and there is one.
    pub fn find_match(&self, connections: &Vec<Connection>) -> (found: Option<usize>)
        ensures
            match found {
                Some(i) => match_at(connections_view(connections@), self.selected@, i as int),
                None => forall|i: int|
                    !match_at(connections_view(connections@), self.selected@, i),
            },
    {
        if self.selected.len() < 2 {
            return None;
        }
        let mut i: usize = 0;
        while i < connections.len()
            invariant
                i <= connections.len(),
                self.selected.len() >= 2,
                forall|j: int|
                    0 <= j < i ==> !joins(
                        #[trigger] connections_view(connections@)[j],
                        self.selected@,
                    ),
            decreases connections.len() - i,
        {
            if holds_id(&self.selected, connections[i].ids.0) && holds_id(
                &self.selected,
                connections[i].ids.1,
            ) {
                assert(connections_view(connections@)[i as int].ids == connections@[i as int].ids);
                return Some(i);
            }
            assert(connections_view(connections@)[i as int].ids == connections@[i as int].ids);
            i = i + 1;
        }
        None
    }

    /// Tries to link the selected notes. The first connection of the pool
    /// that joins two of them is taken out of the pool for good, its note is
    /// recorded and handed back, and the accusation is unlocked. Where there
    /// is none, nothing changes. Either way the selection is empty afterwards.
    pub fn attempt_match(&mut self, connections: &mut Vec<Connection>) -> (result: MatchResult)
        ensures
            final(self).selected@.len() == 0,
            match result {
                MatchResult::Matched(note) => exists|i: int|
                    {
                        &&& #[trigger] match_at(
                            connections_view(old(connections)@),
                            old(self).selected@,
                            i,
                        )
                        &&& note@ == old(connections)@[i]@.note
                        &&& final(connections)@ == old(connections)@.remove(i)
                        &&& notes_view(final(self).notes@) == discovered(
                            notes_view(old(self).notes@),
                            note@,
                        )
                        &&& final(self).accuse_unlocked
                    },
                MatchResult::NoMatch => {
                    &&& forall|i: int|
                        !match_at(connections_view(old(connections)@), old(self).selected@, i)
                    &&& final(connections)@ == old(connections)@
                    &&& final(self).notes == old(self).notes
                    &&& final(self).accuse_unlocked == old(self).accuse_unlocked
                },
            },
            old(self).accuse_unlocked ==> final(self).accuse_unlocked,
            old(self).wf() ==> final(self).wf(),
    {
        let found = self.find_match(connections);
        self.selected = Vec::new();
        match found {
            Some(i) => {
                let connection = connections.remove(i);
                let note = connection.note;
                let copy = note.clone();
                self.add_note(note);
                self.accuse_unlocked = true;
                assert(match_at(
                    connections_view(old(connections)@),
                    old(self).selected@,
                    i as int,
                ));
                MatchResult::Matched(copy)
            },
            None => MatchResult::NoMatch,
        }
    }
}

/// Discovering a note whose id was discovered before changes nothing: after
/// the second discovery the notes are what they were after the first.
pub proof fn lemma_discover_idempotent(notes: Seq<NoteView>, first: NoteView, second: NoteView)
    requires
        first.id == second.id,
    ensures
        discovered(discovered(notes, first), second) == discovered(notes, first),
{
    let once = discovered(notes, first);
    if !knows(notes, first.id) {
        assert(once[once.len() - 1].id == first.id);
    }
    assert(knows(once, second.id));
}

/// Discovery keeps ids apart: where no two notes shared an id before, none do
/// after.
pub proof fn lemma_discover_keeps_distinct(notes: Seq<NoteView>, note: NoteView)
    requires
        distinct_ids(notes),
    ensures
        distinct_ids(discovered(notes, note)),
{
}

/// A connection is consumed once: where it was the only one to join two of
/// the selected notes, no connection of the remaining pool does, so a second
/// attempt with the same selection links nothing.
pub proof fn lemma_match_consumes(pool: Seq<ConnectionView>, selected: Seq<u32>, i: int)
    requires
        match_at(pool, selected, i),
        forall|j: int| 0 <= j < pool.len() && j != i ==> !joins(#[trigger] pool[j], selected),
    ensures
        forall|k: int| !match_at(pool.remove(i), selected, k),
{
    let rest = pool.remove(i);
    assert forall|k: int| !match_at(rest, selected, k) by {
        if 0 <= k < rest.len() {
            let at = if k < i { k } else { k + 1 };
            assert(rest[k] == pool[at]);
        }
    }
}

/// With two notes selected, a connection is consumed once: where no two
/// connections join the same two notes and no note stands on both sides, the
/// connection that an attempt takes was the only one to join the two, so a
/// second attempt with the same two notes links nothing.
pub proof fn lemma_two_notes_match_once(pool: Seq<ConnectionView>, selected: Seq<u32>, i: int)
    requires
        selected.len() == 2,
        match_at(pool, selected, i),
        forall|p: int, q: int|
            0 <= p < q < pool.len() ==> (#[trigger] pool[p]).ids != (#[trigger] pool[q]).ids,
        forall|p: int, q: int|
            0 <= p < pool.len() && 0 <= q < pool.len() ==> (#[trigger] pool[p]).ids.0 != (
            #[trigger] pool[q]).ids.1,
    ensures
        forall|j: int| 0 <= j < pool.len() && j != i ==> !joins(#[trigger] pool[j], selected),
        forall|k: int| !match_at(pool.remove(i), selected, k),
{
    assert forall|j: int| 0 <= j < pool.len() && j != i implies !joins(
        #[trigger] pool[j],
        selected,
    ) by {
        if joins(pool[j], selected) {
            let a = selected[0];
            let b = selected[1];
            assert(forall|id: u32| selected.contains(id) ==> id == a || id == b);
            assert(pool[i].ids.0 != pool[i].ids.1);
            assert(pool[j].ids.0 != pool[j].ids.1);
            assert(pool[j].ids.0 != pool[i].ids.1);
            assert(pool[j].ids == pool[i].ids);
            if j < i {
                assert(pool[j].ids != pool[i].ids);
            } else {
                assert(pool[i].ids != pool[j].ids);
            }
        }
    }
    lemma_match_consumes(pool, selected, i);
}

/// A consumed connection is gone from the pool: where the notes that the
/// connections bring all have their own id, the pool without the connection
/// at `i` holds no connection equal to it, and is one shorter.
pub proof fn lemma_consumed_is_gone(pool: Seq<ConnectionView>, i: int)
    requires
        0 <= i < pool.len(),
        forall|a: int, b: int|
            0 <= a < b < pool.len() ==> (#[trigger] pool[a]).note.id != (#[trigger] pool[b]).note.id,
    ensures
        !pool.remove(i).contains(pool[i]),
        pool.remove(i).len() == pool.len() - 1,
{
    let rest = pool.remove(i);
    assert forall|k: int| 0 <= k < rest.len() implies rest[k] != pool[i] by {
        let at = if k < i { k } else { k + 1 };
        assert(rest[k] == pool[at]);
        if at < i {
            assert(pool[at].note.id != pool[i].note.id);
        } else {
            assert(pool[i].note.id != pool[at].note.id);
        }
    }
}

/// What is selected after an id has been taken out: exactly the other ids
/// that were selected before, and none of them twice where none was before.
pub proof fn lemma_deselect_keeps_the_rest(selected: Seq<u32>, id: u32)
    ensures
        forall|other: u32|
            #![trigger without_selected(selected, id).contains(other)]
            #![trigger selected.contains(other)]
            without_selected(selected, id).contains(other) <==> (selected.contains(other) && other
                != id),
        selected.no_duplicates() ==> without_selected(selected, id).no_duplicates(),
    decreases selected.len(),
{
    let after = without_selected(selected, id);
    if selected.len() > 0 {
        let rest = selected.drop_last();
        let last = selected.last();
        let kept = without_selected(rest, id);
        lemma_deselect_keeps_the_rest(rest, id);
        assert forall|other: u32| after.contains(other) <==> (selected.contains(other) && other
            != id) by {
            if after.contains(other) {
                let k = choose|k: int| 0 <= k < after.len() && after[k] == other;
                if k < kept.len() {
                    assert(kept[k] == other);
                    assert(kept.contains(other));
                    let at = choose|at: int| 0 <= at < rest.len() && rest[at] == other;
                    assert(selected[at] == other);
                } else {
                    assert(selected[selected.len() - 1] == other);
                }
            }
            if selected.contains(other) && other != id {
                let at = choose|at: int| 0 <= at < selected.len() && selected[at] == other;
                if at < rest.len() {
                    assert(rest[at] == other);
                    assert(rest.contains(other));
                    let k = choose|k: int| 0 <= k < kept.len() && kept[k] == other;
                    assert(after[k] == other);
                } else {
                    assert(after[after.len() - 1] == other);
                }
            }
        }
        if selected.no_duplicates() {
            assert(rest.no_duplicates());
            if last != id {
                assert forall|k: int| 0 <= k < kept.len() implies kept[k] != last by {
                    assert(kept.contains(kept[k]));
                    let at = choose|at: int| 0 <= at < rest.len() && rest[at] == kept[k];
                    assert(selected[at] == kept[k]);
                }
            }
        }
    }
}

} // verus!
