//! Notes: the atomic facts that the player collects, and the allocator that
//! gives each note its identity.

use vstd::prelude::*;
use vstd::string::*;

verus! {

/// The kinds of deduction that a note can take part in.
#[derive(Debug, PartialEq, Eq, Hash, Clone, Copy, Structural)]
pub enum ConnectionType {
    MurderWeapon,
    EvidenceHair,
    EvidenceShoeSize,
}

/// One fragment of a note as contracts see it: its text, its colour, and
/// whether it is the highlighted payload.
pub type FragmentView = (Seq<char>, (u8, u8, u8), bool);

/// The fragments of a note as contracts see them.
pub open spec fn fragments_view(fragments: Seq<(String, (u8, u8, u8), bool)>) -> Seq<FragmentView> {
    Seq::new(fragments.len(), |i: int| (fragments[i].0@, fragments[i].1, fragments[i].2))
}

/// The notes of a list as contracts see them.
pub open spec fn notes_view(notes: Seq<Note>) -> Seq<NoteView> {
    Seq::new(notes.len(), |i: int| notes[i]@)
}

/// The text of a note as it is logged: every fragment followed by one space.
pub open spec fn log_text(fragments: Seq<FragmentView>) -> Seq<char>
    decreases fragments.len(),
{
    if fragments.len() == 0 {
        Seq::empty()
    } else {
        log_text(fragments.drop_last()) + fragments.last().0 + seq![' ']
    }
}

/// Hands out note ids in increasing order, each one once.
#[derive(Debug)]
pub struct NoteIds {
    next: u32,
}

impl NoteIds {
    /// The id that the next note will get.
    pub closed spec fn next_id(&self) -> u32 {
        self.next
    }

    /// How many more notes can be made before the ids run out.
    pub open spec fn remaining(&self) -> int {
        u32::MAX - self.next_id()
    }

    /// An allocator whose first id is 0.
    pub fn new() -> (ids: NoteIds)
        ensures
            ids.next_id() == 0,
    {
        NoteIds { next: 0 }
    }

    /// The number of ids that are left, for callers that must test it.
    pub fn left(&self) -> (n: u32)
        ensures
            n == self.remaining(),
    {
        u32::MAX - self.next
    }

    fn take(&mut self) -> (id: u32)
        requires
            old(self).remaining() > 0,
        ensures
            id == old(self).next_id(),
            final(self).next_id() == old(self).next_id() + 1,
    {
        let id: u32 = self.next;
        self.next = self.next + 1;
        id
    }
}

/// A note: its identity, its coloured text fragments, and the kind of deduction
/// it can take part in, if any.
#[derive(Debug, PartialEq, Eq, Hash)]
pub struct Note {
    pub id: u32,
    pub note: Vec<(String, (u8, u8, u8), bool)>,
    pub cxn_type: Option<ConnectionType>,
}

/// A note as contracts see it.
pub struct NoteView {
    pub id: u32,
    pub note: Seq<FragmentView>,
    pub cxn_type: Option<ConnectionType>,
}

impl View for Note {
    type V = NoteView;

    open spec fn view(&self) -> NoteView {
        NoteView { id: self.id, note: fragments_view(self.note@), cxn_type: self.cxn_type }
    }
}

impl Clone for Note {
    fn clone(&self) -> (copy: Note)
        ensures
            copy@ == self@,
    {
        let mut fragments: Vec<(String, (u8, u8, u8), bool)> = Vec::new();
        let mut i: usize = 0;
        while i < self.note.len()
            invariant
                i <= self.note.len(),
                fragments.len() == i,
                forall|j: int|
                    0 <= j < i ==> {
                        &&& (#[trigger] fragments@[j]).0@ == self.note@[j].0@
                        &&& fragments@[j].1 == self.note@[j].1
                        &&& fragments@[j].2 == self.note@[j].2
                    },
            decreases self.note.len() - i,
        {
            let text = self.note[i].0.clone();
            fragments.push((text, self.note[i].1, self.note[i].2));
            i = i + 1;
        }
        assert(fragments_view(fragments@) =~= fragments_view(self.note@));
        Note { id: self.id, note: fragments, cxn_type: self.cxn_type }
    }
}

/// One fragment of a note.
pub fn fragment(text: &str, color: (u8, u8, u8), highlighted: bool) -> (made: (
    String,
    (u8, u8, u8),
    bool,
))
    ensures
        made.0@ == text@,
        made.1 == color,
        made.2 == highlighted,
{
    (String::from_str(text), color, highlighted)
}

impl Note {
    /// Makes a note with the next free id, and moves the allocator past it.
    /// Two notes made from one allocator never share an id, whatever their
    /// text.
    pub fn new(
        ids: &mut NoteIds,
        note: Vec<(String, (u8, u8, u8), bool)>,
        cxn_type: Option<ConnectionType>,
    ) -> (made: Note)
        requires
            old(ids).remaining() > 0,
        ensures
            made.id == old(ids).next_id(),
            made.note == note,
            made.cxn_type == cxn_type,
            made.id < final(ids).next_id(),
            final(ids).next_id() == old(ids).next_id() + 1,
    {
        let id = ids.take();
        Note { id, note, cxn_type }
    }

    /// The note as one line of text: each fragment followed by a space.
    pub fn get_log_msg(&self) -> (msg: String)
        ensures
            msg@ == log_text(self@.note),
    {
        let mut log_msg = String::new();
        let mut i: usize = 0;
        proof {
            reveal_strlit(" ");
        }
        while i < self.note.len()
            invariant
                i <= self.note.len(),
                " "@ == seq![' '],
                log_msg@ == log_text(self@.note.take(i as int)),
            decreases self.note.len() - i,
        {
            proof {
                let next = self@.note.take(i + 1);
                assert(next.drop_last() == self@.note.take(i as int));
                assert(next.last() == self@.note[i as int]);
            }
            log_msg.append(self.note[i].0.as_str());
            log_msg.append(" ");
            i = i + 1;
        }
        assert(self@.note.take(i as int) == self@.note);
        log_msg
    }
}

/// An allocator never hands out an id twice: a note that was made when the
/// allocator had already moved past the id of an earlier note has another id
/// than that note, even where their fragments are the same.
pub proof fn lemma_fresh_ids_differ(earlier: Note, ids: NoteIds, later: Note)
    requires
        earlier.id < ids.next_id(),
        later.id == ids.next_id(),
    ensures
        earlier.id != later.id,
        earlier@ != later@,
{
}

} // verus!
