//! Connections: the deductions that the player can make by putting a note
//! from the victim's body beside a note from a clue.

use crate::clue::Clue;
use crate::links::{
    described, lemma_links_counted, lemma_links_described, lemma_sources_grow,
    lemma_sources_in_clue_grow, lemma_sources_in_clues_grow, link_count, sources,
    sources_in_clue, sources_in_clues,
};
use crate::note::{fragment, ConnectionType, Note, NoteIds, NoteView};
use crate::palette::{RED, WHITE};
use crate::placement::notes_of;
use crate::suspect::Suspect;
use crate::victim::Victim;
use vstd::prelude::*;
use vstd::string::*;

verus! {

/// Two notes, by id, the kind of deduction that links them, and the note that
/// the player gets for making it.
#[derive(Debug, PartialEq, Eq, Hash)]
pub struct Connection {
    pub ids: (u32, u32),
    pub cxn_type: ConnectionType,
    pub note: Note,
}

/// A connection as contracts see it.
pub struct ConnectionView {
    pub ids: (u32, u32),
    pub cxn_type: ConnectionType,
    pub note: NoteView,
}

impl View for Connection {
    type V = ConnectionView;

    open spec fn view(&self) -> ConnectionView {
        ConnectionView { ids: self.ids, cxn_type: self.cxn_type, note: self.note@ }
    }
}

impl Clone for Connection {
    fn clone(&self) -> (copy: Connection)
        ensures
            copy@ == self@,
    {
        Connection {
            ids: (self.ids.0, self.ids.1),
            cxn_type: self.cxn_type,
            note: self.note.clone(),
        }
    }
}

/// The connections of a list as contracts see them.
pub open spec fn connections_view(connections: Seq<Connection>) -> Seq<ConnectionView> {
    Seq::new(connections.len(), |i: int| connections[i]@)
}

/// What a list of clues offers for linking: for each clue its name and the
/// notes of its markers.
pub open spec fn clue_notes_view(clues: Seq<Clue>) -> Seq<(Seq<char>, Seq<NoteView>)> {
    Seq::new(clues.len(), |i: int| (clues[i].name@, notes_of(clues[i].markers@)))
}

/// How a deduction of the given kind is worded: what was linked, and how it
/// is tied to the clue.
pub open spec fn deduction_words(cxn_type: ConnectionType) -> (Seq<char>, Seq<char>) {
    match cxn_type {
        ConnectionType::MurderWeapon => ("murder weapon"@, "must have been"@),
        ConnectionType::EvidenceHair => ("hair"@, "must have come from"@),
        ConnectionType::EvidenceShoeSize => ("footprints"@, "must lead to"@),
    }
}

/// The note that the player gets for a deduction of the given kind about the
/// clue of the given name. It takes part in no further deduction.
pub open spec fn deduction_note(cxn_type: ConnectionType, clue_name: Seq<char>, id: u32) -> NoteView {
    NoteView {
        id,
        note: seq![
            ("Aha! The"@, WHITE, false),
            (deduction_words(cxn_type).0, RED, false),
            (deduction_words(cxn_type).1, WHITE, false),
            (clue_name, RED, false),
        ],
        cxn_type: None,
    }
}

/// Whether a note from the body and a note from a clue can be linked: both
/// are tagged, with the same kind.
pub open spec fn linkable(from: NoteView, to: NoteView) -> bool {
    from.cxn_type.is_some() && from.cxn_type == to.cxn_type
}

/// The connection between a note from the body and a note from a clue.
pub open spec fn link(from: NoteView, to: NoteView, clue_name: Seq<char>, id: u32) -> ConnectionView {
    ConnectionView {
        ids: (from.id, to.id),
        cxn_type: from.cxn_type.unwrap(),
        note: deduction_note(from.cxn_type.unwrap(), clue_name, id),
    }
}

/// The connections from one note of the body to the notes of one clue, in
/// the order of the clue's notes. The notes that they bring get their ids in
/// that order from `first_id`.
pub open spec fn links_in_clue(
    from: NoteView,
    clue_name: Seq<char>,
    notes: Seq<NoteView>,
    first_id: int,
) -> Seq<ConnectionView>
    decreases notes.len(),
{
    if notes.len() == 0 {
        Seq::empty()
    } else {
        let before = links_in_clue(from, clue_name, notes.drop_last(), first_id);
        if linkable(from, notes.last()) {
            before.push(link(from, notes.last(), clue_name, (first_id + before.len()) as u32))
        } else {
            before
        }
    }
}

/// The connections from one note of the body to the notes of every clue, clue
/// by clue.
pub open spec fn links_in_clues(
    from: NoteView,
    clues: Seq<(Seq<char>, Seq<NoteView>)>,
    first_id: int,
) -> Seq<ConnectionView>
    decreases clues.len(),
{
    if clues.len() == 0 {
        Seq::empty()
    } else {
        let before = links_in_clues(from, clues.drop_last(), first_id);
        before + links_in_clue(from, clues.last().0, clues.last().1, first_id + before.len())
    }
}

/// Every connection of a story: for each note of the body in turn, its
/// connections to the notes of every clue.
pub open spec fn all_links(
    body: Seq<NoteView>,
    clues: Seq<(Seq<char>, Seq<NoteView>)>,
    first_id: int,
) -> Seq<ConnectionView>
    decreases body.len(),
{
    if body.len() == 0 {
        Seq::empty()
    } else {
        let before = all_links(body.drop_last(), clues, first_id);
        before + links_in_clues(body.last(), clues, first_id + before.len())
    }
}

/// The first notes of a clue give no more connections than all of them.
pub proof fn lemma_links_in_clue_grow(
    from: NoteView,
    clue_name: Seq<char>,
    notes: Seq<NoteView>,
    first_id: int,
    k: int,
)
    requires
        0 <= k <= notes.len(),
    ensures
        links_in_clue(from, clue_name, notes.take(k), first_id).len() <= links_in_clue(
            from,
            clue_name,
            notes,
            first_id,
        ).len(),
    decreases notes.len(),
{
    if k == notes.len() {
        assert(notes.take(k) == notes);
    } else {
        assert(notes.drop_last().take(k) == notes.take(k));
        lemma_links_in_clue_grow(from, clue_name, notes.drop_last(), first_id, k);
    }
}

/// The first clues give no more connections than all of them.
pub proof fn lemma_links_in_clues_grow(
    from: NoteView,
    clues: Seq<(Seq<char>, Seq<NoteView>)>,
    first_id: int,
    k: int,
)
    requires
        0 <= k <= clues.len(),
    ensures
        links_in_clues(from, clues.take(k), first_id).len() <= links_in_clues(
            from,
            clues,
            first_id,
        ).len(),
    decreases clues.len(),
{
    if k == clues.len() {
        assert(clues.take(k) == clues);
    } else {
        assert(clues.drop_last().take(k) == clues.take(k));
        lemma_links_in_clues_grow(from, clues.drop_last(), first_id, k);
    }
}

/// The first notes of the body give no more connections than all of them.
pub proof fn lemma_all_links_grow(
    body: Seq<NoteView>,
    clues: Seq<(Seq<char>, Seq<NoteView>)>,
    first_id: int,
    k: int,
)
    requires
        0 <= k <= body.len(),
    ensures
        all_links(body.take(k), clues, first_id).len() <= all_links(body, clues, first_id).len(),
    decreases body.len(),
{
    if k == body.len() {
        assert(body.take(k) == body);
    } else {
        assert(body.drop_last().take(k) == body.take(k));
        lemma_all_links_grow(body.drop_last(), clues, first_id, k);
    }
}

/// The words of a deduction of the given kind.
fn words_for(cxn_type: ConnectionType) -> (words: (String, String))
    ensures
        (words.0@, words.1@) == deduction_words(cxn_type),
{
    match cxn_type {
        ConnectionType::MurderWeapon => (
            String::from_str("murder weapon"),
            String::from_str("must have been"),
        ),
        ConnectionType::EvidenceHair => (
            String::from_str("hair"),
            String::from_str("must have come from"),
        ),
        ConnectionType::EvidenceShoeSize => (
            String::from_str("footprints"),
            String::from_str("must lead to"),
        ),
    }
}

/// Whether a note from the body and a note from a clue can be linked.
pub fn can_link(from: &Note, to: &Note) -> (linked: bool)
    ensures
        linked == linkable(from@, to@),
{
    match (from.cxn_type, to.cxn_type) {
        (Some(a), Some(b)) => a == b,
        _ => false,
    }
}

/// Adds to a count the connections from one note of the body to the notes of
/// one clue; `None` where the sum is more than ids can ever serve.
fn count_in_clue(from: &Note, clue: &Clue, so_far: u32) -> (total: Option<u32>)
    ensures
        match total {
            Some(n) => n == so_far + sources_in_clue(from@, notes_of(clue.markers@)).len(),
            None => so_far + sources_in_clue(from@, notes_of(clue.markers@)).len() > u32::MAX,
        },
{
    let ghost notes = notes_of(clue.markers@);
    let mut count: u32 = so_far;
    let mut k: usize = 0;
    assert(notes.take(0) =~= Seq::<NoteView>::empty());
    while k < clue.markers.len()
        invariant
            k <= clue.markers.len(),
            notes == notes_of(clue.markers@),
            count == so_far + sources_in_clue(from@, notes.take(k as int)).len(),
        decreases clue.markers.len() - k,
    {
        proof {
            assert(notes.take(k + 1).drop_last() == notes.take(k as int));
            assert(notes.take(k + 1).last() == clue.markers@[k as int].2@);
            lemma_sources_in_clue_grow(from@, notes, k + 1);
        }
        if can_link(from, &clue.markers[k].2) {
            if count == u32::MAX {
                return None;
            }
            count = count + 1;
        }
        k = k + 1;
    }
    assert(notes.take(k as int) == notes);
    Some(count)
}

/// Adds to a count the connections from one note of the body to the notes of
/// every clue; `None` where the sum is more than ids can ever serve.
fn count_in_clues(from: &Note, clues: &Vec<Clue>, so_far: u32) -> (total: Option<u32>)
    ensures
        match total {
            Some(n) => n == so_far + sources_in_clues(from@, clue_notes_view(clues@)).len(),
            None => so_far + sources_in_clues(from@, clue_notes_view(clues@)).len() > u32::MAX,
        },
{
    let ghost offer = clue_notes_view(clues@);
    let mut count: u32 = so_far;
    let mut j: usize = 0;
    assert(offer.take(0) =~= Seq::<(Seq<char>, Seq<NoteView>)>::empty());
    while j < clues.len()
        invariant
            j <= clues.len(),
            offer == clue_notes_view(clues@),
            count == so_far + sources_in_clues(from@, offer.take(j as int)).len(),
        decreases clues.len() - j,
    {
        proof {
            assert(offer.take(j + 1).drop_last() == offer.take(j as int));
            assert(offer.take(j + 1).last() == offer[j as int]);
            lemma_sources_in_clues_grow(from@, offer, j + 1);
        }
        match count_in_clue(from, &clues[j], count) {
            Some(n) => {
                count = n;
            },
            None => {
                return None;
            },
        }
        j = j + 1;
    }
    assert(offer.take(j as int) == offer);
    Some(count)
}

/// Appends the connections from one note of the body to the notes of one
/// clue.
fn link_clue(ids: &mut NoteIds, cxns: &mut Vec<Connection>, from: &Note, clue: &Clue)
    requires
        links_in_clue(
            from@,
            clue.name@,
            notes_of(clue.markers@),
            old(ids).next_id() as int,
        ).len() <= old(ids).remaining(),
    ensures
        connections_view(final(cxns)@) == connections_view(old(cxns)@) + links_in_clue(
            from@,
            clue.name@,
            notes_of(clue.markers@),
            old(ids).next_id() as int,
        ),
        final(ids).next_id() == old(ids).next_id() + links_in_clue(
            from@,
            clue.name@,
            notes_of(clue.markers@),
            old(ids).next_id() as int,
        ).len(),
{
    let ghost first = ids.next_id() as int;
    let ghost notes = notes_of(clue.markers@);
    let mut k: usize = 0;
    assert(notes.take(0) =~= Seq::<NoteView>::empty());
    assert(connections_view(cxns@) =~= connections_view(old(cxns)@) + Seq::<
        ConnectionView,
    >::empty());
    while k < clue.markers.len()
        invariant
            k <= clue.markers.len(),
            notes == notes_of(clue.markers@),
            first == old(ids).next_id(),
            links_in_clue(from@, clue.name@, notes, first).len() <= old(ids).remaining(),
            connections_view(cxns@) == connections_view(old(cxns)@) + links_in_clue(
                from@,
                clue.name@,
                notes.take(k as int),
                first,
            ),
            ids.next_id() == first + links_in_clue(
                from@,
                clue.name@,
                notes.take(k as int),
                first,
            ).len(),
        decreases clue.markers.len() - k,
    {
        let ghost before = links_in_clue(from@, clue.name@, notes.take(k as int), first);
        proof {
            assert(notes.take(k + 1).drop_last() == notes.take(k as int));
            assert(notes.take(k + 1).last() == clue.markers@[k as int].2@);
            lemma_links_in_clue_grow(from@, clue.name@, notes, first, k + 1);
        }
        let to = &clue.markers[k].2;
        if can_link(from, to) {
            let cxn_type = from.cxn_type.unwrap();
            let (what, how) = words_for(cxn_type);
            let mut text: Vec<(String, (u8, u8, u8), bool)> = Vec::new();
            text.push(fragment("Aha! The", WHITE, false));
            text.push((what, RED, false));
            text.push((how, WHITE, false));
            text.push((clue.name.clone(), RED, false));
            let note = Note::new(ids, text, None);
            assert(note@.note =~= deduction_note(cxn_type, clue.name@, note.id).note);
            let ghost earlier = cxns@;
            cxns.push(Connection::new(from.id, to.id, cxn_type, note));
            assert(connections_view(cxns@) =~= connections_view(earlier).push(
                link(from@, to@, clue.name@, (first + before.len()) as u32),
            ));
            assert(connections_view(cxns@) =~= connections_view(old(cxns)@) + links_in_clue(
                from@,
                clue.name@,
                notes.take(k + 1),
                first,
            ));
        }
        k = k + 1;
    }
    assert(notes.take(k as int) == notes);
}

/// Appends the connections from one note of the body to the notes of every
/// clue.
fn link_clues(ids: &mut NoteIds, cxns: &mut Vec<Connection>, from: &Note, clues: &Vec<Clue>)
    requires
        links_in_clues(from@, clue_notes_view(clues@), old(ids).next_id() as int).len() <= old(
            ids,
        ).remaining(),
    ensures
        connections_view(final(cxns)@) == connections_view(old(cxns)@) + links_in_clues(
            from@,
            clue_notes_view(clues@),
            old(ids).next_id() as int,
        ),
        final(ids).next_id() == old(ids).next_id() + links_in_clues(
            from@,
            clue_notes_view(clues@),
            old(ids).next_id() as int,
        ).len(),
{
    let ghost first = ids.next_id() as int;
    let ghost offer = clue_notes_view(clues@);
    let mut j: usize = 0;
    assert(offer.take(0) =~= Seq::<(Seq<char>, Seq<NoteView>)>::empty());
    assert(connections_view(cxns@) =~= connections_view(old(cxns)@) + Seq::<
        ConnectionView,
    >::empty());
    while j < clues.len()
        invariant
            j <= clues.len(),
            offer == clue_notes_view(clues@),
            first == old(ids).next_id(),
            links_in_clues(from@, offer, first).len() <= old(ids).remaining(),
            connections_view(cxns@) == connections_view(old(cxns)@) + links_in_clues(
                from@,
                offer.take(j as int),
                first,
            ),
            ids.next_id() == first + links_in_clues(from@, offer.take(j as int), first).len(),
        decreases clues.len() - j,
    {
        proof {
            assert(offer.take(j + 1).drop_last() == offer.take(j as int));
            assert(offer.take(j + 1).last() == offer[j as int]);
            lemma_links_in_clues_grow(from@, offer, first, j + 1);
        }
        link_clue(ids, cxns, from, &clues[j]);
        assert(connections_view(cxns@) =~= connections_view(old(cxns)@) + links_in_clues(
            from@,
            offer.take(j + 1),
            first,
        ));
        j = j + 1;
    }
    assert(offer.take(j as int) == offer);
}

impl Connection {
    pub fn new(from: u32, to: u32, cxn_type: ConnectionType, note: Note) -> (made: Connection)
        ensures
            made.ids == (from, to),
            made.cxn_type == cxn_type,
            made.note == note,
    {
        Connection { ids: (from, to), cxn_type, note }
    }

    /// Whether the ids can still give every connection of the story its
    /// note.
    pub open spec fn ids_suffice(ids: &NoteIds, victim: &Victim, clues: &Vec<Clue>) -> bool {
        all_links(
            notes_of(victim.clue.markers@),
            clue_notes_view(clues@),
            ids.next_id() as int,
        ).len() <= ids.remaining()
    }

    /// How many connections the story has; `None` where they are more than
    /// ids can ever serve.
    pub fn count_connections(victim: &Victim, clues: &Vec<Clue>) -> (count: Option<u32>)
        ensures
            match count {
                Some(n) => n == link_count(
                    notes_of(victim.clue.markers@),
                    clue_notes_view(clues@),
                ),
                None => link_count(notes_of(victim.clue.markers@), clue_notes_view(clues@))
                    > u32::MAX,
            },
    {
        let ghost body = notes_of(victim.clue.markers@);
        let ghost offer = clue_notes_view(clues@);
        let mut count: u32 = 0;
        let mut i: usize = 0;
        assert(body.take(0) =~= Seq::<NoteView>::empty());
        while i < victim.clue.markers.len()
            invariant
                i <= victim.clue.markers.len(),
                body == notes_of(victim.clue.markers@),
                offer == clue_notes_view(clues@),
                count == sources(body.take(i as int), offer).len(),
            decreases victim.clue.markers.len() - i,
        {
            proof {
                assert(body.take(i + 1).drop_last() == body.take(i as int));
                assert(body.take(i + 1).last() == victim.clue.markers@[i as int].2@);
                lemma_sources_grow(body, offer, i + 1);
            }
            match count_in_clues(&victim.clue.markers[i].2, clues, count) {
                Some(n) => {
                    count = n;
                },
                None => {
                    return None;
                },
            }
            i = i + 1;
        }
        assert(body.take(i as int) == body);
        Some(count)
    }

    /// Whether the ids can still give every connection of the story its
    /// note, for callers that must test it.
    pub fn ids_suffice_for(ids: &NoteIds, victim: &Victim, clues: &Vec<Clue>) -> (enough: bool)
        ensures
            enough == Self::ids_suffice(ids, victim, clues),
    {
        proof {
            lemma_links_counted(
                notes_of(victim.clue.markers@),
                clue_notes_view(clues@),
                ids.next_id() as int,
            );
        }
        match Connection::count_connections(victim, clues) {
            Some(n) => n <= ids.left(),
            None => false,
        }
    }

    /// Builds the connections of a story: every pair of a tagged note on the
    /// victim's body and a note on a clue with the same tag, in the order of
    /// the body's notes, then the clues, then each clue's notes. Tags decide,
    /// not what the notes say. The note of each connection gets the next id in
    /// that order.
    pub fn gen_connections(
        ids: &mut NoteIds,
        victim: &Victim,
        suspects: &Vec<Suspect>,
        clues: &Vec<Clue>,
    ) -> (cxns: Vec<Connection>)
        requires
            Self::ids_suffice(old(ids), victim, clues),
        ensures
            connections_view(cxns@) == all_links(
                notes_of(victim.clue.markers@),
                clue_notes_view(clues@),
                old(ids).next_id() as int,
            ),
            described(
                connections_view(cxns@),
                sources(notes_of(victim.clue.markers@), clue_notes_view(clues@)),
                notes_of(victim.clue.markers@),
                clue_notes_view(clues@),
                old(ids).next_id() as int,
            ),
            final(ids).next_id() == old(ids).next_id() + cxns.len(),
    {
        proof {
            lemma_links_described(
                notes_of(victim.clue.markers@),
                clue_notes_view(clues@),
                ids.next_id() as int,
            );
        }
        let ghost first = ids.next_id() as int;
        let ghost body = notes_of(victim.clue.markers@);
        let ghost offer = clue_notes_view(clues@);
        let mut cxns: Vec<Connection> = Vec::new();
        let mut i: usize = 0;
        assert(body.take(0) =~= Seq::<NoteView>::empty());
        assert(connections_view(cxns@) =~= Seq::<ConnectionView>::empty());
        while i < victim.clue.markers.len()
            invariant
                i <= victim.clue.markers.len(),
                body == notes_of(victim.clue.markers@),
                offer == clue_notes_view(clues@),
                first == old(ids).next_id(),
                all_links(body, offer, first).len() <= old(ids).remaining(),
                connections_view(cxns@) == all_links(body.take(i as int), offer, first),
                ids.next_id() == first + cxns.len(),
            decreases victim.clue.markers.len() - i,
        {
            proof {
                assert(body.take(i + 1).drop_last() == body.take(i as int));
                assert(body.take(i + 1).last() == victim.clue.markers@[i as int].2@);
                lemma_all_links_grow(body, offer, first, i + 1);
            }
            link_clues(ids, &mut cxns, &victim.clue.markers[i].2, clues);
            assert(connections_view(cxns@) =~= all_links(body.take(i + 1), offer, first));
            i = i + 1;
        }
        assert(body.take(i as int) == body);
        cxns
    }
}

} // verus!
