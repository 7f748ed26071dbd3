//! Clues: things the player can examine. A clue shows a drawing, and hides
//! markers on it that give up a note when the player finds them.

use crate::displays::{
    block_height, block_size, block_width, display_of, lines_view, weapon_display,
};
use crate::note::{fragment, notes_view, ConnectionType, Note, NoteIds, NoteView};
use crate::palette::{LIMEGREEN, PURPLE, WHITE};
use crate::placement::{
    all_hidden, all_on_display, chebyshev, distance, has_room, markers_view, notes_of,
    place_markers, spaced,
};
use crate::pools::{is_no_trace, no_trace, weapon, weapons};
use crate::random::range_usize;
use crate::victim::Victim;
use rltk::RandomNumberGenerator;
use vstd::prelude::*;
use vstd::string::*;

verus! {

/// How close the pointer must be to a marker, in cells, to activate it.
pub const ACTIVATION_RADIUS: i64 = 1;

#[derive(Debug)]
pub struct Clue {
    pub name: String,
    pub color: (u8, u8, u8),
    pub is_murder_weapon: bool,
    pub display: Vec<String>,
    pub markers: Vec<(i32, i32, Note, bool)>,
}

/// The colour in which a clue is drawn: one for the murder weapon, one for
/// the others.
pub open spec fn clue_color(is_murder_weapon: bool) -> (u8, u8, u8) {
    if is_murder_weapon {
        PURPLE
    } else {
        LIMEGREEN
    }
}

/// The note on the blood that is found on the murder weapon.
pub open spec fn blood_note(name: Seq<char>, id: u32) -> NoteView {
    NoteView {
        id,
        note: seq![
            ("While examining"@, WHITE, false),
            (name + ","@, PURPLE, false),
            ("I found"@, WHITE, false),
            ("blood"@, PURPLE, true),
        ],
        cxn_type: Some(ConnectionType::MurderWeapon),
    }
}

/// The note on the hair that is found on the murder weapon.
pub open spec fn hair_note(name: Seq<char>, hair: Seq<char>, id: u32) -> NoteView {
    NoteView {
        id,
        note: seq![
            ("While examining"@, WHITE, false),
            (name + ","@, PURPLE, false),
            ("I found"@, WHITE, false),
            (hair + " hair"@, PURPLE, true),
        ],
        cxn_type: Some(ConnectionType::EvidenceHair),
    }
}

/// The notes that a clue gives up. Only the murder weapon has any: the blood,
/// then the hair where the victim's hair trace was found. Ids are taken in
/// that order from `first_id`.
pub open spec fn clue_note_views(
    is_murder_weapon: bool,
    name: Seq<char>,
    hair: Seq<char>,
    first_id: u32,
) -> Seq<NoteView> {
    if !is_murder_weapon {
        Seq::<NoteView>::empty()
    } else if hair != no_trace() {
        seq![blood_note(name, first_id), hair_note(name, hair, (first_id + 1) as u32)]
    } else {
        seq![blood_note(name, first_id)]
    }
}

/// Writes the notes that a clue gives up.
pub fn clue_notes(ids: &mut NoteIds, is_murder_weapon: bool, name: &str, hair: &str) -> (notes: Vec<
    Note,
>)
    requires
        is_murder_weapon ==> old(ids).remaining() >= 2,
    ensures
        notes_view(notes@) == clue_note_views(is_murder_weapon, name@, hair@, old(ids).next_id()),
        final(ids).next_id() == old(ids).next_id() + notes.len(),
{
    let mut notes: Vec<Note> = Vec::new();
    if is_murder_weapon {
        let mut text: Vec<(String, (u8, u8, u8), bool)> = Vec::new();
        let mut examined = String::from_str(name);
        examined.append(",");
        text.push(fragment("While examining", WHITE, false));
        text.push((examined, PURPLE, false));
        text.push(fragment("I found", WHITE, false));
        text.push(fragment("blood", PURPLE, true));
        let note = Note::new(ids, text, Some(ConnectionType::MurderWeapon));
        assert(note@.note =~= blood_note(name@, note.id).note);
        notes.push(note);
        if !is_no_trace(hair) {
            let mut text: Vec<(String, (u8, u8, u8), bool)> = Vec::new();
            let mut examined = String::from_str(name);
            examined.append(",");
            let mut found = String::from_str(hair);
            found.append(" hair");
            text.push(fragment("While examining", WHITE, false));
            text.push((examined, PURPLE, false));
            text.push(fragment("I found", WHITE, false));
            text.push((found, PURPLE, true));
            let note = Note::new(ids, text, Some(ConnectionType::EvidenceHair));
            assert(note@.note =~= hair_note(name@, hair@, note.id).note);
            notes.push(note);
        }
    }
    assert(notes_view(notes@) =~= clue_note_views(
        is_murder_weapon,
        name@,
        hair@,
        old(ids).next_id(),
    ));
    notes
}

impl Clone for Clue {
    fn clone(&self) -> (copy: Clue)
        ensures
            copy.name@ == self.name@,
            copy.color == self.color,
            copy.is_murder_weapon == self.is_murder_weapon,
            lines_view(copy.display@) == lines_view(self.display@),
            markers_view(copy.markers@) == markers_view(self.markers@),
    {
        let mut display: Vec<String> = Vec::new();
        let mut i: usize = 0;
        while i < self.display.len()
            invariant
                i <= self.display.len(),
                display.len() == i,
                forall|j: int| 0 <= j < i ==> (#[trigger] display@[j])@ == self.display@[j]@,
            decreases self.display.len() - i,
        {
            display.push(self.display[i].clone());
            i = i + 1;
        }
        let mut markers: Vec<(i32, i32, Note, bool)> = Vec::new();
        let mut k: usize = 0;
        while k < self.markers.len()
            invariant
                k <= self.markers.len(),
                markers.len() == k,
                forall|j: int|
                    0 <= j < k ==> {
                        &&& (#[trigger] markers@[j]).0 == self.markers@[j].0
                        &&& markers@[j].1 == self.markers@[j].1
                        &&& markers@[j].2@ == self.markers@[j].2@
                        &&& markers@[j].3 == self.markers@[j].3
                    },
            decreases self.markers.len() - k,
        {
            let note = self.markers[k].2.clone();
            markers.push((self.markers[k].0, self.markers[k].1, note, self.markers[k].3));
            k = k + 1;
        }
        assert(lines_view(display@) =~= lines_view(self.display@));
        assert(markers_view(markers@) =~= markers_view(self.markers@));
        Clue {
            name: self.name.clone(),
            color: (self.color.0, self.color.1, self.color.2),
            is_murder_weapon: self.is_murder_weapon,
            display,
            markers,
        }
    }
}

impl Clue {
    /// The markers keep their distance from each other and lie on the drawing.
    pub open spec fn wf(&self) -> bool {
        &&& spaced(self.markers@)
        &&& all_on_display(
            self.markers@,
            block_width(lines_view(self.display@)),
            block_height(lines_view(self.display@)),
        )
    }

    /// Whether this clue is one that generation can give for the victim in
    /// the given role, with note ids from `first_id`: the name, colour and
    /// drawing of the role, and one hidden marker for each of its notes, as far
    /// as the drawing has room.
    pub open spec fn made_for(&self, victim: &Victim, is_murder_weapon: bool, first_id: u32) -> bool {
        let notes = clue_note_views(is_murder_weapon, self.name@, victim.hair_found@, first_id);
        &&& self.is_murder_weapon == is_murder_weapon
        &&& self.color == clue_color(is_murder_weapon)
        &&& lines_view(self.display@) == display_of(self.name@)
        &&& self.wf()
        &&& all_hidden(self.markers@)
        &&& self.markers.len() <= notes.len()
        &&& notes_of(self.markers@) == notes.take(self.markers.len() as int)
        &&& self.markers.len() == notes.len() || !has_room(
            self.markers@,
            block_width(lines_view(self.display@)),
            block_height(lines_view(self.display@)),
        )
        &&& weapons().contains(self.name@) ==> self.markers.len() == notes.len()
    }

    /// Builds a clue from a name that was already drawn. The murder weapon
    /// takes the name of the weapon that was used on the victim in place of the
    /// drawn one.
    pub fn assemble(
        rng: &mut RandomNumberGenerator,
        ids: &mut NoteIds,
        victim: &Victim,
        is_murder_weapon: bool,
        drawn_name: String,
    ) -> (clue: Clue)
        requires
            is_murder_weapon ==> old(ids).remaining() >= 2,
        ensures
            clue.name@ == if is_murder_weapon {
                victim.weapon_used@
            } else {
                drawn_name@
            },
            clue.made_for(victim, is_murder_weapon, old(ids).next_id()),
            final(ids).next_id() == old(ids).next_id() + clue_note_views(
                is_murder_weapon,
                clue.name@,
                victim.hair_found@,
                old(ids).next_id(),
            ).len(),
    {
        let name = if is_murder_weapon {
            victim.weapon_used.clone()
        } else {
            drawn_name
        };
        let display = weapon_display(name.as_str());
        let color = if is_murder_weapon {
            PURPLE
        } else {
            LIMEGREEN
        };
        let notes = clue_notes(ids, is_murder_weapon, name.as_str(), victim.hair_found.as_str());
        let (w, h) = block_size(&display);
        let markers = place_markers(rng, w, h, &notes);
        assert(notes_of(markers@) =~= notes_view(notes@).take(markers.len() as int));
        Clue { name, color, is_murder_weapon, display, markers }
    }

    /// Draws a clue for the given role.
    pub fn gen_rand(
        rng: &mut RandomNumberGenerator,
        ids: &mut NoteIds,
        victim: &Victim,
        is_murder_weapon: bool,
    ) -> (clue: Clue)
        requires
            is_murder_weapon ==> old(ids).remaining() >= 2,
        ensures
            is_murder_weapon ==> clue.name@ == victim.weapon_used@,
            !is_murder_weapon ==> weapons().contains(clue.name@),
            clue.made_for(victim, is_murder_weapon, old(ids).next_id()),
            final(ids).next_id() == old(ids).next_id() + clue_note_views(
                is_murder_weapon,
                clue.name@,
                victim.hair_found@,
                old(ids).next_id(),
            ).len(),
    {
        let name_at = range_usize(rng, 0, 4);
        let drawn_name = weapon(name_at);
        proof {
            assert(weapons()[name_at as int] == drawn_name@);
        }
        Clue::assemble(rng, ids, victim, is_murder_weapon, drawn_name)
    }

    /// Draws `count` clues. The first is the murder weapon, named after the
    /// weapon that was used on the victim, and no other clue is; only the
    /// murder weapon carries notes.
    pub fn gen_rand_clues(
        rng: &mut RandomNumberGenerator,
        ids: &mut NoteIds,
        victim: &Victim,
        count: usize,
    ) -> (clues: Vec<Clue>)
        requires
            old(ids).remaining() >= 2,
        ensures
            clues.len() == count,
            count > 0 ==> clues@[0].name@ == victim.weapon_used@,
            forall|i: int| 0 < i < count ==> weapons().contains((#[trigger] clues@[i]).name@),
            forall|i: int|
                0 <= i < count ==> (#[trigger] clues@[i]).made_for(
                    victim,
                    i == 0,
                    old(ids).next_id(),
                ),
            final(ids).next_id() == old(ids).next_id() + clue_note_views(
                count > 0,
                victim.weapon_used@,
                victim.hair_found@,
                old(ids).next_id(),
            ).len(),
    {
        let mut clues: Vec<Clue> = Vec::new();
        let mut i: usize = 0;
        while i < count
            invariant
                i <= count,
                clues.len() == i,
                i == 0 ==> ids.remaining() >= 2,
                i > 0 ==> clues@[0].name@ == victim.weapon_used@,
                forall|j: int| 0 < j < i ==> weapons().contains((#[trigger] clues@[j]).name@),
                forall|j: int|
                    0 <= j < i ==> (#[trigger] clues@[j]).made_for(
                        victim,
                        j == 0,
                        old(ids).next_id(),
                    ),
                ids.next_id() == old(ids).next_id() + clue_note_views(
                    i > 0,
                    victim.weapon_used@,
                    victim.hair_found@,
                    old(ids).next_id(),
                ).len(),
            decreases count - i,
        {
            let clue = Clue::gen_rand(rng, ids, victim, i == 0);
            clues.push(clue);
            i = i + 1;
        }
        clues
    }

    /// The markers after the one at `idx` has been revealed.
    pub open spec fn revealed_at(markers: Seq<(i32, i32, Note, bool)>, idx: int) -> Seq<
        (i32, i32, Note, bool),
    > {
        markers.update(idx, (markers[idx].0, markers[idx].1, markers[idx].2, true))
    }

    /// Whether the marker at `k` is within the activation radius of the cell.
    pub open spec fn activates(&self, k: int, x: int, y: int) -> bool {
        chebyshev(x, y, self.markers@[k].0 as int, self.markers@[k].1 as int) <= ACTIVATION_RADIUS
    }

    /// Flags the marker at `idx` as revealed. Its cell and note, the other
    /// markers and the rest of the clue stay as they are, so revealing a
    /// marker that is already revealed changes nothing.
    pub fn reveal_marker(&mut self, idx: usize)
        requires
            idx < old(self).markers.len(),
        ensures
            final(self).markers@ == Self::revealed_at(old(self).markers@, idx as int),
            final(self).name == old(self).name,
            final(self).color == old(self).color,
            final(self).is_murder_weapon == old(self).is_murder_weapon,
            final(self).display == old(self).display,
            old(self).wf() ==> final(self).wf(),
    {
        let mut marker = self.markers.remove(idx);
        marker.3 = true;
        self.markers.insert(idx, marker);
        proof {
            assert(self.markers@ =~= Self::revealed_at(old(self).markers@, idx as int));
            Self::lemma_reveal_keeps_cells(old(self).markers@, idx as int);
        }
    }

    /// The marker that the pointer at the given cell would activate: the first
    /// one within the activation radius, if there is any.
    pub fn marker_at(&self, x: i32, y: i32) -> (found: Option<usize>)
        ensures
            match found {
                Some(k) => {
                    &&& k < self.markers.len()
                    &&& self.activates(k as int, x as int, y as int)
                    &&& forall|j: int| 0 <= j < k ==> !self.activates(j, x as int, y as int)
                },
                None => forall|j: int|
                    0 <= j < self.markers.len() ==> !self.activates(j, x as int, y as int),
            },
    {
        let mut k: usize = 0;
        while k < self.markers.len()
            invariant
                k <= self.markers.len(),
                forall|j: int| 0 <= j < k ==> !self.activates(j, x as int, y as int),
            decreases self.markers.len() - k,
        {
            if distance(x, y, self.markers[k].0, self.markers[k].1) <= ACTIVATION_RADIUS {
                return Some(k);
            }
            k = k + 1;
        }
        None
    }

    /// On a well-formed clue any two markers are more than two cells apart.
    pub proof fn lemma_markers_apart(&self, a: int, b: int)
        requires
            self.wf(),
            0 <= a < self.markers.len(),
            0 <= b < self.markers.len(),
            a != b,
        ensures
            chebyshev(
                self.markers@[a].0 as int,
                self.markers@[a].1 as int,
                self.markers@[b].0 as int,
                self.markers@[b].1 as int,
            ) > 2,
    {
        if a < b {
            assert(chebyshev(
                self.markers@[a].0 as int,
                self.markers@[a].1 as int,
                self.markers@[b].0 as int,
                self.markers@[b].1 as int,
            ) > 2);
        } else {
            assert(chebyshev(
                self.markers@[b].0 as int,
                self.markers@[b].1 as int,
                self.markers@[a].0 as int,
                self.markers@[a].1 as int,
            ) > 2);
        }
    }

    /// Revealing a marker moves no marker.
    pub proof fn lemma_reveal_keeps_cells(markers: Seq<(i32, i32, Note, bool)>, idx: int)
        requires
            0 <= idx < markers.len(),
        ensures
            spaced(markers) ==> spaced(Self::revealed_at(markers, idx)),
            forall|w: int, h: int|
                all_on_display(markers, w, h) ==> #[trigger] all_on_display(
                    Self::revealed_at(markers, idx),
                    w,
                    h,
                ),
    {
        let after = Self::revealed_at(markers, idx);
        assert forall|k: int| 0 <= k < after.len() implies (#[trigger] after[k]).0 == markers[k].0
            && after[k].1 == markers[k].1 by {}
        if spaced(markers) {
            assert forall|i: int, j: int| 0 <= i < j < after.len() implies chebyshev(
                (#[trigger] after[i]).0 as int,
                after[i].1 as int,
                (#[trigger] after[j]).0 as int,
                after[j].1 as int,
            ) > 2 by {
                assert(after[i].0 == markers[i].0 && after[i].1 == markers[i].1);
                assert(after[j].0 == markers[j].0 && after[j].1 == markers[j].1);
            }
        }
        assert forall|w: int, h: int| all_on_display(markers, w, h) implies #[trigger] all_on_display(
            after,
            w,
            h,
        ) by {
            assert forall|k: int| 0 <= k < after.len() implies crate::placement::on_display(
                w,
                h,
                (#[trigger] after[k]).0 as int,
                after[k].1 as int,
            ) by {
                assert(after[k].0 == markers[k].0 && after[k].1 == markers[k].1);
            }
        }
    }

    /// Revealing the same marker a second time changes nothing, and leaves it
    /// revealed.
    pub proof fn lemma_reveal_idempotent(markers: Seq<(i32, i32, Note, bool)>, idx: int)
        requires
            0 <= idx < markers.len(),
        ensures
            Self::revealed_at(markers, idx)[idx].3,
            Self::revealed_at(markers, idx).len() == markers.len(),
            Self::revealed_at(Self::revealed_at(markers, idx), idx) == Self::revealed_at(
                markers,
                idx,
            ),
    {
        assert(Self::revealed_at(Self::revealed_at(markers, idx), idx) =~= Self::revealed_at(
            markers,
            idx,
        ));
    }

    /// On a well-formed clue the pointer activates at most one marker.
    pub proof fn lemma_one_marker_in_reach(&self, i: int, j: int, x: int, y: int)
        requires
            self.wf(),
            0 <= i < self.markers.len(),
            0 <= j < self.markers.len(),
            self.activates(i, x, y),
            self.activates(j, x, y),
        ensures
            i == j,
    {
        if i != j {
            self.lemma_markers_apart(i, j);
        }
    }
}

} // verus!
