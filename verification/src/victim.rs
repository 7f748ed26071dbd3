//! The victim: who died, how, and what the killer left at the scene. The body
//! can be examined like any clue.

use crate::clue::Clue;
use crate::displays::{block_size, body_display, body_lines, lines_view};
use crate::note::{fragment, notes_view, ConnectionType, Note, NoteIds, NoteView};
use crate::palette::{RED, WHITE};
use crate::placement::{all_hidden, notes_of, place_markers};
use crate::pools::{
    hair_color, hair_colors, is_no_trace, lemma_pools_hold_traces, no_trace, same_text, shoe_size, shoe_sizes, victim_name,
    victim_names, weapon, weapons,
};
use crate::random::{range_i32, range_usize};
use rltk::RandomNumberGenerator;
use vstd::prelude::*;
use vstd::string::*;

verus! {

/// The youngest age that is drawn for a person.
pub const MIN_AGE: i32 = 22;

/// The age below which every drawn age lies.
pub const AGE_LIMIT: i32 = 65;

#[derive(Debug)]
pub struct Victim {
    pub name: String,
    pub age: i32,
    pub weapon_used: String,
    pub hair_found: String,
    pub shoe_print: String,
    pub clue: Clue,
}

/// How the wound of a weapon is worded: the words before it, and the wound.
/// A weapon outside the pool has no wording.
pub open spec fn wound_of(weapon: Seq<char>) -> Option<(Seq<char>, Seq<char>)> {
    if weapon == "knife"@ {
        Some(("died from a"@, "stab wound"@))
    } else if weapon == "gun"@ {
        Some(("died from a"@, "gunshot wound"@))
    } else if weapon == "wrench"@ {
        Some(("died from"@, "blunt force trauma"@))
    } else if weapon == "poison"@ {
        Some(("died from"@, "poisoning"@))
    } else {
        None
    }
}

/// The note on the cause of death, for a weapon that has a wording.
pub open spec fn death_note(weapon: Seq<char>, id: u32) -> NoteView {
    NoteView {
        id,
        note: seq![
            ("The"@, WHITE, false),
            ("victim"@, RED, false),
            (wound_of(weapon).unwrap().0, WHITE, false),
            (wound_of(weapon).unwrap().1, RED, true),
        ],
        cxn_type: Some(ConnectionType::MurderWeapon),
    }
}

/// The note on the footprints beside the body.
pub open spec fn footprint_note(shoe_print: Seq<char>, id: u32) -> NoteView {
    NoteView {
        id,
        note: seq![
            ("The killer left"@, WHITE, false),
            (shoe_print + " footprints"@, RED, true),
            ("next to the"@, WHITE, false),
            ("victim"@, RED, false),
        ],
        cxn_type: Some(ConnectionType::EvidenceShoeSize),
    }
}

/// The notes that the body gives up: the cause of death where the weapon has
/// a wording, then the footprints where a print was left. Ids are taken in
/// that order from `first_id`.
pub open spec fn body_note_views(weapon: Seq<char>, shoe_print: Seq<char>, first_id: u32) -> Seq<
    NoteView,
> {
    let death = if wound_of(weapon).is_some() {
        seq![death_note(weapon, first_id)]
    } else {
        Seq::<NoteView>::empty()
    };
    let prints = if shoe_print != no_trace() {
        seq![footprint_note(shoe_print, (first_id + death.len()) as u32)]
    } else {
        Seq::<NoteView>::empty()
    };
    death + prints
}

/// The words before the wound and the wound itself, for a weapon of the pool.
fn wound_words(weapon: &str) -> (words: Option<(String, String)>)
    ensures
        match words {
            Some((before, wound)) => wound_of(weapon@) == Some((before@, wound@)),
            None => wound_of(weapon@).is_none(),
        },
{
    if same_text(weapon, "knife") {
        Some((String::from_str("died from a"), String::from_str("stab wound")))
    } else if same_text(weapon, "gun") {
        Some((String::from_str("died from a"), String::from_str("gunshot wound")))
    } else if same_text(weapon, "wrench") {
        Some((String::from_str("died from"), String::from_str("blunt force trauma")))
    } else if same_text(weapon, "poison") {
        Some((String::from_str("died from"), String::from_str("poisoning")))
    } else {
        None
    }
}

/// Writes the notes that the body gives up.
pub fn body_notes(ids: &mut NoteIds, weapon: &str, shoe_print: &str) -> (notes: Vec<Note>)
    requires
        old(ids).remaining() >= 2,
    ensures
        notes_view(notes@) == body_note_views(weapon@, shoe_print@, old(ids).next_id()),
        final(ids).next_id() == old(ids).next_id() + notes.len(),
{
    let mut notes: Vec<Note> = Vec::new();
    match wound_words(weapon) {
        Some((before, wound)) => {
            let mut text: Vec<(String, (u8, u8, u8), bool)> = Vec::new();
            text.push(fragment("The", WHITE, false));
            text.push(fragment("victim", RED, false));
            text.push((before, WHITE, false));
            text.push((wound, RED, true));
            let note = Note::new(ids, text, Some(ConnectionType::MurderWeapon));
            assert(note@.note =~= death_note(weapon@, note.id).note);
            notes.push(note);
        },
        None => {},
    }
    if !is_no_trace(shoe_print) {
        let mut prints = String::from_str(shoe_print);
        prints.append(" footprints");
        let mut text: Vec<(String, (u8, u8, u8), bool)> = Vec::new();
        text.push(fragment("The killer left", WHITE, false));
        text.push((prints, RED, true));
        text.push(fragment("next to the", WHITE, false));
        text.push(fragment("victim", RED, false));
        let note = Note::new(ids, text, Some(ConnectionType::EvidenceShoeSize));
        assert(note@.note =~= footprint_note(shoe_print@, note.id).note);
        notes.push(note);
    }
    assert(notes_view(notes@) =~= body_note_views(weapon@, shoe_print@, old(ids).next_id()));
    notes
}

impl Victim {
    /// Builds the victim from traits that were already decided: writes the
    /// notes of the body and hides one marker per note on its drawing.
    pub fn assemble(
        rng: &mut RandomNumberGenerator,
        ids: &mut NoteIds,
        name: String,
        age: i32,
        weapon_used: String,
        hair_found: String,
        shoe_print: String,
    ) -> (victim: Victim)
        requires
            old(ids).remaining() >= 2,
        ensures
            victim.name@ == name@,
            victim.age == age,
            victim.weapon_used@ == weapon_used@,
            victim.hair_found@ == hair_found@,
            victim.shoe_print@ == shoe_print@,
            victim.clue.name@ == "Victim: "@ + name@,
            victim.clue.color == RED,
            !victim.clue.is_murder_weapon,
            lines_view(victim.clue.display@) == body_display(),
            victim.clue.wf(),
            all_hidden(victim.clue.markers@),
            notes_of(victim.clue.markers@) == body_note_views(
                weapon_used@,
                shoe_print@,
                old(ids).next_id(),
            ),
            final(ids).next_id() == old(ids).next_id() + victim.clue.markers.len(),
    {
        let display = body_lines();
        let notes = body_notes(ids, weapon_used.as_str(), shoe_print.as_str());
        let (w, h) = block_size(&display);
        let markers = place_markers(rng, w, h, &notes);
        assert(notes_of(markers@) =~= notes_view(notes@));
        let mut title = String::from_str("Victim: ");
        title.append(name.as_str());
        let clue = Clue { name: title, color: RED, is_murder_weapon: false, display, markers };
        Victim { name, age, weapon_used, hair_found, shoe_print, clue }
    }

    /// Draws a victim: a name, an age from `MIN_AGE` up to but not including
    /// `AGE_LIMIT`, the weapon, and the two traces, each from its pool; then
    /// builds the body with its notes and markers.
    pub fn gen_rand(rng: &mut RandomNumberGenerator, ids: &mut NoteIds) -> (victim: Victim)
        requires
            old(ids).remaining() >= 2,
        ensures
            victim_names().contains(victim.name@),
            MIN_AGE <= victim.age < AGE_LIMIT,
            weapons().contains(victim.weapon_used@),
            hair_colors().contains(victim.hair_found@),
            shoe_sizes().contains(victim.shoe_print@),
            victim.clue.name@ == "Victim: "@ + victim.name@,
            victim.clue.color == RED,
            !victim.clue.is_murder_weapon,
            lines_view(victim.clue.display@) == body_display(),
            victim.clue.wf(),
            all_hidden(victim.clue.markers@),
            notes_of(victim.clue.markers@) == body_note_views(
                victim.weapon_used@,
                victim.shoe_print@,
                old(ids).next_id(),
            ),
            final(ids).next_id() == old(ids).next_id() + victim.clue.markers.len(),
            victim.clue.markers.len() == 2,
    {
        let name_at = range_usize(rng, 0, 3);
        let name = victim_name(name_at);
        let age = range_i32(rng, MIN_AGE, AGE_LIMIT);
        let weapon_at = range_usize(rng, 0, 4);
        let weapon_used = weapon(weapon_at);
        let hair_at = range_usize(rng, 0, 3);
        let hair_found = hair_color(hair_at);
        let shoe_at = range_usize(rng, 0, 3);
        let shoe_print = shoe_size(shoe_at);
        proof {
            assert(victim_names()[name_at as int] == name@);
            assert(weapons()[weapon_at as int] == weapon_used@);
            assert(hair_colors()[hair_at as int] == hair_found@);
            assert(shoe_sizes()[shoe_at as int] == shoe_print@);
            lemma_pools_hold_traces();
            assert(wound_of(weapon_used@).is_some());
        }
        let victim = Victim::assemble(rng, ids, name, age, weapon_used, hair_found, shoe_print);
        assert(notes_of(victim.clue.markers@).len() == 2);
        victim
    }
}

} // verus!
