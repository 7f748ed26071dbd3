//! One mystery: the victim, the suspects, the clues, and the connections that
//! the player can discover between their notes.

use crate::clue::{blood_note, clue_note_views, hair_note, Clue};
use crate::displays::{body_display, display_of, lines_view};
use crate::connection::{
    all_links, clue_notes_view, connections_view, link, links_in_clue, links_in_clues, Connection,
    ConnectionView,
};
use crate::note::{ConnectionType, NoteIds, NoteView};
use crate::palette::RED;
use crate::placement::{all_hidden, chebyshev, notes_of};
use crate::pools::{
    hair_colors, lemma_pools_hold_traces, no_trace, shoe_sizes, victim_names, weapons,
};
use crate::suspect::Suspect;
use crate::victim::{
    body_note_views, death_note, footprint_note, wound_of, Victim, AGE_LIMIT, MIN_AGE,
};
use rltk::RandomNumberGenerator;
use vstd::prelude::*;

verus! {

/// How many suspects a story has.
pub const SUSPECT_COUNT: usize = 3;

/// How many clues a story has.
pub const CLUE_COUNT: usize = 3;

/// How many note ids one story takes: two notes on the body, two on the
/// murder weapon, and one for the deduction that links them.
pub const NOTES_PER_STORY: u32 = 5;

#[derive(Debug)]
pub struct Story {
    pub victim: Victim,
    pub suspects: Vec<Suspect>,
    pub clues: Vec<Clue>,
    pub connections: Vec<Connection>,
}

impl Story {
    /// The suspect at `k` is the killer, and nobody else is.
    pub open spec fn killer_at(&self, k: int) -> bool {
        &&& 0 <= k < self.suspects.len()
        &&& forall|i: int|
            0 <= i < self.suspects.len() ==> ((#[trigger] self.suspects@[i]).is_killer <==> i == k)
    }

    /// Exactly one suspect is the killer.
    pub open spec fn one_killer(&self) -> bool {
        exists|k: int| #[trigger] self.killer_at(k)
    }

    /// The killer agrees with every trace that was found on the victim.
    pub open spec fn solvable(&self) -> bool {
        forall|i: int|
            0 <= i < self.suspects.len() && (#[trigger] self.suspects@[i]).is_killer
                ==> self.suspects@[i].matches_traces(&self.victim)
    }

    /// The clue at `k` is the murder weapon, named after the weapon that was
    /// used on the victim, and no other clue is.
    pub open spec fn murder_weapon_at(&self, k: int) -> bool {
        &&& 0 <= k < self.clues.len()
        &&& self.clues@[k].name@ == self.victim.weapon_used@
        &&& forall|i: int|
            0 <= i < self.clues.len() ==> ((#[trigger] self.clues@[i]).is_murder_weapon <==> i == k)
    }

    /// Exactly one clue is the murder weapon, and it is named after the
    /// weapon that was used on the victim.
    pub open spec fn one_murder_weapon(&self) -> bool {
        exists|k: int| #[trigger] self.murder_weapon_at(k)
    }

    /// The markers of the body and of every clue keep their distance and lie
    /// on their drawings.
    pub open spec fn markers_wf(&self) -> bool {
        &&& self.victim.clue.wf()
        &&& forall|i: int| 0 <= i < self.clues.len() ==> (#[trigger] self.clues@[i]).wf()
    }

    /// Whether the story is one that generation gives, with note ids from
    /// `first_id`: a victim from the pools with the body's notes on its
    /// markers; the suspects, the first of them in the role of the killer; the
    /// clues, the first of them in the role of the murder weapon; and the
    /// connections between the notes of the body and of the clues.
    pub open spec fn generated(&self, first_id: u32) -> bool {
        &&& first_id + NOTES_PER_STORY - 1 <= u32::MAX
        &&& victim_names().contains(self.victim.name@)
        &&& MIN_AGE <= self.victim.age < AGE_LIMIT
        &&& weapons().contains(self.victim.weapon_used@)
        &&& hair_colors().contains(self.victim.hair_found@)
        &&& shoe_sizes().contains(self.victim.shoe_print@)
        &&& self.victim.clue.name@ == "Victim: "@ + self.victim.name@
        &&& self.victim.clue.color == RED
        &&& !self.victim.clue.is_murder_weapon
        &&& lines_view(self.victim.clue.display@) == body_display()
        &&& self.victim.clue.wf()
        &&& all_hidden(self.victim.clue.markers@)
        &&& notes_of(self.victim.clue.markers@) == body_note_views(
            self.victim.weapon_used@,
            self.victim.shoe_print@,
            first_id,
        )
        &&& self.suspects.len() == SUSPECT_COUNT
        &&& forall|i: int|
            0 <= i < SUSPECT_COUNT ==> (#[trigger] self.suspects@[i]).drawn_for(&self.victim, i == 0)
        &&& self.clues.len() == CLUE_COUNT
        &&& self.clues@[0].name@ == self.victim.weapon_used@
        &&& forall|i: int| 0 < i < CLUE_COUNT ==> weapons().contains((#[trigger] self.clues@[i]).name@)
        &&& forall|i: int|
            0 <= i < CLUE_COUNT ==> (#[trigger] self.clues@[i]).made_for(
                &self.victim,
                i == 0,
                (first_id + 2) as u32,
            )
        &&& connections_view(self.connections@) == all_links(
            notes_of(self.victim.clue.markers@),
            clue_notes_view(self.clues@),
            first_id + 4,
        )
    }

    /// In every generated story the killer agrees with the traces on the
    /// victim: its hair is the hair that was found, and its shoes fit the
    /// prints.
    pub proof fn lemma_generated_is_solvable(&self, first_id: u32)
        requires
            self.generated(first_id),
        ensures
            self.solvable(),
            self.victim.hair_found@ != no_trace(),
            self.victim.shoe_print@ != no_trace(),
            self.suspects@[0].is_killer,
            self.suspects@[0].hair_color@ == self.victim.hair_found@,
            self.suspects@[0].shoe_size@ == self.victim.shoe_print@,
    {
        lemma_pools_hold_traces();
        assert forall|i: int|
            0 <= i < self.suspects.len() && (#[trigger] self.suspects@[i]).is_killer implies self.suspects@[i].matches_traces(
            &self.victim,
        ) by {
            assert(self.suspects@[i].drawn_for(&self.victim, i == 0));
        }
        assert(self.suspects@[0].drawn_for(&self.victim, true));
    }

    /// Every generated story has exactly one killer among its suspects and
    /// exactly one murder weapon among its clues, named after the weapon that
    /// was used on the victim; the body is no murder weapon.
    pub proof fn lemma_generated_has_one_of_each(&self, first_id: u32)
        requires
            self.generated(first_id),
        ensures
            self.one_killer(),
            self.killer_at(0),
            self.one_murder_weapon(),
            self.murder_weapon_at(0),
            !self.victim.clue.is_murder_weapon,
    {
        assert forall|i: int| 0 <= i < self.suspects.len() implies ((
        #[trigger] self.suspects@[i]).is_killer <==> i == 0) by {
            assert(self.suspects@[i].drawn_for(&self.victim, i == 0));
        }
        assert(self.killer_at(0));
        assert forall|i: int| 0 <= i < self.clues.len() implies ((
        #[trigger] self.clues@[i]).is_murder_weapon <==> i == 0) by {
            assert(self.clues@[i].made_for(&self.victim, i == 0, (first_id + 2) as u32));
        }
        assert(self.murder_weapon_at(0));
    }

    /// In every generated story any two markers of one display, the body's
    /// or a clue's, are more than two cells apart.
    pub proof fn lemma_generated_markers_apart(&self, first_id: u32)
        requires
            self.generated(first_id),
        ensures
            self.markers_wf(),
            forall|a: int, b: int|
                0 <= a < b < self.victim.clue.markers.len() ==> chebyshev(
                    (#[trigger] self.victim.clue.markers@[a]).0 as int,
                    self.victim.clue.markers@[a].1 as int,
                    (#[trigger] self.victim.clue.markers@[b]).0 as int,
                    self.victim.clue.markers@[b].1 as int,
                ) > 2,
            forall|i: int, a: int, b: int|
                0 <= i < self.clues.len() && 0 <= a < b < self.clues@[i].markers.len() ==> chebyshev(
                    (#[trigger] self.clues@[i].markers@[a]).0 as int,
                    self.clues@[i].markers@[a].1 as int,
                    (#[trigger] self.clues@[i].markers@[b]).0 as int,
                    self.clues@[i].markers@[b].1 as int,
                ) > 2,
    {
        assert forall|i: int| 0 <= i < self.clues.len() implies (#[trigger] self.clues@[i]).wf() by {
            assert(self.clues@[i].made_for(&self.victim, i == 0, (first_id + 2) as u32));
        }
    }

    /// What every generated story carries: the cause of death and the
    /// footprints on the body, the blood and the hair on the murder weapon,
    /// nothing on the other clues, and one connection, between the cause of
    /// death and the blood, whose note names the weapon. The murder weapon
    /// shows the drawing of that weapon.
    pub proof fn lemma_generated_has_one_connection(&self, first_id: u32)
        requires
            self.generated(first_id),
        ensures
            notes_of(self.victim.clue.markers@) == seq![
                death_note(self.victim.weapon_used@, first_id),
                footprint_note(self.victim.shoe_print@, (first_id + 1) as u32),
            ],
            notes_of(self.clues@[0].markers@) == seq![
                blood_note(self.victim.weapon_used@, (first_id + 2) as u32),
                hair_note(
                    self.victim.weapon_used@,
                    self.victim.hair_found@,
                    (first_id + 3) as u32,
                ),
            ],
            forall|i: int| 0 < i < CLUE_COUNT ==> (#[trigger] self.clues@[i]).markers.len() == 0,
            lines_view(self.clues@[0].display@) == display_of(self.victim.weapon_used@),
            connections_view(self.connections@) == seq![
                link(
                    death_note(self.victim.weapon_used@, first_id),
                    blood_note(self.victim.weapon_used@, (first_id + 2) as u32),
                    self.victim.weapon_used@,
                    (first_id + 4) as u32,
                ),
            ],
            connections_view(self.connections@)[0].ids == (first_id, (first_id + 2) as u32),
            connections_view(self.connections@)[0].cxn_type == ConnectionType::MurderWeapon,
            connections_view(self.connections@)[0].note.note[3].0 == self.victim.weapon_used@,
    {
        lemma_pools_hold_traces();
        lemma_one_link(&self.victim, self.clues@, first_id, first_id + 4);
        assert(wound_of(self.victim.weapon_used@).is_some());
        assert(notes_of(self.victim.clue.markers@) =~= seq![
            death_note(self.victim.weapon_used@, first_id),
            footprint_note(self.victim.shoe_print@, (first_id + 1) as u32),
        ]);
        assert(self.clues@[0].made_for(&self.victim, true, (first_id + 2) as u32));
        let on_weapon = clue_note_views(
            true,
            self.victim.weapon_used@,
            self.victim.hair_found@,
            (first_id + 2) as u32,
        );
        assert(on_weapon.take(2) =~= on_weapon);
        assert forall|i: int| 0 < i < CLUE_COUNT implies (#[trigger] self.clues@[i]).markers.len()
            == 0 by {
            assert(self.clues@[i].made_for(&self.victim, false, (first_id + 2) as u32));
        }
    }

    /// Generates a mystery: the victim, then the suspects, then the clues,
    /// then the connections.
    pub fn gen_rand(rng: &mut RandomNumberGenerator, ids: &mut NoteIds) -> (story: Story)
        requires
            old(ids).remaining() >= NOTES_PER_STORY,
        ensures
            story.generated(old(ids).next_id()),
            story.one_killer(),
            story.solvable(),
            story.one_murder_weapon(),
            story.markers_wf(),
            story.suspects@[0].is_killer,
            story.clues@[0].is_murder_weapon,
            notes_of(story.victim.clue.markers@) == seq![
                death_note(story.victim.weapon_used@, old(ids).next_id()),
                footprint_note(story.victim.shoe_print@, (old(ids).next_id() + 1) as u32),
            ],
            notes_of(story.clues@[0].markers@) == seq![
                blood_note(story.victim.weapon_used@, (old(ids).next_id() + 2) as u32),
                hair_note(
                    story.victim.weapon_used@,
                    story.victim.hair_found@,
                    (old(ids).next_id() + 3) as u32,
                ),
            ],
            forall|i: int| 0 < i < CLUE_COUNT ==> (#[trigger] story.clues@[i]).markers.len() == 0,
            connections_view(story.connections@) == seq![
                link(
                    death_note(story.victim.weapon_used@, old(ids).next_id()),
                    blood_note(story.victim.weapon_used@, (old(ids).next_id() + 2) as u32),
                    story.victim.weapon_used@,
                    (old(ids).next_id() + 4) as u32,
                ),
            ],
            final(ids).next_id() == old(ids).next_id() + NOTES_PER_STORY,
    {
        let ghost first = ids.next_id();
        let victim = Victim::gen_rand(rng, ids);
        let suspects = Suspect::gen_rand_suspects(rng, &victim, SUSPECT_COUNT);
        let clues = Clue::gen_rand_clues(rng, ids, &victim, CLUE_COUNT);
        proof {
            lemma_pools_hold_traces();
            lemma_one_link(&victim, clues@, first, ids.next_id() as int);
        }
        let connections = Connection::gen_connections(ids, &victim, &suspects, &clues);
        let story = Story { victim, suspects, clues, connections };
        proof {
            assert(story.generated(first));
            story.lemma_generated_is_solvable(first);
            story.lemma_generated_has_one_of_each(first);
            story.lemma_generated_markers_apart(first);
            story.lemma_generated_has_one_connection(first);
        }
        story
    }
}

/// The connections of a generated story: the victim's cause of death and the
/// blood on the murder weapon are linked, and nothing else is.
proof fn lemma_one_link(victim: &Victim, clues: Seq<Clue>, first: u32, next: int)
    requires
        first + 4 <= u32::MAX,
        weapons().contains(victim.weapon_used@),
        victim.shoe_print@ != no_trace(),
        victim.hair_found@ != no_trace(),
        notes_of(victim.clue.markers@) == body_note_views(
            victim.weapon_used@,
            victim.shoe_print@,
            first,
        ),
        clues.len() == 3,
        clues[0].name@ == victim.weapon_used@,
        forall|i: int|
            0 <= i < 3 ==> (#[trigger] clues[i]).made_for(victim, i == 0, (first + 2) as u32),
        forall|i: int| 0 < i < 3 ==> weapons().contains((#[trigger] clues[i]).name@),
    ensures
        all_links(notes_of(victim.clue.markers@), clue_notes_view(clues), next) == seq![
            link(
                death_note(victim.weapon_used@, first),
                blood_note(victim.weapon_used@, (first + 2) as u32),
                victim.weapon_used@,
                next as u32,
            ),
        ],
{
    let weapon = victim.weapon_used@;
    let body = notes_of(victim.clue.markers@);
    let offer = clue_notes_view(clues);
    let death = death_note(weapon, first);
    let prints = footprint_note(victim.shoe_print@, (first + 1) as u32);
    let blood = blood_note(weapon, (first + 2) as u32);
    let hair = hair_note(weapon, victim.hair_found@, (first + 3) as u32);
    assert(wound_of(weapon).is_some());
    assert(body =~= seq![death, prints]);
    let on_weapon = clue_note_views(true, weapon, victim.hair_found@, (first + 2) as u32);
    assert(on_weapon =~= seq![blood, hair]);
    assert(clues[0].made_for(victim, true, (first + 2) as u32));
    assert(offer[0].1 =~= on_weapon) by {
        assert(on_weapon.take(2) =~= on_weapon);
    }
    assert(clues[1].made_for(victim, false, (first + 2) as u32));
    assert(clues[2].made_for(victim, false, (first + 2) as u32));
    assert(offer[1].1 =~= Seq::<NoteView>::empty());
    assert(offer[2].1 =~= Seq::<NoteView>::empty());
    let the_link = link(death, blood, weapon, next as u32);

    // One note of the body against the notes of the murder weapon.
    assert forall|from: NoteView, at: int|
        links_in_clue(from, weapon, on_weapon, at) == if from.cxn_type == blood.cxn_type {
            seq![link(from, blood, weapon, at as u32)]
        } else if from.cxn_type == hair.cxn_type {
            seq![link(from, hair, weapon, at as u32)]
        } else {
            Seq::<ConnectionView>::empty()
        } by {
        let one = on_weapon.drop_last();
        assert(one =~= seq![blood]);
        assert(one.drop_last() =~= Seq::<NoteView>::empty());
        assert(links_in_clue(from, weapon, one.drop_last(), at) =~= Seq::<
            ConnectionView,
        >::empty());
        assert(links_in_clue(from, weapon, one, at) =~= if from.cxn_type == blood.cxn_type {
            seq![link(from, blood, weapon, at as u32)]
        } else {
            Seq::<ConnectionView>::empty()
        });
        assert(on_weapon.last() == hair);
        assert(links_in_clue(from, weapon, on_weapon, at) =~= if from.cxn_type
            == blood.cxn_type {
            seq![link(from, blood, weapon, at as u32)]
        } else if from.cxn_type == hair.cxn_type {
            seq![link(from, hair, weapon, at as u32)]
        } else {
            Seq::<ConnectionView>::empty()
        });
    }
    // One note of the body against every clue: only the murder weapon counts.
    assert forall|from: NoteView, at: int|
        links_in_clues(from, offer, at) == links_in_clue(from, weapon, on_weapon, at) by {
        let two = offer.drop_last();
        let one = two.drop_last();
        assert(one.drop_last() =~= Seq::<(Seq<char>, Seq<NoteView>)>::empty());
        assert(links_in_clues(from, one.drop_last(), at) =~= Seq::<ConnectionView>::empty());
        assert(one.last() == offer[0]);
        assert(links_in_clues(from, one, at) =~= links_in_clue(from, weapon, on_weapon, at));
        assert(two.last() == offer[1]);
        assert(forall|name: Seq<char>, a: int|
            links_in_clue(from, name, Seq::<NoteView>::empty(), a) =~= Seq::<
                ConnectionView,
            >::empty());
        assert(links_in_clues(from, two, at) =~= links_in_clue(from, weapon, on_weapon, at));
        assert(offer.last() == offer[2]);
        assert(links_in_clues(from, offer, at) =~= links_in_clue(from, weapon, on_weapon, at));
    }
    let one = body.drop_last();
    assert(one =~= seq![death]);
    assert(one.drop_last() =~= Seq::<NoteView>::empty());
    assert(all_links(one.drop_last(), offer, next) =~= Seq::<ConnectionView>::empty());
    assert(one.last() == death);
    assert(all_links(one, offer, next) =~= seq![the_link]);
    assert(body.last() == prints);
    assert(links_in_clues(prints, offer, next + 1) =~= Seq::<ConnectionView>::empty());
    assert(all_links(body, offer, next) =~= seq![the_link]);
}

} // verus!
