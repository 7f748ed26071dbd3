//! The suspects. One of them is the killer, and the killer's hair and shoes
//! agree with whatever traces were found on the victim.

use crate::palette::{RED, YELLOW};
use crate::pools::{
    hair_color, hair_colors, is_no_trace, no_trace, shoe_size, shoe_sizes, suspect_name,
    suspect_names,
};
use crate::random::{range_i32, range_usize};
use crate::victim::{Victim, AGE_LIMIT, MIN_AGE};
use rltk::RandomNumberGenerator;
use vstd::prelude::*;
use vstd::string::*;

verus! {

#[derive(Debug)]
pub struct Suspect {
    pub name: String,
    pub age: i32,
    pub color: (u8, u8, u8),
    pub is_killer: bool,
    pub hair_color: String,
    pub shoe_size: String,
}

impl Clone for Suspect {
    fn clone(&self) -> (copy: Suspect)
        ensures
            copy.name@ == self.name@,
            copy.age == self.age,
            copy.color == self.color,
            copy.is_killer == self.is_killer,
            copy.hair_color@ == self.hair_color@,
            copy.shoe_size@ == self.shoe_size@,
    {
        Suspect {
            name: self.name.clone(),
            age: self.age,
            color: (self.color.0, self.color.1, self.color.2),
            is_killer: self.is_killer,
            hair_color: self.hair_color.clone(),
            shoe_size: self.shoe_size.clone(),
        }
    }
}

impl Default for Suspect {
    fn default() -> (blank: Suspect)
        ensures
            blank.name@.len() == 0,
            blank.age == 0,
            blank.color == (0u8, 0u8, 0u8),
            !blank.is_killer,
            blank.hair_color@.len() == 0,
            blank.shoe_size@.len() == 0,
    {
        Suspect {
            name: String::new(),
            age: 0,
            color: (0, 0, 0),
            is_killer: false,
            hair_color: String::new(),
            shoe_size: String::new(),
        }
    }
}

/// Whether the killer is drawn in a colour of its own. That is a tell for the
/// player: turn it off to draw every suspect alike.
pub const COLOR_TELLS_KILLER: bool = true;

/// The colour in which a suspect is drawn: one for the killer, where the
/// colour is to tell, and one for the others.
pub open spec fn role_color(is_killer: bool) -> (u8, u8, u8) {
    if COLOR_TELLS_KILLER && is_killer {
        RED
    } else {
        YELLOW
    }
}

/// What a trait of the killer becomes once the scene is taken into account:
/// the trace that was found, or the drawn value where none was.
pub open spec fn killer_trait(drawn: Seq<char>, trace: Seq<char>) -> Seq<char> {
    if trace != no_trace() {
        trace
    } else {
        drawn
    }
}

/// The trace where one was found, else the drawn value.
fn trait_from_scene(drawn: String, trace: &String) -> (settled: String)
    ensures
        settled@ == killer_trait(drawn@, trace@),
{
    if !is_no_trace(trace.as_str()) {
        trace.clone()
    } else {
        drawn
    }
}

impl Suspect {
    /// Whether this suspect agrees with every trace that was found on the
    /// victim.
    pub open spec fn matches_traces(&self, victim: &Victim) -> bool {
        &&& victim.hair_found@ != no_trace() ==> self.hair_color@ == victim.hair_found@
        &&& victim.shoe_print@ != no_trace() ==> self.shoe_size@ == victim.shoe_print@
    }

    /// Whether this suspect is one that generation can give for the victim in
    /// the given role: a name and an age as they are drawn, the colour of the
    /// role, and traits from the pools, but for the killer, whose traits follow
    /// the traces on the victim.
    pub open spec fn drawn_for(&self, victim: &Victim, is_killer: bool) -> bool {
        &&& suspect_names().contains(self.name@)
        &&& MIN_AGE <= self.age < AGE_LIMIT
        &&& self.color == role_color(is_killer)
        &&& self.is_killer == is_killer
        &&& exists|hair: Seq<char>, shoes: Seq<char>|
            {
                &&& hair_colors().contains(hair)
                &&& shoe_sizes().contains(shoes)
                &&& #[trigger] self.has_traits(victim, hair, shoes)
            }
    }

    /// Whether the suspect's traits are what the drawn ones become in its
    /// role.
    pub open spec fn has_traits(&self, victim: &Victim, hair: Seq<char>, shoes: Seq<char>) -> bool {
        &&& self.hair_color@ == if self.is_killer {
            killer_trait(hair, victim.hair_found@)
        } else {
            hair
        }
        &&& self.shoe_size@ == if self.is_killer {
            killer_trait(shoes, victim.shoe_print@)
        } else {
            shoes
        }
    }

    /// Builds a suspect from traits that were already drawn. For the killer
    /// the drawn hair colour and shoe size give way to the traces on the
    /// victim, wherever a trace was found.
    pub fn assemble(
        victim: &Victim,
        is_killer: bool,
        name: String,
        age: i32,
        hair_color: String,
        shoe_size: String,
    ) -> (suspect: Suspect)
        ensures
            suspect.name@ == name@,
            suspect.age == age,
            suspect.color == role_color(is_killer),
            suspect.is_killer == is_killer,
            suspect.has_traits(victim, hair_color@, shoe_size@),
            is_killer ==> suspect.matches_traces(victim),
    {
        let (hair_color, shoe_size) = if is_killer {
            (
                trait_from_scene(hair_color, &victim.hair_found),
                trait_from_scene(shoe_size, &victim.shoe_print),
            )
        } else {
            (hair_color, shoe_size)
        };
        Suspect {
            name,
            age,
            color: if COLOR_TELLS_KILLER && is_killer {
                RED
            } else {
                YELLOW
            },
            is_killer,
            hair_color,
            shoe_size,
        }
    }

    /// Draws a suspect for the given role.
    pub fn gen_rand(rng: &mut RandomNumberGenerator, victim: &Victim, is_killer: bool) -> (suspect:
        Suspect)
        ensures
            suspect.drawn_for(victim, is_killer),
            is_killer ==> suspect.matches_traces(victim),
    {
        let name_at = range_usize(rng, 0, 3);
        let name = suspect_name(name_at);
        let age = range_i32(rng, MIN_AGE, AGE_LIMIT);
        let hair_at = range_usize(rng, 0, 3);
        let hair = hair_color(hair_at);
        let shoe_at = range_usize(rng, 0, 3);
        let shoes = shoe_size(shoe_at);
        proof {
            assert(suspect_names()[name_at as int] == name@);
            assert(hair_colors()[hair_at as int] == hair@);
            assert(shoe_sizes()[shoe_at as int] == shoes@);
        }
        let ghost drawn_hair = hair@;
        let ghost drawn_shoes = shoes@;
        let suspect = Suspect::assemble(victim, is_killer, name, age, hair, shoes);
        assert(suspect.has_traits(victim, drawn_hair, drawn_shoes));
        suspect
    }

    /// Draws `count` suspects. The first is the killer, and nobody else is.
    pub fn gen_rand_suspects(rng: &mut RandomNumberGenerator, victim: &Victim, count: usize) -> (suspects:
        Vec<Suspect>)
        ensures
            suspects.len() == count,
            forall|i: int|
                0 <= i < count ==> (#[trigger] suspects@[i]).drawn_for(victim, i == 0),
            forall|i: int|
                0 <= i < count && (#[trigger] suspects@[i]).is_killer ==> suspects@[i].matches_traces(
                    victim,
                ),
    {
        let mut suspects: Vec<Suspect> = Vec::new();
        let mut i: usize = 0;
        while i < count
            invariant
                i <= count,
                suspects.len() == i,
                forall|j: int| 0 <= j < i ==> (#[trigger] suspects@[j]).drawn_for(victim, j == 0),
                forall|j: int|
                    0 <= j < i && (#[trigger] suspects@[j]).is_killer
                        ==> suspects@[j].matches_traces(victim),
            decreases count - i,
        {
            let suspect = Suspect::gen_rand(rng, victim, i == 0);
            suspects.push(suspect);
            i = i + 1;
        }
        suspects
    }
}

/// What a suspect answers when asked for its name.
pub open spec fn name_answer(name: Seq<char>) -> Seq<char> {
    "My name is "@ + name
}

/// What a suspect answers when asked whether it is innocent.
pub open spec fn plea(innocent: bool) -> Seq<char> {
    if innocent {
        "I am innocent!"@
    } else {
        "I am guilty!"@
    }
}

/// The lines that the player can say to a suspect, each with the suspect's
/// answer: the question for its name, then the question for its innocence.
pub fn generate_conversation_options(speaker: &Suspect, innocent: bool) -> (lines: Vec<
    (String, String),
>)
    ensures
        lines.len() == 2,
        lines@[0].0@ == "Hello. What is your name?"@,
        lines@[0].1@ == name_answer(speaker.name@),
        lines@[1].0@ == "Are you innocent?"@,
        lines@[1].1@ == plea(innocent),
{
    let mut options: Vec<(String, String)> = Vec::new();
    let mut answer = String::from_str("My name is ");
    answer.append(speaker.name.as_str());
    options.push((String::from_str("Hello. What is your name?"), answer));
    let plea = if innocent {
        String::from_str("I am innocent!")
    } else {
        String::from_str("I am guilty!")
    };
    options.push((String::from_str("Are you innocent?"), plea));
    options
}

} // verus!
