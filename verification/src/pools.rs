//! The fixed pools that generation draws from.

use vstd::prelude::*;
use vstd::string::*;

verus! {

/// The sentinel for a trace that was not left at the scene.
pub open spec fn no_trace() -> Seq<char> {
    "none"@
}

pub open spec fn victim_names() -> Seq<Seq<char>> {
    seq!["Hercule"@, "Sherlock"@, "Johnny"@]
}

pub open spec fn suspect_names() -> Seq<Seq<char>> {
    seq!["Adam"@, "Barry"@, "Charles"@]
}

pub open spec fn weapons() -> Seq<Seq<char>> {
    seq!["knife"@, "gun"@, "wrench"@, "poison"@]
}

pub open spec fn hair_colors() -> Seq<Seq<char>> {
    seq!["black"@, "blonde"@, "red"@]
}

pub open spec fn shoe_sizes() -> Seq<Seq<char>> {
    seq!["small"@, "average"@, "large"@]
}

/// Every hair colour and every shoe size of the pools is a trace: none of
/// them is the sentinel.
pub proof fn lemma_pools_hold_traces()
    ensures
        !hair_colors().contains(no_trace()),
        !shoe_sizes().contains(no_trace()),
{
    reveal_strlit("none");
    reveal_strlit("black");
    reveal_strlit("blonde");
    reveal_strlit("red");
    reveal_strlit("small");
    reveal_strlit("average");
    reveal_strlit("large");
    assert("none"@.len() == 4);
    assert("none"@[0] == 'n');
    assert forall|i: int| 0 <= i < hair_colors().len() implies hair_colors()[i] != no_trace() by {
        assert(hair_colors()[i].len() != 4);
    }
    assert forall|i: int| 0 <= i < shoe_sizes().len() implies shoe_sizes()[i] != no_trace() by {
        assert(shoe_sizes()[i].len() != 4);
    }
}

/// Whether two texts are the same, character for character.
pub fn same_text(a: &str, b: &str) -> (same: bool)
    ensures
        same == (a@ == b@),
{
    String::from_str(a) == String::from_str(b)
}

/// Whether a trace is the sentinel for "nothing was found".
pub fn is_no_trace(trace: &str) -> (none: bool)
    ensures
        none == (trace@ == no_trace()),
{
    same_text(trace, "none")
}

pub fn victim_name(i: usize) -> (name: String)
    requires
        i < victim_names().len(),
    ensures
        name@ == victim_names()[i as int],
{
    if i == 0 {
        String::from_str("Hercule")
    } else if i == 1 {
        String::from_str("Sherlock")
    } else {
        String::from_str("Johnny")
    }
}

pub fn suspect_name(i: usize) -> (name: String)
    requires
        i < suspect_names().len(),
    ensures
        name@ == suspect_names()[i as int],
{
    if i == 0 {
        String::from_str("Adam")
    } else if i == 1 {
        String::from_str("Barry")
    } else {
        String::from_str("Charles")
    }
}

pub fn weapon(i: usize) -> (name: String)
    requires
        i < weapons().len(),
    ensures
        name@ == weapons()[i as int],
{
    if i == 0 {
        String::from_str("knife")
    } else if i == 1 {
        String::from_str("gun")
    } else if i == 2 {
        String::from_str("wrench")
    } else {
        String::from_str("poison")
    }
}

pub fn hair_color(i: usize) -> (name: String)
    requires
        i < hair_colors().len(),
    ensures
        name@ == hair_colors()[i as int],
{
    if i == 0 {
        String::from_str("black")
    } else if i == 1 {
        String::from_str("blonde")
    } else {
        String::from_str("red")
    }
}

pub fn shoe_size(i: usize) -> (name: String)
    requires
        i < shoe_sizes().len(),
    ensures
        name@ == shoe_sizes()[i as int],
{
    if i == 0 {
        String::from_str("small")
    } else if i == 1 {
        String::from_str("average")
    } else {
        String::from_str("large")
    }
}

} // verus!
