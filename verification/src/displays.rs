//! The ASCII drawings that are shown when a clue is examined, one block of
//! lines of equal width per weapon and one for the victim's body.

use crate::pools::{same_text, weapons};
use vstd::prelude::*;
use vstd::string::*;

verus! {

/// The lines of a display as contracts see them.
pub open spec fn lines_view(lines: Seq<String>) -> Seq<Seq<char>> {
    Seq::new(lines.len(), |i: int| lines[i]@)
}

/// The width of a display in cells: the length of its first line, or 0 where
/// it has no line.
pub open spec fn block_width(lines: Seq<Seq<char>>) -> int {
    if lines.len() == 0 {
        0
    } else {
        lines[0].len() as int
    }
}

/// The height of a display in cells: the number of its lines.
pub open spec fn block_height(lines: Seq<Seq<char>>) -> int {
    lines.len() as int
}
/// The body of the victim, as it is drawn for examination.
pub open spec fn body_display() -> Seq<Seq<char>> {
    seq![
        "      ___      "@,
        "     /   \\     "@,
        "     |   |     "@,
        "     \\   /     "@,
        "    __| |__    "@,
        "   /       \\   "@,
        "  / /|   |\\ \\  "@,
        " / / |   | \\ \\ "@,
        "/_/  |   |  \\_\\"@,
        "     |   |     "@,
        "     / ^ \\     "@,
        "    / / \\ \\    "@,
        "   / /   \\ \\   "@,
        "  /_/     \\_\\  "@,
    ]
}

/// The knife.
pub open spec fn knife_display() -> Seq<Seq<char>> {
    seq![
        "___________________________________ ______________________  "@,
        "\\                                  | (_)     (_)    (_)   \\ "@,
        " `.                                |  __________________   }"@,
        "   `-..........................____|_(                  )_/ "@,
    ]
}

/// The gun.
pub open spec fn gun_display() -> Seq<Seq<char>> {
    seq![
        " _ ________,"@,
        " >`(==(----'"@,
        "(__/~~`     "@,
    ]
}

/// The bottle of poison.
pub open spec fn poison_display() -> Seq<Seq<char>> {
    seq![
        "     o=o     "@,
        "     | |     "@,
        "  ___| |___  "@,
        " /         \\ "@,
        "|    .-.    |"@,
        "|   (0.0)   |"@,
        "| '=.|m|.=' |"@,
        "| .='`\"``=. |"@,
        " \\_________/ "@,
    ]
}

/// The wrench.
pub open spec fn wrench_display() -> Seq<Seq<char>> {
    seq![
        "-------"@,
        "|     |"@,
        "|     |"@,
        "|     |"@,
        "|     |"@,
        "|     |"@,
        "-------"@,
    ]
}

/// What is shown for a name that has no drawing: one empty line.
pub open spec fn blank_display() -> Seq<Seq<char>> {
    seq![""@]
}

/// The drawing for a clue of the given name. A name without a drawing gets the
/// blank one.
pub open spec fn display_of(name: Seq<char>) -> Seq<Seq<char>> {
    if name == "knife"@ {
        knife_display()
    } else if name == "gun"@ {
        gun_display()
    } else if name == "poison"@ {
        poison_display()
    } else if name == "wrench"@ {
        wrench_display()
    } else {
        blank_display()
    }
}

pub fn body_lines() -> (lines: Vec<String>)
    ensures
        lines_view(lines@) == body_display(),
        block_width(lines_view(lines@)) == 15,
{
    proof {
        reveal_strlit("      ___      ");
    }
    let mut lines: Vec<String> = Vec::new();
    lines.push(String::from_str("      ___      "));
    lines.push(String::from_str("     /   \\     "));
    lines.push(String::from_str("     |   |     "));
    lines.push(String::from_str("     \\   /     "));
    lines.push(String::from_str("    __| |__    "));
    lines.push(String::from_str("   /       \\   "));
    lines.push(String::from_str("  / /|   |\\ \\  "));
    lines.push(String::from_str(" / / |   | \\ \\ "));
    lines.push(String::from_str("/_/  |   |  \\_\\"));
    lines.push(String::from_str("     |   |     "));
    lines.push(String::from_str("     / ^ \\     "));
    lines.push(String::from_str("    / / \\ \\    "));
    lines.push(String::from_str("   / /   \\ \\   "));
    lines.push(String::from_str("  /_/     \\_\\  "));
    assert(lines_view(lines@) =~= body_display());
    lines
}

pub fn knife_lines() -> (lines: Vec<String>)
    ensures
        lines_view(lines@) == knife_display(),
        block_width(lines_view(lines@)) == 60,
{
    proof {
        reveal_strlit("___________________________________ ______________________  ");
    }
    let mut lines: Vec<String> = Vec::new();
    lines.push(String::from_str("___________________________________ ______________________  "));
    lines.push(String::from_str("\\                                  | (_)     (_)    (_)   \\ "));
    lines.push(String::from_str(" `.                                |  __________________   }"));
    lines.push(String::from_str("   `-..........................____|_(                  )_/ "));
    assert(lines_view(lines@) =~= knife_display());
    lines
}

pub fn gun_lines() -> (lines: Vec<String>)
    ensures
        lines_view(lines@) == gun_display(),
        block_width(lines_view(lines@)) == 12,
{
    proof {
        reveal_strlit(" _ ________,");
    }
    let mut lines: Vec<String> = Vec::new();
    lines.push(String::from_str(" _ ________,"));
    lines.push(String::from_str(" >`(==(----'"));
    lines.push(String::from_str("(__/~~`     "));
    assert(lines_view(lines@) =~= gun_display());
    lines
}

pub fn poison_lines() -> (lines: Vec<String>)
    ensures
        lines_view(lines@) == poison_display(),
        block_width(lines_view(lines@)) == 13,
{
    proof {
        reveal_strlit("     o=o     ");
    }
    let mut lines: Vec<String> = Vec::new();
    lines.push(String::from_str("     o=o     "));
    lines.push(String::from_str("     | |     "));
    lines.push(String::from_str("  ___| |___  "));
    lines.push(String::from_str(" /         \\ "));
    lines.push(String::from_str("|    .-.    |"));
    lines.push(String::from_str("|   (0.0)   |"));
    lines.push(String::from_str("| '=.|m|.=' |"));
    lines.push(String::from_str("| .='`\"``=. |"));
    lines.push(String::from_str(" \\_________/ "));
    assert(lines_view(lines@) =~= poison_display());
    lines
}

pub fn wrench_lines() -> (lines: Vec<String>)
    ensures
        lines_view(lines@) == wrench_display(),
        block_width(lines_view(lines@)) == 7,
{
    proof {
        reveal_strlit("-------");
    }
    let mut lines: Vec<String> = Vec::new();
    lines.push(String::from_str("-------"));
    lines.push(String::from_str("|     |"));
    lines.push(String::from_str("|     |"));
    lines.push(String::from_str("|     |"));
    lines.push(String::from_str("|     |"));
    lines.push(String::from_str("|     |"));
    lines.push(String::from_str("-------"));
    assert(lines_view(lines@) =~= wrench_display());
    lines
}

pub fn blank_lines() -> (lines: Vec<String>)
    ensures
        lines_view(lines@) == blank_display(),
        block_width(lines_view(lines@)) == 0,
{
    proof {
        reveal_strlit("");
    }
    let mut lines: Vec<String> = Vec::new();
    lines.push(String::from_str(""));
    assert(lines_view(lines@) =~= blank_display());
    lines
}

/// The width and height of a display, in cells.
pub fn block_size(lines: &Vec<String>) -> (size: (i32, i32))
    requires
        block_width(lines_view(lines@)) <= i32::MAX,
        block_height(lines_view(lines@)) <= i32::MAX,
    ensures
        size.0 == block_width(lines_view(lines@)),
        size.1 == block_height(lines_view(lines@)),
{
    let w: usize = if lines.len() == 0 {
        0
    } else {
        lines[0].as_str().unicode_len()
    };
    (w as i32, lines.len() as i32)
}

/// Looks up the drawing for a clue by its name. A name that has none is no
/// error: it gets the blank drawing.
pub fn weapon_display(name: &str) -> (lines: Vec<String>)
    ensures
        lines_view(lines@) == display_of(name@),
        1 <= lines.len() <= 9,
        block_width(lines_view(lines@)) <= 60,
        weapons().contains(name@) ==> block_width(lines_view(lines@)) >= 7,
{
    if same_text(name, "knife") {
        knife_lines()
    } else if same_text(name, "gun") {
        gun_lines()
    } else if same_text(name, "poison") {
        poison_lines()
    } else if same_text(name, "wrench") {
        wrench_lines()
    } else {
        blank_lines()
    }
}

} // verus!
