//! The start screen and the walking of the browser version of the game, which
//! gets its keys as key codes.

use crate::pools::same_text;
use vstd::prelude::*;
use vstd::string::*;

verus! {

/// The key code of the left arrow.
pub const KEY_LEFT: u32 = 37;

/// The key code of the up arrow.
pub const KEY_UP: u32 = 38;

/// The key code of the right arrow.
pub const KEY_RIGHT: u32 = 39;

/// The key code of the down arrow.
pub const KEY_DOWN: u32 = 40;

/// The key code of the enter key.
pub const KEY_ENTER: u32 = 13;

/// The start screen: which of its two entries is marked, 1 for playing and 2
/// for leaving, and what was chosen.
#[derive(Debug)]
pub struct StartMenu {
    pub transition: String,
    pub selected: i32,
}

/// The entry that is marked after a key: up moves to the entry before, and
/// from the first to the second; down moves to the entry after, and from the
/// second to the first.
pub open spec fn marked_after(selected: int, key_code: u32) -> int {
    if key_code == KEY_UP {
        if selected - 1 < 1 {
            2
        } else {
            selected - 1
        }
    } else if key_code == KEY_DOWN {
        if selected + 1 > 2 {
            1
        } else {
            selected + 1
        }
    } else {
        selected
    }
}

/// What is chosen after a key: enter chooses the marked entry, where it is
/// one of the two.
pub open spec fn chosen_after(transition: Seq<char>, selected: int, key_code: u32) -> Seq<char> {
    if key_code == KEY_ENTER && selected == 1 {
        "play"@
    } else if key_code == KEY_ENTER && selected == 2 {
        "exit"@
    } else {
        transition
    }
}

/// The event that a choice raises.
pub open spec fn event_of(transition: Seq<char>) -> Option<Seq<char>> {
    if transition == "play"@ {
        Some("transition-main"@)
    } else if transition == "exit"@ {
        Some("transition-exit"@)
    } else {
        None
    }
}

/// The step that an arrow key code asks for; no step for any other code.
pub open spec fn step_of_code(key_code: u32) -> (int, int) {
    if key_code == KEY_LEFT {
        (-1, 0)
    } else if key_code == KEY_UP {
        (0, -1)
    } else if key_code == KEY_RIGHT {
        (1, 0)
    } else if key_code == KEY_DOWN {
        (0, 1)
    } else {
        (0, 0)
    }
}

impl StartMenu {
    /// The start screen with playing marked and nothing chosen.
    pub fn new() -> (menu: StartMenu)
        ensures
            menu.selected == 1,
            menu.transition@ == "none"@,
    {
        StartMenu { transition: String::from_str("none"), selected: 1 }
    }

    pub fn handle_events(&mut self, key_code: u32)
        requires
            key_code == KEY_UP ==> old(self).selected > i32::MIN,
            key_code == KEY_DOWN ==> old(self).selected < i32::MAX,
        ensures
            final(self).selected == marked_after(old(self).selected as int, key_code),
            final(self).transition@ == chosen_after(
                old(self).transition@,
                old(self).selected as int,
                key_code,
            ),
    {
        if key_code == KEY_UP {
            self.selected -= 1;
            if self.selected < 1 {
                self.selected = 2;
            }
        } else if key_code == KEY_DOWN {
            self.selected += 1;
            if self.selected > 2 {
                self.selected = 1;
            }
        } else if key_code == KEY_ENTER {
            if self.selected == 1 {
                self.transition = String::from_str("play");
            } else if self.selected == 2 {
                self.transition = String::from_str("exit");
            }
        }
    }

    /// The event to raise, once something was chosen.
    pub fn transition(&self) -> (event: Option<String>)
        ensures
            match event {
                Some(name) => event_of(self.transition@) == Some(name@),
                None => event_of(self.transition@).is_none(),
            },
    {
        if same_text(self.transition.as_str(), "play") {
            Some(String::from_str("transition-main"))
        } else if same_text(self.transition.as_str(), "exit") {
            Some(String::from_str("transition-exit"))
        } else {
            None
        }
    }
}

/// Where the player stands after a key: one cell further in the direction of
/// an arrow key, else where it stood.
pub fn walk(x: i32, y: i32, key_code: u32) -> (at: (i32, i32))
    requires
        i32::MIN < x < i32::MAX,
        i32::MIN < y < i32::MAX,
    ensures
        at.0 == x + step_of_code(key_code).0,
        at.1 == y + step_of_code(key_code).1,
{
    if key_code == KEY_LEFT {
        (x - 1, y)
    } else if key_code == KEY_UP {
        (x, y - 1)
    } else if key_code == KEY_RIGHT {
        (x + 1, y)
    } else if key_code == KEY_DOWN {
        (x, y + 1)
    } else {
        (x, y)
    }
}

} // verus!
