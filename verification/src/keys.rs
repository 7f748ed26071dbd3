//! The keys that the game listens to, and the number under which the key of
//! a menu entry is filed.

use vstd::prelude::*;

verus! {

/// A key press, as far as the game tells keys apart.
#[derive(Debug, PartialEq, Eq, Clone, Copy, Structural)]
pub enum Key {
    Up,
    Down,
    Left,
    Right,
    Return,
    Escape,
    Tab,
    Key1,
    Key2,
    P,
    L,
    T,
    X,
    Other,
}

/// The number of a character: its Unicode scalar value.
pub open spec fn key_code(key: char) -> u32 {
    key as u32
}

/// The number of a character: its Unicode scalar value.
pub fn code_of(key: char) -> (code: u32)
    ensures
        code == key_code(key),
{
    key as u32
}

/// Different characters have different numbers.
pub proof fn lemma_codes_differ(a: char, b: char)
    ensures
        key_code(a) == key_code(b) ==> a == b,
{
}

} // verus!
