//! The actions that are open to the player at the moment, each under the key
//! that triggers it.

use crate::keys::{code_of, key_code, lemma_codes_differ};
use std::collections::BTreeMap;
use vstd::prelude::*;
use vstd::string::*;

verus! {

/// The open actions, filed under the number of their key, so that they come
/// out in the order of the keys.
#[derive(Debug, PartialEq)]
pub struct Options {
    pub options: BTreeMap<u32, String>,
}

impl View for Options {
    type V = Map<char, Seq<char>>;

    /// The label of each open action, by its key.
    open spec fn view(&self) -> Map<char, Seq<char>> {
        Map::new(
            |key: char| self.options@.contains_key(key_code(key)),
            |key: char| self.options@[key_code(key)]@,
        )
    }
}

impl Clone for Options {
    fn clone(&self) -> (copy: Options)
        ensures
            copy@ == self@,
    {
        Options { options: self.options.clone() }
    }
}

impl Options {
    /// Every number that an action is filed under is the number of a key.
    pub open spec fn wf(&self) -> bool {
        forall|code: u32|
            self.options@.contains_key(code) ==> exists|key: char| #[trigger] key_code(key) == code
    }

    /// No action is open.
    pub fn new() -> (empty: Options)
        ensures
            empty@ == Map::<char, Seq<char>>::empty(),
            empty.wf(),
    {
        let options = Options { options: BTreeMap::new() };
        assert(options@ =~= Map::<char, Seq<char>>::empty());
        options
    }

    /// The actions that are open when a game starts: pausing, the inventory,
    /// and the log.
    pub fn starting() -> (options: Options)
        ensures
            options@ == Map::<char, Seq<char>>::empty().insert('P', "Pause"@).insert(
                'I',
                "Inventory"@,
            ).insert('L', "View Log"@),
            options.wf(),
    {
        let mut options = Options::new();
        options.add_option('P', "Pause");
        options.add_option('I', "Inventory");
        options.add_option('L', "View Log");
        options
    }

    /// Opens an action under a key. An action that was open under that key
    /// gives way to it.
    pub fn add_option(&mut self, key: char, value: &str)
        ensures
            final(self)@ == old(self)@.insert(key, value@),
            old(self).wf() ==> final(self).wf(),
    {
        broadcast use vstd::laws_cmp::group_laws_cmp;

        self.options.insert(code_of(key), String::from_str(value));
        assert forall|other: char| other != key implies key_code(other) != key_code(key) by {
            lemma_codes_differ(other, key);
        }
        assert(self@ =~= old(self)@.insert(key, value@));
    }

    /// Closes the action under a key, if one is open there.
    pub fn remove_option(&mut self, key: char)
        ensures
            final(self)@ == old(self)@.remove(key),
            old(self).wf() ==> final(self).wf(),
    {
        broadcast use vstd::laws_cmp::group_laws_cmp;

        let code = code_of(key);
        self.options.remove(&code);
        assert forall|other: char| other != key implies key_code(other) != key_code(key) by {
            lemma_codes_differ(other, key);
        }
        assert(self@ =~= old(self)@.remove(key));
    }

    /// Whether an action is open under the key.
    pub fn has_option(&self, key: char) -> (open: bool)
        ensures
            open == self@.contains_key(key),
    {
        broadcast use vstd::laws_cmp::group_laws_cmp;

        let code = code_of(key);
        self.options.contains_key(&code)
    }
}

} // verus!
