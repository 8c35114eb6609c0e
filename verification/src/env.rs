//! The environment of one crate: a flat store of text values under text
//! keys.

use crate::fx::{by_text, text_map_get, text_map_insert, text_map_new};
use rustc_hash::FxHashMap;
use vstd::prelude::*;

verus! {

/// The environment variables that a crate is compiled with.
#[derive(Debug, Clone, PartialEq, Eq)]
pub struct Env {
    entries: FxHashMap<String, String>,
}

impl View for Env {
    type V = Map<Seq<char>, Seq<char>>;

    /// The value of each variable that is set.
    closed spec fn view(&self) -> Map<Seq<char>, Seq<char>> {
        by_text(self.entries@).map_values(|value: String| value@)
    }
}

impl Default for Env {
    /// The environment in which nothing is set.
    fn default() -> (env: Env)
        ensures
            env@ == Map::<Seq<char>, Seq<char>>::empty(),
    {
        let env = Env { entries: text_map_new() };
        assert(env@ =~= Map::<Seq<char>, Seq<char>>::empty());
        env
    }
}

impl Env {
    /// Sets a variable. A value that it had before is overwritten; no other
    /// variable changes.
    pub fn set(&mut self, env: &str, value: String)
        ensures
            final(self)@ == old(self)@.insert(env@, value@),
    {
        text_map_insert(&mut self.entries, env.to_owned(), value);
        assert(final(self)@ =~= old(self)@.insert(env@, value@));
    }

    /// A copy of the variable's value, if the variable is set.
    pub fn get(&self, env: &str) -> (value: Option<String>)
        ensures
            value.is_some() == self@.contains_key(env@),
            value matches Some(text) ==> text@ == self@[env@],
    {
        match text_map_get(&self.entries, env) {
            Some(text) => Some(text.clone()),
            None => None,
        }
    }
}

} // verus!
