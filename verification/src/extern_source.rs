//! External sources: locations outside a crate's own root whose files the
//! crate still reaches, each registered under the path where it starts.

use crate::fx::{by_text, text_map_entries, text_map_insert, text_map_new};
use crate::ids::ExternSourceId;
use crate::paths::{portable_relative, relative_from_path, strip_prefix, stripped_prefix, text_of};
use rustc_hash::FxHashMap;
use vstd::prelude::*;
use vstd::string::StrSliceExecFns;

verus! {

/// The external sources of one crate, by the path each is registered under.
#[derive(Debug, Clone, PartialEq, Eq)]
pub struct ExternSource {
    extern_paths: FxHashMap<String, ExternSourceId>,
}

/// A registered root, the source it stands for, and where a given path lies
/// below it, if it does.
pub struct Candidate {
    pub root: String,
    pub id: ExternSourceId,
    pub relative: Option<String>,
}

/// Where `path` lies below `root`, as a portable relative path: nothing
/// unless `root` is an ancestor of `path`.
pub open spec fn resolved_under(path: Seq<char>, root: Seq<char>) -> Option<Seq<char>> {
    match stripped_prefix(path, root) {
        Some(rest) => portable_relative(rest),
        None => None,
    }
}

/// The choice among candidates: nothing where no candidate holds a relative
/// path; else the index of one that does, whose root is as long as that of
/// any other that does, and the first of these.
pub open spec fn is_longest_match(candidates: Seq<Candidate>, chosen: Option<int>) -> bool {
    match chosen {
        Some(best) => {
            &&& 0 <= best < candidates.len()
            &&& candidates[best].relative.is_some()
            &&& forall|k: int|
                0 <= k < candidates.len() && (#[trigger] candidates[k]).relative.is_some()
                    ==> candidates[k].root@.len() <= candidates[best].root@.len()
            &&& forall|k: int|
                0 <= k < best && (#[trigger] candidates[k]).relative.is_some()
                    ==> candidates[k].root@.len() < candidates[best].root@.len()
        },
        None => forall|k: int|
            0 <= k < candidates.len() ==> (#[trigger] candidates[k]).relative.is_none(),
    }
}

/// Picks the candidate under whose root the path lies, preferring the
/// longest root and, among equally long ones, the first.
pub fn longest_match(candidates: &Vec<Candidate>) -> (chosen: Option<usize>)
    ensures
        is_longest_match(
            candidates@,
            match chosen {
                Some(best) => Some(best as int),
                None => None,
            },
        ),
{
    let mut chosen: Option<usize> = None;
    let mut longest: usize = 0;
    let mut i: usize = 0;
    while i < candidates.len()
        invariant
            0 <= i <= candidates.len(),
            chosen matches Some(best) ==> best < i && longest == candidates@[best as int].root@.len(),
            is_longest_match(
                candidates@.take(i as int),
                match chosen {
                    Some(best) => Some(best as int),
                    None => None,
                },
            ),
        decreases candidates.len() - i,
    {
        let ghost before = candidates@.take(i as int);
        let ghost after = candidates@.take(i + 1);
        assert(forall|k: int| 0 <= k < i ==> before[k] == after[k]);
        if candidates[i].relative.is_some() {
            let len = candidates[i].root.as_str().unicode_len();
            if chosen.is_none() || len > longest {
                chosen = Some(i);
                longest = len;
            }
        }
        i += 1;
    }
    assert(candidates@.take(i as int) =~= candidates@);
    chosen
}

impl View for ExternSource {
    type V = Map<Seq<char>, ExternSourceId>;

    /// The source registered under each root.
    closed spec fn view(&self) -> Map<Seq<char>, ExternSourceId> {
        by_text(self.extern_paths@)
    }
}

impl Default for ExternSource {
    /// The table with nothing registered.
    fn default() -> (table: ExternSource)
        ensures
            table@ == Map::<Seq<char>, ExternSourceId>::empty(),
    {
        let table = ExternSource { extern_paths: text_map_new() };
        assert(table@ =~= Map::<Seq<char>, ExternSourceId>::empty());
        table
    }
}

impl ExternSource {
    /// `root` is registered for `id`, `path` lies below it at `relative`,
    /// and `path` lies below no registered root that is longer.
    pub open spec fn resolves(
        &self,
        path: Seq<char>,
        root: Seq<char>,
        id: ExternSourceId,
        relative: Seq<char>,
    ) -> bool {
        &&& self@.contains_key(root)
        &&& self@[root] == id
        &&& resolved_under(path, root) == Some(relative)
        &&& forall|other: Seq<char>|
            self@.contains_key(other) && (#[trigger] resolved_under(path, other)).is_some()
                ==> other.len() <= root.len()
    }

    /// Finds the external source that a path belongs to, and the path
    /// relative to the root of that source. Where the path lies below
    /// several registered roots, one with the longest text is taken.
    pub fn extern_path(&self, path: &str) -> (found: Option<(ExternSourceId, String)>)
        ensures
            match found {
                Some(pair) => exists|root: Seq<char>| self.resolves(path@, root, pair.0, pair.1@),
                None => forall|root: Seq<char>|
                    self@.contains_key(root) ==> (#[trigger] resolved_under(path@, root)).is_none(),
            },
    {
        let entries = text_map_entries(&self.extern_paths);
        let mut candidates: Vec<Candidate> = Vec::new();
        let mut i: usize = 0;
        while i < entries.len()
            invariant
                0 <= i <= entries.len(),
                candidates@.len() == i,
                forall|k: int|
                    0 <= k < i ==> (#[trigger] candidates@[k]).root@ == entries@[k].0@
                        && candidates@[k].id == entries@[k].1 && text_of(candidates@[k].relative)
                        == resolved_under(path@, entries@[k].0@),
            decreases entries.len() - i,
        {
            let root = entries[i].0.clone();
            let relative = match strip_prefix(path, root.as_str()) {
                Some(rest) => relative_from_path(rest.as_str()),
                None => None,
            };
            candidates.push(Candidate { root, id: entries[i].1, relative });
            i += 1;
        }
        match longest_match(&candidates) {
            Some(best) => {
                let relative = candidates[best].relative.as_ref().unwrap().clone();
                let id = candidates[best].id;
                let ghost root = candidates@[best as int].root@;
                proof {
                    assert(self@.contains_key(entries@[best as int].0@));
                    assert forall|other: Seq<char>|
                        self@.contains_key(other) && (#[trigger] resolved_under(
                            path@,
                            other,
                        )).is_some() implies other.len() <= root.len() by {
                        let k = choose|k: int|
                            0 <= k < entries@.len() && (#[trigger] entries@[k]).0@ == other;
                        assert(candidates@[k].relative.is_some());
                    }
                    assert(resolved_under(path@, root) == Some(relative@));
                    assert(self@[root] == id);
                    assert(self.resolves(path@, root, id, relative@));
                }
                let found = Some((id, relative));
                assert(self.resolves(path@, root, found.unwrap().0, found.unwrap().1@));
                found
            },
            None => {
                proof {
                    assert forall|root: Seq<char>| self@.contains_key(root) implies (
                    #[trigger] resolved_under(path@, root)).is_none() by {
                        let k = choose|k: int|
                            0 <= k < entries@.len() && (#[trigger] entries@[k]).0@ == root;
                        assert(candidates@[k].relative.is_none());
                    }
                }
                None
            },
        }
    }

    /// Registers a source under a root. A source that was registered under
    /// the same root before is replaced.
    pub fn set_extern_path(&mut self, root_path: &str, root: ExternSourceId)
        ensures
            final(self)@ == old(self)@.insert(root_path@, root),
    {
        text_map_insert(&mut self.extern_paths, root_path.to_owned(), root);
    }
}

} // verus!
