//! Source roots: the files of one directory-like unit, each under its
//! relative path.

use crate::fx::{
    by_text, text_map_entries, text_map_get, text_map_insert, text_map_new, text_map_remove,
};
use crate::ids::FileId;
use rustc_hash::FxHashMap;
use vstd::prelude::*;

verus! {

/// A table from relative paths to files, with a hint on whether the files
/// belong to a library, which is taken never to change.
#[derive(Debug, Clone, PartialEq, Eq)]
pub struct SourceRoot {
    /// Whether this is the sysroot or a registry library.
    pub is_library: bool,
    files: FxHashMap<String, FileId>,
}

impl SourceRoot {
    /// The file that each path of this root leads to.
    pub closed spec fn files(&self) -> Map<Seq<char>, FileId> {
        by_text(self.files@)
    }

    /// Whether the root is marked as a library.
    pub closed spec fn library(&self) -> bool {
        self.is_library
    }

    /// An empty root for files of the workspace.
    pub fn new_local() -> (root: SourceRoot)
        ensures
            !root.library(),
            root.files() == Map::<Seq<char>, FileId>::empty(),
    {
        let root = SourceRoot { is_library: false, files: text_map_new() };
        assert(root.files() =~= Map::<Seq<char>, FileId>::empty());
        root
    }

    /// An empty root for files of a library.
    pub fn new_library() -> (root: SourceRoot)
        ensures
            root.library(),
            root.files() == Map::<Seq<char>, FileId>::empty(),
    {
        let root = SourceRoot { is_library: true, files: text_map_new() };
        assert(root.files() =~= Map::<Seq<char>, FileId>::empty());
        root
    }

    /// Puts a file under a path. A file that was there before is replaced.
    pub fn insert_file(&mut self, path: String, file_id: FileId)
        ensures
            final(self).files() == old(self).files().insert(path@, file_id),
            final(self).library() == old(self).library(),
    {
        text_map_insert(&mut self.files, path, file_id);
    }

    /// Takes away the file under a path, if there is one.
    pub fn remove_file(&mut self, path: &str)
        ensures
            final(self).files() == old(self).files().remove(path@),
            final(self).library() == old(self).library(),
    {
        text_map_remove(&mut self.files, path);
    }

    /// The files of this root, one for each path, in no particular order.
    pub fn walk(&self) -> (ids: Vec<FileId>)
        ensures
            exists|paths: Seq<Seq<char>>| #[trigger]
                lists_files(self.files(), paths, ids@),
    {
        let entries = text_map_entries(&self.files);
        let mut ids: Vec<FileId> = Vec::new();
        let mut i: usize = 0;
        while i < entries.len()
            invariant
                0 <= i <= entries.len(),
                ids@.len() == i,
                forall|k: int| 0 <= k < i ==> ids@[k] == (#[trigger] entries@[k]).1,
            decreases entries.len() - i,
        {
            ids.push(entries[i].1);
            i += 1;
        }
        proof {
            let paths = Seq::new(entries@.len(), |k: int| entries@[k].0@);
            assert forall|p: Seq<char>| self.files().contains_key(p) implies paths.contains(p) by {
                let k = choose|k: int| 0 <= k < entries@.len() && (#[trigger] entries@[k]).0@ == p;
                assert(paths[k] == p);
            }
            assert forall|a: int, b: int| 0 <= a < b < paths.len() implies paths[a] != paths[b] by {
                assert(entries@[a].0@ != entries@[b].0@);
            }
            assert forall|k: int| 0 <= k < paths.len() implies self.files().contains_key(
                #[trigger] paths[k],
            ) && ids@[k] == self.files()[paths[k]] by {
                assert(self.files().contains_key(entries@[k].0@));
            }
            assert(lists_files(self.files(), paths, ids@));
        }
        ids
    }

    /// The file under a path, if there is one.
    pub fn file_by_relative_path(&self, path: &str) -> (found: Option<FileId>)
        ensures
            found == (if self.files().contains_key(path@) {
                Some(self.files()[path@])
            } else {
                None
            }),
    {
        match text_map_get(&self.files, path) {
            Some(id) => Some(*id),
            None => None,
        }
    }
}

/// `ids` lists the files of the table once for each path: `paths` names
/// every path of the table exactly once, and `ids` holds, place by place,
/// the file under that path.
pub open spec fn lists_files(files: Map<Seq<char>, FileId>, paths: Seq<Seq<char>>, ids: Seq<FileId>) -> bool {
    &&& paths.len() == ids.len()
    &&& forall|a: int, b: int| 0 <= a < b < paths.len() ==> paths[a] != paths[b]
    &&& forall|k: int|
        0 <= k < paths.len() ==> files.contains_key(#[trigger] paths[k]) && ids[k] == files[paths[k]]
    &&& forall|path: Seq<char>| files.contains_key(path) ==> paths.contains(path)
}

} // verus!
