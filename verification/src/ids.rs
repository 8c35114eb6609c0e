//! Opaque integer handles for files, source roots, crates, macro
//! registrations and external sources.

use vstd::prelude::*;

verus! {

/// An integer that uniquely identifies one file within one snapshot.
#[derive(Debug, Clone, Copy, PartialEq, Eq, PartialOrd, Ord, Hash, Structural)]
pub struct FileId(pub u32);

/// Identifies one source root: a directory-like namespace of relative paths.
#[derive(Debug, Clone, Copy, PartialEq, Eq, PartialOrd, Ord, Hash, Structural)]
pub struct SourceRootId(pub u32);

/// An index into the arena of a crate graph.
#[derive(Debug, Clone, Copy, PartialEq, Eq, PartialOrd, Ord, Hash, Structural)]
pub struct CrateId(pub u32);

/// Identifies one registration of a macro expander.
#[derive(Debug, Clone, Copy, PartialEq, Eq, Hash, Structural)]
pub struct ProcMacroId(pub u32);

/// Identifies one external source location.
#[derive(Debug, Clone, Copy, PartialEq, Eq, PartialOrd, Ord, Hash, Structural)]
pub struct ExternSourceId(pub u32);

impl CrateId {
    /// The identifier `amount` places further on in the arena.
    pub fn shift(self, amount: u32) -> (shifted: CrateId)
        requires
            self.0 + amount <= u32::MAX,
        ensures
            shifted.0 == self.0 + amount,
    {
        CrateId(self.0 + amount)
    }
}

} // verus!
