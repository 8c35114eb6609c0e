//! The input model of a source code analyzer, and two of the tools built
//! on it.
//!
//! The model turns a set of files into a graph of crates: files are grouped
//! into source roots, each crate has a root file, an edition, its
//! configuration and environment, and named edges to the crates it depends
//! on. The edges never form a cycle: `CrateGraph::add_dep` refuses an edge
//! that would close one.
//!
//! `make` puts together source snippets for syntax nodes, and `inlay_hints`
//! decides which hints on types and parameter names an editor shows.

pub mod edition;
pub mod env;
pub mod extern_source;
pub mod fx;
pub mod graph;
pub mod ids;
pub mod inlay_hints;
pub mod make;
pub mod name;
pub mod paths;
pub mod reach;
pub mod search;
pub mod source_root;
pub mod text;

pub use edition::{Edition, ParseEditionError};
pub use env::Env;
pub use extern_source::ExternSource;
pub use graph::{CfgOptions, CrateData, CrateGraph, CyclicDependenciesError, Dependency, ProcMacro};
pub use ids::{CrateId, ExternSourceId, FileId, ProcMacroId, SourceRootId};
pub use inlay_hints::{InlayHint, InlayHintsOptions, InlayKind};
pub use name::CrateName;
pub use source_root::SourceRoot;
