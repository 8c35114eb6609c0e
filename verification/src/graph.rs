//! The crate graph: an arena of crates, each with its configuration and the
//! named edges to the crates it depends on. The edges never form a cycle.

use crate::edition::Edition;
use crate::env::Env;
use crate::extern_source::ExternSource;
use crate::fx::{
    id_map_get, id_map_get_mut, id_map_insert, id_map_len, id_map_new, id_map_remove,
    id_set_insert, id_set_new,
};
use crate::ids::{CrateId, FileId, ProcMacroId};
use crate::name::CrateName;
use crate::reach::{acyclic, reaches, targets_in_range};
use rustc_hash::{FxHashMap, FxHashSet};
use vstd::prelude::*;

verus! {

/// The configuration flags that a crate is compiled with: bare atoms such
/// as `test`, and keys with a value such as `feature = "std"`.
#[derive(Debug, Clone, PartialEq, Eq)]
pub struct CfgOptions {
    pub atoms: Vec<String>,
    pub key_values: Vec<(String, String)>,
}

impl Default for CfgOptions {
    /// The configuration in which nothing is set.
    fn default() -> (cfg: CfgOptions)
        ensures
            cfg.atoms@.len() == 0,
            cfg.key_values@.len() == 0,
    {
        CfgOptions { atoms: Vec::new(), key_values: Vec::new() }
    }
}

/// A macro that a crate provides: its name, and the registration of the
/// expander that runs it. Two macros are the same only if both agree.
#[derive(Debug, Clone, PartialEq, Eq)]
pub struct ProcMacro {
    pub name: String,
    pub expander: ProcMacroId,
}

/// An edge of the graph: the crate depended on, and the name under which
/// the dependent crate imports it.
#[derive(Debug, Clone, PartialEq, Eq)]
pub struct Dependency {
    pub crate_id: CrateId,
    pub name: String,
}

/// One crate of the graph.
#[derive(Debug, Clone, PartialEq, Eq)]
pub struct CrateData {
    pub root_file_id: FileId,
    pub edition: Edition,
    /// The name to show to the user. A dependent crate may import the crate
    /// under another name, and a crate may have none.
    pub display_name: Option<CrateName>,
    pub cfg_options: CfgOptions,
    pub env: Env,
    pub extern_source: ExternSource,
    pub dependencies: Vec<Dependency>,
    pub proc_macro: Vec<ProcMacro>,
}

/// The edge that was asked for would have closed a cycle.
#[derive(Debug)]
pub struct CyclicDependenciesError;

/// The crates that a crate depends on, in the order of its edges.
pub open spec fn targets(data: CrateData) -> Seq<int> {
    Seq::new(data.dependencies@.len(), |i: int| data.dependencies@[i].crate_id.0 as int)
}

/// The adjacency lists of a sequence of crates, each crate numbered by its
/// place.
pub open spec fn adjacency(crates: Seq<CrateData>) -> Seq<Seq<int>> {
    Seq::new(crates.len(), |a: int| targets(crates[a]))
}

/// What holds of the crates of every graph: their number fits the
/// identifiers, every edge leads to a crate of the graph, and no walk along
/// the edges comes back to where it began.
pub open spec fn well_formed(crates: Seq<CrateData>) -> bool {
    &&& crates.len() <= u32::MAX + 1
    &&& targets_in_range(adjacency(crates))
    &&& acyclic(adjacency(crates))
}

/// `after` is `before` with nothing changed but its edges.
pub open spec fn same_but_dependencies(before: CrateData, after: CrateData) -> bool {
    after == (CrateData { dependencies: after.dependencies, ..before })
}

/// `after` is `before` with one more edge at the end, to `to` under `name`.
pub open spec fn dependency_added(before: CrateData, after: CrateData, name: Seq<char>, to: CrateId) -> bool {
    &&& same_but_dependencies(before, after)
    &&& after.dependencies@.len() == before.dependencies@.len() + 1
    &&& after.dependencies@.take(before.dependencies@.len() as int) == before.dependencies@
    &&& after.dependencies@.last().crate_id == to
    &&& after.dependencies@.last().name@ == name
}

/// `after` is `before` with every edge's target moved up by `amount`.
pub open spec fn dependencies_shifted(before: CrateData, after: CrateData, amount: int) -> bool {
    &&& same_but_dependencies(before, after)
    &&& after.dependencies@.len() == before.dependencies@.len()
    &&& forall|i: int|
        0 <= i < before.dependencies@.len() ==> (#[trigger] after.dependencies@[i]).name
            == before.dependencies@[i].name && after.dependencies@[i].crate_id.0
            == before.dependencies@[i].crate_id.0 + amount
}

/// The macros that a list of names and registrations stands for.
pub open spec fn registered(pairs: Seq<(String, ProcMacroId)>) -> Seq<ProcMacro> {
    Seq::new(pairs.len(), |i: int| ProcMacro { name: pairs[i].0, expander: pairs[i].1 })
}

/// A set of crates with their dependencies.
#[derive(Debug, Clone, PartialEq, Eq)]
pub struct CrateGraph {
    arena: FxHashMap<u32, CrateData>,
}

impl View for CrateGraph {
    type V = Seq<CrateData>;

    /// The crates in the order of their identifiers.
    closed spec fn view(&self) -> Seq<CrateData> {
        Seq::new(self.arena@.dom().len(), |i: int| self.arena@[i as u32])
    }
}

impl Default for CrateGraph {
    /// The graph without crates.
    fn default() -> (graph: CrateGraph)
        ensures
            graph.wf(),
            graph@ == Seq::<CrateData>::empty(),
    {
        let graph = CrateGraph { arena: id_map_new() };
        proof {
            assert(graph@ =~= Seq::<CrateData>::empty());
            assert(adjacency(graph@) =~= Seq::<Seq<int>>::empty());
            assert forall|walk: Seq<int>| #[trigger]
                crate::reach::is_walk(adjacency(graph@), walk) && walk.len() >= 2 implies walk[0]
                != walk[walk.len() - 1] by {
                assert(crate::reach::has_edge(adjacency(graph@), walk[0], walk[0int + 1]));
            }
        }
        graph
    }
}

impl CrateGraph {
    /// The arena holds exactly the identifiers below its size, and its
    /// crates are well formed.
    pub closed spec fn wf(&self) -> bool {
        &&& self.arena@.dom().finite()
        &&& forall|key: u32| self.arena@.contains_key(key) <==> (key as int) < self.arena@.dom().len()
        &&& well_formed(self@)
    }

    /// A graph's crates are well formed.
    pub proof fn lemma_well_formed(&self)
        requires
            self.wf(),
        ensures
            well_formed(self@),
    {
    }

    /// The number of crates.
    pub fn len(&self) -> (len: usize)
        ensures
            len == self@.len(),
    {
        id_map_len(&self.arena)
    }

    /// Whether the graph has no crates.
    pub fn is_empty(&self) -> (empty: bool)
        ensures
            empty == (self@.len() == 0),
    {
        id_map_len(&self.arena) == 0
    }

    /// Adds a crate without dependencies and returns its identifier, which
    /// is the number of crates that the graph held before.
    pub fn add_crate_root(
        &mut self,
        file_id: FileId,
        edition: Edition,
        display_name: Option<CrateName>,
        cfg_options: CfgOptions,
        env: Env,
        extern_source: ExternSource,
        proc_macro: Vec<(String, ProcMacroId)>,
    ) -> (crate_id: CrateId)
        requires
            old(self).wf(),
            old(self)@.len() <= u32::MAX,
        ensures
            final(self).wf(),
            well_formed(final(self)@),
            crate_id.0 == old(self)@.len(),
            final(self)@.len() == old(self)@.len() + 1,
            final(self)@.take(old(self)@.len() as int) == old(self)@,
            final(self)@.last().root_file_id == file_id,
            final(self)@.last().edition == edition,
            final(self)@.last().display_name == display_name,
            final(self)@.last().cfg_options == cfg_options,
            final(self)@.last().env == env,
            final(self)@.last().extern_source == extern_source,
            final(self)@.last().dependencies@ == Seq::<Dependency>::empty(),
            final(self)@.last().proc_macro@ == registered(proc_macro@),
    {
        let mut macros: Vec<ProcMacro> = Vec::new();
        let mut i: usize = 0;
        while i < proc_macro.len()
            invariant
                0 <= i <= proc_macro.len(),
                macros@ == registered(proc_macro@.take(i as int)),
            decreases proc_macro.len() - i,
        {
            macros.push(ProcMacro { name: proc_macro[i].0.clone(), expander: proc_macro[i].1 });
            i += 1;
            assert(macros@ =~= registered(proc_macro@.take(i as int)));
        }
        assert(proc_macro@.take(i as int) =~= proc_macro@);
        let data = CrateData {
            root_file_id: file_id,
            edition,
            display_name,
            cfg_options,
            env,
            extern_source,
            proc_macro: macros,
            dependencies: Vec::new(),
        };
        let len = id_map_len(&self.arena);
        let crate_id = CrateId(len as u32);
        let before = id_map_insert(&mut self.arena, crate_id.0, data);
        proof {
            let n = old(self)@.len() as int;
            assert(before.is_none());
            assert(self.arena@.dom() =~= old(self).arena@.dom().insert(crate_id.0));
            assert(self@ =~= old(self)@.push(data));
            assert(self@.take(n) =~= old(self)@);
            assert(targets(data) =~= Seq::<int>::empty());
            assert(adjacency(self@) =~= crate::reach::with_node(adjacency(old(self)@)));
            crate::reach::lemma_with_node(adjacency(old(self)@));
        }
        crate_id
    }

    /// The identifiers of all crates, in ascending order.
    pub fn iter(&self) -> (ids: Vec<CrateId>)
        requires
            self.wf(),
        ensures
            ids@.len() == self@.len(),
            forall|i: int| 0 <= i < ids@.len() ==> (#[trigger] ids@[i]).0 == i,
    {
        let len = id_map_len(&self.arena);
        let mut ids: Vec<CrateId> = Vec::new();
        let mut i: usize = 0;
        while i < len
            invariant
                0 <= i <= len,
                len == self@.len(),
                len <= u32::MAX + 1,
                ids@.len() == i,
                forall|k: int| 0 <= k < i ==> (#[trigger] ids@[k]).0 == k,
            decreases len - i,
        {
            ids.push(CrateId(i as u32));
            i += 1;
        }
        ids
    }

    /// The data of a crate of this graph.
    pub fn crate_data(&self, crate_id: CrateId) -> (data: &CrateData)
        requires
            self.wf(),
            crate_id.0 < self@.len(),
        ensures
            *data == self@[crate_id.0 as int],
    {
        match id_map_get(&self.arena, crate_id.0) {
            Some(data) => data,
            None => {
                proof {
                    assert(self.arena@.contains_key(crate_id.0));
                }
                unreached()
            },
        }
    }

    /// Some crate whose root file is the given one, if there is any. Which
    /// one it is, where several crates share the file, is not specified.
    pub fn crate_id_for_crate_root(&self, file_id: FileId) -> (found: Option<CrateId>)
        requires
            self.wf(),
        ensures
            match found {
                Some(id) => id.0 < self@.len() && self@[id.0 as int].root_file_id == file_id,
                None => forall|i: int|
                    0 <= i < self@.len() ==> (#[trigger] self@[i]).root_file_id != file_id,
            },
    {
        let len = id_map_len(&self.arena);
        let mut i: usize = 0;
        while i < len
            invariant
                0 <= i <= len,
                self.wf(),
                len == self@.len(),
                len <= u32::MAX + 1,
                forall|k: int| 0 <= k < i ==> (#[trigger] self@[k]).root_file_id != file_id,
            decreases len - i,
        {
            let id = CrateId(i as u32);
            if self.crate_data(id).root_file_id == file_id {
                return Some(id);
            }
            i += 1;
        }
        None
    }

    /// Whether `target` can be reached from `from` along the edges of the
    /// graph. The search is depth first, with a stack of its own.
    fn dfs_find(&self, target: CrateId, from: CrateId) -> (found: bool)
        requires
            self.wf(),
            from.0 < self@.len(),
        ensures
            found == reaches(adjacency(self@), from.0 as int, target.0 as int),
    {
        let ghost adj = adjacency(self@);
        let ghost start = from.0 as int;
        let ghost goal = target.0 as int;
        if from.0 == target.0 {
            proof {
                crate::reach::lemma_reaches_self(adj, start);
            }
            return true;
        }
        let mut visited: FxHashSet<u32> = id_set_new();
        let mut stack: Vec<u32> = Vec::new();
        id_set_insert(&mut visited, from.0);
        stack.push(from.0);
        let ghost mut unvisited: Set<u32> = crate::search::ids_below(adj.len());
        proof {
            crate::search::lemma_search_begins(adj, from.0, goal);
            assert(stack@ =~= seq![from.0]);
        }
        while stack.len() > 0
            invariant
                self.wf(),
                adj == adjacency(self@),
                start == from.0 as int,
                goal == target.0 as int,
                start < adj.len(),
                visited@.contains(from.0),
                crate::search::searching(adj, start, goal, visited@, stack@, unvisited, None),
            decreases unvisited.len(), stack@.len(),
        {
            let ghost stack_before = stack@;
            let ghost unvisited_before = unvisited;
            let node = stack.pop().unwrap();
            proof {
                crate::search::lemma_search_pops(adj, start, goal, visited@, stack_before, unvisited);
            }
            let dependencies = &self.crate_data(CrateId(node)).dependencies;
            let mut done: usize = 0;
            while done < dependencies.len()
                invariant
                    adj == adjacency(self@),
                    start == from.0 as int,
                    goal == target.0 as int,
                    (node as int) < adj.len(),
                    visited@.contains(from.0),
                    dependencies@ == self@[node as int].dependencies@,
                    0 <= done <= dependencies@.len(),
                    crate::search::searching(
                        adj,
                        start,
                        goal,
                        visited@,
                        stack@,
                        unvisited,
                        Some((node, done as int)),
                    ),
                    stack@.len() >= stack_before.len() - 1,
                    unvisited.len() + stack@.len() == unvisited_before.len() + stack_before.len() - 1,
                decreases dependencies@.len() - done,
            {
                let next = dependencies[done].crate_id.0;
                assert(adj[node as int][done as int] == next as int);
                if next == target.0 {
                    proof {
                        assert(crate::reach::has_edge(adj, node as int, goal));
                        crate::reach::lemma_edge_reaches(adj, node as int, goal);
                        crate::reach::lemma_reaches_transitive(adj, start, node as int, goal);
                    }
                    return true;
                }
                proof {
                    crate::search::lemma_search_follows(
                        adj,
                        start,
                        goal,
                        visited@,
                        stack@,
                        unvisited,
                        node,
                        done as int,
                    );
                }
                if id_set_insert(&mut visited, next) {
                    stack.push(next);
                    proof {
                        unvisited = unvisited.remove(next);
                    }
                }
                done += 1;
            }
            proof {
                assert(adj[node as int].len() == dependencies@.len());
                crate::search::lemma_search_leaves(adj, start, goal, visited@, stack@, unvisited, node);
            }
        }
        proof {
            assert(stack@ =~= Seq::<u32>::empty());
            crate::search::lemma_search_ends(adj, start, goal, visited@, unvisited);
        }
        false
    }

    /// Adds an edge from `from` to `to` under the given name, unless `from`
    /// can already be reached from `to`: the edge would then close a cycle,
    /// and the graph is left as it was.
    pub fn add_dep(&mut self, from: CrateId, name: CrateName, to: CrateId) -> (added: Result<
        (),
        CyclicDependenciesError,
    >)
        requires
            old(self).wf(),
            from.0 < old(self)@.len(),
            to.0 < old(self)@.len(),
        ensures
            final(self).wf(),
            well_formed(final(self)@),
            added.is_err() <==> reaches(adjacency(old(self)@), to.0 as int, from.0 as int),
            added.is_err() ==> *final(self) == *old(self),
            added.is_ok() ==> adjacency(final(self)@) == crate::reach::with_edge(
                adjacency(old(self)@),
                from.0 as int,
                to.0 as int,
            ),
            added.is_ok() ==> final(self)@.len() == old(self)@.len(),
            added.is_ok() ==> forall|i: int|
                0 <= i < old(self)@.len() && i != from.0 ==> #[trigger] final(self)@[i] == old(
                    self,
                )@[i],
            added.is_ok() ==> dependency_added(
                old(self)@[from.0 as int],
                final(self)@[from.0 as int],
                name@,
                to,
            ),
    {
        if self.dfs_find(from, to) {
            return Err(CyclicDependenciesError);
        }
        let text = name.into_string();
        match id_map_get_mut(&mut self.arena, from.0) {
            Some(data) => {
                data.dependencies.push(Dependency { crate_id: to, name: text });
            },
            None => {
                proof {
                    assert(old(self).arena@.contains_key(from.0));
                }
            },
        }
        proof {
            let n = old(self)@.len() as int;
            let a = from.0 as int;
            let before = old(self)@;
            let after = self@;
            assert(self.arena@.dom() =~= old(self).arena@.dom());
            assert(after.len() == n);
            assert forall|i: int| 0 <= i < n && i != a implies #[trigger] after[i] == before[i] by {
                assert(self.arena@[i as u32] == old(self).arena@[i as u32]);
            }
            assert(after[a].dependencies@ =~= before[a].dependencies@.push(
                Dependency { crate_id: to, name: text },
            ));
            assert(after[a].dependencies@.take(before[a].dependencies@.len() as int)
                =~= before[a].dependencies@);
            assert(targets(after[a]) =~= targets(before[a]).push(to.0 as int));
            assert(adjacency(after) =~= crate::reach::with_edge(adjacency(before), a, to.0 as int));
            crate::reach::lemma_with_edge_acyclic(adjacency(before), a, to.0 as int);
            assert(targets_in_range(adjacency(after))) by {
                assert forall|x: int, i: int|
                    0 <= x < adjacency(after).len() && 0 <= i < adjacency(after)[x].len() implies 0
                    <= #[trigger] adjacency(after)[x][i] < adjacency(after).len() by {
                    if x == a && i == before[a].dependencies@.len() {
                    } else {
                        assert(adjacency(after)[x][i] == adjacency(before)[x][i]);
                    }
                }
            }
        }
        Ok(())
    }

    /// Moves the target of every edge of a crate up by `amount`.
    fn shift_dependencies(data: &mut CrateData, amount: u32)
        requires
            forall|i: int|
                0 <= i < old(data).dependencies@.len() ==> (#[trigger] old(
                    data,
                ).dependencies@[i]).crate_id.0 + amount <= u32::MAX,
        ensures
            dependencies_shifted(*old(data), *final(data), amount as int),
    {
        let mut done: usize = 0;
        while done < data.dependencies.len()
            invariant
                0 <= done <= data.dependencies@.len(),
                same_but_dependencies(*old(data), *data),
                data.dependencies@.len() == old(data).dependencies@.len(),
                forall|i: int|
                    0 <= i < done ==> (#[trigger] data.dependencies@[i]).name == old(
                        data,
                    ).dependencies@[i].name && data.dependencies@[i].crate_id.0 == old(
                        data,
                    ).dependencies@[i].crate_id.0 + amount,
                forall|i: int|
                    done <= i < data.dependencies@.len() ==> #[trigger] data.dependencies@[i] == old(
                        data,
                    ).dependencies@[i],
                forall|i: int|
                    0 <= i < old(data).dependencies@.len() ==> (#[trigger] old(
                        data,
                    ).dependencies@[i]).crate_id.0 + amount <= u32::MAX,
            decreases data.dependencies@.len() - done,
        {
            let shifted = data.dependencies[done].crate_id.shift(amount);
            data.dependencies[done].crate_id = shifted;
            done += 1;
        }
    }

    /// Takes in every crate of a second graph, which shares no edge with
    /// this one. Each crate that comes in gets its old identifier plus the
    /// number of crates that this graph held before, and the edges among
    /// them are renumbered alike. That number is returned.
    pub fn extend(&mut self, other: CrateGraph) -> (start: u32)
        requires
            old(self).wf(),
            other.wf(),
            old(self)@.len() <= u32::MAX,
            old(self)@.len() + other@.len() <= u32::MAX + 1,
        ensures
            final(self).wf(),
            well_formed(final(self)@),
            start == old(self)@.len(),
            adjacency(final(self)@) == crate::reach::disjoint_union(
                adjacency(old(self)@),
                adjacency(other@),
            ),
            final(self)@.len() == old(self)@.len() + other@.len(),
            final(self)@.take(old(self)@.len() as int) == old(self)@,
            forall|i: int|
                0 <= i < other@.len() ==> dependencies_shifted(
                    #[trigger] other@[i],
                    final(self)@[old(self)@.len() + i],
                    old(self)@.len() as int,
                ),
    {
        let ghost ours = self@;
        let ghost theirs = other@;
        let own = id_map_len(&self.arena);
        let start = own as u32;
        let mut rest = other;
        let count = id_map_len(&rest.arena);
        let mut moved: usize = 0;
        while moved < count
            invariant
                0 <= moved <= count,
                count == theirs.len(),
                own == ours.len(),
                start == own,
                own + count <= u32::MAX + 1,
                well_formed(theirs),
                self.arena@.dom().finite(),
                self.arena@.dom().len() == own + moved,
                forall|key: u32| self.arena@.contains_key(key) <==> (key as int) < own + moved,
                forall|i: int| 0 <= i < own ==> self.arena@[i as u32] == #[trigger] ours[i],
                forall|i: int|
                    0 <= i < moved ==> dependencies_shifted(
                        #[trigger] theirs[i],
                        self.arena@[(own + i) as u32],
                        own as int,
                    ),
                forall|key: u32|
                    moved <= key < count ==> #[trigger] rest.arena@.contains_key(key)
                        && rest.arena@[key] == theirs[key as int],
            decreases count - moved,
        {
            let ghost arena_before = self.arena@;
            let ghost their_arena = rest.arena@;
            assert(their_arena.contains_key(moved as u32));
            let mut data = id_map_remove(&mut rest.arena, moved as u32).unwrap();
            proof {
                assert forall|i: int| 0 <= i < data.dependencies@.len() implies (
                #[trigger] data.dependencies@[i]).crate_id.0 + start <= u32::MAX by {
                    let list = adjacency(theirs)[moved as int];
                    assert(0 <= list[i] < theirs.len());
                }
            }
            Self::shift_dependencies(&mut data, start);
            let key = start + moved as u32;
            id_map_insert(&mut self.arena, key, data);
            proof {
                assert(self.arena@.dom() =~= arena_before.dom().insert(key));
                assert forall|key: u32| moved + 1 <= key < count implies #[trigger] rest.arena@.contains_key(
                    key,
                ) && rest.arena@[key] == theirs[key as int] by {
                    assert(their_arena.contains_key(key));
                }
            }
            moved += 1;
        }
        proof {
            let n = own as int;
            let after = self@;
            assert(after.len() == n + theirs.len());
            assert(after.take(n) =~= ours);
            assert forall|i: int| 0 <= i < theirs.len() implies dependencies_shifted(
                #[trigger] theirs[i],
                after[n + i],
                n,
            ) by {
                assert(after[n + i] == self.arena@[(own + i) as u32]);
            }
            let left = adjacency(ours);
            let right = adjacency(theirs);
            let both = crate::reach::disjoint_union(left, right);
            assert(adjacency(after).len() == both.len());
            assert forall|a: int| 0 <= a < both.len() implies #[trigger] adjacency(after)[a]
                =~= both[a] by {
                if a < n {
                    assert(after[a] == ours[a]);
                } else {
                    assert(dependencies_shifted(theirs[a - n], after[n + (a - n)], n));
                    assert(both[a] == crate::reach::shifted(right, n)[a - n]);
                }
            }
            assert(adjacency(after) =~= both);
            crate::reach::lemma_disjoint_union(left, right);
        }
        start
    }
}

impl vstd::std_specs::core::IndexSpecImpl<CrateId> for CrateGraph {
    /// Only a crate of this graph can be looked up.
    open spec fn index_req(&self, index: &CrateId) -> bool {
        self.wf() && index.0 < self@.len()
    }
}

impl std::ops::Index<CrateId> for CrateGraph {
    type Output = CrateData;

    /// The data of a crate of this graph.
    fn index(&self, crate_id: CrateId) -> (data: &CrateData)
        ensures
            *data == self@[crate_id.0 as int],
    {
        self.crate_data(crate_id)
    }
}

} // verus!
