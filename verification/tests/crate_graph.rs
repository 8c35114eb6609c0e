use ra_db::{
    CfgOptions, CrateGraph, CrateId, CrateName, Dependency, Edition, Edition::Edition2018, Env,
    ExternSource, FileId, ProcMacro, ProcMacroId,
};

fn add(graph: &mut CrateGraph, file: u32) -> CrateId {
    graph.add_crate_root(
        FileId(file),
        Edition2018,
        None,
        CfgOptions::default(),
        Env::default(),
        Default::default(),
        Default::default(),
    )
}

fn names(graph: &CrateGraph, id: CrateId) -> Vec<(u32, String)> {
    graph[id].dependencies.iter().map(|dep| (dep.crate_id.0, dep.name.clone())).collect()
}

#[test]
fn it_should_panic_because_of_cycle_dependencies() {
    let mut graph = CrateGraph::default();
    let crate1 = graph.add_crate_root(
        FileId(1u32),
        Edition2018,
        None,
        CfgOptions::default(),
        Env::default(),
        Default::default(),
        Default::default(),
    );
    let crate2 = graph.add_crate_root(
        FileId(2u32),
        Edition2018,
        None,
        CfgOptions::default(),
        Env::default(),
        Default::default(),
        Default::default(),
    );
    let crate3 = graph.add_crate_root(
        FileId(3u32),
        Edition2018,
        None,
        CfgOptions::default(),
        Env::default(),
        Default::default(),
        Default::default(),
    );
    assert!(graph.add_dep(crate1, CrateName::new("crate2").unwrap(), crate2).is_ok());
    assert!(graph.add_dep(crate2, CrateName::new("crate3").unwrap(), crate3).is_ok());
    assert!(graph.add_dep(crate3, CrateName::new("crate1").unwrap(), crate1).is_err());
}

#[test]
fn it_works() {
    let mut graph = CrateGraph::default();
    let crate1 = graph.add_crate_root(
        FileId(1u32),
        Edition2018,
        None,
        CfgOptions::default(),
        Env::default(),
        Default::default(),
        Default::default(),
    );
    let crate2 = graph.add_crate_root(
        FileId(2u32),
        Edition2018,
        None,
        CfgOptions::default(),
        Env::default(),
        Default::default(),
        Default::default(),
    );
    let crate3 = graph.add_crate_root(
        FileId(3u32),
        Edition2018,
        None,
        CfgOptions::default(),
        Env::default(),
        Default::default(),
        Default::default(),
    );
    assert!(graph.add_dep(crate1, CrateName::new("crate2").unwrap(), crate2).is_ok());
    assert!(graph.add_dep(crate2, CrateName::new("crate3").unwrap(), crate3).is_ok());
}

#[test]
fn dashes_are_normalized() {
    let mut graph = CrateGraph::default();
    let crate1 = graph.add_crate_root(
        FileId(1u32),
        Edition2018,
        None,
        CfgOptions::default(),
        Env::default(),
        Default::default(),
        Default::default(),
    );
    let crate2 = graph.add_crate_root(
        FileId(2u32),
        Edition2018,
        None,
        CfgOptions::default(),
        Env::default(),
        Default::default(),
        Default::default(),
    );
    assert!(graph
        .add_dep(crate1, CrateName::normalize_dashes("crate-name-with-dashes"), crate2)
        .is_ok());
    assert_eq!(
        graph[crate1].dependencies,
        vec![Dependency { crate_id: crate2, name: "crate_name_with_dashes".into() }]
    );
}

#[test]
fn crate_ids_count_up_from_zero() {
    let mut graph = CrateGraph::default();
    assert!(graph.is_empty());
    assert_eq!(add(&mut graph, 10), CrateId(0));
    assert_eq!(add(&mut graph, 11), CrateId(1));
    assert_eq!(add(&mut graph, 12), CrateId(2));
    assert!(!graph.is_empty());
    assert_eq!(graph.iter(), vec![CrateId(0), CrateId(1), CrateId(2)]);
}

#[test]
fn new_crate_holds_what_it_was_given() {
    let mut graph = CrateGraph::default();
    let mut env = Env::default();
    env.set("OUT_DIR", "/out".to_string());
    let mut cfg = CfgOptions::default();
    cfg.atoms.push("test".to_string());
    let id = graph.add_crate_root(
        FileId(7),
        Edition::Edition2015,
        Some(CrateName::new("core").unwrap()),
        cfg.clone(),
        env.clone(),
        ExternSource::default(),
        vec![("derive_it".to_string(), ProcMacroId(4))],
    );
    let data = &graph[id];
    assert_eq!(data.root_file_id, FileId(7));
    assert_eq!(data.edition, Edition::Edition2015);
    assert_eq!(data.display_name, Some(CrateName::new("core").unwrap()));
    assert_eq!(data.cfg_options, cfg);
    assert_eq!(data.env, env);
    assert_eq!(data.extern_source, ExternSource::default());
    assert!(data.dependencies.is_empty());
    assert_eq!(
        data.proc_macro,
        vec![ProcMacro { name: "derive_it".to_string(), expander: ProcMacroId(4) }]
    );
}

#[test]
fn macros_with_one_name_differ_by_registration() {
    let a = ProcMacro { name: "m".to_string(), expander: ProcMacroId(0) };
    let b = ProcMacro { name: "m".to_string(), expander: ProcMacroId(1) };
    assert_ne!(a, b);
    assert_eq!(a, a.clone());
}

#[test]
fn direct_self_loop_is_rejected() {
    let mut graph = CrateGraph::default();
    let a = add(&mut graph, 1);
    assert!(graph.add_dep(a, CrateName::new("me").unwrap(), a).is_err());
    assert!(graph[a].dependencies.is_empty());
}

#[test]
fn failed_edge_leaves_the_graph_unchanged() {
    let mut graph = CrateGraph::default();
    let a = add(&mut graph, 1);
    let b = add(&mut graph, 2);
    let c = add(&mut graph, 3);
    assert!(graph.add_dep(a, CrateName::new("b").unwrap(), b).is_ok());
    assert!(graph.add_dep(b, CrateName::new("c").unwrap(), c).is_ok());
    let before = graph.clone();
    assert!(graph.add_dep(c, CrateName::new("a").unwrap(), a).is_err());
    assert_eq!(graph, before);
    assert_eq!(names(&graph, a), vec![(1, "b".to_string())]);
    assert_eq!(names(&graph, b), vec![(2, "c".to_string())]);
    assert_eq!(names(&graph, c), vec![]);
    assert_eq!(graph.iter().len(), 3);
}

#[test]
fn parallel_edges_are_kept_apart() {
    let mut graph = CrateGraph::default();
    let a = add(&mut graph, 1);
    let b = add(&mut graph, 2);
    assert!(graph.add_dep(a, CrateName::new("x").unwrap(), b).is_ok());
    assert!(graph.add_dep(a, CrateName::new("y").unwrap(), b).is_ok());
    assert_eq!(names(&graph, a), vec![(1, "x".to_string()), (1, "y".to_string())]);
    assert!(graph.add_dep(b, CrateName::new("back").unwrap(), a).is_err());
}

#[test]
fn diamond_is_no_cycle() {
    let mut graph = CrateGraph::default();
    let top = add(&mut graph, 1);
    let left = add(&mut graph, 2);
    let right = add(&mut graph, 3);
    let bottom = add(&mut graph, 4);
    assert!(graph.add_dep(top, CrateName::new("l").unwrap(), left).is_ok());
    assert!(graph.add_dep(top, CrateName::new("r").unwrap(), right).is_ok());
    assert!(graph.add_dep(left, CrateName::new("b").unwrap(), bottom).is_ok());
    assert!(graph.add_dep(right, CrateName::new("b").unwrap(), bottom).is_ok());
    assert!(graph.add_dep(bottom, CrateName::new("t").unwrap(), top).is_err());
    assert!(graph.add_dep(bottom, CrateName::new("l").unwrap(), left).is_err());
    assert!(graph.add_dep(left, CrateName::new("r").unwrap(), right).is_ok());
    assert!(graph.add_dep(right, CrateName::new("l").unwrap(), left).is_err());
}

#[test]
fn root_file_lookup_finds_a_crate_with_that_root() {
    let mut graph = CrateGraph::default();
    let a = add(&mut graph, 5);
    let b = add(&mut graph, 6);
    let twin = add(&mut graph, 5);
    assert_eq!(graph.crate_id_for_crate_root(FileId(6)), Some(b));
    let found = graph.crate_id_for_crate_root(FileId(5)).unwrap();
    assert!(found == a || found == twin);
    assert_eq!(graph[found].root_file_id, FileId(5));
    assert_eq!(graph.crate_id_for_crate_root(FileId(9)), None);
}

#[test]
fn extend_shifts_ids_and_edges() {
    let mut first = CrateGraph::default();
    let a = add(&mut first, 1);
    let b = add(&mut first, 2);
    assert!(first.add_dep(a, CrateName::new("b").unwrap(), b).is_ok());

    let mut second = CrateGraph::default();
    let x = add(&mut second, 11);
    let y = add(&mut second, 12);
    let z = add(&mut second, 13);
    assert!(second.add_dep(x, CrateName::new("y").unwrap(), y).is_ok());
    assert!(second.add_dep(x, CrateName::new("z").unwrap(), z).is_ok());
    assert!(second.add_dep(y, CrateName::new("z").unwrap(), z).is_ok());

    let shift = first.extend(second);
    assert_eq!(shift, 2);
    assert_eq!(first.iter().len(), 5);
    assert_eq!(names(&first, a), vec![(1, "b".to_string())]);
    assert_eq!(names(&first, b), vec![]);
    assert_eq!(first[x.shift(shift)].root_file_id, FileId(11));
    assert_eq!(first[y.shift(shift)].root_file_id, FileId(12));
    assert_eq!(first[z.shift(shift)].root_file_id, FileId(13));
    assert_eq!(names(&first, CrateId(2)), vec![(3, "y".to_string()), (4, "z".to_string())]);
    assert_eq!(names(&first, CrateId(3)), vec![(4, "z".to_string())]);
    assert_eq!(names(&first, CrateId(4)), vec![]);

    assert!(first.add_dep(CrateId(4), CrateName::new("x").unwrap(), CrateId(2)).is_err());
    assert!(first.add_dep(b, CrateName::new("x").unwrap(), CrateId(2)).is_ok());
    assert!(first.add_dep(CrateId(4), CrateName::new("a").unwrap(), a).is_err());
}

#[test]
fn extend_with_an_empty_graph_changes_nothing() {
    let mut graph = CrateGraph::default();
    let a = add(&mut graph, 1);
    let before = graph.clone();
    assert_eq!(graph.extend(CrateGraph::default()), 1);
    assert_eq!(graph, before);
    let mut empty = CrateGraph::default();
    assert_eq!(empty.extend(graph), 0);
    assert_eq!(empty[a].root_file_id, FileId(1));
}

#[test]
fn shift_adds_to_the_id() {
    assert_eq!(CrateId(3).shift(4), CrateId(7));
    assert_eq!(CrateId(0).shift(0), CrateId(0));
}

#[test]
fn long_chain_is_searched_to_its_end() {
    let mut graph = CrateGraph::default();
    let count = 50_000u32;
    for file in 0..count {
        add(&mut graph, file);
    }
    for id in 0..count - 1 {
        assert!(graph.add_dep(CrateId(id), CrateName::new("next").unwrap(), CrateId(id + 1)).is_ok());
    }
    assert_eq!(graph.len(), count as usize);
    assert!(graph.add_dep(CrateId(count - 1), CrateName::new("first").unwrap(), CrateId(0)).is_err());
    assert!(graph.add_dep(CrateId(count - 1), CrateName::new("near").unwrap(), CrateId(count - 2)).is_err());
    assert!(graph[CrateId(count - 1)].dependencies.is_empty());
    assert!(graph.add_dep(CrateId(0), CrateName::new("last").unwrap(), CrateId(count - 1)).is_ok());
}

#[test]
fn accepted_edges_never_lead_back() {
    // Every edge that was accepted leads from a crate to one that cannot reach it.
    let mut graph = CrateGraph::default();
    let count = 7u32;
    for file in 0..count {
        add(&mut graph, file);
    }
    let mut accepted = Vec::new();
    for step in 0..200u32 {
        let from = (step * 5 + 3) % count;
        let to = (step * 11 + step / 7) % count;
        let before = graph.clone();
        match graph.add_dep(CrateId(from), CrateName::new("dep").unwrap(), CrateId(to)) {
            Ok(()) => accepted.push((from, to)),
            Err(_) => assert_eq!(graph, before),
        }
    }
    let total: usize = graph.iter().iter().map(|id| graph[*id].dependencies.len()).sum();
    assert_eq!(total, accepted.len());
    // A topological order exists exactly for an acyclic graph.
    let mut left: Vec<u32> = (0..count).collect();
    while !left.is_empty() {
        let free = left
            .iter()
            .position(|id| graph[CrateId(*id)].dependencies.iter().all(|dep| !left.contains(&dep.crate_id.0)))
            .expect("every acyclic graph has a crate whose dependencies are all placed");
        left.remove(free);
    }
    for (from, to) in accepted {
        assert!(graph.add_dep(CrateId(to), CrateName::new("back").unwrap(), CrateId(from)).is_err());
    }
}
