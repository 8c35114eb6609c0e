use ra_db::extern_source::{longest_match, Candidate};
use ra_db::{Env, ExternSource, ExternSourceId, FileId, SourceRoot};

fn sorted(mut ids: Vec<FileId>) -> Vec<FileId> {
    ids.sort();
    ids
}

#[test]
fn source_root_insert_remove_walk() {
    let mut root = SourceRoot::new_local();
    root.insert_file("src/lib.rs".to_string(), FileId(1));
    root.insert_file("src/main.rs".to_string(), FileId(2));
    root.remove_file("src/lib.rs");
    assert_eq!(root.walk(), vec![FileId(2)]);
    assert_eq!(root.file_by_relative_path("src/main.rs"), Some(FileId(2)));
    assert_eq!(root.file_by_relative_path("src/lib.rs"), None);
}

#[test]
fn source_root_starts_empty() {
    let local = SourceRoot::new_local();
    let library = SourceRoot::new_library();
    assert!(!local.is_library);
    assert!(library.is_library);
    assert!(local.walk().is_empty());
    assert!(library.walk().is_empty());
    assert_eq!(local.file_by_relative_path("a.rs"), None);
}

#[test]
fn source_root_insert_overwrites() {
    let mut root = SourceRoot::new_library();
    root.insert_file("a.rs".to_string(), FileId(1));
    root.insert_file("a.rs".to_string(), FileId(9));
    root.insert_file("b.rs".to_string(), FileId(2));
    root.insert_file("c.rs".to_string(), FileId(3));
    assert_eq!(root.file_by_relative_path("a.rs"), Some(FileId(9)));
    assert_eq!(sorted(root.walk()), vec![FileId(2), FileId(3), FileId(9)]);
    assert!(root.is_library);
}

#[test]
fn source_root_remove_of_a_missing_path_does_nothing() {
    let mut root = SourceRoot::new_local();
    root.insert_file("a.rs".to_string(), FileId(1));
    let before = root.clone();
    root.remove_file("b.rs");
    assert_eq!(root, before);
}

#[test]
fn source_root_may_hold_one_file_under_two_paths() {
    let mut root = SourceRoot::new_local();
    root.insert_file("a.rs".to_string(), FileId(4));
    root.insert_file("b.rs".to_string(), FileId(4));
    assert_eq!(root.walk(), vec![FileId(4), FileId(4)]);
}

#[test]
fn env_last_write_wins() {
    let mut env = Env::default();
    assert_eq!(env.get("OUT_DIR"), None);
    env.set("OUT_DIR", "/tmp/a".to_string());
    env.set("CARGO", "cargo".to_string());
    assert_eq!(env.get("OUT_DIR"), Some("/tmp/a".to_string()));
    env.set("OUT_DIR", "/tmp/b".to_string());
    assert_eq!(env.get("OUT_DIR"), Some("/tmp/b".to_string()));
    assert_eq!(env.get("CARGO"), Some("cargo".to_string()));
    assert_eq!(env.get("out_dir"), None);
}

#[test]
fn extern_path_strips_the_root() {
    let mut source = ExternSource::default();
    assert_eq!(source.extern_path("/out/gen/a.rs"), None);
    source.set_extern_path("/out", ExternSourceId(1));
    assert_eq!(
        source.extern_path("/out/gen/a.rs"),
        Some((ExternSourceId(1), "gen/a.rs".to_string()))
    );
    assert_eq!(source.extern_path("/out"), Some((ExternSourceId(1), "".to_string())));
    assert_eq!(source.extern_path("/other/a.rs"), None);
    assert_eq!(source.extern_path("/output/a.rs"), None);
    assert_eq!(source.extern_path("out/gen/a.rs"), None);
}

#[test]
fn extern_path_overwrites_a_root() {
    let mut source = ExternSource::default();
    source.set_extern_path("/out", ExternSourceId(1));
    source.set_extern_path("/out", ExternSourceId(2));
    assert_eq!(source.extern_path("/out/a.rs"), Some((ExternSourceId(2), "a.rs".to_string())));
}

#[test]
fn extern_path_prefers_the_longest_root() {
    let mut source = ExternSource::default();
    source.set_extern_path("/out", ExternSourceId(1));
    source.set_extern_path("/out/deep/er", ExternSourceId(3));
    source.set_extern_path("/out/deep", ExternSourceId(2));
    source.set_extern_path("/elsewhere/quite/far/away", ExternSourceId(4));
    assert_eq!(
        source.extern_path("/out/deep/er/a.rs"),
        Some((ExternSourceId(3), "a.rs".to_string()))
    );
    assert_eq!(
        source.extern_path("/out/deep/a.rs"),
        Some((ExternSourceId(2), "a.rs".to_string()))
    );
    assert_eq!(
        source.extern_path("/out/x/../a.rs"),
        Some((ExternSourceId(1), "x/../a.rs".to_string()))
    );
}

#[test]
fn extern_path_under_a_relative_root() {
    let mut source = ExternSource::default();
    source.set_extern_path("target/gen", ExternSourceId(7));
    assert_eq!(
        source.extern_path("target/gen/./m/a.rs"),
        Some((ExternSourceId(7), "m/a.rs".to_string()))
    );
}

fn candidate(root: &str, id: u32, relative: Option<&str>) -> Candidate {
    Candidate {
        root: root.to_string(),
        id: ExternSourceId(id),
        relative: relative.map(|text| text.to_string()),
    }
}

#[test]
fn longest_match_picks_the_longest_root_that_matches() {
    assert_eq!(longest_match(&Vec::new()), None);
    assert_eq!(longest_match(&vec![candidate("/a", 1, None)]), None);
    let candidates = vec![
        candidate("/a/b/c/d", 1, None),
        candidate("/a", 2, Some("b/x")),
        candidate("/a/b", 3, Some("x")),
        candidate("/a/é", 4, Some("y")),
        candidate("/", 5, Some("a/b/x")),
    ];
    assert_eq!(longest_match(&candidates), Some(2));
}
