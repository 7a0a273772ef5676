use dup_deps::graph::{detect_duplicates, find_root, BuildGraph, GraphError, PackageInfo};
use dup_deps::names::NameSet;

fn pkg(name: &str, deps: &[&str]) -> PackageInfo {
    PackageInfo {
        name: name.to_string(),
        dependencies: deps.iter().map(|d| d.to_string()).collect(),
    }
}

fn graph(root: Option<&str>, packages: Vec<PackageInfo>) -> BuildGraph {
    BuildGraph { root: root.map(|r| r.to_string()), packages }
}

fn sorted(s: &NameSet) -> Vec<String> {
    let mut v = s.to_vec();
    v.sort();
    v
}

#[test]
fn duplicates_of_serde_and_tokio() {
    let g = graph(
        Some("app"),
        vec![pkg("app", &["serde", "tokio"]), pkg("lib", &["serde"])],
    );
    let rep = detect_duplicates(&g).unwrap();
    assert_eq!(sorted(&rep.root_deps), vec!["serde", "tokio"]);
    assert_eq!(sorted(&rep.other_deps), vec!["serde"]);
    assert_eq!(sorted(&rep.duplicates), vec!["serde"]);
}

#[test]
fn no_dependencies_gives_empty_sets() {
    let g = graph(Some("app"), vec![pkg("app", &[])]);
    let rep = detect_duplicates(&g).unwrap();
    assert!(rep.root_deps.to_vec().is_empty());
    assert!(rep.other_deps.to_vec().is_empty());
    assert!(rep.duplicates.to_vec().is_empty());
}

#[test]
fn one_overlapping_name() {
    let g = graph(
        Some("app"),
        vec![pkg("log", &["cfg-if"]), pkg("app", &["log", "cfg-if"])],
    );
    let rep = detect_duplicates(&g).unwrap();
    assert_eq!(sorted(&rep.duplicates), vec!["cfg-if"]);
}

#[test]
fn many_overlapping_and_disjoint_names() {
    let g = graph(
        Some("app"),
        vec![
            pkg("app", &["a", "b", "c", "d", "a"]),
            pkg("x", &["b", "e", "b"]),
            pkg("y", &["d", "f"]),
            pkg("z", &[]),
        ],
    );
    let rep = detect_duplicates(&g).unwrap();
    assert_eq!(sorted(&rep.root_deps), vec!["a", "b", "c", "d"]);
    assert_eq!(sorted(&rep.other_deps), vec!["b", "d", "e", "f"]);
    assert_eq!(sorted(&rep.duplicates), vec!["b", "d"]);
}

#[test]
fn no_overlap_gives_no_duplicates() {
    let g = graph(Some("app"), vec![pkg("app", &["a"]), pkg("x", &["b"])]);
    let rep = detect_duplicates(&g).unwrap();
    assert!(rep.duplicates.to_vec().is_empty());
}

#[test]
fn root_only_names_stay_out_of_other_deps() {
    let g = graph(
        Some("app"),
        vec![pkg("app", &["only-root", "shared"]), pkg("x", &["shared"])],
    );
    let rep = detect_duplicates(&g).unwrap();
    assert!(!rep.other_deps.contains(&"only-root".to_string()));
    assert!(rep.other_deps.contains(&"shared".to_string()));
}

#[test]
fn missing_root_is_fatal() {
    let g = graph(Some("app"), vec![pkg("x", &["a"]), pkg("y", &["a"])]);
    assert_eq!(detect_duplicates(&g).err(), Some(GraphError::MissingRoot));
    assert_eq!(find_root(&g), Err(GraphError::MissingRoot));
}

#[test]
fn unnamed_root_is_fatal() {
    let g = graph(None, vec![pkg("app", &["a"])]);
    assert_eq!(detect_duplicates(&g).err(), Some(GraphError::MissingRoot));
}

#[test]
fn root_found_by_name() {
    let g = graph(Some("app"), vec![pkg("x", &[]), pkg("app", &[]), pkg("y", &[])]);
    assert_eq!(find_root(&g), Ok(1));
}

#[test]
fn name_set_keeps_each_name_once() {
    let mut s = NameSet::new();
    s.insert("a".to_string());
    s.insert("b".to_string());
    s.insert("a".to_string());
    assert_eq!(s.to_vec(), vec!["a", "b"]);
    let mut t = NameSet::new();
    t.insert("b".to_string());
    t.insert("c".to_string());
    assert_eq!(s.intersection(&t).to_vec(), vec!["b"]);
}
