use img_diff::{
    counterpart, create_dir_if_not_there, create_path, diff_file_name, find_all_files_to_load,
    substitute_prefix, Config, FilePath,
};
use std::collections::HashSet;

fn path(text: &str) -> FilePath {
    FilePath::new(text.split('/').filter(|c| !c.is_empty()).map(String::from).collect())
}

fn parts(p: &FilePath) -> Vec<&str> {
    p.parts.iter().map(|s| s.as_str()).collect()
}

fn config() -> Config {
    Config {
        src_dir: path("trees/src"),
        dest_dir: path("trees/dest"),
        diff_dir: path("out/diff"),
        verbose: false,
    }
}

#[test]
fn substitution_works_on_whole_components() {
    let p = path("tests/src/a/src/b.png");
    let r = substitute_prefix(&p, &path("tests/src"), &path("tests/dest")).unwrap();
    assert_eq!(parts(&r), vec!["tests", "dest", "a", "src", "b.png"]);
}

#[test]
fn substitution_refuses_paths_outside_the_root() {
    assert!(substitute_prefix(&path("other/src/b.png"), &path("tests/src"), &path("x")).is_none());
    assert!(substitute_prefix(&path("tests/srcx/b.png"), &path("tests/src"), &path("x")).is_none());
    assert!(substitute_prefix(&path("tests"), &path("tests/src"), &path("x")).is_none());
}

#[test]
fn substitution_of_the_root_itself() {
    let r = substitute_prefix(&path("tests/src"), &path("tests/src"), &path("d")).unwrap();
    assert_eq!(parts(&r), vec!["d"]);
}

#[test]
fn counterpart_and_diff_file_name_swap_roots() {
    let c = config();
    let dest = counterpart(&c, &path("trees/src/nested/img.png")).unwrap();
    assert_eq!(parts(&dest), vec!["trees", "dest", "nested", "img.png"]);
    let diff = diff_file_name(&c, &dest).unwrap();
    assert_eq!(parts(&diff), vec!["out", "diff", "nested", "img.png"]);
    assert!(counterpart(&c, &path("elsewhere/img.png")).is_none());
    assert!(diff_file_name(&c, &path("trees/src/img.png")).is_none());
}

#[test]
fn create_path_lists_every_ancestor_shortest_first() {
    let chain = create_path(&path("out/diff/a/b/c.png"));
    let chain: Vec<Vec<&str>> = chain.iter().map(parts).collect();
    assert_eq!(
        chain,
        vec![
            vec!["out"],
            vec!["out", "diff"],
            vec!["out", "diff", "a"],
            vec!["out", "diff", "a", "b"],
        ]
    );
    assert!(create_path(&path("c.png")).is_empty());
    assert!(create_path(&path("")).is_empty());
}

#[test]
fn create_dir_if_not_there_keeps_only_missing_directories() {
    let chain = create_path(&path("out/diff/a/c.png"));
    let missing = create_dir_if_not_there(&chain, &vec![true, false, false]);
    let missing: Vec<Vec<&str>> = missing.iter().map(parts).collect();
    assert_eq!(missing, vec![vec!["out", "diff"], vec!["out", "diff", "a"]]);
    assert!(create_dir_if_not_there(&chain, &vec![true, true, true]).is_empty());
}

#[test]
fn ensuring_directories_twice_creates_them_once() {
    let mut dirs: HashSet<Vec<String>> = HashSet::new();
    dirs.insert(vec!["out".to_string()]);
    let chain = create_path(&path("out/diff/a/c.png"));
    let mut created = 0;
    for _ in 0..2 {
        let present: Vec<bool> = chain.iter().map(|d| dirs.contains(&d.parts)).collect();
        for d in create_dir_if_not_there(&chain, &present) {
            assert!(dirs.insert(d.parts.clone()));
            created += 1;
        }
    }
    assert_eq!(created, 2);
    assert_eq!(dirs.len(), 3);
}

#[test]
fn discovery_pairs_only_files_present_in_both_trees() {
    let c = config();
    let files = vec![
        path("trees/src/a.png"),
        path("trees/src/only_in_source.png"),
        path("trees/src/sub/b.bmp"),
    ];
    let pairs = find_all_files_to_load(&c, &files, &vec![true, false, true]);
    assert_eq!(pairs.len(), 2);
    assert_eq!(parts(&pairs[0].source), vec!["trees", "src", "a.png"]);
    assert_eq!(parts(&pairs[0].destination), vec!["trees", "dest", "a.png"]);
    assert_eq!(parts(&pairs[1].source), vec!["trees", "src", "sub", "b.bmp"]);
    assert_eq!(parts(&pairs[1].destination), vec!["trees", "dest", "sub", "b.bmp"]);
}

#[test]
fn discovery_skips_files_outside_the_source_root() {
    let c = config();
    let files = vec![path("elsewhere/a.png")];
    assert!(find_all_files_to_load(&c, &files, &vec![true]).is_empty());
}

#[test]
fn path_copies_and_prefixes() {
    let p = path("a/b/c");
    assert_eq!(parts(&p.duplicate()), vec!["a", "b", "c"]);
    assert_eq!(parts(&p.prefix(2)), vec!["a", "b"]);
    assert_eq!(p.len(), 3);
    assert!(p.starts_with(&path("a/b")));
    assert!(!p.starts_with(&path("a/c")));
}
