use spider::dirs::{clean_app_dirs, copy_app_dir, has_app_dir, stale_dirs, DirEntry, DirListing};

fn dir(name: &str) -> DirEntry {
    DirEntry { name: name.to_string(), is_dir: true }
}

fn file(name: &str) -> DirEntry {
    DirEntry { name: name.to_string(), is_dir: false }
}

fn ids(names: &[&str]) -> Vec<String> {
    names.iter().map(|n| n.to_string()).collect()
}

#[test]
fn reconcile_removes_exactly_the_unowned_directory() {
    let entries = vec![dir("a"), dir("b"), dir("c")];
    assert_eq!(stale_dirs(&entries, &ids(&["a", "c"])), vec!["b".to_string()]);
}

#[test]
fn reconcile_leaves_files_alone() {
    let entries = vec![file("notes.txt"), dir("gone"), file("gone2"), dir("kept")];
    assert_eq!(stale_dirs(&entries, &ids(&["kept"])), vec!["gone".to_string()]);
}

#[test]
fn reconcile_with_nothing_known_removes_every_directory() {
    let entries = vec![dir("a"), dir("b")];
    assert_eq!(stale_dirs(&entries, &Vec::new()), vec!["a".to_string(), "b".to_string()]);
    assert!(stale_dirs(&Vec::new(), &ids(&["a"])).is_empty());
}

#[test]
fn reconcile_goes_through_every_root_that_exists() {
    let roots = vec![
        DirListing { root: "/data".to_string(), entries: Some(vec![dir("a"), dir("b"), dir("c")]) },
        DirListing { root: "/missing".to_string(), entries: None },
        DirListing { root: "/cache".to_string(), entries: Some(vec![dir("b"), dir("d"), file("e")]) },
    ];
    let out = clean_app_dirs(&roots, &ids(&["a", "c"]));
    let pairs: Vec<(String, String)> = out.into_iter().map(|d| (d.root, d.name)).collect();
    assert_eq!(
        pairs,
        vec![
            ("/data".to_string(), "b".to_string()),
            ("/cache".to_string(), "b".to_string()),
            ("/cache".to_string(), "d".to_string()),
        ]
    );
}

#[test]
fn finding_the_directory_of_an_app() {
    let entries = vec![file("old"), dir("other")];
    assert!(!has_app_dir(&entries, "old"));
    assert!(has_app_dir(&entries, "other"));
    assert!(!has_app_dir(&Vec::new(), "old"));
}

#[test]
fn migration_copies_where_the_old_directory_exists() {
    let roots = vec![
        DirListing { root: "/data".to_string(), entries: Some(vec![dir("old"), dir("x")]) },
        DirListing { root: "/cache".to_string(), entries: Some(vec![file("old")]) },
        DirListing { root: "/gone".to_string(), entries: None },
    ];
    let jobs = copy_app_dir(&roots, "old", "abcdefghij");
    assert_eq!(jobs.len(), 1);
    assert_eq!(jobs[0].root, "/data");
    assert_eq!(jobs[0].from, "old");
    assert_eq!(jobs[0].to, "abcdefghij");
}
