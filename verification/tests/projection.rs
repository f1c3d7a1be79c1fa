use escritoire::browse::{get_files_as_list_items_with_paths, should_show_path, ProjectedRow};
use escritoire::expansion::ExpansionState;
use escritoire::paths::{Entry, NotePath};

fn path(parts: &[&str]) -> NotePath {
    NotePath { parts: parts.iter().map(|s| s.to_string()).collect() }
}

fn file(parts: &[&str]) -> Entry {
    Entry { path: path(parts), is_dir: false }
}

fn dir(parts: &[&str]) -> Entry {
    Entry { path: path(parts), is_dir: true }
}

fn texts(rows: &[ProjectedRow]) -> Vec<String> {
    rows.iter().map(|r| r.display_text.clone()).collect()
}

#[test]
fn scenario_root_file_and_collapsed_folder() {
    let entries = vec![file(&["a.md"]), dir(&["sub"]), file(&["sub", "b.md"])];
    let expanded = ExpansionState::new();
    let (rows, paths) = get_files_as_list_items_with_paths(&entries, &expanded);
    assert_eq!(texts(&rows), vec!["Root", "- a.md", "> sub"]);
    assert!(paths[0].is_none());
    assert_eq!(paths[1].as_ref().unwrap().path, path(&["a.md"]));
    assert_eq!(paths[2].as_ref().unwrap().path, path(&["sub"]));
}

#[test]
fn scenario_expanding_reveals_children() {
    let entries = vec![file(&["a.md"]), dir(&["sub"]), file(&["sub", "b.md"])];
    let mut expanded = ExpansionState::new();
    expanded.toggle(&path(&["sub"]));
    let (rows, paths) = get_files_as_list_items_with_paths(&entries, &expanded);
    assert_eq!(texts(&rows), vec!["Root", "- a.md", "v sub", "  - b.md"]);
    assert_eq!(paths[3].as_ref().unwrap().path, path(&["sub", "b.md"]));
    assert!(!paths[3].as_ref().unwrap().is_dir);
}

#[test]
fn collapsed_ancestor_hides_deep_descendants() {
    // outer is expanded but inner is not: inner's own row shows,
    // inner's child stays hidden.
    let entries = vec![
        dir(&["outer"]),
        dir(&["outer", "inner"]),
        file(&["outer", "inner", "deep.md"]),
    ];
    let mut expanded = ExpansionState::new();
    expanded.toggle(&path(&["outer"]));
    let (rows, _paths) = get_files_as_list_items_with_paths(&entries, &expanded);
    assert_eq!(texts(&rows), vec!["Root", "v outer", "  > inner"]);
}

#[test]
fn visibility_invariant_on_nested_sample() {
    let entries = vec![
        dir(&["outer"]),
        dir(&["outer", "inner"]),
        file(&["outer", "inner", "deep.md"]),
        file(&["outer", "note.md"]),
        file(&["plain.md"]),
    ];
    let mut expanded = ExpansionState::new();
    expanded.toggle(&path(&["outer"]));
    expanded.toggle(&path(&["outer", "inner"]));
    let (_rows, paths) = get_files_as_list_items_with_paths(&entries, &expanded);
    let shown: Vec<&NotePath> = paths.iter().flatten().map(|e| &e.path).collect();
    for e in &entries {
        let visible = should_show_path(&e.path, &expanded);
        assert_eq!(shown.contains(&&e.path), visible);
        assert!(visible, "all ancestors expanded here, so everything shows");
    }
}

#[test]
fn should_show_path_requires_every_ancestor() {
    let mut expanded = ExpansionState::new();
    let deep = path(&["a", "b", "c.md"]);
    assert!(!should_show_path(&deep, &expanded));
    expanded.toggle(&path(&["a"]));
    assert!(!should_show_path(&deep, &expanded));
    expanded.toggle(&path(&["a", "b"]));
    assert!(should_show_path(&deep, &expanded));
    // direct children of the root are always visible
    assert!(should_show_path(&path(&["top.md"]), &ExpansionState::new()));
    // the root itself is never a visible row
    assert!(!should_show_path(&path(&[]), &expanded));
}

#[test]
fn rows_and_paths_stay_index_aligned() {
    let entries = vec![dir(&["sub"]), file(&["sub", "b.md"]), file(&["a.md"])];
    let mut expanded = ExpansionState::new();
    expanded.toggle(&path(&["sub"]));
    let (rows, paths) = get_files_as_list_items_with_paths(&entries, &expanded);
    assert_eq!(rows.len(), paths.len());
    for (i, p) in paths.iter().enumerate() {
        assert_eq!(p.is_none(), i == 0);
    }
}

#[test]
fn projection_is_deterministic() {
    let entries = vec![
        file(&["zeta.md"]),
        dir(&["sub"]),
        file(&["sub", "y.md"]),
        file(&["sub", "x.md"]),
        file(&["alpha.md"]),
    ];
    let mut expanded = ExpansionState::new();
    expanded.toggle(&path(&["sub"]));
    let (rows1, paths1) = get_files_as_list_items_with_paths(&entries, &expanded);
    let (rows2, paths2) = get_files_as_list_items_with_paths(&entries, &expanded);
    assert_eq!(rows1, rows2);
    assert_eq!(paths1, paths2);
}

#[test]
fn siblings_come_out_sorted_whatever_the_scan_order() {
    let entries = vec![file(&["c.md"]), file(&["a.md"]), file(&["b.md"])];
    let expanded = ExpansionState::new();
    let (rows, _) = get_files_as_list_items_with_paths(&entries, &expanded);
    assert_eq!(texts(&rows), vec!["Root", "- a.md", "- b.md", "- c.md"]);
}

#[test]
fn expanded_directory_children_follow_their_parent() {
    let entries = vec![
        dir(&["a"]),
        file(&["a", "x.md"]),
        dir(&["b"]),
        file(&["b", "y.md"]),
    ];
    let mut expanded = ExpansionState::new();
    expanded.toggle(&path(&["a"]));
    expanded.toggle(&path(&["b"]));
    let (rows, _) = get_files_as_list_items_with_paths(&entries, &expanded);
    assert_eq!(texts(&rows), vec!["Root", "v a", "  - x.md", "v b", "  - y.md"]);
}

#[test]
fn empty_scan_projects_only_the_root_header() {
    let entries: Vec<Entry> = Vec::new();
    let (rows, paths) = get_files_as_list_items_with_paths(&entries, &ExpansionState::new());
    assert_eq!(texts(&rows), vec!["Root"]);
    assert_eq!(paths.len(), 1);
    assert!(paths[0].is_none());
}

#[test]
fn toggle_twice_restores_membership() {
    let mut expanded = ExpansionState::new();
    let p = path(&["sub"]);
    assert!(!expanded.contains(&p));
    expanded.toggle(&p);
    assert!(expanded.contains(&p));
    expanded.toggle(&p);
    assert!(!expanded.contains(&p));
    // and from the expanded side
    expanded.toggle(&p);
    expanded.toggle(&path(&["other"]));
    expanded.toggle(&p);
    expanded.toggle(&p);
    assert!(expanded.contains(&p));
    assert!(expanded.contains(&path(&["other"])));
}
