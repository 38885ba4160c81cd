use colink::notes::merge::{merge_field, merge_markdown, merge_set, FieldMerge};

fn strings(items: &[&str]) -> Vec<String> {
    items.iter().map(|item| item.to_string()).collect()
}

#[test]
fn merges_disjoint_edits() {
    let ancestor = "line1\nline2\nline3\nline4";
    let local = "local1\nline2\nline3\nline4";
    let cloud = "line1\nline2\nline3\ncloud4";

    let merged = merge_markdown(ancestor, local, cloud).unwrap();
    assert_eq!(merged, "local1\nline2\nline3\ncloud4");
}

#[test]
fn identical_edits_collapse() {
    let merged = merge_markdown("a\nb", "a\nb!", "a\nb!").unwrap();
    assert_eq!(merged, "a\nb!");
}

#[test]
fn overlapping_edits_conflict() {
    let ancestor = "a\nb\nc";
    let local = "a\nlocal\nc";
    let cloud = "a\ncloud\nc";
    assert!(merge_markdown(ancestor, local, cloud).is_none());
}

#[test]
fn different_insertions_at_the_same_position_conflict() {
    assert!(merge_markdown("a", "x\na", "y\na").is_none());
}

#[test]
fn one_sided_change_wins() {
    assert_eq!(merge_markdown("a", "a", "b").unwrap(), "b");
    assert_eq!(merge_markdown("a", "b", "a").unwrap(), "b");
}

#[test]
fn set_merge_union_and_removal() {
    let ancestor = strings(&["a", "b", "c"]);
    let local = strings(&["a", "b", "d"]);
    let cloud = strings(&["a", "c"]);

    let merged = merge_set(&ancestor, &local, &cloud);
    // local removed c (cloud keeps it -> removal wins), local added d,
    // cloud removed b (local keeps it -> removal wins).
    assert_eq!(merged, strings(&["a", "d"]));
}

#[test]
fn set_merge_readdition_wins() {
    let ancestor = strings(&["a"]);
    let local = strings(&["a", "x"]);
    let cloud: Vec<String> = vec![];
    let merged = merge_set(&ancestor, &local, &cloud);
    // The cloud removed "a" while local only kept it: removal wins.
    assert_eq!(merged, strings(&["x"]));

    // Additions from either side are kept.
    let ancestor = strings(&["b"]);
    let local = strings(&["a", "b"]);
    let cloud = strings(&["b"]);
    assert_eq!(merge_set(&ancestor, &local, &cloud), strings(&["a", "b"]));
}

#[test]
fn merge_set_is_symmetric_and_sorted() {
    let ancestor = strings(&["m", "k"]);
    let local = strings(&["z", "m", "k", "b"]);
    let cloud = strings(&["k", "q", "b"]);
    let left = merge_set(&ancestor, &local, &cloud);
    let right = merge_set(&ancestor, &cloud, &local);
    assert_eq!(left, right);
    assert_eq!(left, strings(&["b", "k", "q", "z"]));
}

#[test]
fn merge_field_resolves_one_sided_changes_and_conflicts() {
    assert_eq!(merge_field("a", "a", "b"), FieldMerge::Resolved("b".to_string()));
    assert_eq!(merge_field("a", "b", "a"), FieldMerge::Resolved("b".to_string()));
    assert_eq!(merge_field("a", "c", "c"), FieldMerge::Resolved("c".to_string()));
    let conflict = merge_field("a", "b", "c");
    assert!(!conflict.is_resolved());
    assert_eq!(
        conflict,
        FieldMerge::Conflict { local: "b".to_string(), cloud: "c".to_string() }
    );
}

#[test]
fn merge_keeps_trailing_newline_and_crlf_lines() {
    let merged = merge_markdown("a\nb\nc\n", "A\nb\nc\n", "a\nb\nC\n").unwrap();
    assert_eq!(merged, "A\nb\nC\n");
    let merged = merge_markdown("a\r\nb\r\nc", "x\r\nb\r\nc", "a\r\nb\r\ny").unwrap();
    assert_eq!(merged, "x\nb\ny");
}
