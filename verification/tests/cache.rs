use datedir::dirtree::DirTree;

fn segs(parts: &[&str]) -> Vec<String> {
    parts.iter().map(|s| s.to_string()).collect()
}

#[test]
fn mkdir_all() {
    let mut dt = DirTree::new();

    let first = segs(&["foo", "bar", "baz"]);
    let missing = dt.mkdir_all(&first);
    assert_eq!(
        missing,
        vec![segs(&["foo"]), segs(&["foo", "bar"]), segs(&["foo", "bar", "baz"])]
    );
    for p in &missing {
        dt.record_created(p);
    }

    let second = segs(&["foo", "baz", "fuz"]);
    let missing2 = dt.mkdir_all(&second);
    assert_eq!(missing2, vec![segs(&["foo", "baz"]), segs(&["foo", "baz", "fuz"])]);
    for p in &missing2 {
        dt.record_created(p);
    }

    assert!(dt.contains_path(&segs(&["foo", "bar", "baz"])));
    assert!(dt.contains_path(&segs(&["foo", "baz", "fuz"])));
    assert!(!dt.contains_path(&segs(&["foo", "fuz"])));
}

#[test]
fn ensure_created_twice_creates_once() {
    let mut dt = DirTree::new();
    let path = segs(&["2023", "07", "04"]);

    let missing = dt.mkdir_all(&path);
    assert_eq!(missing.len(), 3);
    for p in &missing {
        dt.record_created(p);
    }

    let missing2 = dt.mkdir_all(&path);
    assert!(missing2.is_empty());
}

#[test]
fn shared_ancestor_created_once() {
    let mut dt = DirTree::new();
    let p1 = segs(&["2023", "07", "04"]);
    let p2 = segs(&["2023", "07", "05"]);

    let m1 = dt.mkdir_all(&p1);
    for p in &m1 {
        dt.record_created(p);
    }
    let m2 = dt.mkdir_all(&p2);
    for p in &m2 {
        dt.record_created(p);
    }

    assert_eq!(m1, vec![segs(&["2023"]), segs(&["2023", "07"]), segs(&["2023", "07", "04"])]);
    assert_eq!(m2, vec![segs(&["2023", "07", "05"])]);
    for p in &m1 {
        assert!(!m2.contains(p));
    }
    assert!(dt.contains_path(&segs(&["2023"])));
    assert!(dt.contains_path(&segs(&["2023", "07"])));
    assert!(dt.contains_path(&segs(&["2023", "07", "04"])));
    assert!(dt.contains_path(&segs(&["2023", "07", "05"])));
}

#[test]
fn empty_path_needs_nothing() {
    let dt = DirTree::new();
    let none: Vec<String> = Vec::new();
    assert!(dt.mkdir_all(&none).is_empty());
}

#[test]
fn failed_creation_is_not_recorded() {
    let mut dt = DirTree::new();
    let path = segs(&["2024", "01", "31"]);
    let missing = dt.mkdir_all(&path);
    // the caller records only the levels whose creation succeeded
    dt.record_created(&missing[0]);
    assert!(dt.contains_path(&segs(&["2024"])));
    assert!(!dt.contains_path(&segs(&["2024", "01"])));
    // a later request asks again for the levels never recorded
    let again = dt.mkdir_all(&path);
    assert_eq!(again, vec![segs(&["2024", "01"]), segs(&["2024", "01", "31"])]);
}
