use spyn::manifest::Manifest;
use spyn::reqs::Requirements;

fn requirements_of(names: &[&str]) -> Requirements {
    let mut reqs = Requirements::new();
    for n in names {
        reqs.add(n);
    }
    reqs
}

#[test]
fn new_set_is_empty() {
    let reqs = Requirements::new();
    assert!(reqs.is_empty());
    assert_eq!(reqs.len(), 0);
    assert!(reqs.names().is_empty());
    assert!(!reqs.contains("x"));
}

#[test]
fn add_is_idempotent() {
    let mut reqs = Requirements::new();
    reqs.add("requests");
    reqs.add("requests");
    assert_eq!(reqs.len(), 1);
    assert!(reqs.contains("requests"));
    assert_eq!(reqs.names(), vec!["requests"]);
}

#[test]
fn empty_name_is_never_a_member() {
    let mut reqs = Requirements::new();
    reqs.add("");
    assert!(reqs.is_empty());
    reqs.extend(&vec!["".to_string(), "a".to_string(), "".to_string()]);
    assert_eq!(reqs.names(), vec!["a"]);
    assert!(!reqs.contains(""));
}

#[test]
fn membership_is_case_sensitive() {
    let reqs = requirements_of(&["Flask", "flask"]);
    assert_eq!(reqs.len(), 2);
    assert!(reqs.contains("Flask"));
    assert!(reqs.contains("flask"));
    assert!(!reqs.contains("FLASK"));
}

#[test]
fn names_are_not_trimmed() {
    let reqs = requirements_of(&[" a", "a", "a "]);
    assert_eq!(reqs.len(), 3);
}

#[test]
fn names_come_in_ascending_byte_order() {
    let reqs = requirements_of(&["b", "a", "B", "ab", "a0", "\u{e9}", "z", "aa"]);
    assert_eq!(
        reqs.names(),
        vec!["B", "a", "a0", "aa", "ab", "b", "z", "\u{e9}"]
    );
}

#[test]
fn insertion_order_does_not_matter() {
    let one = requirements_of(&["numpy", "requests", "flask"]);
    let two = requirements_of(&["flask", "numpy", "requests", "numpy"]);
    assert_eq!(one.names(), two.names());
    assert_eq!(one.len(), two.len());
}

#[test]
fn extend_unites() {
    let mut reqs = requirements_of(&["b"]);
    reqs.extend(&vec!["c".to_string(), "a".to_string(), "b".to_string()]);
    assert_eq!(reqs.names(), vec!["a", "b", "c"]);
}

#[test]
fn parse_and_append_unites() {
    let mut reqs = requirements_of(&["b"]);
    reqs.parse_and_append(&vec![
        "import a # fades".to_string(),
        "import b # fades".to_string(),
        "import c".to_string(),
    ]);
    assert_eq!(reqs.names(), vec!["a", "b"]);
}

#[test]
fn empty_set_has_no_manifest() {
    assert!(Requirements::new().write_in("/tmp/x").is_none());
}

#[test]
fn manifest_has_one_line_for_each_member() {
    let reqs = requirements_of(&["requests", "numpy", "requests", "flask"]);
    let Manifest { path, contents } = reqs.write_in("/cache/tmp/build").unwrap();
    assert_eq!(path, "/cache/tmp/build/requirements.txt");
    assert_eq!(contents, "flask\nnumpy\nrequests\n");
    let lines: Vec<&str> = contents.lines().collect();
    assert_eq!(lines.len(), reqs.len());
    for name in reqs.names() {
        assert_eq!(lines.iter().filter(|l| **l == name).count(), 1);
    }
}

#[test]
fn manifest_of_one_member() {
    let file = requirements_of(&["x"]).write_in("d").unwrap();
    assert_eq!(file.path, "d/requirements.txt");
    assert_eq!(file.contents, "x\n");
}
