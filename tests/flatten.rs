use simple_i18n::document::{flatten, Node};

fn scalar(s: &str) -> Node {
    Node::Scalar(s.to_string())
}

fn mapping(children: Vec<(&str, Node)>) -> Node {
    Node::Mapping(children.into_iter().map(|(k, v)| (k.to_string(), v)).collect())
}

#[test]
fn flatten_nested_round_trip() {
    let doc = mapping(vec![("a", mapping(vec![("b", scalar("x")), ("c", scalar("y"))]))]);
    let table = flatten(&Some(doc));
    assert_eq!(table.get("a.b").map(|s| s.as_str()), Some("x"));
    assert_eq!(table.get("a.c").map(|s| s.as_str()), Some("y"));
    let mut keys = table.keys();
    keys.sort();
    assert_eq!(keys, vec!["a.b".to_string(), "a.c".to_string()]);
}

#[test]
fn flatten_absent_document_is_empty() {
    let table = flatten(&None);
    assert!(table.keys().is_empty());
    assert_eq!(table.get(""), None);
}

#[test]
fn flatten_empty_mapping_is_empty() {
    let table = flatten(&Some(mapping(vec![])));
    assert!(table.keys().is_empty());
}

#[test]
fn flatten_every_leaf_once_under_its_path() {
    let doc = mapping(vec![
        ("name", scalar("Test")),
        (
            "menu",
            mapping(vec![
                ("file", mapping(vec![("open", scalar("Open")), ("save", scalar("Save"))])),
                ("quit", scalar("Quit")),
            ]),
        ),
    ]);
    let table = flatten(&Some(doc));
    let mut keys = table.keys();
    keys.sort();
    assert_eq!(
        keys,
        vec![
            "menu.file.open".to_string(),
            "menu.file.save".to_string(),
            "menu.quit".to_string(),
            "name".to_string(),
        ]
    );
    assert_eq!(table.get("menu.file.save").map(|s| s.as_str()), Some("Save"));
    assert_eq!(table.get("menu.file"), None);
    assert_eq!(table.get("menu"), None);
}

#[test]
fn flatten_collision_last_write_wins() {
    let doc = mapping(vec![("a.b", scalar("first")), ("a", mapping(vec![("b", scalar("second"))]))]);
    let table = flatten(&Some(doc));
    assert_eq!(table.get("a.b").map(|s| s.as_str()), Some("second"));
    assert_eq!(table.keys().len(), 1);
}

#[test]
fn flatten_scalar_root_has_empty_key() {
    let table = flatten(&Some(scalar("alone")));
    assert_eq!(table.get("").map(|s| s.as_str()), Some("alone"));
}

#[test]
fn flatten_keeps_non_ascii_values() {
    let doc = mapping(vec![("name", scalar("Тест"))]);
    let table = flatten(&Some(doc));
    assert_eq!(table.get("name").map(|s| s.as_str()), Some("Тест"));
}
