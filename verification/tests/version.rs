use prelauncher::error::LauncherError;
use prelauncher::version::{find_inherited_url, CatalogEntry, Field, FieldValue, VersionDescriptor};

fn scalar(name: &str, value: &str) -> Field {
    Field { name: name.to_string(), value: FieldValue::Scalar(value.to_string()) }
}

fn list(name: &str, items: &[&str]) -> Field {
    Field {
        name: name.to_string(),
        value: FieldValue::List(items.iter().map(|item| item.to_string()).collect()),
    }
}

fn descriptor(id: &str, inherits_from: Option<&str>, fields: Vec<Field>) -> VersionDescriptor {
    VersionDescriptor {
        id: id.to_string(),
        inherits_from: inherits_from.map(|parent| parent.to_string()),
        fields,
    }
}

fn catalog() -> Vec<CatalogEntry> {
    vec![
        CatalogEntry { id: "1.19.2".to_string(), url: "https://example.org/1.19.2.json".to_string() },
        CatalogEntry { id: "1.18".to_string(), url: "https://example.org/1.18.json".to_string() },
        CatalogEntry { id: "1.19.2".to_string(), url: "https://example.org/again.json".to_string() },
    ]
}

#[test]
fn child_wins_and_parent_fills() {
    let mut child = descriptor("C", Some("P"), vec![scalar("a", "1")]);
    let parent = descriptor("P", None, vec![scalar("a", "2"), scalar("b", "3")]);
    assert_eq!(child.merge(parent), Ok(()));
    assert_eq!(child, descriptor("C", None, vec![scalar("a", "1"), scalar("b", "3")]));
}

#[test]
fn lists_are_joined_child_first() {
    let mut child = descriptor(
        "C",
        Some("P"),
        vec![list("libraries", &["fabric-loader"]), scalar("mainClass", "Knot")],
    );
    let parent = descriptor(
        "P",
        None,
        vec![
            scalar("mainClass", "Main"),
            list("libraries", &["lwjgl", "gson"]),
            list("arguments", &["--demo"]),
        ],
    );
    assert_eq!(child.merge(parent), Ok(()));
    assert_eq!(
        child,
        descriptor(
            "C",
            None,
            vec![
                list("libraries", &["fabric-loader", "lwjgl", "gson"]),
                scalar("mainClass", "Knot"),
                list("arguments", &["--demo"]),
            ]
        )
    );
}

#[test]
fn child_value_stands_where_the_kinds_differ() {
    let mut child = descriptor("C", Some("P"), vec![scalar("x", "text"), list("y", &["1"])]);
    let parent = descriptor("P", None, vec![list("x", &["a"]), scalar("y", "b")]);
    assert_eq!(child.merge(parent), Ok(()));
    assert_eq!(child, descriptor("C", None, vec![scalar("x", "text"), list("y", &["1"])]));
}

#[test]
fn merge_with_an_empty_parent_only_resolves() {
    let mut child = descriptor("C", Some("P"), vec![scalar("a", "1")]);
    assert_eq!(child.merge(descriptor("P", None, Vec::new())), Ok(()));
    assert_eq!(child, descriptor("C", None, vec![scalar("a", "1")]));
}

#[test]
fn merge_into_an_empty_child_takes_the_parent() {
    let mut child = descriptor("C", Some("P"), Vec::new());
    let parent = descriptor("P", None, vec![scalar("a", "2"), list("l", &["x"])]);
    assert_eq!(child.merge(parent), Ok(()));
    assert_eq!(child, descriptor("C", None, vec![scalar("a", "2"), list("l", &["x"])]));
}

#[test]
fn first_field_of_a_name_counts() {
    let mut child = descriptor("C", Some("P"), vec![scalar("b", "own")]);
    let parent = descriptor("P", None, vec![scalar("a", "first"), scalar("a", "second")]);
    assert_eq!(child.merge(parent), Ok(()));
    assert_eq!(child.field("a"), Some(&FieldValue::Scalar("first".to_string())));
    assert_eq!(child.field("b"), Some(&FieldValue::Scalar("own".to_string())));
    assert_eq!(child.field("c"), None);
}

#[test]
fn parent_with_a_parent_is_refused() {
    let mut child = descriptor("C", Some("P"), vec![scalar("a", "1")]);
    let parent = descriptor("P", Some("G"), vec![scalar("b", "3")]);
    assert_eq!(
        child.merge(parent),
        Err(LauncherError::InvalidDescriptor(
            "inherited version profile P inherits from another profile".to_string()
        ))
    );
    assert_eq!(child, descriptor("C", Some("P"), vec![scalar("a", "1")]));
}

#[test]
fn merged_value_of_two_lists() {
    let own = FieldValue::List(vec!["a".to_string()]);
    let inherited = FieldValue::List(vec!["b".to_string(), "c".to_string()]);
    assert_eq!(
        own.merged_with(Some(&inherited)),
        FieldValue::List(vec!["a".to_string(), "b".to_string(), "c".to_string()])
    );
    assert_eq!(own.merged_with(None), own);
    assert_eq!(own.duplicate(), own);
}

#[test]
fn parent_url_is_that_of_the_first_entry() {
    assert_eq!(
        find_inherited_url(&catalog(), "1.19.2"),
        Ok("https://example.org/1.19.2.json".to_string())
    );
    assert_eq!(find_inherited_url(&catalog(), "1.18"), Ok("https://example.org/1.18.json".to_string()));
}

#[test]
fn unknown_parent_is_an_invalid_descriptor() {
    assert_eq!(
        find_inherited_url(&catalog(), "1.7.10"),
        Err(LauncherError::InvalidDescriptor(
            "unable to find inherited version profile 1.7.10".to_string()
        ))
    );
    assert_eq!(
        find_inherited_url(&Vec::new(), "P"),
        Err(LauncherError::InvalidDescriptor("unable to find inherited version profile P".to_string()))
    );
}
