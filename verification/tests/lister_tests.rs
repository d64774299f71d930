use helm_cleaner::lister::{label_value, list_releases, str_eq, Label, MetadataObject};
use helm_cleaner::order::str_lt;

fn obj(labels: &[(&str, &str)]) -> MetadataObject {
    MetadataObject {
        labels: labels
            .iter()
            .map(|(k, v)| Label { key: k.to_string(), value: v.to_string() })
            .collect(),
    }
}

#[test]
fn duplicate_names_listed_once() {
    // Namespace `demo` holds releases app-a, app-b and a duplicate app-a.
    let objects = vec![
        obj(&[("owner", "helm"), ("name", "app-a")]),
        obj(&[("owner", "helm"), ("name", "app-b")]),
        obj(&[("owner", "helm"), ("name", "app-a")]),
    ];
    let listed = list_releases(&objects);
    assert_eq!(listed, vec!["app-a".to_string(), "app-b".to_string()]);
}

#[test]
fn listing_is_sorted_regardless_of_input_order() {
    let objects = vec![
        obj(&[("name", "zeta")]),
        obj(&[("name", "alpha")]),
        obj(&[("name", "mid")]),
        obj(&[("name", "alpha")]),
    ];
    let listed = list_releases(&objects);
    assert_eq!(
        listed,
        vec!["alpha".to_string(), "mid".to_string(), "zeta".to_string()]
    );
}

#[test]
fn objects_without_name_label_contribute_nothing() {
    let objects = vec![
        obj(&[("owner", "helm")]),
        obj(&[("owner", "helm"), ("name", "app-a")]),
        obj(&[]),
    ];
    let listed = list_releases(&objects);
    assert_eq!(listed, vec!["app-a".to_string()]);
}

#[test]
fn all_objects_unnamed_gives_empty_listing() {
    let objects = vec![obj(&[("owner", "helm")]), obj(&[("other", "x")])];
    let listed = list_releases(&objects);
    assert!(listed.is_empty());
}

#[test]
fn empty_object_set_gives_empty_listing() {
    let listed = list_releases(&Vec::new());
    assert!(listed.is_empty());
}

#[test]
fn empty_name_label_value_is_listed() {
    // An empty label value is still a recorded name; only a missing label
    // is skipped.
    let objects = vec![obj(&[("name", "")]), obj(&[("name", "app-a")])];
    let listed = list_releases(&objects);
    assert_eq!(listed, vec![String::new(), "app-a".to_string()]);
}

#[test]
fn label_value_finds_first_match() {
    let o = obj(&[("a", "1"), ("name", "first"), ("name", "second")]);
    assert_eq!(label_value(&o.labels, "name"), Some("first".to_string()));
    assert_eq!(label_value(&o.labels, "a"), Some("1".to_string()));
    assert_eq!(label_value(&o.labels, "missing"), None);
}

#[test]
fn str_lt_orders_lexicographically() {
    assert!(str_lt("a", "b"));
    assert!(str_lt("", "a"));
    assert!(str_lt("app", "apple"));
    assert!(str_lt("app-a", "app-b"));
    assert!(!str_lt("b", "a"));
    assert!(!str_lt("same", "same"));
    assert!(!str_lt("apple", "app"));
    assert!(str_lt("Z", "a"));
}

#[test]
fn str_eq_compares_contents() {
    assert!(str_eq("app-a", "app-a"));
    assert!(!str_eq("app-a", "app-b"));
    assert!(str_eq("", ""));
    assert!(!str_eq("", "a"));
}
