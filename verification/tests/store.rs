use image_renamer::store::{rendered, Entry, RevertMapping};

fn entry(renamed: &str, original: &str) -> Entry {
    Entry { renamed: renamed.to_string(), original: original.to_string() }
}

#[test]
fn empty_mapping_has_no_entries() {
    let mapping = RevertMapping::new();
    assert!(mapping.is_empty());
    assert_eq!(mapping.len(), 0);
    assert!(mapping.keys().is_empty());
    assert_eq!(mapping.lookup("a.jpg"), None);
    assert!(!mapping.contains("a.jpg"));
}

#[test]
fn insert_records_the_original_path() {
    let mut mapping = RevertMapping::new();
    let previous = mapping.insert("new.jpg".to_string(), "old.jpg".to_string());
    assert_eq!(previous, None);
    assert_eq!(mapping.len(), 1);
    assert!(!mapping.is_empty());
    assert!(mapping.contains("new.jpg"));
    assert_eq!(mapping.lookup("new.jpg"), Some(&"old.jpg".to_string()));
    assert_eq!(mapping.lookup("old.jpg"), None);
}

#[test]
fn insert_replaces_an_entry_with_the_same_key() {
    let mut mapping = RevertMapping::new();
    mapping.insert("new.jpg".to_string(), "first.jpg".to_string());
    let previous = mapping.insert("new.jpg".to_string(), "second.jpg".to_string());
    assert_eq!(previous, Some("first.jpg".to_string()));
    assert_eq!(mapping.len(), 1);
    assert_eq!(mapping.lookup("new.jpg"), Some(&"second.jpg".to_string()));
}

#[test]
fn keys_come_out_in_byte_order() {
    let mut mapping = RevertMapping::new();
    for key in ["b", "a", "ab", "B", "", "é", "z", "a/b", "a b"] {
        mapping.insert(key.to_string(), format!("orig-{key}"));
    }
    let mut expected: Vec<String> =
        ["b", "a", "ab", "B", "", "é", "z", "a/b", "a b"].iter().map(|k| k.to_string()).collect();
    expected.sort();
    assert_eq!(mapping.keys(), expected);
    assert_eq!(
        mapping.keys(),
        vec!["", "B", "a", "a b", "a/b", "ab", "b", "z", "é"]
            .into_iter()
            .map(String::from)
            .collect::<Vec<String>>()
    );
    for key in expected {
        assert_eq!(mapping.lookup(&key), Some(&format!("orig-{key}")));
    }
}

#[test]
fn keys_stay_distinct_after_many_operations() {
    let mut mapping = RevertMapping::new();
    let names = ["c", "a", "b", "a", "c", "d", "b", "a"];
    for (i, name) in names.iter().enumerate() {
        mapping.insert(name.to_string(), format!("o{i}"));
    }
    mapping.remove("d");
    mapping.insert("d".to_string(), "again".to_string());
    let keys = mapping.keys();
    assert_eq!(keys, vec!["a".to_string(), "b".to_string(), "c".to_string(), "d".to_string()]);
    for i in 1..keys.len() {
        assert!(keys[i - 1] < keys[i]);
    }
    assert_eq!(mapping.len(), 4);
    assert_eq!(mapping.lookup("a"), Some(&"o7".to_string()));
    assert_eq!(mapping.lookup("b"), Some(&"o6".to_string()));
    assert_eq!(mapping.lookup("c"), Some(&"o4".to_string()));
    assert_eq!(mapping.lookup("d"), Some(&"again".to_string()));
}

#[test]
fn remove_forgets_only_the_given_key() {
    let mut mapping = RevertMapping::new();
    mapping.insert("a".to_string(), "1".to_string());
    mapping.insert("b".to_string(), "2".to_string());
    mapping.insert("c".to_string(), "3".to_string());
    assert_eq!(mapping.remove("b"), Some("2".to_string()));
    assert_eq!(mapping.remove("b"), None);
    assert_eq!(mapping.remove("zzz"), None);
    assert_eq!(mapping.keys(), vec!["a".to_string(), "c".to_string()]);
    assert_eq!(mapping.lookup("a"), Some(&"1".to_string()));
    assert_eq!(mapping.lookup("c"), Some(&"3".to_string()));
    assert_eq!(mapping.remove("a"), Some("1".to_string()));
    assert_eq!(mapping.remove("c"), Some("3".to_string()));
    assert!(mapping.is_empty());
}

#[test]
fn from_entries_keeps_the_later_of_two_equal_keys() {
    let entries = vec![entry("b", "1"), entry("a", "2"), entry("b", "3")];
    let mapping = RevertMapping::from_entries(&entries);
    assert_eq!(mapping.keys(), vec!["a".to_string(), "b".to_string()]);
    assert_eq!(mapping.lookup("a"), Some(&"2".to_string()));
    assert_eq!(mapping.lookup("b"), Some(&"3".to_string()));
}

#[test]
fn load_without_a_document_is_empty() {
    let mapping = RevertMapping::load(None);
    assert!(mapping.is_empty());
    assert_eq!(mapping.render().ok(), Some("{}".to_string()));
}

#[test]
fn load_reads_a_json_object() {
    let mapping = RevertMapping::load(Some(
        "{\n  \"photos/new.jpg\": \"photos/old.jpg\",\n  \"a.png\": \"b.png\"\n}",
    ));
    assert_eq!(mapping.len(), 2);
    assert_eq!(mapping.keys(), vec!["a.png".to_string(), "photos/new.jpg".to_string()]);
    assert_eq!(mapping.lookup("photos/new.jpg"), Some(&"photos/old.jpg".to_string()));
    assert_eq!(mapping.lookup("a.png"), Some(&"b.png".to_string()));
}

#[test]
fn load_treats_a_malformed_document_as_empty() {
    assert!(RevertMapping::load(Some("")).is_empty());
    assert!(RevertMapping::load(Some("{")).is_empty());
    assert!(RevertMapping::load(Some("not json")).is_empty());
    assert!(RevertMapping::load(Some("[\"a\", \"b\"]")).is_empty());
    assert!(RevertMapping::load(Some("{\"a\": {\"b\": \"c\"}}")).is_empty());
}

#[test]
fn load_of_an_empty_object_is_empty() {
    assert!(RevertMapping::load(Some("{}")).is_empty());
}

#[test]
fn render_is_pretty_json_in_key_order() {
    let mut mapping = RevertMapping::new();
    mapping.insert("b".to_string(), "y".to_string());
    mapping.insert("a".to_string(), "x".to_string());
    let document = mapping.render().ok();
    assert_eq!(document, Some("{\n  \"a\": \"x\",\n  \"b\": \"y\"\n}".to_string()));
}

#[test]
fn render_escapes_what_json_requires() {
    let mut mapping = RevertMapping::new();
    mapping.insert("a \"quoted\" name".to_string(), "back\\slash\n".to_string());
    let document = mapping.render().ok();
    assert_eq!(
        document,
        Some("{\n  \"a \\\"quoted\\\" name\": \"back\\\\slash\\n\"\n}".to_string())
    );
}

#[test]
fn render_then_load_gives_the_same_mapping() {
    let mut mapping = RevertMapping::new();
    mapping.insert("photos/2023-06-01-Sunset.jpg".to_string(), "photos/img1.jpg".to_string());
    mapping.insert("ünï/cödé.png".to_string(), "plain.png".to_string());
    mapping.insert("tab\there".to_string(), "quote\"there".to_string());
    let document = mapping.render().ok().unwrap();
    let again = RevertMapping::load(Some(&document));
    assert_eq!(again.keys(), mapping.keys());
    for key in mapping.keys() {
        assert_eq!(again.lookup(&key), mapping.lookup(&key));
    }
}

#[test]
fn rendered_passes_the_document_on() {
    let outcome = rendered(Ok("{}".to_string()));
    assert_eq!(outcome.ok(), Some("{}".to_string()));
}

#[test]
fn rendered_reports_the_encoder_error() {
    let error = serde_json::from_str::<bool>("nonsense").unwrap_err();
    let text = error.to_string();
    match rendered(Err(error)) {
        Ok(_) => panic!("an error was taken for a document"),
        Err(failure) => assert_eq!(failure.reason, text),
    }
}
