use transfiles::attributes::{get_attributes, Attributes};
use transfiles::error::ParseError;

#[test]
fn attributes_are_read_with_their_values_unescaped() {
    let attributes = get_attributes(" id=\"1\" name='a &amp; b'  xml:lang = \"EN\"").unwrap();
    assert_eq!(attributes.get("id"), Some(&"1".to_string()));
    assert_eq!(attributes.get("name"), Some(&"a & b".to_string()));
    assert_eq!(attributes.get("xml:lang"), Some(&"EN".to_string()));
    assert_eq!(attributes.get("missing"), None);
    assert_eq!(attributes.pairs().len(), 3);
}

#[test]
fn no_attribute_source_gives_no_attributes() {
    let attributes = get_attributes("").unwrap();
    assert_eq!(attributes, Attributes::new());
    assert_eq!(attributes.get("id"), None);
}

#[test]
fn a_value_that_cannot_be_unescaped_is_empty() {
    let attributes = get_attributes(" id=\"&bogus;\"").unwrap();
    assert_eq!(attributes.get("id"), Some(&"".to_string()));
}

#[test]
fn a_value_without_quotes_is_broken() {
    assert_eq!(get_attributes(" id=1"), Err(ParseError::BrokenAttribute));
}

#[test]
fn a_name_without_a_value_is_broken() {
    assert_eq!(get_attributes(" a=\"1\" checked"), Err(ParseError::BrokenAttribute));
}

#[test]
fn a_name_given_twice_is_broken() {
    assert_eq!(get_attributes(" a=\"1\" a=\"2\""), Err(ParseError::BrokenAttribute));
}

#[test]
fn insert_sets_and_replaces() {
    let mut attributes = Attributes::new();
    attributes.insert("id".to_string(), "1".to_string());
    attributes.insert("ctype".to_string(), "bold".to_string());
    attributes.insert("id".to_string(), "2".to_string());
    assert_eq!(attributes.get("id"), Some(&"2".to_string()));
    assert_eq!(attributes.get("ctype"), Some(&"bold".to_string()));
    assert_eq!(attributes.get_or("id", "none"), "2");
    assert_eq!(attributes.get_or("rid", "none"), "none");
    assert_eq!(
        attributes.pairs(),
        &vec![("id".to_string(), "2".to_string()), ("ctype".to_string(), "bold".to_string())]
    );
    assert_eq!(attributes.clone(), attributes);
}

#[test]
fn equality_looks_at_the_mapping_alone() {
    let mut one = Attributes::new();
    one.insert("id".to_string(), "1".to_string());
    one.insert("ctype".to_string(), "bold".to_string());
    let mut other = Attributes::new();
    other.insert("ctype".to_string(), "italic".to_string());
    other.insert("id".to_string(), "1".to_string());
    assert_ne!(one, other);
    assert!(!one.covers_all_of(&other));
    other.insert("ctype".to_string(), "bold".to_string());
    assert_eq!(one, other);
    other.insert("rid".to_string(), "".to_string());
    assert_ne!(one, other);
    assert_ne!(other, one);
    assert!(other.covers_all_of(&one));
    assert!(!one.covers_all_of(&other));
    assert!(one.covers_all_of(&Attributes::new()));
    assert_eq!(Attributes::new(), Attributes::new());
}
