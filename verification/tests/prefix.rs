use envy::{prefixed, Error, FieldDescriptor, Record, Scalar, ScalarKind, Shape, Value};
use std::collections::HashMap;

fn pairs(items: &[(&str, &str)]) -> Vec<(String, String)> {
    items.iter().map(|(k, v)| (k.to_string(), v.to_string())).collect()
}

#[test]
fn prefixed_strips_prefixes() {
    let mut expected = HashMap::new();
    expected.insert("foo".to_string(), "bar".to_string());
    let source = prefixed("PRE_").source_map(&vec![("PRE_FOO".to_string(), "bar".to_string())]);
    let actual: HashMap<String, String> = source.to_pairs().into_iter().collect();
    assert_eq!(actual, expected);
}

#[test]
fn filter_keeps_only_prefixed_keys_and_strips_them() {
    let kept = prefixed("APP_").filter(&pairs(&[("APP_FOO", "bar"), ("OTHER", "x")]));
    assert_eq!(kept, pairs(&[("FOO", "bar")]));
}

#[test]
fn filter_keeps_order_and_values() {
    let data = pairs(&[("APP_B", "APP_2"), ("X", "0"), ("APP_A", " 1 "), ("app_c", "3"), ("APP_", "4")]);
    assert_eq!(
        prefixed("APP_").filter(&data),
        pairs(&[("B", "APP_2"), ("A", " 1 "), ("", "4")])
    );
}

#[test]
fn filter_of_nothing_is_nothing() {
    assert_eq!(prefixed("APP_").filter(&Vec::new()), Vec::new());
    assert_eq!(prefixed("APP_").filter(&pairs(&[("FOO", "1")])), Vec::new());
}

#[test]
fn empty_prefix_keeps_everything() {
    let data = pairs(&[("FOO", "1"), ("", "2")]);
    assert_eq!(prefixed("").filter(&data), data);
}

#[test]
fn filter_removes_the_prefix_once() {
    assert_eq!(
        prefixed("APP_").filter(&pairs(&[("APP_APP_FOO", "1")])),
        pairs(&[("APP_FOO", "1")])
    );
    let source = prefixed("APP_").source_map(&pairs(&[("APP_APP_FOO", "bar")]));
    assert_eq!(source.to_pairs(), pairs(&[("app_foo", "bar")]));
}

#[test]
fn key_that_repeats_the_prefix_fills_the_field_named_after_the_rest() {
    let fields = vec![FieldDescriptor::new("app_foo", Shape::Scalar(ScalarKind::Str))];
    assert_eq!(
        prefixed("APP_").from_iter(&fields, pairs(&[("APP_APP_FOO", "bar")])),
        Ok(Record {
            entries: vec![("app_foo".to_string(), Value::Scalar(Scalar::Str("bar".to_string())))]
        })
    );
    let fields = vec![FieldDescriptor::new("foo", Shape::Scalar(ScalarKind::Str))];
    assert_eq!(
        prefixed("APP_").from_iter(&fields, pairs(&[("APP_APP_FOO", "bar")])),
        Err(Error::MissingValue("foo".into()))
    );
}

#[test]
fn prefix_is_kept() {
    assert_eq!(prefixed("APP_").prefix(), "APP_");
}
