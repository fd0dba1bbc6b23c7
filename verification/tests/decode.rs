use envy::decode::{decode_field, decode_value, find_variant, MAX_DEPTH};
use envy::sample::{default_kaboom, Foo, Size};
use envy::typing::{record_conforms, schema_is_well_formed, value_conforms};
use envy::{from_iter, prefixed, Error, FieldDescriptor, Record, Scalar, ScalarKind, Shape, SourceMap, Value};

#[derive(Debug, PartialEq)]
pub struct CustomNewType(u32);

#[derive(Debug, PartialEq)]
struct Extended {
    foo: Foo,
    newtype: CustomNewType,
}

fn extended_schema() -> Vec<FieldDescriptor> {
    let mut fields = Foo::schema();
    fields.push(FieldDescriptor::new("newtype", Shape::Scalar(ScalarKind::U32)));
    fields
}

fn extended(record: Record) -> Extended {
    let mut entries = record.entries;
    let newtype = match entries.pop() {
        Some((name, Value::Scalar(Scalar::U32(n)))) if name == "newtype" => CustomNewType(n),
        other => panic!("{:?}", other),
    };
    let foo = Foo::from_record(&Record { entries }).expect("a record of the schema");
    Extended { foo, newtype }
}

fn pairs(items: &[(&str, &str)]) -> Vec<(String, String)> {
    items.iter().map(|(k, v)| (k.to_string(), v.to_string())).collect()
}

fn strings(items: &[&str]) -> Vec<String> {
    items.iter().map(|item| item.to_string()).collect()
}

fn text(value: &str) -> Value {
    Value::Scalar(Scalar::Str(value.to_string()))
}

#[test]
fn lib_deserialize_from_iter() {
    let data = vec![
        (String::from("BAR"), String::from("test")),
        (String::from("BAZ"), String::from("true")),
        (String::from("DOOM"), String::from("1,2,3")),
        (String::from("SIZE"), String::from("small")),
        (String::from("PROVIDED"), String::from("test")),
        (String::from("NEWTYPE"), String::from("42")),
    ];
    match from_iter(&extended_schema(), data) {
        Ok(actual) => assert_eq!(
            extended(actual),
            Extended {
                foo: Foo {
                    bar: String::from("test"),
                    baz: true,
                    zoom: None,
                    doom: vec![1, 2, 3],
                    kaboom: 8080,
                    debug_mode: false,
                    size: Size::Small,
                    provided: Some(String::from("test")),
                },
                newtype: CustomNewType(42)
            }
        ),
        Err(e) => panic!("{:#?}", e),
    }
}

#[test]
fn lib_fails_with_missing_value() {
    let data = vec![
        (String::from("BAR"), String::from("test")),
        (String::from("BAZ"), String::from("true")),
    ];
    match from_iter(&extended_schema(), data) {
        Ok(_) => panic!("expected failure"),
        Err(e) => assert_eq!(e, Error::MissingValue("doom".into())),
    }
}

#[test]
fn lib_fails_with_invalid_type() {
    let data = vec![
        (String::from("BAR"), String::from("test")),
        (String::from("BAZ"), String::from("notabool")),
        (String::from("DOOM"), String::from("1,2,3")),
    ];
    match from_iter(&extended_schema(), data) {
        Ok(_) => panic!("expected failure"),
        Err(e) => assert_eq!(
            e,
            Error::Custom(String::from("provided string was not `true` or `false` while parsing value \'notabool\' provided by BAZ"))
        ),
    }
}

#[test]
fn lib_deserializes_from_prefixed_fieldnames() {
    let data = vec![
        (String::from("APP_BAR"), String::from("test")),
        (String::from("APP_BAZ"), String::from("true")),
        (String::from("APP_DOOM"), String::from("1,2,3")),
        (String::from("APP_SIZE"), String::from("small")),
        (String::from("APP_PROVIDED"), String::from("test")),
        (String::from("APP_NEWTYPE"), String::from("42")),
    ];
    match prefixed("APP_").from_iter(&extended_schema(), data) {
        Ok(actual) => assert_eq!(
            extended(actual),
            Extended {
                foo: Foo {
                    bar: String::from("test"),
                    baz: true,
                    zoom: None,
                    doom: vec![1, 2, 3],
                    kaboom: 8080,
                    debug_mode: false,
                    size: Size::Small,
                    provided: Some(String::from("test")),
                },
                newtype: CustomNewType(42)
            }
        ),
        Err(e) => panic!("{:#?}", e),
    }
}

#[test]
fn decoded_record_holds_one_entry_per_field_in_order() {
    let data = pairs(&[("DOOM", "1,2,3"), ("BAZ", "true"), ("BAR", "test"), ("UNRELATED", "x")]);
    let record = from_iter(&Foo::schema(), data).unwrap();
    assert_eq!(record.len(), 8);
    assert_eq!(
        record,
        Record {
            entries: vec![
                ("bar".to_string(), text("test")),
                ("baz".to_string(), Value::Scalar(Scalar::Bool(true))),
                ("zoom".to_string(), Value::Absent),
                (
                    "doom".to_string(),
                    Value::Sequence(vec![
                        Value::Scalar(Scalar::U64(1)),
                        Value::Scalar(Scalar::U64(2)),
                        Value::Scalar(Scalar::U64(3)),
                    ])
                ),
                ("kaboom".to_string(), Value::Scalar(Scalar::U16(default_kaboom()))),
                ("debug_mode".to_string(), Value::Scalar(Scalar::Bool(false))),
                ("size".to_string(), Value::Variant(1)),
                ("provided".to_string(), Value::Absent),
            ]
        }
    );
}

#[test]
fn required_field_missing_is_named_even_when_others_are_valid() {
    let fields = vec![
        FieldDescriptor::new("first", Shape::Scalar(ScalarKind::U8)),
        FieldDescriptor::new("second", Shape::Scalar(ScalarKind::Bool)),
        FieldDescriptor::new("third", Shape::Scalar(ScalarKind::Str)),
    ];
    let data = pairs(&[("FIRST", "1"), ("THIRD", "x")]);
    assert_eq!(from_iter(&fields, data), Err(Error::MissingValue("second".into())));
}

#[test]
fn first_failing_field_in_schema_order_surfaces() {
    let fields = vec![
        FieldDescriptor::new("first", Shape::Scalar(ScalarKind::U8)),
        FieldDescriptor::new("second", Shape::Scalar(ScalarKind::Bool)),
        FieldDescriptor::new("third", Shape::Scalar(ScalarKind::Str)),
    ];
    // The second field is invalid and the first is missing: the first is reported.
    let data = pairs(&[("SECOND", "notabool"), ("THIRD", "x")]);
    assert_eq!(from_iter(&fields, data), Err(Error::MissingValue("first".into())));
    // The second field is invalid and the third is missing: the second is reported.
    let data = pairs(&[("SECOND", "notabool"), ("FIRST", "1")]);
    assert_eq!(
        from_iter(&fields, data),
        Err(Error::Custom(
            "provided string was not `true` or `false` while parsing value 'notabool' provided by SECOND"
                .into()
        ))
    );
}

#[test]
fn empty_schema_decodes_to_empty_record() {
    let fields: Vec<FieldDescriptor> = Vec::new();
    assert_eq!(from_iter(&fields, pairs(&[("A", "1")])), Ok(Record { entries: vec![] }));
    assert_eq!(from_iter(&fields, Vec::new()), Ok(Record { entries: vec![] }));
}

#[test]
fn default_is_used_when_value_is_absent() {
    let fields = vec![FieldDescriptor::new("port", Shape::Scalar(ScalarKind::U16))
        .with_default(Value::Scalar(Scalar::U16(8080)))];
    assert_eq!(
        from_iter(&fields, Vec::new()),
        Ok(Record { entries: vec![("port".to_string(), Value::Scalar(Scalar::U16(8080)))] })
    );
    assert_eq!(
        from_iter(&fields, pairs(&[("PORT", "81")])),
        Ok(Record { entries: vec![("port".to_string(), Value::Scalar(Scalar::U16(81)))] })
    );
}

#[test]
fn default_does_not_hide_an_invalid_value() {
    let fields = vec![FieldDescriptor::new("port", Shape::Scalar(ScalarKind::U16))
        .with_default(Value::Scalar(Scalar::U16(8080)))];
    let reason = "eighty".parse::<u16>().unwrap_err();
    assert_eq!(
        from_iter(&fields, pairs(&[("PORT", "eighty")])),
        Err(Error::Custom(format!("{} while parsing value 'eighty' provided by PORT", reason)))
    );
}

#[test]
fn default_takes_precedence_over_absence_for_optional_field() {
    let fields = vec![FieldDescriptor::new("zoom", Shape::optional(Shape::Scalar(ScalarKind::U16)))
        .with_default(Value::Present(Box::new(Value::Scalar(Scalar::U16(3)))))];
    assert_eq!(
        from_iter(&fields, Vec::new()),
        Ok(Record {
            entries: vec![(
                "zoom".to_string(),
                Value::Present(Box::new(Value::Scalar(Scalar::U16(3))))
            )]
        })
    );
}

#[test]
fn optional_field_is_absent_or_present() {
    let fields = vec![FieldDescriptor::new("zoom", Shape::optional(Shape::Scalar(ScalarKind::U16)))];
    assert_eq!(
        from_iter(&fields, Vec::new()),
        Ok(Record { entries: vec![("zoom".to_string(), Value::Absent)] })
    );
    assert_eq!(
        from_iter(&fields, pairs(&[("ZOOM", "7")])),
        Ok(Record {
            entries: vec![(
                "zoom".to_string(),
                Value::Present(Box::new(Value::Scalar(Scalar::U16(7))))
            )]
        })
    );
}

#[test]
fn optional_field_with_invalid_value_fails() {
    let fields = vec![FieldDescriptor::new("zoom", Shape::optional(Shape::Scalar(ScalarKind::U16)))];
    let reason = "".parse::<u16>().unwrap_err();
    assert_eq!(
        from_iter(&fields, pairs(&[("ZOOM", "")])),
        Err(Error::Custom(format!("{} while parsing value '' provided by ZOOM", reason)))
    );
}

#[test]
fn sequence_of_integers() {
    let fields = vec![FieldDescriptor::new("doom", Shape::sequence(Shape::Scalar(ScalarKind::U64)))];
    assert_eq!(
        from_iter(&fields, pairs(&[("DOOM", "1,2,3")])),
        Ok(Record {
            entries: vec![(
                "doom".to_string(),
                Value::Sequence(vec![
                    Value::Scalar(Scalar::U64(1)),
                    Value::Scalar(Scalar::U64(2)),
                    Value::Scalar(Scalar::U64(3)),
                ])
            )]
        })
    );
}

#[test]
fn sequence_of_empty_text_is_one_empty_string() {
    let fields = vec![FieldDescriptor::new("names", Shape::sequence(Shape::Scalar(ScalarKind::Str)))];
    assert_eq!(
        from_iter(&fields, pairs(&[("NAMES", "")])),
        Ok(Record { entries: vec![("names".to_string(), Value::Sequence(vec![text("")]))] })
    );
}

#[test]
fn sequence_of_integers_from_empty_text_fails_on_the_empty_element() {
    let fields = vec![FieldDescriptor::new("doom", Shape::sequence(Shape::Scalar(ScalarKind::U64)))];
    let reason = "".parse::<u64>().unwrap_err();
    assert_eq!(
        from_iter(&fields, pairs(&[("DOOM", "")])),
        Err(Error::Custom(format!("{} while parsing value '' provided by DOOM", reason)))
    );
}

#[test]
fn sequence_fails_with_its_first_invalid_element() {
    let fields = vec![FieldDescriptor::new("doom", Shape::sequence(Shape::Scalar(ScalarKind::U8)))];
    let reason = "x".parse::<u8>().unwrap_err();
    assert_eq!(
        from_iter(&fields, pairs(&[("DOOM", "1,x,999,y")])),
        Err(Error::Custom(format!("{} while parsing value 'x' provided by DOOM", reason)))
    );
}

#[test]
fn sequence_of_sequences_splits_each_segment_again() {
    let inner = Shape::sequence(Shape::Scalar(ScalarKind::U8));
    let fields = vec![FieldDescriptor::new("grid", Shape::sequence(inner))];
    assert_eq!(
        from_iter(&fields, pairs(&[("GRID", "1,2")])),
        Ok(Record {
            entries: vec![(
                "grid".to_string(),
                Value::Sequence(vec![
                    Value::Sequence(vec![Value::Scalar(Scalar::U8(1))]),
                    Value::Sequence(vec![Value::Scalar(Scalar::U8(2))]),
                ])
            )]
        })
    );
}

#[test]
fn variant_is_matched_without_regard_to_case() {
    let fields = vec![FieldDescriptor::new("size", Shape::variant(Size::tags()))];
    for raw in ["small", "Small", "SMALL", "sMaLl"] {
        assert_eq!(
            from_iter(&fields, pairs(&[("SIZE", raw)])),
            Ok(Record { entries: vec![("size".to_string(), Value::Variant(0))] }),
            "{:?}",
            raw
        );
    }
    assert_eq!(
        from_iter(&fields, pairs(&[("SIZE", "LARGE")])),
        Ok(Record { entries: vec![("size".to_string(), Value::Variant(2))] })
    );
}

#[test]
fn variant_tags_are_compared_without_regard_to_their_own_case() {
    let tags = strings(&["Small", "MEDIUM", "large"]);
    assert_eq!(find_variant(&tags, "small"), Some(0));
    assert_eq!(find_variant(&tags, "medium"), Some(1));
    assert_eq!(find_variant(&tags, "Large"), Some(2));
    assert_eq!(find_variant(&tags, "huge"), None);
    assert_eq!(find_variant(&tags, ""), None);
    assert_eq!(find_variant(&Vec::new(), "small"), None);
}

#[test]
fn variant_first_matching_tag_wins() {
    let tags = strings(&["a", "B", "b", "A"]);
    assert_eq!(find_variant(&tags, "A"), Some(0));
    assert_eq!(find_variant(&tags, "b"), Some(1));
}

#[test]
fn unknown_variant_fails_with_custom_error_naming_it() {
    let fields = vec![FieldDescriptor::new("size", Shape::variant(Size::tags()))];
    assert_eq!(
        from_iter(&fields, pairs(&[("SIZE", "huge")])),
        Err(Error::Custom("unknown variant while parsing value 'huge' provided by SIZE".into()))
    );
}

#[test]
fn keys_are_compared_without_regard_to_case() {
    let fields = vec![FieldDescriptor::new("Bar", Shape::Scalar(ScalarKind::Str))];
    for key in ["BAR", "bar", "Bar", "bAr"] {
        assert_eq!(
            from_iter(&fields, pairs(&[(key, "x")])),
            Ok(Record { entries: vec![("Bar".to_string(), text("x"))] })
        );
    }
}

#[test]
fn error_names_the_key_as_supplied() {
    let fields = vec![FieldDescriptor::new("baz", Shape::Scalar(ScalarKind::Bool))];
    assert_eq!(
        from_iter(&fields, pairs(&[("Baz", "no")])),
        Err(Error::Custom(
            "provided string was not `true` or `false` while parsing value 'no' provided by Baz".into()
        ))
    );
}

#[test]
fn rename_overrides_the_derived_key() {
    let fields = vec![FieldDescriptor::new("bar", Shape::Scalar(ScalarKind::Str)).renamed("other_key")];
    assert_eq!(
        from_iter(&fields, pairs(&[("BAR", "no"), ("OTHER_KEY", "yes")])),
        Ok(Record { entries: vec![("bar".to_string(), text("yes"))] })
    );
    assert_eq!(
        from_iter(&fields, pairs(&[("BAR", "no")])),
        Err(Error::MissingValue("bar".into()))
    );
}

#[test]
fn rename_is_compared_as_it_stands() {
    let fields = vec![FieldDescriptor::new("bar", Shape::Scalar(ScalarKind::Str)).renamed("OTHER_KEY")];
    assert_eq!(
        from_iter(&fields, pairs(&[("OTHER_KEY", "yes")])),
        Err(Error::MissingValue("bar".into()))
    );
}

#[test]
fn source_key_of_field() {
    assert_eq!(FieldDescriptor::new("Debug_Mode", Shape::Scalar(ScalarKind::Bool)).source_key(), "debug_mode");
    assert_eq!(
        FieldDescriptor::new("bar", Shape::Scalar(ScalarKind::Bool)).renamed("Other").source_key(),
        "Other"
    );
}

#[test]
fn later_pair_replaces_earlier_pair_with_same_key() {
    let fields = vec![FieldDescriptor::new("bar", Shape::Scalar(ScalarKind::Str))];
    assert_eq!(
        from_iter(&fields, pairs(&[("BAR", "first"), ("bar", "second"), ("Bar", "third")])),
        Ok(Record { entries: vec![("bar".to_string(), text("third"))] })
    );
}

#[test]
fn source_map_lookup() {
    let source = SourceMap::from_pairs(&pairs(&[("FOO", "1"), ("Bar", "2"), ("foo", "3")]));
    assert_eq!(source.len(), 3);
    let foo = "foo".to_string();
    let bar = "bar".to_string();
    let upper = "FOO".to_string();
    let missing = "baz".to_string();
    assert_eq!(source.get(&foo), Some((&"foo".to_string(), &"3".to_string())));
    assert_eq!(source.get(&bar), Some((&"Bar".to_string(), &"2".to_string())));
    assert_eq!(source.get(&upper), None);
    assert_eq!(source.get(&missing), None);
    assert_eq!(source.to_pairs(), pairs(&[("foo", "1"), ("bar", "2"), ("foo", "3")]));
    assert_eq!(SourceMap::from_pairs(&Vec::new()).get(&foo), None);
}

fn nested_schema() -> Vec<FieldDescriptor> {
    vec![
        FieldDescriptor::new("name", Shape::Scalar(ScalarKind::Str)),
        FieldDescriptor::new(
            "db",
            Shape::record(vec![
                FieldDescriptor::new("host", Shape::Scalar(ScalarKind::Str)),
                FieldDescriptor::new("port", Shape::Scalar(ScalarKind::U16)),
            ]),
        ),
    ]
}

#[test]
fn nested_record_shares_the_flat_key_space() {
    let data = pairs(&[("NAME", "svc"), ("DB", ""), ("HOST", "localhost"), ("PORT", "5432")]);
    assert_eq!(
        from_iter(&nested_schema(), data),
        Ok(Record {
            entries: vec![
                ("name".to_string(), text("svc")),
                (
                    "db".to_string(),
                    Value::Record(Record {
                        entries: vec![
                            ("host".to_string(), text("localhost")),
                            ("port".to_string(), Value::Scalar(Scalar::U16(5432))),
                        ]
                    })
                ),
            ]
        })
    );
}

#[test]
fn nested_record_without_its_own_key_is_missing() {
    let data = pairs(&[("NAME", "svc"), ("HOST", "localhost"), ("PORT", "5432")]);
    assert_eq!(from_iter(&nested_schema(), data), Err(Error::MissingValue("db".into())));
}

#[test]
fn nested_record_reports_its_own_missing_field() {
    let data = pairs(&[("NAME", "svc"), ("DB", "1"), ("HOST", "localhost")]);
    assert_eq!(from_iter(&nested_schema(), data), Err(Error::MissingValue("port".into())));
}

fn nest(levels: usize) -> Vec<FieldDescriptor> {
    let mut fields = vec![FieldDescriptor::new("leaf", Shape::Scalar(ScalarKind::U8))];
    for _ in 0..levels {
        fields = vec![FieldDescriptor::new("inner", Shape::record(fields))];
    }
    fields
}

fn nested_value(levels: usize) -> Record {
    let mut record = Record { entries: vec![("leaf".to_string(), Value::Scalar(Scalar::U8(9)))] };
    for _ in 0..levels {
        record = Record { entries: vec![("inner".to_string(), Value::Record(record))] };
    }
    record
}

#[test]
fn nesting_up_to_the_depth_limit_decodes() {
    let data = pairs(&[("INNER", "here"), ("LEAF", "9")]);
    assert_eq!(MAX_DEPTH, 16);
    assert_eq!(from_iter(&nest(1), data.clone()), Ok(nested_value(1)));
    assert_eq!(from_iter(&nest(MAX_DEPTH), data), Ok(nested_value(MAX_DEPTH)));
}

#[test]
fn nesting_beyond_the_depth_limit_is_refused() {
    let data = pairs(&[("INNER", "here"), ("LEAF", "9")]);
    assert_eq!(
        from_iter(&nest(MAX_DEPTH + 1), data),
        Err(Error::Custom(
            "record nested too deeply while parsing value 'here' provided by INNER".into()
        ))
    );
}

#[test]
fn decode_value_at_depth_zero_refuses_records() {
    let source = SourceMap::from_pairs(&pairs(&[("LEAF", "9")]));
    let shape = Shape::record(nest(0));
    assert_eq!(
        decode_value(&shape, "KEY", "raw", &source, 0),
        Err(Error::Custom("record nested too deeply while parsing value 'raw' provided by KEY".into()))
    );
    assert_eq!(decode_value(&shape, "KEY", "raw", &source, 1), Ok(Value::Record(nested_value(0))));
}

#[test]
fn decode_field_resolves_one_field() {
    let source = SourceMap::from_pairs(&pairs(&[("LEAF", "9")]));
    let present = FieldDescriptor::new("leaf", Shape::Scalar(ScalarKind::U8));
    let absent = FieldDescriptor::new("other", Shape::Scalar(ScalarKind::U8));
    assert_eq!(decode_field(&present, &source, 0), Ok(Value::Scalar(Scalar::U8(9))));
    assert_eq!(decode_field(&absent, &source, 0), Err(Error::MissingValue("other".into())));
}

#[test]
fn value_duplicate_copies_deeply() {
    let value = Value::Record(nested_value(3));
    assert_eq!(value.duplicate(), value);
    let sequence = Value::Sequence(vec![Value::Absent, Value::Present(Box::new(text("x"))), Value::Variant(2)]);
    assert_eq!(sequence.duplicate(), sequence);
}

#[test]
fn schema_well_formedness_is_checked() {
    assert!(schema_is_well_formed(&Foo::schema()));
    assert!(schema_is_well_formed(&nested_schema()));
    assert!(schema_is_well_formed(&Vec::new()));
    let wrong_kind = vec![FieldDescriptor::new("port", Shape::Scalar(ScalarKind::U16))
        .with_default(Value::Scalar(Scalar::U8(1)))];
    assert!(!schema_is_well_formed(&wrong_kind));
    let wrong_tag = vec![FieldDescriptor::new("size", Shape::variant(Size::tags()))
        .with_default(Value::Variant(3))];
    assert!(!schema_is_well_formed(&wrong_tag));
    let nested_wrong = vec![FieldDescriptor::new("outer", Shape::sequence(Shape::record(wrong_kind)))];
    assert!(!schema_is_well_formed(&nested_wrong));

    let shape = Shape::optional(Shape::sequence(Shape::Scalar(ScalarKind::Bool)));
    assert!(value_conforms(&Value::Absent, &shape));
    assert!(value_conforms(&Value::Present(Box::new(Value::Sequence(vec![]))), &shape));
    assert!(value_conforms(
        &Value::Present(Box::new(Value::Sequence(vec![Value::Scalar(Scalar::Bool(true))]))),
        &shape
    ));
    assert!(!value_conforms(
        &Value::Present(Box::new(Value::Sequence(vec![Value::Scalar(Scalar::U8(1))]))),
        &shape
    ));
    assert!(!value_conforms(&Value::Sequence(vec![]), &shape));
    assert!(!value_conforms(&Value::Variant(0), &Shape::variant(Vec::new())));
    assert!(value_conforms(&Value::Variant(2), &Shape::variant(Size::tags())));

    let data = pairs(&[("BAR", "test"), ("BAZ", "true"), ("DOOM", "1,2,3")]);
    let record = from_iter(&Foo::schema(), data).unwrap();
    assert!(record_conforms(&record, &Foo::schema()));
    assert!(!record_conforms(&record, &nested_schema()));
    assert!(!record_conforms(&Record { entries: vec![] }, &Foo::schema()));
}

#[test]
fn single_scalar_field_round_trips_through_from_iter() {
    let fields = vec![FieldDescriptor::new("f", Shape::Scalar(ScalarKind::I32))];
    for value in [i32::MIN, -7, 0, 7, i32::MAX] {
        assert_eq!(
            from_iter(&fields, pairs(&[("F", &value.to_string())])),
            Ok(Record { entries: vec![("f".to_string(), Value::Scalar(Scalar::I32(value)))] })
        );
    }
    let fields = vec![FieldDescriptor::new("f", Shape::Scalar(ScalarKind::Str))];
    for value in ["", "plain", "with,comma", " spaced "] {
        assert_eq!(
            from_iter(&fields, pairs(&[("F", value)])),
            Ok(Record { entries: vec![("f".to_string(), text(value))] })
        );
    }
}
