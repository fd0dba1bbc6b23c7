//! The decoding engine: resolves each field of a schema against the source
//! map, in declaration order, and assembles the record.

use vstd::prelude::*;
use crate::error::{failure_message, result_view, Error, ErrorView};
use crate::key::{
    find_first, first_match, lemma_first_match_from, lowercase, lowercased, normalize,
    normalize_all,
};
use crate::scalar::{lemma_text_round_trips, parse_scalar, parsed, scalar_text, ScalarView};
use crate::schema::{fields_view, FieldDescriptor, FieldView, Shape, ShapeView};
use crate::sequence::{split, split_on, strings_view, SEPARATOR};
use crate::source::{keys_of, resolve, SourceMap};
use crate::value::{entries_view, values_view, Record, Value, ValueView};

verus! {

/// How many records may be nested inside the top-level record.
pub const MAX_DEPTH: usize = 16;

/// The reason given for a tag that names none of the declared variants.
pub open spec fn unknown_variant() -> Seq<char> {
    "unknown variant"@
}

/// The reason given for a record nested more deeply than the limit allows.
pub open spec fn nested_too_deeply() -> Seq<char> {
    "record nested too deeply"@
}

/// The position of the variant that `raw` names: the first declared tag
/// that equals it once both are put in lowercase.
pub open spec fn variant_of(tags: Seq<Seq<char>>, raw: Seq<char>) -> Option<nat> {
    first_match(lowercased(tags), lowercase(raw))
}

/// The value of the text `raw`, supplied under the key `name`, for a field
/// of the given shape.
///
/// A scalar is parsed. An optional value that is present is the value of
/// its inner shape. A sequence is split at the commas and each segment is
/// decoded as an element. A nested record is decoded from the same pairs
/// by its own fields' keys, one level further down; at depth zero it is
/// refused. An enumerated value is the position of the tag that the text
/// names.
pub open spec fn decoded_value(
    shape: ShapeView,
    name: Seq<char>,
    raw: Seq<char>,
    pairs: Seq<(Seq<char>, Seq<char>)>,
    depth: nat,
) -> Result<ValueView, ErrorView>
    decreases depth, shape, 0nat,
{
    match shape {
        ShapeView::Scalar(kind) => match parsed(kind, name, raw) {
            Ok(scalar) => Ok(ValueView::Scalar(scalar)),
            Err(error) => Err(error),
        },
        ShapeView::Optional(inner) => match decoded_value(*inner, name, raw, pairs, depth) {
            Ok(value) => Ok(ValueView::Present(Box::new(value))),
            Err(error) => Err(error),
        },
        ShapeView::Sequence(element) => match decoded_elements(
            *element,
            name,
            split_on(raw, SEPARATOR),
            pairs,
            depth,
        ) {
            Ok(items) => Ok(ValueView::Sequence(items)),
            Err(error) => Err(error),
        },
        ShapeView::Record(fields) => if depth == 0 {
            Err(ErrorView::Custom(failure_message(nested_too_deeply(), raw, name)))
        } else {
            match decoded_fields(fields, pairs, (depth - 1) as nat) {
                Ok(entries) => Ok(ValueView::Record(entries)),
                Err(error) => Err(error),
            }
        },
        ShapeView::Variant(tags) => match variant_of(tags, raw) {
            Some(index) => Ok(ValueView::Variant(index)),
            None => Err(ErrorView::Custom(failure_message(unknown_variant(), raw, name))),
        },
    }
}

/// The values of the segments of a sequence, in order, or the error of the
/// first segment that fails.
pub open spec fn decoded_elements(
    element: ShapeView,
    name: Seq<char>,
    segments: Seq<Seq<char>>,
    pairs: Seq<(Seq<char>, Seq<char>)>,
    depth: nat,
) -> Result<Seq<ValueView>, ErrorView>
    decreases depth, element, segments.len(),
{
    if segments.len() == 0 {
        Ok(Seq::empty())
    } else {
        match decoded_elements(element, name, segments.drop_last(), pairs, depth) {
            Err(error) => Err(error),
            Ok(items) => match decoded_value(element, name, segments.last(), pairs, depth) {
                Err(error) => Err(error),
                Ok(value) => Ok(items.push(value)),
            },
        }
    }
}

/// The value of one field.
///
/// Where the pairs hold the field's key, the value is decoded from the text
/// found. Where they do not, the field takes its default if it has one,
/// else is absent if it is optional, else is reported missing by name.
pub open spec fn decoded_field(
    field: FieldView,
    pairs: Seq<(Seq<char>, Seq<char>)>,
    depth: nat,
) -> Result<ValueView, ErrorView>
    decreases depth, field, 0nat,
{
    match resolve(pairs, field.key()) {
        Some((name, raw)) => decoded_value(field.shape, name, raw, pairs, depth),
        None => match field.default {
            Some(value) => Ok(value),
            None => if field.shape is Optional {
                Ok(ValueView::Absent)
            } else {
                Err(ErrorView::MissingValue(field.name))
            },
        },
    }
}

/// The entries of a record: the value of each field under its name, in
/// declaration order, or the error of the first field that fails.
pub open spec fn decoded_fields(
    fields: Seq<FieldView>,
    pairs: Seq<(Seq<char>, Seq<char>)>,
    depth: nat,
) -> Result<Seq<(Seq<char>, ValueView)>, ErrorView>
    decreases depth, fields, 0nat,
{
    if fields.len() == 0 {
        Ok(Seq::empty())
    } else {
        match decoded_fields(fields.drop_last(), pairs, depth) {
            Err(error) => Err(error),
            Ok(entries) => match decoded_field(fields.last(), pairs, depth) {
                Err(error) => Err(error),
                Ok(value) => Ok(entries.push((fields.last().name, value))),
            },
        }
    }
}

/// The record that the pairs decode to under a schema.
pub open spec fn decoded(fields: Seq<FieldView>, pairs: Seq<(Seq<char>, Seq<char>)>) -> Result<
    Seq<(Seq<char>, ValueView)>,
    ErrorView,
> {
    decoded_fields(fields, pairs, MAX_DEPTH as nat)
}

/// Once the first fields of a schema have failed, so has the whole schema,
/// with the same error.
pub proof fn lemma_field_error_surfaces(
    fields: Seq<FieldView>,
    pairs: Seq<(Seq<char>, Seq<char>)>,
    depth: nat,
    count: int,
)
    requires
        0 <= count <= fields.len(),
        decoded_fields(fields.take(count), pairs, depth) is Err,
    ensures
        decoded_fields(fields, pairs, depth) == decoded_fields(fields.take(count), pairs, depth),
    decreases fields.len() - count,
{
    if count < fields.len() {
        assert(fields.take(count + 1).drop_last() =~= fields.take(count));
        lemma_field_error_surfaces(fields, pairs, depth, count + 1);
    } else {
        assert(fields.take(count) =~= fields);
    }
}

/// Once the first segments of a sequence have failed, so has the whole
/// sequence, with the same error.
pub proof fn lemma_element_error_surfaces(
    element: ShapeView,
    name: Seq<char>,
    segments: Seq<Seq<char>>,
    pairs: Seq<(Seq<char>, Seq<char>)>,
    depth: nat,
    count: int,
)
    requires
        0 <= count <= segments.len(),
        decoded_elements(element, name, segments.take(count), pairs, depth) is Err,
    ensures
        decoded_elements(element, name, segments, pairs, depth) == decoded_elements(
            element,
            name,
            segments.take(count),
            pairs,
            depth,
        ),
    decreases segments.len() - count,
{
    if count < segments.len() {
        assert(segments.take(count + 1).drop_last() =~= segments.take(count));
        lemma_element_error_surfaces(element, name, segments, pairs, depth, count + 1);
    } else {
        assert(segments.take(count) =~= segments);
    }
}

/// What the result of decoding a schema says of its fields. A record is
/// returned exactly if every field decodes, and then holds each field's
/// value under its name, in declaration order. Otherwise the error is that
/// of the first field that fails.
pub proof fn lemma_decoded_fields(
    fields: Seq<FieldView>,
    pairs: Seq<(Seq<char>, Seq<char>)>,
    depth: nat,
)
    ensures
        match decoded_fields(fields, pairs, depth) {
            Ok(entries) => {
                &&& entries.len() == fields.len()
                &&& forall|i: int|
                    0 <= i < fields.len() ==> entries[i].0 == fields[i].name && decoded_field(
                        #[trigger] fields[i],
                        pairs,
                        depth,
                    ) == Ok::<ValueView, ErrorView>(entries[i].1)
            },
            Err(error) => exists|first: int|
                {
                    &&& 0 <= first < fields.len()
                    &&& decoded_field(#[trigger] fields[first], pairs, depth) == Err::<
                        ValueView,
                        ErrorView,
                    >(error)
                    &&& forall|j: int|
                        0 <= j < first ==> decoded_field(#[trigger] fields[j], pairs, depth) is Ok
                },
        },
    decreases fields.len(),
{
    if fields.len() > 0 {
        let init = fields.drop_last();
        lemma_decoded_fields(init, pairs, depth);
        match decoded_fields(init, pairs, depth) {
            Err(error) => {
                let first = choose|first: int|
                    {
                        &&& 0 <= first < init.len()
                        &&& decoded_field(#[trigger] init[first], pairs, depth) == Err::<
                            ValueView,
                            ErrorView,
                        >(error)
                        &&& forall|j: int|
                            0 <= j < first ==> decoded_field(#[trigger] init[j], pairs, depth) is Ok
                    };
                assert(fields[first] == init[first]);
                assert forall|j: int| 0 <= j < first implies decoded_field(
                    #[trigger] fields[j],
                    pairs,
                    depth,
                ) is Ok by {
                    assert(fields[j] == init[j]);
                }
            },
            Ok(entries) => {
                assert forall|j: int| 0 <= j < init.len() implies decoded_field(
                    #[trigger] fields[j],
                    pairs,
                    depth,
                ) == Ok::<ValueView, ErrorView>(entries[j].1) && entries[j].0 == fields[j].name by {
                    assert(fields[j] == init[j]);
                }
                match decoded_field(fields.last(), pairs, depth) {
                    Err(error) => {
                        assert(fields[fields.len() - 1] == fields.last());
                    },
                    Ok(value) => {},
                }
            },
        }
    }
}

/// A required field without a value fails the record with the error that
/// names it, whatever the other fields hold, as long as the fields declared
/// before it decode.
pub proof fn lemma_missing_required_field(
    fields: Seq<FieldView>,
    pairs: Seq<(Seq<char>, Seq<char>)>,
    depth: nat,
    index: int,
)
    requires
        0 <= index < fields.len(),
        resolve(pairs, fields[index].key()) is None,
        fields[index].default is None,
        !(fields[index].shape is Optional),
        forall|j: int| 0 <= j < index ==> decoded_field(#[trigger] fields[j], pairs, depth) is Ok,
    ensures
        decoded_fields(fields, pairs, depth) == Err::<Seq<(Seq<char>, ValueView)>, ErrorView>(
            ErrorView::MissingValue(fields[index].name),
        ),
{
    lemma_decoded_fields(fields, pairs, depth);
    assert(decoded_field(fields[index], pairs, depth) is Err);
}

/// A field with a default and without a value takes the default and is
/// never reported missing. A record that is returned holds the default
/// under the field's name.
pub proof fn lemma_default_fills_absent_field(
    fields: Seq<FieldView>,
    pairs: Seq<(Seq<char>, Seq<char>)>,
    depth: nat,
    index: int,
)
    requires
        0 <= index < fields.len(),
        resolve(pairs, fields[index].key()) is None,
        fields[index].default is Some,
    ensures
        decoded_field(fields[index], pairs, depth) == Ok::<ValueView, ErrorView>(
            fields[index].default->0,
        ),
        decoded_fields(fields, pairs, depth) matches Ok(entries) ==> entries[index] == (
            fields[index].name,
            fields[index].default->0,
        ),
{
    lemma_decoded_fields(fields, pairs, depth);
}

/// An optional field without a value and without a default is absent.
pub proof fn lemma_optional_field_absent(
    field: FieldView,
    pairs: Seq<(Seq<char>, Seq<char>)>,
    depth: nat,
)
    requires
        field.shape is Optional,
        field.default is None,
        resolve(pairs, field.key()) is None,
    ensures
        decoded_field(field, pairs, depth) == Ok::<ValueView, ErrorView>(ValueView::Absent),
{
}

/// An optional field with a value is present and holds what the text
/// decodes to under the inner shape; where the text is rejected, so is the
/// field, with the same error.
pub proof fn lemma_optional_field_present(
    field: FieldView,
    pairs: Seq<(Seq<char>, Seq<char>)>,
    depth: nat,
)
    requires
        field.shape is Optional,
        resolve(pairs, field.key()) is Some,
    ensures
        ({
            let (name, raw) = resolve(pairs, field.key())->0;
            let inner = *field.shape->Optional_0;
            decoded_field(field, pairs, depth) == match decoded_value(
                inner,
                name,
                raw,
                pairs,
                depth,
            ) {
                Ok(value) => Ok::<ValueView, ErrorView>(ValueView::Present(Box::new(value))),
                Err(error) => Err(error),
            }
        }),
{
}

/// A record of one required scalar field, decoded from one pair that
/// holds the plain text of a value under a key that normalises to the
/// field's key, holds that value.
pub proof fn lemma_scalar_round_trips(name: Seq<char>, key: Seq<char>, value: ScalarView)
    requires
        lowercase(key) == lowercase(name),
    ensures
        decoded(
            seq![
                FieldView {
                    name,
                    rename: None,
                    shape: ShapeView::Scalar(value.kind()),
                    default: None,
                },
            ],
            seq![(key, scalar_text(value))],
        ) == Ok::<Seq<(Seq<char>, ValueView)>, ErrorView>(seq![(name, ValueView::Scalar(value))]),
{
    let field = FieldView {
        name,
        rename: None,
        shape: ShapeView::Scalar(value.kind()),
        default: None,
    };
    let fields = seq![field];
    let pairs = seq![(key, scalar_text(value))];
    let depth = MAX_DEPTH as nat;
    lemma_text_round_trips(value, key);
    assert(keys_of(pairs).last() == lowercase(key));
    assert(resolve(pairs, field.key()) == Some(pairs[0]));
    assert(decoded_field(field, pairs, depth) == Ok::<ValueView, ErrorView>(
        ValueView::Scalar(value),
    ));
    assert(fields.drop_last() =~= Seq::<FieldView>::empty());
    assert(fields.last() == field);
    assert(decoded_fields(fields.drop_last(), pairs, depth) == Ok::<
        Seq<(Seq<char>, ValueView)>,
        ErrorView,
    >(Seq::empty()));
    assert(Seq::<(Seq<char>, ValueView)>::empty().push((name, ValueView::Scalar(value)))
        =~= seq![(name, ValueView::Scalar(value))]);
}

/// What the search for a variant returns: the position of a tag that
/// equals the text without regard to case and that no such tag precedes,
/// or nothing where no tag does.
pub proof fn lemma_variant_of(tags: Seq<Seq<char>>, raw: Seq<char>)
    ensures
        match variant_of(tags, raw) {
            Some(index) => {
                &&& index < tags.len()
                &&& lowercase(tags[index as int]) == lowercase(raw)
                &&& forall|j: int| 0 <= j < index ==> lowercase(tags[j]) != lowercase(raw)
            },
            None => forall|j: int| 0 <= j < tags.len() ==> lowercase(tags[j]) != lowercase(raw),
        },
{
    let keys = lowercased(tags);
    lemma_first_match_from(keys, lowercase(raw), 0);
    match variant_of(tags, raw) {
        Some(index) => {
            assert(keys[index as int] == lowercase(tags[index as int]));
            assert forall|j: int| 0 <= j < index implies lowercase(tags[j]) != lowercase(raw) by {
                assert(keys[j] == lowercase(tags[j]));
            }
        },
        None => {
            assert forall|j: int| 0 <= j < tags.len() implies lowercase(tags[j]) != lowercase(
                raw,
            ) by {
                assert(keys[j] == lowercase(tags[j]));
            }
        },
    }
}

/// Two spellings with the same lowercase form name the same variant.
pub proof fn lemma_variant_ignores_case(tags: Seq<Seq<char>>, one: Seq<char>, other: Seq<char>)
    requires
        lowercase(one) == lowercase(other),
    ensures
        variant_of(tags, one) == variant_of(tags, other),
{
}

/// A text that names no declared tag is refused with a custom error.
pub proof fn lemma_unknown_variant_refused(
    tags: Seq<Seq<char>>,
    name: Seq<char>,
    raw: Seq<char>,
    pairs: Seq<(Seq<char>, Seq<char>)>,
    depth: nat,
)
    requires
        forall|j: int| 0 <= j < tags.len() ==> lowercase(tags[j]) != lowercase(raw),
    ensures
        decoded_value(ShapeView::Variant(tags), name, raw, pairs, depth) == Err::<
            ValueView,
            ErrorView,
        >(ErrorView::Custom(failure_message(unknown_variant(), raw, name))),
{
    lemma_variant_of(tags, raw);
}

/// Finds the variant that `raw` names among the declared tags, without
/// regard to case.
pub fn find_variant(tags: &Vec<String>, raw: &str) -> (found: Option<usize>)
    ensures
        match found {
            Some(index) => variant_of(strings_view(tags@), raw@) == Some(index as nat),
            None => variant_of(strings_view(tags@), raw@) is None,
        },
{
    let keys = normalize_all(tags);
    let wanted = normalize(raw);
    find_first(&keys, &wanted)
}

/// Decodes the text `raw`, supplied under the key `name`, as a value of
/// the given shape. Nested records are resolved against `source`, at most
/// `depth` levels further down.
pub fn decode_value(shape: &Shape, name: &str, raw: &str, source: &SourceMap, depth: usize) -> (r:
    Result<Value, Error>)
    ensures
        result_view(r) == decoded_value(shape@, name@, raw@, source@, depth as nat),
    decreases depth, shape, 0nat,
{
    match shape {
        Shape::Scalar(kind) => match parse_scalar(*kind, name, raw) {
            Ok(scalar) => Ok(Value::Scalar(scalar)),
            Err(error) => Err(error),
        },
        Shape::Optional(inner) => match decode_value(inner, name, raw, source, depth) {
            Ok(value) => Ok(Value::Present(Box::new(value))),
            Err(error) => Err(error),
        },
        Shape::Sequence(element) => {
            let segments = split(raw);
            match decode_elements(element, name, &segments, source, depth) {
                Ok(items) => Ok(Value::Sequence(items)),
                Err(error) => Err(error),
            }
        },
        Shape::Record(fields) => {
            if depth == 0 {
                Err(Error::while_parsing("record nested too deeply", raw, name))
            } else {
                match decode_fields(fields, source, depth - 1) {
                    Ok(record) => Ok(Value::Record(record)),
                    Err(error) => Err(error),
                }
            }
        },
        Shape::Variant(tags) => match find_variant(tags, raw) {
            Some(index) => Ok(Value::Variant(index)),
            None => Err(Error::while_parsing("unknown variant", raw, name)),
        },
    }
}

/// Decodes each segment of a sequence as an element of the given shape.
/// Stops at the first segment that fails.
pub fn decode_elements(
    element: &Shape,
    name: &str,
    segments: &Vec<String>,
    source: &SourceMap,
    depth: usize,
) -> (r: Result<Vec<Value>, Error>)
    ensures
        match r {
            Ok(items) => decoded_elements(
                element@,
                name@,
                strings_view(segments@),
                source@,
                depth as nat,
            ) == Ok::<Seq<ValueView>, ErrorView>(values_view(items@)),
            Err(error) => decoded_elements(
                element@,
                name@,
                strings_view(segments@),
                source@,
                depth as nat,
            ) == Err::<Seq<ValueView>, ErrorView>(error@),
        },
    decreases depth, element, 1nat,
{
    let ghost texts = strings_view(segments@);
    let mut items: Vec<Value> = Vec::new();
    let n = segments.len();
    let mut i: usize = 0;
    proof {
        assert(texts.take(0).len() == 0);
        assert(values_view(items@) =~= Seq::empty());
    }
    while i < n
        invariant
            n == segments@.len(),
            i <= n,
            texts == strings_view(segments@),
            decoded_elements(element@, name@, texts.take(i as int), source@, depth as nat) == Ok::<
                Seq<ValueView>,
                ErrorView,
            >(values_view(items@)),
        decreases n - i,
    {
        let ghost before = items@;
        proof {
            assert(texts.take(i + 1).drop_last() =~= texts.take(i as int));
            assert(texts.take(i + 1).last() == segments@[i as int]@);
        }
        match decode_value(element, name, segments[i].as_str(), source, depth) {
            Ok(value) => {
                items.push(value);
                proof {
                    assert(values_view(items@) =~= values_view(before).push(value@));
                }
            },
            Err(error) => {
                proof {
                    lemma_element_error_surfaces(
                        element@,
                        name@,
                        texts,
                        source@,
                        depth as nat,
                        i + 1,
                    );
                }
                return Err(error);
            },
        }
        i += 1;
    }
    proof {
        assert(texts.take(n as int) =~= texts);
    }
    Ok(items)
}

/// Resolves one field: looks its key up in the source and decodes the text
/// found, or falls back to the default, to absence, or to the error that
/// names the missing field.
pub fn decode_field(field: &FieldDescriptor, source: &SourceMap, depth: usize) -> (r: Result<
    Value,
    Error,
>)
    ensures
        result_view(r) == decoded_field(field@, source@, depth as nat),
    decreases depth, field, 0nat,
{
    let key = field.source_key();
    match source.get(&key) {
        Some((name, raw)) => decode_value(&field.shape, name.as_str(), raw.as_str(), source, depth),
        None => match &field.default {
            Some(value) => Ok(value.duplicate()),
            None => match &field.shape {
                Shape::Optional(_) => Ok(Value::Absent),
                _ => Err(Error::missing_field(field.name.as_str())),
            },
        },
    }
}

/// Resolves the fields of a schema in declaration order and assembles the
/// record. Stops at the first field that fails; no partial record is
/// returned.
pub fn decode_fields(fields: &Vec<FieldDescriptor>, source: &SourceMap, depth: usize) -> (r: Result<
    Record,
    Error,
>)
    ensures
        result_view(r) == decoded_fields(fields_view(fields@), source@, depth as nat),
    decreases depth, fields, 0nat,
{
    let ghost schema = fields_view(fields@);
    let mut entries: Vec<(String, Value)> = Vec::new();
    let n = fields.len();
    let mut i: usize = 0;
    proof {
        assert(schema.take(0).len() == 0);
        assert(entries_view(entries@) =~= Seq::empty());
    }
    while i < n
        invariant
            n == fields@.len(),
            i <= n,
            schema == fields_view(fields@),
            decoded_fields(schema.take(i as int), source@, depth as nat) == Ok::<
                Seq<(Seq<char>, ValueView)>,
                ErrorView,
            >(entries_view(entries@)),
        decreases n - i,
    {
        let ghost before = entries@;
        let field = &fields[i];
        proof {
            assert(schema.take(i + 1).drop_last() =~= schema.take(i as int));
            assert(schema.take(i + 1).last() == field@);
        }
        match decode_field(field, source, depth) {
            Ok(value) => {
                entries.push((field.name.clone(), value));
                proof {
                    assert(entries_view(entries@) =~= entries_view(before).push(
                        (field.name@, value@),
                    ));
                }
            },
            Err(error) => {
                proof {
                    lemma_field_error_surfaces(schema, source@, depth as nat, i + 1);
                }
                return Err(error);
            },
        }
        i += 1;
    }
    proof {
        assert(schema.take(n as int) =~= schema);
    }
    Ok(Record { entries })
}

/// Decodes a record from a source map under a schema.
pub fn decode(fields: &Vec<FieldDescriptor>, source: &SourceMap) -> (r: Result<Record, Error>)
    ensures
        result_view(r) == decoded(fields_view(fields@), source@),
{
    decode_fields(fields, source, MAX_DEPTH)
}

} // verus!
