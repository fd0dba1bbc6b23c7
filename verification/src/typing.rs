//! Typing of decoded values: a record that decoding returns has the form
//! that its schema declares.

use vstd::prelude::*;
use crate::decode::{
    decoded, decoded_elements, decoded_field, decoded_fields, decoded_value, lemma_variant_of,
    MAX_DEPTH,
};
use crate::scalar::{parsed, ScalarKind};
use crate::sequence::{split_on, SEPARATOR};
use crate::source::resolve;
use crate::schema::{fields_view, FieldDescriptor, FieldView, Shape, ShapeView};
use crate::value::{values_view, Record, Value, ValueView};

verus! {

/// Whether a value has the form that a shape declares: a scalar of the
/// declared kind; for an optional shape, absence or a present value of the
/// inner shape; a sequence whose elements all have the element shape; a
/// record with the declared fields; the position of one of the declared
/// tags.
pub open spec fn conforms(value: ValueView, shape: ShapeView) -> bool
    decreases shape, 0nat,
{
    match shape {
        ShapeView::Scalar(kind) => value matches ValueView::Scalar(scalar) && scalar.kind() == kind,
        ShapeView::Optional(inner) => value is Absent || (value matches ValueView::Present(held)
            && conforms(*held, *inner)),
        ShapeView::Sequence(element) => value matches ValueView::Sequence(items) && forall|i: int|
            0 <= i < items.len() ==> conforms(#[trigger] items[i], *element),
        ShapeView::Record(fields) => value matches ValueView::Record(entries) && entries_conform(
            entries,
            fields,
        ),
        ShapeView::Variant(tags) => value matches ValueView::Variant(index) && index < tags.len(),
    }
}

/// Whether the entries of a record are those that a schema declares: one
/// entry per field, in declaration order, under the field's name, holding
/// a value of the field's shape.
pub open spec fn entries_conform(
    entries: Seq<(Seq<char>, ValueView)>,
    fields: Seq<FieldView>,
) -> bool
    decreases fields, 1nat,
{
    &&& entries.len() == fields.len()
    &&& forall|i: int|
        0 <= i < fields.len() ==> (#[trigger] entries[i]).0 == fields[i].name && conforms(
            entries[i].1,
            fields[i].shape,
        )
}

/// Whether every default below a shape has the form of the field that
/// declares it.
pub open spec fn shape_well_formed(shape: ShapeView) -> bool
    decreases shape, 0nat,
{
    match shape {
        ShapeView::Optional(inner) => shape_well_formed(*inner),
        ShapeView::Sequence(element) => shape_well_formed(*element),
        ShapeView::Record(fields) => fields_well_formed(fields),
        _ => true,
    }
}

/// Whether every default in a schema, nested records included, has the
/// form of the field that declares it.
pub open spec fn fields_well_formed(fields: Seq<FieldView>) -> bool
    decreases fields, 1nat,
{
    forall|i: int|
        0 <= i < fields.len() ==> shape_well_formed((#[trigger] fields[i]).shape) && (
        fields[i].default matches Some(value) ==> conforms(value, fields[i].shape))
}

/// Checks whether a value has the form that a shape declares.
pub fn value_conforms(value: &Value, shape: &Shape) -> (ok: bool)
    ensures
        ok == conforms(value@, shape@),
    decreases shape, 0nat,
{
    match shape {
        Shape::Scalar(kind) => match value {
            Value::Scalar(scalar) => scalar.kind() == *kind,
            _ => false,
        },
        Shape::Optional(inner) => match value {
            Value::Absent => true,
            Value::Present(held) => value_conforms(held, inner),
            _ => false,
        },
        Shape::Sequence(element) => match value {
            Value::Sequence(items) => {
                proof {
                    lemma_sequence_conforms(values_view(items@), element@);
                }
                elements_conform(items, element)
            },
            _ => false,
        },
        Shape::Record(fields) => match value {
            Value::Record(record) => record_conforms(record, fields),
            _ => false,
        },
        Shape::Variant(tags) => match value {
            Value::Variant(index) => *index < tags.len(),
            _ => false,
        },
    }
}

/// Checks whether every element of a sequence has the element shape.
pub fn elements_conform(items: &Vec<Value>, element: &Shape) -> (ok: bool)
    ensures
        ok == (forall|i: int|
            0 <= i < items@.len() ==> conforms(#[trigger] values_view(items@)[i], element@)),
    decreases element, 1nat,
{
    let n = items.len();
    let mut i: usize = 0;
    while i < n
        invariant
            n == items@.len(),
            i <= n,
            forall|j: int| 0 <= j < i ==> conforms(#[trigger] values_view(items@)[j], element@),
        decreases n - i,
    {
        if !value_conforms(&items[i], element) {
            assert(!conforms(values_view(items@)[i as int], element@));
            return false;
        }
        i += 1;
    }
    true
}

/// Checks whether a record has the entries that a schema declares.
pub fn record_conforms(record: &Record, fields: &Vec<FieldDescriptor>) -> (ok: bool)
    ensures
        ok == entries_conform(record@, fields_view(fields@)),
    decreases fields, 1nat,
{
    let n = fields.len();
    if record.entries.len() != n {
        return false;
    }
    let mut i: usize = 0;
    while i < n
        invariant
            n == fields@.len(),
            n == record.entries@.len(),
            i <= n,
            forall|j: int|
                0 <= j < i ==> (#[trigger] record@[j]).0 == fields_view(fields@)[j].name
                    && conforms(record@[j].1, fields_view(fields@)[j].shape),
        decreases n - i,
    {
        let entry = &record.entries[i];
        let field = &fields[i];
        proof {
            assert(record@[i as int] == (entry.0@, entry.1@));
            assert(fields_view(fields@)[i as int] == field@);
        }
        if !(entry.0 == field.name) || !value_conforms(&entry.1, &field.shape) {
            return false;
        }
        i += 1;
    }
    true
}

/// Checks whether every default below a shape has the form of the field
/// that declares it.
pub fn shape_is_well_formed(shape: &Shape) -> (ok: bool)
    ensures
        ok == shape_well_formed(shape@),
    decreases shape, 0nat,
{
    match shape {
        Shape::Optional(inner) => shape_is_well_formed(inner),
        Shape::Sequence(element) => shape_is_well_formed(element),
        Shape::Record(fields) => schema_is_well_formed(fields),
        _ => true,
    }
}

/// Checks whether every default in a schema, nested records included, has
/// the form of the field that declares it. Records decoded under such a
/// schema have the form that it declares.
pub fn schema_is_well_formed(fields: &Vec<FieldDescriptor>) -> (ok: bool)
    ensures
        ok == fields_well_formed(fields_view(fields@)),
    decreases fields, 1nat,
{
    let n = fields.len();
    let mut i: usize = 0;
    while i < n
        invariant
            n == fields@.len(),
            i <= n,
            forall|j: int|
                0 <= j < i ==> shape_well_formed((#[trigger] fields_view(fields@)[j]).shape) && (
                fields_view(fields@)[j].default matches Some(value) ==> conforms(
                    value,
                    fields_view(fields@)[j].shape,
                )),
        decreases n - i,
    {
        let field = &fields[i];
        proof {
            assert(fields_view(fields@)[i as int] == field@);
        }
        if !shape_is_well_formed(&field.shape) {
            return false;
        }
        match &field.default {
            Some(value) => {
                if !value_conforms(value, &field.shape) {
                    return false;
                }
            },
            None => {},
        }
        i += 1;
    }
    true
}

/// A sequence has the form of a sequence shape exactly if each of its
/// elements has the element shape.
pub proof fn lemma_sequence_conforms(items: Seq<ValueView>, element: ShapeView)
    ensures
        conforms(ValueView::Sequence(items), ShapeView::Sequence(Box::new(element))) == (forall|
            i: int,
        |
            0 <= i < items.len() ==> conforms(#[trigger] items[i], element)),
{
    let whole = conforms(ValueView::Sequence(items), ShapeView::Sequence(Box::new(element)));
    if whole {
        assert forall|i: int| 0 <= i < items.len() implies conforms(
            #[trigger] items[i],
            element,
        ) by {
            let held = ValueView::Sequence(items)->Sequence_0[i];
            assert(held == items[i]);
        }
    }
    if forall|i: int| 0 <= i < items.len() ==> conforms(#[trigger] items[i], element) {
        assert(whole);
    }
}

/// A scalar that parses has the kind it was parsed as.
pub proof fn lemma_parsed_has_kind(kind: ScalarKind, key: Seq<char>, raw: Seq<char>)
    ensures
        parsed(kind, key, raw) matches Ok(scalar) ==> scalar.kind() == kind,
{
}

/// A value decoded for a shape has the form that the shape declares.
pub proof fn lemma_value_conforms(
    shape: ShapeView,
    name: Seq<char>,
    raw: Seq<char>,
    pairs: Seq<(Seq<char>, Seq<char>)>,
    depth: nat,
)
    requires
        shape_well_formed(shape),
    ensures
        decoded_value(shape, name, raw, pairs, depth) matches Ok(value) ==> conforms(value, shape),
    decreases depth, shape, 0nat,
{
    match shape {
        ShapeView::Scalar(kind) => {
            lemma_parsed_has_kind(kind, name, raw);
        },
        ShapeView::Optional(inner) => {
            lemma_value_conforms(*inner, name, raw, pairs, depth);
        },
        ShapeView::Sequence(element) => {
            lemma_elements_conform(
                *element,
                name,
                split_on(raw, SEPARATOR),
                pairs,
                depth,
            );
        },
        ShapeView::Record(fields) => {
            if depth > 0 {
                lemma_fields_conform(fields, pairs, (depth - 1) as nat);
            }
        },
        ShapeView::Variant(tags) => {
            lemma_variant_of(tags, raw);
        },
    }
}

/// The elements decoded for a sequence all have the element shape.
pub proof fn lemma_elements_conform(
    element: ShapeView,
    name: Seq<char>,
    segments: Seq<Seq<char>>,
    pairs: Seq<(Seq<char>, Seq<char>)>,
    depth: nat,
)
    requires
        shape_well_formed(element),
    ensures
        decoded_elements(element, name, segments, pairs, depth) matches Ok(items) ==> items.len()
            == segments.len() && forall|i: int|
            0 <= i < items.len() ==> conforms(#[trigger] items[i], element),
    decreases depth, element, segments.len(),
{
    if segments.len() > 0 {
        lemma_elements_conform(element, name, segments.drop_last(), pairs, depth);
        lemma_value_conforms(element, name, segments.last(), pairs, depth);
    }
}

/// The value decoded for a field has the form that the field declares.
pub proof fn lemma_field_conforms(
    field: FieldView,
    pairs: Seq<(Seq<char>, Seq<char>)>,
    depth: nat,
)
    requires
        shape_well_formed(field.shape),
        field.default matches Some(value) ==> conforms(value, field.shape),
    ensures
        decoded_field(field, pairs, depth) matches Ok(value) ==> conforms(value, field.shape),
    decreases depth, field, 0nat,
{
    match resolve(pairs, field.key()) {
        Some((name, raw)) => {
            lemma_value_conforms(field.shape, name, raw, pairs, depth);
        },
        None => {},
    }
}

/// The entries decoded for a schema are those that the schema declares.
pub proof fn lemma_fields_conform(
    fields: Seq<FieldView>,
    pairs: Seq<(Seq<char>, Seq<char>)>,
    depth: nat,
)
    requires
        fields_well_formed(fields),
    ensures
        decoded_fields(fields, pairs, depth) matches Ok(entries) ==> entries_conform(
            entries,
            fields,
        ),
    decreases depth, fields, 0nat,
{
    if fields.len() > 0 {
        let init = fields.drop_last();
        assert forall|i: int| 0 <= i < init.len() implies shape_well_formed(
            (#[trigger] init[i]).shape,
        ) && (init[i].default matches Some(value) ==> conforms(value, init[i].shape)) by {
            assert(init[i] == fields[i]);
        }
        lemma_fields_conform(init, pairs, depth);
        assert(fields.last() == fields[fields.len() - 1]);
        lemma_field_conforms(fields.last(), pairs, depth);
        match decoded_fields(fields, pairs, depth) {
            Ok(entries) => {
                let before = decoded_fields(init, pairs, depth)->Ok_0;
                assert forall|i: int| 0 <= i < fields.len() implies (#[trigger] entries[i]).0
                    == fields[i].name && conforms(entries[i].1, fields[i].shape) by {
                    if i < init.len() {
                        assert(entries[i] == before[i]);
                        assert(init[i] == fields[i]);
                    }
                }
            },
            Err(_) => {},
        }
    }
}

/// A record decoded under a schema whose defaults are well formed has the
/// form that the schema declares: no field is left out and none holds a
/// value of another shape.
pub proof fn lemma_decoded_record_conforms(
    fields: Seq<FieldView>,
    pairs: Seq<(Seq<char>, Seq<char>)>,
)
    requires
        fields_well_formed(fields),
    ensures
        decoded(fields, pairs) matches Ok(entries) ==> entries_conform(entries, fields),
{
    lemma_fields_conform(fields, pairs, MAX_DEPTH as nat);
}

} // verus!
