//! The schema of a record: one descriptor per field, giving its name, the
//! key it is looked up under, the shape of its value and its default.

use vstd::prelude::*;
use vstd::string::*;
use crate::key::{lowercase, normalize};
use crate::scalar::ScalarKind;
use crate::sequence::strings_view;
use crate::value::{Value, ValueView};

verus! {

/// What the value of a field looks like.
#[derive(Debug, PartialEq)]
pub enum Shape {
    /// One primitive value.
    Scalar(ScalarKind),
    /// A value that may be left out.
    Optional(Box<Shape>),
    /// Elements separated by commas, each of the given shape.
    Sequence(Box<Shape>),
    /// A nested record with fields of its own.
    Record(Vec<FieldDescriptor>),
    /// One of the declared tags.
    Variant(Vec<String>),
}

/// The schema entry of one field.
#[derive(Debug, PartialEq)]
pub struct FieldDescriptor {
    /// The field's name in the record.
    pub name: String,
    /// The key to look the field up under, where it is not the one derived
    /// from the name.
    pub rename: Option<String>,
    /// The shape of the field's value.
    pub shape: Shape,
    /// The value that the field takes where the source has none.
    pub default: Option<Value>,
}

/// The mathematical value of a [`Shape`].
pub enum ShapeView {
    Scalar(ScalarKind),
    Optional(Box<ShapeView>),
    Sequence(Box<ShapeView>),
    Record(Seq<FieldView>),
    Variant(Seq<Seq<char>>),
}

/// The mathematical value of a [`FieldDescriptor`].
pub struct FieldView {
    pub name: Seq<char>,
    pub rename: Option<Seq<char>>,
    pub shape: ShapeView,
    pub default: Option<ValueView>,
}

impl FieldView {
    /// The normalised key under which the field is looked up: the rename
    /// where one is declared, as it stands, otherwise the name in the
    /// canonical case.
    pub open spec fn key(self) -> Seq<char> {
        match self.rename {
            Some(key) => key,
            None => lowercase(self.name),
        }
    }
}

/// The mathematical value of a [`Shape`].
pub open spec fn shape_view(shape: Shape) -> ShapeView
    decreases shape,
{
    match shape {
        Shape::Scalar(kind) => ShapeView::Scalar(kind),
        Shape::Optional(inner) => ShapeView::Optional(Box::new(shape_view(*inner))),
        Shape::Sequence(element) => ShapeView::Sequence(Box::new(shape_view(*element))),
        Shape::Record(fields) => ShapeView::Record(fields_view(fields@)),
        Shape::Variant(tags) => ShapeView::Variant(strings_view(tags@)),
    }
}

/// The mathematical value of a [`FieldDescriptor`].
pub open spec fn field_view(field: FieldDescriptor) -> FieldView
    decreases field,
{
    FieldView {
        name: field.name@,
        rename: match field.rename {
            Some(key) => Some(key@),
            None => None,
        },
        shape: shape_view(field.shape),
        default: match field.default {
            Some(value) => Some(value@),
            None => None,
        },
    }
}

/// The mathematical value of a list of descriptors, in order.
pub open spec fn fields_view(fields: Seq<FieldDescriptor>) -> Seq<FieldView>
    decreases fields,
{
    Seq::new(
        fields.len(),
        |i: int|
            if 0 <= i < fields.len() {
                field_view(fields[i])
            } else {
                arbitrary()
            },
    )
}

impl View for Shape {
    type V = ShapeView;

    open spec fn view(&self) -> ShapeView {
        shape_view(*self)
    }
}

impl View for FieldDescriptor {
    type V = FieldView;

    open spec fn view(&self) -> FieldView {
        field_view(*self)
    }
}

impl Shape {
    /// The shape of a value that may be left out.
    pub fn optional(inner: Shape) -> (shape: Shape)
        ensures
            shape@ == ShapeView::Optional(Box::new(inner@)),
    {
        Shape::Optional(Box::new(inner))
    }

    /// The shape of a comma-separated sequence of elements.
    pub fn sequence(element: Shape) -> (shape: Shape)
        ensures
            shape@ == ShapeView::Sequence(Box::new(element@)),
    {
        Shape::Sequence(Box::new(element))
    }

    /// The shape of a nested record.
    pub fn record(fields: Vec<FieldDescriptor>) -> (shape: Shape)
        ensures
            shape@ == ShapeView::Record(fields_view(fields@)),
    {
        Shape::Record(fields)
    }

    /// The shape of an enumerated value with the given tags.
    pub fn variant(tags: Vec<String>) -> (shape: Shape)
        ensures
            shape@ == ShapeView::Variant(strings_view(tags@)),
    {
        Shape::Variant(tags)
    }
}

impl FieldDescriptor {
    /// A required field: no rename and no default.
    pub fn new(name: &str, shape: Shape) -> (field: FieldDescriptor)
        ensures
            field@ == (FieldView { name: name@, rename: None, shape: shape@, default: None }),
    {
        FieldDescriptor { name: String::from_str(name), rename: None, shape, default: None }
    }

    /// The same field, looked up under `key` instead of the key derived
    /// from its name. The key is compared as it stands with the normalised
    /// keys of the source.
    pub fn renamed(self, key: &str) -> (field: FieldDescriptor)
        ensures
            field@ == (FieldView { rename: Some(key@), ..self@ }),
    {
        FieldDescriptor {
            name: self.name,
            rename: Some(String::from_str(key)),
            shape: self.shape,
            default: self.default,
        }
    }

    /// The same field, taking `value` where the source has none.
    pub fn with_default(self, value: Value) -> (field: FieldDescriptor)
        ensures
            field@ == (FieldView { default: Some(value@), ..self@ }),
    {
        FieldDescriptor {
            name: self.name,
            rename: self.rename,
            shape: self.shape,
            default: Some(value),
        }
    }

    /// The normalised key under which the field is looked up.
    pub fn source_key(&self) -> (key: String)
        ensures
            key@ == self@.key(),
    {
        match &self.rename {
            Some(key) => key.clone(),
            None => normalize(self.name.as_str()),
        }
    }
}

} // verus!
