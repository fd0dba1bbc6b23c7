//! A worked example: the configuration of a small service, its schema, and
//! its decoding into a struct with one typed field per schema entry.

use vstd::prelude::*;
use vstd::string::*;
use crate::decode::decoded;
use crate::error::Error;
use crate::scalar::{Scalar, ScalarKind, ScalarView};
use crate::schema::{fields_view, FieldDescriptor, FieldView, Shape, ShapeView};
use crate::sequence::strings_view;
use crate::source::pairs_view;
use crate::typing::{
    conforms, entries_conform, fields_well_formed, lemma_decoded_record_conforms,
    shape_well_formed,
};
use crate::value::{value_view, values_view, Record, Value, ValueView};

verus! {

/// How large the service is provisioned.
#[derive(Clone, Copy, Debug, PartialEq, Eq, Structural)]
pub enum Size {
    Small,
    Medium,
    Large,
}

impl Default for Size {
    /// The size taken where none is configured.
    fn default() -> (size: Size)
        ensures
            size == Size::Medium,
    {
        Size::Medium
    }
}

impl Size {
    /// The position of this size among the declared tags.
    pub open spec fn spec_index(self) -> nat {
        match self {
            Size::Small => 0,
            Size::Medium => 1,
            Size::Large => 2,
        }
    }

    /// The size at a position among the declared tags; past the last tag,
    /// the last size.
    pub open spec fn at(index: nat) -> Size {
        if index == 0 {
            Size::Small
        } else if index == 1 {
            Size::Medium
        } else {
            Size::Large
        }
    }

    /// The position of this size among the declared tags.
    pub fn index(self) -> (index: usize)
        ensures
            index == self.spec_index(),
            Size::at(index as nat) == self,
    {
        match self {
            Size::Small => 0,
            Size::Medium => 1,
            Size::Large => 2,
        }
    }

    /// The size at a position among the declared tags, if there is one.
    pub fn from_index(index: usize) -> (size: Option<Size>)
        ensures
            size == if index < 3 {
                Some(Size::at(index as nat))
            } else {
                None
            },
    {
        if index == 0 {
            Some(Size::Small)
        } else if index == 1 {
            Some(Size::Medium)
        } else if index == 2 {
            Some(Size::Large)
        } else {
            None
        }
    }

    /// The tags by which the sizes are named, in declaration order.
    pub fn tags() -> (tags: Vec<String>)
        ensures
            strings_view(tags@) == size_tags(),
    {
        let mut tags: Vec<String> = Vec::new();
        tags.push(String::from_str("small"));
        tags.push(String::from_str("medium"));
        tags.push(String::from_str("large"));
        assert(strings_view(tags@) =~= size_tags());
        tags
    }
}

/// The tags by which the sizes are named, in declaration order.
pub open spec fn size_tags() -> Seq<Seq<char>> {
    seq!["small"@, "medium"@, "large"@]
}

/// The port taken where none is configured.
pub fn default_kaboom() -> (port: u16)
    ensures
        port == 8080,
{
    8080
}

/// The configuration of the service.
#[derive(Debug, PartialEq)]
pub struct Foo {
    pub bar: String,
    pub baz: bool,
    pub zoom: Option<u16>,
    pub doom: Vec<u64>,
    pub kaboom: u16,
    pub debug_mode: bool,
    pub size: Size,
    pub provided: Option<String>,
}

/// The mathematical value of a [`Foo`].
pub struct FooView {
    pub bar: Seq<char>,
    pub baz: bool,
    pub zoom: Option<u16>,
    pub doom: Seq<u64>,
    pub kaboom: u16,
    pub debug_mode: bool,
    pub size: Size,
    pub provided: Option<Seq<char>>,
}

impl View for Foo {
    type V = FooView;

    open spec fn view(&self) -> FooView {
        FooView {
            bar: self.bar@,
            baz: self.baz,
            zoom: self.zoom,
            doom: self.doom@,
            kaboom: self.kaboom,
            debug_mode: self.debug_mode,
            size: self.size,
            provided: match self.provided {
                Some(text) => Some(text@),
                None => None,
            },
        }
    }
}

/// A required field of the schema.
pub open spec fn required(name: Seq<char>, shape: ShapeView) -> FieldView {
    FieldView { name, rename: None, shape, default: None }
}

/// A field of the schema that takes `value` where the source has none.
pub open spec fn defaulted(name: Seq<char>, shape: ShapeView, value: ValueView) -> FieldView {
    FieldView { name, rename: None, shape, default: Some(value) }
}

/// The shape of a scalar of the given kind.
pub open spec fn scalar(kind: ScalarKind) -> ShapeView {
    ShapeView::Scalar(kind)
}

/// The shape of an optional scalar of the given kind.
pub open spec fn optional(kind: ScalarKind) -> ShapeView {
    ShapeView::Optional(Box::new(ShapeView::Scalar(kind)))
}

/// The schema of [`Foo`].
pub open spec fn foo_fields() -> Seq<FieldView> {
    seq![
        required("bar"@, scalar(ScalarKind::Str)),
        required("baz"@, scalar(ScalarKind::Bool)),
        required("zoom"@, optional(ScalarKind::U16)),
        required("doom"@, ShapeView::Sequence(Box::new(scalar(ScalarKind::U64)))),
        defaulted("kaboom"@, scalar(ScalarKind::U16), ValueView::Scalar(ScalarView::U16(8080))),
        defaulted(
            "debug_mode"@,
            scalar(ScalarKind::Bool),
            ValueView::Scalar(ScalarView::Bool(false)),
        ),
        defaulted("size"@, ShapeView::Variant(size_tags()), ValueView::Variant(1)),
        required("provided"@, optional(ScalarKind::Str)),
    ]
}

/// The number that an unsigned 64-bit element holds; zero for any other
/// value.
pub open spec fn number_of(value: ValueView) -> u64 {
    match value {
        ValueView::Scalar(ScalarView::U64(n)) => n,
        _ => 0,
    }
}

/// The configuration that the entries of a record of the schema hold.
pub open spec fn foo_of(entries: Seq<(Seq<char>, ValueView)>) -> FooView {
    FooView {
        bar: match entries[0].1 {
            ValueView::Scalar(ScalarView::Str(text)) => text,
            _ => Seq::empty(),
        },
        baz: entries[1].1 == ValueView::Scalar(ScalarView::Bool(true)),
        zoom: match entries[2].1 {
            ValueView::Present(held) => match *held {
                ValueView::Scalar(ScalarView::U16(n)) => Some(n),
                _ => None,
            },
            _ => None,
        },
        doom: match entries[3].1 {
            ValueView::Sequence(items) => items.map_values(|item: ValueView| number_of(item)),
            _ => Seq::empty(),
        },
        kaboom: match entries[4].1 {
            ValueView::Scalar(ScalarView::U16(n)) => n,
            _ => 0,
        },
        debug_mode: entries[5].1 == ValueView::Scalar(ScalarView::Bool(true)),
        size: match entries[6].1 {
            ValueView::Variant(index) => Size::at(index),
            _ => Size::Large,
        },
        provided: match entries[7].1 {
            ValueView::Present(held) => match *held {
                ValueView::Scalar(ScalarView::Str(text)) => Some(text),
                _ => None,
            },
            _ => None,
        },
    }
}

/// Whether the entries hold a configuration: there are eight of them and
/// each holds a value of the shape that the schema declares at its
/// position. Names are not looked at.
pub open spec fn holds_foo(entries: Seq<(Seq<char>, ValueView)>) -> bool {
    &&& entries.len() == 8
    &&& forall|i: int| 0 <= i < 8 ==> conforms((#[trigger] entries[i]).1, foo_fields()[i].shape)
}

/// A record of the schema holds a configuration.
pub proof fn lemma_record_of_schema_holds_foo(entries: Seq<(Seq<char>, ValueView)>)
    requires
        entries_conform(entries, foo_fields()),
    ensures
        holds_foo(entries),
{
}

/// The defaults of the schema have the form of their fields.
pub proof fn lemma_foo_fields_well_formed()
    ensures
        fields_well_formed(foo_fields()),
{
    let fields = foo_fields();
    assert forall|i: int| 0 <= i < fields.len() implies shape_well_formed(
        (#[trigger] fields[i]).shape,
    ) && (fields[i].default matches Some(value) ==> conforms(value, fields[i].shape)) by {
        if i == 2 || i == 3 || i == 7 {
            reveal_with_fuel(shape_well_formed, 2);
        }
    }
}

impl Foo {
    /// The schema: one descriptor per field, in declaration order.
    pub fn schema() -> (fields: Vec<FieldDescriptor>)
        ensures
            fields_view(fields@) == foo_fields(),
    {
        let mut fields: Vec<FieldDescriptor> = Vec::new();
        fields.push(FieldDescriptor::new("bar", Shape::Scalar(ScalarKind::Str)));
        fields.push(FieldDescriptor::new("baz", Shape::Scalar(ScalarKind::Bool)));
        fields.push(FieldDescriptor::new("zoom", Shape::optional(Shape::Scalar(ScalarKind::U16))));
        fields.push(FieldDescriptor::new("doom", Shape::sequence(Shape::Scalar(ScalarKind::U64))));
        fields.push(
            FieldDescriptor::new("kaboom", Shape::Scalar(ScalarKind::U16)).with_default(
                Value::Scalar(Scalar::U16(default_kaboom())),
            ),
        );
        fields.push(
            FieldDescriptor::new("debug_mode", Shape::Scalar(ScalarKind::Bool)).with_default(
                Value::Scalar(Scalar::Bool(false)),
            ),
        );
        fields.push(
            FieldDescriptor::new("size", Shape::variant(Size::tags())).with_default(
                Value::Variant(Size::default().index()),
            ),
        );
        fields.push(
            FieldDescriptor::new("provided", Shape::optional(Shape::Scalar(ScalarKind::Str))),
        );
        assert(fields_view(fields@) =~= foo_fields());
        fields
    }

    /// Reads the configuration out of a record. Returns `None` where the
    /// record does not have the form of the schema.
    pub fn from_record(record: &Record) -> (foo: Option<Foo>)
        ensures
            foo is Some <==> holds_foo(record@),
            foo matches Some(found) ==> found@ == foo_of(record@),
    {
        if record.entries.len() != 8 {
            return None;
        }
        proof {
            reveal_with_fuel(conforms, 2);
            reveal_with_fuel(value_view, 2);
            let entries = record@;
            assert(forall|i: int| 0 <= i < 8 ==> (#[trigger] entries[i]).1 == record.entries@[i].1@);
        }
        let bar = match &record.entries[0].1 {
            Value::Scalar(Scalar::Str(text)) => text.clone(),
            _ => {
                return None;
            },
        };
        let baz = match &record.entries[1].1 {
            Value::Scalar(Scalar::Bool(flag)) => *flag,
            _ => {
                return None;
            },
        };
        let zoom = match &record.entries[2].1 {
            Value::Absent => None,
            Value::Present(held) => match &**held {
                Value::Scalar(Scalar::U16(n)) => Some(*n),
                _ => {
                    assert(!conforms(held@, scalar(ScalarKind::U16)));
                    return None;
                },
            },
            _ => {
                return None;
            },
        };
        let doom = match &record.entries[3].1 {
            Value::Sequence(items) => match numbers(items) {
                Some(numbers) => numbers,
                None => {
                    return None;
                },
            },
            _ => {
                return None;
            },
        };
        let kaboom = match &record.entries[4].1 {
            Value::Scalar(Scalar::U16(n)) => *n,
            _ => {
                return None;
            },
        };
        let debug_mode = match &record.entries[5].1 {
            Value::Scalar(Scalar::Bool(flag)) => *flag,
            _ => {
                return None;
            },
        };
        let size = match &record.entries[6].1 {
            Value::Variant(index) => match Size::from_index(*index) {
                Some(size) => size,
                None => {
                    return None;
                },
            },
            _ => {
                return None;
            },
        };
        let provided = match &record.entries[7].1 {
            Value::Absent => None,
            Value::Present(held) => match &**held {
                Value::Scalar(Scalar::Str(text)) => Some(text.clone()),
                _ => {
                    assert(!conforms(held@, scalar(ScalarKind::Str)));
                    return None;
                },
            },
            _ => {
                return None;
            },
        };
        Some(Foo { bar, baz, zoom, doom, kaboom, debug_mode, size, provided })
    }

    /// Decodes the configuration from key/value pairs.
    pub fn from_iter(iter: Vec<(String, String)>) -> (r: Result<Foo, Error>)
        ensures
            match decoded(foo_fields(), pairs_view(iter@)) {
                Ok(entries) => r matches Ok(foo) && foo@ == foo_of(entries),
                Err(error) => r matches Err(found) && found@ == error,
            },
    {
        let fields = Foo::schema();
        match crate::from_iter(&fields, iter) {
            Ok(record) => {
                proof {
                    lemma_foo_fields_well_formed();
                    lemma_decoded_record_conforms(foo_fields(), pairs_view(iter@));
                    lemma_record_of_schema_holds_foo(record@);
                }
                match Foo::from_record(&record) {
                    Some(foo) => Ok(foo),
                    None => Err(Error::custom("record does not match its schema")),
                }
            },
            Err(error) => Err(error),
        }
    }
}

/// The numbers that the elements of a sequence of unsigned 64-bit values
/// hold. Returns `None` where an element is anything else.
pub fn numbers(items: &Vec<Value>) -> (found: Option<Vec<u64>>)
    ensures
        found is Some <==> (forall|i: int|
            0 <= i < items@.len() ==> conforms(
                #[trigger] values_view(items@)[i],
                ShapeView::Scalar(ScalarKind::U64),
            )),
        found matches Some(numbers) ==> numbers@ == values_view(items@).map_values(
            |item: ValueView| number_of(item),
        ),
{
    let mut found: Vec<u64> = Vec::new();
    let n = items.len();
    let mut i: usize = 0;
    while i < n
        invariant
            n == items@.len(),
            i <= n,
            found@.len() == i,
            forall|j: int| 0 <= j < i ==> found@[j] == number_of(#[trigger] items@[j]@),
            forall|j: int|
                0 <= j < i ==> conforms(
                    #[trigger] values_view(items@)[j],
                    ShapeView::Scalar(ScalarKind::U64),
                ),
        decreases n - i,
    {
        match &items[i] {
            Value::Scalar(Scalar::U64(number)) => {
                found.push(*number);
            },
            _ => {
                assert(!conforms(
                    values_view(items@)[i as int],
                    ShapeView::Scalar(ScalarKind::U64),
                ));
                return None;
            },
        }
        i += 1;
    }
    assert forall|j: int| 0 <= j < n implies found@[j] == number_of(
        #[trigger] values_view(items@)[j],
    ) by {
        assert(found@[j] == number_of(items@[j]@));
    }
    assert(found@ =~= values_view(items@).map_values(
        |item: ValueView| number_of(item),
    ));
    Some(found)
}

} // verus!
