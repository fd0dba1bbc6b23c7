//! Decoded values: what a field holds once its text has been resolved.

use vstd::prelude::*;
use crate::scalar::{Scalar, ScalarView};

verus! {

/// The typed value of one field.
#[derive(Debug, PartialEq)]
pub enum Value {
    /// A primitive value.
    Scalar(Scalar),
    /// An optional field for which nothing was supplied.
    Absent,
    /// An optional field for which a value was supplied.
    Present(Box<Value>),
    /// The elements of a sequence field, in order.
    Sequence(Vec<Value>),
    /// The fields of a nested record.
    Record(Record),
    /// The position, among the declared tags, of the variant that an
    /// enumerated field names.
    Variant(usize),
}

/// A decoded record: one value per field of its schema, under the field's
/// name, in declaration order.
#[derive(Debug, PartialEq)]
pub struct Record {
    pub entries: Vec<(String, Value)>,
}

/// The mathematical value of a [`Value`].
pub enum ValueView {
    Scalar(ScalarView),
    Absent,
    Present(Box<ValueView>),
    Sequence(Seq<ValueView>),
    Record(Seq<(Seq<char>, ValueView)>),
    Variant(nat),
}

/// The mathematical value of a [`Value`].
pub open spec fn value_view(value: Value) -> ValueView
    decreases value,
{
    match value {
        Value::Scalar(scalar) => ValueView::Scalar(scalar@),
        Value::Absent => ValueView::Absent,
        Value::Present(inner) => ValueView::Present(Box::new(value_view(*inner))),
        Value::Sequence(items) => ValueView::Sequence(values_view(items@)),
        Value::Record(record) => ValueView::Record(entries_view(record.entries@)),
        Value::Variant(index) => ValueView::Variant(index as nat),
    }
}

/// The mathematical values of a list of values, in order.
pub open spec fn values_view(values: Seq<Value>) -> Seq<ValueView>
    decreases values,
{
    Seq::new(
        values.len(),
        |i: int|
            if 0 <= i < values.len() {
                value_view(values[i])
            } else {
                ValueView::Absent
            },
    )
}

/// The mathematical value of a record's entries: each name with the value
/// held under it, in order.
pub open spec fn entries_view(entries: Seq<(String, Value)>) -> Seq<(Seq<char>, ValueView)>
    decreases entries,
{
    Seq::new(
        entries.len(),
        |i: int|
            if 0 <= i < entries.len() {
                (entries[i].0@, value_view(entries[i].1))
            } else {
                (Seq::empty(), ValueView::Absent)
            },
    )
}

impl View for Value {
    type V = ValueView;

    open spec fn view(&self) -> ValueView {
        value_view(*self)
    }
}

impl View for Record {
    type V = Seq<(Seq<char>, ValueView)>;

    open spec fn view(&self) -> Seq<(Seq<char>, ValueView)> {
        entries_view(self.entries@)
    }
}

impl Value {
    /// A copy with the same value.
    pub fn duplicate(&self) -> (copy: Value)
        ensures
            copy@ == self@,
        decreases self,
    {
        match self {
            Value::Scalar(scalar) => Value::Scalar(scalar.duplicate()),
            Value::Absent => Value::Absent,
            Value::Present(inner) => Value::Present(Box::new(inner.duplicate())),
            Value::Sequence(items) => Value::Sequence(duplicate_all(items)),
            Value::Record(record) => Value::Record(record.duplicate()),
            Value::Variant(index) => Value::Variant(*index),
        }
    }
}

/// Copies of the given values, in order.
pub fn duplicate_all(items: &Vec<Value>) -> (copies: Vec<Value>)
    ensures
        values_view(copies@) == values_view(items@),
    decreases items,
{
    let mut copies: Vec<Value> = Vec::new();
    let n = items.len();
    let mut i: usize = 0;
    while i < n
        invariant
            n == items@.len(),
            i <= n,
            copies@.len() == i,
            forall|j: int| 0 <= j < i ==> (#[trigger] copies@[j])@ == items@[j]@,
        decreases n - i,
    {
        copies.push(items[i].duplicate());
        i += 1;
    }
    assert(values_view(copies@) =~= values_view(items@));
    copies
}

impl Record {
    /// A copy with the same entries.
    pub fn duplicate(&self) -> (copy: Record)
        ensures
            copy@ == self@,
        decreases self,
    {
        let mut copies: Vec<(String, Value)> = Vec::new();
        let n = self.entries.len();
        let mut i: usize = 0;
        while i < n
            invariant
                n == self.entries@.len(),
                i <= n,
                copies@.len() == i,
                forall|j: int|
                    0 <= j < i ==> (#[trigger] copies@[j]).0@ == self.entries@[j].0@
                        && copies@[j].1@ == self.entries@[j].1@,
            decreases n - i,
        {
            let entry = &self.entries[i];
            copies.push((entry.0.clone(), entry.1.duplicate()));
            i += 1;
        }
        assert(entries_view(copies@) =~= entries_view(self.entries@));
        Record { entries: copies }
    }

    /// The number of entries.
    pub fn len(&self) -> (n: usize)
        ensures
            n == self@.len(),
    {
        self.entries.len()
    }
}

} // verus!
