//! The values that reading produces.

use vstd::prelude::*;

verus! {

/// A value read from binary data.
#[derive(Debug, PartialEq, Eq)]
pub enum Value {
    /// The value of an ignored field: nothing.
    Unit,
    /// An integer of any of the fixed widths, or the result of an expression.
    Int(i128),
    /// The elements of an array or of a counted list, in the order read.
    List(Vec<Value>),
    /// Items with the separators that stood between or after them.
    Punctuated { data: Vec<Value>, separators: Vec<Value> },
    /// A conditional field whose condition did not hold, or a tried field
    /// whose read failed.
    Absent,
    /// A conditional or tried field that was read.
    Present(Box<Value>),
    /// A struct: the values of its fields that are not temporary, in
    /// declaration order. `ty` is the index of the struct in its schema.
    Record { ty: usize, fields: Vec<Value> },
    /// An enum: the index of the variant that was chosen and the values of its
    /// fields that are not temporary.
    Variant { ty: usize, index: usize, fields: Vec<Value> },
    /// A pointer: the number that was read where the pointer stands and, once
    /// it has been followed, the value found where it points.
    Pointer { ptr: i128, target: Option<Box<Value>> },
}

/// The mathematical model of a [`Value`].
pub enum ValueView {
    Unit,
    Int(i128),
    List(Seq<ValueView>),
    Punctuated { data: Seq<ValueView>, separators: Seq<ValueView> },
    Absent,
    Present(Box<ValueView>),
    Record { ty: usize, fields: Seq<ValueView> },
    Variant { ty: usize, index: usize, fields: Seq<ValueView> },
    Pointer { ptr: i128, target: Option<Box<ValueView>> },
}

impl Value {
    pub open spec fn view(&self) -> ValueView
        decreases self,
    {
        match self {
            Value::Unit => ValueView::Unit,
            Value::Int(v) => ValueView::Int(*v),
            Value::List(items) => ValueView::List(
                Seq::new(
                    items@.len(),
                    |i: int|
                        if 0 <= i < items@.len() {
                            items@[i].view()
                        } else {
                            ValueView::Unit
                        },
                ),
            ),
            Value::Punctuated { data, separators } => ValueView::Punctuated {
                data: Seq::new(
                    data@.len(),
                    |i: int|
                        if 0 <= i < data@.len() {
                            data@[i].view()
                        } else {
                            ValueView::Unit
                        },
                ),
                separators: Seq::new(
                    separators@.len(),
                    |i: int|
                        if 0 <= i < separators@.len() {
                            separators@[i].view()
                        } else {
                            ValueView::Unit
                        },
                ),
            },
            Value::Absent => ValueView::Absent,
            Value::Present(inner) => ValueView::Present(Box::new(inner.view())),
            Value::Record { ty, fields } => ValueView::Record {
                ty: *ty,
                fields: Seq::new(
                    fields@.len(),
                    |i: int|
                        if 0 <= i < fields@.len() {
                            fields@[i].view()
                        } else {
                            ValueView::Unit
                        },
                ),
            },
            Value::Variant { ty, index, fields } => ValueView::Variant {
                ty: *ty,
                index: *index,
                fields: Seq::new(
                    fields@.len(),
                    |i: int|
                        if 0 <= i < fields@.len() {
                            fields@[i].view()
                        } else {
                            ValueView::Unit
                        },
                ),
            },
            Value::Pointer { ptr, target } => ValueView::Pointer {
                ptr: *ptr,
                target: match target {
                    Some(t) => Some(Box::new(t.view())),
                    None => None,
                },
            },
        }
    }

    /// The integer that an expression reads from this value.
    pub fn as_int(&self) -> (n: i128)
        ensures
            n == self@.as_int(),
        decreases self,
    {
        match self {
            Value::Int(v) => *v,
            Value::Present(inner) => inner.as_int(),
            Value::Pointer { ptr, .. } => *ptr,
            _ => 0,
        }
    }

    /// A copy of the value.
    pub fn deep_clone(&self) -> (copy: Value)
        ensures
            copy@ == self@,
        decreases self, 0nat,
    {
        match self {
            Value::Unit => Value::Unit,
            Value::Int(v) => Value::Int(*v),
            Value::List(items) => {
                let copy = Value::List(clone_values(items));
                proof {
                    lemma_list_view(*items);
                    lemma_list_view(copy->List_0);
                }
                copy
            },
            Value::Punctuated { data, separators } => {
                let copy = Value::Punctuated {
                    data: clone_values(data),
                    separators: clone_values(separators),
                };
                proof {
                    lemma_punctuated_view(*data, *separators);
                    lemma_punctuated_view(copy->data, copy->separators);
                }
                copy
            },
            Value::Absent => Value::Absent,
            Value::Present(inner) => Value::Present(Box::new(inner.deep_clone())),
            Value::Record { ty, fields } => {
                let copy = Value::Record { ty: *ty, fields: clone_values(fields) };
                proof {
                    lemma_record_view(*ty, *fields);
                    lemma_record_view(*ty, copy->Record_fields);
                }
                copy
            },
            Value::Variant { ty, index, fields } => {
                let copy = Value::Variant { ty: *ty, index: *index, fields: clone_values(fields) };
                proof {
                    lemma_variant_view(*ty, *index, *fields);
                    lemma_variant_view(*ty, *index, copy->Variant_fields);
                }
                copy
            },
            Value::Pointer { ptr, target } => {
                let target_copy = match target {
                    Some(t) => Some(Box::new(t.deep_clone())),
                    None => None,
                };
                Value::Pointer { ptr: *ptr, target: target_copy }
            },
        }
    }
}

/// A copy of each value, in order.
pub fn clone_values(items: &Vec<Value>) -> (copy: Vec<Value>)
    ensures
        values_view(copy@) == values_view(items@),
    decreases items, 1nat,
{
    let mut copy: Vec<Value> = Vec::new();
    let mut i: usize = 0;
    while i < items.len()
        invariant
            i <= items.len(),
            copy.len() == i,
            forall|j: int| 0 <= j < i ==> copy@[j]@ == items@[j]@,
        decreases items.len() - i,
    {
        let item = items[i].deep_clone();
        copy.push(item);
        i = i + 1;
    }
    assert(values_view(copy@) =~= values_view(items@));
    copy
}

impl ValueView {
    /// The integer that an expression reads from this value: the number of
    /// an integer or of a pointer, the same of the value inside a present one,
    /// and zero of anything else.
    pub open spec fn as_int(self) -> i128
        decreases self,
    {
        match self {
            ValueView::Int(v) => v,
            ValueView::Present(inner) => inner.as_int(),
            ValueView::Pointer { ptr, .. } => ptr,
            _ => 0,
        }
    }
}

/// The models of a list of values.
pub open spec fn values_view(values: Seq<Value>) -> Seq<ValueView> {
    Seq::new(values.len(), |i: int| values[i]@)
}

/// Pushing a value pushes its model.
pub proof fn lemma_values_view_push(values: Seq<Value>, value: Value)
    ensures
        values_view(values.push(value)) == values_view(values).push(value@),
{
    assert(values_view(values.push(value)) =~= values_view(values).push(value@));
}

/// The model of a list is the list of the models.
pub proof fn lemma_list_view(items: Vec<Value>)
    ensures
        Value::List(items)@ == ValueView::List(values_view(items@)),
{
    assert(Value::List(items)@->List_0 =~= values_view(items@));
}

/// The model of punctuated data is made of the models of its parts.
pub proof fn lemma_punctuated_view(data: Vec<Value>, separators: Vec<Value>)
    ensures
        (Value::Punctuated { data, separators })@ == (ValueView::Punctuated {
            data: values_view(data@),
            separators: values_view(separators@),
        }),
{
    let v = Value::Punctuated { data, separators };
    assert(v@->Punctuated_data =~= values_view(data@));
    assert(v@->Punctuated_separators =~= values_view(separators@));
}

/// The model of a record holds the models of its fields.
pub proof fn lemma_record_view(ty: usize, fields: Vec<Value>)
    ensures
        (Value::Record { ty, fields })@ == (ValueView::Record { ty, fields: values_view(fields@) }),
{
    let v = Value::Record { ty, fields };
    assert(v@->Record_fields =~= values_view(fields@));
}

/// The model of a variant holds the models of its fields.
pub proof fn lemma_variant_view(ty: usize, index: usize, fields: Vec<Value>)
    ensures
        (Value::Variant { ty, index, fields })@ == (ValueView::Variant {
            ty,
            index,
            fields: values_view(fields@),
        }),
{
    let v = Value::Variant { ty, index, fields };
    assert(v@->Variant_fields =~= values_view(fields@));
}

/// The model of a result of a read.
pub open spec fn outcome_view(r: Result<Value, crate::error::Error>) -> Result<
    ValueView,
    crate::error::ErrorView,
> {
    match r {
        Ok(v) => Ok(v@),
        Err(e) => Err(e@),
    }
}

} // verus!
