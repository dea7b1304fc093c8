//! Lists of items that are set apart by separators.

use vstd::prelude::*;
use vstd::string::StringExecFns;
use crate::error::{BinResult, Error, ErrorView};
use crate::io::Reader;
use crate::laws::{law_separated_counts, separators_for};
use crate::model::{separated_from, separated_spec};
use crate::options::ReadOptions;
use crate::reader::read_type;
use crate::schema::Schema;
use crate::value::{lemma_values_view_push, values_view, Value, ValueView};

verus! {

/// Items with the separators that were read between or after them. Which
/// parser reads such a list cannot be told from the types alone: a field names
/// [`Punctuated::separated`] or [`Punctuated::separated_trailing`].
#[derive(Debug, PartialEq, Eq)]
pub struct Punctuated<T, P> {
    data: Vec<T>,
    pub seperators: Vec<P>,
}

impl<T, P> Punctuated<T, P> {
    /// The items, in the order read.
    pub closed spec fn items(&self) -> Seq<T> {
        self.data@
    }

    /// The separators, in the order read.
    pub closed spec fn separators(&self) -> Seq<P> {
        self.seperators@
    }

    /// A list of the given items and separators.
    pub fn from_parts(data: Vec<T>, seperators: Vec<P>) -> (list: Self)
        ensures
            list.items() == data@,
            list.separators() == seperators@,
    {
        Punctuated { data, seperators }
    }

    /// The items and the separators.
    pub fn into_parts(self) -> (parts: (Vec<T>, Vec<P>))
        ensures
            parts.0@ == self.items(),
            parts.1@ == self.separators(),
    {
        (self.data, self.seperators)
    }

    /// The number of items.
    pub fn len(&self) -> (n: usize)
        ensures
            n == self.items().len(),
    {
        self.data.len()
    }

    /// The items.
    pub fn data(&self) -> (items: &Vec<T>)
        ensures
            items@ == self.items(),
    {
        &self.data
    }

    /// Puts `item` in the place of the item with the given index.
    pub fn set(&mut self, index: usize, item: T)
        requires
            index < old(self).items().len(),
        ensures
            final(self).items() == old(self).items().update(index as int, item),
            final(self).separators() == old(self).separators(),
    {
        self.data.set(index, item);
    }
}

/// The text of the items as `format!` prints them with `{:?}`, which is
/// `Debug` of `Vec<T>`: the text of each item between brackets, with commas
/// between the items. Nothing is claimed of the text, which the `Debug` of
/// the items decides.
#[verifier::external_body]
fn debug_text<T: core::fmt::Debug>(items: &Vec<T>) -> (text: String) {
    format!("{:?}", items)
}

impl<T: core::fmt::Debug, P> Punctuated<T, P> {
    /// How the list is shown: the items alone, as a list of them is shown;
    /// the separators are left out.
    pub fn items_text(&self) -> (text: String) {
        debug_text(&self.data)
    }
}

impl<T, P> core::ops::Deref for Punctuated<T, P> {
    type Target = Vec<T>;

    /// The items.
    fn deref(&self) -> (items: &Vec<T>)
        ensures
            items@ == self.items(),
    {
        &self.data
    }
}

/// The model of a list of values with their separators: the models of the
/// items and those of the separators.
pub open spec fn punctuated_view(list: Punctuated<Value, Value>) -> (Seq<ValueView>, Seq<ValueView>) {
    (values_view(list.items()), values_view(list.separators()))
}

/// The model of the result of reading such a list.
pub open spec fn punctuated_outcome(r: BinResult<Punctuated<Value, Value>>) -> Result<
    (Seq<ValueView>, Seq<ValueView>),
    ErrorView,
> {
    match r {
        Ok(list) => Ok(punctuated_view(list)),
        Err(e) => Err(e@),
    }
}

/// Reads as many items of the type `item` as the count of the options says,
/// with a separator of the type `separator` after each, but after the last
/// one only if `trailing` is set. The byte order of the options is taken as it
/// stands.
#[verifier::loop_isolation(false)]
pub(crate) fn read_separated(
    schema: &Schema,
    reader: &mut Reader,
    item: usize,
    separator: usize,
    trailing: bool,
    options: &ReadOptions,
    args: &Vec<i128>,
) -> (r: BinResult<Punctuated<Value, Value>>)
    ensures
        final(reader).bytes() == old(reader).bytes(),
        (final(reader).state(), punctuated_outcome(r)) == separated_spec(
            schema,
            old(reader).bytes(),
            old(reader).state(),
            item,
            separator,
            trailing,
            *options,
            args@,
        ),
    decreases crate::model::larger(item, separator) + 1, 1int, 0int,
{
    let n: usize = match options.count {
        Some(n) => n,
        None => {
            return Err(
                Error::MissingRequiredOption {
                    pos: reader.source.pos(),
                    name: String::from_str("count"),
                },
            );
        },
    };
    let ghost data = reader.bytes();
    let ghost st0 = reader.state();
    let no_args: Vec<i128> = Vec::new();
    let mut items: Vec<Value> = Vec::new();
    let mut seps: Vec<Value> = Vec::new();
    assert(values_view(items@) =~= Seq::<ValueView>::empty());
    assert(values_view(seps@) =~= Seq::<ValueView>::empty());
    assert(no_args@ =~= Seq::<i128>::empty());
    while items.len() < n
        invariant
            reader.bytes() == data,
            items@.len() <= n,
            no_args@ == Seq::<i128>::empty(),
            separated_spec(schema, data, st0, item, separator, trailing, *options, args@)
                == separated_from(
                schema,
                data,
                reader.state(),
                item,
                separator,
                trailing,
                *options,
                args@,
                n as nat,
                values_view(items@),
                values_view(seps@),
            ),
        decreases n - items.len(),
    {
        let v = match read_type(schema, reader, item, options, args) {
            Ok(v) => v,
            Err(e) => {
                return Err(e);
            },
        };
        if trailing || items.len() + 1 != n {
            let s = match read_type(schema, reader, separator, options, &no_args) {
                Ok(s) => s,
                Err(e) => {
                    return Err(e);
                },
            };
            proof {
                lemma_values_view_push(seps@, s);
            }
            seps.push(s);
        }
        proof {
            lemma_values_view_push(items@, v);
        }
        items.push(v);
    }
    Ok(Punctuated { data: items, seperators: seps })
}

impl Punctuated<Value, Value> {
    /// Reads items of the type `item` with a separator of the type
    /// `separator` between any two of them: as many items as the count of the
    /// options says, and one separator less (none for no item). Items receive
    /// `args`, separators no arguments. Without a count the read fails with
    /// `MissingRequiredOption` and nothing is read.
    ///
    /// The native byte order stands for that of the machine, so the outcome is
    /// the one for big-endian options or the one for little-endian options;
    /// for options that name an order the two are the same.
    pub fn separated(
        schema: &Schema,
        reader: &mut Reader,
        item: usize,
        separator: usize,
        options: &ReadOptions,
        args: &Vec<i128>,
    ) -> (r: BinResult<Self>)
        ensures
            final(reader).bytes() == old(reader).bytes(),
            (final(reader).state(), punctuated_outcome(r)) == separated_spec(
                schema,
                old(reader).bytes(),
                old(reader).state(),
                item,
                separator,
                false,
                options.on_host(crate::endian::Endian::Big),
                args@,
            ) || (final(reader).state(), punctuated_outcome(r)) == separated_spec(
                schema,
                old(reader).bytes(),
                old(reader).state(),
                item,
                separator,
                false,
                options.on_host(crate::endian::Endian::Little),
                args@,
            ),
            options.count is None ==> {
                &&& r matches Err(e)
                &&& e@ == (ErrorView::MissingRequiredOption {
                    pos: old(reader).source.position(),
                    name: "count"@,
                })
                &&& final(reader).state() == old(reader).state()
            },
            r matches Ok(list) ==> {
                &&& options.count matches Some(n)
                &&& list.items().len() == n
                &&& list.separators().len() == separators_for(n as nat, n as nat, false)
            },
    {
        let settled = options.resolved();
        proof {
            if let Some(n) = options.count {
                law_separated_counts(
                    schema,
                    reader.bytes(),
                    reader.state(),
                    item,
                    separator,
                    false,
                    settled,
                    args@,
                    n as nat,
                    Seq::empty(),
                    Seq::empty(),
                );
            }
        }
        read_separated(schema, reader, item, separator, false, &settled, args)
    }

    /// Reads items of the type `item` with a separator of the type
    /// `separator` after each of them: as many items, and as many separators,
    /// as the count of the options says. Items receive `args`, separators no
    /// arguments. Without a count the read fails with `MissingRequiredOption`
    /// and nothing is read.
    ///
    /// The native byte order stands for that of the machine, as in
    /// [`Punctuated::separated`].
    pub fn separated_trailing(
        schema: &Schema,
        reader: &mut Reader,
        item: usize,
        separator: usize,
        options: &ReadOptions,
        args: &Vec<i128>,
    ) -> (r: BinResult<Self>)
        ensures
            final(reader).bytes() == old(reader).bytes(),
            (final(reader).state(), punctuated_outcome(r)) == separated_spec(
                schema,
                old(reader).bytes(),
                old(reader).state(),
                item,
                separator,
                true,
                options.on_host(crate::endian::Endian::Big),
                args@,
            ) || (final(reader).state(), punctuated_outcome(r)) == separated_spec(
                schema,
                old(reader).bytes(),
                old(reader).state(),
                item,
                separator,
                true,
                options.on_host(crate::endian::Endian::Little),
                args@,
            ),
            options.count is None ==> {
                &&& r matches Err(e)
                &&& e@ == (ErrorView::MissingRequiredOption {
                    pos: old(reader).source.position(),
                    name: "count"@,
                })
                &&& final(reader).state() == old(reader).state()
            },
            r matches Ok(list) ==> {
                &&& options.count matches Some(n)
                &&& list.items().len() == n
                &&& list.separators().len() == separators_for(n as nat, n as nat, true)
            },
    {
        let settled = options.resolved();
        proof {
            if let Some(n) = options.count {
                law_separated_counts(
                    schema,
                    reader.bytes(),
                    reader.state(),
                    item,
                    separator,
                    true,
                    settled,
                    args@,
                    n as nat,
                    Seq::empty(),
                    Seq::empty(),
                );
            }
        }
        read_separated(schema, reader, item, separator, true, &settled, args)
    }
}

} // verus!
