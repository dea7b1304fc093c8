//! The directives that a schema attaches to a type, a variant or a field.

use vstd::prelude::*;
use crate::endian::Endian;
use crate::expr::Expr;
use crate::io::IntType;

verus! {

/// A condition that must hold, with the text it was written as and an
/// optional message of its author.
#[derive(Debug, PartialEq, Eq)]
pub struct Assert {
    pub cond: Expr,
    pub text: String,
    pub message: Option<String>,
}

/// A number that must stand at the start of a type or variant, with the text it
/// was written as.
#[derive(Debug, PartialEq, Eq)]
pub struct Magic {
    pub ty: IntType,
    pub value: i128,
    pub text: String,
}

/// The byte order of a field: fixed, or the named order if the condition
/// holds when the field is read and the opposite order if it does not.
#[derive(Debug, PartialEq, Eq)]
pub enum CondEndian {
    Fixed(Endian),
    Cond(Endian, Expr),
}

impl CondEndian {
    /// Whether the byte order can stand on a field: a condition chooses
    /// between the two fixed orders, so it never names the native one.
    pub open spec fn valid_spec(&self) -> bool {
        !(self matches CondEndian::Cond(e, _) && e == Endian::Native)
    }

    /// Whether the byte order can stand on a field.
    #[verifier::when_used_as_spec(valid_spec)]
    pub fn valid(&self) -> (b: bool)
        ensures
            b == self.valid_spec(),
    {
        match self {
            CondEndian::Cond(Endian::Native, _) => false,
            _ => true,
        }
    }
}

/// A mapping that can reject: the value read is replaced by `value` if `valid`
/// holds, and otherwise the read fails with `cause`. Both expressions see the
/// value that was read under the index of the field.
#[derive(Debug, PartialEq, Eq)]
pub struct TryMap {
    pub value: Expr,
    pub valid: Expr,
    pub cause: String,
}

/// What is done to the value of a field or of a type after it was read.
#[derive(Debug, PartialEq, Eq)]
pub enum Mapping {
    /// Nothing.
    Keep,
    /// It is replaced by the value of the expression. On a field the
    /// expression sees the value that was read under the index of the field;
    /// on a type it sees the fields that the value holds.
    Replace(Expr),
    /// It is replaced or rejected.
    Try(TryMap),
}

impl Mapping {
    /// Whether there is a mapping.
    pub open spec fn is_some_spec(&self) -> bool {
        !(self is Keep)
    }

    /// Whether there is a mapping.
    #[verifier::when_used_as_spec(is_some_spec)]
    pub fn is_some(&self) -> (b: bool)
        ensures
            b == self.is_some_spec(),
    {
        match self {
            Mapping::Keep => false,
            _ => true,
        }
    }
}

/// A parser that a field names in place of the parser of its type. Both read
/// a list of items of the field's type with separators of the type
/// `separator` (an index into the schema).
#[derive(Clone, Copy, Debug, PartialEq, Eq, Structural)]
pub enum CustomParser {
    /// A separator stands between any two items.
    Separated { separator: usize },
    /// A separator stands after every item.
    SeparatedTrailing { separator: usize },
}

impl CustomParser {
    /// The type of the separators.
    pub open spec fn separator_spec(self) -> usize {
        match self {
            CustomParser::Separated { separator } => separator,
            CustomParser::SeparatedTrailing { separator } => separator,
        }
    }

    /// The type of the separators.
    #[verifier::when_used_as_spec(separator_spec)]
    pub fn separator(self) -> (s: usize)
        ensures
            s == self.separator_spec(),
    {
        match self {
            CustomParser::Separated { separator } => separator,
            CustomParser::SeparatedTrailing { separator } => separator,
        }
    }

    /// Whether a separator stands after the last item too.
    pub open spec fn trailing_spec(self) -> bool {
        self is SeparatedTrailing
    }

    /// Whether a separator stands after the last item too.
    #[verifier::when_used_as_spec(trailing_spec)]
    pub fn trailing(self) -> (t: bool)
        ensures
            t == self.trailing_spec(),
    {
        match self {
            CustomParser::Separated { .. } => false,
            CustomParser::SeparatedTrailing { .. } => true,
        }
    }
}

/// What an enum reports when none of its variants could be read.
#[derive(Clone, Copy, Debug, PartialEq, Eq, Structural)]
pub enum EnumErrorHandling {
    /// Nothing was chosen: the errors of all variants are collected.
    Default,
    /// The errors of all variants are collected.
    ReturnAllErrors,
    /// The first failure ends the search, and only the fact that no variant
    /// matched is reported.
    ReturnUnexpectedError,
}

/// The directives of a type or of a variant.
#[derive(Debug, PartialEq, Eq)]
pub struct TypeDirectives {
    /// The byte order of everything inside; the native order changes nothing.
    pub endian: Endian,
    /// A number that must come first.
    pub magic: Option<Magic>,
    /// Conditions on the arguments, tested before any field is read.
    pub pre_assert: Vec<Assert>,
    /// Conditions on the fields, tested after all of them were read.
    pub assert: Vec<Assert>,
    /// How many arguments the type takes, if it declares them.
    pub import: Option<usize>,
    /// What an enum reports when no variant could be read.
    pub return_error_mode: EnumErrorHandling,
    /// The integer type in which a unit enum is stored.
    pub repr: Option<IntType>,
    /// What is done to the value of the type after it was read. The
    /// expressions of the mapping see the fields that the value holds, by
    /// their index in the value. Only the mapping of a struct or enum is
    /// applied; one that stands on a variant changes nothing.
    pub map: Mapping,
}

impl TypeDirectives {
    /// No directives at all.
    pub fn new() -> (attrs: TypeDirectives)
        ensures
            attrs.endian == Endian::Native,
            attrs.magic is None,
            attrs.pre_assert@.len() == 0,
            attrs.assert@.len() == 0,
            attrs.import is None,
            attrs.return_error_mode == EnumErrorHandling::Default,
            attrs.repr is None,
            attrs.map is Keep,
    {
        TypeDirectives {
            endian: Endian::Native,
            magic: None,
            pre_assert: Vec::new(),
            assert: Vec::new(),
            import: None,
            return_error_mode: EnumErrorHandling::Default,
            repr: None,
            map: Mapping::Keep,
        }
    }

    /// Whether the directives may stand on a variant: a variant chooses no
    /// error handling and declares no arguments.
    pub open spec fn fits_variant_spec(&self) -> bool {
        self.return_error_mode == EnumErrorHandling::Default && self.import is None
    }

    /// Whether the directives may stand on a variant.
    #[verifier::when_used_as_spec(fits_variant_spec)]
    pub fn fits_variant(&self) -> (b: bool)
        ensures
            b == self.fits_variant_spec(),
    {
        let plain = match self.return_error_mode {
            EnumErrorHandling::Default => true,
            _ => false,
        };
        plain && self.import.is_none()
    }
}

/// How the value of a field comes about.
#[derive(Clone, Copy, Debug, PartialEq, Eq, Structural)]
pub enum FieldAction {
    /// Nothing is read and the value is [`crate::value::Value::Unit`]: the
    /// default that an ignored field has, whatever its type.
    Ignore,
    /// The parser that the field names reads it.
    Custom(CustomParser),
    /// Nothing is read and the value is the default of the field's type.
    Default,
    /// Nothing is read and the value is that of an expression.
    Calc,
    /// The parser of the field's type reads it.
    Normal,
}

/// What remains to be done to a value once it has been read: following the
/// pointer it holds.
#[derive(Clone, Copy, Debug, PartialEq, Eq, Structural)]
pub enum AfterParse {
    /// Nothing.
    Nop,
    /// The pointer is followed if the tried read gave a value.
    Try,
    /// The pointer is followed.
    Normal,
}

/// The directives of one field.
#[derive(Debug, PartialEq, Eq)]
pub struct FieldDirectives {
    /// The name of the field; the trace shows it.
    pub name: String,
    /// The type of the field, as an index into the schema.
    pub ty: usize,
    /// The byte order of the field.
    pub endian: CondEndian,
    /// The number of items, for a list.
    pub count: Option<Expr>,
    /// What is added to a pointer, computed when the field is read.
    pub offset: Option<Expr>,
    /// What is added to a pointer, computed when all fields have been read.
    pub offset_after: Option<Expr>,
    /// The field is read only if this holds.
    pub if_cond: Option<Expr>,
    /// Conditions tested as soon as the field has its value.
    pub assert: Vec<Assert>,
    /// The value is the default of the type; nothing is read.
    pub default: bool,
    /// The value is nothing, the default of an ignored field; nothing is
    /// read.
    pub ignore: bool,
    /// The value is that of the expression; nothing is read.
    pub calc: Option<Expr>,
    /// What is done to the value after it was read.
    pub map: Mapping,
    /// The parser that reads the field in place of that of its type.
    pub parse_with: Option<CustomParser>,
    /// The arguments handed to the parser of the field.
    pub args: Vec<Expr>,
    /// Bytes skipped before the field.
    pub pad_before: Option<Expr>,
    /// Bytes skipped after the field.
    pub pad_after: Option<Expr>,
    /// The field starts at the next multiple of this.
    pub align_before: Option<Expr>,
    /// What follows the field starts at the next multiple of this.
    pub align_after: Option<Expr>,
    /// The field takes at least this many bytes.
    pub pad_size_to: Option<Expr>,
    /// The position the field is read at.
    pub seek_before: Option<Expr>,
    /// The cursor returns to where it stood before the field.
    pub restore_position: bool,
    /// A pointer in the field is followed at once, not after the last field.
    pub deref_now: bool,
    /// The same as `deref_now`.
    pub postprocess_now: bool,
    /// A failed read makes the field absent instead of failing the type.
    pub do_try: bool,
    /// The field serves the reading only and is left out of the result.
    pub temp: bool,
}

impl FieldDirectives {
    /// A field of the given name and type without any directive.
    pub fn new(name: String, ty: usize) -> (f: FieldDirectives)
        ensures
            f.name == name,
            f.ty == ty,
            f.is_plain(),
    {
        FieldDirectives {
            name,
            ty,
            endian: CondEndian::Fixed(Endian::Native),
            count: None,
            offset: None,
            offset_after: None,
            if_cond: None,
            assert: Vec::new(),
            default: false,
            ignore: false,
            calc: None,
            map: Mapping::Keep,
            parse_with: None,
            args: Vec::new(),
            pad_before: None,
            pad_after: None,
            align_before: None,
            align_after: None,
            pad_size_to: None,
            seek_before: None,
            restore_position: false,
            deref_now: false,
            postprocess_now: false,
            do_try: false,
            temp: false,
        }
    }

    /// Whether the field has no directive but its name and type.
    pub open spec fn is_plain(&self) -> bool {
        &&& self.endian == CondEndian::Fixed(Endian::Native)
        &&& self.count is None
        &&& self.offset is None
        &&& self.offset_after is None
        &&& self.if_cond is None
        &&& self.assert@.len() == 0
        &&& !self.default
        &&& !self.ignore
        &&& self.calc is None
        &&& self.map is Keep
        &&& self.parse_with is None
        &&& self.args@.len() == 0
        &&& self.pad_before is None
        &&& self.pad_after is None
        &&& self.align_before is None
        &&& self.align_after is None
        &&& self.pad_size_to is None
        &&& self.seek_before is None
        &&& !self.restore_position
        &&& !self.deref_now
        &&& !self.postprocess_now
        &&& !self.do_try
        &&& !self.temp
    }

    /// How many of the directives that say where the value comes from are
    /// set: `ignore`, `default`, `calc` and `parse_with`.
    pub open spec fn sources(&self) -> nat {
        let a: nat = if self.ignore { 1 } else { 0 };
        let b: nat = if self.default { 1 } else { 0 };
        let c: nat = if self.calc is Some { 1 } else { 0 };
        let d: nat = if self.parse_with is Some { 1 } else { 0 };
        a + b + c + d
    }

    /// Whether the directives agree: the value has at most one source besides
    /// the parser of the type.
    pub open spec fn consistent_spec(&self) -> bool {
        self.sources() <= 1
    }

    /// Whether the directives agree.
    #[verifier::when_used_as_spec(consistent_spec)]
    pub fn consistent(&self) -> (b: bool)
        ensures
            b == self.consistent_spec(),
    {
        let a: u8 = if self.ignore { 1 } else { 0 };
        let b: u8 = if self.default { 1 } else { 0 };
        let c: u8 = if self.calc.is_some() { 1 } else { 0 };
        let d: u8 = if self.parse_with.is_some() { 1 } else { 0 };
        a + b + c + d <= 1
    }

    /// How the value of the field comes about. Where several sources are
    /// named, `ignore` goes before `parse_with`, that before `default`, and
    /// that before `calc`.
    pub open spec fn action_spec(&self) -> FieldAction {
        if self.ignore {
            FieldAction::Ignore
        } else if let Some(parser) = self.parse_with {
            FieldAction::Custom(parser)
        } else if self.default {
            FieldAction::Default
        } else if self.calc is Some {
            FieldAction::Calc
        } else {
            FieldAction::Normal
        }
    }

    /// How the value of the field comes about.
    #[verifier::when_used_as_spec(action_spec)]
    pub fn action(&self) -> (a: FieldAction)
        ensures
            a == self.action_spec(),
    {
        if self.ignore {
            FieldAction::Ignore
        } else if let Some(parser) = self.parse_with {
            FieldAction::Custom(parser)
        } else if self.default {
            FieldAction::Default
        } else if self.calc.is_some() {
            FieldAction::Calc
        } else {
            FieldAction::Normal
        }
    }

    /// What remains to be done to the value of the field once it has been
    /// read. Only a value that the parser of its type has read, unmapped, can
    /// hold a pointer to follow.
    pub open spec fn after_parse(&self) -> AfterParse {
        if self.map.is_some() || self.ignore || self.default || self.calc is Some
            || self.parse_with is Some {
            AfterParse::Nop
        } else if self.do_try {
            AfterParse::Try
        } else {
            AfterParse::Normal
        }
    }

    /// Whether a pointer in the field is followed at once.
    pub open spec fn immediate(&self) -> bool {
        self.deref_now || self.postprocess_now
    }

    /// What is done to the value right after it was read.
    pub open spec fn immediate_handler(&self) -> AfterParse {
        if self.immediate() {
            self.after_parse()
        } else {
            AfterParse::Nop
        }
    }

    /// What is done to the value after the last field was read.
    pub open spec fn deferred_handler(&self) -> AfterParse {
        if self.immediate() {
            AfterParse::Nop
        } else {
            self.after_parse()
        }
    }
}

/// For each field, what remains to be done to its value once it has been read.
pub fn get_after_parse_handlers(field_attrs: &Vec<FieldDirectives>) -> (handlers: Vec<AfterParse>)
    ensures
        handlers@.len() == field_attrs@.len(),
        forall|i: int| 0 <= i < field_attrs@.len() ==> handlers@[i] == field_attrs@[i].after_parse(),
{
    let mut handlers: Vec<AfterParse> = Vec::new();
    let mut i: usize = 0;
    while i < field_attrs.len()
        invariant
            i <= field_attrs@.len(),
            handlers@.len() == i,
            forall|j: int| 0 <= j < i ==> handlers@[j] == field_attrs@[j].after_parse(),
        decreases field_attrs@.len() - i,
    {
        let f = &field_attrs[i];
        let dont_after_parse = f.map.is_some() || f.ignore || f.default || f.calc.is_some()
            || f.parse_with.is_some();
        let handler = if dont_after_parse {
            AfterParse::Nop
        } else if f.do_try {
            AfterParse::Try
        } else {
            AfterParse::Normal
        };
        handlers.push(handler);
        i = i + 1;
    }
    handlers
}

/// Splits the handlers of the fields in two lists of the same length: what is
/// done after the last field was read, and what is done at once. Each handler
/// goes to one list, by the directives of its field, and the other list holds
/// `Nop` in its place. Handlers or fields beyond the shorter of the two inputs
/// are left out.
pub fn split_by_immediate_deref(after_parse: Vec<AfterParse>, field_attrs: &Vec<FieldDirectives>) -> (split: (
    Vec<AfterParse>,
    Vec<AfterParse>,
))
    ensures
        split.0@.len() == split.1@.len(),
        split.0@.len() == if after_parse@.len() <= field_attrs@.len() {
            after_parse@.len()
        } else {
            field_attrs@.len()
        },
        forall|i: int|
            0 <= i < split.0@.len() ==> split.0@[i] == (if field_attrs@[i].immediate() {
                AfterParse::Nop
            } else {
                after_parse@[i]
            }),
        forall|i: int|
            0 <= i < split.1@.len() ==> split.1@[i] == (if field_attrs@[i].immediate() {
                after_parse@[i]
            } else {
                AfterParse::Nop
            }),
{
    let n: usize = if after_parse.len() <= field_attrs.len() {
        after_parse.len()
    } else {
        field_attrs.len()
    };
    let mut deferred: Vec<AfterParse> = Vec::new();
    let mut immediate: Vec<AfterParse> = Vec::new();
    let mut i: usize = 0;
    while i < n
        invariant
            i <= n,
            n <= after_parse@.len(),
            n <= field_attrs@.len(),
            deferred@.len() == i,
            immediate@.len() == i,
            forall|j: int|
                0 <= j < i ==> deferred@[j] == (if field_attrs@[j].immediate() {
                    AfterParse::Nop
                } else {
                    after_parse@[j]
                }),
            forall|j: int|
                0 <= j < i ==> immediate@[j] == (if field_attrs@[j].immediate() {
                    after_parse@[j]
                } else {
                    AfterParse::Nop
                }),
        decreases n - i,
    {
        let parser = after_parse[i];
        let f = &field_attrs[i];
        if f.deref_now || f.postprocess_now {
            deferred.push(AfterParse::Nop);
            immediate.push(parser);
        } else {
            deferred.push(parser);
            immediate.push(AfterParse::Nop);
        }
        i = i + 1;
    }
    (deferred, immediate)
}

} // verus!
