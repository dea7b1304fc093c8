//! The schema: a table of type descriptions, each of which refers only to
//! types that stand before it in the table.

use vstd::prelude::*;
use crate::directive::{FieldDirectives, TypeDirectives};
use crate::io::IntType;

verus! {

/// A struct: its fields in declaration order.
#[derive(Debug, PartialEq, Eq)]
pub struct StructDef {
    pub name: String,
    pub attrs: TypeDirectives,
    pub fields: Vec<FieldDirectives>,
}

/// One variant of an enum.
#[derive(Debug, PartialEq, Eq)]
pub struct VariantDef {
    pub name: String,
    pub attrs: TypeDirectives,
    pub fields: Vec<FieldDirectives>,
    /// The number that stands for the variant where the enum is stored as an
    /// integer.
    pub discriminant: i128,
}

/// An enum: its variants in declaration order.
#[derive(Debug, PartialEq, Eq)]
pub struct EnumDef {
    pub name: String,
    pub attrs: TypeDirectives,
    pub variants: Vec<VariantDef>,
}

/// The description of one type. Types are named by their index in the schema.
#[derive(Debug, PartialEq, Eq)]
pub enum TypeDef {
    /// A number of fixed width.
    Int(IntType),
    /// `len` values of the type `elem`.
    Array { elem: usize, len: usize },
    /// As many values of the type `elem` as the options' count says.
    List { elem: usize },
    /// A number of type `width` that, with the options' offset added, is the
    /// position of a value of the type `target`.
    Pointer { width: IntType, target: usize },
    /// A struct.
    Struct(StructDef),
    /// An enum.
    Enum(EnumDef),
}

/// How the variant of an enum is found.
#[derive(Clone, Copy, Debug, PartialEq, Eq, Structural)]
pub enum Strategy {
    /// One number of the stored type is read and compared with the
    /// discriminant of each variant.
    Discriminant(IntType),
    /// One number of the type of the magics is read and compared with the
    /// magic of each variant.
    UniformMagic(IntType),
    /// The variants are tried one after the other.
    Backtracking,
}

/// Why a type description cannot enter a schema.
#[derive(Clone, Copy, Debug, PartialEq, Eq, Structural)]
pub enum SchemaError {
    /// It refers to a type that does not stand before it.
    UnknownType,
    /// A field names more than one source for its value.
    ConflictingDirectives,
    /// An enum has no variant.
    NoVariants,
    /// A variant chooses an error handling or declares arguments.
    VariantDirective,
    /// An enum of variants without fields is not stored as an integer, and
    /// none of its variants has a magic: nothing tells its variants apart.
    NoDispatch,
    /// A field chooses its byte order by a condition and names the native
    /// order as one of the two.
    NativeCondition,
}

impl VariantDef {
    /// Whether the variant has no fields.
    pub open spec fn is_unit_spec(&self) -> bool {
        self.fields@.len() == 0
    }

    /// Whether the variant has no fields.
    #[verifier::when_used_as_spec(is_unit_spec)]
    pub fn is_unit(&self) -> (b: bool)
        ensures
            b == self.is_unit_spec(),
    {
        self.fields.len() == 0
    }

    /// The type of the magic by which the variant alone can be recognised: it
    /// has a magic and no condition on the arguments beside it.
    pub open spec fn magic_type_spec(&self) -> Option<IntType> {
        if self.attrs.pre_assert@.len() != 0 {
            None
        } else {
            match self.attrs.magic {
                Some(m) => Some(m.ty),
                None => None,
            }
        }
    }

    /// The type of the magic by which the variant alone can be recognised.
    #[verifier::when_used_as_spec(magic_type_spec)]
    pub fn magic_type(&self) -> (t: Option<IntType>)
        ensures
            t == self.magic_type_spec(),
    {
        if self.attrs.pre_assert.len() != 0 {
            return None;
        }
        match &self.attrs.magic {
            Some(m) => Some(m.ty),
            None => None,
        }
    }
}

impl EnumDef {
    /// Whether no variant has fields.
    pub open spec fn all_unit(&self) -> bool {
        forall|i: int| 0 <= i < self.variants@.len() ==> (#[trigger] self.variants@[i]).is_unit()
    }

    /// The common type of the magics, where every variant can be recognised
    /// by a magic alone and all magics have one type.
    pub open spec fn uniform_magic(&self) -> Option<IntType> {
        if self.variants@.len() == 0 {
            None
        } else {
            let first = self.variants@[0].magic_type();
            if first is Some && forall|i: int|
                0 <= i < self.variants@.len() ==> (#[trigger] self.variants@[i]).magic_type()
                    == first {
                first
            } else {
                None
            }
        }
    }

    /// Whether some variant has a magic.
    pub open spec fn has_magic(&self) -> bool {
        exists|i: int| 0 <= i < self.variants@.len() && (#[trigger] self.variants@[i]).attrs.magic is Some
    }

    /// How the variant is found. An enum of variants without fields that is
    /// stored as an integer is recognised by the discriminant; one whose
    /// variants all have a magic of one type, by the magic. An enum of
    /// variants without fields that is not stored as an integer and has no
    /// magic on any variant has no strategy, and neither has an enum without
    /// variants. Every other enum is read by trying its variants in turn.
    pub open spec fn strategy_spec(&self) -> Result<Strategy, SchemaError> {
        if self.variants@.len() == 0 {
            Err(SchemaError::NoVariants)
        } else if self.all_unit() && self.attrs.repr is Some {
            Ok(Strategy::Discriminant(self.attrs.repr->0))
        } else if self.all_unit() && self.uniform_magic() is Some {
            Ok(Strategy::UniformMagic(self.uniform_magic()->0))
        } else if self.all_unit() && !self.has_magic() {
            Err(SchemaError::NoDispatch)
        } else {
            Ok(Strategy::Backtracking)
        }
    }

    fn check_has_magic(&self) -> (b: bool)
        ensures
            b == self.has_magic(),
    {
        let mut i: usize = 0;
        while i < self.variants.len()
            invariant
                i <= self.variants@.len(),
                forall|j: int| 0 <= j < i ==> (#[trigger] self.variants@[j]).attrs.magic is None,
            decreases self.variants@.len() - i,
        {
            if self.variants[i].attrs.magic.is_some() {
                return true;
            }
            i = i + 1;
        }
        false
    }

    fn check_all_unit(&self) -> (b: bool)
        ensures
            b == self.all_unit(),
    {
        let mut i: usize = 0;
        while i < self.variants.len()
            invariant
                i <= self.variants@.len(),
                forall|j: int| 0 <= j < i ==> (#[trigger] self.variants@[j]).is_unit(),
            decreases self.variants@.len() - i,
        {
            if !self.variants[i].is_unit() {
                return false;
            }
            i = i + 1;
        }
        true
    }

    fn find_uniform_magic(&self) -> (t: Option<IntType>)
        ensures
            t == self.uniform_magic(),
    {
        if self.variants.len() == 0 {
            return None;
        }
        let first = self.variants[0].magic_type();
        let kind = match first {
            Some(kind) => kind,
            None => {
                return None;
            },
        };
        let mut i: usize = 1;
        while i < self.variants.len()
            invariant
                1 <= i <= self.variants@.len(),
                first == self.variants@[0].magic_type(),
                first == Some(kind),
                forall|j: int| 0 <= j < i ==> (#[trigger] self.variants@[j]).magic_type() == first,
            decreases self.variants@.len() - i,
        {
            match self.variants[i].magic_type() {
                Some(other) => {
                    if other != kind {
                        return None;
                    }
                },
                None => {
                    return None;
                },
            }
            i = i + 1;
        }
        first
    }

    /// How the variant is found.
    pub fn strategy(&self) -> (r: Result<Strategy, SchemaError>)
        ensures
            r == self.strategy_spec(),
    {
        if self.variants.len() == 0 {
            return Err(SchemaError::NoVariants);
        }
        if self.check_all_unit() {
            if let Some(repr) = self.attrs.repr {
                return Ok(Strategy::Discriminant(repr));
            }
            if let Some(kind) = self.find_uniform_magic() {
                return Ok(Strategy::UniformMagic(kind));
            }
            if !self.check_has_magic() {
                return Err(SchemaError::NoDispatch);
            }
        }
        Ok(Strategy::Backtracking)
    }
}

/// What is wrong with a field of a type that is to stand at index `n`, if
/// anything.
pub open spec fn field_defect(f: &FieldDirectives, n: nat) -> Option<SchemaError> {
    if f.ty >= n {
        Some(SchemaError::UnknownType)
    } else if f.parse_with is Some && f.parse_with->0.separator() >= n {
        Some(SchemaError::UnknownType)
    } else if !f.consistent() {
        Some(SchemaError::ConflictingDirectives)
    } else if !f.endian.valid() {
        Some(SchemaError::NativeCondition)
    } else {
        None
    }
}

/// The first defect among the fields from index `from` on.
pub open spec fn fields_defect(fields: Seq<FieldDirectives>, n: nat, from: nat) -> Option<
    SchemaError,
>
    decreases fields.len() - from,
{
    if from >= fields.len() {
        None
    } else if field_defect(&fields[from as int], n) is Some {
        field_defect(&fields[from as int], n)
    } else {
        fields_defect(fields, n, from + 1)
    }
}

/// What is wrong with a variant, if anything.
pub open spec fn variant_defect(v: &VariantDef, n: nat) -> Option<SchemaError> {
    if !v.attrs.fits_variant() {
        Some(SchemaError::VariantDirective)
    } else {
        fields_defect(v.fields@, n, 0)
    }
}

/// The first defect among the variants from index `from` on.
pub open spec fn variants_defect(variants: Seq<VariantDef>, n: nat, from: nat) -> Option<
    SchemaError,
>
    decreases variants.len() - from,
{
    if from >= variants.len() {
        None
    } else if variant_defect(&variants[from as int], n) is Some {
        variant_defect(&variants[from as int], n)
    } else {
        variants_defect(variants, n, from + 1)
    }
}

impl TypeDef {
    /// What keeps the description from standing at index `n` of a schema, if
    /// anything: the first defect in declaration order.
    pub open spec fn defect(&self, n: nat) -> Option<SchemaError> {
        match self {
            TypeDef::Int(_) => None,
            TypeDef::Array { elem, .. } => if *elem >= n {
                Some(SchemaError::UnknownType)
            } else {
                None
            },
            TypeDef::List { elem } => if *elem >= n {
                Some(SchemaError::UnknownType)
            } else {
                None
            },
            TypeDef::Pointer { target, .. } => if *target >= n {
                Some(SchemaError::UnknownType)
            } else {
                None
            },
            TypeDef::Struct(def) => fields_defect(def.fields@, n, 0),
            TypeDef::Enum(def) => match def.strategy_spec() {
                Err(e) => Some(e),
                Ok(_) => variants_defect(def.variants@, n, 0),
            },
        }
    }

    /// Whether the description can stand at index `n` of a schema.
    pub open spec fn valid_at(&self, n: nat) -> bool {
        self.defect(n) is None
    }

    /// Finds what keeps the description from standing at index `n`.
    pub fn check(&self, n: usize) -> (r: Option<SchemaError>)
        ensures
            r == self.defect(n as nat),
    {
        match self {
            TypeDef::Int(_) => None,
            TypeDef::Array { elem, .. } => if *elem >= n {
                Some(SchemaError::UnknownType)
            } else {
                None
            },
            TypeDef::List { elem } => if *elem >= n {
                Some(SchemaError::UnknownType)
            } else {
                None
            },
            TypeDef::Pointer { target, .. } => if *target >= n {
                Some(SchemaError::UnknownType)
            } else {
                None
            },
            TypeDef::Struct(def) => check_fields(&def.fields, n),
            TypeDef::Enum(def) => match def.strategy() {
                Err(e) => Some(e),
                Ok(_) => check_variants(&def.variants, n),
            },
        }
    }
}

/// Finds the first defect among the variants.
pub fn check_variants(variants: &Vec<VariantDef>, n: usize) -> (r: Option<SchemaError>)
    ensures
        r == variants_defect(variants@, n as nat, 0),
{
    let mut i: usize = 0;
    while i < variants.len()
        invariant
            i <= variants@.len(),
            variants_defect(variants@, n as nat, 0) == variants_defect(variants@, n as nat, i as nat),
        decreases variants@.len() - i,
    {
        let v = &variants[i];
        if !v.attrs.fits_variant() {
            return Some(SchemaError::VariantDirective);
        }
        let found = check_fields(&v.fields, n);
        if found.is_some() {
            return found;
        }
        i = i + 1;
    }
    None
}

/// Finds the first defect among the fields.
pub fn check_fields(fields: &Vec<FieldDirectives>, n: usize) -> (r: Option<SchemaError>)
    ensures
        r == fields_defect(fields@, n as nat, 0),
{
    let mut i: usize = 0;
    while i < fields.len()
        invariant
            i <= fields@.len(),
            fields_defect(fields@, n as nat, 0) == fields_defect(fields@, n as nat, i as nat),
        decreases fields@.len() - i,
    {
        let f = &fields[i];
        if f.ty >= n {
            return Some(SchemaError::UnknownType);
        }
        if let Some(parser) = f.parse_with {
            if parser.separator() >= n {
                return Some(SchemaError::UnknownType);
            }
        }
        if !f.consistent() {
            return Some(SchemaError::ConflictingDirectives);
        }
        if !f.endian.valid() {
            return Some(SchemaError::NativeCondition);
        }
        i = i + 1;
    }
    None
}

/// Fields without a defect are each without a defect.
pub proof fn lemma_fields_sound(fields: Seq<FieldDirectives>, n: nat, from: nat, k: int)
    requires
        fields_defect(fields, n, from) is None,
        from <= k < fields.len(),
    ensures
        field_defect(&fields[k], n) is None,
    decreases fields.len() - from,
{
    if from < k {
        lemma_fields_sound(fields, n, from + 1, k);
    }
}

/// Variants without a defect are each without a defect.
pub proof fn lemma_variants_sound(variants: Seq<VariantDef>, n: nat, from: nat, k: int)
    requires
        variants_defect(variants, n, from) is None,
        from <= k < variants.len(),
    ensures
        variant_defect(&variants[k], n) is None,
    decreases variants.len() - from,
{
    if from < k {
        lemma_variants_sound(variants, n, from + 1, k);
    }
}

/// A table of type descriptions. Every description in it refers only to types
/// that stand before it, so that reading by it comes to an end.
pub struct Schema {
    types: Vec<TypeDef>,
}

impl Schema {
    /// The descriptions, by index.
    pub closed spec fn defs(&self) -> Seq<TypeDef> {
        self.types@
    }

    /// Whether every description could enter the schema at its index. Every
    /// schema made by [`Schema::new`] and [`Schema::add`] is well-formed.
    pub open spec fn wf(&self) -> bool {
        forall|i: int| 0 <= i < self.defs().len() ==> (#[trigger] self.defs()[i]).valid_at(i as nat)
    }

    /// What holds of every schema: it is well-formed.
    #[verifier::type_invariant]
    pub open spec fn inv(&self) -> bool {
        self.wf()
    }

    /// The empty schema.
    pub fn new() -> (schema: Schema)
        ensures
            schema.wf(),
            schema.defs().len() == 0,
    {
        Schema { types: Vec::new() }
    }

    /// The number of types.
    pub fn len(&self) -> (n: usize)
        ensures
            n == self.defs().len(),
    {
        self.types.len()
    }

    /// The description of the type with the given index, if there is one.
    pub fn get(&self, ty: usize) -> (def: Option<&TypeDef>)
        ensures
            match def {
                Some(d) => ty < self.defs().len() && *d == self.defs()[ty as int],
                None => ty >= self.defs().len(),
            },
    {
        if ty < self.types.len() {
            Some(&self.types[ty])
        } else {
            None
        }
    }

    /// The description of the type with the given index.
    pub(crate) fn def(&self, ty: usize) -> (def: &TypeDef)
        requires
            ty < self.defs().len(),
        ensures
            *def == self.defs()[ty as int],
    {
        &self.types[ty]
    }

    /// Adds a description and returns its index, or says what keeps it out and
    /// leaves the schema as it was.
    pub fn add(&mut self, def: TypeDef) -> (r: Result<usize, SchemaError>)
        ensures
            final(self).wf(),
            match def.defect(old(self).defs().len()) {
                Some(e) => {
                    &&& r == Err::<usize, SchemaError>(e)
                    &&& final(self).defs() == old(self).defs()
                },
                None => {
                    &&& r == Ok::<usize, SchemaError>(old(self).defs().len() as usize)
                    &&& final(self).defs() == old(self).defs().push(def)
                },
            },
    {
        proof {
            use_type_invariant(&*self);
        }
        let n: usize = self.types.len();
        match def.check(n) {
            Some(e) => Err(e),
            None => {
                let mut taken = Schema::new();
                std::mem::swap(self, &mut taken);
                let mut types = taken.types;
                types.push(def);
                *self = Schema { types };
                Ok(n)
            },
        }
    }
}

} // verus!
