//! Reading enums: finding the variant that the bytes hold.

use vstd::prelude::*;
use crate::directive::EnumErrorHandling;
use crate::error::{lemma_enum_errors_view, variant_errors_view, BinResult, Error, ErrorView};
use crate::io::{IntType, Reader};
use crate::model::{
    attempt_spec,
    dispatch_spec,
    find_discriminant,
    find_magic,
    read_enum_spec,
    read_variant_spec,
    terminal,
    try_variants_spec,
};
use crate::options::ReadOptions;
use crate::planner::{apply_type_map, finish, start, type_options};
use crate::reader::{read_body, read_number};
use crate::schema::{lemma_variants_sound, variants_defect, EnumDef, Schema, Strategy, TypeDef};
use crate::value::{lemma_variant_view, outcome_view, values_view, Value, ValueView};

verus! {

/// Finds the variant of an enum by one number of type `kind`: by the
/// discriminants of the variants, or by their magics.
#[verifier::loop_isolation(false)]
pub(crate) fn dispatch(
    reader: &mut Reader,
    ty: usize,
    def: &EnumDef,
    kind: IntType,
    by_magic: bool,
    options: &ReadOptions,
) -> (r: BinResult<Value>)
    ensures
        final(reader).bytes() == old(reader).bytes(),
        (final(reader).state(), outcome_view(r)) == dispatch_spec(
            old(reader).bytes(),
            old(reader).state(),
            ty,
            def,
            kind,
            by_magic,
            *options,
        ),
{
    let inner = type_options(options, def.attrs.endian);
    let begun: u64 = reader.source.pos();
    let x: i128 = match read_number(reader, kind, inner.endian) {
        Ok(x) => x,
        Err(e) => {
            return Err(e);
        },
    };
    let mut i: usize = 0;
    while i < def.variants.len()
        invariant
            i <= def.variants@.len(),
            by_magic ==> find_magic(def.variants@, x, 0) == find_magic(def.variants@, x, i as nat),
            !by_magic ==> find_discriminant(def.variants@, x, 0) == find_discriminant(
                def.variants@,
                x,
                i as nat,
            ),
        decreases def.variants@.len() - i,
    {
        let variant = &def.variants[i];
        let hit = if by_magic {
            match &variant.attrs.magic {
                Some(m) => m.value == x,
                None => false,
            }
        } else {
            variant.discriminant == x
        };
        if hit {
            let fields: Vec<Value> = Vec::new();
            proof {
                lemma_variant_view(ty, i, fields);
                assert(values_view(fields@) =~= Seq::<ValueView>::empty());
            }
            return Ok(Value::Variant { ty, index: i, fields });
        }
        i = i + 1;
    }
    Err(Error::NoVariantMatch { pos: begun })
}

/// Reads the enum with index `ty`.
pub(crate) fn read_enum(
    schema: &Schema,
    reader: &mut Reader,
    ty: usize,
    options: &ReadOptions,
    args: &Vec<i128>,
) -> (r: BinResult<Value>)
    requires
        ty < schema.defs().len(),
    ensures
        final(reader).bytes() == old(reader).bytes(),
        (final(reader).state(), outcome_view(r)) == read_enum_spec(
            schema,
            old(reader).bytes(),
            old(reader).state(),
            ty,
            *options,
            args@,
        ),
    decreases ty as int, 18int, 0int,
{
    proof {
        use_type_invariant(schema);
    }
    proof {
        assert(schema.defs()[ty as int].valid_at(ty as nat));
    }
    match schema.def(ty) {
        TypeDef::Enum(def) => {
            start(reader, &def.name);
            let r = match def.strategy() {
                Ok(Strategy::Discriminant(kind)) => dispatch(reader, ty, def, kind, false, options),
                Ok(Strategy::UniformMagic(kind)) => dispatch(reader, ty, def, kind, true, options),
                Ok(Strategy::Backtracking) => try_variants(schema, reader, ty, def, options, args),
                Err(_) => Err(Error::IoFailure { pos: reader.source.pos() }),
            };
            let out = match r {
                Ok(v) => {
                    let behind: u64 = reader.source.pos();
                    apply_type_map(&def.attrs.map, v, args, behind)
                },
                Err(e) => Err(e),
            };
            match out {
                Ok(v) => {
                    finish(reader, None, &options.variable_name);
                    Ok(v)
                },
                Err(e) => {
                    finish(reader, Some(&e), &options.variable_name);
                    Err(e)
                },
            }
        },
        _ => Err(Error::IoFailure { pos: reader.source.pos() }),
    }
}

/// Whether the enum gives up at the first variant that fails.
pub(crate) fn gives_up(def: &EnumDef) -> (b: bool)
    ensures
        b == terminal(def),
{
    match def.attrs.return_error_mode {
        EnumErrorHandling::ReturnUnexpectedError => true,
        _ => false,
    }
}

/// Tries the variants of an enum in declaration order, each where the cursor
/// stood at the start.
#[verifier::loop_isolation(false)]
pub(crate) fn try_variants(
    schema: &Schema,
    reader: &mut Reader,
    ty: usize,
    def: &EnumDef,
    options: &ReadOptions,
    args: &Vec<i128>,
) -> (r: BinResult<Value>)
    requires
        ty <= schema.defs().len(),
        variants_defect(def.variants@, ty as nat, 0) is None,
    ensures
        final(reader).bytes() == old(reader).bytes(),
        (final(reader).state(), outcome_view(r)) == try_variants_spec(
            schema,
            old(reader).bytes(),
            old(reader).state(),
            ty,
            def,
            0,
            Seq::empty(),
            *options,
            args@,
        ),
        r is Err ==> final(reader).source.position() == old(reader).source.position(),
    decreases ty as int, 16int, 0int,
{
    let ghost data = reader.bytes();
    let ghost st0 = reader.state();
    let begun: u64 = reader.source.pos();
    let mut errors: Vec<(String, Error)> = Vec::new();
    let mut i: usize = 0;
    assert(variant_errors_view(errors@) =~= Seq::<(Seq<char>, ErrorView)>::empty());
    while i < def.variants.len()
        invariant
            reader.bytes() == data,
            i <= def.variants@.len(),
            reader.source.position() == begun,
            try_variants_spec(schema, data, st0, ty, def, 0, Seq::empty(), *options, args@)
                == try_variants_spec(
                schema,
                data,
                reader.state(),
                ty,
                def,
                i as nat,
                variant_errors_view(errors@),
                *options,
                args@,
            ),
        decreases def.variants@.len() - i,
    {
        proof {
            lemma_variants_sound(def.variants@, ty as nat, 0, i as int);
        }
        match attempt(schema, reader, ty, def, i, options, args) {
            Ok(v) => {
                return Ok(v);
            },
            Err(e) => {
                if gives_up(def) {
                    return Err(Error::NoVariantMatch { pos: begun });
                }
                let name = def.variants[i].name.clone();
                assert(variant_errors_view(errors@.push((name, e))) =~= variant_errors_view(
                    errors@,
                ).push((name@, e@)));
                errors.push((name, e));
                i = i + 1;
            },
        }
    }
    proof {
        lemma_enum_errors_view(begun, errors);
    }
    Err(Error::EnumErrors { pos: begun, variant_errors: errors })
}

/// Tries one variant. If it cannot be read, the cursor is put back where it
/// stood.
pub(crate) fn attempt(
    schema: &Schema,
    reader: &mut Reader,
    ty: usize,
    def: &EnumDef,
    i: usize,
    options: &ReadOptions,
    args: &Vec<i128>,
) -> (r: BinResult<Value>)
    requires
        ty <= schema.defs().len(),
        i < def.variants@.len(),
        crate::schema::variant_defect(&def.variants@[i as int], ty as nat) is None,
    ensures
        final(reader).bytes() == old(reader).bytes(),
        (final(reader).state(), outcome_view(r)) == attempt_spec(
            schema,
            old(reader).bytes(),
            old(reader).state(),
            ty,
            def,
            i as nat,
            *options,
            args@,
        ),
        r is Err ==> final(reader).source.position() == old(reader).source.position(),
    decreases ty as int, 15int, 0int,
{
    let begun: u64 = reader.source.pos();
    match read_variant(schema, reader, ty, def, i, options, args) {
        Ok(v) => Ok(v),
        Err(e) => {
            let _ = reader.source.seek_to(begun as i128);
            Err(e)
        },
    }
}

/// Reads the variant with index `i` of an enum.
pub(crate) fn read_variant(
    schema: &Schema,
    reader: &mut Reader,
    ty: usize,
    def: &EnumDef,
    i: usize,
    options: &ReadOptions,
    args: &Vec<i128>,
) -> (r: BinResult<Value>)
    requires
        ty <= schema.defs().len(),
        i < def.variants@.len(),
        crate::schema::variant_defect(&def.variants@[i as int], ty as nat) is None,
    ensures
        final(reader).bytes() == old(reader).bytes(),
        (final(reader).state(), outcome_view(r)) == read_variant_spec(
            schema,
            old(reader).bytes(),
            old(reader).state(),
            ty,
            def,
            i as nat,
            *options,
            args@,
        ),
    decreases ty as int, 14int, 0int,
{
    let variant = &def.variants[i];
    match read_body(
        schema,
        reader,
        ty,
        &def.attrs,
        Some(&variant.attrs),
        &variant.fields,
        options,
        args,
    ) {
        Ok(fields) => {
            proof {
                lemma_variant_view(ty, i, fields);
            }
            Ok(Value::Variant { ty, index: i, fields })
        },
        Err(e) => Err(e),
    }
}

} // verus!
