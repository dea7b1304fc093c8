//! Names and source text taken from the tokens of a declaration, for those who
//! build a schema from Rust source.

use vstd::prelude::*;
use crate::directive::{Assert, FieldDirectives, Magic, TypeDirectives};
use crate::expr::Expr;
use crate::io::IntType;
use crate::schema::{EnumDef, StructDef, VariantDef};

verus! {

#[verifier::external_type_specification]
#[verifier::external_body]
pub struct ExTokenStream(proc_macro2::TokenStream);

#[verifier::external_type_specification]
#[verifier::external_body]
pub struct ExIdent(proc_macro2::Ident);

/// The text of the tokens, from `to_string` of `proc_macro2::TokenStream`,
/// which prints the tokens one after the other. Nothing is claimed of the
/// text.
#[verifier::external_body]
fn token_text(tokens: &proc_macro2::TokenStream) -> (text: String) {
    tokens.to_string()
}

/// The text of the identifier, from `to_string` of `proc_macro2::Ident`, which
/// prints it as it is written in the source. Nothing is claimed of the text.
#[verifier::external_body]
fn ident_text(ident: &proc_macro2::Ident) -> (text: String) {
    ident.to_string()
}

impl Assert {
    /// The assertion of the condition `cond`, which was written as `tokens`:
    /// the text of the assertion is the text of the tokens.
    pub fn from_tokens(cond: Expr, tokens: &proc_macro2::TokenStream, message: Option<String>) -> (a:
        Assert)
        ensures
            a.cond == cond,
            a.message == message,
    {
        Assert { cond, text: token_text(tokens), message }
    }
}

impl Magic {
    /// The magic `value` of type `ty`, which was written as `tokens`: the text
    /// of the magic is the text of the tokens.
    pub fn from_tokens(ty: IntType, value: i128, tokens: &proc_macro2::TokenStream) -> (m: Magic)
        ensures
            m.ty == ty,
            m.value == value,
    {
        Magic { ty, value, text: token_text(tokens) }
    }
}

impl FieldDirectives {
    /// A field of the type `ty` without any directive, named as the
    /// identifier is written.
    pub fn named(ident: &proc_macro2::Ident, ty: usize) -> (f: FieldDirectives)
        ensures
            f.ty == ty,
            f.is_plain(),
    {
        FieldDirectives::new(ident_text(ident), ty)
    }
}

impl StructDef {
    /// A struct named as the identifier is written.
    pub fn named(ident: &proc_macro2::Ident, attrs: TypeDirectives, fields: Vec<FieldDirectives>) -> (def:
        StructDef)
        ensures
            def.attrs == attrs,
            def.fields == fields,
    {
        StructDef { name: ident_text(ident), attrs, fields }
    }
}

impl VariantDef {
    /// A variant named as the identifier is written.
    pub fn named(
        ident: &proc_macro2::Ident,
        attrs: TypeDirectives,
        fields: Vec<FieldDirectives>,
        discriminant: i128,
    ) -> (def: VariantDef)
        ensures
            def.attrs == attrs,
            def.fields == fields,
            def.discriminant == discriminant,
    {
        VariantDef { name: ident_text(ident), attrs, fields, discriminant }
    }
}

impl EnumDef {
    /// An enum named as the identifier is written.
    pub fn named(ident: &proc_macro2::Ident, attrs: TypeDirectives, variants: Vec<VariantDef>) -> (def:
        EnumDef)
        ensures
            def.attrs == attrs,
            def.variants == variants,
    {
        EnumDef { name: ident_text(ident), attrs, variants }
    }
}

} // verus!
