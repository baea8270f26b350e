//! Expansion of a compact two-state enumerated-type declaration.
//!
//! The input is one declaration of the form `pub? attrs* Name: A=0, B=1`
//! (or with the discriminants swapped). The library parses it, validates
//! the two-variant/0-1 discriminant shape, and produces the declaration
//! augmented with a documentation-suppression attribute on each variant
//! together with a conversion function mapping `false` and `true` to the
//! variants with discriminants `0` and `1`.

pub mod decl;
pub mod generate;
pub mod parse;
pub mod render;
pub mod validate;

use vstd::prelude::*;

use crate::decl::{Decl, ExpandError};
use crate::generate::{augment_decl, generate, Generated};
use crate::parse::parse_decl;
use crate::render::render_generated;
use crate::validate::{false_index, shape_ok, true_index, validate_spec};

verus! {

/// The text produced by one whole expansion: the input parsed, the
/// declaration validated, and the augmented declaration with its
/// conversion function rendered; or the specific rejection.
pub open spec fn bool_enum_spec(s: Seq<char>) -> Result<Seq<char>, ExpandError> {
    match parse_decl(s) {
        None => Err(ExpandError::NotADecl),
        Some(d) => match validate_spec(d) {
            Err(e) => Err(e),
            Ok(p) => Ok(
                render_generated(
                    augment_decl(d),
                    d.name,
                    d.variants[p.1].ident,
                    d.variants[p.0].ident,
                ),
            ),
        },
    }
}

/// Parses and validates one declaration and builds the expansion
/// output: the augmented declaration, and the conversion function that
/// maps `false` to the variant with discriminant 0 and `true` to the
/// variant with discriminant 1, whatever order they were written in.
pub fn expand(s: &str) -> (r: Result<Generated, ExpandError>)
    ensures
        match r {
            Ok(g) => {
                &&& parse_decl(s@) is Some
                &&& {
                    let d = parse_decl(s@).unwrap();
                    &&& shape_ok(d)
                    &&& g.decl@ == augment_decl(d)
                    &&& g.conversion.enum_name@ == d.name
                    &&& g.conversion.true_variant@ == d.variants[true_index(d)].ident
                    &&& g.conversion.false_variant@ == d.variants[false_index(d)].ident
                }
            },
            Err(e) => match parse_decl(s@) {
                None => e == ExpandError::NotADecl,
                Some(d) => !shape_ok(d) && validate_spec(d) == Err::<(int, int), _>(e),
            },
        },
{
    match crate::parse::parse(s) {
        Err(e) => Err(e),
        Ok(d) => {
            match crate::validate::validate(&d) {
                Err(e) => Err(e),
                Ok((t, f)) => Ok(generate(&d, t, f)),
            }
        },
    }
}

/// The whole transformer: one declaration in, the generated source text
/// out, or the specific rejection with its diagnostic to be surfaced at
/// the declaration site.
pub fn bool_enum(s: &str) -> (r: Result<String, ExpandError>)
    ensures
        match r {
            Ok(t) => bool_enum_spec(s@) == Ok::<_, ExpandError>(t@),
            Err(e) => bool_enum_spec(s@) == Err::<Seq<char>, _>(e),
        },
{
    match expand(s) {
        Err(e) => Err(e),
        Ok(g) => {
            proof {
                crate::validate::lemma_validate_ok_iff_shape_ok(parse_decl(s@).unwrap());
            }
            Ok(crate::render::render_generated_x(&g))
        },
    }
}

} // verus!
