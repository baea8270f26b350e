//! Structural validation of a declaration: exactly two variants, each
//! with an attribute-free integer-literal discriminant, the two literals
//! being exactly 0 and 1 in some order. On success the validator resolves
//! which variant stands for `true` and which for `false`.

use vstd::prelude::*;

use crate::decl::{Decl, DeclView, Discriminant, ExpandError, Lit, LitView, Variant, VariantView};

verus! {

/// The digit text `0`.
pub open spec fn zero_digits() -> Seq<char> {
    seq!['0']
}

/// The digit text `1`.
pub open spec fn one_digits() -> Seq<char> {
    seq!['1']
}

/// The variant has a discriminant, and it is a literal expression.
pub open spec fn has_literal_disc(v: VariantView) -> bool {
    v.disc is Some
}

/// The variant's discriminant carries no attributes.
pub open spec fn disc_attrs_empty(v: VariantView) -> bool {
    match v.disc {
        Some(d) => d.attrs.len() == 0,
        None => false,
    }
}

/// The variant's discriminant is an integer literal.
pub open spec fn has_int_disc(v: VariantView) -> bool {
    match v.disc {
        Some(d) => d.lit is Int,
        None => false,
    }
}

/// The digit text of the variant's integer-literal discriminant.
pub open spec fn disc_digits(v: VariantView) -> Seq<char> {
    match v.disc {
        Some(d) => match d.lit {
            LitView::Int(digits) => digits,
            LitView::Str(text) => text,
        },
        None => Seq::empty(),
    }
}

/// The variant's discriminant is a well-formed: present, an integer
/// literal, and free of attributes.
pub open spec fn variant_disc_wf(v: VariantView) -> bool {
    has_literal_disc(v) && disc_attrs_empty(v) && has_int_disc(v)
}

/// The declaration meets the required shape: exactly two variants, each
/// with a well-formed discriminant, whose digit texts are `0` and `1`
/// in some order.
pub open spec fn shape_ok(d: DeclView) -> bool {
    &&& d.variants.len() == 2
    &&& variant_disc_wf(d.variants[0])
    &&& variant_disc_wf(d.variants[1])
    &&& {
        ||| (disc_digits(d.variants[0]) == zero_digits() && disc_digits(d.variants[1])
            == one_digits())
        ||| (disc_digits(d.variants[0]) == one_digits() && disc_digits(d.variants[1])
            == zero_digits())
    }
}

/// The index of the variant that stands for `true`: the one whose
/// discriminant is `1`, regardless of declaration order.
pub open spec fn true_index(d: DeclView) -> int {
    if disc_digits(d.variants[0]) == one_digits() {
        0
    } else {
        1
    }
}

/// The index of the variant that stands for `false`: the one whose
/// discriminant is `0`.
pub open spec fn false_index(d: DeclView) -> int {
    1 - true_index(d)
}

/// What validation returns on each declaration: the pair of resolved
/// (true, false) variant indices, or the first rejection in checking
/// order (variant count, then discriminant presence, then attributes on
/// a discriminant, then literal kind, then the digit pair).
pub open spec fn validate_spec(d: DeclView) -> Result<(int, int), ExpandError> {
    if d.variants.len() != 2 {
        Err(ExpandError::WrongVariantCount)
    } else if !(has_literal_disc(d.variants[0]) && has_literal_disc(d.variants[1])) {
        Err(ExpandError::MissingDiscriminant)
    } else if !(disc_attrs_empty(d.variants[0]) && disc_attrs_empty(d.variants[1])) {
        Err(ExpandError::AttrsOnDiscriminant)
    } else if !(has_int_disc(d.variants[0]) && has_int_disc(d.variants[1])) {
        Err(ExpandError::MissingDiscriminant)
    } else if !shape_ok(d) {
        Err(ExpandError::InvalidDiscriminantPair)
    } else {
        Ok((true_index(d), false_index(d)))
    }
}

/// Validation succeeds exactly on well-shaped declarations, and then
/// returns the true- and false-variant indices.
pub proof fn lemma_validate_ok_iff_shape_ok(d: DeclView)
    ensures
        validate_spec(d) is Ok <==> shape_ok(d),
        shape_ok(d) ==> validate_spec(d) == Ok::<_, ExpandError>((true_index(d), false_index(d))),
{
}

/// The digit text of one variant's discriminant is exactly `0`.
fn digits_are_zero(s: &String) -> (r: bool)
    ensures
        r == (s@ == zero_digits()),
{
    let n = s.as_str().unicode_len();
    if n == 1 {
        let c = s.as_str().get_char(0);
        proof {
            assert(s@ == zero_digits() <==> s@ =~= zero_digits());
        }
        c == '0'
    } else {
        false
    }
}

/// The digit text of one variant's discriminant is exactly `1`.
fn digits_are_one(s: &String) -> (r: bool)
    ensures
        r == (s@ == one_digits()),
{
    let n = s.as_str().unicode_len();
    if n == 1 {
        let c = s.as_str().get_char(0);
        proof {
            assert(s@ == one_digits() <==> s@ =~= one_digits());
        }
        c == '1'
    } else {
        false
    }
}

/// Checks the declaration's shape and resolves which variant stands for
/// `true` and which for `false`. Returns the pair of indices
/// `(true_variant, false_variant)` into `d.variants`, or the specific
/// rejection.
pub fn validate(d: &Decl) -> (r: Result<(usize, usize), ExpandError>)
    ensures
        match r {
            Ok(p) => validate_spec(d@) == Ok::<_, ExpandError>((p.0 as int, p.1 as int)) && p.0
                < d@.variants.len() && p.1 < d@.variants.len(),
            Err(e) => validate_spec(d@) == Err::<(int, int), _>(e),
        },
        r is Ok <==> shape_ok(d@),
{
    proof {
        lemma_validate_ok_iff_shape_ok(d@);
        assert(zero_digits()[0] == '0' && one_digits()[0] == '1');
        assert(zero_digits() != one_digits());
    }
    if d.variants.len() != 2 {
        return Err(ExpandError::WrongVariantCount);
    }
    let v0 = &d.variants[0];
    let v1 = &d.variants[1];
    proof {
        assert(v0@ == d@.variants[0]);
        assert(v1@ == d@.variants[1]);
    }
    match (&v0.disc, &v1.disc) {
        (Some(d0), Some(d1)) => {
            if d0.attrs.len() != 0 || d1.attrs.len() != 0 {
                return Err(ExpandError::AttrsOnDiscriminant);
            }
            match (&d0.lit, &d1.lit) {
                (Lit::Int { digits: g0 }, Lit::Int { digits: g1 }) => {
                    proof {
                        assert(d@.variants[0].disc == Some(d0@));
                        assert(d@.variants[1].disc == Some(d1@));
                        assert(disc_digits(d@.variants[0]) == g0@);
                        assert(disc_digits(d@.variants[1]) == g1@);
                    }
                    let z0 = digits_are_zero(g0);
                    let o0 = digits_are_one(g0);
                    let z1 = digits_are_zero(g1);
                    let o1 = digits_are_one(g1);
                    if z0 && o1 {
                        Ok((1, 0))
                    } else if o0 && z1 {
                        Ok((0, 1))
                    } else {
                        Err(ExpandError::InvalidDiscriminantPair)
                    }
                },
                _ => Err(ExpandError::MissingDiscriminant),
            }
        },
        _ => Err(ExpandError::MissingDiscriminant),
    }
}

} // verus!
