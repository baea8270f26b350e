//! Code generation: a copy of the validated declaration with a
//! documentation-suppression attribute appended to each variant, and a
//! conversion function mapping `false` and `true` to the resolved
//! variants. This stage cannot fail on inputs the validator accepted.

use vstd::prelude::*;

use crate::decl::{attrs_view, Decl, DeclView, Discriminant, Lit, Variant, VariantView};
use crate::validate::{
    disc_digits, false_index, one_digits, shape_ok, true_index, zero_digits,
};

verus! {

/// The attribute appended to each generated variant to silence
/// documentation-completeness diagnostics.
pub open spec fn suppress_attr() -> Seq<char> {
    "#[allow(missing_docs)]"@
}

/// An attribute list with the suppression attribute present: it is
/// appended unless the list already carries it.
pub open spec fn augment_attrs(attrs: Seq<Seq<char>>) -> Seq<Seq<char>> {
    if attrs.contains(suppress_attr()) {
        attrs
    } else {
        attrs.push(suppress_attr())
    }
}

/// A variant with its attribute list augmented; nothing else changes.
pub open spec fn augment_variant(v: VariantView) -> VariantView {
    VariantView { attrs: augment_attrs(v.attrs), ident: v.ident, disc: v.disc }
}

/// The declaration with every variant augmented; name, visibility and
/// type-level attributes are unchanged.
pub open spec fn augment_decl(d: DeclView) -> DeclView {
    DeclView {
        is_pub: d.is_pub,
        attrs: d.attrs,
        name: d.name,
        variants: d.variants.map_values(|v: VariantView| augment_variant(v)),
    }
}

/// Augmenting an attribute list twice is the same as augmenting it once:
/// the suppression attribute is never duplicated.
pub proof fn lemma_augment_attrs_idempotent(attrs: Seq<Seq<char>>)
    ensures
        augment_attrs(augment_attrs(attrs)) == augment_attrs(attrs),
{
    if !attrs.contains(suppress_attr()) {
        assert(attrs.push(suppress_attr())[attrs.len() as int] == suppress_attr());
        assert(attrs.push(suppress_attr()).contains(suppress_attr()));
    }
}

/// Idempotence of the augmentation: re-running it on an already-augmented
/// declaration changes nothing, so the suppression attribute is never
/// attached twice.
pub proof fn lemma_augment_idempotent(d: DeclView)
    ensures
        augment_decl(augment_decl(d)) == augment_decl(d),
{
    let once = augment_decl(d);
    let twice = augment_decl(once);
    assert forall|i: int| 0 <= i < d.variants.len() implies twice.variants[i]
        == once.variants[i] by {
        lemma_augment_attrs_idempotent(d.variants[i].attrs);
    }
    assert(twice.variants =~= once.variants);
    assert(twice =~~= once);
}

/// The mapping is fixed by the discriminant values alone, never by the
/// textual order of the variants: `false` goes to the variant whose
/// discriminant is `0`, `true` to the one whose discriminant is `1`.
pub proof fn lemma_mapping_by_discriminant(d: DeclView)
    requires
        shape_ok(d),
    ensures
        0 <= true_index(d) < 2,
        0 <= false_index(d) < 2,
        true_index(d) != false_index(d),
        disc_digits(d.variants[true_index(d)]) == one_digits(),
        disc_digits(d.variants[false_index(d)]) == zero_digits(),
{
    assert(zero_digits()[0] == '0' && one_digits()[0] == '1');
    assert(zero_digits() != one_digits());
}

/// For a declaration written `Name: A=0, B=1`, `false` maps to the first
/// variant and `true` to the second.
pub proof fn lemma_first_variant_zero(d: DeclView)
    requires
        shape_ok(d),
        disc_digits(d.variants[0]) == zero_digits(),
    ensures
        false_index(d) == 0,
        true_index(d) == 1,
{
    assert(zero_digits()[0] == '0' && one_digits()[0] == '1');
    assert(zero_digits() != one_digits());
}

/// For a declaration written `Name: B=1, A=0`, `false` maps to the second
/// variant and `true` to the first: the result is the same as for
/// `Name: A=0, B=1`.
pub proof fn lemma_first_variant_one(d: DeclView)
    requires
        shape_ok(d),
        disc_digits(d.variants[0]) == one_digits(),
    ensures
        false_index(d) == 1,
        true_index(d) == 0,
{
}

/// The generated conversion function, as structure: the type it is for
/// and the variants that `false` and `true` map to.
#[derive(Debug)]
pub struct Conversion {
    pub enum_name: String,
    pub false_variant: String,
    pub true_variant: String,
}

/// The output of one expansion: the augmented declaration followed by
/// the conversion function.
#[derive(Debug)]
pub struct Generated {
    pub decl: Decl,
    pub conversion: Conversion,
}

/// A copy of a list of attribute strings.
fn copy_strings(v: &Vec<String>) -> (r: Vec<String>)
    ensures
        r@ == v@,
{
    let mut out: Vec<String> = Vec::new();
    let mut i: usize = 0;
    while i < v.len()
        invariant
            i <= v@.len(),
            out@ == v@.subrange(0, i as int),
        decreases v@.len() - i,
    {
        out.push(v[i].clone());
        proof {
            assert(out@ =~= v@.subrange(0, i + 1 as int));
        }
        i = i + 1;
    }
    proof {
        assert(out@ =~= v@);
    }
    out
}

/// A copy of a literal.
fn copy_lit(l: &Lit) -> (r: Lit)
    ensures
        r@ == l@,
{
    match l {
        Lit::Int { digits } => Lit::Int { digits: digits.clone() },
        Lit::Str { text } => Lit::Str { text: text.clone() },
    }
}

/// A copy of an optional discriminant expression.
fn copy_disc(d: &Option<Discriminant>) -> (r: Option<Discriminant>)
    ensures
        match (r, d) {
            (Some(rd), Some(dd)) => rd@ == dd@,
            (None, None) => true,
            _ => false,
        },
{
    match d {
        Some(dd) => Some(
            Discriminant { attrs: copy_strings(&dd.attrs), lit: copy_lit(&dd.lit) },
        ),
        None => None,
    }
}

/// Whether the attribute list already carries the suppression attribute.
fn contains_suppress(attrs: &Vec<String>) -> (r: bool)
    ensures
        r == attrs_view(attrs@).contains(suppress_attr()),
{
    let needle = String::from_str("#[allow(missing_docs)]");
    let mut i: usize = 0;
    while i < attrs.len()
        invariant
            i <= attrs@.len(),
            needle@ == suppress_attr(),
            forall|j: int| 0 <= j < i ==> attrs_view(attrs@)[j] != suppress_attr(),
        decreases attrs@.len() - i,
    {
        if attrs[i].eq(&needle) {
            proof {
                assert(attrs_view(attrs@)[i as int] == suppress_attr());
            }
            return true;
        }
        i = i + 1;
    }
    proof {
        assert forall|j: int| 0 <= j < attrs_view(attrs@).len() implies attrs_view(attrs@)[j]
            != suppress_attr() by {}
    }
    false
}

/// A copy of the variant's attribute list with the suppression
/// attribute appended unless it is already present.
fn augmented_attrs(attrs: &Vec<String>) -> (r: Vec<String>)
    ensures
        attrs_view(r@) == augment_attrs(attrs_view(attrs@)),
{
    let mut out = copy_strings(attrs);
    if !contains_suppress(attrs) {
        out.push(String::from_str("#[allow(missing_docs)]"));
        proof {
            assert(attrs_view(out@) =~= attrs_view(attrs@).push(suppress_attr()));
        }
    }
    out
}

/// The variant with its attribute list augmented.
fn augmented_variant(v: &Variant) -> (r: Variant)
    ensures
        r@ == augment_variant(v@),
{
    Variant {
        attrs: augmented_attrs(&v.attrs),
        ident: v.ident.clone(),
        disc: copy_disc(&v.disc),
    }
}

/// Builds the expansion output from the validated declaration and the
/// resolved true- and false-variant indices: the augmented declaration,
/// and a conversion function for the declaration's type that maps
/// `false` to the variant at `f` and `true` to the variant at `t`.
pub fn generate(d: &Decl, t: usize, f: usize) -> (g: Generated)
    requires
        t < d@.variants.len(),
        f < d@.variants.len(),
    ensures
        g.decl@ == augment_decl(d@),
        g.conversion.enum_name@ == d@.name,
        g.conversion.true_variant@ == d@.variants[t as int].ident,
        g.conversion.false_variant@ == d@.variants[f as int].ident,
{
    let mut variants: Vec<Variant> = Vec::new();
    let mut i: usize = 0;
    while i < d.variants.len()
        invariant
            i <= d@.variants.len(),
            d@.variants.len() == d.variants@.len(),
            variants@.len() == i,
            forall|j: int| 0 <= j < i ==> variants@[j]@ == augment_variant(d@.variants[j]),
        decreases d@.variants.len() - i,
    {
        variants.push(augmented_variant(&d.variants[i]));
        i = i + 1;
    }
    let out_decl = Decl {
        is_pub: d.is_pub,
        attrs: copy_strings(&d.attrs),
        name: d.name.clone(),
        variants,
    };
    proof {
        assert(out_decl@.variants =~= augment_decl(d@).variants);
        assert(out_decl@ =~~= augment_decl(d@));
    }
    let conversion = Conversion {
        enum_name: d.name.clone(),
        false_variant: d.variants[f].ident.clone(),
        true_variant: d.variants[t].ident.clone(),
    };
    Generated { decl: out_decl, conversion }
}

} // verus!
