//! Data model for a compact two-state enumerated-type declaration.
//!
//! A declaration is written `pub? attrs* Name: Variant0=0, Variant1=1`.
//! Attributes are carried verbatim as opaque text; the only parts the
//! library interprets are the variant count and the discriminant literals.

use vstd::prelude::*;

verus! {

/// A literal that may stand as a discriminant: an integer literal
/// (its base-10 digit text, possibly with a leading minus sign) or a
/// string literal (its inner text, carried verbatim).
#[derive(Debug)]
pub enum Lit {
    Int { digits: String },
    Str { text: String },
}

/// The discriminant expression of a variant: a literal, together with
/// any attributes written directly on it (which validation rejects).
#[derive(Debug)]
pub struct Discriminant {
    pub attrs: Vec<String>,
    pub lit: Lit,
}

/// One named alternative of the enumerated type.
#[derive(Debug)]
pub struct Variant {
    pub attrs: Vec<String>,
    pub ident: String,
    pub disc: Option<Discriminant>,
}

/// A whole declaration: optional `pub`, attributes on the type,
/// its name, and its variants in the order written.
#[derive(Debug)]
pub struct Decl {
    pub is_pub: bool,
    pub attrs: Vec<String>,
    pub name: String,
    pub variants: Vec<Variant>,
}

/// Mathematical model of a literal.
#[verifier::ext_equal]
pub enum LitView {
    Int(Seq<char>),
    Str(Seq<char>),
}

/// Mathematical model of a discriminant expression.
#[verifier::ext_equal]
pub struct DiscView {
    pub attrs: Seq<Seq<char>>,
    pub lit: LitView,
}

/// Mathematical model of a variant.
#[verifier::ext_equal]
pub struct VariantView {
    pub attrs: Seq<Seq<char>>,
    pub ident: Seq<char>,
    pub disc: Option<DiscView>,
}

/// Mathematical model of a declaration.
#[verifier::ext_equal]
pub struct DeclView {
    pub is_pub: bool,
    pub attrs: Seq<Seq<char>>,
    pub name: Seq<char>,
    pub variants: Seq<VariantView>,
}

/// The text of a sequence of attribute strings.
pub open spec fn attrs_view(attrs: Seq<String>) -> Seq<Seq<char>> {
    attrs.map_values(|a: String| a@)
}

/// The models of a sequence of variants.
pub open spec fn variants_view(vs: Seq<Variant>) -> Seq<VariantView> {
    vs.map_values(|v: Variant| v@)
}

impl View for Lit {
    type V = LitView;

    open spec fn view(&self) -> LitView {
        match self {
            Lit::Int { digits } => LitView::Int(digits@),
            Lit::Str { text } => LitView::Str(text@),
        }
    }
}

impl View for Discriminant {
    type V = DiscView;

    open spec fn view(&self) -> DiscView {
        DiscView { attrs: attrs_view(self.attrs@), lit: self.lit@ }
    }
}

impl View for Variant {
    type V = VariantView;

    open spec fn view(&self) -> VariantView {
        VariantView {
            attrs: attrs_view(self.attrs@),
            ident: self.ident@,
            disc: match self.disc {
                Some(d) => Some(d@),
                None => None,
            },
        }
    }
}

impl View for Decl {
    type V = DeclView;

    open spec fn view(&self) -> DeclView {
        DeclView {
            is_pub: self.is_pub,
            attrs: attrs_view(self.attrs@),
            name: self.name@,
            variants: variants_view(self.variants@),
        }
    }
}

/// Why an expansion was rejected. Every failure is fatal to the single
/// expansion; there is no partial output.
#[derive(Clone, Copy, Debug, PartialEq, Eq, Structural)]
pub enum ExpandError {
    /// The input is not parseable as a declaration at all.
    NotADecl,
    /// The declaration does not have exactly two variants.
    WrongVariantCount,
    /// A variant's discriminant is missing or is not an integer literal.
    MissingDiscriminant,
    /// A discriminant expression carries attributes.
    AttrsOnDiscriminant,
    /// The discriminant literals are not exactly 0 and 1.
    InvalidDiscriminantPair,
}

/// The diagnostic text of each rejection.
pub open spec fn spec_message(e: ExpandError) -> Seq<char> {
    match e {
        ExpandError::NotADecl => "not an enumerated-type declaration"@,
        ExpandError::WrongVariantCount => "expected 2 variants"@,
        ExpandError::MissingDiscriminant => "missing or non-literal discriminant"@,
        ExpandError::AttrsOnDiscriminant => "unexpected attributes on discriminant"@,
        ExpandError::InvalidDiscriminantPair => "discriminants must be 0 and 1"@,
    }
}

impl ExpandError {
    /// The human-readable diagnostic for this rejection.
    pub fn message(&self) -> (m: String)
        ensures
            m@ == spec_message(*self),
    {
        match self {
            ExpandError::NotADecl => String::from_str("not an enumerated-type declaration"),
            ExpandError::WrongVariantCount => String::from_str("expected 2 variants"),
            ExpandError::MissingDiscriminant => String::from_str(
                "missing or non-literal discriminant",
            ),
            ExpandError::AttrsOnDiscriminant => String::from_str(
                "unexpected attributes on discriminant",
            ),
            ExpandError::InvalidDiscriminantPair => String::from_str(
                "discriminants must be 0 and 1",
            ),
        }
    }
}

} // verus!
