use bool_enum::bool_enum;
use bool_enum::decl::{Decl, Discriminant, ExpandError, Lit, Variant};
use bool_enum::expand;
use bool_enum::generate::generate;
use bool_enum::validate::validate;

fn int_variant(name: &str, digits: &str) -> Variant {
    Variant {
        attrs: Vec::new(),
        ident: String::from(name),
        disc: Some(Discriminant {
            attrs: Vec::new(),
            lit: Lit::Int {
                digits: String::from(digits),
            },
        }),
    }
}

fn plain_decl(name: &str, variants: Vec<Variant>) -> Decl {
    Decl {
        is_pub: false,
        attrs: Vec::new(),
        name: String::from(name),
        variants,
    }
}

#[test]
fn false_goes_to_zero_true_to_one() {
    let g = expand("MyEnum: MyFalse=0, MyTrue=1").unwrap();
    assert_eq!(g.conversion.enum_name, "MyEnum");
    assert_eq!(g.conversion.false_variant, "MyFalse");
    assert_eq!(g.conversion.true_variant, "MyTrue");
}

#[test]
fn swapped_order_gives_the_same_mapping() {
    let g = expand("MyEnum: MyTrue=1, MyFalse=0").unwrap();
    assert_eq!(g.conversion.enum_name, "MyEnum");
    assert_eq!(g.conversion.false_variant, "MyFalse");
    assert_eq!(g.conversion.true_variant, "MyTrue");
}

#[test]
fn three_variants_are_rejected() {
    let r = expand("MyEnum: A=0, B=1, C=2");
    assert_eq!(r.unwrap_err(), ExpandError::WrongVariantCount);
}

#[test]
fn one_variant_is_rejected() {
    let r = expand("MyEnum: A=0");
    assert_eq!(r.unwrap_err(), ExpandError::WrongVariantCount);
}

#[test]
fn zero_and_two_are_rejected() {
    let r = expand("MyEnum: A=0, B=2");
    assert_eq!(r.unwrap_err(), ExpandError::InvalidDiscriminantPair);
}

#[test]
fn duplicate_ones_are_rejected() {
    let r = expand("MyEnum: A=1, B=1");
    assert_eq!(r.unwrap_err(), ExpandError::InvalidDiscriminantPair);
}

#[test]
fn negative_discriminant_is_rejected() {
    let r = expand("MyEnum: A=-1, B=1");
    assert_eq!(r.unwrap_err(), ExpandError::InvalidDiscriminantPair);
}

#[test]
fn missing_discriminant_is_rejected() {
    let r = expand("MyEnum: A, B=1");
    assert_eq!(r.unwrap_err(), ExpandError::MissingDiscriminant);
}

#[test]
fn string_literal_discriminant_is_rejected() {
    let r = expand("MyEnum: A=\"x\", B=1");
    assert_eq!(r.unwrap_err(), ExpandError::MissingDiscriminant);
}

#[test]
fn attribute_on_discriminant_is_rejected() {
    let r = expand("MyEnum: A= #[cfg(test)] 0, B=1");
    assert_eq!(r.unwrap_err(), ExpandError::AttrsOnDiscriminant);
}

#[test]
fn attribute_on_discriminant_built_directly_is_rejected() {
    let mut v0 = int_variant("A", "0");
    if let Some(d) = v0.disc.as_mut() {
        d.attrs.push(String::from("#[cfg(test)]"));
    }
    let d = plain_decl("MyEnum", vec![v0, int_variant("B", "1")]);
    assert_eq!(validate(&d).unwrap_err(), ExpandError::AttrsOnDiscriminant);
}

#[test]
fn not_a_declaration_is_rejected() {
    assert_eq!(expand("fn main() {}").unwrap_err(), ExpandError::NotADecl);
    assert_eq!(expand("").unwrap_err(), ExpandError::NotADecl);
    assert_eq!(expand("MyEnum A=0, B=1").unwrap_err(), ExpandError::NotADecl);
}

#[test]
fn unclosed_attribute_is_rejected() {
    let r = expand("#[oops MyEnum: A=0, B=1");
    assert_eq!(r.unwrap_err(), ExpandError::NotADecl);
}

#[test]
fn suppression_attribute_is_appended_to_each_variant() {
    let g = expand("MyEnum: A=0, B=1").unwrap();
    assert_eq!(g.decl.variants.len(), 2);
    for v in &g.decl.variants {
        assert_eq!(v.attrs, vec![String::from("#[allow(missing_docs)]")]);
    }
}

#[test]
fn augmentation_is_idempotent() {
    let g1 = expand("MyEnum: A=0, B=1").unwrap();
    let (t, f) = validate(&g1.decl).unwrap();
    let g2 = generate(&g1.decl, t, f);
    for v in &g2.decl.variants {
        assert_eq!(v.attrs, vec![String::from("#[allow(missing_docs)]")]);
    }
    assert_eq!(g2.conversion.false_variant, g1.conversion.false_variant);
    assert_eq!(g2.conversion.true_variant, g1.conversion.true_variant);
}

#[test]
fn visibility_and_attributes_are_kept() {
    let g = expand("pub /// Documentation\n #[derive(Debug)] MyPublicEnum: MyFalse=0, MyTrue=1")
        .unwrap();
    assert!(g.decl.is_pub);
    assert_eq!(
        g.decl.attrs,
        vec![
            String::from("/// Documentation"),
            String::from("#[derive(Debug)]")
        ]
    );
    assert_eq!(g.conversion.false_variant, "MyFalse");
    assert_eq!(g.conversion.true_variant, "MyTrue");
}

#[test]
fn variant_attributes_are_kept_and_augmented() {
    let g = expand("MyEnum: /// low\n A=0, /// high\n B=1").unwrap();
    assert_eq!(
        g.decl.variants[0].attrs,
        vec![
            String::from("/// low"),
            String::from("#[allow(missing_docs)]")
        ]
    );
    assert_eq!(
        g.decl.variants[1].attrs,
        vec![
            String::from("/// high"),
            String::from("#[allow(missing_docs)]")
        ]
    );
}

#[test]
fn whitespace_is_tolerated() {
    let g = expand("  MyEnum :\n  A = 0 ,\n  B = 1  ").unwrap();
    assert_eq!(g.conversion.false_variant, "A");
    assert_eq!(g.conversion.true_variant, "B");
}

#[test]
fn rendered_output_is_exact() {
    let text = bool_enum("MyEnum: MyFalse=0, MyTrue=1").unwrap();
    let expected = "enum MyEnum {\n    #[allow(missing_docs)]\n    MyFalse = 0,\n    #[allow(missing_docs)]\n    MyTrue = 1,\n}\n\nimpl core::convert::From<bool> for MyEnum {\n    fn from(val: bool) -> Self {\n        match val {\n            false => Self::MyFalse,\n            true => Self::MyTrue,\n        }\n    }\n}\n";
    assert_eq!(text, expected);
}

#[test]
fn rendered_output_keeps_visibility() {
    let text = bool_enum("pub Flag: Off=0, On=1").unwrap();
    assert!(text.starts_with("pub enum Flag {\n"));
    assert!(text.contains("false => Self::Off,\n"));
    assert!(text.contains("true => Self::On,\n"));
}

#[test]
fn trailing_comma_is_rejected() {
    assert_eq!(
        expand("MyEnum: A=0, B=1,").unwrap_err(),
        ExpandError::NotADecl
    );
}

#[test]
fn type_attributes_without_visibility_are_kept() {
    let g = expand("#[derive(Clone)] MyEnum: A=0, B=1").unwrap();
    assert!(!g.decl.is_pub);
    assert_eq!(g.decl.attrs, vec![String::from("#[derive(Clone)]")]);
}

#[test]
fn error_messages_are_specific() {
    assert_eq!(
        ExpandError::NotADecl.message(),
        "not an enumerated-type declaration"
    );
    assert_eq!(ExpandError::WrongVariantCount.message(), "expected 2 variants");
    assert_eq!(
        ExpandError::MissingDiscriminant.message(),
        "missing or non-literal discriminant"
    );
    assert_eq!(
        ExpandError::AttrsOnDiscriminant.message(),
        "unexpected attributes on discriminant"
    );
    assert_eq!(
        ExpandError::InvalidDiscriminantPair.message(),
        "discriminants must be 0 and 1"
    );
}
