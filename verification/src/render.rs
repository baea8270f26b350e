//! Rendering of the expansion output back to source text: the augmented
//! declaration as a full enumerated-type definition, followed by the
//! conversion function implementation.

use vstd::prelude::*;
use vstd::string::*;

use crate::decl::{attrs_view, Decl, DeclView, DiscView, LitView, Variant, VariantView};
use crate::generate::{Conversion, Generated};

verus! {

/// One attribute on a line of its own, indented.
pub open spec fn render_attr_line(a: Seq<char>, indent: Seq<char>) -> Seq<char> {
    indent + a + "\n"@
}

/// A list of attributes, one per line.
pub open spec fn render_attrs(attrs: Seq<Seq<char>>, indent: Seq<char>) -> Seq<char>
    decreases attrs.len(),
{
    if attrs.len() == 0 {
        Seq::empty()
    } else {
        render_attrs(attrs.drop_last(), indent) + render_attr_line(attrs.last(), indent)
    }
}

/// A literal as written: digits, or a string literal in quotes.
pub open spec fn render_lit(l: LitView) -> Seq<char> {
    match l {
        LitView::Int(digits) => digits,
        LitView::Str(text) => "\""@ + text + "\""@,
    }
}

/// The attributes of a discriminant, each followed by a space.
pub open spec fn render_disc_attrs(attrs: Seq<Seq<char>>) -> Seq<char>
    decreases attrs.len(),
{
    if attrs.len() == 0 {
        Seq::empty()
    } else {
        render_disc_attrs(attrs.drop_last()) + attrs.last() + " "@
    }
}

/// A discriminant as written after the variant name, or nothing.
pub open spec fn render_disc(d: Option<DiscView>) -> Seq<char> {
    match d {
        None => Seq::empty(),
        Some(dd) => " = "@ + render_disc_attrs(dd.attrs) + render_lit(dd.lit),
    }
}

/// One variant: its attributes, then its name and discriminant,
/// indented and ended with a comma.
pub open spec fn render_variant(v: VariantView) -> Seq<char> {
    render_attrs(v.attrs, "    "@) + "    "@ + v.ident + render_disc(v.disc) + ",\n"@
}

/// All variants in declaration order.
pub open spec fn render_variants(vs: Seq<VariantView>) -> Seq<char>
    decreases vs.len(),
{
    if vs.len() == 0 {
        Seq::empty()
    } else {
        render_variants(vs.drop_last()) + render_variant(vs.last())
    }
}

/// A declaration as a full enumerated-type definition.
pub open spec fn render_decl(d: DeclView) -> Seq<char> {
    render_attrs(d.attrs, Seq::empty()) + (if d.is_pub {
        "pub "@
    } else {
        Seq::empty()
    }) + "enum "@ + d.name + " {\n"@ + render_variants(d.variants) + "}\n"@
}

/// The conversion function implementation for the named type, mapping
/// `false` to `fv` and `true` to `tv`.
pub open spec fn render_conversion(name: Seq<char>, fv: Seq<char>, tv: Seq<char>) -> Seq<char> {
    "\nimpl core::convert::From<bool> for "@ + name + " {\n"@
        + "    fn from(val: bool) -> Self {\n"@ + "        match val {\n"@
        + "            false => Self::"@ + fv + ",\n"@ + "            true => Self::"@ + tv
        + ",\n"@ + "        }\n"@ + "    }\n"@ + "}\n"@
}

/// The whole output: the declaration first, then the conversion.
pub open spec fn render_generated(d: DeclView, name: Seq<char>, fv: Seq<char>, tv: Seq<char>)
    -> Seq<char> {
    render_decl(d) + render_conversion(name, fv, tv)
}

fn render_attrs_x(attrs: &Vec<String>, indent: &str) -> (r: String)
    ensures
        r@ == render_attrs(attrs_view(attrs@), indent@),
{
    let mut out = String::new();
    let mut i: usize = 0;
    while i < attrs.len()
        invariant
            i <= attrs@.len(),
            out@ == render_attrs(attrs_view(attrs@).take(i as int), indent@),
        decreases attrs@.len() - i,
    {
        out.append(indent);
        out.append(attrs[i].as_str());
        out.append("\n");
        proof {
            let av = attrs_view(attrs@);
            assert(av.take(i + 1 as int).drop_last() =~= av.take(i as int));
            assert(av.take(i + 1 as int).last() == av[i as int]);
            assert(out@ =~= render_attrs(av.take(i as int), indent@) + render_attr_line(
                av[i as int],
                indent@,
            ));
        }
        i = i + 1;
    }
    proof {
        assert(attrs_view(attrs@).take(attrs@.len() as int) =~= attrs_view(attrs@));
    }
    out
}

fn render_disc_attrs_x(attrs: &Vec<String>) -> (r: String)
    ensures
        r@ == render_disc_attrs(attrs_view(attrs@)),
{
    let mut out = String::new();
    let mut i: usize = 0;
    while i < attrs.len()
        invariant
            i <= attrs@.len(),
            out@ == render_disc_attrs(attrs_view(attrs@).take(i as int)),
        decreases attrs@.len() - i,
    {
        out.append(attrs[i].as_str());
        out.append(" ");
        proof {
            let av = attrs_view(attrs@);
            assert(av.take(i + 1 as int).drop_last() =~= av.take(i as int));
            assert(av.take(i + 1 as int).last() == av[i as int]);
            assert(out@ =~= render_disc_attrs(av.take(i as int)) + av[i as int] + " "@);
        }
        i = i + 1;
    }
    proof {
        assert(attrs_view(attrs@).take(attrs@.len() as int) =~= attrs_view(attrs@));
    }
    out
}

fn render_variant_x(v: &Variant) -> (r: String)
    ensures
        r@ == render_variant(v@),
{
    let mut out = render_attrs_x(&v.attrs, "    ");
    out.append("    ");
    out.append(v.ident.as_str());
    match &v.disc {
        None => {},
        Some(dd) => {
            out.append(" = ");
            let da = render_disc_attrs_x(&dd.attrs);
            out.append(da.as_str());
            match &dd.lit {
                crate::decl::Lit::Int { digits } => {
                    out.append(digits.as_str());
                },
                crate::decl::Lit::Str { text } => {
                    out.append("\"");
                    out.append(text.as_str());
                    out.append("\"");
                },
            }
        },
    }
    out.append(",\n");
    proof {
        assert(out@ =~= render_variant(v@));
    }
    out
}

fn render_variants_x(vs: &Vec<Variant>) -> (r: String)
    ensures
        r@ == render_variants(crate::decl::variants_view(vs@)),
{
    let mut out = String::new();
    let mut i: usize = 0;
    while i < vs.len()
        invariant
            i <= vs@.len(),
            out@ == render_variants(crate::decl::variants_view(vs@).take(i as int)),
        decreases vs@.len() - i,
    {
        let piece = render_variant_x(&vs[i]);
        out.append(piece.as_str());
        proof {
            let vv = crate::decl::variants_view(vs@);
            assert(vv.take(i + 1 as int).drop_last() =~= vv.take(i as int));
            assert(vv.take(i + 1 as int).last() == vv[i as int]);
        }
        i = i + 1;
    }
    proof {
        assert(crate::decl::variants_view(vs@).take(vs@.len() as int) =~= crate::decl::variants_view(
            vs@,
        ));
    }
    out
}

/// The declaration as text.
pub fn render_decl_x(d: &Decl) -> (r: String)
    ensures
        r@ == render_decl(d@),
{
    let mut out = render_attrs_x(&d.attrs, "");
    if d.is_pub {
        out.append("pub ");
    }
    out.append("enum ");
    out.append(d.name.as_str());
    out.append(" {\n");
    let body = render_variants_x(&d.variants);
    out.append(body.as_str());
    out.append("}\n");
    proof {
        reveal_strlit("");
        assert(""@ =~= Seq::<char>::empty());
        assert(out@ =~= render_decl(d@));
    }
    out
}

/// The conversion function as text.
pub fn render_conversion_x(c: &Conversion) -> (r: String)
    ensures
        r@ == render_conversion(c.enum_name@, c.false_variant@, c.true_variant@),
{
    let mut out = String::from_str("\nimpl core::convert::From<bool> for ");
    out.append(c.enum_name.as_str());
    out.append(" {\n");
    out.append("    fn from(val: bool) -> Self {\n");
    out.append("        match val {\n");
    out.append("            false => Self::");
    out.append(c.false_variant.as_str());
    out.append(",\n");
    out.append("            true => Self::");
    out.append(c.true_variant.as_str());
    out.append(",\n");
    out.append("        }\n");
    out.append("    }\n");
    out.append("}\n");
    proof {
        assert(out@ =~= render_conversion(c.enum_name@, c.false_variant@, c.true_variant@));
    }
    out
}

/// The whole expansion output as text: the augmented declaration
/// followed by the conversion function.
pub fn render_generated_x(g: &Generated) -> (r: String)
    ensures
        r@ == render_generated(
            g.decl@,
            g.conversion.enum_name@,
            g.conversion.false_variant@,
            g.conversion.true_variant@,
        ),
{
    let mut out = render_decl_x(&g.decl);
    let conv = render_conversion_x(&g.conversion);
    out.append(conv.as_str());
    out
}

} // verus!
