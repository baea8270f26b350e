//! Parser for the compact declaration syntax
//! `pub? attrs* Name: Variant0=0, Variant1=1`.
//!
//! An attribute is either `#[...]` or a `///` doc line; both are carried
//! verbatim. A variant is attributes, an identifier, and optionally `=`
//! followed by attributes and a literal (integer or string). The grammar
//! is defined by spec functions over the character sequence, and the
//! executable parser is proved to return exactly what they denote.

use vstd::prelude::*;
use vstd::string::*;

use crate::decl::{
    attrs_view, variants_view, Decl, DeclView, Discriminant, DiscView, ExpandError, Lit, LitView,
    Variant, VariantView,
};

verus! {

/// Whitespace accepted between tokens.
pub open spec fn is_ws(c: char) -> bool {
    c == ' ' || c == '\t' || c == '\n' || c == '\r'
}

/// A character that may begin an identifier.
pub open spec fn is_ident_start(c: char) -> bool {
    ('a' <= c && c <= 'z') || ('A' <= c && c <= 'Z') || c == '_'
}

/// A decimal digit.
pub open spec fn is_digit(c: char) -> bool {
    '0' <= c && c <= '9'
}

/// A character that may continue an identifier.
pub open spec fn is_ident_char(c: char) -> bool {
    is_ident_start(c) || is_digit(c)
}

/// The first position at or after `i` that does not hold whitespace.
pub open spec fn skip_ws(s: Seq<char>, i: int) -> int
    decreases s.len() - i,
    when 0 <= i <= s.len()
{
    if i < s.len() && is_ws(s[i]) {
        skip_ws(s, i + 1)
    } else {
        i
    }
}

/// The first position at or after `i` holding `c`, or the length if
/// there is none.
pub open spec fn find_char(s: Seq<char>, i: int, c: char) -> int
    decreases s.len() - i,
    when 0 <= i <= s.len()
{
    if i < s.len() {
        if s[i] == c {
            i
        } else {
            find_char(s, i + 1, c)
        }
    } else {
        i
    }
}

/// The end of the identifier-character run beginning at `i`.
pub open spec fn scan_ident_end(s: Seq<char>, i: int) -> int
    decreases s.len() - i,
    when 0 <= i <= s.len()
{
    if i < s.len() && is_ident_char(s[i]) {
        scan_ident_end(s, i + 1)
    } else {
        i
    }
}

/// The end of the digit run beginning at `i`.
pub open spec fn scan_digits_end(s: Seq<char>, i: int) -> int
    decreases s.len() - i,
    when 0 <= i <= s.len()
{
    if i < s.len() && is_digit(s[i]) {
        scan_digits_end(s, i + 1)
    } else {
        i
    }
}

pub proof fn lemma_skip_ws_bounds(s: Seq<char>, i: int)
    requires
        0 <= i <= s.len(),
    ensures
        i <= skip_ws(s, i) <= s.len(),
    decreases s.len() - i,
{
    if i < s.len() && is_ws(s[i]) {
        lemma_skip_ws_bounds(s, i + 1);
    }
}

pub proof fn lemma_find_char_bounds(s: Seq<char>, i: int, c: char)
    requires
        0 <= i <= s.len(),
    ensures
        i <= find_char(s, i, c) <= s.len(),
        find_char(s, i, c) < s.len() ==> s[find_char(s, i, c)] == c,
    decreases s.len() - i,
{
    if i < s.len() && s[i] != c {
        lemma_find_char_bounds(s, i + 1, c);
    }
}

pub proof fn lemma_scan_ident_bounds(s: Seq<char>, i: int)
    requires
        0 <= i <= s.len(),
    ensures
        i <= scan_ident_end(s, i) <= s.len(),
    decreases s.len() - i,
{
    if i < s.len() && is_ident_char(s[i]) {
        lemma_scan_ident_bounds(s, i + 1);
    }
}

pub proof fn lemma_scan_digits_bounds(s: Seq<char>, i: int)
    requires
        0 <= i <= s.len(),
    ensures
        i <= scan_digits_end(s, i) <= s.len(),
    decreases s.len() - i,
{
    if i < s.len() && is_digit(s[i]) {
        lemma_scan_digits_bounds(s, i + 1);
    }
}

/// Whether an attribute (`#[...]` or a `///` doc line) begins at `i`.
pub open spec fn at_attr_start(s: Seq<char>, i: int) -> bool {
    i < s.len() && (s[i] == '#' || (i + 2 < s.len() && s[i] == '/' && s[i + 1] == '/' && s[i + 2]
        == '/'))
}

/// One attribute beginning at `i`: its verbatim text and the position
/// after it, or nothing if a begun `#[...]` is not closed.
pub open spec fn parse_attr(s: Seq<char>, i: int) -> Option<(Seq<char>, int)> {
    if 0 <= i < s.len() && s[i] == '#' {
        if i + 1 < s.len() && s[i + 1] == '[' {
            let f = find_char(s, i + 2, ']');
            if f < s.len() {
                Some((s.subrange(i, f + 1), f + 1))
            } else {
                None
            }
        } else {
            None
        }
    } else if 0 <= i && i + 2 < s.len() && s[i] == '/' && s[i + 1] == '/' && s[i + 2] == '/' {
        let f = find_char(s, i + 3, '\n');
        if f < s.len() {
            Some((s.subrange(i, f), f + 1))
        } else {
            Some((s.subrange(i, f), f))
        }
    } else {
        None
    }
}

pub proof fn lemma_parse_attr_bounds(s: Seq<char>, i: int)
    requires
        0 <= i <= s.len(),
        parse_attr(s, i) is Some,
    ensures
        i < parse_attr(s, i).unwrap().1 <= s.len(),
{
    if i < s.len() && s[i] == '#' {
        if i + 1 < s.len() && s[i + 1] == '[' {
            lemma_find_char_bounds(s, i + 2, ']');
        }
    } else {
        lemma_find_char_bounds(s, i + 3, '\n');
    }
}

/// The attributes beginning at `i`, with surrounding whitespace skipped:
/// their texts and the position after them, or nothing if one of them is
/// malformed.
pub open spec fn parse_attrs(s: Seq<char>, i: int) -> Option<(Seq<Seq<char>>, int)>
    decreases s.len() - i,
    when 0 <= i <= s.len()
    via parse_attrs_decreases
{
    let j = skip_ws(s, i);
    if at_attr_start(s, j) {
        match parse_attr(s, j) {
            None => None,
            Some((a, k)) => match parse_attrs(s, k) {
                None => None,
                Some((rest, m)) => Some((rest.insert(0, a), m)),
            },
        }
    } else {
        Some((Seq::empty(), j))
    }
}

#[via_fn]
proof fn parse_attrs_decreases(s: Seq<char>, i: int) {
    lemma_skip_ws_bounds(s, i);
    let j = skip_ws(s, i);
    if at_attr_start(s, j) && parse_attr(s, j) is Some {
        lemma_parse_attr_bounds(s, j);
    }
}

pub proof fn lemma_parse_attrs_bounds(s: Seq<char>, i: int)
    requires
        0 <= i <= s.len(),
        parse_attrs(s, i) is Some,
    ensures
        i <= parse_attrs(s, i).unwrap().1 <= s.len(),
    decreases s.len() - i,
{
    lemma_skip_ws_bounds(s, i);
    let j = skip_ws(s, i);
    if at_attr_start(s, j) {
        lemma_parse_attr_bounds(s, j);
        let (a, k) = parse_attr(s, j).unwrap();
        lemma_parse_attrs_bounds(s, k);
    }
}

/// One literal beginning at `i`: a string literal in quotes (its inner
/// text) or an integer literal (its digits, with an optional leading
/// minus sign), and the position after it.
pub open spec fn parse_lit(s: Seq<char>, i: int) -> Option<(LitView, int)> {
    if 0 <= i < s.len() && s[i] == '"' {
        let f = find_char(s, i + 1, '"');
        if f < s.len() {
            Some((LitView::Str(s.subrange(i + 1, f)), f + 1))
        } else {
            None
        }
    } else if 0 <= i <= s.len() {
        let j = if i < s.len() && s[i] == '-' {
            i + 1
        } else {
            i
        };
        let e = scan_digits_end(s, j);
        if e > j {
            Some((LitView::Int(s.subrange(i, e)), e))
        } else {
            None
        }
    } else {
        None
    }
}

pub proof fn lemma_parse_lit_bounds(s: Seq<char>, i: int)
    requires
        0 <= i <= s.len(),
        parse_lit(s, i) is Some,
    ensures
        i < parse_lit(s, i).unwrap().1 <= s.len(),
{
    if i < s.len() && s[i] == '"' {
        lemma_find_char_bounds(s, i + 1, '"');
    } else {
        let j = if i < s.len() && s[i] == '-' {
            i + 1
        } else {
            i
        };
        lemma_scan_digits_bounds(s, j);
    }
}

/// One variant beginning at `i`: attributes, an identifier, and
/// optionally `=` followed by attributes and a literal.
pub open spec fn parse_variant(s: Seq<char>, i: int) -> Option<(VariantView, int)> {
    match parse_attrs(s, i) {
        None => None,
        Some((vattrs, j)) => {
            if j < s.len() && is_ident_start(s[j]) {
                let e = scan_ident_end(s, j);
                let ident = s.subrange(j, e);
                let k = skip_ws(s, e);
                if k < s.len() && s[k] == '=' {
                    match parse_attrs(s, k + 1) {
                        None => None,
                        Some((dattrs, p)) => match parse_lit(s, p) {
                            None => None,
                            Some((lit, q)) => Some(
                                (
                                    VariantView {
                                        attrs: vattrs,
                                        ident,
                                        disc: Some(DiscView { attrs: dattrs, lit }),
                                    },
                                    q,
                                ),
                            ),
                        },
                    }
                } else {
                    Some((VariantView { attrs: vattrs, ident, disc: None }, e))
                }
            } else {
                None
            }
        },
    }
}

pub proof fn lemma_parse_variant_bounds(s: Seq<char>, i: int)
    requires
        0 <= i <= s.len(),
        parse_variant(s, i) is Some,
    ensures
        i < parse_variant(s, i).unwrap().1 <= s.len(),
{
    lemma_parse_attrs_bounds(s, i);
    let (vattrs, j) = parse_attrs(s, i).unwrap();
    lemma_scan_ident_bounds(s, j);
    let e = scan_ident_end(s, j);
    if j < s.len() && is_ident_start(s[j]) {
        assert(scan_ident_end(s, j) == scan_ident_end(s, j + 1));
        lemma_scan_ident_bounds(s, j + 1);
        lemma_skip_ws_bounds(s, e);
        let k = skip_ws(s, e);
        if k < s.len() && s[k] == '=' {
            lemma_parse_attrs_bounds(s, k + 1);
            let (dattrs, p) = parse_attrs(s, k + 1).unwrap();
            lemma_parse_lit_bounds(s, p);
        }
    }
}

/// The comma-separated variant list beginning at `i`: the variants and
/// the position after the last of them.
pub open spec fn parse_variants(s: Seq<char>, i: int) -> Option<(Seq<VariantView>, int)>
    decreases s.len() - i,
    when 0 <= i <= s.len()
    via parse_variants_decreases
{
    match parse_variant(s, i) {
        None => None,
        Some((v, j)) => {
            let k = skip_ws(s, j);
            if k < s.len() && s[k] == ',' {
                match parse_variants(s, k + 1) {
                    None => None,
                    Some((rest, m)) => Some((rest.insert(0, v), m)),
                }
            } else {
                Some((seq![v], j))
            }
        },
    }
}

#[via_fn]
proof fn parse_variants_decreases(s: Seq<char>, i: int) {
    if parse_variant(s, i) is Some {
        lemma_parse_variant_bounds(s, i);
        let (v, j) = parse_variant(s, i).unwrap();
        lemma_skip_ws_bounds(s, j);
    }
}

/// The keyword `pub`.
pub open spec fn pub_kw() -> Seq<char> {
    seq!['p', 'u', 'b']
}

/// A whole declaration: optional `pub`, attributes, a name, `:`, the
/// variant list, and nothing but whitespace after it.
pub open spec fn parse_decl(s: Seq<char>) -> Option<DeclView> {
    let i0 = skip_ws(s, 0);
    let has_vis = i0 < s.len() && is_ident_start(s[i0]) && s.subrange(i0, scan_ident_end(s, i0))
        == pub_kw();
    let i1 = if has_vis {
        scan_ident_end(s, i0)
    } else {
        i0
    };
    match parse_attrs(s, i1) {
        None => None,
        Some((dattrs, i2)) => {
            if i2 < s.len() && is_ident_start(s[i2]) {
                let e = scan_ident_end(s, i2);
                let name = s.subrange(i2, e);
                let i3 = skip_ws(s, e);
                if i3 < s.len() && s[i3] == ':' {
                    match parse_variants(s, i3 + 1) {
                        None => None,
                        Some((vs, i4)) => {
                            if skip_ws(s, i4) == s.len() {
                                Some(DeclView { is_pub: has_vis, attrs: dattrs, name, variants: vs })
                            } else {
                                None
                            }
                        },
                    }
                } else {
                    None
                }
            } else {
                None
            }
        },
    }
}

/// Inserting at the front of an attribute list inserts its text at the
/// front of the list's model.
pub proof fn lemma_attrs_view_insert0(v: Seq<String>, a: String)
    ensures
        attrs_view(v.insert(0, a)) == attrs_view(v).insert(0, a@),
{
    let l = attrs_view(v.insert(0, a));
    let r = attrs_view(v).insert(0, a@);
    assert forall|k: int| 0 <= k < l.len() implies l[k] == r[k] by {}
    assert(l =~= r);
}

/// Inserting at the front of a variant list inserts its model at the
/// front of the list's model.
pub proof fn lemma_variants_view_insert0(v: Seq<Variant>, x: Variant)
    ensures
        variants_view(v.insert(0, x)) == variants_view(v).insert(0, x@),
{
    let l = variants_view(v.insert(0, x));
    let r = variants_view(v).insert(0, x@);
    assert forall|k: int| 0 <= k < l.len() implies l[k] == r[k] by {}
    assert(l =~= r);
}

fn is_ws_x(c: char) -> (r: bool)
    ensures
        r == is_ws(c),
{
    c == ' ' || c == '\t' || c == '\n' || c == '\r'
}

fn is_ident_start_x(c: char) -> (r: bool)
    ensures
        r == is_ident_start(c),
{
    ('a' <= c && c <= 'z') || ('A' <= c && c <= 'Z') || c == '_'
}

fn is_digit_x(c: char) -> (r: bool)
    ensures
        r == is_digit(c),
{
    '0' <= c && c <= '9'
}

fn skip_ws_x(s: &str, i: usize) -> (r: usize)
    requires
        i as int <= s@.len(),
    ensures
        r as int == skip_ws(s@, i as int),
        i <= r,
        r as int <= s@.len(),
    decreases s@.len() - i,
{
    let n: usize = s.unicode_len();
    if i < n && is_ws_x(s.get_char(i)) {
        skip_ws_x(s, i + 1)
    } else {
        i
    }
}

fn find_char_x(s: &str, i: usize, c: char) -> (r: usize)
    requires
        i as int <= s@.len(),
    ensures
        r as int == find_char(s@, i as int, c),
        i <= r,
        r as int <= s@.len(),
    decreases s@.len() - i,
{
    let n: usize = s.unicode_len();
    if i < n {
        if s.get_char(i) == c {
            i
        } else {
            find_char_x(s, i + 1, c)
        }
    } else {
        i
    }
}

fn scan_ident_end_x(s: &str, i: usize) -> (r: usize)
    requires
        i as int <= s@.len(),
    ensures
        r as int == scan_ident_end(s@, i as int),
        i <= r,
        r as int <= s@.len(),
    decreases s@.len() - i,
{
    let n: usize = s.unicode_len();
    if i < n && is_ident_start_x(s.get_char(i)) || i < n && is_digit_x(s.get_char(i)) {
        scan_ident_end_x(s, i + 1)
    } else {
        i
    }
}

fn scan_digits_end_x(s: &str, i: usize) -> (r: usize)
    requires
        i as int <= s@.len(),
    ensures
        r as int == scan_digits_end(s@, i as int),
        i <= r,
        r as int <= s@.len(),
    decreases s@.len() - i,
{
    let n: usize = s.unicode_len();
    if i < n && is_digit_x(s.get_char(i)) {
        scan_digits_end_x(s, i + 1)
    } else {
        i
    }
}

fn at_attr_start_x(s: &str, i: usize) -> (r: bool)
    requires
        i as int <= s@.len(),
    ensures
        r == at_attr_start(s@, i as int),
{
    let n: usize = s.unicode_len();
    if i < n {
        let c = s.get_char(i);
        if c == '#' {
            true
        } else if c == '/' && n - i > 2 && s.get_char(i + 1) == '/' && s.get_char(i + 2) == '/' {
            true
        } else {
            false
        }
    } else {
        false
    }
}

fn parse_attr_x(s: &str, i: usize) -> (r: Option<(String, usize)>)
    requires
        i as int <= s@.len(),
    ensures
        match r {
            Some(p) => parse_attr(s@, i as int) == Some((p.0@, p.1 as int)) && i < p.1 && p.1
                as int <= s@.len(),
            None => parse_attr(s@, i as int) is None,
        },
{
    let n: usize = s.unicode_len();
    if i < n && s.get_char(i) == '#' {
        if n - i > 1 && s.get_char(i + 1) == '[' {
            let f = find_char_x(s, i + 2, ']');
            if f < n {
                let a = String::from_str(s.substring_char(i, f + 1));
                Some((a, f + 1))
            } else {
                None
            }
        } else {
            None
        }
    } else if i < n && s.get_char(i) == '/' && n - i > 2 && s.get_char(i + 1) == '/' && s.get_char(
        i + 2,
    ) == '/' {
        let f = find_char_x(s, i + 3, '\n');
        let a = String::from_str(s.substring_char(i, f));
        if f < n {
            Some((a, f + 1))
        } else {
            Some((a, f))
        }
    } else {
        None
    }
}

fn parse_attrs_x(s: &str, i: usize) -> (r: Option<(Vec<String>, usize)>)
    requires
        i as int <= s@.len(),
    ensures
        match r {
            Some(p) => parse_attrs(s@, i as int) == Some((attrs_view(p.0@), p.1 as int)) && i
                <= p.1 && p.1 as int <= s@.len(),
            None => parse_attrs(s@, i as int) is None,
        },
    decreases s@.len() - i,
{
    let j = skip_ws_x(s, i);
    if at_attr_start_x(s, j) {
        match parse_attr_x(s, j) {
            None => None,
            Some((a, k)) => {
                match parse_attrs_x(s, k) {
                    None => None,
                    Some((rest, m)) => {
                        proof {
                            lemma_attrs_view_insert0(rest@, a);
                        }
                        let mut out = rest;
                        out.insert(0, a);
                        Some((out, m))
                    },
                }
            },
        }
    } else {
        Some((Vec::new(), j))
    }
}

fn parse_lit_x(s: &str, i: usize) -> (r: Option<(Lit, usize)>)
    requires
        i as int <= s@.len(),
    ensures
        match r {
            Some(p) => parse_lit(s@, i as int) == Some((p.0@, p.1 as int)) && i < p.1 && p.1
                as int <= s@.len(),
            None => parse_lit(s@, i as int) is None,
        },
{
    let n: usize = s.unicode_len();
    if i < n && s.get_char(i) == '"' {
        let f = find_char_x(s, i + 1, '"');
        if f < n {
            let t = String::from_str(s.substring_char(i + 1, f));
            Some((Lit::Str { text: t }, f + 1))
        } else {
            None
        }
    } else {
        let j: usize = if i < n && s.get_char(i) == '-' {
            i + 1
        } else {
            i
        };
        let e = scan_digits_end_x(s, j);
        if e > j {
            let g = String::from_str(s.substring_char(i, e));
            Some((Lit::Int { digits: g }, e))
        } else {
            None
        }
    }
}

fn parse_variant_x(s: &str, i: usize) -> (r: Option<(Variant, usize)>)
    requires
        i as int <= s@.len(),
    ensures
        match r {
            Some(p) => parse_variant(s@, i as int) == Some((p.0@, p.1 as int)) && i < p.1 && p.1
                as int <= s@.len(),
            None => parse_variant(s@, i as int) is None,
        },
{
    match parse_attrs_x(s, i) {
        None => None,
        Some((vattrs, j)) => {
            let n: usize = s.unicode_len();
            if j < n && is_ident_start_x(s.get_char(j)) {
                let e = scan_ident_end_x(s, j);
                proof {
                    assert(scan_ident_end(s@, j as int) == scan_ident_end(s@, j as int + 1));
                    lemma_scan_ident_bounds(s@, j as int + 1);
                }
                let ident = String::from_str(s.substring_char(j, e));
                let k = skip_ws_x(s, e);
                if k < n && s.get_char(k) == '=' {
                    match parse_attrs_x(s, k + 1) {
                        None => None,
                        Some((dattrs, p)) => {
                            match parse_lit_x(s, p) {
                                None => None,
                                Some((lit, q)) => Some(
                                    (
                                        Variant {
                                            attrs: vattrs,
                                            ident,
                                            disc: Some(Discriminant { attrs: dattrs, lit }),
                                        },
                                        q,
                                    ),
                                ),
                            }
                        },
                    }
                } else {
                    Some((Variant { attrs: vattrs, ident, disc: None }, e))
                }
            } else {
                None
            }
        },
    }
}

fn parse_variants_x(s: &str, i: usize) -> (r: Option<(Vec<Variant>, usize)>)
    requires
        i as int <= s@.len(),
    ensures
        match r {
            Some(p) => parse_variants(s@, i as int) == Some((variants_view(p.0@), p.1 as int)) && i
                < p.1 && p.1 as int <= s@.len(),
            None => parse_variants(s@, i as int) is None,
        },
    decreases s@.len() - i,
{
    match parse_variant_x(s, i) {
        None => None,
        Some((v, j)) => {
            let n: usize = s.unicode_len();
            let k = skip_ws_x(s, j);
            if k < n && s.get_char(k) == ',' {
                match parse_variants_x(s, k + 1) {
                    None => None,
                    Some((rest, m)) => {
                        proof {
                            lemma_variants_view_insert0(rest@, v);
                        }
                        let mut out = rest;
                        out.insert(0, v);
                        Some((out, m))
                    },
                }
            } else {
                let mut out: Vec<Variant> = Vec::new();
                out.push(v);
                proof {
                    assert(variants_view(out@) =~= seq![out@[0]@]);
                }
                Some((out, j))
            }
        },
    }
}

fn is_pub_word(s: &str, i: usize, e: usize) -> (r: bool)
    requires
        i <= e,
        e as int <= s@.len(),
    ensures
        r == (s@.subrange(i as int, e as int) == pub_kw()),
{
    proof {
        assert(pub_kw().len() == 3);
        assert(pub_kw()[0] == 'p' && pub_kw()[1] == 'u' && pub_kw()[2] == 'b');
    }
    if e - i == 3 {
        let ok = s.get_char(i) == 'p' && s.get_char(i + 1) == 'u' && s.get_char(i + 2) == 'b';
        proof {
            let sub = s@.subrange(i as int, e as int);
            assert(sub.len() == 3);
            assert(sub[0] == s@[i as int] && sub[1] == s@[i as int + 1] && sub[2] == s@[i as int
                + 2]);
            if ok {
                assert(sub =~= pub_kw());
            }
        }
        ok
    } else {
        false
    }
}

/// Parses one whole declaration from the input text; anything that is
/// not a declaration of the accepted shape is rejected.
pub fn parse(s: &str) -> (r: Result<Decl, ExpandError>)
    ensures
        match r {
            Ok(d) => parse_decl(s@) == Some(d@),
            Err(e) => parse_decl(s@) is None && e == ExpandError::NotADecl,
        },
{
    let n: usize = s.unicode_len();
    let i0 = skip_ws_x(s, 0);
    let mut has_vis = false;
    let mut i1 = i0;
    if i0 < n && is_ident_start_x(s.get_char(i0)) {
        let e0 = scan_ident_end_x(s, i0);
        if is_pub_word(s, i0, e0) {
            has_vis = true;
            i1 = e0;
        }
    }
    match parse_attrs_x(s, i1) {
        None => Err(ExpandError::NotADecl),
        Some((dattrs, i2)) => {
            if i2 < n && is_ident_start_x(s.get_char(i2)) {
                let e = scan_ident_end_x(s, i2);
                proof {
                    assert(scan_ident_end(s@, i2 as int) == scan_ident_end(s@, i2 as int + 1));
                    lemma_scan_ident_bounds(s@, i2 as int + 1);
                }
                let name = String::from_str(s.substring_char(i2, e));
                let i3 = skip_ws_x(s, e);
                if i3 < n && s.get_char(i3) == ':' {
                    match parse_variants_x(s, i3 + 1) {
                        None => Err(ExpandError::NotADecl),
                        Some((vs, i4)) => {
                            let i5 = skip_ws_x(s, i4);
                            if i5 == n {
                                Ok(Decl { is_pub: has_vis, attrs: dattrs, name, variants: vs })
                            } else {
                                Err(ExpandError::NotADecl)
                            }
                        },
                    }
                } else {
                    Err(ExpandError::NotADecl)
                }
            } else {
                Err(ExpandError::NotADecl)
            }
        },
    }
}

} // verus!
