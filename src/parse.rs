//! The parser: reads a source text into a [`Body`], exactly as the grammar
//! of [`crate::syntax`] describes.
use vstd::prelude::*;

use crate::data::{
    decls_view, parts_view, Body, Decl, DeclValue, Decls, SpecDecl, SpecPart, Template,
    TemplatePart, TemplateValue, Var,
};
use crate::chars::{chars_of, push_char};
use crate::errors::{ParseError, ParseErrorKind, VerifyError};
use crate::syntax::{
    decl_at, decl_list_at, default_at, ident_end, insert_at, is_ascii_alpha, is_ident_continue,
    is_newline, is_whitespace, lemma_decl_at_bounds, lemma_decl_list_at_bounds,
    lemma_ident_end_bounds, lemma_part_at_bounds, lemma_quote_end_bounds, lemma_var_at_bounds,
    lemma_ws_end_bounds, newline_end, part_at, parse_spec, parts_at, quote_end, string_at, var_at,
    ws_end,
};

verus! {

/// The characters of `s` from `i` up to `j`, as a string.
fn string_of(s: &Vec<char>, i: usize, j: usize) -> (r: String)
    requires
        i <= j <= s.len(),
    ensures
        r@ == s@.subrange(i as int, j as int),
{
    let mut out = String::new();
    let mut k: usize = i;
    while k < j
        invariant
            i <= k <= j <= s.len(),
            out@ == s@.subrange(i as int, k as int),
        decreases j - k,
    {
        push_char(&mut out, s[k]);
        k = k + 1;
        assert(out@ =~= s@.subrange(i as int, k as int));
    }
    out
}

fn is_whitespace_char(c: char) -> (r: bool)
    ensures
        r == is_whitespace(c),
{
    ('\t' <= c && c <= '\r') || c == ' ' || c == '\u{85}' || c == '\u{a0}' || c == '\u{1680}'
        || ('\u{2000}' <= c && c <= '\u{200a}') || c == '\u{2028}' || c == '\u{2029}' || c
        == '\u{202f}' || c == '\u{205f}' || c == '\u{3000}'
}

fn is_newline_char(c: char) -> (r: bool)
    ensures
        r == is_newline(c),
{
    c == '\n' || c == '\r' || c == '\u{0b}' || c == '\u{0c}' || c == '\u{85}' || c == '\u{2028}'
        || c == '\u{2029}'
}

fn is_alpha_char(c: char) -> (r: bool)
    ensures
        r == is_ascii_alpha(c),
{
    ('a' <= c && c <= 'z') || ('A' <= c && c <= 'Z')
}

fn is_ident_continue_char(c: char) -> (r: bool)
    ensures
        r == is_ident_continue(c),
{
    is_alpha_char(c) || ('0' <= c && c <= '9') || c == '_'
}

fn skip_ws(s: &Vec<char>, i: usize) -> (r: usize)
    requires
        i <= s.len(),
    ensures
        r == ws_end(s@, i as int),
{
    let mut j: usize = i;
    while j < s.len() && is_whitespace_char(s[j])
        invariant
            i <= j <= s.len(),
            ws_end(s@, j as int) == ws_end(s@, i as int),
        decreases s.len() - j,
    {
        j = j + 1;
    }
    j
}

fn skip_ident(s: &Vec<char>, i: usize) -> (r: usize)
    requires
        i <= s.len(),
    ensures
        r == ident_end(s@, i as int),
{
    let mut j: usize = i;
    while j < s.len() && is_ident_continue_char(s[j])
        invariant
            i <= j <= s.len(),
            ident_end(s@, j as int) == ident_end(s@, i as int),
        decreases s.len() - j,
    {
        j = j + 1;
    }
    j
}

fn find_quote(s: &Vec<char>, i: usize) -> (r: usize)
    requires
        i <= s.len(),
    ensures
        r == quote_end(s@, i as int),
{
    let mut j: usize = i;
    while j < s.len() && s[j] != '"'
        invariant
            i <= j <= s.len(),
            quote_end(s@, j as int) == quote_end(s@, i as int),
        decreases s.len() - j,
    {
        j = j + 1;
    }
    j
}

fn skip_newline(s: &Vec<char>, i: usize) -> (r: usize)
    requires
        i <= s.len(),
    ensures
        r == newline_end(s@, i as int),
{
    if i < s.len() && i + 1 < s.len() && s[i] == '\r' && s[i + 1] == '\n' {
        i + 2
    } else if i < s.len() && is_newline_char(s[i]) {
        i + 1
    } else {
        i
    }
}

fn parse_var(s: &Vec<char>, i: usize) -> (r: Option<(Var, usize)>)
    requires
        i <= s.len(),
    ensures
        match var_at(s@, i as int) {
            Some((v, j)) => r matches Some((x, k)) && x@ == v && k == j,
            None => r is None,
        },
{
    if i < s.len() && s[i] == '_' && !(i + 1 < s.len() && is_ident_continue_char(s[i + 1])) {
        Some((Var::Ignore, i + 1))
    } else if i < s.len() && (is_alpha_char(s[i]) || s[i] == '_') {
        let j = skip_ident(s, i + 1);
        proof {
            lemma_ident_end_bounds(s@, i + 1);
        }
        Some((Var::Ident(string_of(s, i, j)), j))
    } else {
        None
    }
}

fn parse_string(s: &Vec<char>, i: usize) -> (r: Option<(String, usize)>)
    requires
        i <= s.len(),
    ensures
        match string_at(s@, i as int) {
            Some((v, j)) => r matches Some((x, k)) && x@ == v && k == j,
            None => r is None,
        },
{
    if i < s.len() && s[i] == '"' {
        let j = find_quote(s, i + 1);
        proof {
            lemma_quote_end_bounds(s@, i + 1);
        }
        if j < s.len() {
            Some((string_of(s, i + 1, j), j + 1))
        } else {
            None
        }
    } else {
        None
    }
}

fn parse_default(s: &Vec<char>, i: usize) -> (r: (Option<DeclValue>, usize))
    requires
        i <= s.len(),
    ensures
        r.1 == default_at(s@, i as int).1,
        match default_at(s@, i as int).0 {
            Some(v) => r.0 matches Some(x) && x@ == v,
            None => r.0 is None,
        },
{
    let a = skip_ws(s, i);
    proof {
        lemma_ws_end_bounds(s@, i as int);
    }
    if a < s.len() && s[a] == '?' {
        let b = skip_ws(s, a + 1);
        proof {
            lemma_ws_end_bounds(s@, a + 1);
        }
        match parse_string(s, b) {
            Some((v, j)) => {
                proof {
                    lemma_quote_end_bounds(s@, b + 1);
                }
                (Some(DeclValue::Str(v)), skip_ws(s, j))
            },
            None => (None, a),
        }
    } else {
        (None, a)
    }
}

fn parse_decl(s: &Vec<char>, i: usize) -> (r: Option<(Decl, usize)>)
    requires
        i <= s.len(),
    ensures
        match decl_at(s@, i as int) {
            Some((d, j)) => r matches Some((x, k)) && x@ == d && k == j,
            None => r is None,
        },
{
    let a = skip_ws(s, i);
    proof {
        lemma_ws_end_bounds(s@, i as int);
    }
    match parse_var(s, a) {
        Some((var, j)) => {
            proof {
                lemma_var_at_bounds(s@, a as int);
            }
            let (default, k) = parse_default(s, j);
            Some((Decl { var, default }, k))
        },
        None => None,
    }
}

fn parse_decl_list(s: &Vec<char>, i: usize) -> (r: (Vec<Decl>, usize))
    requires
        i <= s.len(),
    ensures
        decls_view(r.0@) == decl_list_at(s@, i as int).0,
        r.1 == decl_list_at(s@, i as int).1,
{
    let mut out: Vec<Decl> = Vec::new();
    let mut j: usize = i;
    loop
        invariant
            i <= j <= s.len(),
            decl_list_at(s@, i as int).0 == decls_view(out@) + decl_list_at(s@, j as int).0,
            decl_list_at(s@, i as int).1 == decl_list_at(s@, j as int).1,
        decreases s.len() - j,
    {
        proof {
            lemma_decl_at_bounds(s@, j as int);
        }
        match parse_decl(s, j) {
            Some((d, k)) => {
                let ghost prev = out@;
                let ghost dv = d@;
                out.push(d);
                assert(decls_view(out@) =~= decls_view(prev).push(dv));
                if k < s.len() && s[k] == ',' {
                    assert(decls_view(out@) + decl_list_at(s@, k + 1).0 =~= decls_view(prev) + (
                    seq![dv] + decl_list_at(s@, k + 1).0));
                    j = k + 1;
                } else {
                    assert(decls_view(out@) =~= decls_view(prev) + seq![dv]);
                    return (out, k);
                }
            },
            None => {
                assert(decls_view(out@) =~= decls_view(out@) + seq![]);
                return (out, j);
            },
        }
    }
}

fn parse_insert(s: &Vec<char>, i: usize) -> (r: Option<(Var, usize)>)
    requires
        i <= s.len(),
    ensures
        match insert_at(s@, i as int) {
            Some((v, j)) => r matches Some((x, k)) && x@ == v && k == j,
            None => r is None,
        },
{
    if i < s.len() && i + 1 < s.len() && s[i] == '%' && s[i + 1] == '{' {
        match parse_var(s, i + 2) {
            Some((v, j)) => {
                proof {
                    lemma_var_at_bounds(s@, i + 2);
                }
                if j < s.len() && s[j] == '}' {
                    Some((v, j + 1))
                } else {
                    None
                }
            },
            None => None,
        }
    } else {
        None
    }
}

fn parse_part(s: &Vec<char>, i: usize) -> (r: (TemplatePart, usize))
    requires
        i < s.len(),
    ensures
        r.0@ == part_at(s@, i as int).0,
        r.1 == part_at(s@, i as int).1,
{
    match parse_insert(s, i) {
        Some((v, j)) => (TemplatePart::Insert(TemplateValue::Var(v)), j),
        None => {
            if i + 1 < s.len() && s[i] == '%' && s[i + 1] == '%' {
                (TemplatePart::Char('%'), i + 2)
            } else {
                (TemplatePart::Char(s[i]), i + 1)
            }
        },
    }
}

fn parse_template(s: &Vec<char>, i: usize) -> (r: Template)
    requires
        i <= s.len(),
    ensures
        r@ == parts_at(s@, i as int),
{
    let mut out: Vec<TemplatePart> = Vec::new();
    let mut j: usize = i;
    while j < s.len()
        invariant
            i <= j <= s.len(),
            parts_at(s@, i as int) == parts_view(out@) + parts_at(s@, j as int),
        decreases s.len() - j,
    {
        proof {
            lemma_part_at_bounds(s@, j as int);
        }
        let (p, k) = parse_part(s, j);
        let ghost prev = out@;
        let ghost pv = p@;
        out.push(p);
        assert(parts_view(out@) =~= parts_view(prev).push(pv));
        assert(parts_view(out@) + parts_at(s@, k as int) =~= parts_view(prev) + (seq![pv]
            + parts_at(s@, k as int)));
        j = k;
    }
    assert(parts_view(out@) =~= parts_view(out@) + parts_at(s@, j as int));
    Template(out)
}

fn parse_error(kind: ParseErrorKind, position: usize) -> (r: Result<Body, VerifyError>)
    ensures
        r matches Err(VerifyError::ParseError(e)) && e.kind == kind && e.position == position,
{
    Err(VerifyError::ParseError(ParseError { kind, position }))
}

/// Parses a template source. Whitespace is skipped around the declaration
/// list and its tokens, and one line break may follow the arrow; everything
/// after that is template text.
pub fn parse(source: &str) -> (r: Result<Body, VerifyError>)
    ensures
        match parse_spec(source@) {
            Ok(b) => r matches Ok(body) && body@ == b,
            Err((kind, pos)) => r matches Err(VerifyError::ParseError(e)) && e.kind == kind
                && e.position == pos,
        },
{
    let s = chars_of(source);
    let a = skip_ws(&s, 0);
    proof {
        lemma_ws_end_bounds(s@, 0);
    }
    if !(a < s.len() && s[a] == '{') {
        return parse_error(ParseErrorKind::ExpectedOpenBrace, a);
    }
    let a1 = skip_ws(&s, a + 1);
    proof {
        lemma_ws_end_bounds(s@, a + 1);
    }
    let (decls, b) = parse_decl_list(&s, a1);
    proof {
        lemma_decl_list_at_bounds(s@, a1 as int);
    }
    let c = skip_ws(&s, b);
    proof {
        lemma_ws_end_bounds(s@, b as int);
    }
    if !(c < s.len() && s[c] == '}') {
        return parse_error(ParseErrorKind::ExpectedCloseBrace, c);
    }
    let d = skip_ws(&s, c + 1);
    proof {
        lemma_ws_end_bounds(s@, c + 1);
    }
    if !(d < s.len() && d + 1 < s.len() && s[d] == '-' && s[d + 1] == '>') {
        return parse_error(ParseErrorKind::ExpectedArrow, d);
    }
    let e = skip_newline(&s, d + 2);
    if e >= s.len() {
        return parse_error(ParseErrorKind::EmptyTemplate, e);
    }
    let template = parse_template(&s, e);
    Ok(Body::Function { decls: Decls(decls), template })
}

} // verus!
