//! The grammar of a template source, stated as spec functions.
//!
//! Each rule is read at a position `i` of the source `s` (counted in
//! characters) and, where it matches, gives what it read and the position
//! just past it. The rules are tried in order and never backtrack into a
//! rule that has matched.
//!
//! ```text
//! body     := ws "{" ws (decl ",")* decl? ws "}" ws "->" newline? template
//! decl     := ws var default ws
//! default  := ws ("?" ws string ws)?
//! var      := "_" | (alpha | "_") (alnum | "_")*   -- a lone "_" is the wildcard
//! string   := '"' (any char but '"')* '"'
//! template := (insert | "%%" | any char)+
//! insert   := "%{" var "}"
//! ```
use vstd::prelude::*;

use crate::data::{SpecBody, SpecDecl, SpecPart, SpecVar};
use crate::errors::ParseErrorKind;

verus! {

/// Unicode `White_Space`, the characters that `char::is_whitespace` accepts.
pub open spec fn is_whitespace(c: char) -> bool {
    ||| '\t' <= c <= '\r'
    ||| c == ' '
    ||| c == '\u{85}'
    ||| c == '\u{a0}'
    ||| c == '\u{1680}'
    ||| '\u{2000}' <= c <= '\u{200a}'
    ||| c == '\u{2028}'
    ||| c == '\u{2029}'
    ||| c == '\u{202f}'
    ||| c == '\u{205f}'
    ||| c == '\u{3000}'
}

/// The line breaks that may follow the arrow (`\r\n` counts as one).
pub open spec fn is_newline(c: char) -> bool {
    ||| c == '\n'
    ||| c == '\r'
    ||| c == '\u{0b}'
    ||| c == '\u{0c}'
    ||| c == '\u{85}'
    ||| c == '\u{2028}'
    ||| c == '\u{2029}'
}

pub open spec fn is_ascii_alpha(c: char) -> bool {
    ('a' <= c <= 'z') || ('A' <= c <= 'Z')
}

/// A character that may continue an identifier.
pub open spec fn is_ident_continue(c: char) -> bool {
    is_ascii_alpha(c) || ('0' <= c <= '9') || c == '_'
}

/// The first position at or after `i` that is not whitespace.
pub open spec fn ws_end(s: Seq<char>, i: int) -> int
    decreases s.len() - i,
{
    if 0 <= i < s.len() && is_whitespace(s[i]) {
        ws_end(s, i + 1)
    } else {
        i
    }
}

/// The first position at or after `i` that cannot continue an identifier.
pub open spec fn ident_end(s: Seq<char>, i: int) -> int
    decreases s.len() - i,
{
    if 0 <= i < s.len() && is_ident_continue(s[i]) {
        ident_end(s, i + 1)
    } else {
        i
    }
}

/// The first position at or after `i` that holds `"`, or the end.
pub open spec fn quote_end(s: Seq<char>, i: int) -> int
    decreases s.len() - i,
{
    if 0 <= i < s.len() && s[i] != '"' {
        quote_end(s, i + 1)
    } else {
        i
    }
}

/// The position past an optional line break at `i`.
pub open spec fn newline_end(s: Seq<char>, i: int) -> int {
    if 0 <= i && i + 1 < s.len() && s[i] == '\r' && s[i + 1] == '\n' {
        i + 2
    } else if 0 <= i < s.len() && is_newline(s[i]) {
        i + 1
    } else {
        i
    }
}

/// `var := "_" | (alpha | "_") (alnum | "_")*`: a lone `_` is the
/// wildcard, any longer identifier names a variable.
pub open spec fn var_at(s: Seq<char>, i: int) -> Option<(SpecVar, int)> {
    if 0 <= i < s.len() && s[i] == '_' && !(i + 1 < s.len() && is_ident_continue(s[i + 1])) {
        Some((SpecVar::Ignore, i + 1))
    } else if 0 <= i < s.len() && (is_ascii_alpha(s[i]) || s[i] == '_') {
        let j = ident_end(s, i + 1);
        Some((SpecVar::Ident(s.subrange(i, j)), j))
    } else {
        None
    }
}

/// `string := '"' (any char but '"')* '"'`, giving the characters between
/// the quotes.
pub open spec fn string_at(s: Seq<char>, i: int) -> Option<(Seq<char>, int)> {
    if 0 <= i < s.len() && s[i] == '"' {
        let j = quote_end(s, i + 1);
        if j < s.len() {
            Some((s.subrange(i + 1, j), j + 1))
        } else {
            None
        }
    } else {
        None
    }
}

/// `default := ws ("?" ws string ws)?`; this rule always matches.
pub open spec fn default_at(s: Seq<char>, i: int) -> (Option<Seq<char>>, int) {
    let a = ws_end(s, i);
    if 0 <= a < s.len() && s[a] == '?' {
        match string_at(s, ws_end(s, a + 1)) {
            Some((v, j)) => (Some(v), ws_end(s, j)),
            None => (None, a),
        }
    } else {
        (None, a)
    }
}

/// `decl := ws var default ws`
pub open spec fn decl_at(s: Seq<char>, i: int) -> Option<(SpecDecl, int)> {
    match var_at(s, ws_end(s, i)) {
        Some((v, j)) => {
            let (d, k) = default_at(s, j);
            Some((SpecDecl { var: v, default: d }, k))
        },
        None => None,
    }
}

/// `(decl ",")* decl?`; this rule always matches.
pub open spec fn decl_list_at(s: Seq<char>, i: int) -> (Seq<SpecDecl>, int)
    decreases s.len() - i,
    via decl_list_at_decreases
{
    match decl_at(s, i) {
        Some((d, j)) => if 0 <= j < s.len() && s[j] == ',' {
            let (rest, k) = decl_list_at(s, j + 1);
            (seq![d] + rest, k)
        } else {
            (seq![d], j)
        },
        None => (seq![], i),
    }
}

#[via_fn]
proof fn decl_list_at_decreases(s: Seq<char>, i: int) {
    lemma_decl_at_bounds(s, i);
}

/// `insert := "%{" var "}"`
pub open spec fn insert_at(s: Seq<char>, i: int) -> Option<(SpecVar, int)> {
    if 0 <= i && i + 1 < s.len() && s[i] == '%' && s[i + 1] == '{' {
        match var_at(s, i + 2) {
            Some((v, j)) => if j < s.len() && s[j] == '}' {
                Some((v, j + 1))
            } else {
                None
            },
            None => None,
        }
    } else {
        None
    }
}

/// One template part at `i`, for `i` inside the source: an insertion, else
/// `%%` as one `%`, else the character itself.
pub open spec fn part_at(s: Seq<char>, i: int) -> (SpecPart, int) {
    match insert_at(s, i) {
        Some((v, j)) => (SpecPart::Insert(v), j),
        None => if i + 1 < s.len() && s[i] == '%' && s[i + 1] == '%' {
            (SpecPart::Char('%'), i + 2)
        } else {
            (SpecPart::Char(s[i]), i + 1)
        },
    }
}

/// The template parts from `i` to the end of the source.
pub open spec fn parts_at(s: Seq<char>, i: int) -> Seq<SpecPart>
    decreases s.len() - i,
    via parts_at_decreases
{
    if 0 <= i < s.len() {
        seq![part_at(s, i).0] + parts_at(s, part_at(s, i).1)
    } else {
        seq![]
    }
}

#[via_fn]
proof fn parts_at_decreases(s: Seq<char>, i: int) {
    if 0 <= i < s.len() {
        lemma_part_at_bounds(s, i);
    }
}

/// What a source parses to: the body, or what was expected and where.
pub open spec fn parse_spec(s: Seq<char>) -> Result<SpecBody, (ParseErrorKind, int)> {
    let a = ws_end(s, 0);
    if !(a < s.len() && s[a] == '{') {
        Err((ParseErrorKind::ExpectedOpenBrace, a))
    } else {
        let (decls, b) = decl_list_at(s, ws_end(s, a + 1));
        let c = ws_end(s, b);
        if !(c < s.len() && s[c] == '}') {
            Err((ParseErrorKind::ExpectedCloseBrace, c))
        } else {
            let d = ws_end(s, c + 1);
            if !(d + 1 < s.len() && s[d] == '-' && s[d + 1] == '>') {
                Err((ParseErrorKind::ExpectedArrow, d))
            } else {
                let e = newline_end(s, d + 2);
                if e >= s.len() {
                    Err((ParseErrorKind::EmptyTemplate, e))
                } else {
                    Ok(SpecBody { decls, template: parts_at(s, e) })
                }
            }
        }
    }
}

pub proof fn lemma_ws_end_bounds(s: Seq<char>, i: int)
    requires
        0 <= i <= s.len(),
    ensures
        i <= ws_end(s, i) <= s.len(),
        ws_end(s, i) < s.len() ==> !is_whitespace(s[ws_end(s, i)]),
    decreases s.len() - i,
{
    if i < s.len() && is_whitespace(s[i]) {
        lemma_ws_end_bounds(s, i + 1);
    }
}

pub proof fn lemma_ident_end_bounds(s: Seq<char>, i: int)
    requires
        0 <= i <= s.len(),
    ensures
        i <= ident_end(s, i) <= s.len(),
    decreases s.len() - i,
{
    if i < s.len() && is_ident_continue(s[i]) {
        lemma_ident_end_bounds(s, i + 1);
    }
}

pub proof fn lemma_quote_end_bounds(s: Seq<char>, i: int)
    requires
        0 <= i <= s.len(),
    ensures
        i <= quote_end(s, i) <= s.len(),
        quote_end(s, i) < s.len() ==> s[quote_end(s, i)] == '"',
        forall|k: int| i <= k < quote_end(s, i) ==> s[k] != '"',
    decreases s.len() - i,
{
    if i < s.len() && s[i] != '"' {
        lemma_quote_end_bounds(s, i + 1);
    }
}

pub proof fn lemma_var_at_bounds(s: Seq<char>, i: int)
    requires
        0 <= i <= s.len(),
    ensures
        var_at(s, i) matches Some((_, j)) ==> i < j <= s.len(),
{
    if i < s.len() && (is_ascii_alpha(s[i]) || s[i] == '_') {
        lemma_ident_end_bounds(s, i + 1);
    }
}

pub proof fn lemma_default_at_bounds(s: Seq<char>, i: int)
    requires
        0 <= i <= s.len(),
    ensures
        i <= default_at(s, i).1 <= s.len(),
{
    lemma_ws_end_bounds(s, i);
    let a = ws_end(s, i);
    if a < s.len() && s[a] == '?' {
        lemma_ws_end_bounds(s, a + 1);
        let b = ws_end(s, a + 1);
        if b < s.len() && s[b] == '"' {
            lemma_quote_end_bounds(s, b + 1);
            let j = quote_end(s, b + 1);
            if j < s.len() {
                lemma_ws_end_bounds(s, j + 1);
            }
        }
    }
}

pub proof fn lemma_decl_at_bounds(s: Seq<char>, i: int)
    ensures
        decl_at(s, i) matches Some((_, j)) ==> 0 <= i < j <= s.len(),
{
    if 0 <= i <= s.len() {
        lemma_ws_end_bounds(s, i);
        let a = ws_end(s, i);
        lemma_var_at_bounds(s, a);
        if let Some((_, j)) = var_at(s, a) {
            lemma_default_at_bounds(s, j);
        }
    }
}

pub proof fn lemma_decl_list_at_bounds(s: Seq<char>, i: int)
    requires
        0 <= i <= s.len(),
    ensures
        i <= decl_list_at(s, i).1 <= s.len(),
    decreases s.len() - i,
{
    lemma_decl_at_bounds(s, i);
    if let Some((_, j)) = decl_at(s, i) {
        if j < s.len() && s[j] == ',' {
            lemma_decl_list_at_bounds(s, j + 1);
        }
    }
}

pub proof fn lemma_part_at_bounds(s: Seq<char>, i: int)
    requires
        0 <= i < s.len(),
    ensures
        i < part_at(s, i).1 <= s.len(),
{
    if i + 1 < s.len() && s[i] == '%' && s[i + 1] == '{' {
        lemma_var_at_bounds(s, i + 2);
    }
}

} // verus!
