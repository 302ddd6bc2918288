//! Properties of the language that hold for every source and every input.
use vstd::prelude::*;

use crate::data::{SpecBody, SpecDecl, SpecPart, SpecVar};
use crate::errors::ParseErrorKind;
use crate::errors::VerifyError;
use crate::semantics::{
    eval_spec, is_defined, lemma_reduce_append, lemma_single_part, Outcome, lemma_undefined_vars_append, matches_outcome,
    reduce_spec, resolve_spec, undefined_vars,
};
use crate::syntax::{
    decl_at, decl_list_at, insert_at, is_newline, newline_end, part_at, parse_spec, parts_at,
    var_at, ws_end,
};

verus! {

/// `%%` in template text reads as one literal `%`, and reduction puts that
/// `%` in the output at that point: the output of the text from there on is
/// `%` followed by the output of the text after the pair.
pub proof fn escaped_percent_is_literal(s: Seq<char>, i: int, values: Map<Seq<char>, Seq<char>>)
    requires
        0 <= i,
        i + 1 < s.len(),
        s[i] == '%',
        s[i + 1] == '%',
    ensures
        parts_at(s, i) == seq![SpecPart::Char('%')] + parts_at(s, i + 2),
        reduce_spec(parts_at(s, i), values) == seq!['%'] + reduce_spec(parts_at(s, i + 2), values),
{
    assert(insert_at(s, i) is None);
    assert(part_at(s, i) == (SpecPart::Char('%'), i + 2));
    lemma_reduce_append(seq![SpecPart::Char('%')], parts_at(s, i + 2), values);
    lemma_single_part(seq![], SpecPart::Char('%'), values);
}

/// Template text in which every `%` is the first or second half of a `%%`
/// pair, read from the left.
pub open spec fn only_escaped_percents(t: Seq<char>) -> bool
    decreases t.len(),
{
    if t.len() == 0 {
        true
    } else if t[0] == '%' {
        t.len() >= 2 && t[1] == '%' && only_escaped_percents(t.skip(2))
    } else {
        only_escaped_percents(t.skip(1))
    }
}

/// The text with each `%%` pair, read from the left, replaced by one `%`.
pub open spec fn unescape(t: Seq<char>) -> Seq<char>
    decreases t.len(),
{
    if t.len() == 0 {
        seq![]
    } else if t.len() >= 2 && t[0] == '%' && t[1] == '%' {
        seq!['%'] + unescape(t.skip(2))
    } else {
        seq![t[0]] + unescape(t.skip(1))
    }
}

/// The template from `j` on, where its `%` are all escaped, is literal
/// characters only: it inserts nothing and reduces to the unescaped text.
proof fn lemma_escaped_parts(
    s: Seq<char>,
    j: int,
    decls: Seq<SpecDecl>,
    values: Map<Seq<char>, Seq<char>>,
)
    requires
        0 <= j <= s.len(),
        only_escaped_percents(s.subrange(j, s.len() as int)),
    ensures
        undefined_vars(decls, parts_at(s, j)) == Seq::<SpecVar>::empty(),
        reduce_spec(parts_at(s, j), values) == unescape(s.subrange(j, s.len() as int)),
    decreases s.len() - j,
{
    let rest = s.subrange(j, s.len() as int);
    if j == s.len() {
        assert(parts_at(s, j) == Seq::<SpecPart>::empty());
        assert(rest.len() == 0);
    } else {
        assert(rest[0] == s[j]);
        assert(insert_at(s, j) is None);
        let step: int = if s[j] == '%' { 2 } else { 1 };
        if s[j] == '%' {
            assert(rest[1] == s[j + 1]);
        }
        let c = part_at(s, j).0;
        assert(part_at(s, j).1 == j + step);
        assert(rest.skip(step) =~= s.subrange(j + step, s.len() as int));
        lemma_escaped_parts(s, j + step, decls, values);
        let tail = parts_at(s, j + step);
        assert(parts_at(s, j) == seq![c] + tail);
        lemma_single_part(decls, c, values);
        lemma_undefined_vars_append(decls, seq![c], tail);
        lemma_reduce_append(seq![c], tail, values);
        assert(undefined_vars(decls, seq![c]) + undefined_vars(decls, tail) =~= Seq::<SpecVar>::empty());
    }
}

/// Escaping round trip: a source with no declarations whose template text
/// `t` has every `%` paired as `%%` evaluates, whatever the inputs, to `t`
/// with each pair turned into one literal `%` in its place and every other
/// character copied as it is.
pub proof fn escaped_template_evaluates_to_unescaped_text(
    t: Seq<char>,
    inputs: Map<Seq<char>, Seq<char>>,
)
    requires
        t.len() > 0,
        !is_newline(t[0]),
        only_escaped_percents(t),
    ensures
        eval_spec(seq!['{', '}', '-', '>'] + t, inputs) == Outcome::Output(unescape(t)),
{
    let s = seq!['{', '}', '-', '>'] + t;
    assert(s[0] == '{' && s[1] == '}' && s[2] == '-' && s[3] == '>' && s[4] == t[0]);
    assert(ws_end(s, 0) == 0);
    assert(ws_end(s, 1) == 1);
    assert(var_at(s, 1) is None);
    assert(decl_at(s, 1) is None);
    assert(decl_list_at(s, 1) == (Seq::<SpecDecl>::empty(), 1int));
    assert(ws_end(s, 2) == 2);
    assert(newline_end(s, 4) == 4);
    assert(s.subrange(4, s.len() as int) =~= t);
    lemma_escaped_parts(s, 4, Seq::<SpecDecl>::empty(), Map::empty());
    assert(parse_spec(s) == Ok::<SpecBody, (ParseErrorKind, int)>(
        SpecBody { decls: Seq::<SpecDecl>::empty(), template: parts_at(s, 4) },
    ));
    assert(resolve_spec(Seq::<SpecDecl>::empty(), inputs) == Ok::<
        Map<Seq<char>, Seq<char>>,
        Seq<char>,
    >(Map::empty()));
}

/// A `%` that starts neither `%%` nor an insert is template text like any
/// other character: it reads as a literal `%`.
pub proof fn bare_percent_is_literal(s: Seq<char>, i: int)
    requires
        0 <= i < s.len(),
        s[i] == '%',
        i + 1 == s.len() || (s[i + 1] != '%' && s[i + 1] != '{'),
    ensures
        parts_at(s, i) == seq![SpecPart::Char('%')] + parts_at(s, i + 1),
{
    assert(insert_at(s, i) is None);
    assert(part_at(s, i) == (SpecPart::Char('%'), i + 1));
}

/// Every identifier in a resolved table that also has an input takes the
/// input's value.
proof fn lemma_resolved_inputs_win(decls: Seq<SpecDecl>, inputs: Map<Seq<char>, Seq<char>>)
    requires
        resolve_spec(decls, inputs) is Ok,
    ensures
        forall|n: Seq<char>|
            #![trigger resolve_spec(decls, inputs)->Ok_0.contains_key(n)]
            resolve_spec(decls, inputs)->Ok_0.contains_key(n) && inputs.contains_key(n)
                ==> resolve_spec(decls, inputs)->Ok_0[n] == inputs[n],
    decreases decls.len(),
{
    if decls.len() > 0 {
        lemma_resolved_inputs_win(decls.drop_last(), inputs);
    }
}

/// Where an identifier is declared with a default and also has an input,
/// the input wins: resolution gives it the input's value.
pub proof fn input_overrides_default(
    decls: Seq<SpecDecl>,
    inputs: Map<Seq<char>, Seq<char>>,
    k: int,
)
    requires
        0 <= k < decls.len(),
        decls[k].var is Ident,
        decls[k].default is Some,
        inputs.contains_key(decls[k].var->Ident_0),
        resolve_spec(decls, inputs) is Ok,
    ensures
        resolve_spec(decls, inputs)->Ok_0.contains_key(decls[k].var->Ident_0),
        resolve_spec(decls, inputs)->Ok_0[decls[k].var->Ident_0] == inputs[decls[k].var->Ident_0],
{
    crate::semantics::lemma_resolve_declares(decls, inputs, k);
    lemma_resolved_inputs_win(decls, inputs);
}

/// The wildcard needs no declaration and no value, and adds nothing to the
/// output: an `Insert(Ignore)` anywhere in a template changes neither what
/// verification reports nor the output, and a wildcard declaration asks
/// nothing of the inputs.
pub proof fn wildcard_is_silent(
    decls: Seq<SpecDecl>,
    a: Seq<SpecPart>,
    b: Seq<SpecPart>,
    inputs: Map<Seq<char>, Seq<char>>,
    values: Map<Seq<char>, Seq<char>>,
)
    ensures
        is_defined(decls, SpecVar::Ignore),
        undefined_vars(decls, a + seq![SpecPart::Insert(SpecVar::Ignore)] + b) == undefined_vars(
            decls,
            a + b,
        ),
        reduce_spec(a + seq![SpecPart::Insert(SpecVar::Ignore)] + b, values) == reduce_spec(
            a + b,
            values,
        ),
        resolve_spec(decls.push(SpecDecl { var: SpecVar::Ignore, default: None }), inputs)
            == resolve_spec(decls, inputs),
{
    let w = seq![SpecPart::Insert(SpecVar::Ignore)];
    lemma_single_part(decls, SpecPart::Insert(SpecVar::Ignore), values);
    lemma_undefined_vars_append(decls, a, w);
    lemma_undefined_vars_append(decls, a + w, b);
    lemma_undefined_vars_append(decls, a, b);
    assert(undefined_vars(decls, w) =~= Seq::<SpecVar>::empty());
    assert(undefined_vars(decls, a) + undefined_vars(decls, w) =~= undefined_vars(decls, a));
    lemma_reduce_append(a, w, values);
    lemma_reduce_append(a + w, b, values);
    lemma_reduce_append(a, b, values);
    assert(reduce_spec(w, values) =~= Seq::<char>::empty());
    assert(reduce_spec(a, values) + reduce_spec(w, values) =~= reduce_spec(a, values));
    assert(decls.push(SpecDecl { var: SpecVar::Ignore, default: None }).drop_last() =~= decls);
}

/// Verification reports every undefined insert, not only the first: a
/// variable is reported exactly when the template inserts it and no
/// declaration defines it.
pub proof fn verification_reports_all(decls: Seq<SpecDecl>, template: Seq<SpecPart>)
    ensures
        forall|v: SpecVar|
            #[trigger] undefined_vars(decls, template).contains(v) <==> (!is_defined(decls, v)
                && exists|k: int| 0 <= k < template.len() && template[k] == SpecPart::Insert(v)),
    decreases template.len(),
{
    if template.len() > 0 {
        let prefix = template.drop_last();
        verification_reports_all(decls, prefix);
        let prev = undefined_vars(decls, prefix);
        let all = undefined_vars(decls, template);
        assert forall|k: int| 0 <= k < prefix.len() implies #[trigger] prefix[k] == template[k] by {}
        assert forall|j: int| 0 <= j < prev.len() implies #[trigger] all[j] == prev[j] by {}
        assert(template[template.len() - 1] == template.last());
        assert forall|v: SpecVar|
            #[trigger] all.contains(v) <==> (!is_defined(decls, v)
                && exists|k: int| 0 <= k < template.len() && template[k] == SpecPart::Insert(v)) by {
            if all.contains(v) {
                let j = choose|j: int| 0 <= j < all.len() && all[j] == v;
                if j < prev.len() {
                    assert(prev.contains(v));
                    let k = choose|k: int| 0 <= k < prefix.len() && prefix[k] == SpecPart::Insert(v);
                    assert(template[k] == SpecPart::Insert(v));
                } else {
                    assert(template.last() == SpecPart::Insert(v));
                }
            }
            if !is_defined(decls, v) && exists|k: int|
                0 <= k < template.len() && template[k] == SpecPart::Insert(v) {
                let k = choose|k: int| 0 <= k < template.len() && template[k] == SpecPart::Insert(v);
                if k < prefix.len() {
                    assert(prefix[k] == SpecPart::Insert(v));
                    assert(prev.contains(v));
                    let j = choose|j: int| 0 <= j < prev.len() && prev[j] == v;
                    assert(all[j] == v);
                } else {
                    assert(template.last() == SpecPart::Insert(v));
                    assert(all[all.len() - 1] == v);
                }
            }
        }
    }
}

/// Evaluation is deterministic: two evaluations of the same source with the
/// same inputs give the same output, or fail with the same error.
pub proof fn evaluation_is_deterministic(
    source: Seq<char>,
    inputs: Map<Seq<char>, Seq<char>>,
    r1: Result<String, VerifyError>,
    r2: Result<String, VerifyError>,
)
    requires
        matches_outcome(r1, eval_spec(source, inputs)),
        matches_outcome(r2, eval_spec(source, inputs)),
    ensures
        r1 is Ok <==> r2 is Ok,
        r1 is Ok ==> r1->Ok_0@ == r2->Ok_0@,
        r1 matches Err(VerifyError::ParseError(e1)) ==> (r2 matches Err(VerifyError::ParseError(e2))
            && e1 == e2),
        r1 matches Err(VerifyError::MissingDecl(n1)) ==> (r2 matches Err(
            VerifyError::MissingDecl(n2),
        ) && n1@ == n2@),
        r1 matches Err(VerifyError::Errors(es1)) ==> (r2 matches Err(VerifyError::Errors(es2))
            && es1.len() == es2.len() && forall|k: int|
            0 <= k < es1.len() ==> (#[trigger] es1[k] matches VerifyError::Undefined(t1) && es2[k] matches VerifyError::Undefined(t2) && t1@ == t2@)),
{
}

} // verus!
