//! What verification, resolution and reduction compute, stated over the
//! views of the data model.
use vstd::prelude::*;

use crate::data::{SpecDecl, SpecPart, SpecVar};
use crate::errors::{ParseErrorKind, VerifyError};
use crate::syntax::parse_spec;

verus! {

/// Whether `v` may be inserted under `decls`: the wildcard always may, an
/// identifier only where some declaration names it.
pub open spec fn is_defined(decls: Seq<SpecDecl>, v: SpecVar) -> bool {
    match v {
        SpecVar::Ignore => true,
        SpecVar::Ident(n) => exists|k: int| 0 <= k < decls.len() && #[trigger] decls[k].var == SpecVar::Ident(n),
    }
}

/// The variables of the template's inserts that `decls` does not define,
/// one for each such insert, in template order.
pub open spec fn undefined_vars(decls: Seq<SpecDecl>, template: Seq<SpecPart>) -> Seq<SpecVar>
    decreases template.len(),
{
    if template.len() == 0 {
        seq![]
    } else {
        let prev = undefined_vars(decls, template.drop_last());
        match template.last() {
            SpecPart::Insert(v) => if is_defined(decls, v) {
                prev
            } else {
                prev.push(v)
            },
            SpecPart::Char(_) => prev,
        }
    }
}

/// `errors` reports the variables `vars`, one `Undefined` each, in order.
pub open spec fn reports_undefined(errors: Seq<VerifyError>, vars: Seq<SpecVar>) -> bool {
    &&& errors.len() == vars.len()
    &&& forall|k: int|
        0 <= k < vars.len() ==> (#[trigger] errors[k] matches VerifyError::Undefined(tv) && tv@
            == vars[k])
}

/// The value a declaration of `name` resolves to: the input, else the
/// declared default, else none.
pub open spec fn declared_value(
    name: Seq<char>,
    default: Option<Seq<char>>,
    inputs: Map<Seq<char>, Seq<char>>,
) -> Option<Seq<char>> {
    if inputs.contains_key(name) {
        Some(inputs[name])
    } else {
        default
    }
}

/// Resolution of `decls` against `inputs`: the table from each declared
/// identifier to the value of its first declaration, or the name of the
/// first declaration that has no value. Wildcard declarations are skipped
/// and inputs that no declaration names are ignored.
pub open spec fn resolve_spec(decls: Seq<SpecDecl>, inputs: Map<Seq<char>, Seq<char>>) -> Result<
    Map<Seq<char>, Seq<char>>,
    Seq<char>,
>
    decreases decls.len(),
{
    if decls.len() == 0 {
        Ok(Map::empty())
    } else {
        match resolve_spec(decls.drop_last(), inputs) {
            Err(n) => Err(n),
            Ok(m) => match decls.last().var {
                SpecVar::Ignore => Ok(m),
                SpecVar::Ident(n) => match declared_value(n, decls.last().default, inputs) {
                    Some(v) => if m.contains_key(n) {
                        Ok(m)
                    } else {
                        Ok(m.insert(n, v))
                    },
                    None => Err(n),
                },
            },
        }
    }
}

/// What one template part contributes to the output.
pub open spec fn part_output(p: SpecPart, values: Map<Seq<char>, Seq<char>>) -> Seq<char> {
    match p {
        SpecPart::Char(c) => seq![c],
        SpecPart::Insert(SpecVar::Ignore) => seq![],
        SpecPart::Insert(SpecVar::Ident(n)) => values[n],
    }
}

/// The output of a template: each part's contribution, in order.
pub open spec fn reduce_spec(template: Seq<SpecPart>, values: Map<Seq<char>, Seq<char>>) -> Seq<
    char,
>
    decreases template.len(),
{
    if template.len() == 0 {
        seq![]
    } else {
        reduce_spec(template.drop_last(), values) + part_output(template.last(), values)
    }
}

/// Every identifier that the template inserts has a value.
pub open spec fn covers(template: Seq<SpecPart>, values: Map<Seq<char>, Seq<char>>) -> bool {
    forall|k: int|
        0 <= k < template.len() ==> (#[trigger] template[k] matches SpecPart::Insert(
            SpecVar::Ident(n),
        ) ==> values.contains_key(n))
}

/// The outcome of evaluating a source.
pub enum Outcome {
    /// the output text
    Output(Seq<char>),
    /// the source does not parse: what was expected, and where
    ParseFailed(ParseErrorKind, int),
    /// the template inserts these undefined variables
    Undefined(Seq<SpecVar>),
    /// this declared identifier has neither an input nor a default
    Missing(Seq<char>),
}

/// Evaluation: parse, then verify, then resolve, then reduce, stopping at
/// the first stage that fails.
pub open spec fn eval_spec(source: Seq<char>, inputs: Map<Seq<char>, Seq<char>>) -> Outcome {
    match parse_spec(source) {
        Err((kind, pos)) => Outcome::ParseFailed(kind, pos),
        Ok(body) => if undefined_vars(body.decls, body.template).len() > 0 {
            Outcome::Undefined(undefined_vars(body.decls, body.template))
        } else {
            match resolve_spec(body.decls, inputs) {
                Err(n) => Outcome::Missing(n),
                Ok(values) => Outcome::Output(reduce_spec(body.template, values)),
            }
        },
    }
}

/// `r` is what an evaluation with outcome `o` returns.
pub open spec fn matches_outcome(r: Result<String, VerifyError>, o: Outcome) -> bool {
    match o {
        Outcome::Output(text) => r matches Ok(s) && s@ == text,
        Outcome::ParseFailed(kind, pos) => r matches Err(VerifyError::ParseError(e)) && e.kind
            == kind && e.position == pos,
        Outcome::Undefined(vars) => r matches Err(VerifyError::Errors(es)) && reports_undefined(
            es@,
            vars,
        ),
        Outcome::Missing(n) => r matches Err(VerifyError::MissingDecl(x)) && x@ == n,
    }
}

pub proof fn lemma_single_part(decls: Seq<SpecDecl>, p: SpecPart, values: Map<Seq<char>, Seq<char>>)
    ensures
        reduce_spec(seq![p], values) == part_output(p, values),
        undefined_vars(decls, seq![p]) == (match p {
            SpecPart::Insert(v) => if is_defined(decls, v) {
                seq![]
            } else {
                seq![v]
            },
            SpecPart::Char(_) => seq![],
        }),
{
    let one = seq![p];
    assert(one.drop_last() =~= Seq::<SpecPart>::empty());
    assert(reduce_spec(one.drop_last(), values) == Seq::<char>::empty());
    assert(undefined_vars(decls, one.drop_last()) == Seq::<SpecVar>::empty());
    assert(reduce_spec(one, values) =~= part_output(p, values));
    assert(Seq::<SpecVar>::empty().push(p->Insert_0) =~= seq![p->Insert_0]);
}

pub proof fn lemma_undefined_vars_append(
    decls: Seq<SpecDecl>,
    a: Seq<SpecPart>,
    b: Seq<SpecPart>,
)
    ensures
        undefined_vars(decls, a + b) == undefined_vars(decls, a) + undefined_vars(decls, b),
    decreases b.len(),
{
    if b.len() == 0 {
        assert(a + b =~= a);
        assert(undefined_vars(decls, a) + undefined_vars(decls, b) =~= undefined_vars(decls, a));
    } else {
        assert((a + b).drop_last() =~= a + b.drop_last());
        lemma_undefined_vars_append(decls, a, b.drop_last());
        match b.last() {
            SpecPart::Insert(v) => if !is_defined(decls, v) {
                assert(undefined_vars(decls, a) + undefined_vars(decls, b) =~= (undefined_vars(
                    decls,
                    a,
                ) + undefined_vars(decls, b.drop_last())).push(v));
            }
            SpecPart::Char(_) => {},
        }
    }
}

pub proof fn lemma_reduce_append(
    a: Seq<SpecPart>,
    b: Seq<SpecPart>,
    values: Map<Seq<char>, Seq<char>>,
)
    ensures
        reduce_spec(a + b, values) == reduce_spec(a, values) + reduce_spec(b, values),
    decreases b.len(),
{
    if b.len() == 0 {
        assert(a + b =~= a);
        assert(reduce_spec(a, values) + reduce_spec(b, values) =~= reduce_spec(a, values));
    } else {
        assert((a + b).drop_last() =~= a + b.drop_last());
        lemma_reduce_append(a, b.drop_last(), values);
        assert(reduce_spec(a, values) + reduce_spec(b, values) =~= reduce_spec(a, values)
            + reduce_spec(b.drop_last(), values) + part_output(b.last(), values));
    }
}

/// Verification succeeds exactly when every insert is defined.
pub proof fn lemma_no_undefined(decls: Seq<SpecDecl>, template: Seq<SpecPart>)
    ensures
        undefined_vars(decls, template).len() == 0 <==> all_defined(decls, template),
    decreases template.len(),
{
    if template.len() > 0 {
        let prefix = template.drop_last();
        lemma_no_undefined(decls, prefix);
        assert forall|k: int| 0 <= k < prefix.len() implies #[trigger] prefix[k] == template[k] by {}
        if all_defined(decls, template) {
            assert(all_defined(decls, prefix));
            assert(template[template.len() - 1] == template.last());
        }
        if undefined_vars(decls, template).len() == 0 {
            assert forall|k: int| 0 <= k < template.len() implies (#[trigger] template[k] matches SpecPart::Insert(v)
                ==> is_defined(decls, v)) by {
                if k < prefix.len() {
                    assert(prefix[k] == template[k]);
                }
            }
        }
    }
}

/// Every insert of the template is defined by `decls`.
pub open spec fn all_defined(decls: Seq<SpecDecl>, template: Seq<SpecPart>) -> bool {
    forall|k: int|
        0 <= k < template.len() ==> (#[trigger] template[k] matches SpecPart::Insert(v)
            ==> is_defined(decls, v))
}

/// A resolved table holds every identifier that `decls` declares.
pub proof fn lemma_resolve_declares(
    decls: Seq<SpecDecl>,
    inputs: Map<Seq<char>, Seq<char>>,
    k: int,
)
    requires
        resolve_spec(decls, inputs) is Ok,
        0 <= k < decls.len(),
        decls[k].var is Ident,
    ensures
        resolve_spec(decls, inputs)->Ok_0.contains_key(decls[k].var->Ident_0),
    decreases decls.len(),
{
    if k < decls.len() - 1 {
        lemma_resolve_declares(decls.drop_last(), inputs, k);
    }
}

/// Where every insert is defined and resolution succeeds, the table has a
/// value for every identifier that the template inserts.
pub proof fn lemma_verified_resolved_covers(
    decls: Seq<SpecDecl>,
    template: Seq<SpecPart>,
    inputs: Map<Seq<char>, Seq<char>>,
)
    requires
        undefined_vars(decls, template).len() == 0,
        resolve_spec(decls, inputs) is Ok,
    ensures
        covers(template, resolve_spec(decls, inputs)->Ok_0),
{
    lemma_no_undefined(decls, template);
    assert forall|k: int| 0 <= k < template.len() implies (#[trigger] template[k] matches SpecPart::Insert(
        SpecVar::Ident(n),
    ) ==> resolve_spec(decls, inputs)->Ok_0.contains_key(n)) by {
        if let SpecPart::Insert(SpecVar::Ident(n)) = template[k] {
            assert(is_defined(decls, SpecVar::Ident(n)));
            let j = choose|j: int| 0 <= j < decls.len() && #[trigger] decls[j].var == SpecVar::Ident(n);
            lemma_resolve_declares(decls, inputs, j);
        }
    }
}

/// Once a prefix of the declarations fails to resolve, all of them do, with
/// the same name.
pub proof fn lemma_resolve_prefix_err(
    decls: Seq<SpecDecl>,
    inputs: Map<Seq<char>, Seq<char>>,
    j: int,
)
    requires
        0 <= j <= decls.len(),
        resolve_spec(decls.take(j), inputs) is Err,
    ensures
        resolve_spec(decls, inputs) == resolve_spec(decls.take(j), inputs),
    decreases decls.len(),
{
    if j == decls.len() {
        assert(decls.take(j) =~= decls);
    } else {
        assert(decls.drop_last().take(j) =~= decls.take(j));
        lemma_resolve_prefix_err(decls.drop_last(), inputs, j);
    }
}

} // verus!
