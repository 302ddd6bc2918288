//! Verification, resolution and reduction: from a parsed body and the
//! caller's inputs to the output text.
use vstd::prelude::*;

use std::collections::HashMap;

use crate::chars::push_char;
use crate::data::{Body, DeclValue, Decls, SpecPart, SpecVar, Template, TemplatePart, TemplateValue, Var};
use crate::errors::VerifyError;
use crate::semantics::{
    covers, is_defined, lemma_resolve_prefix_err, lemma_verified_resolved_covers, reduce_spec,
    reports_undefined, resolve_spec, undefined_vars,
};

verus! {

/// The values the caller supplies, by name: anything that can resolve a list
/// of declarations into a table of values.
pub trait Inputs {
    /// The name-to-value mapping these inputs stand for.
    spec fn input_map(&self) -> Map<Seq<char>, Seq<char>>;

    /// Resolves `decls`: each declared identifier takes its input value, else
    /// its declared default; the first declaration with neither fails.
    fn try_into_values(&self, decls: &Decls) -> (r: Result<Values, VerifyError>)
        ensures
            match resolve_spec(decls@, self.input_map()) {
                Ok(m) => r matches Ok(v) && v@ == m,
                Err(n) => r matches Err(VerifyError::MissingDecl(x)) && x@ == n,
            },
    ;
}

/// What a map of inputs holds: the characters of each key, mapped to the
/// characters of its value.
pub uninterp spec fn input_entries(m: HashMap<String, String>) -> Map<Seq<char>, Seq<char>>;

/// Relies on `HashMap::get`: the value stored under the key equal to `name`,
/// if there is one.
#[verifier::external_body]
fn input_get<'a>(m: &'a HashMap<String, String>, name: &str) -> (r: Option<&'a String>)
    ensures
        match r {
            Some(v) => input_entries(*m).contains_key(name@) && input_entries(*m)[name@] == v@,
            None => !input_entries(*m).contains_key(name@),
        },
{
    m.get(name)
}

impl Inputs for HashMap<String, String> {
    open spec fn input_map(&self) -> Map<Seq<char>, Seq<char>> {
        input_entries(*self)
    }

    fn try_into_values(&self, decls: &Decls) -> (r: Result<Values, VerifyError>) {
        let mut values = Values::new();
        let mut i: usize = 0;
        while i < decls.0.len()
            invariant
                i <= decls.0.len(),
                resolve_spec(decls@.take(i as int), input_entries(*self)) == Ok::<
                    Map<Seq<char>, Seq<char>>,
                    Seq<char>,
                >(values@),
            decreases decls.0.len() - i,
        {
            let d = &decls.0[i];
            assert(decls@.take(i + 1).drop_last() =~= decls@.take(i as int));
            assert(decls@.take(i + 1).last() == d@);
            match &d.var {
                Var::Ignore => {},
                Var::Ident(name) => {
                    let value = match input_get(self, name.as_str()) {
                        Some(v) => v.clone(),
                        None => match &d.default {
                            Some(DeclValue::Str(s)) => s.clone(),
                            None => {
                                proof {
                                    lemma_resolve_prefix_err(decls@, input_entries(*self), i + 1);
                                }
                                return Err(VerifyError::MissingDecl(name.clone()));
                            },
                        },
                    };
                    if values.get(name).is_none() {
                        values.insert(name.clone(), value);
                    }
                },
            }
            i = i + 1;
        }
        assert(decls@.take(i as int) =~= decls@);
        Ok(values)
    }
}

/// The value of each resolved name; a later entry for a name replaces an
/// earlier one. Two tables compare equal when they give the same names the
/// same values, whatever order they were filled in.
#[derive(Debug)]
pub struct Values {
    entries: Vec<(String, String)>,
}

/// The table that a list of entries stands for.
pub open spec fn entries_map(entries: Seq<(String, String)>) -> Map<Seq<char>, Seq<char>>
    decreases entries.len(),
{
    if entries.len() == 0 {
        Map::empty()
    } else {
        entries_map(entries.drop_last()).insert(entries.last().0@, entries.last().1@)
    }
}

impl View for Values {
    type V = Map<Seq<char>, Seq<char>>;

    closed spec fn view(&self) -> Map<Seq<char>, Seq<char>> {
        entries_map(self.entries@)
    }
}

impl Values {
    /// An empty table.
    pub fn new() -> (r: Values)
        ensures
            r@ == Map::<Seq<char>, Seq<char>>::empty(),
    {
        Values { entries: Vec::new() }
    }

    /// Sets the value of `name`.
    pub fn insert(&mut self, name: String, value: String)
        ensures
            final(self)@ == old(self)@.insert(name@, value@),
    {
        let ghost prev = self.entries@;
        self.entries.push((name, value));
        assert(self.entries@.drop_last() =~= prev);
    }

    /// The value of `name`, if it has one.
    pub fn get(&self, name: &String) -> (r: Option<&String>)
        ensures
            match r {
                Some(v) => self@.contains_key(name@) && self@[name@] == v@,
                None => !self@.contains_key(name@),
            },
    {
        let mut j: usize = self.entries.len();
        assert(self.entries@.take(j as int) =~= self.entries@);
        while j > 0
            invariant
                j <= self.entries.len(),
                entries_map(self.entries@).contains_key(name@) == entries_map(
                    self.entries@.take(j as int),
                ).contains_key(name@),
                entries_map(self.entries@).contains_key(name@) ==> entries_map(self.entries@)[name@]
                    == entries_map(self.entries@.take(j as int))[name@],
            decreases j,
        {
            let entry = &self.entries[j - 1];
            assert(self.entries@.take(j as int).drop_last() =~= self.entries@.take(j - 1));
            assert(self.entries@.take(j as int).last() == *entry);
            if entry.0 == *name {
                return Some(&entry.1);
            }
            j = j - 1;
        }
        None
    }
}

/// A name is in the table exactly when some entry has it.
proof fn lemma_entries_keys(entries: Seq<(String, String)>, k: Seq<char>)
    ensures
        entries_map(entries).contains_key(k) <==> exists|i: int|
            0 <= i < entries.len() && (#[trigger] entries[i]).0@ == k,
    decreases entries.len(),
{
    if entries.len() > 0 {
        let prefix = entries.drop_last();
        lemma_entries_keys(prefix, k);
        if entries_map(prefix).contains_key(k) {
            let i = choose|i: int| 0 <= i < prefix.len() && (#[trigger] prefix[i]).0@ == k;
            assert(entries[i] == prefix[i]);
        }
        if exists|i: int| 0 <= i < entries.len() && (#[trigger] entries[i]).0@ == k {
            let i = choose|i: int| 0 <= i < entries.len() && (#[trigger] entries[i]).0@ == k;
            if i < prefix.len() {
                assert(prefix[i] == entries[i]);
            }
        }
    }
}

/// Whether every name of `a` has the same value in `b`.
fn agrees_on_names_of(a: &Values, b: &Values) -> (r: bool)
    ensures
        r <==> forall|k: Seq<char>| #[trigger] a@.contains_key(k) ==> b@.contains_key(k) && b@[k] == a@[k],
{
    let mut i: usize = 0;
    while i < a.entries.len()
        invariant
            i <= a.entries.len(),
            forall|j: int|
                0 <= j < i ==> b@.contains_key((#[trigger] a.entries@[j]).0@) && b@[a.entries@[j].0@]
                    == a@[a.entries@[j].0@],
        decreases a.entries.len() - i,
    {
        let key = &a.entries[i].0;
        proof {
            lemma_entries_keys(a.entries@, key@);
        }
        match (a.get(key), b.get(key)) {
            (Some(x), Some(y)) => {
                if *x != *y {
                    return false;
                }
            },
            (Some(_), None) => {
                return false;
            },
            (None, _) => {},
        }
        i = i + 1;
    }
    assert forall|k: Seq<char>| #[trigger] a@.contains_key(k) implies b@.contains_key(k) && b@[k] == a@[k] by {
        lemma_entries_keys(a.entries@, k);
        let j = choose|j: int| 0 <= j < a.entries@.len() && (#[trigger] a.entries@[j]).0@ == k;
    }
    true
}

impl PartialEq for Values {
    fn eq(&self, other: &Values) -> (r: bool) {
        let r = agrees_on_names_of(self, other) && agrees_on_names_of(other, self);
        proof {
            if r {
                assert(self@ =~= other@);
            }
        }
        r
    }
}

impl vstd::std_specs::cmp::PartialEqSpecImpl for Values {
    open spec fn obeys_eq_spec() -> bool {
        true
    }

    open spec fn eq_spec(&self, other: &Values) -> bool {
        self@ == other@
    }
}

/// A copy of an insert's value.
fn copy_value(v: &TemplateValue) -> (r: TemplateValue)
    ensures
        r@ == v@,
{
    match v {
        TemplateValue::Var(Var::Ident(name)) => TemplateValue::Var(Var::Ident(name.clone())),
        TemplateValue::Var(Var::Ignore) => TemplateValue::Var(Var::Ignore),
    }
}

impl Decls {
    /// Whether `var` may be inserted: the wildcard always may, an identifier
    /// where some declaration names it.
    pub fn has_defined(&self, var: &Var) -> (r: bool)
        ensures
            r == is_defined(self@, var@),
    {
        match var {
            Var::Ignore => true,
            Var::Ident(name) => {
                let mut i: usize = 0;
                while i < self.0.len()
                    invariant
                        i <= self.0.len(),
                        var@ == SpecVar::Ident(name@),
                        forall|k: int| 0 <= k < i ==> #[trigger] self@[k].var != SpecVar::Ident(name@),
                    decreases self.0.len() - i,
                {
                    let found = match &self.0[i].var {
                        Var::Ident(v) => *v == *name,
                        Var::Ignore => false,
                    };
                    assert(self@[i as int] == self.0@[i as int]@);
                    if found {
                        assert(self@[i as int].var == SpecVar::Ident(name@));
                        return true;
                    }
                    i = i + 1;
                }
                false
            },
        }
    }
}

impl Body {
    /// Checks that every insert of the template is declared. On failure the
    /// error lists every undefined insert, in template order.
    pub fn verify(&self) -> (r: Result<(&Template, &Decls), VerifyError>)
        ensures
            undefined_vars(self@.decls, self@.template).len() == 0 ==> (r matches Ok((t, d))
                && t@ == self@.template && d@ == self@.decls),
            undefined_vars(self@.decls, self@.template).len() > 0 ==> (r matches Err(
                VerifyError::Errors(es),
            ) && reports_undefined(es@, undefined_vars(self@.decls, self@.template))),
    {
        match self {
            Body::Function { decls, template } => {
                let mut errors: Vec<VerifyError> = Vec::new();
                let mut i: usize = 0;
                while i < template.0.len()
                    invariant
                        i <= template.0.len(),
                        reports_undefined(errors@, undefined_vars(decls@, template@.take(i as int))),
                    decreases template.0.len() - i,
                {
                    assert(template@.take(i + 1).drop_last() =~= template@.take(i as int));
                    assert(template@.take(i + 1).last() == template.0@[i as int]@);
                    match &template.0[i] {
                        TemplatePart::Insert(v) => {
                            if !decls.has_defined(v.as_var()) {
                                errors.push(VerifyError::Undefined(copy_value(v)));
                            }
                        },
                        TemplatePart::Char(_) => {},
                    }
                    i = i + 1;
                }
                assert(template@.take(i as int) =~= template@);
                if errors.len() > 0 {
                    Err(VerifyError::Errors(errors))
                } else {
                    Ok((template, decls))
                }
            },
        }
    }
}

/// A template whose every inserted identifier has a value: it reduces
/// without failure.
#[derive(PartialEq, Debug)]
pub struct VerifiedTemplate<'body> {
    values: Values,
    template: &'body Template,
}

impl<'body> VerifiedTemplate<'body> {
    #[verifier::type_invariant]
    spec fn every_insert_has_value(self) -> bool {
        covers(self.template@, self.values@)
    }

    /// The template's parts.
    pub closed spec fn template_view(self) -> Seq<SpecPart> {
        self.template@
    }

    /// The table of values.
    pub closed spec fn values_view(self) -> Map<Seq<char>, Seq<char>> {
        self.values@
    }

    /// Pairs a template with a table of values, where the table has a value
    /// for every identifier the template inserts.
    pub fn new(template: &'body Template, values: Values) -> (r: Option<Self>)
        ensures
            r is Some <==> covers(template@, values@),
            r matches Some(t) ==> t.template_view() == template@ && t.values_view() == values@,
    {
        let mut i: usize = 0;
        while i < template.0.len()
            invariant
                i <= template.0.len(),
                covers(template@.take(i as int), values@),
            decreases template.0.len() - i,
        {
            assert(template@.take(i as int + 1)[i as int] == template.0@[i as int]@);
            match &template.0[i] {
                TemplatePart::Insert(TemplateValue::Var(Var::Ident(name))) => {
                    if values.get(name).is_none() {
                        assert(template@[i as int] == template.0@[i as int]@);
                        return None;
                    }
                },
                _ => {},
            }
            assert(forall|k: int| 0 <= k < i ==> template@.take(i as int + 1)[k] == template@.take(i as int)[k]);
            i = i + 1;
        }
        assert(template@.take(i as int) =~= template@);
        Some(VerifiedTemplate { values, template })
    }

    /// Verifies `body` and resolves its declarations against `inputs`.
    pub fn try_from_body_inputs<I: Inputs>(body: &'body Body, inputs: &I) -> (r: Result<
        Self,
        VerifyError,
    >)
        ensures
            undefined_vars(body@.decls, body@.template).len() > 0 ==> (r matches Err(
                VerifyError::Errors(es),
            ) && reports_undefined(es@, undefined_vars(body@.decls, body@.template))),
            undefined_vars(body@.decls, body@.template).len() == 0 ==> match resolve_spec(
                body@.decls,
                inputs.input_map(),
            ) {
                Ok(m) => r matches Ok(t) && t.template_view() == body@.template && t.values_view()
                    == m,
                Err(n) => r matches Err(VerifyError::MissingDecl(x)) && x@ == n,
            },
    {
        let (template, decls) = match body.verify() {
            Ok(pair) => pair,
            Err(e) => return Err(e),
        };
        let values = match inputs.try_into_values(decls) {
            Ok(v) => v,
            Err(e) => return Err(e),
        };
        proof {
            lemma_verified_resolved_covers(decls@, template@, inputs.input_map());
        }
        Ok(VerifiedTemplate { values, template })
    }

    /// The output text: each literal character as it is, each identifier's
    /// value in its place, nothing for the wildcard.
    pub fn reduce(&self) -> (r: String)
        ensures
            r@ == reduce_spec(self.template_view(), self.values_view()),
    {
        proof {
            use_type_invariant(self);
        }
        let mut out = String::new();
        let mut i: usize = 0;
        while i < self.template.0.len()
            invariant
                i <= self.template.0.len(),
                covers(self.template@, self.values@),
                out@ == reduce_spec(self.template@.take(i as int), self.values@),
            decreases self.template.0.len() - i,
        {
            assert(self.template@.take(i + 1).drop_last() =~= self.template@.take(i as int));
            assert(self.template@.take(i + 1).last() == self.template.0@[i as int]@);
            assert(self.template@[i as int] == self.template.0@[i as int]@);
            match &self.template.0[i] {
                TemplatePart::Char(c) => push_char(&mut out, *c),
                TemplatePart::Insert(TemplateValue::Var(Var::Ignore)) => {},
                TemplatePart::Insert(TemplateValue::Var(Var::Ident(name))) => {
                    match self.values.get(name) {
                        Some(v) => out.append(v.as_str()),
                        None => {},
                    }
                },
            }
            i = i + 1;
        }
        assert(self.template@.take(i as int) =~= self.template@);
        out
    }
}

} // verus!
