//! The parsed form of a template source: declarations, template parts and
//! variables, each with a mathematical view used by the contracts.
use vstd::prelude::*;

verus! {

/// A variable: a named identifier, or the wildcard `_`.
#[derive(Debug, Clone, PartialEq, Eq, Hash)]
pub enum Var {
    Ident(String),
    Ignore,
}

/// The view of a [`Var`]: the identifier's characters, or the wildcard.
pub enum SpecVar {
    Ident(Seq<char>),
    Ignore,
}

impl View for Var {
    type V = SpecVar;

    open spec fn view(&self) -> SpecVar {
        match self {
            Var::Ident(name) => SpecVar::Ident(name@),
            Var::Ignore => SpecVar::Ignore,
        }
    }
}

/// What an insertion marker `%{...}` names.
#[derive(Debug, PartialEq, Clone, Eq, Hash)]
#[non_exhaustive]
pub enum TemplateValue {
    Var(Var),
}

impl View for TemplateValue {
    type V = SpecVar;

    open spec fn view(&self) -> SpecVar {
        match self {
            TemplateValue::Var(v) => v@,
        }
    }
}

impl TemplateValue {
    /// The variable this value names.
    pub fn as_var(&self) -> (r: &Var)
        ensures
            r@ == self@,
    {
        match self {
            TemplateValue::Var(v) => v,
        }
    }
}

/// One part of a template: a literal character or an insertion.
#[derive(Debug, PartialEq, Clone)]
pub enum TemplatePart {
    Char(char),
    /// inserted text
    Insert(TemplateValue),
}

/// The view of a [`TemplatePart`].
pub enum SpecPart {
    Char(char),
    Insert(SpecVar),
}

impl View for TemplatePart {
    type V = SpecPart;

    open spec fn view(&self) -> SpecPart {
        match self {
            TemplatePart::Char(c) => SpecPart::Char(*c),
            TemplatePart::Insert(v) => SpecPart::Insert(v@),
        }
    }
}

/// The template text: the parts in the order they are emitted.
#[derive(Debug, PartialEq, Clone)]
pub struct Template(pub Vec<TemplatePart>);

impl View for Template {
    type V = Seq<SpecPart>;

    open spec fn view(&self) -> Seq<SpecPart> {
        parts_view(self.0@)
    }
}

/// The views of a sequence of template parts.
pub open spec fn parts_view(parts: Seq<TemplatePart>) -> Seq<SpecPart> {
    parts.map_values(|p: TemplatePart| p@)
}

/// A declared default value.
#[derive(Debug, PartialEq, Eq, Hash, Clone)]
pub enum DeclValue {
    Str(String),
}

impl View for DeclValue {
    type V = Seq<char>;

    open spec fn view(&self) -> Seq<char> {
        match self {
            DeclValue::Str(s) => s@,
        }
    }
}

impl From<String> for DeclValue {
    fn from(value: String) -> (r: DeclValue) {
        DeclValue::Str(value)
    }
}

impl vstd::std_specs::convert::FromSpecImpl<String> for DeclValue {
    open spec fn obeys_from_spec() -> bool {
        true
    }

    open spec fn from_spec(value: String) -> DeclValue {
        DeclValue::Str(value)
    }
}

/// The declaration of a variable that the template may insert, with an
/// optional default value.
#[derive(Debug, PartialEq, Eq, Hash)]
pub struct Decl {
    pub var: Var,
    pub default: Option<DeclValue>,
}

/// The view of a [`Decl`].
pub struct SpecDecl {
    pub var: SpecVar,
    pub default: Option<Seq<char>>,
}

impl View for Decl {
    type V = SpecDecl;

    open spec fn view(&self) -> SpecDecl {
        SpecDecl {
            var: self.var@,
            default: match self.default {
                Some(d) => Some(d@),
                None => None,
            },
        }
    }
}

/// The declarations of a body, in source order.
#[derive(Debug, PartialEq)]
pub struct Decls(pub Vec<Decl>);

impl View for Decls {
    type V = Seq<SpecDecl>;

    open spec fn view(&self) -> Seq<SpecDecl> {
        decls_view(self.0@)
    }
}

/// The views of a sequence of declarations.
pub open spec fn decls_view(decls: Seq<Decl>) -> Seq<SpecDecl> {
    decls.map_values(|d: Decl| d@)
}

/// The file: the template and the declarations of the variables that can be
/// used in it.
#[derive(Debug, PartialEq)]
#[non_exhaustive]
pub enum Body {
    Function { decls: Decls, template: Template },
}

/// The view of a [`Body`].
pub struct SpecBody {
    pub decls: Seq<SpecDecl>,
    pub template: Seq<SpecPart>,
}

impl View for Body {
    type V = SpecBody;

    open spec fn view(&self) -> SpecBody {
        match self {
            Body::Function { decls, template } => SpecBody { decls: decls@, template: template@ },
        }
    }
}

} // verus!
