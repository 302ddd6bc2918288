use std::collections::HashMap;

use language::data::{Body, Decl, Decls, Template, TemplatePart, TemplateValue, Var};
use language::reduce::{Values, VerifiedTemplate};
use language::VerifyError;

fn ident(name: &str) -> Var {
    Var::Ident(name.to_string())
}

fn insert(name: &str) -> TemplatePart {
    TemplatePart::Insert(TemplateValue::Var(ident(name)))
}

fn plain_decls(names: &[&str]) -> Decls {
    Decls(
        names
            .iter()
            .map(|n| Decl {
                var: ident(n),
                default: None,
            })
            .collect(),
    )
}

#[test]
fn verifies_char_only_template() {
    assert!(Body::Function {
        decls: Decls(vec![]),
        template: Template(vec![TemplatePart::Char('f')])
    }
    .verify()
    .is_ok());
}

#[test]
fn verifies_ignore_template() {
    Body::Function {
        decls: Decls(vec![]),
        template: Template(vec![TemplatePart::Insert(TemplateValue::Var(Var::Ignore))]),
    }
    .verify()
    .unwrap();
}

#[test]
fn verifies_defined_value() {
    Body::Function {
        decls: Decls(vec![Decl {
            var: ident("foo"),
            default: None,
        }]),
        template: Template(vec![insert("foo")]),
    }
    .verify()
    .unwrap();
}

#[test]
fn fails_undefined_value() {
    assert_eq!(
        Body::Function {
            decls: Decls(vec![]),
            template: Template(vec![insert("foo")])
        }
        .verify()
        .unwrap_err(),
        VerifyError::Errors(vec![VerifyError::Undefined(TemplateValue::Var(ident("foo")))])
    )
}

#[test]
fn verified_template_reduces() {
    let template = Template(vec![]);
    assert_eq!(
        VerifiedTemplate::new(&template, Values::new())
            .unwrap()
            .reduce(),
        ""
    );
}

#[test]
fn verified_template_reduces1() {
    let template = Template(vec![
        TemplatePart::Char('a'),
        TemplatePart::Char('b'),
        TemplatePart::Char('c'),
    ]);
    assert_eq!(
        VerifiedTemplate::new(&template, Values::new())
            .unwrap()
            .reduce(),
        "abc"
    );
}

#[test]
fn verified_template_reduces2() {
    let template = Template(vec![
        TemplatePart::Char('a'),
        TemplatePart::Char('b'),
        insert("var"),
        TemplatePart::Char('c'),
    ]);
    let mut values = Values::new();
    values.insert("var".to_string(), "foo".to_string());
    assert_eq!(
        VerifiedTemplate::new(&template, values).unwrap().reduce(),
        "abfooc"
    );
}

#[test]
fn creates_verified_template() {
    let template = Template(vec![insert("foo"), insert("bar")]);
    let body = Body::Function {
        decls: plain_decls(&["foo", "bar"]),
        template: template.clone(),
    };
    let inputs = HashMap::from([
        ("foo".to_string(), "ot".to_string()),
        ("bar".to_string(), " and hand".to_string()),
    ]);
    let mut values = Values::new();
    values.insert("foo".to_string(), "ot".to_string());
    values.insert("bar".to_string(), " and hand".to_string());
    assert_eq!(
        VerifiedTemplate::try_from_body_inputs(&body, &inputs).unwrap(),
        VerifiedTemplate::new(&template, values).unwrap()
    )
}

#[test]
fn fails_bad_values() {
    let template = Template(vec![insert("foo"), insert("bar")]);
    let body = Body::Function {
        decls: plain_decls(&["foo", "bar"]),
        template: template.clone(),
    };
    assert_eq!(
        VerifiedTemplate::try_from_body_inputs(
            &body,
            &HashMap::from([("foo".to_string(), "ot".to_string())])
        )
        .unwrap_err(),
        VerifyError::MissingDecl("bar".to_string())
    )
}

#[test]
fn new_refuses_table_without_inserted_value() {
    let template = Template(vec![insert("foo")]);
    assert!(VerifiedTemplate::new(&template, Values::new()).is_none());
    let mut values = Values::new();
    values.insert("other".to_string(), "x".to_string());
    assert!(VerifiedTemplate::new(&template, values).is_none());
}

#[test]
fn wildcard_insert_needs_no_value_and_adds_nothing() {
    let template = Template(vec![
        TemplatePart::Char('a'),
        TemplatePart::Insert(TemplateValue::Var(Var::Ignore)),
        TemplatePart::Char('b'),
    ]);
    assert_eq!(
        VerifiedTemplate::new(&template, Values::new())
            .unwrap()
            .reduce(),
        "ab"
    );
}

#[test]
fn values_later_insert_replaces() {
    let mut values = Values::new();
    values.insert("k".to_string(), "one".to_string());
    values.insert("k".to_string(), "two".to_string());
    assert_eq!(values.get(&"k".to_string()), Some(&"two".to_string()));
    assert_eq!(values.get(&"missing".to_string()), None);
}

#[test]
fn has_defined_checks_names() {
    let decls = Decls(vec![
        Decl {
            var: Var::Ignore,
            default: None,
        },
        Decl {
            var: ident("foo"),
            default: None,
        },
    ]);
    assert!(decls.has_defined(&ident("foo")));
    assert!(!decls.has_defined(&ident("bar")));
    assert!(decls.has_defined(&Var::Ignore));
    assert!(Decls(vec![]).has_defined(&Var::Ignore));
}

#[test]
fn verify_reports_every_undefined_insert_in_order() {
    let body = Body::Function {
        decls: plain_decls(&["b"]),
        template: Template(vec![
            insert("a"),
            TemplatePart::Char('x'),
            insert("b"),
            insert("c"),
            insert("a"),
        ]),
    };
    assert_eq!(
        body.verify().unwrap_err(),
        VerifyError::Errors(vec![
            VerifyError::Undefined(TemplateValue::Var(ident("a"))),
            VerifyError::Undefined(TemplateValue::Var(ident("c"))),
            VerifyError::Undefined(TemplateValue::Var(ident("a"))),
        ])
    );
}

#[test]
fn values_compare_by_contents() {
    let mut a = Values::new();
    a.insert("x".to_string(), "1".to_string());
    a.insert("y".to_string(), "2".to_string());
    let mut b = Values::new();
    b.insert("y".to_string(), "2".to_string());
    b.insert("x".to_string(), "0".to_string());
    b.insert("x".to_string(), "1".to_string());
    assert_eq!(a, b);
    let mut c = Values::new();
    c.insert("x".to_string(), "1".to_string());
    assert_ne!(a, c);
    assert_ne!(c, a);
    c.insert("y".to_string(), "3".to_string());
    assert_ne!(a, c);
}
