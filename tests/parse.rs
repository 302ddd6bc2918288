use chumsky::error::Simple;
use chumsky::primitive::{any, choice, end, just, none_of};
use chumsky::text::{self, TextParser};
use chumsky::Parser;

use language::data::{Body, Decl, DeclValue, Decls, Template, TemplatePart, TemplateValue, Var};
use language::errors::{ParseError, ParseErrorKind};
use language::parse::parse;
use language::VerifyError;

fn ident(name: &str) -> Var {
    Var::Ident(name.to_string())
}

fn chars(text: &str) -> Vec<TemplatePart> {
    text.chars().map(TemplatePart::Char).collect()
}

fn decls_with_f(names: &[&str]) -> Body {
    Body::Function {
        decls: Decls(
            names
                .iter()
                .map(|n| Decl {
                    var: ident(n),
                    default: None,
                })
                .collect(),
        ),
        template: Template(vec![TemplatePart::Char('f')]),
    }
}

fn parse_error(kind: ParseErrorKind, position: usize) -> VerifyError {
    VerifyError::ParseError(ParseError { kind, position })
}

#[test]
fn empty_str_fails() {
    parse("").expect_err("the empty string didn't fail");
}

#[test]
fn empty_template_fails() {
    parse("{}->").expect_err("the empty body fails");
}

#[test]
fn text_only_fn_body_passes() {
    assert_eq!(
        parse("{}->f").unwrap(),
        Body::Function {
            decls: Decls(vec![]),
            template: Template(vec![TemplatePart::Char('f')])
        }
    );
}

#[test]
fn new_line_body_passes() {
    assert_eq!(
        parse("{}->\nf").unwrap(),
        Body::Function {
            decls: Decls(vec![]),
            template: Template(vec![TemplatePart::Char('f')])
        }
    );
}

#[test]
fn insert_var_only_fn_body_passes() {
    assert_eq!(
        parse("{}->%{foo}").unwrap(),
        Body::Function {
            decls: Decls(vec![]),
            template: Template(vec![TemplatePart::Insert(TemplateValue::Var(ident("foo")))]),
        }
    );
}

#[test]
fn single_decl_passes() {
    assert_eq!(parse("{foo}->\nf").unwrap(), decls_with_f(&["foo"]));
}

#[test]
fn single_decl_passes1() {
    assert_eq!(parse("{foo,}->\nf").unwrap(), decls_with_f(&["foo"]));
}

#[test]
fn default_str_decl() {
    assert_eq!(
        parse("{foo ? \"\"}->f").unwrap(),
        Body::Function {
            decls: Decls(vec![Decl {
                var: ident("foo"),
                default: Some(DeclValue::Str(String::new()))
            }]),
            template: Template(vec![TemplatePart::Char('f')]),
        }
    );
}

#[test]
fn default_str_decl1() {
    assert_eq!(
        parse("{foo ? \"this is my string\"}->f").unwrap(),
        Body::Function {
            decls: Decls(vec![Decl {
                var: ident("foo"),
                default: Some(DeclValue::Str("this is my string".to_string()))
            }]),
            template: Template(vec![TemplatePart::Char('f')]),
        }
    );
}

#[test]
fn multi_decl_passes() {
    assert_eq!(
        parse("{foo,bar,baz}->\nf").unwrap(),
        decls_with_f(&["foo", "bar", "baz"])
    );
}

#[test]
fn multi_decl_passes1() {
    assert_eq!(
        parse("{foo,bar,baz,}->\nf").unwrap(),
        decls_with_f(&["foo", "bar", "baz"])
    );
}

#[test]
fn white_space_pass() {
    assert_eq!(parse("{} \n  \t->\nf").unwrap(), decls_with_f(&[]));
}

#[test]
fn white_space_pass1() {
    assert_eq!(parse("{  }->f").unwrap(), decls_with_f(&[]));
}

#[test]
fn white_space_pass2() {
    assert_eq!(parse("\n\n\t  \n  {}->f").unwrap(), decls_with_f(&[]));
}

#[test]
fn white_space_pass3() {
    assert_eq!(
        parse("\n\n\t  \n  {  foo, \n\nbar, }  ->f").unwrap(),
        decls_with_f(&["foo", "bar"])
    );
}

#[test]
fn multiple_template_part_passes() {
    let insert = TemplatePart::Insert(TemplateValue::Var(ident("foo")));
    assert_eq!(
        parse("{}->foo%{foo}b%{foo}bar").unwrap(),
        Body::Function {
            decls: Decls(vec![]),
            template: Template(vec![
                TemplatePart::Char('f'),
                TemplatePart::Char('o'),
                TemplatePart::Char('o'),
                insert.clone(),
                TemplatePart::Char('b'),
                insert,
                TemplatePart::Char('b'),
                TemplatePart::Char('a'),
                TemplatePart::Char('r')
            ]),
        }
    );
}

#[test]
fn escapes_double_percent() {
    assert_eq!(
        parse("{}->f%%f").unwrap(),
        Body::Function {
            decls: Decls(vec![]),
            template: Template(vec![
                TemplatePart::Char('f'),
                TemplatePart::Char('%'),
                TemplatePart::Char('f')
            ])
        }
    );
}

#[test]
fn parse_error_kinds_and_positions() {
    assert_eq!(parse("").unwrap_err(), parse_error(ParseErrorKind::ExpectedOpenBrace, 0));
    assert_eq!(parse("  x{}->f").unwrap_err(), parse_error(ParseErrorKind::ExpectedOpenBrace, 2));
    assert_eq!(parse("{foo bar}->f").unwrap_err(), parse_error(ParseErrorKind::ExpectedCloseBrace, 5));
    assert_eq!(parse("{foo ? }->f").unwrap_err(), parse_error(ParseErrorKind::ExpectedCloseBrace, 5));
    assert_eq!(parse("{foo ? \"abc}->f").unwrap_err(), parse_error(ParseErrorKind::ExpectedCloseBrace, 5));
    assert_eq!(parse("{_ foo}->f").unwrap_err(), parse_error(ParseErrorKind::ExpectedCloseBrace, 3));
    assert_eq!(parse("{,}->f").unwrap_err(), parse_error(ParseErrorKind::ExpectedCloseBrace, 1));
    assert_eq!(parse("{} ->").unwrap_err(), parse_error(ParseErrorKind::EmptyTemplate, 5));
    assert_eq!(parse("{}->\n").unwrap_err(), parse_error(ParseErrorKind::EmptyTemplate, 5));
    assert_eq!(parse("{}->\r\n").unwrap_err(), parse_error(ParseErrorKind::EmptyTemplate, 6));
    assert_eq!(parse("{}-").unwrap_err(), parse_error(ParseErrorKind::ExpectedArrow, 2));
    assert_eq!(parse("{} =>f").unwrap_err(), parse_error(ParseErrorKind::ExpectedArrow, 3));
    assert_eq!(parse("{}").unwrap_err(), parse_error(ParseErrorKind::ExpectedArrow, 2));
}

#[test]
fn only_one_line_break_after_arrow_is_skipped() {
    let body = parse("{}->\n\n x").unwrap();
    assert_eq!(
        body,
        Body::Function {
            decls: Decls(vec![]),
            template: Template(chars("\n x")),
        }
    );
    let body = parse("{}->\r\nx").unwrap();
    assert_eq!(
        body,
        Body::Function {
            decls: Decls(vec![]),
            template: Template(chars("x")),
        }
    );
}

#[test]
fn malformed_inserts_are_literal_text() {
    for text in ["%{foo", "%{ foo}", "%{_ }", "%{9}", "%{}", "%x", "%"] {
        let source = format!("{{}}->{text}");
        assert_eq!(
            parse(&source).unwrap(),
            Body::Function {
                decls: Decls(vec![]),
                template: Template(chars(text)),
            },
            "{source}"
        );
    }
}

#[test]
fn underscore_identifiers_parse() {
    assert_eq!(
        parse("{_foo}->%{_foo}").unwrap(),
        Body::Function {
            decls: Decls(vec![Decl {
                var: ident("_foo"),
                default: None
            }]),
            template: Template(vec![TemplatePart::Insert(TemplateValue::Var(ident("_foo")))]),
        }
    );
    assert_eq!(
        parse("{__}->%{_}").unwrap(),
        Body::Function {
            decls: Decls(vec![Decl {
                var: ident("__"),
                default: None
            }]),
            template: Template(vec![TemplatePart::Insert(TemplateValue::Var(Var::Ignore))]),
        }
    );
}

#[test]
fn wildcard_and_defaults_in_declarations() {
    assert_eq!(
        parse("{ _ , a1_b ? \" x, \" ,}->%{_}%{a1_b}").unwrap(),
        Body::Function {
            decls: Decls(vec![
                Decl {
                    var: Var::Ignore,
                    default: None
                },
                Decl {
                    var: ident("a1_b"),
                    default: Some(DeclValue::Str(" x, ".to_string()))
                },
            ]),
            template: Template(vec![
                TemplatePart::Insert(TemplateValue::Var(Var::Ignore)),
                TemplatePart::Insert(TemplateValue::Var(ident("a1_b"))),
            ]),
        }
    );
}

#[test]
fn percent_escapes_and_inserts_interleave() {
    assert_eq!(
        parse("{}->%%{a}%%%{a}").unwrap(),
        Body::Function {
            decls: Decls(vec![]),
            template: Template(vec![
                TemplatePart::Char('%'),
                TemplatePart::Char('{'),
                TemplatePart::Char('a'),
                TemplatePart::Char('}'),
                TemplatePart::Char('%'),
                TemplatePart::Insert(TemplateValue::Var(ident("a"))),
            ]),
        }
    );
}

/// The same grammar stated with chumsky's combinators; `parse` must accept
/// what it accepts, with the same result, and reject what it rejects.
fn combinator_parser() -> impl Parser<char, Body, Error = Simple<char>> {
    let var = text::ident().map(|name: String| {
        if name == "_" {
            Var::Ignore
        } else {
            Var::Ident(name)
        }
    });

    let str_value = just::<_, _, Simple<char>>('"')
        .ignore_then(none_of("\"").repeated().collect::<String>())
        .then_ignore(just('"'))
        .map(DeclValue::Str)
        .padded();
    let default_val = just('?').ignore_then(str_value).or_not().padded();
    let decl = var
        .clone()
        .then(default_val)
        .map(|(var, default)| Decl { var, default })
        .padded();
    let decls = decl
        .clone()
        .then_ignore(just(','))
        .repeated()
        .chain(decl.or_not())
        .delimited_by(just('{').padded(), just('}').padded())
        .padded();

    let value = var.map(TemplateValue::Var);
    let insert = value
        .delimited_by(just("%{"), just("}"))
        .map(TemplatePart::Insert);

    let escaped = just('%').then_ignore(just('%'));
    let text = choice((escaped, any())).map(TemplatePart::Char);

    let template = insert
        .or(text)
        .repeated()
        .at_least(1)
        .map(Template)
        .then_ignore(end());

    decls
        .then_ignore(just("->").then(text::newline().or_not()))
        .then(template)
        .map(|(decls, template)| Body::Function {
            decls: Decls(decls),
            template,
        })
        .then_ignore(end())
}

#[test]
fn agrees_with_combinator_grammar() {
    let sources = [
        "",
        "{}->",
        "{}->f",
        "{}->\nf",
        "{}->\r\nf",
        "{}->\rf",
        "{}->\r\r",
        "{}->\u{2028}x",
        "{}->\u{0b}\u{0c}",
        "\u{a0}{\u{3000}}\u{2003}->x",
        "{} \n  \t->\nf",
        "{_}->%{_}",
        "{_foo}->x",
        "{_foo, __, _1}->%{_foo}%{__}%{_1}%{_}",
        "{}->%{_foo}%{_ }",
        "{foo ? \"a\", bar}->%{foo}%{bar}",
        "{foo?\"\"}->x",
        "{foo ? }->x",
        "{foo ? \"abc}->x",
        "{foo bar}->x",
        "{foo,,}->x",
        "{,}->x",
        "{a,b,}  ->  x ",
        "{foo9_x}->%{foo9_x}",
        "{9foo}->x",
        "{é}->x",
        "{}->%{é}",
        "{}->%{foo",
        "{}->%{ foo}",
        "{}->%%{foo}",
        "{}->%%%{foo}",
        "{}->%",
        "{}->50%",
        "{}->%%",
        "{}->%%%",
        "x{}->y",
        "{}x->y",
        "{}-",
        "{",
        "}",
        "{}->\n\nx",
        "{a ? \"1\", a ? \"2\"}->%{a}",
        "{ _ , a1_b ? \" x, \" ,}->%{_}%{a1_b}",
    ];
    for source in sources {
        let reference = combinator_parser().parse(source);
        let ours = parse(source);
        match (reference, ours) {
            (Ok(expected), Ok(actual)) => assert_eq!(actual, expected, "{source:?}"),
            (Err(_), Err(_)) => {}
            (expected, actual) => panic!("{source:?}: {expected:?} but {actual:?}"),
        }
    }
}
