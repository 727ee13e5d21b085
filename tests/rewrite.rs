use autodefault::rules::{parse_rules, ParseError, Rules};
use autodefault::tokens::{Delimiter, TokenTree};
use autodefault::tree::{autodefault, rewrite, rewrite_expr, Expr, ExprStruct, FieldValue};

fn ident(s: &str) -> TokenTree {
    TokenTree::Ident(s.to_string())
}

fn lit(s: &str) -> Expr {
    Expr::Node(vec![TokenTree::Literal(s.to_string())], vec![])
}

fn field(name: &str, expr: Expr) -> FieldValue {
    FieldValue { member: name.to_string(), expr }
}

fn strukt(name: &str, fields: Vec<FieldValue>, trailing_comma: bool, rest: Option<Expr>) -> Expr {
    Expr::Struct(ExprStruct {
        path: vec![name.to_string()],
        fields,
        trailing_comma,
        rest: rest.map(Box::new),
    })
}

fn with_default(name: &str, fields: Vec<FieldValue>) -> Expr {
    let trailing = !fields.is_empty();
    strukt(name, fields, trailing, Some(Expr::DefaultCall))
}

fn let_stmt(var: &str, value: Expr) -> Expr {
    Expr::Node(vec![ident("let"), ident(var), TokenTree::Punct('=')], vec![value])
}

fn demo(stmts: Vec<Expr>) -> Vec<Expr> {
    vec![Expr::Node(
        vec![ident("fn"), ident("demo"), TokenTree::Group(Delimiter::Parenthesis, vec![])],
        stmts,
    )]
}

fn call(name: &str) -> Expr {
    Expr::Node(
        vec![ident(name), TokenTree::Group(Delimiter::Parenthesis, vec![])],
        vec![],
    )
}

fn directive(mode: &str, names: &[&str]) -> Vec<TokenTree> {
    let mut inner = Vec::new();
    for (i, n) in names.iter().enumerate() {
        if i > 0 {
            inner.push(TokenTree::Punct(','));
        }
        inner.push(ident(n));
    }
    vec![ident(mode), TokenTree::Group(Delimiter::Parenthesis, inner)]
}

fn foo_ab(trailing: bool) -> Expr {
    strukt("Foo", vec![field("a", lit("10")), field("b", lit("10"))], trailing, None)
}

fn foo_ab_default() -> Expr {
    with_default("Foo", vec![field("a", lit("10")), field("b", lit("10"))])
}

fn show<T: std::fmt::Debug>(v: &T) -> String {
    format!("{:?}", v)
}

fn run(attr: Vec<TokenTree>, body: Vec<Expr>) -> String {
    show(&autodefault(attr, body).unwrap())
}

#[test]
fn it_works() {
    let output = run(vec![], demo(vec![let_stmt("x", foo_ab(false))]));
    assert_eq!(output, show(&demo(vec![let_stmt("x", foo_ab_default())])));
}

#[test]
fn trailing_comma() {
    let output = run(vec![], demo(vec![let_stmt("x", foo_ab(true))]));
    assert_eq!(output, show(&demo(vec![let_stmt("x", foo_ab_default())])));
}

#[test]
fn empty_struct() {
    let output = run(vec![], demo(vec![let_stmt("x", strukt("Foo", vec![], false, None))]));
    assert_eq!(output, show(&demo(vec![let_stmt("x", with_default("Foo", vec![]))])));
}

#[test]
fn existing_spread() {
    let input = || {
        strukt(
            "Foo",
            vec![field("a", lit("10")), field("b", lit("10"))],
            true,
            Some(call("foo")),
        )
    };
    let output = run(vec![], demo(vec![let_stmt("x", input())]));
    assert_eq!(output, show(&demo(vec![let_stmt("x", input())])));
}

fn four_lets(rewritten: &[bool; 4]) -> Vec<Expr> {
    let names = ["Ignore1", "Ignore2", "Default1", "Default2"];
    let vars = ["a", "b", "c", "d"];
    let mut stmts = Vec::new();
    for i in 0..4 {
        let e = if rewritten[i] {
            with_default(names[i], vec![])
        } else {
            strukt(names[i], vec![], false, None)
        };
        stmts.push(let_stmt(vars[i], e));
    }
    demo(stmts)
}

#[test]
fn except() {
    let output = run(directive("except", &["Ignore1", "Ignore2"]), four_lets(&[false; 4]));
    assert_eq!(output, show(&four_lets(&[false, false, true, true])));
}

#[test]
fn only() {
    let output = run(directive("only", &["Default1", "Default2"]), four_lets(&[false; 4]));
    assert_eq!(output, show(&four_lets(&[false, false, true, true])));
}

#[test]
fn inner_item() {
    let inner_tokens = || {
        vec![
            ident("fn"),
            ident("inner"),
            TokenTree::Group(Delimiter::Parenthesis, vec![]),
            TokenTree::Group(
                Delimiter::Brace,
                vec![
                    ident("let"),
                    ident("x"),
                    TokenTree::Punct('='),
                    ident("Foo"),
                    TokenTree::Group(
                        Delimiter::Brace,
                        vec![
                            ident("a"),
                            TokenTree::Punct(':'),
                            TokenTree::Literal("10".to_string()),
                            TokenTree::Punct(','),
                            ident("b"),
                            TokenTree::Punct(':'),
                            TokenTree::Literal("10".to_string()),
                        ],
                    ),
                    TokenTree::Punct(';'),
                ],
            ),
        ]
    };
    let output = run(
        vec![],
        demo(vec![let_stmt("x", foo_ab(false)), Expr::Item(inner_tokens())]),
    );
    assert_eq!(
        output,
        show(&demo(vec![let_stmt("x", foo_ab_default()), Expr::Item(inner_tokens())]))
    );
}

#[test]
fn only_nested_innermost() {
    let nested = |inner: Expr| {
        strukt("Outer", vec![field("a", strukt("Inner", vec![field("a", inner)], false, None))], false, None)
    };
    let output = run(
        directive("only", &["HasDefault"]),
        demo(vec![let_stmt("x", nested(strukt("HasDefault", vec![], false, None)))]),
    );
    assert_eq!(
        output,
        show(&demo(vec![let_stmt("x", nested(with_default("HasDefault", vec![])))]))
    );
}

#[test]
fn except_nested_outer_only() {
    let output = run(
        directive("except", &["Inner"]),
        vec![strukt("Outer", vec![field("a", strukt("Inner", vec![], false, None))], false, None)],
    );
    let expected = vec![with_default(
        "Outer",
        vec![field("a", strukt("Inner", vec![], false, None))],
    )];
    assert_eq!(output, show(&expected));
}

#[test]
fn existing_base_with_nested_struct_value() {
    let output = run(
        vec![],
        vec![strukt("Foo", vec![field("a", strukt("Bar", vec![], false, None))], false, Some(call("custom")))],
    );
    let expected = vec![strukt(
        "Foo",
        vec![field("a", with_default("Bar", vec![]))],
        false,
        Some(call("custom")),
    )];
    assert_eq!(output, show(&expected));
}

#[test]
fn rewrite_twice_changes_nothing_more() {
    let once = rewrite(demo(vec![let_stmt("x", foo_ab(false)), let_stmt("y", strukt("Foo", vec![], false, None))]), &Rules::All);
    let first = show(&once);
    let twice = rewrite(once, &Rules::All);
    assert_eq!(first, show(&twice));
}

#[test]
fn qualified_path_uses_last_segment() {
    let e = Expr::Struct(ExprStruct {
        path: vec!["m".to_string(), "Foo".to_string()],
        fields: vec![],
        trailing_comma: false,
        rest: None,
    });
    let rules = parse_rules(directive("only", &["Foo"])).unwrap();
    match rewrite_expr(e, &rules) {
        Expr::Struct(s) => assert!(matches!(s.rest.as_deref(), Some(Expr::DefaultCall))),
        _ => panic!("struct expected"),
    }
}

#[test]
fn parse_empty_is_all() {
    assert!(matches!(parse_rules(vec![]), Ok(Rules::All)));
}

#[test]
fn parse_only_dedups_names() {
    let mut tokens = directive("only", &["A", "B", "A"]);
    if let TokenTree::Group(_, inner) = &mut tokens[1] {
        inner.push(TokenTree::Punct(','));
    }
    match parse_rules(tokens) {
        Ok(Rules::Only(names)) => assert_eq!(names, vec!["A".to_string(), "B".to_string()]),
        other => panic!("unexpected {:?}", other),
    }
}

#[test]
fn parse_except_empty_list() {
    match parse_rules(directive("except", &[])) {
        Ok(Rules::Except(names)) => assert!(names.is_empty()),
        other => panic!("unexpected {:?}", other),
    }
}

#[test]
fn parse_unknown_mode() {
    match parse_rules(directive("include", &["A"])) {
        Err(ParseError::UnrecognizedMode(TokenTree::Ident(w))) => assert_eq!(w, "include"),
        other => panic!("unexpected {:?}", other),
    }
    assert!(matches!(
        parse_rules(vec![TokenTree::Punct('#')]),
        Err(ParseError::UnrecognizedMode(TokenTree::Punct('#')))
    ));
    assert!(matches!(
        parse_rules(vec![ident("Only"), TokenTree::Group(Delimiter::Parenthesis, vec![])]),
        Err(ParseError::UnrecognizedMode(_))
    ));
}

#[test]
fn parse_malformed_lists() {
    assert!(matches!(parse_rules(vec![ident("only")]), Err(ParseError::MalformedList)));
    assert!(matches!(
        parse_rules(vec![ident("only"), TokenTree::Group(Delimiter::Bracket, vec![ident("A")])]),
        Err(ParseError::MalformedList)
    ));
    assert!(matches!(
        parse_rules(vec![
            ident("only"),
            TokenTree::Group(Delimiter::Parenthesis, vec![TokenTree::Punct(','), ident("A")])
        ]),
        Err(ParseError::MalformedList)
    ));
    assert!(matches!(
        parse_rules(vec![
            ident("except"),
            TokenTree::Group(Delimiter::Parenthesis, vec![ident("A"), ident("B")])
        ]),
        Err(ParseError::MalformedList)
    ));
    assert!(matches!(
        parse_rules(vec![
            ident("except"),
            TokenTree::Group(Delimiter::Parenthesis, vec![TokenTree::Literal("1".to_string())])
        ]),
        Err(ParseError::MalformedList)
    ));
    let mut extra = directive("only", &["A"]);
    extra.push(ident("B"));
    assert!(matches!(parse_rules(extra), Err(ParseError::MalformedList)));
}

#[test]
fn bad_directive_refuses_body() {
    assert!(matches!(
        autodefault(vec![ident("never")], demo(vec![let_stmt("x", foo_ab(false))])),
        Err(ParseError::UnrecognizedMode(_))
    ));
}

#[test]
fn admits_follows_mode() {
    let only = parse_rules(directive("only", &["A"])).unwrap();
    let except = parse_rules(directive("except", &["A"])).unwrap();
    for name in ["A", "B"] {
        let n = name.to_string();
        assert_ne!(only.admits(&n), except.admits(&n));
    }
    assert!(only.admits(&"A".to_string()));
    assert!(!except.admits(&"A".to_string()));
    assert!(Rules::All.admits(&"A".to_string()));
}

#[test]
fn parse_refuses_reserved_words() {
    for word in ["fn", "_", "self", "Self", "struct", "async", "yield"] {
        assert!(matches!(parse_rules(directive("only", &[word])), Err(ParseError::MalformedList)));
        assert!(matches!(
            parse_rules(directive("except", &["A", word])),
            Err(ParseError::MalformedList)
        ));
    }
    assert!(matches!(
        autodefault(directive("only", &["fn"]), demo(vec![let_stmt("x", foo_ab(false))])),
        Err(ParseError::MalformedList)
    ));
    match parse_rules(directive("only", &["Fn", "selfish", "r#fn"])) {
        Ok(Rules::Only(names)) => assert_eq!(names.len(), 3),
        other => panic!("unexpected {:?}", other),
    }
}

#[test]
fn empty_fields_with_stray_comma_get_clause_alone() {
    let out = rewrite_expr(strukt("Foo", vec![], true, None), &Rules::All);
    assert_eq!(show(&out), show(&with_default("Foo", vec![])));
}
