use atopile_analyzer::ast::{
    AssertStmt, AssignStmt, AttributeStmt, BinaryOp, BinaryOperator, BlockKind, BlockStmt,
    CommentStmt, ConnectStmt, Connectable, DepImportStmt, Expr, ImportStmt, PhysicalValue, PinStmt,
    PortRef, SignalStmt, SpecializeStmt, Stmt, Symbol, Tolerance,
};
use atopile_analyzer::lexer::{lex, Lexer, Token};
use atopile_analyzer::parser::parse;
use atopile_analyzer::span::{Span, Spanned};

fn sp<T>(item: T, start: usize, end: usize) -> Spanned<T> {
    Spanned(item, Span { start, end })
}

fn text(s: &str, start: usize, end: usize) -> Spanned<String> {
    sp(s.to_string(), start, end)
}

fn sym(s: &str, start: usize, end: usize) -> Spanned<Symbol> {
    sp(Symbol(s.to_string()), start, end)
}

fn port(parts: &[(&str, usize, usize)]) -> Spanned<PortRef> {
    let start = parts[0].1;
    let end = parts[parts.len() - 1].2;
    sp(PortRef { parts: parts.iter().map(|p| text(p.0, p.1, p.2)).collect() }, start, end)
}

fn statements(input: &str) -> Vec<Spanned<Stmt>> {
    let (tokens, lex_errors) = Lexer::lex(input);
    assert!(lex_errors.is_empty(), "Lexer errors: {:?}", lex_errors);
    let (ast, errors) = parse(&tokens);
    assert!(errors.is_empty());
    ast
}

/// The statements of a block that holds the single line `line`.
fn in_block(line: &str) -> Vec<Spanned<Stmt>> {
    let input = format!("module T:\n    {}", line);
    let mut ast = statements(&input);
    assert_eq!(ast.len(), 1, "{:?}", ast);
    match ast.remove(0).0 {
        Stmt::Block(block) => block.body,
        other => panic!("expected a block, found {:?}", other),
    }
}

// Offsets in `in_block` lines start at 14: `module T:\n` and four spaces.
const AT: usize = 14;

fn physical(
    value: Spanned<String>,
    unit: Option<Spanned<String>>,
    tolerance: Option<Spanned<Tolerance>>,
    start: usize,
    end: usize,
) -> Spanned<Expr> {
    sp(Expr::Physical(sp(PhysicalValue { value, unit, tolerance }, start, end)), start, end)
}

#[test]
fn test_physical_basic() {
    let body = in_block("x = 10kohm +/- 5%");
    let value = physical(
        text("10", AT + 4, AT + 6),
        Some(text("kohm", AT + 6, AT + 10)),
        Some(sp(
            Tolerance::Bilateral { value: text("5", AT + 15, AT + 16), unit: None },
            AT + 11,
            AT + 17,
        )),
        AT + 4,
        AT + 17,
    );
    assert_eq!(
        body,
        vec![sp(
            Stmt::Assign(AssignStmt { target: port(&[("x", AT, AT + 1)]), type_info: None, value }),
            AT,
            AT + 17,
        )]
    );
}

#[test]
fn test_physical_negative() {
    let body = in_block("x = -0.3V");
    let value = physical(
        text("-0.3", AT + 4, AT + 8),
        Some(text("V", AT + 8, AT + 9)),
        None,
        AT + 4,
        AT + 9,
    );
    assert_eq!(
        body,
        vec![sp(
            Stmt::Assign(AssignStmt { target: port(&[("x", AT, AT + 1)]), type_info: None, value }),
            AT,
            AT + 9,
        )]
    );
}

#[test]
fn test_full_parse() {
    let ast = statements(
        "module Test:
            r1 = new Resistor
            r1 ~ pin A1
            assert 10kohm +/- 5%",
    );
    assert_eq!(ast.len(), 1);
    let block = match &ast[0].0 {
        Stmt::Block(block) => block,
        other => panic!("expected a block, found {:?}", other),
    };
    assert_eq!(block.kind, sp(BlockKind::Module, 0, 6));
    assert_eq!(block.name, sym("Test", 7, 11));
    assert_eq!(block.parent, None);
    assert_eq!(block.body.len(), 3);
    assert_eq!(
        block.body[0],
        sp(
            Stmt::Assign(AssignStmt {
                target: port(&[("r1", 25, 27)]),
                type_info: None,
                value: sp(Expr::New(sym("Resistor", 34, 42)), 30, 42),
            }),
            25,
            42,
        )
    );
    assert_eq!(
        block.body[1],
        sp(
            Stmt::Connect(ConnectStmt {
                left: sp(Connectable::Port(port(&[("r1", 55, 57)])), 55, 57),
                right: sp(Connectable::Pin(text("A1", 64, 66)), 60, 66),
            }),
            55,
            66,
        )
    );
    match &block.body[2].0 {
        Stmt::Assert(AssertStmt { expr }) => {
            assert_eq!(expr.1, Span { start: 86, end: 99 });
            assert!(matches!(expr.0, Expr::Physical(_)));
        }
        other => panic!("expected an assertion, found {:?}", other),
    }
    assert_eq!(ast[0].1, Span { start: 0, end: 99 });
}

#[test]
fn test_port_ref_simple() {
    let body = in_block("a -> T");
    assert_eq!(
        body,
        vec![sp(
            Stmt::Specialize(SpecializeStmt {
                port: port(&[("a", AT, AT + 1)]),
                value: sym("T", AT + 5, AT + 6),
            }),
            AT,
            AT + 6,
        )]
    );
}

#[test]
fn test_port_ref_nested() {
    let body = in_block("a.b.2 -> T");
    assert_eq!(
        body,
        vec![sp(
            Stmt::Specialize(SpecializeStmt {
                port: port(&[("a", AT, AT + 1), ("b", AT + 2, AT + 3), ("2", AT + 4, AT + 5)]),
                value: sym("T", AT + 9, AT + 10),
            }),
            AT,
            AT + 10,
        )]
    );
}

#[test]
fn test_assert_range() {
    let body = in_block("assert a within 10kohm to 20kohm");
    let left = sp(Expr::Port(port(&[("a", AT + 7, AT + 8)])), AT + 7, AT + 8);
    let right = physical(
        text("10", AT + 16, AT + 18),
        Some(text("kohm", AT + 18, AT + 22)),
        Some(sp(
            Tolerance::Bound { min: text("0", 0, 0), max: text("20", AT + 26, AT + 28) },
            AT + 23,
            AT + 32,
        )),
        AT + 16,
        AT + 32,
    );
    let whole = sp(
        Expr::BinaryOp(Box::new(sp(
            BinaryOp { left, op: sp(BinaryOperator::Within, AT + 9, AT + 15), right },
            AT + 7,
            AT + 32,
        ))),
        AT + 7,
        AT + 32,
    );
    assert_eq!(body, vec![sp(Stmt::Assert(AssertStmt { expr: whole }), AT, AT + 32)]);
}

#[test]
fn test_signal_pin_connect() {
    let body = in_block("signal a ~ pin A1");
    assert_eq!(
        body,
        vec![sp(
            Stmt::Connect(ConnectStmt {
                left: sp(Connectable::Signal(text("a", AT + 7, AT + 8)), AT, AT + 8),
                right: sp(Connectable::Pin(text("A1", AT + 15, AT + 17)), AT + 11, AT + 17),
            }),
            AT,
            AT + 17,
        )]
    );
}

#[test]
fn test_assert() {
    let body = in_block("assert 10kohm");
    let expr = physical(
        text("10", AT + 7, AT + 9),
        Some(text("kohm", AT + 9, AT + 13)),
        None,
        AT + 7,
        AT + 13,
    );
    assert_eq!(body, vec![sp(Stmt::Assert(AssertStmt { expr }), AT, AT + 13)]);
}

#[test]
fn test_assign() {
    let body = in_block("r1 = new Resistor");
    assert_eq!(
        body,
        vec![sp(
            Stmt::Assign(AssignStmt {
                target: port(&[("r1", AT, AT + 2)]),
                type_info: None,
                value: sp(Expr::New(sym("Resistor", AT + 9, AT + 17)), AT + 5, AT + 17),
            }),
            AT,
            AT + 17,
        )]
    );
}

#[test]
fn test_specialize() {
    let body = in_block("u1.a -> Resistor");
    assert_eq!(
        body,
        vec![sp(
            Stmt::Specialize(SpecializeStmt {
                port: port(&[("u1", AT, AT + 2), ("a", AT + 3, AT + 4)]),
                value: sym("Resistor", AT + 8, AT + 16),
            }),
            AT,
            AT + 16,
        )]
    );
}

#[test]
fn test_nested_blocks_fail() {
    let ast = statements(
        "module M:
            r1 = new Resistor
            component C:
                r1 = new Resistor
                r1 ~ pin A1
                assert 10kohm within 5%",
    );
    let kinds: Vec<&str> = ast
        .iter()
        .map(|s| match &s.0 {
            Stmt::Block(_) => "block",
            Stmt::ParseError(_) => "error",
            _ => "other",
        })
        .collect();
    assert_eq!(kinds, vec!["error", "error", "error", "block"]);
    assert_eq!(ast[0], sp(Stmt::ParseError("syntax error".to_string()), 52, 64));
    assert_eq!(ast[1], sp(Stmt::ParseError("syntax error".to_string()), 65, 98));
    assert_eq!(ast[2].0, Stmt::ParseError("syntax error".to_string()));
    match &ast[3].0 {
        Stmt::Block(block) => {
            assert_eq!(block.name, sym("M", 7, 8));
            assert_eq!(block.body.len(), 3);
            assert!(matches!(block.body[0].0, Stmt::Assign(_)));
            assert!(matches!(block.body[1].0, Stmt::Connect(_)));
            assert!(matches!(block.body[2].0, Stmt::Assert(_)));
        }
        other => panic!("expected a block, found {:?}", other),
    }
}

#[test]
fn imports_and_comments_stand_at_the_top() {
    let ast = statements("# note\nfrom \"a.ato\" import A, B\nimport C from \"c.ato\"");
    assert_eq!(
        ast,
        vec![
            sp(Stmt::Comment(CommentStmt { comment: text(" note", 0, 6) }), 0, 6),
            sp(
                Stmt::Import(ImportStmt {
                    from_path: text("a.ato", 12, 19),
                    imports: vec![sym("A", 27, 28), sym("B", 30, 31)],
                }),
                7,
                31,
            ),
            sp(
                Stmt::DepImport(DepImportStmt {
                    name: sym("C", 39, 40),
                    from_path: text("c.ato", 46, 53),
                }),
                32,
                53,
            ),
        ]
    );
}

#[test]
fn a_block_can_stand_on_one_line() {
    let ast = statements("component R from Base: pin 1; signal a; x: ohm");
    assert_eq!(
        ast,
        vec![sp(
            Stmt::Block(BlockStmt {
                kind: sp(BlockKind::Component, 0, 9),
                name: sym("R", 10, 11),
                parent: Some(sym("Base", 17, 21)),
                body: vec![
                    sp(Stmt::Pin(PinStmt { name: sym("1", 27, 28) }), 23, 28),
                    sp(Stmt::Signal(SignalStmt { name: sym("a", 37, 38) }), 30, 38),
                    sp(
                        Stmt::Attribute(AttributeStmt {
                            name: sym("x", 40, 41),
                            type_info: sym("ohm", 43, 46),
                        }),
                        40,
                        46,
                    ),
                ],
            }),
            23,
            46,
        )]
    );
}

#[test]
fn what_is_no_statement_becomes_a_parse_error() {
    let ast = statements("signal a\nmodule M:\n    pass\n    ) (\n    b = 1\n");
    let summary: Vec<(String, usize, usize)> = ast
        .iter()
        .map(|s| {
            let what = match &s.0 {
                Stmt::ParseError(m) => m.clone(),
                Stmt::Block(b) => format!("block {} of {}", b.name.0 .0, b.body.len()),
                other => format!("{:?}", other),
            };
            (what, s.1.start, s.1.end)
        })
        .collect();
    assert_eq!(
        summary,
        vec![
            ("syntax error: unexpected top-level statement".to_string(), 0, 8),
            ("syntax error".to_string(), 32, 35),
            ("block M of 2".to_string(), 9, 46),
        ]
    );
}

#[test]
fn a_header_without_an_indented_body_is_a_parse_error() {
    let ast = statements("module M:\nfrom \"a\" import A");
    assert_eq!(ast.len(), 2);
    assert_eq!(
        ast[0],
        sp(
            Stmt::ParseError("syntax error: expected indent after block header".to_string()),
            0,
            10,
        )
    );
    assert!(matches!(ast[1].0, Stmt::Import(_)));
}

#[test]
fn a_text_that_ends_in_a_line_break_ends_in_a_parse_error() {
    let ast = statements("import A from \"a\"\n");
    assert_eq!(ast.len(), 2);
    assert_eq!(
        ast[1],
        sp(Stmt::ParseError("syntax error: unexpected top-level statement".to_string()), 5, 5)
    );
    assert_eq!(statements(""), vec![]);
}

#[test]
fn operators_bind_to_the_left() {
    let body = in_block("x = a + b * c");
    let a = sp(Expr::Port(port(&[("a", AT + 4, AT + 5)])), AT + 4, AT + 5);
    let b = sp(Expr::Port(port(&[("b", AT + 8, AT + 9)])), AT + 8, AT + 9);
    let c = sp(Expr::Port(port(&[("c", AT + 12, AT + 13)])), AT + 12, AT + 13);
    let sum = sp(
        Expr::BinaryOp(Box::new(sp(
            BinaryOp { left: a, op: sp(BinaryOperator::Add, AT + 6, AT + 7), right: b },
            AT + 4,
            AT + 9,
        ))),
        AT + 4,
        AT + 9,
    );
    let product = sp(
        Expr::BinaryOp(Box::new(sp(
            BinaryOp { left: sum, op: sp(BinaryOperator::Mul, AT + 10, AT + 11), right: c },
            AT + 4,
            AT + 13,
        ))),
        AT + 4,
        AT + 13,
    );
    assert_eq!(
        body,
        vec![sp(
            Stmt::Assign(AssignStmt {
                target: port(&[("x", AT, AT + 1)]),
                type_info: None,
                value: product,
            }),
            AT,
            AT + 13,
        )]
    );
}

#[test]
fn atoms_are_strings_booleans_and_paths() {
    let body = in_block("a: T = \"s\"; b = True; c = False; d = e.f");
    assert_eq!(body.len(), 4);
    match &body[0].0 {
        Stmt::Assign(assign) => {
            assert_eq!(assign.type_info, Some(text("T", AT + 3, AT + 4)));
            assert_eq!(assign.value, sp(Expr::String(text("s", AT + 7, AT + 10)), AT + 7, AT + 10));
        }
        other => panic!("expected an assignment, found {:?}", other),
    }
    match (&body[1].0, &body[2].0, &body[3].0) {
        (Stmt::Assign(b), Stmt::Assign(c), Stmt::Assign(d)) => {
            assert!(matches!(b.value.0, Expr::Bool(Spanned(true, _))));
            assert!(matches!(c.value.0, Expr::Bool(Spanned(false, _))));
            assert!(matches!(d.value.0, Expr::Port(_)));
        }
        other => panic!("expected assignments, found {:?}", other),
    }
}

#[test]
fn tokens_are_displayed_as_written() {
    assert_eq!(Token::Component.to_string(), "component");
    assert_eq!(Token::PlusOrMinus.to_string(), "+/-");
    assert_eq!(Token::String("a b".to_string()).to_string(), "\"a b\"");
    assert_eq!(Token::Name("x".to_string()).to_string(), "x");
    assert_eq!(Token::Comment(" c".to_string()).to_string(), "<comment: \" c\">");
    assert_eq!(Token::Newline.to_string(), "<newline>");
}

#[test]
fn what_is_no_token_is_reported_and_its_line_left_out() {
    let (tokens, errors) = Lexer::lex("a = 1\nb = $\nc = 2");
    assert_eq!(errors.len(), 1);
    assert_eq!(errors[0].span, Span { start: 10, end: 11 });
    assert_eq!(errors[0].found, Some("$".to_string()));
    assert_eq!(errors[0].reason, "unexpected input");
    let names: Vec<String> = tokens
        .iter()
        .filter_map(|t| match &t.0 {
            Token::Name(n) => Some(n.clone()),
            _ => None,
        })
        .collect();
    assert_eq!(names, vec!["a", "c"]);
    let (_, unclosed) = Lexer::lex("x = \"open");
    assert_eq!(unclosed.len(), 1);
    assert_eq!(unclosed[0].span, Span { start: 4, end: 5 });
}

#[test]
fn symbols_that_start_alike_are_read_in_their_order() {
    let (tokens, errors) = Lexer::lex("+/- ± -> += -= |= &= == = <= >= < > 007 1.5 2.");
    assert!(errors.is_empty());
    let kinds: Vec<Token> = tokens.into_iter().map(|t| t.0).collect();
    assert_eq!(
        kinds,
        vec![
            Token::PlusOrMinus,
            Token::PlusOrMinus,
            Token::Arrow,
            Token::Plus,
            Token::Equals,
            Token::Minus,
            Token::Equals,
            Token::OrEquals,
            Token::AndEquals,
            Token::Eq,
            Token::Equals,
            Token::LtEq,
            Token::GtEq,
            Token::Lt,
            Token::Gt,
            Token::Number("0".to_string()),
            Token::Number("0".to_string()),
            Token::Number("7".to_string()),
            Token::Number("1.5".to_string()),
            Token::Number("2".to_string()),
            Token::Dot,
        ]
    );
}

#[test]
fn comments_between_triple_quotes_can_share_a_line_with_tokens() {
    let (tokens, errors) = lex("a = 1 \"\"\" note \"\"\" b = 2");
    assert!(errors.is_empty());
    let kinds: Vec<Token> = tokens.into_iter().map(|t| t.0).collect();
    assert_eq!(
        kinds,
        vec![
            Token::Name("a".to_string()),
            Token::Equals,
            Token::Number("1".to_string()),
            Token::Comment("note".to_string()),
            Token::Name("b".to_string()),
            Token::Equals,
            Token::Number("2".to_string()),
        ]
    );
    let (empty, none) = lex("\"\"\"\"\"\"");
    assert!(none.is_empty());
    assert!(empty.is_empty());
    let (only_space, reported) = lex("\"\"\"a\"\"\"   \"\"\"b\"\"\"");
    assert_eq!(reported.len(), 1);
    assert_eq!(reported[0].found, None);
    assert_eq!(
        only_space.into_iter().map(|t| t.0).collect::<Vec<_>>(),
        vec![Token::Comment("a".to_string()), Token::Comment("b".to_string())]
    );
}

#[test]
fn white_space_at_the_end_of_a_line_moves_the_spans_of_the_line() {
    let (tokens, errors) = lex("a = b  \nc");
    assert!(errors.is_empty());
    assert_eq!(
        tokens,
        vec![
            sp(Token::Name("a".to_string()), 2, 3),
            sp(Token::Equals, 4, 5),
            sp(Token::Name("b".to_string()), 6, 7),
            sp(Token::Newline, 7, 8),
            sp(Token::Name("c".to_string()), 8, 9),
        ]
    );
}

#[test]
fn names_can_hold_letters_of_any_script() {
    let (tokens, errors) = lex("größe = 2µ\n_x1 ~ ñ");
    assert!(errors.is_empty());
    assert_eq!(
        tokens,
        vec![
            sp(Token::Name("größe".to_string()), 0, 7),
            sp(Token::Equals, 8, 9),
            sp(Token::Number("2".to_string()), 10, 11),
            sp(Token::Name("µ".to_string()), 11, 13),
            sp(Token::Newline, 13, 14),
            sp(Token::Name("_x1".to_string()), 14, 17),
            sp(Token::Tilde, 18, 19),
            sp(Token::Name("ñ".to_string()), 20, 22),
        ]
    );
}

#[test]
fn indentation_opens_and_closes_levels() {
    let (tokens, errors) = lex("a\n  b\n      c\n  d\ne");
    assert!(errors.is_empty());
    let kinds: Vec<String> = tokens.iter().map(|t| t.0.to_string()).collect();
    assert_eq!(
        kinds,
        vec![
            "a", "<newline>", "<indent>", "b", "<newline>", "<indent>", "c", "<newline>",
            "<dedent>", "d", "<newline>", "<dedent>", "e",
        ]
    );
    let (open, _) = lex("a\n  b\n    c");
    let closing: Vec<&Spanned<Token>> =
        open.iter().filter(|t| t.0 == Token::Dedent).collect();
    assert_eq!(closing.len(), 2);
    assert!(closing.iter().all(|t| t.1 == Span { start: 11, end: 11 }));
}
