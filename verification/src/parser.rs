//! The parser: from the tokens of a source file to its statements.
//!
//! Imports and comments stand at the top level, every other statement in a
//! block. What is no statement becomes a parse-error statement, and parsing
//! goes on after it.

use vstd::prelude::*;
use crate::ast::{
    AssertStmt, AssignStmt, AttributeStmt, BinaryOp, BinaryOperator, BlockKind, BlockStmt,
    CommentStmt, ConnectStmt, Connectable, DepImportStmt, Expr, ImportStmt, PhysicalValue, PinStmt,
    PortRef, SignalStmt, SpecializeStmt, Stmt, Symbol, Tolerance,
};
use crate::lexer::{token_views, Token, TokenView};
use crate::source::AtopileErrorReport;
use crate::span::{Span, Spanned};
use crate::syntax::{
    connectable_view, expr_view, port_ref_view, spanned_expr, stmt_view, stmt_views, text_view,
    tolerance_view, BinaryOpView, BlockView, ConnectableView, ExprView, PhysicalView, PortRefView,
    StmtView, TextView, ToleranceView,
};
use crate::text::{concat_text, copy_text, owned_text};

verus! {

/// The tokens of a text, each with its span.
pub type Tokens = Seq<(TokenView, Span)>;

/// The token at position `at`, if there is one.
pub open spec fn kind_at(tokens: Tokens, at: int) -> Option<TokenView> {
    if 0 <= at < tokens.len() {
        Some(tokens[at].0)
    } else {
        None
    }
}

/// The span from the start of the token at `from` to the end of the token
/// before `to`.
pub open spec fn covering(tokens: Tokens, from: int, to: int) -> Span {
    Span { start: tokens[from].1.start, end: tokens[to - 1].1.end }
}

/// The name at position `at`.
pub open spec fn name_at(tokens: Tokens, at: int) -> Option<TextView> {
    match kind_at(tokens, at) {
        Some(TokenView::Name(n)) => Some((n, tokens[at].1)),
        _ => None,
    }
}

/// The number at position `at`.
pub open spec fn number_at(tokens: Tokens, at: int) -> Option<TextView> {
    match kind_at(tokens, at) {
        Some(TokenView::Number(n)) => Some((n, tokens[at].1)),
        _ => None,
    }
}

/// The string at position `at`.
pub open spec fn string_at(tokens: Tokens, at: int) -> Option<TextView> {
    match kind_at(tokens, at) {
        Some(TokenView::String(n)) => Some((n, tokens[at].1)),
        _ => None,
    }
}

/// The name or number at position `at`: a part of a path.
pub open spec fn part_at(tokens: Tokens, at: int) -> Option<TextView> {
    match name_at(tokens, at) {
        Some(n) => Some(n),
        None => number_at(tokens, at),
    }
}

/// The name, number or string at position `at`: what a pin or a signal can
/// be called.
pub open spec fn word_at(tokens: Tokens, at: int) -> Option<TextView> {
    match part_at(tokens, at) {
        Some(n) => Some(n),
        None => string_at(tokens, at),
    }
}

/// The span of a number with a minus sign before it: one byte more at the
/// start.
pub open spec fn signed_span(span: Span) -> Span {
    Span {
        start: if span.start > 0 {
            (span.start - 1) as usize
        } else {
            0
        },
        end: span.end,
    }
}

/// The number at position `at`, with a minus sign before it or without,
/// and how many tokens it has after its first.
pub open spec fn signed_at(tokens: Tokens, at: int) -> Option<(TextView, nat)> {
    if kind_at(tokens, at) == Some(TokenView::Minus) {
        match number_at(tokens, at + 1) {
            Some(n) => Some((("-"@ + n.0, signed_span(n.1)), 1nat)),
            None => None,
        }
    } else {
        match number_at(tokens, at) {
            Some(n) => Some((n, 0nat)),
            None => None,
        }
    }
}

/// The lower bound of a tolerance that gives only the upper one.
pub open spec fn zero_text() -> TextView {
    ("0"@, Span { start: 0, end: 0 })
}

/// The tolerance at position `at`: `+/-` with a number and a percent sign
/// or a unit, or `to` with a number and an optional unit.
pub open spec fn tolerance_at(tokens: Tokens, at: int) -> Option<((ToleranceView, Span), nat)> {
    if kind_at(tokens, at) == Some(TokenView::PlusOrMinus) {
        match signed_at(tokens, at + 1) {
            Some((value, more)) => {
                let next = at + 2 + more;
                if kind_at(tokens, next) == Some(TokenView::Percent) {
                    Some(
                        (
                            (
                                ToleranceView::Bilateral { value, unit: None },
                                covering(tokens, at, next + 1),
                            ),
                            more + 2,
                        ),
                    )
                } else {
                    match name_at(tokens, next) {
                        Some(unit) => Some(
                            (
                                (
                                    ToleranceView::Bilateral { value, unit: Some(unit) },
                                    covering(tokens, at, next + 1),
                                ),
                                more + 2,
                            ),
                        ),
                        None => None,
                    }
                }
            },
            None => None,
        }
    } else if kind_at(tokens, at) == Some(TokenView::To) {
        match signed_at(tokens, at + 1) {
            Some((max, more)) => {
                let next = at + 2 + more;
                let unit: nat = if name_at(tokens, next) is Some {
                    1
                } else {
                    0
                };
                Some(
                    (
                        (
                            ToleranceView::Bound { min: zero_text(), max },
                            covering(tokens, at, next + unit),
                        ),
                        more + 1 + unit,
                    ),
                )
            },
            None => None,
        }
    } else {
        None
    }
}

/// The physical value at position `at`: a number, an optional unit and an
/// optional tolerance.
pub open spec fn physical_at(tokens: Tokens, at: int) -> Option<((ExprView, Span), nat)> {
    match signed_at(tokens, at) {
        Some((value, more)) => {
            let after_value = at + 1 + more;
            let unit = name_at(tokens, after_value);
            let after_unit = if unit is Some {
                after_value + 1
            } else {
                after_value
            };
            let tolerance = tolerance_at(tokens, after_unit);
            let next = match tolerance {
                Some((_, t)) => after_unit + 1 + t,
                None => after_unit,
            };
            let span = covering(tokens, at, next);
            Some(
                (
                    (
                        ExprView::Physical(
                            PhysicalView {
                                value,
                                unit,
                                tolerance: match tolerance {
                                    Some((t, _)) => Some(t),
                                    None => None,
                                },
                            },
                            span,
                        ),
                        span,
                    ),
                    (next - at - 1) as nat,
                ),
            )
        },
        None => None,
    }
}

/// The instantiation at position `at`: `new` and a type name.
pub open spec fn new_at(tokens: Tokens, at: int) -> Option<((ExprView, Span), nat)> {
    if kind_at(tokens, at) == Some(TokenView::New) {
        match name_at(tokens, at + 1) {
            Some(name) => Some(((ExprView::New(name), covering(tokens, at, at + 2)), 1nat)),
            None => None,
        }
    } else {
        None
    }
}

/// The parts of a path after `parts` from position `at` on, each after a
/// dot, and how many tokens they take.
pub open spec fn parts_from(tokens: Tokens, at: int, parts: Seq<TextView>) -> (Seq<TextView>, nat)
    decreases
            if tokens.len() - at > 0 {
                tokens.len() - at
            } else {
                0
            },
{
    if 0 <= at && kind_at(tokens, at) == Some(TokenView::Dot) && part_at(tokens, at + 1) is Some {
        let (all, more) = parts_from(tokens, at + 2, parts.push(part_at(tokens, at + 1)->0));
        (all, more + 2)
    } else {
        (parts, 0)
    }
}

/// The path at position `at`: names or numbers with dots between them.
pub open spec fn port_ref_at(tokens: Tokens, at: int) -> Option<((PortRefView, Span), nat)> {
    match part_at(tokens, at) {
        Some(first) => {
            let (parts, more) = parts_from(tokens, at + 1, seq![first]);
            Some(((PortRefView { parts }, covering(tokens, at, at + 1 + more)), more))
        },
        None => None,
    }
}

/// The atom at position `at`: a string, a number, a boolean or a path.
pub open spec fn atom_at(tokens: Tokens, at: int) -> Option<((ExprView, Span), nat)> {
    match kind_at(tokens, at) {
        Some(TokenView::String(s)) => Some(
            ((ExprView::String((s, tokens[at].1)), tokens[at].1), 0nat),
        ),
        Some(TokenView::Number(n)) => Some(
            ((ExprView::Number((n, tokens[at].1)), tokens[at].1), 0nat),
        ),
        Some(TokenView::True) => Some(((ExprView::Bool(true, tokens[at].1), tokens[at].1), 0nat)),
        Some(TokenView::False) => Some(
            ((ExprView::Bool(false, tokens[at].1), tokens[at].1), 0nat),
        ),
        _ => match port_ref_at(tokens, at) {
            Some((port, more)) => Some(((ExprView::Port(port.0, port.1), port.1), more)),
            None => None,
        },
    }
}

/// The operand at position `at`: a physical value, an instantiation or an
/// atom, whichever is found first in that order.
pub open spec fn operand_at(tokens: Tokens, at: int) -> Option<((ExprView, Span), nat)> {
    match physical_at(tokens, at) {
        Some(p) => Some(p),
        None => match new_at(tokens, at) {
            Some(n) => Some(n),
            None => atom_at(tokens, at),
        },
    }
}

/// The binary operator at position `at`.
pub open spec fn operator_at(tokens: Tokens, at: int) -> Option<BinaryOperator> {
    match kind_at(tokens, at) {
        Some(TokenView::Star) => Some(BinaryOperator::Mul),
        Some(TokenView::Plus) => Some(BinaryOperator::Add),
        Some(TokenView::Minus) => Some(BinaryOperator::Sub),
        Some(TokenView::Div) => Some(BinaryOperator::Div),
        Some(TokenView::Eq) => Some(BinaryOperator::Eq),
        Some(TokenView::Gt) => Some(BinaryOperator::Gt),
        Some(TokenView::GtEq) => Some(BinaryOperator::Gte),
        Some(TokenView::Lt) => Some(BinaryOperator::Lt),
        Some(TokenView::LtEq) => Some(BinaryOperator::Lte),
        Some(TokenView::Within) => Some(BinaryOperator::Within),
        _ => None,
    }
}

/// The expression that starts at `start` with `left`, which ends before
/// `at`, and goes on with every operator and operand that follow. All
/// operators bind alike, to the left.
pub open spec fn chain_from(tokens: Tokens, start: int, left: (ExprView, Span), at: int) -> (
    (ExprView, Span),
    int,
)
    decreases
            if tokens.len() - at > 0 {
                tokens.len() - at
            } else {
                0
            },
{
    match operator_at(tokens, at) {
        Some(op) => match operand_at(tokens, at + 1) {
            Some((right, more)) => {
                let next = at + 2 + more;
                let span = covering(tokens, start, next);
                chain_from(
                    tokens,
                    start,
                    (
                        ExprView::BinaryOp(
                            Box::new(BinaryOpView { left, op: (op, tokens[at].1), right }),
                            span,
                        ),
                        span,
                    ),
                    next,
                )
            },
            None => (left, at),
        },
        None => (left, at),
    }
}

/// The expression at position `at`, and how many tokens it has after its
/// first.
pub open spec fn expr_at(tokens: Tokens, at: int) -> Option<((ExprView, Span), nat)> {
    match operand_at(tokens, at) {
        Some((left, more)) => {
            let (whole, next) = chain_from(tokens, at, left, at + 1 + more);
            Some((whole, (next - at - 1) as nat))
        },
        None => None,
    }
}

/// The token at position `at`, if there is one.
fn peek(tokens: &Vec<Spanned<Token>>, at: usize) -> (r: Option<&Token>)
    ensures
        match r {
            Some(t) => at < tokens.len() && kind_at(token_views(tokens@), at as int) == Some(t@)
                && *t == tokens[at as int].0,
            None => at >= tokens.len() && kind_at(token_views(tokens@), at as int) is None,
        },
{
    if at < tokens.len() {
        Some(&tokens[at].0)
    } else {
        None
    }
}

/// The span of the token at position `at`.
fn span_at(tokens: &Vec<Spanned<Token>>, at: usize) -> (r: Span)
    requires
        at < tokens.len(),
    ensures
        r == token_views(tokens@)[at as int].1,
{
    tokens[at].1
}

/// The span from the start of the token at `from` to the end of the token
/// before `to`.
fn cover(tokens: &Vec<Spanned<Token>>, from: usize, to: usize) -> (r: Span)
    requires
        from < to <= tokens.len(),
    ensures
        r == covering(token_views(tokens@), from as int, to as int),
{
    Span { start: tokens[from].1.start, end: tokens[to - 1].1.end }
}

/// The name at position `at`.
fn parse_name(tokens: &Vec<Spanned<Token>>, at: usize) -> (r: Option<Spanned<String>>)
    ensures
        match r {
            Some(n) => at < tokens.len() && name_at(token_views(tokens@), at as int) == Some(
                text_view(n),
            ),
            None => name_at(token_views(tokens@), at as int) is None,
        },
{
    match peek(tokens, at) {
        Some(Token::Name(n)) => Some(Spanned(copy_text(n), span_at(tokens, at))),
        _ => None,
    }
}

/// The number at position `at`.
fn parse_number(tokens: &Vec<Spanned<Token>>, at: usize) -> (r: Option<Spanned<String>>)
    ensures
        match r {
            Some(n) => at < tokens.len() && number_at(token_views(tokens@), at as int) == Some(
                text_view(n),
            ),
            None => number_at(token_views(tokens@), at as int) is None,
        },
{
    match peek(tokens, at) {
        Some(Token::Number(n)) => Some(Spanned(copy_text(n), span_at(tokens, at))),
        _ => None,
    }
}

/// The string at position `at`.
fn parse_string(tokens: &Vec<Spanned<Token>>, at: usize) -> (r: Option<Spanned<String>>)
    ensures
        match r {
            Some(n) => at < tokens.len() && string_at(token_views(tokens@), at as int) == Some(
                text_view(n),
            ),
            None => string_at(token_views(tokens@), at as int) is None,
        },
{
    match peek(tokens, at) {
        Some(Token::String(n)) => Some(Spanned(copy_text(n), span_at(tokens, at))),
        _ => None,
    }
}

/// The name or number at position `at`.
fn parse_part(tokens: &Vec<Spanned<Token>>, at: usize) -> (r: Option<Spanned<String>>)
    ensures
        match r {
            Some(n) => at < tokens.len() && part_at(token_views(tokens@), at as int) == Some(
                text_view(n),
            ),
            None => part_at(token_views(tokens@), at as int) is None,
        },
{
    match parse_name(tokens, at) {
        Some(n) => Some(n),
        None => parse_number(tokens, at),
    }
}

/// The name, number or string at position `at`.
fn parse_word(tokens: &Vec<Spanned<Token>>, at: usize) -> (r: Option<Spanned<String>>)
    ensures
        match r {
            Some(n) => at < tokens.len() && word_at(token_views(tokens@), at as int) == Some(
                text_view(n),
            ),
            None => word_at(token_views(tokens@), at as int) is None,
        },
{
    match parse_part(tokens, at) {
        Some(n) => Some(n),
        None => parse_string(tokens, at),
    }
}

/// Whether the token at position `at` is `token`, which holds no text.
fn is_at(tokens: &Vec<Spanned<Token>>, at: usize, token: &Token) -> (r: bool)
    requires
        !(token is String) && !(token is Number) && !(token is Name) && !(token is Comment),
    ensures
        r == (kind_at(token_views(tokens@), at as int) == Some(token@)),
        r ==> at < tokens.len(),
{
    match peek(tokens, at) {
        Some(found) => same_kind(found, token),
        None => false,
    }
}

/// Whether two tokens are of the same kind, the second of which holds no
/// text.
fn same_kind(a: &Token, b: &Token) -> (r: bool)
    requires
        !(b is String) && !(b is Number) && !(b is Name) && !(b is Comment),
    ensures
        r == (a@ == b@),
{
    match (a, b) {
        (Token::Component, Token::Component) => true,
        (Token::Module, Token::Module) => true,
        (Token::Interface, Token::Interface) => true,
        (Token::Pin, Token::Pin) => true,
        (Token::Signal, Token::Signal) => true,
        (Token::New, Token::New) => true,
        (Token::From, Token::From) => true,
        (Token::Import, Token::Import) => true,
        (Token::Assert, Token::Assert) => true,
        (Token::To, Token::To) => true,
        (Token::Within, Token::Within) => true,
        (Token::Pass, Token::Pass) => true,
        (Token::True, Token::True) => true,
        (Token::False, Token::False) => true,
        (Token::PlusOrMinus, Token::PlusOrMinus) => true,
        (Token::Percent, Token::Percent) => true,
        (Token::Dot, Token::Dot) => true,
        (Token::Star, Token::Star) => true,
        (Token::Plus, Token::Plus) => true,
        (Token::Minus, Token::Minus) => true,
        (Token::Div, Token::Div) => true,
        (Token::Tilde, Token::Tilde) => true,
        (Token::Arrow, Token::Arrow) => true,
        (Token::LParen, Token::LParen) => true,
        (Token::RParen, Token::RParen) => true,
        (Token::LBrack, Token::LBrack) => true,
        (Token::RBrack, Token::RBrack) => true,
        (Token::LBrace, Token::LBrace) => true,
        (Token::RBrace, Token::RBrace) => true,
        (Token::Colon, Token::Colon) => true,
        (Token::Semicolon, Token::Semicolon) => true,
        (Token::Comma, Token::Comma) => true,
        (Token::Equals, Token::Equals) => true,
        (Token::PlusEquals, Token::PlusEquals) => true,
        (Token::MinusEquals, Token::MinusEquals) => true,
        (Token::OrEquals, Token::OrEquals) => true,
        (Token::AndEquals, Token::AndEquals) => true,
        (Token::Eq, Token::Eq) => true,
        (Token::Lt, Token::Lt) => true,
        (Token::Gt, Token::Gt) => true,
        (Token::LtEq, Token::LtEq) => true,
        (Token::GtEq, Token::GtEq) => true,
        (Token::MultiCommentStart, Token::MultiCommentStart) => true,
        (Token::MultiCommentEnd, Token::MultiCommentEnd) => true,
        (Token::Indent, Token::Indent) => true,
        (Token::Dedent, Token::Dedent) => true,
        (Token::Newline, Token::Newline) => true,
        _ => false,
    }
}

/// The number at position `at`, with a minus sign before it or without,
/// and the position after it.
fn parse_signed(tokens: &Vec<Spanned<Token>>, at: usize) -> (r: Option<(Spanned<String>, usize)>)
    ensures
        match r {
            Some((n, next)) => at < next <= tokens.len() && signed_at(
                token_views(tokens@),
                at as int,
            ) == Some((text_view(n), (next - at - 1) as nat)),
            None => signed_at(token_views(tokens@), at as int) is None,
        },
{
    if is_at(tokens, at, &Token::Minus) {
        match parse_number(tokens, at + 1) {
            Some(n) => {
                let start = if n.1.start > 0 {
                    n.1.start - 1
                } else {
                    0
                };
                let value = concat_text(owned_text("-"), n.0.as_str());
                Some((Spanned(value, Span { start, end: n.1.end }), at + 2))
            },
            None => None,
        }
    } else {
        match parse_number(tokens, at) {
            Some(n) => Some((n, at + 1)),
            None => None,
        }
    }
}

/// The tolerance at position `at`, and the position after it.
fn parse_tolerance(tokens: &Vec<Spanned<Token>>, at: usize) -> (r: Option<
    (Spanned<Tolerance>, usize),
>)
    ensures
        match r {
            Some((t, next)) => at < next <= tokens.len() && tolerance_at(
                token_views(tokens@),
                at as int,
            ) == Some(((tolerance_view(t.0), t.1), (next - at - 1) as nat)),
            None => tolerance_at(token_views(tokens@), at as int) is None,
        },
{
    if is_at(tokens, at, &Token::PlusOrMinus) {
        match parse_signed(tokens, at + 1) {
            Some((value, next)) => {
                if is_at(tokens, next, &Token::Percent) {
                    Some(
                        (
                            Spanned(
                                Tolerance::Bilateral { value, unit: None },
                                cover(tokens, at, next + 1),
                            ),
                            next + 1,
                        ),
                    )
                } else {
                    match parse_name(tokens, next) {
                        Some(unit) => Some(
                            (
                                Spanned(
                                    Tolerance::Bilateral { value, unit: Some(unit) },
                                    cover(tokens, at, next + 1),
                                ),
                                next + 1,
                            ),
                        ),
                        None => None,
                    }
                }
            },
            None => None,
        }
    } else if is_at(tokens, at, &Token::To) {
        match parse_signed(tokens, at + 1) {
            Some((max, next)) => {
                let after = match parse_name(tokens, next) {
                    Some(_) => next + 1,
                    None => next,
                };
                let min = Spanned(owned_text("0"), Span { start: 0, end: 0 });
                Some((Spanned(Tolerance::Bound { min, max }, cover(tokens, at, after)), after))
            },
            None => None,
        }
    } else {
        None
    }
}

/// The physical value at position `at`, and the position after it.
fn parse_physical(tokens: &Vec<Spanned<Token>>, at: usize) -> (r: Option<(Spanned<Expr>, usize)>)
    ensures
        match r {
            Some((e, next)) => at < next <= tokens.len() && physical_at(
                token_views(tokens@),
                at as int,
            ) == Some((spanned_expr(e), (next - at - 1) as nat)),
            None => physical_at(token_views(tokens@), at as int) is None,
        },
{
    match parse_signed(tokens, at) {
        Some((value, after_value)) => {
            let unit = parse_name(tokens, after_value);
            let after_unit = match &unit {
                Some(_) => after_value + 1,
                None => after_value,
            };
            let (tolerance, next) = match parse_tolerance(tokens, after_unit) {
                Some((t, n)) => (Some(t), n),
                None => (None, after_unit),
            };
            let span = cover(tokens, at, next);
            Some(
                (
                    Spanned(
                        Expr::Physical(Spanned(PhysicalValue { value, unit, tolerance }, span)),
                        span,
                    ),
                    next,
                ),
            )
        },
        None => None,
    }
}

/// The instantiation at position `at`, and the position after it.
fn parse_new(tokens: &Vec<Spanned<Token>>, at: usize) -> (r: Option<(Spanned<Expr>, usize)>)
    ensures
        match r {
            Some((e, next)) => at < next <= tokens.len() && new_at(token_views(tokens@), at as int)
                == Some((spanned_expr(e), (next - at - 1) as nat)),
            None => new_at(token_views(tokens@), at as int) is None,
        },
{
    if is_at(tokens, at, &Token::New) {
        match parse_name(tokens, at + 1) {
            Some(name) => Some(
                (
                    Spanned(
                        Expr::New(Spanned(Symbol(name.0), name.1)),
                        cover(tokens, at, at + 2),
                    ),
                    at + 2,
                ),
            ),
            None => None,
        }
    } else {
        None
    }
}

/// The path at position `at`, and the position after it.
fn parse_port_ref(tokens: &Vec<Spanned<Token>>, at: usize) -> (r: Option<(Spanned<PortRef>, usize)>)
    ensures
        match r {
            Some((p, next)) => at < next <= tokens.len() && port_ref_at(
                token_views(tokens@),
                at as int,
            ) == Some(((port_ref_view(p.0), p.1), (next - at - 1) as nat)),
            None => port_ref_at(token_views(tokens@), at as int) is None,
        },
{
    let ghost views = token_views(tokens@);
    let first = match parse_part(tokens, at) {
        Some(p) => p,
        None => {
            return None;
        },
    };
    let mut parts: Vec<Spanned<String>> = Vec::new();
    parts.push(first);
    let mut next: usize = at + 1;
    assert(parts@.map_values(|s: Spanned<String>| text_view(s)) =~= seq![text_view(first)]);
    loop
        invariant
            at < next <= tokens.len(),
            views == token_views(tokens@),
            part_at(views, at as int) == Some(text_view(first)),
            parts_from(views, at + 1, seq![text_view(first)]).0 == parts_from(
                views,
                next as int,
                parts@.map_values(|s: Spanned<String>| text_view(s)),
            ).0,
            parts_from(views, at + 1, seq![text_view(first)]).1 == (next - at - 1) + parts_from(
                views,
                next as int,
                parts@.map_values(|s: Spanned<String>| text_view(s)),
            ).1,
        ensures
            parts_from(views, next as int, parts@.map_values(|s: Spanned<String>| text_view(s)))
                == (parts@.map_values(|s: Spanned<String>| text_view(s)), 0nat),
        decreases tokens.len() - next,
    {
        if !is_at(tokens, next, &Token::Dot) {
            break ;
        }
        match parse_part(tokens, next + 1) {
            Some(part) => {
                let ghost before = parts@.map_values(|s: Spanned<String>| text_view(s));
                parts.push(part);
                assert(parts@.map_values(|s: Spanned<String>| text_view(s)) =~= before.push(
                    text_view(part),
                ));
                next = next + 2;
            },
            None => {
                break ;
            },
        }
    }
    Some((Spanned(PortRef { parts }, cover(tokens, at, next)), next))
}

/// The atom at position `at`, and the position after it.
fn parse_atom(tokens: &Vec<Spanned<Token>>, at: usize) -> (r: Option<(Spanned<Expr>, usize)>)
    ensures
        match r {
            Some((e, next)) => at < next <= tokens.len() && atom_at(
                token_views(tokens@),
                at as int,
            ) == Some((spanned_expr(e), (next - at - 1) as nat)),
            None => atom_at(token_views(tokens@), at as int) is None,
        },
{
    match peek(tokens, at) {
        Some(Token::String(s)) => {
            let span = span_at(tokens, at);
            Some((Spanned(Expr::String(Spanned(copy_text(s), span)), span), at + 1))
        },
        Some(Token::Number(n)) => {
            let span = span_at(tokens, at);
            Some((Spanned(Expr::Number(Spanned(copy_text(n), span)), span), at + 1))
        },
        Some(Token::True) => {
            let span = span_at(tokens, at);
            Some((Spanned(Expr::Bool(Spanned(true, span)), span), at + 1))
        },
        Some(Token::False) => {
            let span = span_at(tokens, at);
            Some((Spanned(Expr::Bool(Spanned(false, span)), span), at + 1))
        },
        _ => match parse_port_ref(tokens, at) {
            Some((port, next)) => {
                let span = port.1;
                Some((Spanned(Expr::Port(port), span), next))
            },
            None => None,
        },
    }
}

/// The operand at position `at`, and the position after it.
fn parse_operand(tokens: &Vec<Spanned<Token>>, at: usize) -> (r: Option<(Spanned<Expr>, usize)>)
    ensures
        match r {
            Some((e, next)) => at < next <= tokens.len() && operand_at(
                token_views(tokens@),
                at as int,
            ) == Some((spanned_expr(e), (next - at - 1) as nat)),
            None => operand_at(token_views(tokens@), at as int) is None,
        },
{
    match parse_physical(tokens, at) {
        Some(p) => Some(p),
        None => match parse_new(tokens, at) {
            Some(n) => Some(n),
            None => parse_atom(tokens, at),
        },
    }
}

/// The binary operator at position `at`.
fn parse_operator(tokens: &Vec<Spanned<Token>>, at: usize) -> (r: Option<BinaryOperator>)
    ensures
        r == operator_at(token_views(tokens@), at as int),
        r is Some ==> at < tokens.len(),
{
    match peek(tokens, at) {
        Some(Token::Star) => Some(BinaryOperator::Mul),
        Some(Token::Plus) => Some(BinaryOperator::Add),
        Some(Token::Minus) => Some(BinaryOperator::Sub),
        Some(Token::Div) => Some(BinaryOperator::Div),
        Some(Token::Eq) => Some(BinaryOperator::Eq),
        Some(Token::Gt) => Some(BinaryOperator::Gt),
        Some(Token::GtEq) => Some(BinaryOperator::Gte),
        Some(Token::Lt) => Some(BinaryOperator::Lt),
        Some(Token::LtEq) => Some(BinaryOperator::Lte),
        Some(Token::Within) => Some(BinaryOperator::Within),
        _ => None,
    }
}

/// The expression at position `at`, and the position after it.
fn parse_expr(tokens: &Vec<Spanned<Token>>, at: usize) -> (r: Option<(Spanned<Expr>, usize)>)
    ensures
        match r {
            Some((e, next)) => at < next <= tokens.len() && expr_at(
                token_views(tokens@),
                at as int,
            ) == Some((spanned_expr(e), (next - at - 1) as nat)),
            None => expr_at(token_views(tokens@), at as int) is None,
        },
{
    let ghost views = token_views(tokens@);
    let (first, after) = match parse_operand(tokens, at) {
        Some(found) => found,
        None => {
            return None;
        },
    };
    let ghost start = spanned_expr(first);
    let mut left = first;
    let mut next = after;
    loop
        invariant
            at < next <= tokens.len(),
            at < after,
            views == token_views(tokens@),
            chain_from(views, at as int, start, after as int) == chain_from(
                views,
                at as int,
                spanned_expr(left),
                next as int,
            ),
        ensures
            chain_from(views, at as int, spanned_expr(left), next as int) == (
                spanned_expr(left),
                next as int,
            ),
        decreases tokens.len() - next,
    {
        let op = match parse_operator(tokens, next) {
            Some(op) => op,
            None => {
                break ;
            },
        };
        match parse_operand(tokens, next + 1) {
            Some((right, end)) => {
                let span = cover(tokens, at, end);
                let op_span = span_at(tokens, next);
                left = Spanned(
                    Expr::BinaryOp(
                        Box::new(Spanned(BinaryOp { left, op: Spanned(op, op_span), right }, span)),
                    ),
                    span,
                );
                next = end;
            },
            None => {
                break ;
            },
        }
    }
    Some((left, next))
}

/// The assertion at position `at`: `assert` and an expression.
pub open spec fn assert_at(tokens: Tokens, at: int) -> Option<(StmtView, nat)> {
    if kind_at(tokens, at) == Some(TokenView::Assert) {
        match expr_at(tokens, at + 1) {
            Some((expr, more)) => Some((StmtView::Assert(expr), more + 1)),
            None => None,
        }
    } else {
        None
    }
}

/// The specialization at position `at`: a path, an arrow and a type name.
pub open spec fn specialize_at(tokens: Tokens, at: int) -> Option<(StmtView, nat)> {
    match port_ref_at(tokens, at) {
        Some((port, more)) => {
            let arrow = at + 1 + more;
            if kind_at(tokens, arrow) == Some(TokenView::Arrow) {
                match name_at(tokens, arrow + 1) {
                    Some(value) => Some((StmtView::Specialize { port, value }, more + 2)),
                    None => None,
                }
            } else {
                None
            }
        },
        None => None,
    }
}

/// The assignment at position `at`: a path, an optional colon and type, an
/// equals sign and an expression.
pub open spec fn assign_at(tokens: Tokens, at: int) -> Option<(StmtView, nat)> {
    match port_ref_at(tokens, at) {
        Some((target, more)) => {
            let after = at + 1 + more;
            let typed = kind_at(tokens, after) == Some(TokenView::Colon) && name_at(
                tokens,
                after + 1,
            ) is Some;
            let type_info = if typed {
                name_at(tokens, after + 1)
            } else {
                None
            };
            let equals = if typed {
                after + 2
            } else {
                after
            };
            if kind_at(tokens, equals) == Some(TokenView::Equals) {
                match expr_at(tokens, equals + 1) {
                    Some((value, rest)) => Some(
                        (
                            StmtView::Assign { target, type_info, value },
                            (equals + 1 + rest - at) as nat,
                        ),
                    ),
                    None => None,
                }
            } else {
                None
            }
        },
        None => None,
    }
}

/// The attribute at position `at`: a name, a colon and a type name.
pub open spec fn attribute_at(tokens: Tokens, at: int) -> Option<(StmtView, nat)> {
    match name_at(tokens, at) {
        Some(name) => if kind_at(tokens, at + 1) == Some(TokenView::Colon) {
            match name_at(tokens, at + 2) {
                Some(type_info) => Some((StmtView::Attribute { name, type_info }, 2nat)),
                None => None,
            }
        } else {
            None
        },
        None => None,
    }
}

/// One side of a connection at position `at`: `pin` and what it is called,
/// a path, or `signal` and what it is called.
pub open spec fn connectable_at(tokens: Tokens, at: int) -> Option<((ConnectableView, Span), nat)> {
    if kind_at(tokens, at) == Some(TokenView::Pin) {
        match word_at(tokens, at + 1) {
            Some(word) => Some(((ConnectableView::Pin(word), covering(tokens, at, at + 2)), 1nat)),
            None => None,
        }
    } else if kind_at(tokens, at) == Some(TokenView::Signal) {
        match word_at(tokens, at + 1) {
            Some(word) => Some(
                ((ConnectableView::Signal(word), covering(tokens, at, at + 2)), 1nat),
            ),
            None => None,
        }
    } else {
        match port_ref_at(tokens, at) {
            Some((port, more)) => Some(((ConnectableView::Port(port.0, port.1), port.1), more)),
            None => None,
        }
    }
}

/// The connection at position `at`: two sides with a tilde between them.
pub open spec fn connect_at(tokens: Tokens, at: int) -> Option<(StmtView, nat)> {
    match connectable_at(tokens, at) {
        Some((left, more)) => {
            let tilde = at + 1 + more;
            if kind_at(tokens, tilde) == Some(TokenView::Tilde) {
                match connectable_at(tokens, tilde + 1) {
                    Some((right, rest)) => Some(
                        (StmtView::Connect { left, right }, more + 2 + rest),
                    ),
                    None => None,
                }
            } else {
                None
            }
        },
        None => None,
    }
}

/// The signal declaration at position `at`.
pub open spec fn signal_at(tokens: Tokens, at: int) -> Option<(StmtView, nat)> {
    if kind_at(tokens, at) == Some(TokenView::Signal) {
        match name_at(tokens, at + 1) {
            Some(name) => Some((StmtView::Signal(name), 1nat)),
            None => None,
        }
    } else {
        None
    }
}

/// The pin declaration at position `at`.
pub open spec fn pin_at(tokens: Tokens, at: int) -> Option<(StmtView, nat)> {
    if kind_at(tokens, at) == Some(TokenView::Pin) {
        match word_at(tokens, at + 1) {
            Some(name) => Some((StmtView::Pin(name), 1nat)),
            None => None,
        }
    } else {
        None
    }
}

/// The comment at position `at`.
pub open spec fn comment_at(tokens: Tokens, at: int) -> Option<(StmtView, nat)> {
    match kind_at(tokens, at) {
        Some(TokenView::Comment(c)) => Some((StmtView::Comment((c, tokens[at].1)), 0nat)),
        _ => None,
    }
}

/// The statement of a block at position `at`: the first that is found of
/// assertion, specialization, assignment, attribute, connection, signal,
/// pin, `pass` and comment.
#[verifier::opaque]
pub open spec fn block_stmt_at(tokens: Tokens, at: int) -> Option<(StmtView, nat)> {
    if assert_at(tokens, at) is Some {
        assert_at(tokens, at)
    } else if specialize_at(tokens, at) is Some {
        specialize_at(tokens, at)
    } else if assign_at(tokens, at) is Some {
        assign_at(tokens, at)
    } else if attribute_at(tokens, at) is Some {
        attribute_at(tokens, at)
    } else if connect_at(tokens, at) is Some {
        connect_at(tokens, at)
    } else if signal_at(tokens, at) is Some {
        signal_at(tokens, at)
    } else if pin_at(tokens, at) is Some {
        pin_at(tokens, at)
    } else if kind_at(tokens, at) == Some(TokenView::Pass) {
        Some((StmtView::Pass, 0nat))
    } else {
        comment_at(tokens, at)
    }
}

/// The names after `names` from position `at` on, each after a comma, and
/// how many tokens they take.
pub open spec fn names_from(tokens: Tokens, at: int, names: Seq<TextView>) -> (Seq<TextView>, nat)
    decreases
            if tokens.len() - at > 0 {
                tokens.len() - at
            } else {
                0
            },
{
    if 0 <= at && kind_at(tokens, at) == Some(TokenView::Comma) && name_at(tokens, at + 1) is Some {
        let (all, more) = names_from(tokens, at + 2, names.push(name_at(tokens, at + 1)->0));
        (all, more + 2)
    } else {
        (names, 0)
    }
}

/// The import at position `at`: `from`, a path, `import` and names with
/// commas between them.
pub open spec fn import_at(tokens: Tokens, at: int) -> Option<(StmtView, nat)> {
    if kind_at(tokens, at) == Some(TokenView::From) {
        match string_at(tokens, at + 1) {
            Some(from_path) => if kind_at(tokens, at + 2) == Some(TokenView::Import) {
                match name_at(tokens, at + 3) {
                    Some(first) => {
                        let (imports, more) = names_from(tokens, at + 4, seq![first]);
                        Some((StmtView::Import { from_path, imports }, more + 3))
                    },
                    None => Some(
                        (StmtView::Import { from_path, imports: Seq::empty() }, 2nat),
                    ),
                }
            } else {
                None
            },
            None => None,
        }
    } else {
        None
    }
}

/// The import of one name at position `at`: `import`, a name, `from` and a
/// path.
pub open spec fn dep_import_at(tokens: Tokens, at: int) -> Option<(StmtView, nat)> {
    if kind_at(tokens, at) == Some(TokenView::Import) {
        match name_at(tokens, at + 1) {
            Some(name) => if kind_at(tokens, at + 2) == Some(TokenView::From) {
                match string_at(tokens, at + 3) {
                    Some(from_path) => Some((StmtView::DepImport { name, from_path }, 3nat)),
                    None => None,
                }
            } else {
                None
            },
            None => None,
        }
    } else {
        None
    }
}

/// The top-level statement at position `at`: an import or a comment.
#[verifier::opaque]
pub open spec fn top_stmt_at(tokens: Tokens, at: int) -> Option<(StmtView, nat)> {
    if import_at(tokens, at) is Some {
        import_at(tokens, at)
    } else if dep_import_at(tokens, at) is Some {
        dep_import_at(tokens, at)
    } else {
        comment_at(tokens, at)
    }
}

/// A block that is being read: its header and the statements read so far.
pub struct OpenBlock {
    pub kind: (BlockKind, Span),
    pub name: TextView,
    pub parent: Option<TextView>,
    pub body: Seq<(StmtView, Span)>,
}

/// The block kind at position `at`.
pub open spec fn block_kind_at(tokens: Tokens, at: int) -> Option<BlockKind> {
    match kind_at(tokens, at) {
        Some(TokenView::Component) => Some(BlockKind::Component),
        Some(TokenView::Module) => Some(BlockKind::Module),
        Some(TokenView::Interface) => Some(BlockKind::Interface),
        _ => None,
    }
}

/// The header of a block at position `at`: a kind, a name, an optional
/// `from` with the name of the parent, and a colon.
#[verifier::opaque]
pub open spec fn header_at(tokens: Tokens, at: int) -> Option<(OpenBlock, nat)> {
    match block_kind_at(tokens, at) {
        Some(kind) => match name_at(tokens, at + 1) {
            Some(name) => {
                let inherits = kind_at(tokens, at + 2) == Some(TokenView::From) && name_at(
                    tokens,
                    at + 3,
                ) is Some;
                let colon = if inherits {
                    at + 4
                } else {
                    at + 2
                };
                if kind_at(tokens, colon) == Some(TokenView::Colon) {
                    Some(
                        (
                            OpenBlock {
                                kind: (kind, tokens[at].1),
                                name,
                                parent: if inherits {
                                    name_at(tokens, at + 3)
                                } else {
                                    None
                                },
                                body: Seq::empty(),
                            },
                            (colon - at) as nat,
                        ),
                    )
                } else {
                    None
                }
            },
            None => None,
        },
        None => None,
    }
}

/// Whether the token at position `at` separates statements: a line break
/// or a semicolon.
pub open spec fn separates(tokens: Tokens, at: int) -> bool {
    kind_at(tokens, at) == Some(TokenView::Newline) || kind_at(tokens, at) == Some(
        TokenView::Semicolon,
    )
}

/// How many separators stand at position `at`.
pub open spec fn separators_from(tokens: Tokens, at: int) -> nat
    decreases
            if tokens.len() - at > 0 {
                tokens.len() - at
            } else {
                0
            },
{
    if 0 <= at && separates(tokens, at) {
        1 + separators_from(tokens, at + 1)
    } else {
        0
    }
}

/// How many line breaks stand at position `at`.
pub open spec fn newlines_from(tokens: Tokens, at: int) -> nat
    decreases
            if tokens.len() - at > 0 {
                tokens.len() - at
            } else {
                0
            },
{
    if 0 <= at && kind_at(tokens, at) == Some(TokenView::Newline) {
        1 + newlines_from(tokens, at + 1)
    } else {
        0
    }
}

/// How many tokens stand at position `at` before the next separator or the
/// end.
pub open spec fn statement_rest(tokens: Tokens, at: int) -> nat
    decreases
            if tokens.len() - at > 0 {
                tokens.len() - at
            } else {
                0
            },
{
    if 0 <= at < tokens.len() && !separates(tokens, at) {
        1 + statement_rest(tokens, at + 1)
    } else {
        0
    }
}

/// The span of what was read from position `from` up to position `to`:
/// from the start of the token at `from` to the end of the last token read,
/// and the number of tokens at both ends where no token is left at `from`.
pub open spec fn since(tokens: Tokens, from: int, to: int) -> Span {
    if 0 <= from < tokens.len() {
        Span {
            start: tokens[from].1.start,
            end: if 1 <= to <= tokens.len() {
                tokens[to - 1].1.end
            } else {
                tokens.len() as usize
            },
        }
    } else {
        Span { start: tokens.len() as usize, end: tokens.len() as usize }
    }
}

/// The statement that stands for what is no statement.
pub open spec fn error_stmt(message: Seq<char>, span: Span) -> (StmtView, Span) {
    (StmtView::ParseError(message), span)
}

/// The block as a statement.
pub open spec fn closed_block(block: OpenBlock, span: Span) -> (StmtView, Span) {
    (
        StmtView::Block(
            BlockView { kind: block.kind, name: block.name, parent: block.parent, body: block.body },
        ),
        span,
    )
}

/// The statements after reading, from position `at` on, the statements of
/// a block that stands on the line of its header, with semicolons between
/// them; and how many tokens that takes. `from` is the position after the
/// header.
pub open spec fn single_line(
    tokens: Tokens,
    at: int,
    from: int,
    block: OpenBlock,
    ast: Seq<(StmtView, Span)>,
) -> (Seq<(StmtView, Span)>, nat)
    decreases
            if tokens.len() - at > 0 {
                tokens.len() - at
            } else {
                0
            },
{
    let (block1, ast1, used): (OpenBlock, Seq<(StmtView, Span)>, nat) = match block_stmt_at(
        tokens,
        at,
    ) {
        Some((stmt, more)) => (
            OpenBlock { body: block.body.push((stmt, covering(tokens, at, at + 1 + more))), ..block },
            ast,
            more + 1,
        ),
        None => {
            let rest = statement_rest(tokens, at);
            (block, ast.push(error_stmt("syntax error"@, since(tokens, at, at + rest))), rest)
        },
    };
    let next = at + used;
    if 0 <= at && kind_at(tokens, next) == Some(TokenView::Semicolon) {
        let (all, more) = single_line(tokens, next + 1, from, block1, ast1);
        (all, used + 1 + more)
    } else {
        (ast1.push(closed_block(block1, since(tokens, from, next))), used)
    }
}

/// The statements after reading the tokens from position `at` on, with
/// `ast` read before and `open` the block that is being read, if any, with
/// the position at which it starts.
pub open spec fn driven(
    tokens: Tokens,
    at: int,
    ast: Seq<(StmtView, Span)>,
    open: Option<(OpenBlock, int)>,
) -> Seq<(StmtView, Span)>
    decreases
            if tokens.len() - at > 0 {
                tokens.len() - at
            } else {
                0
            },
{
    if at < 0 || at >= tokens.len() {
        match open {
            Some((block, start)) => ast.push(closed_block(block, since(tokens, start, at))),
            None => ast,
        }
    } else {
        let p = at + separators_from(tokens, at);
        let skipped = if p < tokens.len() {
            p + 1 + statement_rest(tokens, p + 1)
        } else {
            p
        };
        match open {
            Some((block, start)) => match block_stmt_at(tokens, p) {
                Some((stmt, more)) => driven(
                    tokens,
                    p + 1 + more,
                    ast,
                    Some(
                        (
                            OpenBlock {
                                body: block.body.push((stmt, covering(tokens, p, p + 1 + more))),
                                ..block
                            },
                            start,
                        ),
                    ),
                ),
                None => if kind_at(tokens, p) == Some(TokenView::Dedent) {
                    driven(
                        tokens,
                        p + 1,
                        ast.push(closed_block(block, since(tokens, start, p + 1))),
                        None,
                    )
                } else {
                    driven(
                        tokens,
                        skipped,
                        ast.push(error_stmt("syntax error"@, since(tokens, p, skipped))),
                        open,
                    )
                },
            },
            None => match top_stmt_at(tokens, p) {
                Some((stmt, more)) => driven(
                    tokens,
                    p + 1 + more,
                    ast.push((stmt, covering(tokens, p, p + 1 + more))),
                    None,
                ),
                None => match header_at(tokens, p) {
                    Some((block, more)) => {
                        let after = p + 1 + more;
                        let lines = newlines_from(tokens, after);
                        if lines > 0 {
                            if kind_at(tokens, after + lines) == Some(TokenView::Indent) {
                                driven(tokens, after + lines + 1, ast, Some((block, p)))
                            } else {
                                driven(
                                    tokens,
                                    after + lines,
                                    ast.push(
                                        error_stmt(
                                            "syntax error: expected indent after block header"@,
                                            since(tokens, p, after + lines),
                                        ),
                                    ),
                                    None,
                                )
                            }
                        } else {
                            let (all, used) = single_line(tokens, after, after, block, ast);
                            driven(tokens, after + used, all, None)
                        }
                    },
                    None => driven(
                        tokens,
                        skipped,
                        ast.push(
                            error_stmt(
                                "syntax error: unexpected top-level statement"@,
                                since(tokens, p, skipped),
                            ),
                        ),
                        None,
                    ),
                },
            },
        }
    }
}

/// The statements of a text with the tokens `tokens`.
pub open spec fn parsed(tokens: Tokens) -> Seq<(StmtView, Span)> {
    driven(tokens, 0, Seq::empty(), None)
}

/// A symbol with the text and the span of a spanned string.
fn as_symbol(s: Spanned<String>) -> (r: Spanned<Symbol>)
    ensures
        crate::syntax::symbol_view(r) == text_view(s),
{
    Spanned(Symbol(s.0), s.1)
}

/// The assertion at position `at`, and the position after it.
fn parse_assert(tokens: &Vec<Spanned<Token>>, at: usize) -> (r: Option<(Stmt, usize)>)
    ensures
        match r {
            Some((stmt, next)) => at < next <= tokens.len() && assert_at(
                token_views(tokens@),
                at as int,
            ) == Some((stmt_view(stmt), (next - at - 1) as nat)),
            None => assert_at(token_views(tokens@), at as int) is None,
        },
{
    if is_at(tokens, at, &Token::Assert) {
        match parse_expr(tokens, at + 1) {
            Some((expr, next)) => Some((Stmt::Assert(AssertStmt { expr }), next)),
            None => None,
        }
    } else {
        None
    }
}

/// The specialization at position `at`, and the position after it.
fn parse_specialize(tokens: &Vec<Spanned<Token>>, at: usize) -> (r: Option<(Stmt, usize)>)
    ensures
        match r {
            Some((stmt, next)) => at < next <= tokens.len() && specialize_at(
                token_views(tokens@),
                at as int,
            ) == Some((stmt_view(stmt), (next - at - 1) as nat)),
            None => specialize_at(token_views(tokens@), at as int) is None,
        },
{
    match parse_port_ref(tokens, at) {
        Some((port, arrow)) => {
            if is_at(tokens, arrow, &Token::Arrow) {
                match parse_name(tokens, arrow + 1) {
                    Some(value) => Some(
                        (
                            Stmt::Specialize(SpecializeStmt { port, value: as_symbol(value) }),
                            arrow + 2,
                        ),
                    ),
                    None => None,
                }
            } else {
                None
            }
        },
        None => None,
    }
}

/// The assignment at position `at`, and the position after it.
fn parse_assign(tokens: &Vec<Spanned<Token>>, at: usize) -> (r: Option<(Stmt, usize)>)
    ensures
        match r {
            Some((stmt, next)) => at < next <= tokens.len() && assign_at(
                token_views(tokens@),
                at as int,
            ) == Some((stmt_view(stmt), (next - at - 1) as nat)),
            None => assign_at(token_views(tokens@), at as int) is None,
        },
{
    match parse_port_ref(tokens, at) {
        Some((target, after)) => {
            let type_info = if is_at(tokens, after, &Token::Colon) {
                parse_name(tokens, after + 1)
            } else {
                None
            };
            let equals = match &type_info {
                Some(_) => after + 2,
                None => after,
            };
            if is_at(tokens, equals, &Token::Equals) {
                match parse_expr(tokens, equals + 1) {
                    Some((value, next)) => Some(
                        (Stmt::Assign(AssignStmt { target, type_info, value }), next),
                    ),
                    None => None,
                }
            } else {
                None
            }
        },
        None => None,
    }
}

/// The attribute at position `at`, and the position after it.
fn parse_attribute(tokens: &Vec<Spanned<Token>>, at: usize) -> (r: Option<(Stmt, usize)>)
    ensures
        match r {
            Some((stmt, next)) => at < next <= tokens.len() && attribute_at(
                token_views(tokens@),
                at as int,
            ) == Some((stmt_view(stmt), (next - at - 1) as nat)),
            None => attribute_at(token_views(tokens@), at as int) is None,
        },
{
    match parse_name(tokens, at) {
        Some(name) => if is_at(tokens, at + 1, &Token::Colon) {
            match parse_name(tokens, at + 2) {
                Some(type_info) => Some(
                    (
                        Stmt::Attribute(
                            AttributeStmt {
                                name: as_symbol(name),
                                type_info: as_symbol(type_info),
                            },
                        ),
                        at + 3,
                    ),
                ),
                None => None,
            }
        } else {
            None
        },
        None => None,
    }
}

/// One side of a connection at position `at`, and the position after it.
fn parse_connectable(tokens: &Vec<Spanned<Token>>, at: usize) -> (r: Option<
    (Spanned<Connectable>, usize),
>)
    ensures
        match r {
            Some((c, next)) => at < next <= tokens.len() && connectable_at(
                token_views(tokens@),
                at as int,
            ) == Some(((connectable_view(c.0), c.1), (next - at - 1) as nat)),
            None => connectable_at(token_views(tokens@), at as int) is None,
        },
{
    if is_at(tokens, at, &Token::Pin) {
        match parse_word(tokens, at + 1) {
            Some(word) => Some(
                (Spanned(Connectable::Pin(word), cover(tokens, at, at + 2)), at + 2),
            ),
            None => None,
        }
    } else if is_at(tokens, at, &Token::Signal) {
        match parse_word(tokens, at + 1) {
            Some(word) => Some(
                (Spanned(Connectable::Signal(word), cover(tokens, at, at + 2)), at + 2),
            ),
            None => None,
        }
    } else {
        match parse_port_ref(tokens, at) {
            Some((port, next)) => {
                let span = port.1;
                Some((Spanned(Connectable::Port(port), span), next))
            },
            None => None,
        }
    }
}

/// The connection at position `at`, and the position after it.
fn parse_connect(tokens: &Vec<Spanned<Token>>, at: usize) -> (r: Option<(Stmt, usize)>)
    ensures
        match r {
            Some((stmt, next)) => at < next <= tokens.len() && connect_at(
                token_views(tokens@),
                at as int,
            ) == Some((stmt_view(stmt), (next - at - 1) as nat)),
            None => connect_at(token_views(tokens@), at as int) is None,
        },
{
    match parse_connectable(tokens, at) {
        Some((left, tilde)) => {
            if is_at(tokens, tilde, &Token::Tilde) {
                match parse_connectable(tokens, tilde + 1) {
                    Some((right, next)) => Some(
                        (Stmt::Connect(ConnectStmt { left, right }), next),
                    ),
                    None => None,
                }
            } else {
                None
            }
        },
        None => None,
    }
}

/// The signal declaration at position `at`, and the position after it.
fn parse_signal(tokens: &Vec<Spanned<Token>>, at: usize) -> (r: Option<(Stmt, usize)>)
    ensures
        match r {
            Some((stmt, next)) => at < next <= tokens.len() && signal_at(
                token_views(tokens@),
                at as int,
            ) == Some((stmt_view(stmt), (next - at - 1) as nat)),
            None => signal_at(token_views(tokens@), at as int) is None,
        },
{
    if is_at(tokens, at, &Token::Signal) {
        match parse_name(tokens, at + 1) {
            Some(name) => Some((Stmt::Signal(SignalStmt { name: as_symbol(name) }), at + 2)),
            None => None,
        }
    } else {
        None
    }
}

/// The pin declaration at position `at`, and the position after it.
fn parse_pin(tokens: &Vec<Spanned<Token>>, at: usize) -> (r: Option<(Stmt, usize)>)
    ensures
        match r {
            Some((stmt, next)) => at < next <= tokens.len() && pin_at(
                token_views(tokens@),
                at as int,
            ) == Some((stmt_view(stmt), (next - at - 1) as nat)),
            None => pin_at(token_views(tokens@), at as int) is None,
        },
{
    if is_at(tokens, at, &Token::Pin) {
        match parse_word(tokens, at + 1) {
            Some(name) => Some((Stmt::Pin(PinStmt { name: as_symbol(name) }), at + 2)),
            None => None,
        }
    } else {
        None
    }
}

/// The comment at position `at`, and the position after it.
fn parse_comment(tokens: &Vec<Spanned<Token>>, at: usize) -> (r: Option<(Stmt, usize)>)
    ensures
        match r {
            Some((stmt, next)) => at < next <= tokens.len() && comment_at(
                token_views(tokens@),
                at as int,
            ) == Some((stmt_view(stmt), (next - at - 1) as nat)),
            None => comment_at(token_views(tokens@), at as int) is None,
        },
{
    match peek(tokens, at) {
        Some(Token::Comment(c)) => Some(
            (
                Stmt::Comment(CommentStmt { comment: Spanned(copy_text(c), span_at(tokens, at)) }),
                at + 1,
            ),
        ),
        _ => None,
    }
}

/// The statement of a block at position `at`, and the position after it.
fn parse_block_stmt(tokens: &Vec<Spanned<Token>>, at: usize) -> (r: Option<(Stmt, usize)>)
    ensures
        match r {
            Some((stmt, next)) => at < next <= tokens.len() && block_stmt_at(
                token_views(tokens@),
                at as int,
            ) == Some((stmt_view(stmt), (next - at - 1) as nat)),
            None => block_stmt_at(token_views(tokens@), at as int) is None,
        },
{
    reveal(block_stmt_at);
    match parse_assert(tokens, at) {
        Some(found) => {
            return Some(found);
        },
        None => {},
    }
    match parse_specialize(tokens, at) {
        Some(found) => {
            return Some(found);
        },
        None => {},
    }
    match parse_assign(tokens, at) {
        Some(found) => {
            return Some(found);
        },
        None => {},
    }
    match parse_attribute(tokens, at) {
        Some(found) => {
            return Some(found);
        },
        None => {},
    }
    match parse_connect(tokens, at) {
        Some(found) => {
            return Some(found);
        },
        None => {},
    }
    match parse_signal(tokens, at) {
        Some(found) => {
            return Some(found);
        },
        None => {},
    }
    match parse_pin(tokens, at) {
        Some(found) => {
            return Some(found);
        },
        None => {},
    }
    if is_at(tokens, at, &Token::Pass) {
        return Some((Stmt::Pass, at + 1));
    }
    parse_comment(tokens, at)
}

/// The import at position `at`, and the position after it.
fn parse_import(tokens: &Vec<Spanned<Token>>, at: usize) -> (r: Option<(Stmt, usize)>)
    ensures
        match r {
            Some((stmt, next)) => at < next <= tokens.len() && import_at(
                token_views(tokens@),
                at as int,
            ) == Some((stmt_view(stmt), (next - at - 1) as nat)),
            None => import_at(token_views(tokens@), at as int) is None,
        },
{
    let ghost views = token_views(tokens@);
    if !is_at(tokens, at, &Token::From) {
        return None;
    }
    let from_path = match parse_string(tokens, at + 1) {
        Some(p) => p,
        None => {
            return None;
        },
    };
    if !is_at(tokens, at + 2, &Token::Import) {
        return None;
    }
    let mut imports: Vec<Spanned<Symbol>> = Vec::new();
    let first = match parse_name(tokens, at + 3) {
        Some(n) => n,
        None => {
            assert(imports@.map_values(|s: Spanned<Symbol>| crate::syntax::symbol_view(s))
                =~= Seq::empty());
            return Some((Stmt::Import(ImportStmt { from_path, imports }), at + 3));
        },
    };
    imports.push(as_symbol(first));
    assert(imports@.map_values(|s: Spanned<Symbol>| crate::syntax::symbol_view(s)) =~= seq![
        text_view(first),
    ]);
    let mut next: usize = at + 4;
    loop
        invariant
            at + 4 <= next <= tokens.len(),
            views == token_views(tokens@),
            names_from(views, at + 4, seq![text_view(first)]).0 == names_from(
                views,
                next as int,
                imports@.map_values(|s: Spanned<Symbol>| crate::syntax::symbol_view(s)),
            ).0,
            names_from(views, at + 4, seq![text_view(first)]).1 == (next - at - 4) + names_from(
                views,
                next as int,
                imports@.map_values(|s: Spanned<Symbol>| crate::syntax::symbol_view(s)),
            ).1,
        ensures
            names_from(
                views,
                next as int,
                imports@.map_values(|s: Spanned<Symbol>| crate::syntax::symbol_view(s)),
            ) == (imports@.map_values(|s: Spanned<Symbol>| crate::syntax::symbol_view(s)), 0nat),
        decreases tokens.len() - next,
    {
        if !is_at(tokens, next, &Token::Comma) {
            break ;
        }
        match parse_name(tokens, next + 1) {
            Some(name) => {
                let ghost before = imports@.map_values(
                    |s: Spanned<Symbol>| crate::syntax::symbol_view(s),
                );
                imports.push(as_symbol(name));
                assert(imports@.map_values(|s: Spanned<Symbol>| crate::syntax::symbol_view(s))
                    =~= before.push(text_view(name)));
                next = next + 2;
            },
            None => {
                break ;
            },
        }
    }
    Some((Stmt::Import(ImportStmt { from_path, imports }), next))
}

/// The import of one name at position `at`, and the position after it.
fn parse_dep_import(tokens: &Vec<Spanned<Token>>, at: usize) -> (r: Option<(Stmt, usize)>)
    ensures
        match r {
            Some((stmt, next)) => at < next <= tokens.len() && dep_import_at(
                token_views(tokens@),
                at as int,
            ) == Some((stmt_view(stmt), (next - at - 1) as nat)),
            None => dep_import_at(token_views(tokens@), at as int) is None,
        },
{
    if is_at(tokens, at, &Token::Import) {
        match parse_name(tokens, at + 1) {
            Some(name) => if is_at(tokens, at + 2, &Token::From) {
                match parse_string(tokens, at + 3) {
                    Some(from_path) => Some(
                        (
                            Stmt::DepImport(DepImportStmt { name: as_symbol(name), from_path }),
                            at + 4,
                        ),
                    ),
                    None => None,
                }
            } else {
                None
            },
            None => None,
        }
    } else {
        None
    }
}

/// The top-level statement at position `at`, and the position after it.
fn parse_top_stmt(tokens: &Vec<Spanned<Token>>, at: usize) -> (r: Option<(Stmt, usize)>)
    ensures
        match r {
            Some((stmt, next)) => at < next <= tokens.len() && top_stmt_at(
                token_views(tokens@),
                at as int,
            ) == Some((stmt_view(stmt), (next - at - 1) as nat)),
            None => top_stmt_at(token_views(tokens@), at as int) is None,
        },
{
    reveal(top_stmt_at);
    match parse_import(tokens, at) {
        Some(found) => {
            return Some(found);
        },
        None => {},
    }
    match parse_dep_import(tokens, at) {
        Some(found) => {
            return Some(found);
        },
        None => {},
    }
    parse_comment(tokens, at)
}

/// What a block that is being read stands for.
pub open spec fn open_view(block: BlockStmt) -> OpenBlock {
    OpenBlock {
        kind: (block.kind.0, block.kind.1),
        name: crate::syntax::symbol_view(block.name),
        parent: crate::syntax::optional_symbol(block.parent),
        body: stmt_views(block.body@),
    }
}

/// The header of a block at position `at`, and the position after it.
fn parse_header(tokens: &Vec<Spanned<Token>>, at: usize) -> (r: Option<(BlockStmt, usize)>)
    ensures
        match r {
            Some((block, next)) => at < next <= tokens.len() && header_at(
                token_views(tokens@),
                at as int,
            ) == Some((open_view(block), (next - at - 1) as nat)),
            None => header_at(token_views(tokens@), at as int) is None,
        },
{
    reveal(header_at);
    let kind = match peek(tokens, at) {
        Some(Token::Component) => BlockKind::Component,
        Some(Token::Module) => BlockKind::Module,
        Some(Token::Interface) => BlockKind::Interface,
        _ => {
            return None;
        },
    };
    let name = match parse_name(tokens, at + 1) {
        Some(n) => n,
        None => {
            return None;
        },
    };
    let parent = if is_at(tokens, at + 2, &Token::From) {
        parse_name(tokens, at + 3)
    } else {
        None
    };
    let colon = match &parent {
        Some(_) => at + 4,
        None => at + 2,
    };
    if !is_at(tokens, colon, &Token::Colon) {
        return None;
    }
    let block = BlockStmt {
        kind: Spanned(kind, span_at(tokens, at)),
        name: as_symbol(name),
        parent: match parent {
            Some(p) => Some(as_symbol(p)),
            None => None,
        },
        body: Vec::new(),
    };
    assert(stmt_views(block.body@) =~= Seq::empty());
    Some((block, colon + 1))
}

/// How many tokens of the kind that `wanted` tells stand at position `at`:
/// separators, line breaks, or anything but separators.
fn count_from(tokens: &Vec<Spanned<Token>>, at: usize, wanted: Skip) -> (r: usize)
    requires
        at <= tokens.len(),
    ensures
        at + r <= tokens.len(),
        r == match wanted {
            Skip::Separators => separators_from(token_views(tokens@), at as int),
            Skip::Newlines => newlines_from(token_views(tokens@), at as int),
            Skip::Statement => statement_rest(token_views(tokens@), at as int),
        },
{
    let ghost views = token_views(tokens@);
    let mut i: usize = at;
    loop
        invariant
            at <= i <= tokens.len(),
            views == token_views(tokens@),
            match wanted {
                Skip::Separators => separators_from(views, at as int) == (i - at)
                    + separators_from(views, i as int),
                Skip::Newlines => newlines_from(views, at as int) == (i - at) + newlines_from(
                    views,
                    i as int,
                ),
                Skip::Statement => statement_rest(views, at as int) == (i - at) + statement_rest(
                    views,
                    i as int,
                ),
            },
        ensures
            match wanted {
                Skip::Separators => separators_from(views, i as int) == 0,
                Skip::Newlines => newlines_from(views, i as int) == 0,
                Skip::Statement => statement_rest(views, i as int) == 0,
            },
        decreases tokens.len() - i,
    {
        let newline = is_at(tokens, i, &Token::Newline);
        let separator = newline || is_at(tokens, i, &Token::Semicolon);
        let go_on = match wanted {
            Skip::Separators => separator,
            Skip::Newlines => newline,
            Skip::Statement => i < tokens.len() && !separator,
        };
        if !go_on {
            break ;
        }
        i += 1;
    }
    i - at
}

/// What to count at a position.
#[derive(Clone, Copy, Debug, PartialEq, Eq, Structural)]
enum Skip {
    Separators,
    Newlines,
    Statement,
}

/// The span of what was read from position `from` up to position `to`.
fn span_since(tokens: &Vec<Spanned<Token>>, from: usize, to: usize) -> (r: Span)
    ensures
        r == since(token_views(tokens@), from as int, to as int),
{
    if from < tokens.len() {
        Span {
            start: tokens[from].1.start,
            end: if 1 <= to && to <= tokens.len() {
                tokens[to - 1].1.end
            } else {
                tokens.len()
            },
        }
    } else {
        Span { start: tokens.len(), end: tokens.len() }
    }
}

/// The statement that stands for what is no statement.
fn error_statement(message: &str, span: Span) -> (r: Spanned<Stmt>)
    ensures
        (stmt_view(r.0), r.1) == error_stmt(message@, span),
{
    Spanned(Stmt::ParseError(owned_text(message)), span)
}

/// Appends a statement to a list of statements.
fn push_stmt(stmts: &mut Vec<Spanned<Stmt>>, stmt: Spanned<Stmt>)
    ensures
        stmt_views(final(stmts)@) == stmt_views(old(stmts)@).push((stmt_view(stmt.0), stmt.1)),
{
    stmts.push(stmt);
    assert(stmts@.drop_last() =~= old(stmts)@);
}

/// The block as a statement.
fn close_block(block: BlockStmt, span: Span) -> (r: Spanned<Stmt>)
    ensures
        (stmt_view(r.0), r.1) == closed_block(open_view(block), span),
{
    let r = Spanned(Stmt::Block(block), span);
    assert(stmt_view(r.0) == StmtView::Block(crate::syntax::block_view(block)));
    r
}

/// Reads the statements of a block that stands on the line of its header.
fn parse_single_line(
    tokens: &Vec<Spanned<Token>>,
    from: usize,
    block: BlockStmt,
    ast: &mut Vec<Spanned<Stmt>>,
) -> (next: usize)
    requires
        from <= tokens.len(),
    ensures
        from <= next <= tokens.len(),
        single_line(
            token_views(tokens@),
            from as int,
            from as int,
            open_view(block),
            stmt_views(old(ast)@),
        ) == (stmt_views(final(ast)@), (next - from) as nat),
{
    let ghost views = token_views(tokens@);
    let ghost whole = single_line(
        views,
        from as int,
        from as int,
        open_view(block),
        stmt_views(ast@),
    );
    let mut open = block;
    let mut at: usize = from;
    loop
        invariant
            from <= at <= tokens.len(),
            views == token_views(tokens@),
            whole == single_line(
                views,
                from as int,
                from as int,
                open_view(block),
                stmt_views(old(ast)@),
            ),
            whole.0 == single_line(views, at as int, from as int, open_view(open), stmt_views(ast@)).0,
            whole.1 == (at - from) + single_line(
                views,
                at as int,
                from as int,
                open_view(open),
                stmt_views(ast@),
            ).1,
        decreases tokens.len() - at,
    {
        let next = match parse_block_stmt(tokens, at) {
            Some((stmt, next)) => {
                push_stmt(&mut open.body, Spanned(stmt, cover(tokens, at, next)));
                next
            },
            None => {
                let next = at + count_from(tokens, at, Skip::Statement);
                push_stmt(ast, error_statement("syntax error", span_since(tokens, at, next)));
                next
            },
        };
        if is_at(tokens, next, &Token::Semicolon) {
            at = next + 1;
        } else {
            push_stmt(ast, close_block(open, span_since(tokens, from, next)));
            return next;
        }
    }
}

/// What the block that is being read stands for, with the position at
/// which it starts.
pub open spec fn reading(open: Option<(BlockStmt, usize)>) -> Option<(OpenBlock, int)> {
    match open {
        Some((block, start)) => Some((open_view(block), start as int)),
        None => None,
    }
}

/// Reads what stands at position `at` inside the block `block`, which
/// starts at `start`: a statement of the block, the end of the block, or
/// something that is neither.
fn step_in_block(
    tokens: &Vec<Spanned<Token>>,
    at: usize,
    block: BlockStmt,
    start: usize,
    ast: &mut Vec<Spanned<Stmt>>,
) -> (r: (Option<(BlockStmt, usize)>, usize))
    requires
        at < tokens.len(),
    ensures
        at < r.1 <= tokens.len(),
        driven(
            token_views(tokens@),
            at as int,
            stmt_views(old(ast)@),
            Some((open_view(block), start as int)),
        ) == driven(token_views(tokens@), r.1 as int, stmt_views(final(ast)@), reading(r.0)),
{
    let mut block = block;
    let p = at + count_from(tokens, at, Skip::Separators);
    match parse_block_stmt(tokens, p) {
        Some((stmt, next)) => {
            push_stmt(&mut block.body, Spanned(stmt, cover(tokens, p, next)));
            (Some((block, start)), next)
        },
        None => {
            if is_at(tokens, p, &Token::Dedent) {
                push_stmt(ast, close_block(block, span_since(tokens, start, p + 1)));
                (None, p + 1)
            } else {
                let skipped = if p < tokens.len() {
                    p + 1 + count_from(tokens, p + 1, Skip::Statement)
                } else {
                    p
                };
                push_stmt(ast, error_statement("syntax error", span_since(tokens, p, skipped)));
                (Some((block, start)), skipped)
            }
        },
    }
}

/// Reads what stands at position `at` outside of any block: a top-level
/// statement, the header of a block, or something that is neither.
fn step_at_top(tokens: &Vec<Spanned<Token>>, at: usize, ast: &mut Vec<Spanned<Stmt>>) -> (r: (
    Option<(BlockStmt, usize)>,
    usize,
))
    requires
        at < tokens.len(),
    ensures
        at < r.1 <= tokens.len(),
        driven(token_views(tokens@), at as int, stmt_views(old(ast)@), None) == driven(
            token_views(tokens@),
            r.1 as int,
            stmt_views(final(ast)@),
            reading(r.0),
        ),
{
    let p = at + count_from(tokens, at, Skip::Separators);
    match parse_top_stmt(tokens, p) {
        Some((stmt, next)) => {
            push_stmt(ast, Spanned(stmt, cover(tokens, p, next)));
            return (None, next);
        },
        None => {},
    }
    match parse_header(tokens, p) {
        Some((block, after)) => {
            let lines = count_from(tokens, after, Skip::Newlines);
            if lines > 0 {
                if is_at(tokens, after + lines, &Token::Indent) {
                    (Some((block, p)), after + lines + 1)
                } else {
                    push_stmt(
                        ast,
                        error_statement(
                            "syntax error: expected indent after block header",
                            span_since(tokens, p, after + lines),
                        ),
                    );
                    (None, after + lines)
                }
            } else {
                let next = parse_single_line(tokens, after, block, ast);
                (None, next)
            }
        },
        None => {
            let skipped = if p < tokens.len() {
                p + 1 + count_from(tokens, p + 1, Skip::Statement)
            } else {
                p
            };
            push_stmt(
                ast,
                error_statement(
                    "syntax error: unexpected top-level statement",
                    span_since(tokens, p, skipped),
                ),
            );
            (None, skipped)
        },
    }
}

/// The statements of a text with the tokens `tokens`. What is no
/// statement becomes a parse-error statement; no error is returned beside
/// the statements.
pub fn parse(tokens: &Vec<Spanned<Token>>) -> (r: (Vec<Spanned<Stmt>>, Vec<AtopileErrorReport>))
    ensures
        stmt_views(r.0@) == parsed(token_views(tokens@)),
        r.1@.len() == 0,
{
    let ghost views = token_views(tokens@);
    let mut ast: Vec<Spanned<Stmt>> = Vec::new();
    let mut open: Option<(BlockStmt, usize)> = None;
    let mut at: usize = 0;
    assert(stmt_views(ast@) =~= Seq::empty());
    while at < tokens.len()
        invariant
            at <= tokens.len(),
            views == token_views(tokens@),
            parsed(views) == driven(views, at as int, stmt_views(ast@), reading(open)),
        decreases tokens.len() - at,
    {
        let (now, next) = match open {
            Some((block, start)) => step_in_block(tokens, at, block, start, &mut ast),
            None => step_at_top(tokens, at, &mut ast),
        };
        open = now;
        at = next;
    }
    match open {
        Some((block, start)) => {
            push_stmt(&mut ast, close_block(block, span_since(tokens, start, at)));
        },
        None => {},
    }
    (ast, Vec::new())
}

} // verus!
