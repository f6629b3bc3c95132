use atopile_analyzer::lexer::{Lexer, Token};
use atopile_analyzer::span::{Span, Spanned};
use chumsky::error::Rich;
use chumsky::extra;
use chumsky::primitive::{any, choice, just, none_of};
use chumsky::span::SimpleSpan;
use chumsky::text;
use chumsky::{IterParser, Parser};
use std::marker::PhantomData;
use std::ops::Range;

/// A value with the range of text it was read from.
#[derive(Clone, Debug, PartialEq)]
struct Marked<T>(T, Range<usize>);

impl<T> From<(T, SimpleSpan)> for Marked<T> {
    fn from((item, span): (T, SimpleSpan)) -> Self {
        Self(item, span.into())
    }
}

impl<T> From<(T, Range<usize>)> for Marked<T> {
    fn from((item, span): (T, Range<usize>)) -> Self {
        Self(item, span)
    }
}

// The same grammar, written with parser combinators, to compare the lexer
// of the library with.

#[derive(Clone, Debug, PartialEq, Hash, Eq)]
enum Grammar<'src> {
    // Keywords
    Component,
    Module,
    Interface,
    Pin,
    Signal,
    New,
    From,
    Import,
    Assert,
    To,
    Within,
    Pass,

    // Literals
    String(&'src str),
    Number(&'src str),
    Name(&'src str),
    True,
    False,

    // Operators
    PlusOrMinus, // +/- or ±
    Percent,     // %
    Dot,         // .
    Star,        // *
    Plus,        // +
    Minus,       // -
    Div,         // /
    Tilde,       // ~
    Arrow,       // ->

    // Delimiters
    LParen,    // (
    RParen,    // )
    LBrack,    // [
    RBrack,    // ]
    LBrace,    // {
    RBrace,    // }
    Colon,     // :
    Semicolon, // ;
    Comma,     // ,

    // Assignments
    Equals,      // =
    PlusEquals,  // +=
    MinusEquals, // -=
    OrEquals,    // |=
    AndEquals,   // &=

    // Comparisons
    Eq,   // ==
    Lt,   // <
    Gt,   // >
    LtEq, // <=
    GtEq, // >=

    // Comments
    Comment(&'src str),
    MultiCommentStart, // """
    MultiCommentEnd,   // """

    // Indentation
    Indent,
    Dedent,
    Newline,
}

type LexerError<'src> = Rich<'src, char, SimpleSpan>;
type LexerExtra<'src> = extra::Err<LexerError<'src>>;

struct Combinators<'src> {
    phantom: PhantomData<&'src ()>,
}

impl<'src> Combinators<'src> {
    fn keyword() -> impl Parser<'src, &'src str, Grammar<'src>, LexerExtra<'src>> {
        choice([
            text::keyword("component").to(Grammar::Component),
            text::keyword("module").to(Grammar::Module),
            text::keyword("interface").to(Grammar::Interface),
            text::keyword("pin").to(Grammar::Pin),
            text::keyword("signal").to(Grammar::Signal),
            text::keyword("new").to(Grammar::New),
            text::keyword("from").to(Grammar::From),
            text::keyword("import").to(Grammar::Import),
            text::keyword("assert").to(Grammar::Assert),
            text::keyword("to").to(Grammar::To),
            text::keyword("within").to(Grammar::Within),
            text::keyword("pass").to(Grammar::Pass),
            text::keyword("True").to(Grammar::True),
            text::keyword("False").to(Grammar::False),
        ])
    }

    fn name() -> impl Parser<'src, &'src str, Grammar<'src>, LexerExtra<'src>> {
        text::ident().map(Grammar::Name)
    }

    fn number() -> impl Parser<'src, &'src str, Grammar<'src>, LexerExtra<'src>> {
        text::int(10)
            .then(just('.').then(text::digits(10)).or_not())
            .to_slice()
            .map(Grammar::Number)
    }

    fn string() -> impl Parser<'src, &'src str, Grammar<'src>, LexerExtra<'src>> {
        just('"')
            .ignore_then(none_of("\"").repeated().to_slice())
            .then_ignore(just('"'))
            .map(Grammar::String)
    }

    fn symbol() -> impl Parser<'src, &'src str, Grammar<'src>, LexerExtra<'src>> {
        choice([
            just("+/-").to(Grammar::PlusOrMinus),
            just("±").to(Grammar::PlusOrMinus),
            just("->").to(Grammar::Arrow),
            just("%").to(Grammar::Percent),
            just(".").to(Grammar::Dot),
            just("*").to(Grammar::Star),
            just("+").to(Grammar::Plus),
            just("-").to(Grammar::Minus),
            just("/").to(Grammar::Div),
            just("~").to(Grammar::Tilde),
            just("(").to(Grammar::LParen),
            just(")").to(Grammar::RParen),
            just("[").to(Grammar::LBrack),
            just("]").to(Grammar::RBrack),
            just("{").to(Grammar::LBrace),
            just("}").to(Grammar::RBrace),
            just(":").to(Grammar::Colon),
            just(";").to(Grammar::Semicolon),
            just(",").to(Grammar::Comma),
            just("+=").to(Grammar::PlusEquals),
            just("-=").to(Grammar::MinusEquals),
            just("|=").to(Grammar::OrEquals),
            just("&=").to(Grammar::AndEquals),
            just("==").to(Grammar::Eq),
            just("=").to(Grammar::Equals),
            just("<=").to(Grammar::LtEq),
            just(">=").to(Grammar::GtEq),
            just("<").to(Grammar::Lt),
            just(">").to(Grammar::Gt),
        ])
    }

    fn single_comment() -> impl Parser<'src, &'src str, Grammar<'src>, LexerExtra<'src>> {
        just('#')
            .ignore_then(none_of("\n").repeated().to_slice())
            .map(Grammar::Comment)
    }

    fn multi_comment() -> impl Parser<'src, &'src str, Grammar<'src>, LexerExtra<'src>> {
        just("\"\"\"")
            .ignore_then(any().and_is(just("\"\"\"").not()).repeated().to_slice())
            .then_ignore(just("\"\"\""))
            .map(Grammar::Comment)
    }

    fn token() -> impl Parser<'src, &'src str, Marked<Grammar<'src>>, LexerExtra<'src>> {
        choice((
            Self::multi_comment(),
            Self::single_comment(),
            Self::keyword(),
            Self::name(),
            Self::number(),
            Self::string(),
            Self::symbol(),
        ))
        .map_with(|tok, e| (tok, e.span()).into())
        .padded()
    }

    fn line_parser() -> impl Parser<'src, &'src str, Vec<Marked<&'src str>>, LexerExtra<'src>> {
        let line_content = none_of("\n").repeated().to_slice();
        let line = line_content.map_with(|content, e| (content, e.span()).into());
        line.separated_by(just('\n'))
            .allow_trailing()
            .collect::<Vec<_>>()
    }

    fn lex(input: &'src str) -> (Vec<Marked<Grammar<'src>>>, Vec<LexerError<'src>>) {
        let mut tokens = Vec::new();
        let mut errors = Vec::new();
        let mut in_multiline_comment = false;

        // Handle empty input
        if input.is_empty() {
            return (tokens, errors);
        }

        // Parse the input into lines with spans
        let result = Self::line_parser().parse(input);
        errors.extend(result.errors().map(|e| e.clone()));

        let mut indent_stack = vec![0];

        // Process each line
        for (line, line_span) in result
            .output()
            .unwrap_or(&vec![])
            .into_iter()
            .map(|l| (l.0, l.1.clone()))
        {
            let indent_level = line.chars().take_while(|c| c.is_whitespace()).count();

            if !line.trim().is_empty() {
                // Handle indentation (if we aren't in a multi-line comment)
                if !in_multiline_comment {
                    while indent_level < *indent_stack.last().unwrap() {
                        indent_stack.pop();
                        tokens.push((Grammar::Dedent, (line_span.start..line_span.start)).into());
                    }

                    if indent_level > *indent_stack.last().unwrap() {
                        indent_stack.push(indent_level);
                        tokens.push((Grammar::Indent, (line_span.start..line_span.start)).into());
                    }
                }

                let mut line_pos = 0;
                let trimmed_line = line.trim();
                let content_offset = line_span.start + (line.len() - trimmed_line.len());

                // Most of the logic below is to deal with multi-line comments. For
                // now, we don't disambiguate between multi-line comments and
                // regular comments in the final lexer output, as we depend on
                // Newline tokens to match the line count. Instead, a multi-line
                // comment will emit a separate Comment token for each line.
                while line_pos < trimmed_line.len() {
                    if in_multiline_comment {
                        if let Some(end_pos) = trimmed_line[line_pos..].find("\"\"\"") {
                            // Add comment content before the end marker
                            let comment = trimmed_line[line_pos..line_pos + end_pos].trim();
                            if !comment.is_empty() {
                                tokens.push(
                                    (
                                        Grammar::Comment(comment),
                                        (content_offset + line_pos
                                            ..content_offset + line_pos + end_pos),
                                    )
                                        .into(),
                                );
                            }

                            // Add end marker
                            tokens.push(
                                (
                                    Grammar::MultiCommentEnd,
                                    (content_offset + line_pos + end_pos
                                        ..content_offset + line_pos + end_pos + 3),
                                )
                                    .into(),
                            );

                            line_pos += end_pos + 3;
                            in_multiline_comment = false;
                        } else {
                            // Add whole remaining line as comment
                            tokens.push(
                                (
                                    Grammar::Comment(&trimmed_line[line_pos..]),
                                    (content_offset + line_pos..line_span.end),
                                )
                                    .into(),
                            );
                            break;
                        }
                    } else {
                        // Look for start of multi-line comment
                        if let Some(start_pos) = trimmed_line[line_pos..].find("\"\"\"") {
                            // Process tokens before comment if any
                            if start_pos > 0 {
                                let before_comment = &trimmed_line[line_pos..line_pos + start_pos];
                                let result = Self::token()
                                    .repeated()
                                    .collect::<Vec<_>>()
                                    .parse(before_comment);
                                errors.extend(result.errors().map(|e| e.clone()));

                                if let Some(toks) = result.output() {
                                    for (tok, tok_span) in
                                        toks.iter().map(|t| (t.0.clone(), t.1.clone()))
                                    {
                                        tokens.push(
                                            (
                                                tok,
                                                (tok_span.start + content_offset + line_pos
                                                    ..tok_span.end + content_offset + line_pos),
                                            )
                                                .into(),
                                        );
                                    }
                                }
                            }

                            // Add start marker
                            tokens.push(
                                (
                                    Grammar::MultiCommentStart,
                                    (content_offset + line_pos + start_pos
                                        ..content_offset + line_pos + start_pos + 3),
                                )
                                    .into(),
                            );

                            line_pos += start_pos + 3;
                            in_multiline_comment = true;

                            // Check if comment ends on same line
                            if let Some(end_pos) = trimmed_line[line_pos..].find("\"\"\"") {
                                // Add comment content if any
                                let comment = trimmed_line[line_pos..line_pos + end_pos].trim();
                                if !comment.is_empty() {
                                    tokens.push(
                                        (
                                            Grammar::Comment(comment),
                                            (content_offset + line_pos
                                                ..content_offset + line_pos + end_pos),
                                        )
                                            .into(),
                                    );
                                }

                                // Add end marker
                                tokens.push(
                                    (
                                        Grammar::MultiCommentEnd,
                                        (content_offset + line_pos + end_pos
                                            ..content_offset + line_pos + end_pos + 3),
                                    )
                                        .into(),
                                );

                                line_pos += end_pos + 3;
                                in_multiline_comment = false;
                            }
                        } else {
                            // Process regular tokens
                            let result = Self::token()
                                .repeated()
                                .collect::<Vec<_>>()
                                .parse(&trimmed_line[line_pos..]);
                            errors.extend(result.errors().map(|e| e.clone()));

                            if let Some(toks) = result.output() {
                                for (tok, tok_span) in
                                    toks.iter().map(|t| (t.0.clone(), t.1.clone()))
                                {
                                    tokens.push(
                                        (
                                            tok,
                                            (tok_span.start + content_offset + line_pos
                                                ..tok_span.end + content_offset + line_pos),
                                        )
                                            .into(),
                                    );
                                }
                            }
                            break;
                        }
                    }
                }
            }

            // Add newline token
            if line_span.end < input.len() {
                if line.is_empty() {
                    tokens.push((Grammar::Newline, (line_span.start..line_span.start + 1)).into());
                } else {
                    tokens.push((Grammar::Newline, (line_span.end..line_span.end + 1)).into());
                }
            }
        }

        // Handle any remaining dedents
        while indent_stack.len() > 1 {
            indent_stack.pop();
            tokens.push((Grammar::Dedent, (input.len()..input.len())).into());
        }

        let tokens = tokens
            .into_iter()
            .filter(|t| !matches!(t.0, Grammar::MultiCommentStart | Grammar::MultiCommentEnd))
            .collect::<Vec<_>>();

        (tokens, errors)
    }
}


fn same(grammar: &Grammar<'_>) -> Token {
    match grammar {
        Grammar::Component => Token::Component,
        Grammar::Module => Token::Module,
        Grammar::Interface => Token::Interface,
        Grammar::Pin => Token::Pin,
        Grammar::Signal => Token::Signal,
        Grammar::New => Token::New,
        Grammar::From => Token::From,
        Grammar::Import => Token::Import,
        Grammar::Assert => Token::Assert,
        Grammar::To => Token::To,
        Grammar::Within => Token::Within,
        Grammar::Pass => Token::Pass,
        Grammar::String(s) => Token::String(s.to_string()),
        Grammar::Number(s) => Token::Number(s.to_string()),
        Grammar::Name(s) => Token::Name(s.to_string()),
        Grammar::True => Token::True,
        Grammar::False => Token::False,
        Grammar::PlusOrMinus => Token::PlusOrMinus,
        Grammar::Percent => Token::Percent,
        Grammar::Dot => Token::Dot,
        Grammar::Star => Token::Star,
        Grammar::Plus => Token::Plus,
        Grammar::Minus => Token::Minus,
        Grammar::Div => Token::Div,
        Grammar::Tilde => Token::Tilde,
        Grammar::Arrow => Token::Arrow,
        Grammar::LParen => Token::LParen,
        Grammar::RParen => Token::RParen,
        Grammar::LBrack => Token::LBrack,
        Grammar::RBrack => Token::RBrack,
        Grammar::LBrace => Token::LBrace,
        Grammar::RBrace => Token::RBrace,
        Grammar::Colon => Token::Colon,
        Grammar::Semicolon => Token::Semicolon,
        Grammar::Comma => Token::Comma,
        Grammar::Equals => Token::Equals,
        Grammar::PlusEquals => Token::PlusEquals,
        Grammar::MinusEquals => Token::MinusEquals,
        Grammar::OrEquals => Token::OrEquals,
        Grammar::AndEquals => Token::AndEquals,
        Grammar::Eq => Token::Eq,
        Grammar::Lt => Token::Lt,
        Grammar::Gt => Token::Gt,
        Grammar::LtEq => Token::LtEq,
        Grammar::GtEq => Token::GtEq,
        Grammar::Comment(s) => Token::Comment(s.to_string()),
        Grammar::MultiCommentStart => Token::MultiCommentStart,
        Grammar::MultiCommentEnd => Token::MultiCommentEnd,
        Grammar::Indent => Token::Indent,
        Grammar::Dedent => Token::Dedent,
        Grammar::Newline => Token::Newline,
    }
}

fn agree(input: &str) {
    let (expected, expected_errors) = Combinators::lex(input);
    let (tokens, errors) = Lexer::lex(input);
    let expected: Vec<Spanned<Token>> = expected
        .iter()
        .map(|t| Spanned(same(&t.0), Span { start: t.1.start, end: t.1.end }))
        .collect();
    assert_eq!(tokens, expected, "tokens of {:?}", input);
    assert_eq!(errors.len(), expected_errors.len(), "errors of {:?}", input);
}

#[test]
fn the_lexer_agrees_with_the_grammar_on_statements() {
    for input in [
        "",
        "a",
        "top",
        "to",
        "a = True",
        "a=False",
        "module M:\n    pass",
        "component C from B:\n    pin 1\n    signal a ~ pin \"1A\"\n",
        "from \"x.ato\" import A, B\nimport C from \"y.ato\"\n",
        "r.value = 10kohm +/- 5%",
        "r.value = 10kohm ± 5%",
        "v = -0.3V to 5V",
        "assert a.b.c within 1 to 2",
        "x -> Y; y: T = 3; z += 1; w -= 2; q |= 3; p &= 4",
        "a == b <= c >= d < e > f",
        "( ) [ ] { } : ; , . * + - / ~ %",
        "a.1.b",
        "007 0.5 1.50 2. .5 10.0.1",
        "\"\" \"a b\" \"#\"",
        "# comment only",
        "a = 1 # trailing comment",
        "a   =\t1",
    ] {
        agree(input);
    }
}

#[test]
fn the_lexer_agrees_with_the_grammar_on_lines_and_indentation() {
    for input in [
        "\n",
        "\n\n\n",
        "a\n",
        "a\nb",
        "a\n\nb\n",
        "a\n  b\n  c\nd",
        "a\n  b\n    c\n  d\ne\n",
        "a\n    b\n  c\n",
        "  a\nb",
        "\ta\n\t\tb\nc",
        "a\n   \n  b\n \nc",
        "a  \nb \t \n  c  ",
        "a\r\nb\r\n",
        "a\n  b",
        "   ",
        " \n \n ",
    ] {
        agree(input);
    }
}

#[test]
fn the_lexer_agrees_with_the_grammar_on_comments_between_triple_quotes() {
    for input in [
        "\"\"\"",
        "\"\"\"\"\"\"",
        "\"\"\" a \"\"\"",
        "x \"\"\" a \"\"\" y",
        "x \"\"\" a \"\"\" y \"\"\" b \"\"\" z",
        "\"\"\"a\"\"\"   \"\"\"b\"\"\"",
        "\"\"\"\n  inside\n    deeper\n\"\"\"\nafter",
        "m:\n  \"\"\"\n  text\n\n  more  \n  \"\"\"\n  a = 1\n",
        "\"\"\" open\nstill open\n",
        "a\n  \"\"\"c\nd \"\"\" e\nf",
        "a \"\"\"\n\"\"\" b",
        "\"\"\"\"",
        "\"\"\"\"\"\"\"",
        "a = \"s\"\"\"\"c\"\"\"",
    ] {
        agree(input);
    }
}

#[test]
fn the_lexer_agrees_with_the_grammar_on_what_is_no_token() {
    for input in [
        "$",
        "a = $",
        "a = 1\nb = @\nc = 2",
        "\"open",
        "a = \"open\nb = 1",
        "a ! b",
        "a | b",
        "a & b",
        "a ^ b",
        "x \"\"\"c\"\"\" ?",
        "? \"\"\"c\"\"\" x",
        "a\n  ?\n    b\nc",
    ] {
        agree(input);
    }
}

#[test]
fn the_lexer_agrees_with_the_grammar_on_letters_of_any_script() {
    for input in [
        "größe = 10µF",
        "ñ ~ é",
        "a\u{a0}=\u{2003}b",
        "\u{3000}a\n\u{3000}\u{3000}b",
        "名前 = \"値\" # コメント",
        "a = \"é\" \"\"\" ü \"\"\" b",
        "x\u{0301} = 1",
        "٣ = 1",
        "a = ٣",
        "_ = 1",
        "__a1 = _b",
        "é  \nb",
    ] {
        agree(input);
    }
}
