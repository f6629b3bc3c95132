use atopile_analyzer::lexer::{Lexer, Token};
use atopile_analyzer::source::AtopileErrorReport;
use atopile_analyzer::span::{Span, Spanned};

fn sp(token: Token, start: usize, end: usize) -> Spanned<Token> {
    Spanned(token, Span { start, end })
}

fn text(token: fn(String) -> Token, s: &str, start: usize, end: usize) -> Spanned<Token> {
    sp(token(s.to_string()), start, end)
}

#[test]
fn test_keyword_in_token() {
    let (tokens, errors) = Lexer::lex(
        "top",
    );

    assert_eq!(errors, Vec::<AtopileErrorReport>::new());

    assert_eq!(
        tokens,
        vec![
            text(Token::Name, "top", 0, 3),
        ]
    );
}

#[test]
fn test_bool() {
    let (tokens, errors) = Lexer::lex(
        "a = True",
    );

    assert_eq!(errors, Vec::<AtopileErrorReport>::new());

    assert_eq!(
        tokens,
        vec![
            text(Token::Name, "a", 0, 1),
            sp(Token::Equals, 2, 3),
            sp(Token::True, 4, 8),
        ]
    );
}

#[test]
fn test_simple() {
    let (tokens, errors) = Lexer::lex(
        r#"
from "my/file.ato" import MyComponentA, MyComponentB
from "my/other/file.ato" import MyOtherComponentA, MyOtherComponentB
"#,
    );

    assert_eq!(errors, Vec::<AtopileErrorReport>::new());

    assert_eq!(
        tokens,
        vec![
            sp(Token::Newline, 0, 1),
            sp(Token::From, 1, 5),
            text(Token::String, "my/file.ato", 6, 19),
            sp(Token::Import, 20, 26),
            text(Token::Name, "MyComponentA", 27, 39),
            sp(Token::Comma, 39, 40),
            text(Token::Name, "MyComponentB", 41, 53),
            sp(Token::Newline, 53, 54),
            sp(Token::From, 54, 58),
            text(Token::String, "my/other/file.ato", 59, 78),
            sp(Token::Import, 79, 85),
            text(Token::Name, "MyOtherComponentA", 86, 103),
            sp(Token::Comma, 103, 104),
            text(Token::Name, "MyOtherComponentB", 105, 122),
            sp(Token::Newline, 122, 123),
        ]
    );
}

#[test]
fn test_indent() {
    let (tokens, errors) = Lexer::lex(
        r#"

    component Test:

        signal a

        signal b
        signal c

        signal d
    "#,
    );

    assert_eq!(errors, Vec::<AtopileErrorReport>::new());

    assert_eq!(
        tokens,
        vec![
            sp(Token::Newline, 0, 1),
            sp(Token::Newline, 1, 2),
            sp(Token::Indent, 2, 2),
            sp(Token::Component, 6, 15),
            text(Token::Name, "Test", 16, 20),
            sp(Token::Colon, 20, 21),
            sp(Token::Newline, 21, 22),
            sp(Token::Newline, 22, 23),
            sp(Token::Indent, 23, 23),
            sp(Token::Signal, 31, 37),
            text(Token::Name, "a", 38, 39),
            sp(Token::Newline, 39, 40),
            sp(Token::Newline, 40, 41),
            sp(Token::Signal, 49, 55),
            text(Token::Name, "b", 56, 57),
            sp(Token::Newline, 57, 58),
            sp(Token::Signal, 66, 72),
            text(Token::Name, "c", 73, 74),
            sp(Token::Newline, 74, 75),
            sp(Token::Newline, 75, 76),
            sp(Token::Signal, 84, 90),
            text(Token::Name, "d", 91, 92),
            sp(Token::Newline, 92, 93),
            sp(Token::Dedent, 97, 97),
            sp(Token::Dedent, 97, 97),
        ]
    );
}

#[test]
fn test_lexer() {
    let (tokens, errors) = Lexer::lex(
        r#"
from "my/file.ato" import MyComponentA, MyComponentB

component Test:
    signal a ~ pin "1A"
    signal b

module TestModule from Test:
    a.b.c ~ b
    assert x >= 3 < 5

    r1 = new Resistor
    r1.value = 10kohm +/- 5%
    r1.mpn = "MPN123"

    assert r1.value within 10kohm +/- 5%

interface TestInterface:
    signal a
    "#,
    );

    assert_eq!(errors, Vec::<AtopileErrorReport>::new());

    assert_eq!(
        tokens,
        vec![
            sp(Token::Newline, 0, 1),
            sp(Token::From, 1, 5),
            text(Token::String, "my/file.ato", 6, 19),
            sp(Token::Import, 20, 26),
            text(Token::Name, "MyComponentA", 27, 39),
            sp(Token::Comma, 39, 40),
            text(Token::Name, "MyComponentB", 41, 53),
            sp(Token::Newline, 53, 54),
            sp(Token::Newline, 54, 55),
            sp(Token::Component, 55, 64),
            text(Token::Name, "Test", 65, 69),
            sp(Token::Colon, 69, 70),
            sp(Token::Newline, 70, 71),
            sp(Token::Indent, 71, 71),
            sp(Token::Signal, 75, 81),
            text(Token::Name, "a", 82, 83),
            sp(Token::Tilde, 84, 85),
            sp(Token::Pin, 86, 89),
            text(Token::String, "1A", 90, 94),
            sp(Token::Newline, 94, 95),
            sp(Token::Signal, 99, 105),
            text(Token::Name, "b", 106, 107),
            sp(Token::Newline, 107, 108),
            sp(Token::Newline, 108, 109),
            sp(Token::Dedent, 109, 109),
            sp(Token::Module, 109, 115),
            text(Token::Name, "TestModule", 116, 126),
            sp(Token::From, 127, 131),
            text(Token::Name, "Test", 132, 136),
            sp(Token::Colon, 136, 137),
            sp(Token::Newline, 137, 138),
            sp(Token::Indent, 138, 138),
            text(Token::Name, "a", 142, 143),
            sp(Token::Dot, 143, 144),
            text(Token::Name, "b", 144, 145),
            sp(Token::Dot, 145, 146),
            text(Token::Name, "c", 146, 147),
            sp(Token::Tilde, 148, 149),
            text(Token::Name, "b", 150, 151),
            sp(Token::Newline, 151, 152),
            sp(Token::Assert, 156, 162),
            text(Token::Name, "x", 163, 164),
            sp(Token::GtEq, 165, 167),
            text(Token::Number, "3", 168, 169),
            sp(Token::Lt, 170, 171),
            text(Token::Number, "5", 172, 173),
            sp(Token::Newline, 173, 174),
            sp(Token::Newline, 174, 175),
            text(Token::Name, "r1", 179, 181),
            sp(Token::Equals, 182, 183),
            sp(Token::New, 184, 187),
            text(Token::Name, "Resistor", 188, 196),
            sp(Token::Newline, 196, 197),
            text(Token::Name, "r1", 201, 203),
            sp(Token::Dot, 203, 204),
            text(Token::Name, "value", 204, 209),
            sp(Token::Equals, 210, 211),
            text(Token::Number, "10", 212, 214),
            text(Token::Name, "kohm", 214, 218),
            sp(Token::PlusOrMinus, 219, 222),
            text(Token::Number, "5", 223, 224),
            sp(Token::Percent, 224, 225),
            sp(Token::Newline, 225, 226),
            text(Token::Name, "r1", 230, 232),
            sp(Token::Dot, 232, 233),
            text(Token::Name, "mpn", 233, 236),
            sp(Token::Equals, 237, 238),
            text(Token::String, "MPN123", 239, 247),
            sp(Token::Newline, 247, 248),
            sp(Token::Newline, 248, 249),
            sp(Token::Assert, 253, 259),
            text(Token::Name, "r1", 260, 262),
            sp(Token::Dot, 262, 263),
            text(Token::Name, "value", 263, 268),
            sp(Token::Within, 269, 275),
            text(Token::Number, "10", 276, 278),
            text(Token::Name, "kohm", 278, 282),
            sp(Token::PlusOrMinus, 283, 286),
            text(Token::Number, "5", 287, 288),
            sp(Token::Percent, 288, 289),
            sp(Token::Newline, 289, 290),
            sp(Token::Newline, 290, 291),
            sp(Token::Dedent, 291, 291),
            sp(Token::Interface, 291, 300),
            text(Token::Name, "TestInterface", 301, 314),
            sp(Token::Colon, 314, 315),
            sp(Token::Newline, 315, 316),
            sp(Token::Indent, 316, 316),
            sp(Token::Signal, 320, 326),
            text(Token::Name, "a", 327, 328),
            sp(Token::Newline, 328, 329),
            sp(Token::Dedent, 333, 333),
        ]
    );
}

#[test]
fn test_multiline_comment() {
    let (tokens, errors) = Lexer::lex(
        r#"
component Test:
    """
    This is a
    multi-line comment
    """
    signal a
"#,
    );

    assert_eq!(errors, Vec::<AtopileErrorReport>::new());

    assert_eq!(
        tokens,
        vec![
            sp(Token::Newline, 0, 1),
            sp(Token::Component, 1, 10),
            text(Token::Name, "Test", 11, 15),
            sp(Token::Colon, 15, 16),
            sp(Token::Newline, 16, 17),
            sp(Token::Indent, 17, 17),
            sp(Token::Newline, 24, 25),
            text(Token::Comment, "This is a", 29, 38),
            sp(Token::Newline, 38, 39),
            text(Token::Comment, "multi-line comment", 43, 61),
            sp(Token::Newline, 61, 62),
            sp(Token::Newline, 69, 70),
            sp(Token::Signal, 74, 80),
            text(Token::Name, "a", 81, 82),
            sp(Token::Newline, 82, 83),
            sp(Token::Dedent, 83, 83),
        ]
    );
}

#[test]
fn test_same_line_multiline_comment() {
    let (tokens, errors) = Lexer::lex(
        r#"
component Test:
    signal a  """This is a same-line comment"""
    signal b
"#,
    );

    assert_eq!(errors, Vec::<AtopileErrorReport>::new());

    assert_eq!(
        tokens,
        vec![
            sp(Token::Newline, 0, 1),
            sp(Token::Component, 1, 10),
            text(Token::Name, "Test", 11, 15),
            sp(Token::Colon, 15, 16),
            sp(Token::Newline, 16, 17),
            sp(Token::Indent, 17, 17),
            sp(Token::Signal, 21, 27),
            text(Token::Name, "a", 28, 29),
            text(Token::Comment, "This is a same-line comment", 34, 61),
            sp(Token::Newline, 64, 65),
            sp(Token::Signal, 69, 75),
            text(Token::Name, "b", 76, 77),
            sp(Token::Newline, 77, 78),
            sp(Token::Dedent, 78, 78),
        ]
    );
}

#[test]
fn test_multiline_comment_with_indentation() {
    let (tokens, errors) = Lexer::lex(
        r#"
component Test:
    signal a
    """
    This is a multiline comment
        with weird
indentation
    """
    signal b
"#,
    );

    assert_eq!(errors, Vec::<AtopileErrorReport>::new());

    assert_eq!(
        tokens,
        vec![
            sp(Token::Newline, 0, 1),
            sp(Token::Component, 1, 10),
            text(Token::Name, "Test", 11, 15),
            sp(Token::Colon, 15, 16),
            sp(Token::Newline, 16, 17),
            sp(Token::Indent, 17, 17),
            sp(Token::Signal, 21, 27),
            text(Token::Name, "a", 28, 29),
            sp(Token::Newline, 29, 30),
            sp(Token::Newline, 37, 38),
            text(Token::Comment, "This is a multiline comment", 42, 69),
            sp(Token::Newline, 69, 70),
            text(Token::Comment, "with weird", 78, 88),
            sp(Token::Newline, 88, 89),
            text(Token::Comment, "indentation", 89, 100),
            sp(Token::Newline, 100, 101),
            sp(Token::Newline, 108, 109),
            sp(Token::Signal, 113, 119),
            text(Token::Name, "b", 120, 121),
            sp(Token::Newline, 121, 122),
            sp(Token::Dedent, 122, 122),
        ]
    );
}
