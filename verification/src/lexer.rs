//! The lexer: from the text of a source file to its tokens.
//!
//! The text is read line by line. Indentation becomes `Indent` and `Dedent`
//! tokens, every line break a `Newline` token, and what stands between
//! triple quotes becomes comments, line by line.

use vstd::prelude::*;
use vstd::string::*;
use vstd::utf8::{encode_scalar, encode_utf8};
use crate::source::{AtopileErrorReport, ErrorReportView};
use crate::span::{Span, Spanned};
use crate::text::{concat_text, copy_text, owned_text, same_text};

verus! {

/// A token of the language.
#[derive(Clone, Debug, PartialEq, Hash, Eq)]
pub enum Token {
    Component,
    Module,
    Interface,
    Pin,
    Signal,
    New,
    From,
    Import,
    Assert,
    To,
    Within,
    Pass,
    String(String),
    Number(String),
    Name(String),
    True,
    False,
    /// `+/-` or `±`
    PlusOrMinus,
    Percent,
    Dot,
    Star,
    Plus,
    Minus,
    Div,
    Tilde,
    /// `->`
    Arrow,
    LParen,
    RParen,
    LBrack,
    RBrack,
    LBrace,
    RBrace,
    Colon,
    Semicolon,
    Comma,
    Equals,
    PlusEquals,
    MinusEquals,
    OrEquals,
    AndEquals,
    Eq,
    Lt,
    Gt,
    LtEq,
    GtEq,
    Comment(String),
    MultiCommentStart,
    MultiCommentEnd,
    Indent,
    Dedent,
    Newline,
}

/// What a [`Token`] stands for.
pub enum TokenView {
    Component,
    Module,
    Interface,
    Pin,
    Signal,
    New,
    From,
    Import,
    Assert,
    To,
    Within,
    Pass,
    String(Seq<char>),
    Number(Seq<char>),
    Name(Seq<char>),
    True,
    False,
    PlusOrMinus,
    Percent,
    Dot,
    Star,
    Plus,
    Minus,
    Div,
    Tilde,
    Arrow,
    LParen,
    RParen,
    LBrack,
    RBrack,
    LBrace,
    RBrace,
    Colon,
    Semicolon,
    Comma,
    Equals,
    PlusEquals,
    MinusEquals,
    OrEquals,
    AndEquals,
    Eq,
    Lt,
    Gt,
    LtEq,
    GtEq,
    Comment(Seq<char>),
    MultiCommentStart,
    MultiCommentEnd,
    Indent,
    Dedent,
    Newline,
}

impl View for Token {
    type V = TokenView;

    open spec fn view(&self) -> TokenView {
        match self {
            Token::Component => TokenView::Component,
            Token::Module => TokenView::Module,
            Token::Interface => TokenView::Interface,
            Token::Pin => TokenView::Pin,
            Token::Signal => TokenView::Signal,
            Token::New => TokenView::New,
            Token::From => TokenView::From,
            Token::Import => TokenView::Import,
            Token::Assert => TokenView::Assert,
            Token::To => TokenView::To,
            Token::Within => TokenView::Within,
            Token::Pass => TokenView::Pass,
            Token::String(s) => TokenView::String(s@),
            Token::Number(s) => TokenView::Number(s@),
            Token::Name(s) => TokenView::Name(s@),
            Token::True => TokenView::True,
            Token::False => TokenView::False,
            Token::PlusOrMinus => TokenView::PlusOrMinus,
            Token::Percent => TokenView::Percent,
            Token::Dot => TokenView::Dot,
            Token::Star => TokenView::Star,
            Token::Plus => TokenView::Plus,
            Token::Minus => TokenView::Minus,
            Token::Div => TokenView::Div,
            Token::Tilde => TokenView::Tilde,
            Token::Arrow => TokenView::Arrow,
            Token::LParen => TokenView::LParen,
            Token::RParen => TokenView::RParen,
            Token::LBrack => TokenView::LBrack,
            Token::RBrack => TokenView::RBrack,
            Token::LBrace => TokenView::LBrace,
            Token::RBrace => TokenView::RBrace,
            Token::Colon => TokenView::Colon,
            Token::Semicolon => TokenView::Semicolon,
            Token::Comma => TokenView::Comma,
            Token::Equals => TokenView::Equals,
            Token::PlusEquals => TokenView::PlusEquals,
            Token::MinusEquals => TokenView::MinusEquals,
            Token::OrEquals => TokenView::OrEquals,
            Token::AndEquals => TokenView::AndEquals,
            Token::Eq => TokenView::Eq,
            Token::Lt => TokenView::Lt,
            Token::Gt => TokenView::Gt,
            Token::LtEq => TokenView::LtEq,
            Token::GtEq => TokenView::GtEq,
            Token::Comment(s) => TokenView::Comment(s@),
            Token::MultiCommentStart => TokenView::MultiCommentStart,
            Token::MultiCommentEnd => TokenView::MultiCommentEnd,
            Token::Indent => TokenView::Indent,
            Token::Dedent => TokenView::Dedent,
            Token::Newline => TokenView::Newline,
        }
    }
}

/// A token as displayed.
pub open spec fn token_text(token: TokenView) -> Seq<char> {
    match token {
        TokenView::Component => "component"@,
        TokenView::Module => "module"@,
        TokenView::Interface => "interface"@,
        TokenView::Pin => "pin"@,
        TokenView::Signal => "signal"@,
        TokenView::New => "new"@,
        TokenView::From => "from"@,
        TokenView::Import => "import"@,
        TokenView::Assert => "assert"@,
        TokenView::To => "to"@,
        TokenView::Within => "within"@,
        TokenView::Pass => "pass"@,
        TokenView::String(s) => "\""@ + s + "\""@,
        TokenView::Number(n) => n,
        TokenView::Name(n) => n,
        TokenView::True => "True"@,
        TokenView::False => "False"@,
        TokenView::PlusOrMinus => "+/-"@,
        TokenView::Arrow => "->"@,
        TokenView::Percent => "%"@,
        TokenView::Dot => "."@,
        TokenView::Star => "*"@,
        TokenView::Plus => "+"@,
        TokenView::Minus => "-"@,
        TokenView::Div => "/"@,
        TokenView::Tilde => "~"@,
        TokenView::LParen => "("@,
        TokenView::RParen => ")"@,
        TokenView::LBrack => "["@,
        TokenView::RBrack => "]"@,
        TokenView::LBrace => "{"@,
        TokenView::RBrace => "}"@,
        TokenView::Colon => ":"@,
        TokenView::Semicolon => ";"@,
        TokenView::Comma => ","@,
        TokenView::Equals => "="@,
        TokenView::PlusEquals => "+="@,
        TokenView::MinusEquals => "-="@,
        TokenView::OrEquals => "|="@,
        TokenView::AndEquals => "&="@,
        TokenView::Eq => "=="@,
        TokenView::Lt => "<"@,
        TokenView::Gt => ">"@,
        TokenView::LtEq => "<="@,
        TokenView::GtEq => ">="@,
        TokenView::Indent => "<indent>"@,
        TokenView::Dedent => "<dedent>"@,
        TokenView::Newline => "<newline>"@,
        TokenView::Comment(c) => "<comment: \""@ + c + "\">"@,
        TokenView::MultiCommentStart => "<multi-line comment start>"@,
        TokenView::MultiCommentEnd => "<multi-line comment end>"@,
    }
}

impl Token {
    /// Writes the token as displayed.
    pub fn to_string(&self) -> (r: String)
        ensures
            r@ == token_text(self@),
    {
        match self {
            Token::Component => owned_text("component"),
            Token::Module => owned_text("module"),
            Token::Interface => owned_text("interface"),
            Token::Pin => owned_text("pin"),
            Token::Signal => owned_text("signal"),
            Token::New => owned_text("new"),
            Token::From => owned_text("from"),
            Token::Import => owned_text("import"),
            Token::Assert => owned_text("assert"),
            Token::To => owned_text("to"),
            Token::Within => owned_text("within"),
            Token::Pass => owned_text("pass"),
            Token::String(s) => concat_text(concat_text(owned_text("\""), s.as_str()), "\""),
            Token::Number(n) => copy_text(n),
            Token::Name(n) => copy_text(n),
            Token::True => owned_text("True"),
            Token::False => owned_text("False"),
            Token::PlusOrMinus => owned_text("+/-"),
            Token::Arrow => owned_text("->"),
            Token::Percent => owned_text("%"),
            Token::Dot => owned_text("."),
            Token::Star => owned_text("*"),
            Token::Plus => owned_text("+"),
            Token::Minus => owned_text("-"),
            Token::Div => owned_text("/"),
            Token::Tilde => owned_text("~"),
            Token::LParen => owned_text("("),
            Token::RParen => owned_text(")"),
            Token::LBrack => owned_text("["),
            Token::RBrack => owned_text("]"),
            Token::LBrace => owned_text("{"),
            Token::RBrace => owned_text("}"),
            Token::Colon => owned_text(":"),
            Token::Semicolon => owned_text(";"),
            Token::Comma => owned_text(","),
            Token::Equals => owned_text("="),
            Token::PlusEquals => owned_text("+="),
            Token::MinusEquals => owned_text("-="),
            Token::OrEquals => owned_text("|="),
            Token::AndEquals => owned_text("&="),
            Token::Eq => owned_text("=="),
            Token::Lt => owned_text("<"),
            Token::Gt => owned_text(">"),
            Token::LtEq => owned_text("<="),
            Token::GtEq => owned_text(">="),
            Token::Indent => owned_text("<indent>"),
            Token::Dedent => owned_text("<dedent>"),
            Token::Newline => owned_text("<newline>"),
            Token::Comment(c) => concat_text(
                concat_text(owned_text("<comment: \""), c.as_str()),
                "\">",
            ),
            Token::MultiCommentStart => owned_text("<multi-line comment start>"),
            Token::MultiCommentEnd => owned_text("<multi-line comment end>"),
        }
    }
}

/// The byte offset at which the character at position `i` of `text`
/// starts in the encoded text; for `i` the length of `text`, the length of
/// the encoded text.
pub open spec fn offset(text: Seq<char>, i: int) -> int {
    encode_utf8(text.take(i)).len() as int
}

/// Whether `char::is_whitespace` holds of `c`.
pub uninterp spec fn white_space(c: char) -> bool;

/// Whether an identifier can start with `c`, as the crate `chumsky` judges
/// it (`chumsky::text::Char::is_ident_start`).
pub uninterp spec fn ident_start(c: char) -> bool;

/// Whether an identifier can go on with `c`, as the crate `chumsky` judges
/// it (`chumsky::text::Char::is_ident_continue`).
pub uninterp spec fn ident_continue(c: char) -> bool;

/// Calls `char::is_whitespace`; the result is named [`white_space`].
#[verifier::external_body]
fn is_white(c: char) -> (r: bool)
    ensures
        r == white_space(c),
{
    c.is_whitespace()
}

/// Calls `chumsky::text::Char::is_ident_start` on `c`; the result is named
/// [`ident_start`].
#[verifier::external_body]
fn is_ident_start(c: char) -> (r: bool)
    ensures
        r == ident_start(c),
{
    chumsky::text::Char::is_ident_start(&c)
}

/// Calls `chumsky::text::Char::is_ident_continue` on `c`; the result is
/// named [`ident_continue`].
#[verifier::external_body]
fn is_ident_continue(c: char) -> (r: bool)
    ensures
        r == ident_continue(c),
{
    chumsky::text::Char::is_ident_continue(&c)
}

/// The characters of a table of positions and characters.
pub open spec fn chars_of(table: Seq<(usize, char)>) -> Seq<char> {
    table.map_values(|p: (usize, char)| p.1)
}

/// Collects what `str::char_indices` yields for `text`: each character
/// with the byte offset at which it starts.
#[verifier::external_body]
fn decode(text: &str) -> (r: Vec<(usize, char)>)
    ensures
        chars_of(r@) == text@,
        forall|i: int| 0 <= i < r.len() ==> (#[trigger] r[i]).0 == offset(text@, i),
{
    text.char_indices().collect()
}

/// Collects the characters at the positions `from..to` of the table into a
/// `String`.
#[verifier::external_body]
fn text_between(table: &Vec<(usize, char)>, from: usize, to: usize) -> (r: String)
    requires
        from <= to <= table.len(),
    ensures
        r@ == chars_of(table@).subrange(from as int, to as int),
{
    table[from..to].iter().map(|p| p.1).collect()
}

/// Encoding a text with one more character appends the encoding of that
/// character.
proof fn lemma_encode_push(text: Seq<char>, c: char)
    ensures
        encode_utf8(text.push(c)) == encode_utf8(text) + encode_scalar(c as u32),
    decreases text.len(),
{
    if text.len() == 0 {
        let one = text.push(c);
        assert(one.drop_first() =~= Seq::<char>::empty());
        assert(encode_utf8(Seq::<char>::empty()) =~= Seq::<u8>::empty());
        assert(encode_utf8(text) =~= Seq::<u8>::empty());
        assert(encode_utf8(one) == encode_scalar(one[0] as u32) + encode_utf8(one.drop_first()));
        assert(encode_utf8(text.push(c)) =~= encode_scalar(c as u32));
        assert(encode_utf8(text) + encode_scalar(c as u32) =~= encode_scalar(c as u32));
    } else {
        assert(text.push(c).drop_first() =~= text.drop_first().push(c));
        lemma_encode_push(text.drop_first(), c);
        assert(encode_utf8(text.push(c)) =~= encode_utf8(text) + encode_scalar(c as u32));
    }
}

/// A later character starts at a later offset, or the same.
pub proof fn lemma_offset_grows(text: Seq<char>, i: int, j: int)
    requires
        0 <= i <= j <= text.len(),
    ensures
        0 <= offset(text, i) <= offset(text, j),
    decreases j - i,
{
    if i < j {
        lemma_offset_grows(text, i, j - 1);
        assert(text.take(j) =~= text.take(j - 1).push(text[j - 1]));
        lemma_encode_push(text.take(j - 1), text[j - 1]);
    }
}

/// The kinds of characters that the lexer reads in runs.
#[derive(Clone, Copy, Debug, PartialEq, Eq, Structural)]
pub enum Run {
    /// White space.
    White,
    /// What an identifier can go on with.
    Ident,
    /// Decimal digits.
    Digit,
    /// Anything but a double quote.
    NotQuote,
    /// Anything but a line break.
    NotNewline,
}

/// Whether `c` is a decimal digit.
pub open spec fn is_digit(c: char) -> bool {
    '0' <= c && c <= '9'
}

/// Whether `c` is of the kind `kind`.
pub open spec fn in_run(kind: Run, c: char) -> bool {
    match kind {
        Run::White => white_space(c),
        Run::Ident => ident_continue(c),
        Run::Digit => is_digit(c),
        Run::NotQuote => c != '"',
        Run::NotNewline => c != '\n',
    }
}

/// How many characters of the kind `kind` stand at the start of
/// `text[a..b]`.
pub open spec fn run(text: Seq<char>, a: int, b: int, kind: Run) -> nat
    decreases b - a,
{
    if a < 0 || a >= b || b > text.len() || !in_run(kind, text[a]) {
        0
    } else {
        1 + run(text, a + 1, b, kind)
    }
}

/// How many characters of the kind `kind` stand at the end of
/// `text[a..b]`.
pub open spec fn back_run(text: Seq<char>, a: int, b: int, kind: Run) -> nat
    decreases b - a,
{
    if a < 0 || a >= b || b > text.len() || !in_run(kind, text[b - 1]) {
        0
    } else {
        1 + back_run(text, a, b - 1, kind)
    }
}

/// Whether three double quotes stand at position `at`.
pub open spec fn is_triple(text: Seq<char>, at: int) -> bool {
    0 <= at && at + 3 <= text.len() && text[at] == '"' && text[at + 1] == '"' && text[at + 2]
        == '"'
}

/// How many characters of `text[a..b]` stand before the first three double
/// quotes in it; all of them where there are none.
pub open spec fn to_triple(text: Seq<char>, a: int, b: int) -> nat
    decreases b - a,
{
    if a < 0 || a >= b || b > text.len() {
        0
    } else if a + 3 <= b && is_triple(text, a) {
        0
    } else {
        1 + to_triple(text, a + 1, b)
    }
}

/// The keyword that `word` is, if it is one.
pub open spec fn keyword(word: Seq<char>) -> Option<TokenView> {
    if word == "component"@ {
        Some(TokenView::Component)
    } else if word == "module"@ {
        Some(TokenView::Module)
    } else if word == "interface"@ {
        Some(TokenView::Interface)
    } else if word == "pin"@ {
        Some(TokenView::Pin)
    } else if word == "signal"@ {
        Some(TokenView::Signal)
    } else if word == "new"@ {
        Some(TokenView::New)
    } else if word == "from"@ {
        Some(TokenView::From)
    } else if word == "import"@ {
        Some(TokenView::Import)
    } else if word == "assert"@ {
        Some(TokenView::Assert)
    } else if word == "to"@ {
        Some(TokenView::To)
    } else if word == "within"@ {
        Some(TokenView::Within)
    } else if word == "pass"@ {
        Some(TokenView::Pass)
    } else if word == "True"@ {
        Some(TokenView::True)
    } else if word == "False"@ {
        Some(TokenView::False)
    } else {
        None
    }
}

/// The symbol at position `p` of `text[..b]`, and how many characters it
/// has after its first. Of the symbols that start alike the one listed
/// first wins, so that `+=` and `-=` are read as two symbols.
pub open spec fn symbol_at(text: Seq<char>, p: int, b: int) -> Option<(TokenView, nat)> {
    let c = text[p];
    let second = p + 1 < b;
    let third = p + 2 < b;
    if c == '+' && third && text[p + 1] == '/' && text[p + 2] == '-' {
        Some((TokenView::PlusOrMinus, 2nat))
    } else if c == '\u{b1}' {
        Some((TokenView::PlusOrMinus, 0nat))
    } else if c == '-' && second && text[p + 1] == '>' {
        Some((TokenView::Arrow, 1nat))
    } else if c == '%' {
        Some((TokenView::Percent, 0nat))
    } else if c == '.' {
        Some((TokenView::Dot, 0nat))
    } else if c == '*' {
        Some((TokenView::Star, 0nat))
    } else if c == '+' {
        Some((TokenView::Plus, 0nat))
    } else if c == '-' {
        Some((TokenView::Minus, 0nat))
    } else if c == '/' {
        Some((TokenView::Div, 0nat))
    } else if c == '~' {
        Some((TokenView::Tilde, 0nat))
    } else if c == '(' {
        Some((TokenView::LParen, 0nat))
    } else if c == ')' {
        Some((TokenView::RParen, 0nat))
    } else if c == '[' {
        Some((TokenView::LBrack, 0nat))
    } else if c == ']' {
        Some((TokenView::RBrack, 0nat))
    } else if c == '{' {
        Some((TokenView::LBrace, 0nat))
    } else if c == '}' {
        Some((TokenView::RBrace, 0nat))
    } else if c == ':' {
        Some((TokenView::Colon, 0nat))
    } else if c == ';' {
        Some((TokenView::Semicolon, 0nat))
    } else if c == ',' {
        Some((TokenView::Comma, 0nat))
    } else if c == '|' && second && text[p + 1] == '=' {
        Some((TokenView::OrEquals, 1nat))
    } else if c == '&' && second && text[p + 1] == '=' {
        Some((TokenView::AndEquals, 1nat))
    } else if c == '=' && second && text[p + 1] == '=' {
        Some((TokenView::Eq, 1nat))
    } else if c == '=' {
        Some((TokenView::Equals, 0nat))
    } else if c == '<' && second && text[p + 1] == '=' {
        Some((TokenView::LtEq, 1nat))
    } else if c == '>' && second && text[p + 1] == '=' {
        Some((TokenView::GtEq, 1nat))
    } else if c == '<' {
        Some((TokenView::Lt, 0nat))
    } else if c == '>' {
        Some((TokenView::Gt, 0nat))
    } else {
        None
    }
}

/// The token that starts at position `p` of `text[..b]`, and how many
/// characters it has after its first: a comment to the end, a keyword or a
/// name, a number, a string, or a symbol.
pub open spec fn token_at(text: Seq<char>, p: int, b: int) -> Option<(TokenView, nat)> {
    let c = text[p];
    if c == '#' {
        Some((TokenView::Comment(text.subrange(p + 1, b)), (b - p - 1) as nat))
    } else if ident_start(c) {
        let more = run(text, p + 1, b, Run::Ident);
        let word = text.subrange(p, p + 1 + more);
        Some(
            (
                match keyword(word) {
                    Some(k) => k,
                    None => TokenView::Name(word),
                },
                more,
            ),
        )
    } else if is_digit(c) {
        let whole = if c == '0' {
            0nat
        } else {
            run(text, p + 1, b, Run::Digit)
        };
        let dot = p + 1 + whole;
        let fraction = if dot + 1 < b && text[dot] == '.' && is_digit(text[dot + 1]) {
            1 + run(text, dot + 1, b, Run::Digit)
        } else {
            0nat
        };
        Some((TokenView::Number(text.subrange(p, dot + fraction)), whole + fraction))
    } else if c == '"' {
        let inner = run(text, p + 1, b, Run::NotQuote);
        if p + 1 + inner < b {
            Some((TokenView::String(text.subrange(p + 1, p + 1 + inner)), inner + 1))
        } else {
            None
        }
    } else {
        symbol_at(text, p, b)
    }
}

/// The span of the characters `text[a..b]` in bytes, moved by `shift`.
pub open spec fn span_of(text: Seq<char>, a: int, b: int, shift: int) -> Span {
    Span { start: (offset(text, a) + shift) as usize, end: (offset(text, b) + shift) as usize }
}

/// The tokens of `text[p..b]` after `done`, and the position at which no
/// token starts, if there is one.
pub open spec fn scanned(
    text: Seq<char>,
    p: int,
    b: int,
    shift: int,
    done: Seq<(TokenView, Span)>,
) -> (Seq<(TokenView, Span)>, Option<int>)
    decreases
            if b - p > 0 {
                b - p
            } else {
                0
            },
{
    let q = p + run(text, p, b, Run::White);
    if p < 0 || q >= b {
        (done, None)
    } else {
        match token_at(text, q, b) {
            None => (done, Some(q)),
            Some((token, more)) => scanned(
                text,
                q + 1 + more,
                b,
                shift,
                done.push((token, span_of(text, q, q + 1 + more, shift))),
            ),
        }
    }
}

/// What the lexer has read so far: the tokens, the errors, the
/// indentation levels that are open, and whether it is inside a comment
/// between triple quotes.
pub struct LexState {
    pub tokens: Seq<(TokenView, Span)>,
    pub errors: Seq<ErrorReportView>,
    pub levels: Seq<usize>,
    pub in_comment: bool,
}

/// The report that no token starts at position `at` of `text[..b]`.
pub open spec fn failure(text: Seq<char>, at: int, b: int, shift: int) -> ErrorReportView {
    ErrorReportView {
        span: span_of(
            text,
            at,
            if at < b {
                at + 1
            } else {
                at
            },
            shift,
        ),
        reason: "unexpected input"@,
        expected: Seq::empty(),
        found: if at < b {
            Some(text.subrange(at, at + 1))
        } else {
            None
        },
    }
}

/// The state after reading `text[a..b]` as tokens. Where some part of it
/// is no token, none of its tokens count, and the failure is reported.
pub open spec fn slice_done(text: Seq<char>, a: int, b: int, shift: int, state: LexState) -> LexState {
    if a + run(text, a, b, Run::White) >= b {
        LexState { errors: state.errors.push(failure(text, b, b, shift)), ..state }
    } else {
        match scanned(text, a, b, shift, Seq::empty()) {
            (tokens, None) => LexState { tokens: state.tokens + tokens, ..state },
            (_, Some(at)) => LexState {
                errors: state.errors.push(failure(text, at, b, shift)),
                ..state
            },
        }
    }
}

/// The tokens with the comment `text[a..b]` after them, without the white
/// space around it; a comment of white space only is left out.
pub open spec fn with_comment(
    text: Seq<char>,
    a: int,
    b: int,
    shift: int,
    tokens: Seq<(TokenView, Span)>,
) -> Seq<(TokenView, Span)> {
    let from = a + run(text, a, b, Run::White);
    let to = b - back_run(text, from, b, Run::White);
    if from < to {
        tokens.push((TokenView::Comment(text.subrange(from, to)), span_of(text, a, b, shift)))
    } else {
        tokens
    }
}

/// The state after reading the rest `text[pos..te]` of a line that ends at
/// `end`: tokens outside of triple quotes, comments inside.
pub open spec fn content_done(
    text: Seq<char>,
    pos: int,
    te: int,
    shift: int,
    end: int,
    state: LexState,
) -> LexState
    decreases te - pos,
{
    if pos < 0 || pos >= te {
        state
    } else {
        let before = to_triple(text, pos, te);
        let quotes = pos + before;
        if state.in_comment {
            if quotes + 3 <= te {
                content_done(
                    text,
                    quotes + 3,
                    te,
                    shift,
                    end,
                    LexState {
                        tokens: with_comment(text, pos, quotes, shift, state.tokens),
                        in_comment: false,
                        ..state
                    },
                )
            } else {
                LexState {
                    tokens: state.tokens.push(
                        (
                            TokenView::Comment(text.subrange(pos, te)),
                            Span {
                                start: (offset(text, pos) + shift) as usize,
                                end: offset(text, end) as usize,
                            },
                        ),
                    ),
                    ..state
                }
            }
        } else if quotes + 3 <= te {
            let state1 = if before > 0 {
                slice_done(text, pos, quotes, shift, state)
            } else {
                state
            };
            let inside = quotes + 3;
            let closing = inside + to_triple(text, inside, te);
            if closing + 3 <= te {
                content_done(
                    text,
                    closing + 3,
                    te,
                    shift,
                    end,
                    LexState {
                        tokens: with_comment(text, inside, closing, shift, state1.tokens),
                        in_comment: false,
                        ..state1
                    },
                )
            } else {
                content_done(text, inside, te, shift, end, LexState { in_comment: true, ..state1 })
            }
        } else {
            slice_done(text, pos, te, shift, state)
        }
    }
}

/// The open levels and the tokens after closing every level deeper than
/// `level`, with a `Dedent` at `at` for each.
pub open spec fn dedented(
    levels: Seq<usize>,
    level: int,
    tokens: Seq<(TokenView, Span)>,
    at: usize,
) -> (Seq<usize>, Seq<(TokenView, Span)>)
    decreases levels.len(),
{
    if levels.len() > 0 && level < levels.last() {
        dedented(
            levels.drop_last(),
            level,
            tokens.push((TokenView::Dedent, Span { start: at, end: at })),
            at,
        )
    } else {
        (levels, tokens)
    }
}

/// The state after the indentation of a line that is indented by `level`
/// characters and starts at the byte `at`.
pub open spec fn indented(state: LexState, level: int, at: usize) -> LexState {
    let (levels, tokens) = dedented(state.levels, level, state.tokens, at);
    if levels.len() > 0 && level > levels.last() {
        LexState {
            levels: levels.push(level as usize),
            tokens: tokens.push((TokenView::Indent, Span { start: at, end: at })),
            ..state
        }
    } else {
        LexState { levels, tokens, ..state }
    }
}

/// The state after reading the line `text[start..end]`. A line of white
/// space only changes nothing.
pub open spec fn line_done(text: Seq<char>, start: int, end: int, state: LexState) -> LexState {
    let from = start + run(text, start, end, Run::White);
    let to = end - back_run(text, from, end, Run::White);
    if from >= to {
        state
    } else {
        let state1 = if state.in_comment {
            state
        } else {
            indented(state, from - start, offset(text, start) as usize)
        };
        content_done(text, from, to, offset(text, end) - offset(text, to), end, state1)
    }
}

/// The state after reading the lines of `text` from position `start` on,
/// with a `Newline` for every line break.
pub open spec fn lines_done(text: Seq<char>, start: int, state: LexState) -> LexState
    decreases text.len() - start,
{
    if start < 0 || start > text.len() {
        state
    } else {
        let end = start + run(text, start, text.len() as int, Run::NotNewline);
        let state1 = line_done(text, start, end, state);
        if end >= text.len() {
            state1
        } else {
            lines_done(
                text,
                end + 1,
                LexState {
                    tokens: state1.tokens.push(
                        (
                            TokenView::Newline,
                            Span {
                                start: offset(text, end) as usize,
                                end: offset(text, end + 1) as usize,
                            },
                        ),
                    ),
                    ..state1
                },
            )
        }
    }
}

/// The tokens after closing every level but the outermost, with a `Dedent`
/// at `at` for each.
pub open spec fn closed(
    levels: Seq<usize>,
    tokens: Seq<(TokenView, Span)>,
    at: usize,
) -> Seq<(TokenView, Span)>
    decreases levels.len(),
{
    if levels.len() > 1 {
        closed(levels.drop_last(), tokens.push((TokenView::Dedent, Span { start: at, end: at })), at)
    } else {
        tokens
    }
}

/// The tokens and the errors of `text`.
pub open spec fn lexed(text: Seq<char>) -> (Seq<(TokenView, Span)>, Seq<ErrorReportView>) {
    if text.len() == 0 {
        (Seq::empty(), Seq::empty())
    } else {
        let state = lines_done(
            text,
            0,
            LexState {
                tokens: Seq::empty(),
                errors: Seq::empty(),
                levels: seq![0usize],
                in_comment: false,
            },
        );
        (closed(state.levels, state.tokens, offset(text, text.len() as int) as usize), state.errors)
    }
}

/// What each spanned token of a list stands for.
pub open spec fn token_views(tokens: Seq<Spanned<Token>>) -> Seq<(TokenView, Span)> {
    tokens.map_values(|t: Spanned<Token>| (t.0@, t.1))
}

/// What each report of a list stands for.
pub open spec fn report_views(reports: Seq<AtopileErrorReport>) -> Seq<ErrorReportView> {
    reports.map_values(|r: AtopileErrorReport| r@)
}

/// The table holds each character of its text with the byte offset at which
/// it starts, and `total` is the length of the text in bytes.
spec fn decoded(table: Seq<(usize, char)>, total: usize) -> bool {
    &&& forall|i: int| 0 <= i < table.len() ==> (#[trigger] table[i]).0 == offset(chars_of(table), i)
    &&& total == offset(chars_of(table), table.len() as int)
}

/// The byte offset of position `i`.
fn offset_at(table: &Vec<(usize, char)>, total: usize, i: usize) -> (r: usize)
    requires
        decoded(table@, total),
        i <= table.len(),
    ensures
        r == offset(chars_of(table@), i as int),
{
    if i < table.len() {
        table[i].0
    } else {
        total
    }
}

/// Tests whether `c` is of the kind `kind`.
fn is_in_run(kind: Run, c: char) -> (r: bool)
    ensures
        r == in_run(kind, c),
{
    match kind {
        Run::White => is_white(c),
        Run::Ident => is_ident_continue(c),
        Run::Digit => '0' <= c && c <= '9',
        Run::NotQuote => c != '"',
        Run::NotNewline => c != '\n',
    }
}

/// How many characters of the kind `kind` stand at the start of the
/// positions `a..b`.
fn run_len(table: &Vec<(usize, char)>, a: usize, b: usize, kind: Run) -> (r: usize)
    requires
        a <= b <= table.len(),
    ensures
        r == run(chars_of(table@), a as int, b as int, kind),
        a + r <= b,
{
    let ghost text = chars_of(table@);
    let mut i: usize = a;
    while i < b && is_in_run(kind, table[i].1)
        invariant
            a <= i <= b <= table.len(),
            text == chars_of(table@),
            run(text, a as int, b as int, kind) == (i - a) + run(text, i as int, b as int, kind),
        decreases b - i,
    {
        i += 1;
    }
    i - a
}

/// How many characters of the kind `kind` stand at the end of the
/// positions `a..b`.
fn back_run_len(table: &Vec<(usize, char)>, a: usize, b: usize, kind: Run) -> (r: usize)
    requires
        a <= b <= table.len(),
    ensures
        r == back_run(chars_of(table@), a as int, b as int, kind),
        r <= b - a,
{
    let ghost text = chars_of(table@);
    let mut i: usize = b;
    while i > a && is_in_run(kind, table[i - 1].1)
        invariant
            a <= i <= b <= table.len(),
            text == chars_of(table@),
            back_run(text, a as int, b as int, kind) == (b - i) + back_run(
                text,
                a as int,
                i as int,
                kind,
            ),
        decreases i - a,
    {
        i -= 1;
    }
    b - i
}

/// How many of the positions `a..b` stand before the first three double
/// quotes among them.
fn triple_distance(table: &Vec<(usize, char)>, a: usize, b: usize) -> (r: usize)
    requires
        a <= b <= table.len(),
    ensures
        r == to_triple(chars_of(table@), a as int, b as int),
        a + r <= b,
{
    let ghost text = chars_of(table@);
    let mut i: usize = a;
    while i < b
        invariant
            a <= i <= b <= table.len(),
            text == chars_of(table@),
            to_triple(text, a as int, b as int) == (i - a) + to_triple(text, i as int, b as int),
        decreases b - i,
    {
        if b - i >= 3 && table[i].1 == '"' && table[i + 1].1 == '"' && table[i + 2].1 == '"' {
            return i - a;
        }
        i += 1;
    }
    i - a
}

/// The keyword that `word` is, or the name.
fn word_token(word: String) -> (r: Token)
    ensures
        r@ == match keyword(word@) {
            Some(k) => k,
            None => TokenView::Name(word@),
        },
{
    if same_text(&word, &owned_text("component")) {
        Token::Component
    } else if same_text(&word, &owned_text("module")) {
        Token::Module
    } else if same_text(&word, &owned_text("interface")) {
        Token::Interface
    } else if same_text(&word, &owned_text("pin")) {
        Token::Pin
    } else if same_text(&word, &owned_text("signal")) {
        Token::Signal
    } else if same_text(&word, &owned_text("new")) {
        Token::New
    } else if same_text(&word, &owned_text("from")) {
        Token::From
    } else if same_text(&word, &owned_text("import")) {
        Token::Import
    } else if same_text(&word, &owned_text("assert")) {
        Token::Assert
    } else if same_text(&word, &owned_text("to")) {
        Token::To
    } else if same_text(&word, &owned_text("within")) {
        Token::Within
    } else if same_text(&word, &owned_text("pass")) {
        Token::Pass
    } else if same_text(&word, &owned_text("True")) {
        Token::True
    } else if same_text(&word, &owned_text("False")) {
        Token::False
    } else {
        Token::Name(word)
    }
}

/// The symbol at position `p`, and the position after it.
fn read_symbol(table: &Vec<(usize, char)>, p: usize, b: usize) -> (r: Option<(Token, usize)>)
    requires
        p < b <= table.len(),
    ensures
        match r {
            Some((token, e)) => p < e <= b && symbol_at(chars_of(table@), p as int, b as int)
                == Some((token@, (e - p - 1) as nat)),
            None => symbol_at(chars_of(table@), p as int, b as int) is None,
        },
{
    let c = table[p].1;
    let second = p + 1 < b;
    let third = second && p + 2 < b;
    if c == '+' && third && table[p + 1].1 == '/' && table[p + 2].1 == '-' {
        Some((Token::PlusOrMinus, p + 3))
    } else if c == '\u{b1}' {
        Some((Token::PlusOrMinus, p + 1))
    } else if c == '-' && second && table[p + 1].1 == '>' {
        Some((Token::Arrow, p + 2))
    } else if c == '%' {
        Some((Token::Percent, p + 1))
    } else if c == '.' {
        Some((Token::Dot, p + 1))
    } else if c == '*' {
        Some((Token::Star, p + 1))
    } else if c == '+' {
        Some((Token::Plus, p + 1))
    } else if c == '-' {
        Some((Token::Minus, p + 1))
    } else if c == '/' {
        Some((Token::Div, p + 1))
    } else if c == '~' {
        Some((Token::Tilde, p + 1))
    } else if c == '(' {
        Some((Token::LParen, p + 1))
    } else if c == ')' {
        Some((Token::RParen, p + 1))
    } else if c == '[' {
        Some((Token::LBrack, p + 1))
    } else if c == ']' {
        Some((Token::RBrack, p + 1))
    } else if c == '{' {
        Some((Token::LBrace, p + 1))
    } else if c == '}' {
        Some((Token::RBrace, p + 1))
    } else if c == ':' {
        Some((Token::Colon, p + 1))
    } else if c == ';' {
        Some((Token::Semicolon, p + 1))
    } else if c == ',' {
        Some((Token::Comma, p + 1))
    } else if c == '|' && second && table[p + 1].1 == '=' {
        Some((Token::OrEquals, p + 2))
    } else if c == '&' && second && table[p + 1].1 == '=' {
        Some((Token::AndEquals, p + 2))
    } else if c == '=' && second && table[p + 1].1 == '=' {
        Some((Token::Eq, p + 2))
    } else if c == '=' {
        Some((Token::Equals, p + 1))
    } else if c == '<' && second && table[p + 1].1 == '=' {
        Some((Token::LtEq, p + 2))
    } else if c == '>' && second && table[p + 1].1 == '=' {
        Some((Token::GtEq, p + 2))
    } else if c == '<' {
        Some((Token::Lt, p + 1))
    } else if c == '>' {
        Some((Token::Gt, p + 1))
    } else {
        None
    }
}

/// The token that starts at position `p`, and the position after it.
fn read_token(table: &Vec<(usize, char)>, p: usize, b: usize) -> (r: Option<(Token, usize)>)
    requires
        p < b <= table.len(),
    ensures
        match r {
            Some((token, e)) => p < e <= b && token_at(chars_of(table@), p as int, b as int)
                == Some((token@, (e - p - 1) as nat)),
            None => token_at(chars_of(table@), p as int, b as int) is None,
        },
{
    let c = table[p].1;
    if c == '#' {
        Some((Token::Comment(text_between(table, p + 1, b)), b))
    } else if is_ident_start(c) {
        let e = p + 1 + run_len(table, p + 1, b, Run::Ident);
        Some((word_token(text_between(table, p, e)), e))
    } else if '0' <= c && c <= '9' {
        let dot = if c == '0' {
            p + 1
        } else {
            p + 1 + run_len(table, p + 1, b, Run::Digit)
        };
        let e = if b - dot > 1 && table[dot].1 == '.' && '0' <= table[dot + 1].1 && table[dot
            + 1].1 <= '9' {
            dot + 1 + run_len(table, dot + 1, b, Run::Digit)
        } else {
            dot
        };
        Some((Token::Number(text_between(table, p, e)), e))
    } else if c == '"' {
        let close = p + 1 + run_len(table, p + 1, b, Run::NotQuote);
        if close < b {
            Some((Token::String(text_between(table, p + 1, close)), close + 1))
        } else {
            None
        }
    } else {
        read_symbol(table, p, b)
    }
}

/// The tokens of the positions `a..b`, or the position at which no token
/// starts.
fn scan(table: &Vec<(usize, char)>, total: usize, a: usize, b: usize, shift: usize) -> (r: Result<
    Vec<Spanned<Token>>,
    usize,
>)
    requires
        decoded(table@, total),
        a <= b <= table.len(),
        offset(chars_of(table@), b as int) + shift <= total,
    ensures
        match r {
            Ok(tokens) => scanned(chars_of(table@), a as int, b as int, shift as int, Seq::empty())
                == (token_views(tokens@), None::<int>),
            Err(at) => at < b && scanned(
                chars_of(table@),
                a as int,
                b as int,
                shift as int,
                Seq::empty(),
            ).1 == Some(at as int),
        },
{
    let ghost text = chars_of(table@);
    let mut out: Vec<Spanned<Token>> = Vec::new();
    let mut p: usize = a;
    assert(token_views(out@) =~= Seq::empty());
    loop
        invariant
            decoded(table@, total),
            a <= p <= b <= table.len(),
            text == chars_of(table@),
            offset(text, b as int) + shift <= total,
            scanned(text, a as int, b as int, shift as int, Seq::empty()) == scanned(
                text,
                p as int,
                b as int,
                shift as int,
                token_views(out@),
            ),
        decreases b - p,
    {
        let q = p + run_len(table, p, b, Run::White);
        if q >= b {
            return Ok(out);
        }
        match read_token(table, q, b) {
            None => {
                return Err(q);
            },
            Some((token, e)) => {
                proof {
                    lemma_offset_grows(text, q as int, e as int);
                    lemma_offset_grows(text, e as int, b as int);
                }
                let start = offset_at(table, total, q) + shift;
                let end = offset_at(table, total, e) + shift;
                let ghost before = token_views(out@);
                out.push(Spanned(token, Span { start, end }));
                assert(token_views(out@) =~= before.push(
                    (token@, span_of(text, q as int, e as int, shift as int)),
                ));
                p = e;
            },
        }
    }
}

/// What the lexer has read so far.
struct Lexing {
    tokens: Vec<Spanned<Token>>,
    errors: Vec<AtopileErrorReport>,
    levels: Vec<usize>,
    in_comment: bool,
}

impl View for Lexing {
    type V = LexState;

    closed spec fn view(&self) -> LexState {
        LexState {
            tokens: token_views(self.tokens@),
            errors: report_views(self.errors@),
            levels: self.levels@,
            in_comment: self.in_comment,
        }
    }
}

/// The outermost level is open and not indented.
spec fn steady(state: LexState) -> bool {
    state.levels.len() >= 1 && state.levels[0] == 0
}

impl Lexing {
    /// Appends a token.
    fn push(&mut self, token: Token, start: usize, end: usize)
        ensures
            final(self)@ == (LexState {
                tokens: old(self)@.tokens.push((token@, Span { start, end })),
                ..old(self)@
            }),
    {
        self.tokens.push(Spanned(token, Span { start, end }));
        assert(token_views(self.tokens@) =~= old(self)@.tokens.push((token@, Span { start, end })));
    }

    /// Reports that no token starts at position `at`.
    fn fail(&mut self, table: &Vec<(usize, char)>, total: usize, at: usize, b: usize, shift: usize)
        requires
            decoded(table@, total),
            at <= b <= table.len(),
            offset(chars_of(table@), b as int) + shift <= total,
        ensures
            final(self)@ == (LexState {
                errors: old(self)@.errors.push(
                    failure(chars_of(table@), at as int, b as int, shift as int),
                ),
                ..old(self)@
            }),
    {
        let ghost text = chars_of(table@);
        let to = if at < b {
            at + 1
        } else {
            at
        };
        proof {
            lemma_offset_grows(text, at as int, to as int);
            lemma_offset_grows(text, to as int, b as int);
        }
        let report = AtopileErrorReport {
            span: Span {
                start: offset_at(table, total, at) + shift,
                end: offset_at(table, total, to) + shift,
            },
            reason: owned_text("unexpected input"),
            expected: Vec::new(),
            found: if at < b {
                Some(text_between(table, at, at + 1))
            } else {
                None
            },
        };
        assert(report@.expected =~= Seq::empty());
        assert(report@ == failure(text, at as int, b as int, shift as int));
        self.errors.push(report);
        assert(report_views(self.errors@) =~= old(self)@.errors.push(report@));
    }

    /// Reads the positions `a..b` as tokens.
    fn slice(&mut self, table: &Vec<(usize, char)>, total: usize, a: usize, b: usize, shift: usize)
        requires
            decoded(table@, total),
            a <= b <= table.len(),
            offset(chars_of(table@), b as int) + shift <= total,
        ensures
            final(self)@ == slice_done(
                chars_of(table@),
                a as int,
                b as int,
                shift as int,
                old(self)@,
            ),
    {
        if a + run_len(table, a, b, Run::White) >= b {
            self.fail(table, total, b, b, shift);
            return ;
        }
        match scan(table, total, a, b, shift) {
            Ok(mut tokens) => {
                let ghost more = token_views(tokens@);
                self.tokens.append(&mut tokens);
                assert(token_views(self.tokens@) =~= old(self)@.tokens + more);
            },
            Err(at) => {
                self.fail(table, total, at, b, shift);
            },
        }
    }

    /// Appends the comment at the positions `a..b` without the white space
    /// around it, unless it is white space only.
    fn comment(&mut self, table: &Vec<(usize, char)>, total: usize, a: usize, b: usize, shift: usize)
        requires
            decoded(table@, total),
            a <= b <= table.len(),
            offset(chars_of(table@), b as int) + shift <= total,
        ensures
            final(self)@ == (LexState {
                tokens: with_comment(
                    chars_of(table@),
                    a as int,
                    b as int,
                    shift as int,
                    old(self)@.tokens,
                ),
                ..old(self)@
            }),
    {
        let from = a + run_len(table, a, b, Run::White);
        let to = b - back_run_len(table, from, b, Run::White);
        if from < to {
            proof {
                lemma_offset_grows(chars_of(table@), a as int, b as int);
            }
            let start = offset_at(table, total, a) + shift;
            let end = offset_at(table, total, b) + shift;
            self.push(Token::Comment(text_between(table, from, to)), start, end);
        }
    }

    /// Reads the rest `pos..te` of a line that ends at `end`.
    fn content(
        &mut self,
        table: &Vec<(usize, char)>,
        total: usize,
        from: usize,
        te: usize,
        shift: usize,
        end: usize,
    )
        requires
            decoded(table@, total),
            from <= te <= end <= table.len(),
            offset(chars_of(table@), te as int) + shift <= total,
        ensures
            final(self)@ == content_done(
                chars_of(table@),
                from as int,
                te as int,
                shift as int,
                end as int,
                old(self)@,
            ),
            final(self)@.levels == old(self)@.levels,
    {
        let ghost text = chars_of(table@);
        let mut pos = from;
        while pos < te
            invariant
                decoded(table@, total),
                self@.levels == old(self)@.levels,
                from <= pos <= te <= end <= table.len(),
                text == chars_of(table@),
                offset(text, te as int) + shift <= total,
                content_done(text, from as int, te as int, shift as int, end as int, old(self)@)
                    == content_done(
                    text,
                    pos as int,
                    te as int,
                    shift as int,
                    end as int,
                    self@,
                ),
            decreases te - pos,
        {
            let quotes = pos + triple_distance(table, pos, te);
            proof {
                lemma_offset_grows(text, pos as int, quotes as int);
                lemma_offset_grows(text, quotes as int, te as int);
            }
            if self.in_comment {
                if te - quotes >= 3 {
                    self.comment(table, total, pos, quotes, shift);
                    self.in_comment = false;
                    pos = quotes + 3;
                } else {
                    let start = offset_at(table, total, pos) + shift;
                    let stop = offset_at(table, total, end);
                    self.push(Token::Comment(text_between(table, pos, te)), start, stop);
                    return ;
                }
            } else if te - quotes >= 3 {
                if quotes > pos {
                    self.slice(table, total, pos, quotes, shift);
                }
                let inside = quotes + 3;
                let closing = inside + triple_distance(table, inside, te);
                if te - closing >= 3 {
                    proof {
                        lemma_offset_grows(text, closing as int, te as int);
                    }
                    self.comment(table, total, inside, closing, shift);
                    self.in_comment = false;
                    pos = closing + 3;
                } else {
                    self.in_comment = true;
                    pos = inside;
                }
            } else {
                self.slice(table, total, pos, te, shift);
                return ;
            }
        }
    }

    /// Closes the levels deeper than `level` and opens `level` if it is
    /// deeper than what is open.
    fn indent(&mut self, level: usize, at: usize)
        requires
            steady(old(self)@),
        ensures
            final(self)@ == indented(old(self)@, level as int, at),
            steady(final(self)@),
    {
        while level < self.levels[self.levels.len() - 1]
            invariant
                steady(self@),
                self@.errors == old(self)@.errors,
                self@.in_comment == old(self)@.in_comment,
                dedented(old(self)@.levels, level as int, old(self)@.tokens, at) == dedented(
                    self@.levels,
                    level as int,
                    self@.tokens,
                    at,
                ),
            decreases self.levels.len(),
        {
            let ghost before = self@;
            self.levels.pop();
            self.push(Token::Dedent, at, at);
            assert(self@.levels =~= before.levels.drop_last());
        }
        if level > self.levels[self.levels.len() - 1] {
            self.levels.push(level);
            self.push(Token::Indent, at, at);
        }
    }

    /// Reads the line at the positions `start..end`.
    fn line(&mut self, table: &Vec<(usize, char)>, total: usize, start: usize, end: usize)
        requires
            decoded(table@, total),
            start <= end <= table.len(),
            steady(old(self)@),
        ensures
            final(self)@ == line_done(chars_of(table@), start as int, end as int, old(self)@),
            steady(final(self)@),
    {
        let ghost text = chars_of(table@);
        let from = start + run_len(table, start, end, Run::White);
        let to = end - back_run_len(table, from, end, Run::White);
        if from >= to {
            return ;
        }
        if !self.in_comment {
            self.indent(from - start, offset_at(table, total, start));
        }
        proof {
            lemma_offset_grows(text, to as int, end as int);
            lemma_offset_grows(text, end as int, table.len() as int);
        }
        let shift = offset_at(table, total, end) - offset_at(table, total, to);
        self.content(table, total, from, to, shift, end);
    }
}

impl Lexing {
    /// Reads every line from the start of the text on.
    fn lines(&mut self, table: &Vec<(usize, char)>, total: usize)
        requires
            decoded(table@, total),
            steady(old(self)@),
        ensures
            final(self)@ == lines_done(chars_of(table@), 0, old(self)@),
    {
        let ghost text = chars_of(table@);
        let mut start: usize = 0;
        loop
            invariant_except_break
                lines_done(text, 0, old(self)@) == lines_done(text, start as int, self@),
            invariant
                decoded(table@, total),
                text == chars_of(table@),
                start <= table.len(),
                steady(self@),
            ensures
                self@ == lines_done(text, 0, old(self)@),
            decreases table.len() - start,
        {
            let end = start + run_len(table, start, table.len(), Run::NotNewline);
            self.line(table, total, start, end);
            if end >= table.len() {
                break ;
            }
            proof {
                lemma_offset_grows(text, end as int, end + 1);
                lemma_offset_grows(text, end + 1, table.len() as int);
            }
            let from = offset_at(table, total, end);
            let to = offset_at(table, total, end + 1);
            self.push(Token::Newline, from, to);
            start = end + 1;
        }
    }

    /// Closes every level but the outermost.
    fn close(&mut self, at: usize)
        ensures
            final(self)@.tokens == closed(old(self)@.levels, old(self)@.tokens, at),
            final(self)@.errors == old(self)@.errors,
    {
        while self.levels.len() > 1
            invariant
                self@.errors == old(self)@.errors,
                closed(old(self)@.levels, old(self)@.tokens, at) == closed(
                    self@.levels,
                    self@.tokens,
                    at,
                ),
            decreases self.levels.len(),
        {
            let ghost before = self@;
            self.levels.pop();
            self.push(Token::Dedent, at, at);
            assert(self@.levels =~= before.levels.drop_last());
        }
    }

    /// The state in which nothing is read and only the outermost level is
    /// open.
    fn new() -> (r: Self)
        ensures
            r@ == (LexState {
                tokens: Seq::empty(),
                errors: Seq::empty(),
                levels: seq![0usize],
                in_comment: false,
            }),
    {
        let mut levels: Vec<usize> = Vec::new();
        levels.push(0);
        let r = Lexing { tokens: Vec::new(), errors: Vec::new(), levels, in_comment: false };
        assert(r@.tokens =~= Seq::empty());
        assert(r@.errors =~= Seq::empty());
        assert(r@.levels =~= seq![0usize]);
        r
    }

    /// The tokens and the errors that were read.
    fn finish(self) -> (r: (Vec<Spanned<Token>>, Vec<AtopileErrorReport>))
        ensures
            token_views(r.0@) == self@.tokens,
            report_views(r.1@) == self@.errors,
    {
        (self.tokens, self.errors)
    }
}

/// The lexer of the language.
pub struct Lexer;

impl Lexer {
    /// The tokens of `input`, and the reports of the parts of it that are
    /// no tokens.
    pub fn lex(input: &str) -> (r: (Vec<Spanned<Token>>, Vec<AtopileErrorReport>))
        ensures
            (token_views(r.0@), report_views(r.1@)) == lexed(input@),
    {
        let table = decode(input);
        let total = input.as_bytes().len();
        let ghost text = input@;
        assert(text.take(text.len() as int) =~= text);
        assert(chars_of(table@).len() == table@.len());
        if table.len() == 0 {
            let tokens: Vec<Spanned<Token>> = Vec::new();
            let errors: Vec<AtopileErrorReport> = Vec::new();
            assert(token_views(tokens@) =~= Seq::empty());
            assert(report_views(errors@) =~= Seq::empty());
            return (tokens, errors);
        }
        assert(chars_of(table@) == text);
        assert(total == encode_utf8(text).len());
        assert(total == offset(text, table.len() as int));
        assert(decoded(table@, total));
        let mut state = Lexing::new();
        state.lines(&table, total);
        state.close(total);
        state.finish()
    }
}

/// The tokens of `input`, and the reports of the parts of it that are no
/// tokens.
pub fn lex(input: &str) -> (r: (Vec<Spanned<Token>>, Vec<AtopileErrorReport>))
    ensures
        (token_views(r.0@), report_views(r.1@)) == lexed(input@),
{
    Lexer::lex(input)
}

} // verus!
