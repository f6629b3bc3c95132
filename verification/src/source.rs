//! A parsed source file and the queries that map offsets to statements and
//! positions.

use vstd::prelude::*;
use vstd::string::*;
use vstd::utf8::encode_utf8;
use crate::ast::Stmt;
use crate::location::{Location, LocationView, Range};
use crate::span::{span_contains, span_has, Position, Span, Spanned};
use crate::text::copy_text;

verus! {

/// What the lexer or the parser found wrong at a span of the text.
#[derive(Debug, Clone, PartialEq)]
pub struct AtopileErrorReport {
    pub span: Span,
    pub reason: String,
    pub expected: Vec<String>,
    pub found: Option<String>,
}

/// What an [`AtopileErrorReport`] stands for.
pub struct ErrorReportView {
    pub span: Span,
    pub reason: Seq<char>,
    pub expected: Seq<Seq<char>>,
    pub found: Option<Seq<char>>,
}

impl View for AtopileErrorReport {
    type V = ErrorReportView;

    open spec fn view(&self) -> ErrorReportView {
        ErrorReportView {
            span: self.span,
            reason: self.reason@,
            expected: crate::text::texts(self.expected@),
            found: match self.found {
                Some(f) => Some(f@),
                None => None,
            },
        }
    }
}

/// An error found while reading a source text.
#[derive(Debug, Clone, PartialEq)]
pub enum AtopileError {
    Lexer(AtopileErrorReport),
    Parser(AtopileErrorReport),
}

/// What an [`AtopileError`] stands for.
pub enum ErrorView {
    Lexer(ErrorReportView),
    Parser(ErrorReportView),
}

impl View for AtopileError {
    type V = ErrorView;

    open spec fn view(&self) -> ErrorView {
        match self {
            AtopileError::Lexer(r) => ErrorView::Lexer(r@),
            AtopileError::Parser(r) => ErrorView::Parser(r@),
        }
    }
}

/// What each error of a list stands for.
pub open spec fn error_views(errors: Seq<AtopileError>) -> Seq<ErrorView> {
    errors.map_values(|e: AtopileError| e@)
}

/// The errors of reading a text of which the lexer reports `reports`.
pub open spec fn read_errors(reports: Seq<ErrorReportView>) -> Seq<ErrorView> {
    reports.map_values(|r: ErrorReportView| ErrorView::Lexer(r))
}

/// The offsets at which lines start in `bytes[..upto]`: offset 0, and the
/// offset after every newline byte.
pub open spec fn line_starts(bytes: Seq<u8>, upto: int) -> Seq<usize>
    decreases upto,
{
    if upto <= 0 {
        seq![0usize]
    } else if bytes[upto - 1] == 10u8 {
        line_starts(bytes, upto - 1).push(upto as usize)
    } else {
        line_starts(bytes, upto - 1)
    }
}

/// The offsets at which lines start according to the first `upto` of
/// `tokens`: offset 0, and the end of every line-break token.
pub open spec fn token_line_starts(tokens: Seq<(crate::lexer::TokenView, Span)>, upto: int) -> Seq<
    usize,
>
    decreases upto,
{
    if upto <= 0 {
        seq![0usize]
    } else if tokens[upto - 1].0 == crate::lexer::TokenView::Newline {
        token_line_starts(tokens, upto - 1).push(tokens[upto - 1].1.end)
    } else {
        token_line_starts(tokens, upto - 1)
    }
}

/// The first index from `from` on at which `starts` exceeds `index`, or the
/// length of `starts` if there is none.
pub open spec fn first_start_after(starts: Seq<usize>, index: usize, from: int) -> int
    decreases starts.len() - from,
{
    if from < 0 || from >= starts.len() {
        starts.len() as int
    } else if starts[from] > index {
        from
    } else {
        first_start_after(starts, index, from + 1)
    }
}

/// The line that holds offset `index`: the last line that starts at or before
/// it.
pub open spec fn line_of(starts: Seq<usize>, index: usize) -> int {
    let after = first_start_after(starts, index, 0);
    if after == 0 {
        0
    } else {
        after - 1
    }
}

/// The position of offset `index` in a text whose lines start at `starts`.
pub open spec fn position_of(starts: Seq<usize>, index: usize) -> Position {
    let line = line_of(starts, index);
    Position { line: line as usize, column: (index - starts[line]) as usize }
}

/// The location of `span` in the file `path` whose lines start at `starts`.
pub open spec fn location_of(path: Seq<char>, starts: Seq<usize>, span: Span) -> LocationView {
    LocationView {
        file: path,
        range: Range { start: position_of(starts, span.start), end: position_of(starts, span.end) },
    }
}

/// Every statement of `stmts` in source order, each followed by the statements
/// nested in it, and each paired with the chain of blocks that enclose it
/// (outermost first, starting with `path`).
pub open spec fn flat_stmts(stmts: Seq<Spanned<Stmt>>, path: Seq<Spanned<Stmt>>) -> Seq<
    (Spanned<Stmt>, Seq<Spanned<Stmt>>),
>
    decreases stmts, 1int,
{
    if stmts.len() == 0 {
        Seq::empty()
    } else {
        flat_stmts(stmts.drop_last(), path) + flat_stmt(stmts.last(), path)
    }
}

/// One statement with its enclosing chain, followed by what is nested in it.
pub open spec fn flat_stmt(stmt: Spanned<Stmt>, path: Seq<Spanned<Stmt>>) -> Seq<
    (Spanned<Stmt>, Seq<Spanned<Stmt>>),
>
    decreases stmt, 0int,
{
    seq![(stmt, path)] + match stmt.0 {
        Stmt::Block(b) => flat_stmts(b.body@, path.push(stmt)),
        _ => Seq::empty(),
    }
}

/// The deepest statement among `items[..upto]` whose span holds `index`; of
/// several equally deep ones, the last. The second component is its depth.
pub open spec fn deepest_at(
    items: Seq<(Spanned<Stmt>, Seq<Spanned<Stmt>>)>,
    index: usize,
    upto: int,
) -> Option<(int, int)>
    decreases upto,
{
    if upto <= 0 {
        None
    } else {
        let before = deepest_at(items, index, upto - 1);
        let item = items[upto - 1];
        let depth = item.1.len() as int;
        if span_contains((item.0).1, index) && (before is None || depth >= (before->0).1) {
            Some((upto - 1, depth))
        } else {
            before
        }
    }
}

/// A parsed source file.
#[derive(Debug, PartialEq)]
pub struct AtopileSource {
    pub(crate) raw: String,
    pub(crate) path: String,
    pub(crate) ast: Vec<Spanned<Stmt>>,
    pub(crate) line_to_index: Vec<usize>,
    pub(crate) errors: Vec<AtopileError>,
}

impl AtopileSource {
    /// The offsets at which the lines of the text start.
    pub closed spec fn starts(&self) -> Seq<usize> {
        self.line_to_index@
    }

    /// The path of the file.
    pub closed spec fn path_view(&self) -> Seq<char> {
        self.path@
    }

    /// The top-level statements.
    pub closed spec fn stmts(&self) -> Seq<Spanned<Stmt>> {
        self.ast@
    }

    /// The text of the file.
    pub closed spec fn text(&self) -> Seq<char> {
        self.raw@
    }

    /// The errors found while reading the text.
    pub closed spec fn error_list(&self) -> Seq<AtopileError> {
        self.errors@
    }

    /// There is at least one line, and the first line starts at offset 0.
    #[verifier::type_invariant]
    pub closed spec fn well_formed(&self) -> bool {
        self.line_to_index@.len() >= 1 && self.line_to_index@[0] == 0
    }

    /// The source with the text `raw`, read from `path`: the text is lexed
    /// and parsed, and what the lexer could not read is kept as errors.
    pub fn new(raw: String, path: String) -> (r: Self)
        ensures
            r.text() == raw@,
            r.path_view() == path@,
            crate::syntax::stmt_views(r.stmts()) == crate::parser::parsed(
                crate::lexer::lexed(raw@).0,
            ),
            error_views(r.error_list()) == read_errors(crate::lexer::lexed(raw@).1),
            r.starts() == token_line_starts(
                crate::lexer::lexed(raw@).0,
                crate::lexer::lexed(raw@).0.len() as int,
            ),
    {
        let (tokens, reports) = crate::lexer::Lexer::lex(raw.as_str());
        let (ast, _) = crate::parser::parse(&tokens);
        let ghost views = crate::lexer::report_views(reports@);
        let mut errors: Vec<AtopileError> = Vec::new();
        let mut reports = reports;
        assert(error_views(errors@) + read_errors(views) =~= read_errors(views));
        while reports.len() > 0
            invariant
                error_views(errors@) + read_errors(crate::lexer::report_views(reports@))
                    == read_errors(views),
            decreases reports.len(),
        {
            let ghost before = error_views(errors@);
            let ghost rest = crate::lexer::report_views(reports@);
            let report = reports.remove(0);
            errors.push(AtopileError::Lexer(report));
            proof {
                assert(crate::lexer::report_views(reports@) =~= rest.skip(1));
                assert(error_views(errors@) =~= before.push(ErrorView::Lexer(rest[0])));
                assert(error_views(errors@) + read_errors(rest.skip(1)) =~= before + read_errors(
                    rest,
                ));
            }
        }
        assert(error_views(errors@) + read_errors(crate::lexer::report_views(reports@))
            =~= error_views(errors@));
        let ghost lexed = crate::lexer::token_views(tokens@);
        let mut line_to_index: Vec<usize> = Vec::new();
        line_to_index.push(0);
        let mut t: usize = 0;
        while t < tokens.len()
            invariant
                t <= tokens.len(),
                lexed == crate::lexer::token_views(tokens@),
                line_to_index@ == token_line_starts(lexed, t as int),
                line_to_index@.len() >= 1,
                line_to_index@[0] == 0,
            decreases tokens.len() - t,
        {
            match &tokens[t].0 {
                crate::lexer::Token::Newline => {
                    line_to_index.push(tokens[t].1.end);
                },
                _ => {},
            }
            t += 1;
        }
        AtopileSource { raw, path, ast, line_to_index, errors }
    }

    /// A source with text `raw`, read from `path`, that parsed to `ast` with
    /// `errors`. The line starts are found in the text.
    pub fn from_parts(
        raw: String,
        path: String,
        ast: Vec<Spanned<Stmt>>,
        errors: Vec<AtopileError>,
    ) -> (r: Self)
        ensures
            r.text() == raw@,
            r.path_view() == path@,
            r.stmts() == ast@,
            r.error_list() == errors@,
            r.starts() == line_starts(encode_utf8(raw@), encode_utf8(raw@).len() as int),
    {
        let bytes = raw.as_str().as_bytes();
        let mut line_to_index: Vec<usize> = Vec::new();
        line_to_index.push(0);
        let mut i: usize = 0;
        while i < bytes.len()
            invariant
                i <= bytes.len(),
                line_to_index@ == line_starts(bytes@, i as int),
                line_to_index@.len() >= 1,
                line_to_index@[0] == 0,
            decreases bytes.len() - i,
        {
            if bytes[i] == 10u8 {
                line_to_index.push(i + 1);
            }
            i += 1;
        }
        AtopileSource { raw, path, ast, line_to_index, errors }
    }

    /// The path of the file.
    pub fn path(&self) -> (r: &String)
        ensures
            r@ == self.path_view(),
    {
        &self.path
    }

    /// The top-level statements.
    pub fn ast(&self) -> (r: &Vec<Spanned<Stmt>>)
        ensures
            r@ == self.stmts(),
    {
        &self.ast
    }

    /// The errors found while reading the text.
    pub fn errors(&self) -> (r: &Vec<AtopileError>)
        ensures
            r@ == self.error_list(),
    {
        &self.errors
    }

    /// The offset of `position`: the start of its line plus its column.
    pub fn position_to_index(&self, position: Position) -> (r: usize)
        requires
            position.line < self.starts().len(),
            self.starts()[position.line as int] + position.column <= usize::MAX,
        ensures
            r == self.starts()[position.line as int] + position.column,
    {
        self.line_to_index[position.line] + position.column
    }

    /// The offset of `position`, where its line is a line of the text and
    /// the offset is a machine number.
    pub fn checked_position_to_index(&self, position: Position) -> (r: Option<usize>)
        ensures
            match r {
                Some(index) => position.line < self.starts().len() && index == self.starts()[position.line as int]
                    + position.column,
                None => position.line >= self.starts().len() || self.starts()[position.line as int]
                    + position.column > usize::MAX,
            },
    {
        if position.line >= self.line_to_index.len() {
            return None;
        }
        let start = self.line_to_index[position.line];
        if position.column > usize::MAX - start {
            None
        } else {
            Some(self.position_to_index(position))
        }
    }

    /// The line and column of offset `index`.
    pub fn index_to_position(&self, index: usize) -> (r: Position)
        ensures
            r == position_of(self.starts(), index),
    {
        proof {
            use_type_invariant(self);
        }
        let mut i: usize = 0;
        while i < self.line_to_index.len() && self.line_to_index[i] <= index
            invariant
                i <= self.line_to_index.len(),
                first_start_after(self.line_to_index@, index, 0) == first_start_after(
                    self.line_to_index@,
                    index,
                    i as int,
                ),
                i > 0 ==> self.line_to_index[i - 1] <= index,
            decreases self.line_to_index.len() - i,
        {
            i += 1;
        }
        let line: usize = if i == 0 {
            0
        } else {
            i - 1
        };
        Position { line, column: index - self.line_to_index[line] }
    }

    /// The place of `span` in this file.
    pub fn span_location(&self, span: &Span) -> (r: Location)
        ensures
            r@ == location_of(self.path_view(), self.starts(), *span),
    {
        Location {
            file: copy_text(&self.path),
            range: Range {
                start: self.index_to_position(span.start),
                end: self.index_to_position(span.end),
            },
        }
    }
}

/// A statement with the chain of blocks that enclose it, outermost first.
pub type Visit<'a> = (&'a Spanned<Stmt>, Vec<&'a Spanned<Stmt>>);

/// The statements that a chain of references refers to.
pub open spec fn chain_view(chain: Seq<&Spanned<Stmt>>) -> Seq<Spanned<Stmt>> {
    chain.map_values(|s: &Spanned<Stmt>| *s)
}

/// What each visit of a list stands for.
pub open spec fn visit_views(visits: Seq<Visit<'_>>) -> Seq<(Spanned<Stmt>, Seq<Spanned<Stmt>>)> {
    visits.map_values(|v: Visit<'_>| (*v.0, chain_view(v.1@)))
}

/// A copy of a chain of references.
fn copy_chain<'a>(chain: &Vec<&'a Spanned<Stmt>>) -> (r: Vec<&'a Spanned<Stmt>>)
    ensures
        r@ == chain@,
{
    let mut out: Vec<&'a Spanned<Stmt>> = Vec::new();
    let mut i: usize = 0;
    while i < chain.len()
        invariant
            i <= chain.len(),
            out@ == chain@.take(i as int),
        decreases chain.len() - i,
    {
        out.push(chain[i]);
        assert(out@ =~= chain@.take(i + 1));
        i += 1;
    }
    assert(chain@.take(chain.len() as int) =~= chain@);
    out
}

/// Appends to `out` the first `n` statements of `stmts`, each followed by
/// the statements nested in it, with `path` as the enclosing chain.
fn flatten<'a>(
    stmts: &'a Vec<Spanned<Stmt>>,
    n: usize,
    path: &Vec<&'a Spanned<Stmt>>,
    out: &mut Vec<Visit<'a>>,
)
    requires
        n <= stmts.len(),
    ensures
        visit_views(final(out)@) == visit_views(old(out)@) + flat_stmts(
            stmts@.take(n as int),
            chain_view(path@),
        ),
    decreases stmts, n,
{
    if n == 0 {
        assert(visit_views(out@) + Seq::empty() =~= visit_views(out@));
        return ;
    }
    flatten(stmts, n - 1, path, out);
    let ghost before = visit_views(out@);
    let stmt = &stmts[n - 1];
    out.push((stmt, copy_chain(path)));
    proof {
        assert(stmts@.take(n as int).drop_last() =~= stmts@.take(n - 1));
        assert(visit_views(out@) =~= before + seq![(*stmt, chain_view(path@))]);
    }
    match &stmt.0 {
        Stmt::Block(block) => {
            let mut deeper = copy_chain(path);
            deeper.push(stmt);
            proof {
                vstd::std_specs::vec::axiom_vec_index_decreases(*stmts, n - 1);
                assert(chain_view(deeper@) =~= chain_view(path@).push(*stmt));
                assert(block.body@.take(block.body.len() as int) =~= block.body@);
            }
            flatten(&block.body, block.body.len(), &deeper, out);
            proof {
                let t = stmts@.take(n as int);
                let p = chain_view(path@);
                let nested = flat_stmts(block.body@, p.push(*stmt));
                assert(t.last() == *stmt);
                assert(flat_stmt(*stmt, p) == seq![(*stmt, p)] + nested);
                assert(flat_stmts(t, p) == flat_stmts(t.drop_last(), p) + flat_stmt(t.last(), p));
                assert(visit_views(out@) =~= visit_views(old(out)@) + flat_stmts(t, p));
            }
        },
        _ => {
            proof {
                let t = stmts@.take(n as int);
                let p = chain_view(path@);
                assert(t.last() == *stmt);
                assert(flat_stmt(*stmt, p) =~= seq![(*stmt, p)]);
                assert(flat_stmts(t, p) == flat_stmts(t.drop_last(), p) + flat_stmt(t.last(), p));
                assert(visit_views(out@) =~= visit_views(old(out)@) + flat_stmts(t, p));
            }
        },
    }
}

/// Walks every statement of a tree of statements in source order, giving
/// each one with the chain of blocks that enclose it.
pub struct StmtTraverser<'a> {
    pub(crate) visits: Vec<Visit<'a>>,
    pub(crate) next: usize,
}

impl<'a> StmtTraverser<'a> {
    /// What is still to come.
    pub closed spec fn remaining(&self) -> Seq<(Spanned<Stmt>, Seq<Spanned<Stmt>>)> {
        visit_views(self.visits@).skip(self.next as int)
    }

    /// The position is within the list of visits.
    #[verifier::type_invariant]
    pub closed spec fn well_formed(&self) -> bool {
        self.next <= self.visits@.len()
    }

    /// A walk over `stmts` and everything nested in them.
    pub fn new(stmts: &'a Vec<Spanned<Stmt>>) -> (r: Self)
        ensures
            r.remaining() == flat_stmts(stmts@, Seq::empty()),
    {
        let mut visits: Vec<Visit<'a>> = Vec::new();
        let path: Vec<&'a Spanned<Stmt>> = Vec::new();
        assert(visit_views(visits@) =~= Seq::empty());
        assert(chain_view(path@) =~= Seq::empty());
        flatten(stmts, stmts.len(), &path, &mut visits);
        assert(stmts@.take(stmts.len() as int) =~= stmts@);
        let r = StmtTraverser { visits, next: 0 };
        assert(r.remaining() =~= flat_stmts(stmts@, Seq::empty()));
        r
    }

    /// The statements nested directly in `stmt`, if it is a block.
    pub fn get_block_stmts(stmt: &'a Spanned<Stmt>) -> (r: Option<&'a Vec<Spanned<Stmt>>>)
        ensures
            match r {
                Some(body) => stmt.0 matches Stmt::Block(b) && b.body == *body,
                None => !(stmt.0 is Block),
            },
    {
        match &stmt.0 {
            Stmt::Block(block) => Some(&block.body),
            _ => None,
        }
    }

    /// The next statement with its enclosing chain, if any is left.
    pub fn next(&mut self) -> (r: Option<Visit<'a>>)
        ensures
            match r {
                Some(v) => old(self).remaining().len() > 0 && (*v.0, chain_view(v.1@)) == old(
                    self,
                ).remaining()[0] && final(self).remaining() == old(self).remaining().skip(1),
                None => old(self).remaining().len() == 0 && final(self).remaining() == old(
                    self,
                ).remaining(),
            },
    {
        proof {
            use_type_invariant(&*self);
        }
        if self.next < self.visits.len() {
            let r = (self.visits[self.next].0, copy_chain(&self.visits[self.next].1));
            self.next += 1;
            proof {
                assert(self.remaining() =~= old(self).remaining().skip(1));
            }
            Some(r)
        } else {
            None
        }
    }
}

impl AtopileSource {
    /// A walk over every statement of the file.
    pub fn traverse_all_stmts(&self) -> (r: StmtTraverser<'_>)
        ensures
            r.remaining() == flat_stmts(self.stmts(), Seq::empty()),
    {
        StmtTraverser::new(&self.ast)
    }

    /// The deepest statement whose span holds the offset `index`; of several
    /// equally deep ones, the last in source order.
    pub fn stmt_at(&self, index: usize) -> (r: Option<&Spanned<Stmt>>)
        ensures
            match r {
                Some(stmt) => {
                    let all = flat_stmts(self.stmts(), Seq::empty());
                    deepest_at(all, index, all.len() as int) matches Some(found) && all[found.0].0
                        == *stmt
                },
                None => {
                    let all = flat_stmts(self.stmts(), Seq::empty());
                    deepest_at(all, index, all.len() as int) is None
                },
            },
    {
        let mut visits: Vec<Visit<'_>> = Vec::new();
        let path: Vec<&Spanned<Stmt>> = Vec::new();
        assert(visit_views(visits@) =~= Seq::empty());
        assert(chain_view(path@) =~= Seq::empty());
        flatten(&self.ast, self.ast.len(), &path, &mut visits);
        assert(self.ast@.take(self.ast.len() as int) =~= self.ast@);
        let ghost all = flat_stmts(self.stmts(), Seq::empty());
        assert(visit_views(visits@) =~= all);
        let mut deepest: Option<usize> = None;
        let mut max_depth: usize = 0;
        let mut i: usize = 0;
        while i < visits.len()
            invariant
                i <= visits.len(),
                visit_views(visits@) == all,
                match deepest {
                    Some(at) => at < i && deepest_at(all, index, i as int) == Some(
                        (at as int, max_depth as int),
                    ),
                    None => deepest_at(all, index, i as int) is None,
                },
            decreases visits.len() - i,
        {
            assert(all[i as int] == (*visits[i as int].0, chain_view(visits[i as int].1@)));
            if span_has(&visits[i].0.1, index) {
                let depth = visits[i].1.len();
                if deepest.is_none() || depth >= max_depth {
                    max_depth = depth;
                    deepest = Some(i);
                }
            }
            i += 1;
        }
        match deepest {
            Some(at) => {
                assert(all[at as int] == (*visits[at as int].0, chain_view(visits[at as int].1@)));
                Some(visits[at].0)
            },
            None => None,
        }
    }
}

} // verus!
