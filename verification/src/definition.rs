//! Finding what lies at an offset of a source file, and where the type that
//! a symbol names is declared.

use vstd::prelude::*;
use crate::analyzer::AtopileAnalyzer;
use crate::ast::{symbol_texts, BlockStmt, Connectable, Expr, PortRef, Stmt, Symbol};
use crate::evaluator::{file_from, file_position, place};
use crate::location::{Located, Location, LocationView, Range};
use crate::resolver::{resolve_import_path, resolved, FileSystem, FileSystemView};
use crate::source::{deepest_at, flat_stmts, AtopileSource};
use crate::span::{span_contains, span_has, Position, Span, Spanned};
use crate::text::{copy_text, owned_text, same_text};

verus! {

/// The path in the expression `expr` that holds the offset `index`.
pub open spec fn port_ref_in_expr(index: usize, expr: Spanned<Expr>) -> Option<Spanned<PortRef>>
    decreases expr,
{
    match expr.0 {
        Expr::Port(port) => if span_contains(port.1, index) {
            Some(port)
        } else {
            None
        },
        Expr::BinaryOp(op) => if span_contains(op.0.left.1, index) {
            port_ref_in_expr(index, op.0.left)
        } else if span_contains(op.0.right.1, index) {
            port_ref_in_expr(index, op.0.right)
        } else {
            None
        },
        _ => None,
    }
}

/// The path in the statement `stmt` that holds the offset `index`.
pub open spec fn port_ref_in_stmt(index: usize, stmt: Stmt) -> Option<Spanned<PortRef>> {
    match stmt {
        Stmt::Assign(assign) => if span_contains(assign.target.1, index) {
            Some(assign.target)
        } else {
            port_ref_in_expr(index, assign.value)
        },
        Stmt::Specialize(specialize) => if span_contains(specialize.port.1, index) {
            Some(specialize.port)
        } else {
            None
        },
        Stmt::Connect(connect) => match connect.left.0 {
            Connectable::Port(port) => if span_contains(port.1, index) {
                Some(port)
            } else {
                None
            },
            _ => match connect.right.0 {
                Connectable::Port(port) => if span_contains(port.1, index) {
                    Some(port)
                } else {
                    None
                },
                _ => None,
            },
        },
        Stmt::Assert(assert_stmt) => port_ref_in_expr(index, assert_stmt.expr),
        _ => None,
    }
}

/// The type name in the expression `expr` that holds the offset `index`.
pub open spec fn symbol_in_expr(index: usize, expr: Spanned<Expr>) -> Option<Spanned<Symbol>>
    decreases expr,
{
    match expr.0 {
        Expr::New(symbol) => if span_contains(symbol.1, index) {
            Some(symbol)
        } else {
            None
        },
        Expr::BinaryOp(op) => if span_contains(op.0.left.1, index) {
            symbol_in_expr(index, op.0.left)
        } else if span_contains(op.0.right.1, index) {
            symbol_in_expr(index, op.0.right)
        } else {
            None
        },
        _ => None,
    }
}

/// The first of `symbols[at..]` whose span holds the offset `index`.
pub open spec fn symbol_among(index: usize, symbols: Seq<Spanned<Symbol>>, at: int) -> Option<
    Spanned<Symbol>,
>
    decreases symbols.len() - at,
{
    if at < 0 || at >= symbols.len() {
        None
    } else if span_contains(symbols[at].1, index) {
        Some(symbols[at])
    } else {
        symbol_among(index, symbols, at + 1)
    }
}

/// The type name in the statement `stmt` that holds the offset `index`: an
/// imported symbol, the type of a `new`, the value of a specialization, or
/// the parent of a block.
pub open spec fn symbol_in_stmt(index: usize, stmt: Stmt) -> Option<Spanned<Symbol>> {
    match stmt {
        Stmt::Import(import) => symbol_among(index, import.imports@, 0),
        Stmt::DepImport(import) => if span_contains(import.name.1, index) {
            Some(import.name)
        } else {
            None
        },
        Stmt::Assign(assign) => symbol_in_expr(index, assign.value),
        Stmt::Specialize(specialize) => if span_contains(specialize.value.1, index) {
            Some(specialize.value)
        } else {
            None
        },
        Stmt::Block(block) => match block.parent {
            Some(parent) => if span_contains(parent.1, index) {
                Some(parent)
            } else {
                None
            },
            None => None,
        },
        _ => None,
    }
}

/// The import path in the statement `stmt` that holds the offset `index`.
pub open spec fn file_path_in_stmt(index: usize, stmt: Stmt) -> Option<Spanned<String>> {
    match stmt {
        Stmt::Import(import) => if span_contains(import.from_path.1, index) {
            Some(import.from_path)
        } else {
            None
        },
        Stmt::DepImport(import) => if span_contains(import.from_path.1, index) {
            Some(import.from_path)
        } else {
            None
        },
        _ => None,
    }
}

/// The statement of `source` at the offset `index`: the deepest one whose
/// span holds it.
pub open spec fn stmt_at_offset(source: &AtopileSource, index: usize) -> Option<Stmt> {
    let all = flat_stmts(source.stmts(), Seq::empty());
    match deepest_at(all, index, all.len() as int) {
        Some(found) => Some(all[found.0].0.0),
        None => None,
    }
}

/// The path in the expression `expr` that holds the offset `index`.
pub fn port_ref_at_in_expr<'a>(index: usize, expr: &'a Spanned<Expr>) -> (r: Option<
    &'a Spanned<PortRef>,
>)
    ensures
        match r {
            Some(p) => port_ref_in_expr(index, *expr) == Some(*p),
            None => port_ref_in_expr(index, *expr) is None,
        },
    decreases expr,
{
    match &expr.0 {
        Expr::Port(port) => if span_has(&port.1, index) {
            Some(port)
        } else {
            None
        },
        Expr::BinaryOp(op) => if span_has(&op.0.left.1, index) {
            port_ref_at_in_expr(index, &op.0.left)
        } else if span_has(&op.0.right.1, index) {
            port_ref_at_in_expr(index, &op.0.right)
        } else {
            None
        },
        _ => None,
    }
}

/// The type name in the expression `expr` that holds the offset `index`.
pub fn symbol_name_at_in_expr<'a>(index: usize, expr: &'a Spanned<Expr>) -> (r: Option<
    &'a Spanned<Symbol>,
>)
    ensures
        match r {
            Some(s) => symbol_in_expr(index, *expr) == Some(*s),
            None => symbol_in_expr(index, *expr) is None,
        },
    decreases expr,
{
    match &expr.0 {
        Expr::New(symbol) => if span_has(&symbol.1, index) {
            Some(symbol)
        } else {
            None
        },
        Expr::BinaryOp(op) => if span_has(&op.0.left.1, index) {
            symbol_name_at_in_expr(index, &op.0.left)
        } else if span_has(&op.0.right.1, index) {
            symbol_name_at_in_expr(index, &op.0.right)
        } else {
            None
        },
        _ => None,
    }
}

impl AtopileSource {
    /// The path at the offset `index` in the statement there.
    pub fn port_ref_at(&self, index: usize) -> (r: Option<&Spanned<PortRef>>)
        ensures
            match r {
                Some(p) => stmt_at_offset(self, index) matches Some(stmt) && port_ref_in_stmt(
                    index,
                    stmt,
                ) == Some(*p),
                None => match stmt_at_offset(self, index) {
                    Some(stmt) => port_ref_in_stmt(index, stmt) is None,
                    None => true,
                },
            },
    {
        let stmt = match self.stmt_at(index) {
            Some(s) => s,
            None => {
                return None;
            },
        };
        match &stmt.0 {
            Stmt::Assign(assign) => if span_has(&assign.target.1, index) {
                Some(&assign.target)
            } else {
                port_ref_at_in_expr(index, &assign.value)
            },
            Stmt::Specialize(specialize) => if span_has(&specialize.port.1, index) {
                Some(&specialize.port)
            } else {
                None
            },
            Stmt::Connect(connect) => match &connect.left.0 {
                Connectable::Port(port) => if span_has(&port.1, index) {
                    Some(port)
                } else {
                    None
                },
                _ => match &connect.right.0 {
                    Connectable::Port(port) => if span_has(&port.1, index) {
                        Some(port)
                    } else {
                        None
                    },
                    _ => None,
                },
            },
            Stmt::Assert(assert_stmt) => port_ref_at_in_expr(index, &assert_stmt.expr),
            _ => None,
        }
    }

    /// The type name at the offset `index` in the statement there.
    pub fn symbol_name_at(&self, index: usize) -> (r: Option<&Spanned<Symbol>>)
        ensures
            match r {
                Some(s) => stmt_at_offset(self, index) matches Some(stmt) && symbol_in_stmt(
                    index,
                    stmt,
                ) == Some(*s),
                None => match stmt_at_offset(self, index) {
                    Some(stmt) => symbol_in_stmt(index, stmt) is None,
                    None => true,
                },
            },
    {
        let stmt = match self.stmt_at(index) {
            Some(s) => s,
            None => {
                return None;
            },
        };
        match &stmt.0 {
            Stmt::Import(import) => {
                let mut i: usize = 0;
                while i < import.imports.len()
                    invariant
                        i <= import.imports.len(),
                        stmt_at_offset(self, index) == Some(stmt.0),
                        stmt.0 == Stmt::Import(*import),
                        symbol_among(index, import.imports@, 0) == symbol_among(
                            index,
                            import.imports@,
                            i as int,
                        ),
                    decreases import.imports.len() - i,
                {
                    if span_has(&import.imports[i].1, index) {
                        return Some(&import.imports[i]);
                    }
                    i += 1;
                }
                None
            },
            Stmt::DepImport(import) => if span_has(&import.name.1, index) {
                Some(&import.name)
            } else {
                None
            },
            Stmt::Assign(assign) => symbol_name_at_in_expr(index, &assign.value),
            Stmt::Specialize(specialize) => if span_has(&specialize.value.1, index) {
                Some(&specialize.value)
            } else {
                None
            },
            Stmt::Block(block) => match &block.parent {
                Some(parent) => if span_has(&parent.1, index) {
                    Some(parent)
                } else {
                    None
                },
                None => None,
            },
            _ => None,
        }
    }

    /// The import path at the offset `index` in the statement there.
    pub fn file_path_at(&self, index: usize) -> (r: Option<&Spanned<String>>)
        ensures
            match r {
                Some(p) => stmt_at_offset(self, index) matches Some(stmt) && file_path_in_stmt(
                    index,
                    stmt,
                ) == Some(*p),
                None => match stmt_at_offset(self, index) {
                    Some(stmt) => file_path_in_stmt(index, stmt) is None,
                    None => true,
                },
            },
    {
        let stmt = match self.stmt_at(index) {
            Some(s) => s,
            None => {
                return None;
            },
        };
        match &stmt.0 {
            Stmt::Import(import) => if span_has(&import.from_path.1, index) {
                Some(&import.from_path)
            } else {
                None
            },
            Stmt::DepImport(import) => if span_has(&import.from_path.1, index) {
                Some(&import.from_path)
            } else {
                None
            },
            _ => None,
        }
    }
}

/// Where a definition is, seen from where it is used.
#[derive(Debug, PartialEq)]
pub struct GotoDefinitionResult {
    pub file: String,
    pub source_range: Range,
    pub target_range: Range,
    pub target_selection_range: Range,
}

/// What a [`GotoDefinitionResult`] stands for.
pub struct GotoView {
    pub file: Seq<char>,
    pub source_range: Range,
    pub target_range: Range,
    pub target_selection_range: Range,
}

impl View for GotoDefinitionResult {
    type V = GotoView;

    open spec fn view(&self) -> GotoView {
        GotoView {
            file: self.file@,
            source_range: self.source_range,
            target_range: self.target_range,
            target_selection_range: self.target_selection_range,
        }
    }
}

/// Why a definition could not be looked for.
#[derive(Debug, PartialEq)]
pub enum DefinitionError {
    /// No source is registered under this path.
    NotLoaded(String),
    /// No import names this symbol.
    NoImport(String),
    /// This import path does not resolve.
    Unresolved(String),
    /// The position lies outside the text.
    OutOfRange,
    /// The imports were followed through more files than there are.
    TooDeep,
}

/// What a [`DefinitionError`] stands for.
pub enum DefinitionErrorView {
    NotLoaded(Seq<char>),
    NoImport(Seq<char>),
    Unresolved(Seq<char>),
    OutOfRange,
    TooDeep,
}

impl View for DefinitionError {
    type V = DefinitionErrorView;

    open spec fn view(&self) -> DefinitionErrorView {
        match self {
            DefinitionError::NotLoaded(p) => DefinitionErrorView::NotLoaded(p@),
            DefinitionError::NoImport(n) => DefinitionErrorView::NoImport(n@),
            DefinitionError::Unresolved(p) => DefinitionErrorView::Unresolved(p@),
            DefinitionError::OutOfRange => DefinitionErrorView::OutOfRange,
            DefinitionError::TooDeep => DefinitionErrorView::TooDeep,
        }
    }
}

/// The position of the first block named `name` among the top-level
/// statements `stmts[at..]`, or the number of statements.
pub open spec fn block_named(stmts: Seq<Spanned<Stmt>>, name: Seq<char>, at: int) -> int
    decreases stmts.len() - at,
{
    if at < 0 || at >= stmts.len() {
        stmts.len() as int
    } else if stmts[at].0 matches Stmt::Block(b) && b.name.0@ == name {
        at
    } else {
        block_named(stmts, name, at + 1)
    }
}

/// The path that the statement imports `name` from, if it imports it.
pub open spec fn import_source(stmt: Stmt, name: Seq<char>) -> Option<Seq<char>> {
    match stmt {
        Stmt::Import(import) => if symbol_texts(
            import.imports@.map_values(|s: Spanned<Symbol>| s.0),
        ).contains(name) {
            Some(import.from_path.0@)
        } else {
            None
        },
        Stmt::DepImport(import) => if import.name.0@ == name {
            Some(import.from_path.0@)
        } else {
            None
        },
        _ => None,
    }
}

/// The path that the first of `visits` that imports `name` imports it from.
pub open spec fn import_naming(
    visits: Seq<(Spanned<Stmt>, Seq<Spanned<Stmt>>)>,
    name: Seq<char>,
) -> Option<Seq<char>>
    decreases visits.len(),
{
    if visits.len() == 0 {
        None
    } else {
        match import_source(visits[0].0.0, name) {
            Some(p) => Some(p),
            None => import_naming(visits.skip(1), name),
        }
    }
}

/// Where the type `name` is declared, seen from `source`: the block of
/// that name in `source`, or else the one found in the same way in the file
/// that `source` imports `name` from, following imports through at most
/// `depth` files. `Ok(None)` where the import does not resolve.
pub open spec fn definition(
    files: Seq<(String, AtopileSource)>,
    fs: FileSystemView,
    source: &AtopileSource,
    name: Seq<char>,
    depth: nat,
) -> Result<Option<(BlockStmt, LocationView)>, DefinitionErrorView>
    decreases depth,
{
    let at = block_named(source.stmts(), name, 0);
    if at < source.stmts().len() {
        Ok(Some((source.stmts()[at].0->Block_0, place(source, source.stmts()[at].1))))
    } else {
        match import_naming(flat_stmts(source.stmts(), Seq::empty()), name) {
            None => Err(DefinitionErrorView::NoImport(name)),
            Some(import) => match resolved(fs, source.path_view(), import) {
                None => Ok(None),
                Some(path) => {
                    let next = file_from(files, path, 0);
                    if next >= files.len() {
                        Err(DefinitionErrorView::NotLoaded(path))
                    } else if depth == 0 {
                        Err(DefinitionErrorView::TooDeep)
                    } else {
                        definition(files, fs, &files[next].1, name, (depth - 1) as nat)
                    }
                },
            },
        }
    }
}

/// Whether one of `symbols` has the text `name`.
fn names_symbol(symbols: &Vec<Spanned<Symbol>>, name: &String) -> (r: bool)
    ensures
        r == symbol_texts(symbols@.map_values(|s: Spanned<Symbol>| s.0)).contains(name@),
{
    let ghost texts = symbol_texts(symbols@.map_values(|s: Spanned<Symbol>| s.0));
    let mut i: usize = 0;
    while i < symbols.len()
        invariant
            i <= symbols.len(),
            texts == symbol_texts(symbols@.map_values(|s: Spanned<Symbol>| s.0)),
            forall|j: int| 0 <= j < i ==> texts[j] != name@,
        decreases symbols.len() - i,
    {
        if same_text(&symbols[i].0.0, name) {
            assert(texts[i as int] == name@);
            return true;
        }
        i += 1;
    }
    false
}

/// The block named `name` among the top-level statements of `source`, with
/// the span of its statement.
pub fn find_definition_in_source<'a>(source: &'a AtopileSource, name: &String) -> (r: Option<
    Spanned<&'a BlockStmt>,
>)
    ensures
        match r {
            Some(found) => {
                let at = block_named(source.stmts(), name@, 0);
                at < source.stmts().len() && source.stmts()[at].0 == Stmt::Block(*found.0)
                    && source.stmts()[at].1 == found.1
            },
            None => block_named(source.stmts(), name@, 0) >= source.stmts().len(),
        },
{
    let ast = source.ast();
    let mut i: usize = 0;
    while i < ast.len()
        invariant
            i <= ast.len(),
            ast@ == source.stmts(),
            block_named(source.stmts(), name@, 0) == block_named(source.stmts(), name@, i as int),
        decreases ast.len() - i,
    {
        match &ast[i].0 {
            Stmt::Block(block) => {
                if same_text(&block.name.0.0, name) {
                    return Some(Spanned(block, ast[i].1));
                }
            },
            _ => {},
        }
        i += 1;
    }
    None
}

/// The path that the first statement of `source` that imports `name`
/// imports it from.
fn find_import<'a>(source: &'a AtopileSource, name: &String) -> (r: Option<&'a String>)
    ensures
        match r {
            Some(p) => import_naming(flat_stmts(source.stmts(), Seq::empty()), name@) == Some(p@),
            None => import_naming(flat_stmts(source.stmts(), Seq::empty()), name@) is None,
        },
{
    let mut walker = source.traverse_all_stmts();
    let ghost all = flat_stmts(source.stmts(), Seq::empty());
    loop
        invariant
            import_naming(all, name@) == import_naming(walker.remaining(), name@),
            all == flat_stmts(source.stmts(), Seq::empty()),
        decreases walker.remaining().len(),
    {
        let ghost before = walker.remaining();
        match walker.next() {
            None => {
                return None;
            },
            Some(visit) => {
                assert(before[0].0 == *visit.0);
                match &visit.0.0 {
                    Stmt::Import(import) => {
                        if names_symbol(&import.imports, name) {
                            return Some(&import.from_path.0);
                        }
                    },
                    Stmt::DepImport(import) => {
                        if same_text(&import.name.0.0, name) {
                            return Some(&import.from_path.0);
                        }
                    },
                    _ => {},
                }
            },
        }
    }
}

/// Where the type `name` is declared, seen from `source`; `files` are the
/// registered sources, and imports are followed through at most `depth` of
/// them.
pub fn find_definition<'a>(
    files: &'a Vec<(String, AtopileSource)>,
    fs: &FileSystem,
    source: &'a AtopileSource,
    name: &String,
    depth: usize,
) -> (r: Result<Option<Located<&'a BlockStmt>>, DefinitionError>)
    ensures
        match r {
            Ok(Some(found)) => definition(files@, fs@, source, name@, depth as nat) == Ok::<
                Option<(BlockStmt, LocationView)>,
                DefinitionErrorView,
            >(Some((*found.0, found.1@))),
            Ok(None) => definition(files@, fs@, source, name@, depth as nat) == Ok::<
                Option<(BlockStmt, LocationView)>,
                DefinitionErrorView,
            >(None),
            Err(e) => definition(files@, fs@, source, name@, depth as nat) == Err::<
                Option<(BlockStmt, LocationView)>,
                DefinitionErrorView,
            >(e@),
        },
    decreases depth,
{
    match find_definition_in_source(source, name) {
        Some(found) => {
            return Ok(Some(Located(found.0, source.span_location(&found.1))));
        },
        None => {},
    }
    let import = match find_import(source, name) {
        Some(p) => p,
        None => {
            return Err(DefinitionError::NoImport(copy_text(name)));
        },
    };
    let path = match resolve_import_path(fs, source.path().as_str(), import.as_str()) {
        Some(p) => p,
        None => {
            return Ok(None);
        },
    };
    let next = file_position(files, &path);
    if next >= files.len() {
        return Err(DefinitionError::NotLoaded(path));
    }
    if depth == 0 {
        return Err(DefinitionError::TooDeep);
    }
    find_definition(files, fs, &files[next].1, name, depth - 1)
}

/// The answer for an offset on an import path: the file that the path
/// resolves to, from its very start.
pub open spec fn path_answer(
    fs: FileSystemView,
    source: &AtopileSource,
    token: Spanned<String>,
) -> Result<Option<GotoView>, DefinitionErrorView> {
    match resolved(fs, source.path_view(), token.0@) {
        None => Err(DefinitionErrorView::Unresolved(token.0@)),
        Some(file) => Ok(
            Some(
                GotoView {
                    file,
                    source_range: place(source, token.1).range,
                    target_range: origin(),
                    target_selection_range: origin(),
                },
            ),
        ),
    }
}

/// The empty range at the start of a text.
pub open spec fn origin() -> Range {
    Range { start: Position { line: 0, column: 0 }, end: Position { line: 0, column: 0 } }
}

/// The answer for an offset on a type name: the place of the declaration
/// of that type.
pub open spec fn symbol_answer(
    files: Seq<(String, AtopileSource)>,
    fs: FileSystemView,
    source: &AtopileSource,
    symbol: Spanned<Symbol>,
) -> Result<Option<GotoView>, DefinitionErrorView> {
    match definition(files, fs, source, symbol.0@, files.len()) {
        Err(e) => Err(e),
        Ok(None) => Ok(None),
        Ok(Some(found)) => Ok(
            Some(
                GotoView {
                    file: found.1.file,
                    source_range: place(source, symbol.1).range,
                    target_range: found.1.range,
                    target_selection_range: found.1.range,
                },
            ),
        ),
    }
}

/// The answer to a go-to-definition request at `position` in `source`: for
/// a type name the place of its declaration, for an import path the file it
/// resolves to, nothing for anything else.
pub open spec fn goto_answer(
    files: Seq<(String, AtopileSource)>,
    fs: FileSystemView,
    source: &AtopileSource,
    position: Position,
) -> Result<Option<GotoView>, DefinitionErrorView> {
    if position.line >= source.starts().len() || source.starts()[position.line as int]
        + position.column > usize::MAX {
        Err(DefinitionErrorView::OutOfRange)
    } else {
        let index = (source.starts()[position.line as int] + position.column) as usize;
        match stmt_at_offset(source, index) {
            None => Ok(None),
            Some(stmt) => match symbol_in_stmt(index, stmt) {
                Some(symbol) => symbol_answer(files, fs, source, symbol),
                None => match file_path_in_stmt(index, stmt) {
                    Some(token) => path_answer(fs, source, token),
                    None => Ok(None),
                },
            },
        }
    }
}

/// What a result of a go-to-definition request stands for.
pub open spec fn answer_view(r: Result<Option<GotoDefinitionResult>, DefinitionError>) -> Result<
    Option<GotoView>,
    DefinitionErrorView,
> {
    match r {
        Ok(Some(g)) => Ok(Some(g@)),
        Ok(None) => Ok(None),
        Err(e) => Err(e@),
    }
}

/// The answer for an offset on the import path `token` of `source`.
pub fn handle_goto_definition_path(
    fs: &FileSystem,
    source: &AtopileSource,
    token: &Spanned<String>,
) -> (r: Result<Option<GotoDefinitionResult>, DefinitionError>)
    ensures
        answer_view(r) == path_answer(fs@, source, *token),
{
    let here = source.span_location(&token.1);
    match resolve_import_path(fs, source.path().as_str(), token.0.as_str()) {
        None => Err(DefinitionError::Unresolved(copy_text(&token.0))),
        Some(file) => {
            let zero = Position { line: 0, column: 0 };
            Ok(
                Some(
                    GotoDefinitionResult {
                        file,
                        source_range: here.range,
                        target_range: Range { start: zero, end: zero },
                        target_selection_range: Range { start: zero, end: zero },
                    },
                ),
            )
        },
    }
}

/// The answer for an offset on the type name `symbol` of `source`.
pub fn handle_goto_definition_for_symbol(
    files: &Vec<(String, AtopileSource)>,
    fs: &FileSystem,
    source: &AtopileSource,
    symbol: &Spanned<Symbol>,
) -> (r: Result<Option<GotoDefinitionResult>, DefinitionError>)
    ensures
        answer_view(r) == symbol_answer(files@, fs@, source, *symbol),
{
    let here = source.span_location(&symbol.1);
    match find_definition(files, fs, source, &symbol.0.0, files.len()) {
        Err(e) => Err(e),
        Ok(None) => Ok(None),
        Ok(Some(found)) => Ok(
            Some(
                GotoDefinitionResult {
                    file: copy_text(&found.1.file),
                    source_range: here.range,
                    target_range: found.1.range,
                    target_selection_range: found.1.range,
                },
            ),
        ),
    }
}

impl AtopileAnalyzer {
    /// Answers a go-to-definition request at `position` in the source
    /// registered under `path`.
    pub fn goto_definition(&self, path: &String, position: Position) -> (r: Result<
        Option<GotoDefinitionResult>,
        DefinitionError,
    >)
        ensures
            ({
                let files = self.engine().sources();
                let at = file_from(files, path@, 0);
                answer_view(r) == if at >= files.len() {
                    Err::<Option<GotoView>, DefinitionErrorView>(
                        DefinitionErrorView::NotLoaded(path@),
                    )
                } else {
                    goto_answer(files, self.engine().file_system(), &files[at].1, position)
                }
            }),
    {
        let files = self.evaluator().files();
        let fs = self.evaluator().known_file_system();
        let at = self.evaluator().source_position(path);
        if at >= files.len() {
            return Err(DefinitionError::NotLoaded(copy_text(path)));
        }
        let source = &files[at].1;
        let index = match source.checked_position_to_index(position) {
            Some(i) => i,
            None => {
                return Err(DefinitionError::OutOfRange);
            },
        };
        match source.symbol_name_at(index) {
            Some(symbol) => handle_goto_definition_for_symbol(files, fs, source, symbol),
            None => match source.file_path_at(index) {
                Some(token) => handle_goto_definition_path(fs, source, token),
                None => Ok(None),
            },
        }
    }
}

} // verus!
