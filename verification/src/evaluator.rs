//! The evaluator: from the statements of the registered source files to the
//! instance graph and the diagnostics.

use vstd::prelude::*;
use crate::assoc;
use crate::ast::{BlockKind, BlockStmt, Connectable, Expr, Stmt, Symbol};
use crate::cloning::{clone_error_text, cloned_store, depth_limit};
use crate::connect::connected;
use crate::diagnostics::{cleared, error_diagnostic, reported, AnalyzerReporter, ReportView};
use crate::error::{error_with, plain_error, ErrorView, EvaluatorError, EvaluatorErrorKind};
use crate::instance::{
    empty_instance, expr_value, leaf_type, module_ref_text, AttributeValue, Instance, InstanceKind,
    InstanceRef, InstanceRefView, InstanceView, ModuleRef, ModuleRefView,
};
use crate::location::{Located, Location, LocationView};
use crate::order::{
    collect_block_declarations, collected, declaration_views, ordered, sort_blocks, with_cycles,
    BlockDeclaration, DeclarationView,
};
use crate::resolver::{resolve_import_path, resolved, FileSystem, FileSystemView};
use crate::scope::{FileScope, ScopeView};
use crate::source::{location_of, AtopileSource};
use crate::span::{Span, Spanned};
use crate::store::{with_attribute, EvaluatorState, StoreView};
use crate::text::{concat_text, copy_text, owned_text, same_text, texts};

verus! {

/// The graph and the diagnostics at some point of an evaluation.
pub struct EvalView {
    pub store: StoreView,
    pub report: ReportView,
}

/// The place of `span` in `source`.
pub open spec fn place(source: &AtopileSource, span: Span) -> LocationView {
    location_of(source.path_view(), source.starts(), span)
}

/// The identity of the root instance of the type `module`.
pub open spec fn root_of(module: ModuleRefView) -> InstanceRefView {
    InstanceRefView { module, path: Seq::empty() }
}

/// The identity of the instance at the single name `name` below the root of
/// `module`.
pub open spec fn named(module: ModuleRefView, name: Seq<char>) -> InstanceRefView {
    InstanceRefView { module, path: seq![name] }
}

/// The instance kind that a block kind declares.
pub open spec fn declared_kind(kind: BlockKind) -> InstanceKind {
    match kind {
        BlockKind::Module => InstanceKind::Module,
        BlockKind::Component => InstanceKind::Component,
        BlockKind::Interface => InstanceKind::Interface,
    }
}

/// The report with `failure` filed, if there is one.
pub open spec fn noted(report: ReportView, failure: Option<ErrorView>) -> ReportView {
    match failure {
        Some(e) => reported(report, error_diagnostic(e)),
        None => report,
    }
}

/// The error that a result carries, if any.
pub open spec fn failure_of(r: Result<(), EvaluatorError>) -> Option<ErrorView> {
    match r {
        Ok(_) => None,
        Err(e) => Some(e@),
    }
}

/// The store and the enclosing instance once one side of a connection is
/// resolved, and the identity it resolves to. A `signal` or `pin` side
/// declares a port or pin of that name in the block; a path is taken as it
/// is.
pub open spec fn endpoint(
    store: StoreView,
    instance: InstanceView,
    module: ModuleRefView,
    source: &AtopileSource,
    side: Spanned<Connectable>,
) -> (StoreView, InstanceView, InstanceRefView) {
    match side.0 {
        Connectable::Signal(name) => {
            let at = named(module, name.0@);
            (
                assoc::put(
                    store,
                    at,
                    empty_instance(leaf_type(), InstanceKind::Port, place(source, side.1)),
                ),
                InstanceView { children: assoc::put(instance.children, name.0@, at), ..instance },
                at,
            )
        },
        Connectable::Pin(name) => {
            let at = named(module, name.0@);
            (
                assoc::put(
                    store,
                    at,
                    empty_instance(leaf_type(), InstanceKind::Pin, place(source, side.1)),
                ),
                InstanceView { children: assoc::put(instance.children, name.0@, at), ..instance },
                at,
            )
        },
        Connectable::Port(port) => (
            store,
            instance,
            InstanceRefView { module, path: port.0.path() },
        ),
    }
}

/// The store and the instance of the enclosing block after one statement of
/// the block's body, and the error if the statement failed.
///
/// `name = new Type` copies the type's subtree to the child `name`. Any
/// other assignment binds the last name of the target as an attribute of the
/// instance that the names before it lead to. `signal` and `pin` declare a
/// port or a pin. `left ~ right` connects. Other statements do nothing.
pub open spec fn stmt_done(
    store: StoreView,
    scope: ScopeView,
    instance: InstanceView,
    module: ModuleRefView,
    source: &AtopileSource,
    stmt: Spanned<Stmt>,
) -> (StoreView, InstanceView, Option<ErrorView>) {
    match stmt.0 {
        Stmt::Assign(assign) => {
            let path = assign.target.0.path();
            let target = InstanceRefView { module, path };
            match assign.value.0 {
                Expr::New(wanted) => {
                    if path.len() != 1 {
                        (
                            store,
                            instance,
                            Some(
                                error_with(
                                    EvaluatorErrorKind::InvalidAssignment,
                                    place(source, assign.target.1),
                                    "Cannot create new module in sub-module"@,
                                ),
                            ),
                        )
                    } else {
                        match assoc::get(scope, wanted.0@) {
                            None => (
                                store,
                                instance,
                                Some(
                                    plain_error(
                                        EvaluatorErrorKind::TypeNotFound,
                                        place(source, wanted.1),
                                    ),
                                ),
                            ),
                            Some(type_ref) => {
                                if assoc::has(store, target) {
                                    (
                                        store,
                                        instance,
                                        Some(
                                            error_with(
                                                EvaluatorErrorKind::InvalidAssignment,
                                                place(source, assign.target.1),
                                                "`"@ + path[0] + "` already exists"@,
                                            ),
                                        ),
                                    )
                                } else {
                                    let (store1, failure) = cloned_store(
                                        store,
                                        root_of(type_ref),
                                        target,
                                        Some(place(source, stmt.1)),
                                        depth_limit(store),
                                    );
                                    match failure {
                                        Some(f) => (
                                            store1,
                                            instance,
                                            Some(
                                                error_with(
                                                    EvaluatorErrorKind::Internal,
                                                    place(source, assign.target.1),
                                                    "Failed to clone instance `"@
                                                        + module_ref_text(type_ref) + "`: "@
                                                        + clone_error_text(f),
                                                ),
                                            ),
                                        ),
                                        None => (
                                            store1,
                                            InstanceView {
                                                children: assoc::put(
                                                    instance.children,
                                                    path[0],
                                                    target,
                                                ),
                                                ..instance
                                            },
                                            None,
                                        ),
                                    }
                                }
                            },
                        }
                    }
                },
                _ => {
                    if path.len() == 0 {
                        (
                            store,
                            instance,
                            Some(
                                error_with(
                                    EvaluatorErrorKind::InvalidAssignment,
                                    place(source, assign.value.1),
                                    "Cannot assign attribute to top-level module"@,
                                ),
                            ),
                        )
                    } else {
                        let owner = InstanceRefView { module, path: path.drop_last() };
                        let value = expr_value(assign.value.0);
                        if path.len() == 1 {
                            (
                                store,
                                InstanceView {
                                    attributes: assoc::put(
                                        instance.attributes,
                                        path.last(),
                                        value,
                                    ),
                                    ..instance
                                },
                                None,
                            )
                        } else if assoc::has(store, owner) {
                            (with_attribute(store, owner, path.last(), value), instance, None)
                        } else {
                            (
                                store,
                                instance,
                                Some(
                                    plain_error(
                                        EvaluatorErrorKind::InvalidAssignment,
                                        place(source, assign.value.1),
                                    ),
                                ),
                            )
                        }
                    }
                },
            }
        },
        Stmt::Signal(signal) => {
            let at = named(module, signal.name.0@);
            (
                assoc::put(
                    store,
                    at,
                    empty_instance(leaf_type(), InstanceKind::Port, place(source, stmt.1)),
                ),
                InstanceView {
                    children: assoc::put(instance.children, signal.name.0@, at),
                    ..instance
                },
                None,
            )
        },
        Stmt::Pin(pin) => {
            let at = named(module, pin.name.0@);
            (
                assoc::put(
                    store,
                    at,
                    empty_instance(leaf_type(), InstanceKind::Pin, place(source, stmt.1)),
                ),
                InstanceView {
                    children: assoc::put(instance.children, pin.name.0@, at),
                    ..instance
                },
                None,
            )
        },
        Stmt::Connect(connect) => {
            let (store1, instance1, left) = endpoint(store, instance, module, source, connect.left);
            let (store2, instance2, right) = endpoint(
                store1,
                instance1,
                module,
                source,
                connect.right,
            );
            connected(
                store2,
                instance2,
                left,
                place(source, connect.left.1),
                right,
                place(source, connect.right.1),
                place(source, stmt.1),
            )
        },
        _ => (store, instance, None),
    }
}

/// The store, the block's instance and the report after the statements
/// `body[at..]`. A statement that fails is reported, and the next one is
/// evaluated all the same.
pub open spec fn body_done(
    store: StoreView,
    scope: ScopeView,
    instance: InstanceView,
    report: ReportView,
    module: ModuleRefView,
    source: &AtopileSource,
    body: Seq<Spanned<Stmt>>,
    at: int,
) -> (StoreView, InstanceView, ReportView)
    decreases body.len() - at,
{
    if at < 0 || at >= body.len() {
        (store, instance, report)
    } else {
        let (store1, instance1, failure) = stmt_done(
            store,
            scope,
            instance,
            module,
            source,
            body[at],
        );
        body_done(store1, scope, instance1, noted(report, failure), module, source, body, at + 1)
    }
}

/// The graph, the report and the scope after the block `block`, and the
/// error if the block could not be set up.
///
/// A block with a parent starts as a copy of the parent's root subtree, any
/// other as an empty instance of its kind. The root instance is taken out of
/// the store while the body is evaluated on it, and bound again afterwards.
pub open spec fn block_done(
    state: EvalView,
    scope: ScopeView,
    source: &AtopileSource,
    block: BlockStmt,
) -> (EvalView, ScopeView, Option<ErrorView>) {
    let module = ModuleRefView { source_path: source.path_view(), module_name: block.name.0@ };
    let root = root_of(module);
    let here = place(source, block.name.1);
    let seeded: (StoreView, Option<ErrorView>) = match block.parent {
        Some(parent) => match assoc::get(scope, parent.0@) {
            None => (
                state.store,
                Some(plain_error(EvaluatorErrorKind::TypeNotFound, place(source, parent.1))),
            ),
            Some(parent_ref) => {
                let (store1, failure) = cloned_store(
                    state.store,
                    root_of(parent_ref),
                    root,
                    Some(here),
                    depth_limit(state.store),
                );
                (
                    store1,
                    if failure is Some {
                        Some(
                            error_with(
                                EvaluatorErrorKind::Internal,
                                place(source, parent.1),
                                "Failed to clone parent module"@,
                            ),
                        )
                    } else {
                        None
                    },
                )
            },
        },
        None => (
            assoc::put(
                state.store,
                root,
                empty_instance(module, declared_kind(block.kind.0), here),
            ),
            None,
        ),
    };
    if seeded.1 is Some {
        (EvalView { store: seeded.0, report: state.report }, scope, seeded.1)
    } else {
        match assoc::get(seeded.0, root) {
            None => (
                EvalView { store: seeded.0, report: state.report },
                scope,
                Some(plain_error(EvaluatorErrorKind::Internal, here)),
            ),
            Some(found) => {
                let (store1, instance1, report1) = body_done(
                    assoc::without(seeded.0, root),
                    scope,
                    InstanceView { type_ref: module, ..found },
                    state.report,
                    module,
                    source,
                    block.body@,
                    0,
                );
                (
                    EvalView { store: assoc::put(store1, root, instance1), report: report1 },
                    assoc::put(scope, block.name.0@, module),
                    None,
                )
            },
        }
    }
}

/// The names and spans of a list of imported symbols.
pub open spec fn symbol_spans(symbols: Seq<Spanned<Symbol>>) -> Seq<(Seq<char>, Span)> {
    symbols.map_values(|s: Spanned<Symbol>| (s.0@, s.1))
}

/// The source registered under `path`, from position `from` on.
pub open spec fn file_from(files: Seq<(String, AtopileSource)>, path: Seq<char>, from: int) -> int
    decreases files.len() - from,
{
    if from < 0 || from >= files.len() {
        files.len() as int
    } else if files[from].0@ == path {
        from
    } else {
        file_from(files, path, from + 1)
    }
}

/// The scope after binding each of `symbols[at..]` whose type root in the
/// file `path` is in the store, and whether some symbol is not (`missing`
/// tells whether one was found not to be before).
pub open spec fn known_imports(
    store: StoreView,
    scope: ScopeView,
    path: Option<Seq<char>>,
    symbols: Seq<(Seq<char>, Span)>,
    at: int,
    missing: bool,
) -> (ScopeView, bool)
    decreases symbols.len() - at,
{
    if at < 0 || at >= symbols.len() {
        (scope, missing)
    } else {
        match path {
            Some(p) => {
                let root = root_of(ModuleRefView { source_path: p, module_name: symbols[at].0 });
                match assoc::get(store, root) {
                    Some(instance) => known_imports(
                        store,
                        assoc::put(scope, symbols[at].0, instance.type_ref),
                        path,
                        symbols,
                        at + 1,
                        missing,
                    ),
                    None => known_imports(store, scope, path, symbols, at + 1, true),
                }
            },
            None => known_imports(store, scope, path, symbols, at + 1, true),
        }
    }
}

/// The scope and the report after binding each of `symbols[at..]` to the
/// type whose root in the file `path` is in the store. A symbol without one
/// is reported as not found.
pub open spec fn bound_imports(
    store: StoreView,
    scope: ScopeView,
    report: ReportView,
    path: Seq<char>,
    source: &AtopileSource,
    symbols: Seq<(Seq<char>, Span)>,
    at: int,
) -> (ScopeView, ReportView)
    decreases symbols.len() - at,
{
    if at < 0 || at >= symbols.len() {
        (scope, report)
    } else {
        let root = root_of(ModuleRefView { source_path: path, module_name: symbols[at].0 });
        match assoc::get(store, root) {
            Some(instance) => bound_imports(
                store,
                assoc::put(scope, symbols[at].0, instance.type_ref),
                report,
                path,
                source,
                symbols,
                at + 1,
            ),
            None => bound_imports(
                store,
                scope,
                reported(
                    report,
                    error_diagnostic(
                        plain_error(
                            EvaluatorErrorKind::ImportNotFound,
                            place(source, symbols[at].1),
                        ),
                    ),
                ),
                path,
                source,
                symbols,
                at + 1,
            ),
        }
    }
}

/// The error for an import of a file that is not among the registered
/// sources.
pub open spec fn load_error(location: LocationView, path: Seq<char>) -> ErrorView {
    error_with(
        EvaluatorErrorKind::ImportLoadFailed,
        location,
        "`"@ + path + "` is not loaded"@,
    )
}

/// The error for imports nested more deeply than there are sources.
pub open spec fn depth_error(location: LocationView) -> ErrorView {
    error_with(
        EvaluatorErrorKind::Internal,
        location,
        "imports are nested too deeply"@,
    )
}

/// The graph, the report and the scope after importing `symbols` from the
/// file that `import_path` names, and the error if the import failed.
///
/// Where every symbol's type is in the store already, the symbols are bound
/// and nothing else happens. Otherwise the path is resolved, the file is
/// looked up among the sources and evaluated with its path on the stack of
/// imports in progress, and then the symbols are bound. A path that is on
/// the stack already is an import cycle.
pub open spec fn import_done(
    state: EvalView,
    scope: ScopeView,
    files: Seq<(String, AtopileSource)>,
    fs: FileSystemView,
    source: &AtopileSource,
    stack: Seq<Seq<char>>,
    import_path: Spanned<String>,
    symbols: Seq<(Seq<char>, Span)>,
) -> (EvalView, ScopeView, Option<ErrorView>)
    decreases files.len() - stack.len(), 0nat, 0nat,
{
    let target = resolved(fs, source.path_view(), import_path.0@);
    let here = place(source, import_path.1);
    let (scope1, load) = known_imports(state.store, scope, target, symbols, 0, false);
    if !load {
        (state, scope1, None)
    } else {
        match target {
            None => (
                state,
                scope1,
                Some(plain_error(EvaluatorErrorKind::ImportPathNotFound, here)),
            ),
            Some(path) => {
                if stack.contains(path) {
                    (state, scope1, Some(plain_error(EvaluatorErrorKind::ImportCycle, here)))
                } else {
                    let at = file_from(files, path, 0);
                    if at >= files.len() {
                        (state, scope1, Some(load_error(here, path)))
                    } else if stack.len() >= files.len() {
                        (state, scope1, Some(depth_error(here)))
                    } else {
                        let state1 = inner_done(state, files, fs, &files[at].1, stack.push(path));
                        let (scope2, report2) = bound_imports(
                            state1.store,
                            scope1,
                            state1.report,
                            path,
                            source,
                            symbols,
                            0,
                        );
                        (EvalView { store: state1.store, report: report2 }, scope2, None)
                    }
                }
            },
        }
    }
}

/// The graph, the report and the scope after one top-level statement, and
/// the error if it failed. Imports import, blocks are evaluated, comments do
/// nothing, a parse error is reported, and anything else is unexpected.
pub open spec fn top_done(
    state: EvalView,
    scope: ScopeView,
    files: Seq<(String, AtopileSource)>,
    fs: FileSystemView,
    source: &AtopileSource,
    stack: Seq<Seq<char>>,
    stmt: Spanned<Stmt>,
) -> (EvalView, ScopeView, Option<ErrorView>)
    decreases files.len() - stack.len(), 1nat, 0nat,
{
    match stmt.0 {
        Stmt::Import(import) => import_done(
            state,
            scope,
            files,
            fs,
            source,
            stack,
            import.from_path,
            symbol_spans(import.imports@),
        ),
        Stmt::DepImport(import) => import_done(
            state,
            scope,
            files,
            fs,
            source,
            stack,
            import.from_path,
            seq![(import.name.0@, import.name.1)],
        ),
        Stmt::Block(block) => block_done(state, scope, source, block),
        Stmt::Comment(_) => (state, scope, None),
        Stmt::ParseError(message) => (
            EvalView {
                store: state.store,
                report: reported(
                    state.report,
                    error_diagnostic(
                        error_with(
                            EvaluatorErrorKind::ParseError,
                            place(source, stmt.1),
                            message@,
                        ),
                    ),
                ),
            },
            scope,
            None,
        ),
        _ => (
            state,
            scope,
            Some(plain_error(EvaluatorErrorKind::UnexpectedStmt, place(source, stmt.1))),
        ),
    }
}

/// The graph, the report and the scope after the top-level statements
/// `stmts[at..]` that are not blocks. A statement that fails is reported.
pub open spec fn tops_done(
    state: EvalView,
    scope: ScopeView,
    files: Seq<(String, AtopileSource)>,
    fs: FileSystemView,
    source: &AtopileSource,
    stack: Seq<Seq<char>>,
    at: int,
) -> (EvalView, ScopeView)
    decreases files.len() - stack.len(), 2nat, source.stmts().len() - at,
{
    if at < 0 || at >= source.stmts().len() {
        (state, scope)
    } else if source.stmts()[at].0 is Block {
        tops_done(state, scope, files, fs, source, stack, at + 1)
    } else {
        let (state1, scope1, failure) = top_done(
            state,
            scope,
            files,
            fs,
            source,
            stack,
            source.stmts()[at],
        );
        tops_done(
            EvalView { store: state1.store, report: noted(state1.report, failure) },
            scope1,
            files,
            fs,
            source,
            stack,
            at + 1,
        )
    }
}

/// The scope after binding the name of each of `declarations[at..]` to the
/// type of that name in the file `path`.
pub open spec fn registered(
    scope: ScopeView,
    path: Seq<char>,
    declarations: Seq<DeclarationView>,
    at: int,
) -> ScopeView
    decreases declarations.len() - at,
{
    if at < 0 || at >= declarations.len() {
        scope
    } else {
        registered(
            assoc::put(
                scope,
                declarations[at].name,
                ModuleRefView { source_path: path, module_name: declarations[at].name },
            ),
            path,
            declarations,
            at + 1,
        )
    }
}

/// The graph, the report and the scope after the blocks that `order[at..]`
/// picks among `declarations`. A block that fails is reported.
pub open spec fn blocks_done(
    state: EvalView,
    scope: ScopeView,
    source: &AtopileSource,
    declarations: Seq<DeclarationView>,
    order: Seq<usize>,
    at: int,
) -> (EvalView, ScopeView)
    decreases order.len() - at,
{
    if at < 0 || at >= order.len() {
        (state, scope)
    } else {
        match source.stmts()[declarations[order[at] as int].index as int].0 {
            Stmt::Block(block) => {
                let (state1, scope1, failure) = block_done(state, scope, source, block);
                blocks_done(
                    EvalView { store: state1.store, report: noted(state1.report, failure) },
                    scope1,
                    source,
                    declarations,
                    order,
                    at + 1,
                )
            },
            _ => blocks_done(state, scope, source, declarations, order, at + 1),
        }
    }
}

/// The graph and the report after evaluating the file `source`, with
/// `stack` the files whose import is in progress.
///
/// The file's diagnostics are cleared. Its type declarations are collected
/// and ordered so that parents come first, and their names are bound in the
/// file's scope. Then the statements that are not blocks are evaluated, and
/// then the blocks, in that order.
pub open spec fn inner_done(
    state: EvalView,
    files: Seq<(String, AtopileSource)>,
    fs: FileSystemView,
    source: &AtopileSource,
    stack: Seq<Seq<char>>,
) -> EvalView
    decreases files.len() - stack.len(), 3nat, 0nat,
{
    let report1 = cleared(state.report, source.path_view());
    let (declarations, report2) = collected(source, report1, source.stmts().len() as int);
    let (order, cycles) = ordered(declarations, declarations.len() as int);
    let report3 = with_cycles(report2, declarations, cycles);
    let scope1 = registered(Seq::empty(), source.path_view(), declarations, 0);
    let (state4, scope4) = tops_done(
        EvalView { store: state.store, report: report3 },
        scope1,
        files,
        fs,
        source,
        stack,
        0,
    );
    blocks_done(state4, scope4, source, declarations, order, 0).0
}

/// The graph and the report after evaluating the sources `files[at..]`, each
/// from an empty stack of imports.
pub open spec fn files_done(
    state: EvalView,
    files: Seq<(String, AtopileSource)>,
    fs: FileSystemView,
    at: int,
) -> EvalView
    decreases files.len() - at,
{
    if at < 0 || at >= files.len() {
        state
    } else {
        files_done(inner_done(state, files, fs, &files[at].1, Seq::empty()), files, fs, at + 1)
    }
}

/// The graph and the report of a full evaluation: every registered source
/// evaluated in order, starting from nothing.
pub open spec fn evaluated(files: Seq<(String, AtopileSource)>, fs: FileSystemView) -> EvalView {
    files_done(EvalView { store: Seq::empty(), report: Seq::empty() }, files, fs, 0)
}

/// Whether `list` holds the text of `item`.
fn holds(list: &Vec<String>, item: &String) -> (r: bool)
    ensures
        r == texts(list@).contains(item@),
{
    let mut i: usize = 0;
    while i < list.len()
        invariant
            i <= list.len(),
            forall|j: int| 0 <= j < i ==> texts(list@)[j] != item@,
        decreases list.len() - i,
    {
        if same_text(&list[i], item) {
            assert(texts(list@)[i as int] == item@);
            return true;
        }
        i += 1;
    }
    false
}

/// The position of the source registered under `path`, or the number of
/// sources.
pub(crate) fn file_position(files: &Vec<(String, AtopileSource)>, path: &String) -> (r: usize)
    ensures
        r == file_from(files@, path@, 0),
        r <= files.len(),
{
    let mut i: usize = 0;
    while i < files.len()
        invariant
            i <= files.len(),
            file_from(files@, path@, 0) == file_from(files@, path@, i as int),
        decreases files.len() - i,
    {
        if same_text(&files[i].0, path) {
            return i;
        }
        i += 1;
    }
    i
}

/// Resolves one side of a connection, declaring the port or pin that a
/// `signal` or `pin` side names.
fn resolve_endpoint(
    state: &mut EvaluatorState,
    instance: &mut Instance,
    module_ref: &ModuleRef,
    source: &AtopileSource,
    side: &Spanned<Connectable>,
) -> (r: InstanceRef)
    ensures
        final(state)@ == endpoint(old(state)@, old(instance)@, module_ref@, source, *side).0,
        final(instance)@ == endpoint(old(state)@, old(instance)@, module_ref@, source, *side).1,
        r@ == endpoint(old(state)@, old(instance)@, module_ref@, source, *side).2,
{
    match &side.0 {
        Connectable::Signal(name) => {
            let symbol = Symbol::new(name.0.as_str());
            let at = InstanceRef::root(module_ref).child(&symbol);
            assert(at@ =~= named(module_ref@, name.0@));
            state.add_instance(&at, Instance::port(&source.span_location(&side.1)));
            instance.add_child(&symbol, &at);
            at
        },
        Connectable::Pin(name) => {
            let symbol = Symbol::new(name.0.as_str());
            let at = InstanceRef::root(module_ref).child(&symbol);
            assert(at@ =~= named(module_ref@, name.0@));
            state.add_instance(&at, Instance::pin(&source.span_location(&side.1)));
            instance.add_child(&symbol, &at);
            at
        },
        Connectable::Port(port) => InstanceRef::new(module_ref, port.0.symbols()),
    }
}

/// Evaluates one statement of the body of the block whose type is
/// `module_ref` and whose instance, taken out of the store, is `instance`.
pub fn evaluate_block_stmt(
    state: &mut EvaluatorState,
    scope: &FileScope,
    instance: &mut Instance,
    module_ref: &ModuleRef,
    source: &AtopileSource,
    stmt: &Spanned<Stmt>,
) -> (r: Result<(), EvaluatorError>)
    ensures
        final(state)@ == stmt_done(
            old(state)@,
            scope@,
            old(instance)@,
            module_ref@,
            source,
            *stmt,
        ).0,
        final(instance)@ == stmt_done(
            old(state)@,
            scope@,
            old(instance)@,
            module_ref@,
            source,
            *stmt,
        ).1,
        failure_of(r) == stmt_done(
            old(state)@,
            scope@,
            old(instance)@,
            module_ref@,
            source,
            *stmt,
        ).2,
{
    match &stmt.0 {
        Stmt::Assign(assign) => {
            let mut target = InstanceRef::new(module_ref, assign.target.0.symbols());
            match &assign.value.0 {
                Expr::New(wanted) => {
                    if assign.target.0.parts.len() != 1 {
                        return Err(
                            EvaluatorError::new(
                                EvaluatorErrorKind::InvalidAssignment,
                                &source.span_location(&assign.target.1),
                            ).with_message(owned_text("Cannot create new module in sub-module")),
                        );
                    }
                    let type_ref = match scope.resolve(&wanted.0) {
                        Some(t) => t,
                        None => {
                            return Err(
                                EvaluatorError::new(
                                    EvaluatorErrorKind::TypeNotFound,
                                    &source.span_location(&wanted.1),
                                ),
                            );
                        },
                    };
                    if state.contains(&target) {
                        let message = concat_text(
                            concat_text(owned_text("`"), assign.target.0.parts[0].0.as_str()),
                            "` already exists",
                        );
                        return Err(
                            EvaluatorError::new(
                                EvaluatorErrorKind::InvalidAssignment,
                                &source.span_location(&assign.target.1),
                            ).with_message(message),
                        );
                    }
                    let depth = state.depth_limit();
                    let here = source.span_location(&stmt.1);
                    match state.clone_instance(
                        &InstanceRef::root(type_ref),
                        &target,
                        Some(&here),
                        depth,
                    ) {
                        Err(e) => {
                            let name = type_ref.to_string();
                            let why = e.to_string();
                            let message = concat_text(
                                concat_text(
                                    concat_text(
                                        owned_text("Failed to clone instance `"),
                                        name.as_str(),
                                    ),
                                    "`: ",
                                ),
                                why.as_str(),
                            );
                            return Err(
                                EvaluatorError::internal(
                                    &source.span_location(&assign.target.1),
                                    message,
                                ),
                            );
                        },
                        Ok(_) => {},
                    }
                    instance.add_child(&target.instance_path[0], &target);
                    Ok(())
                },
                _ => {
                    let ghost path = assign.target.0.path();
                    match target.pop() {
                        None => Err(
                            EvaluatorError::new(
                                EvaluatorErrorKind::InvalidAssignment,
                                &source.span_location(&assign.value.1),
                            ).with_message(
                                owned_text("Cannot assign attribute to top-level module"),
                            ),
                        ),
                        Some(attribute) => {
                            let value = AttributeValue::from_expr(&assign.value.0);
                            if target.len() == 0 {
                                instance.add_attribute(&attribute, value);
                                Ok(())
                            } else if state.add_attribute(&target, &attribute, value) {
                                Ok(())
                            } else {
                                Err(
                                    EvaluatorError::new(
                                        EvaluatorErrorKind::InvalidAssignment,
                                        &source.span_location(&assign.value.1),
                                    ),
                                )
                            }
                        },
                    }
                },
            }
        },
        Stmt::Signal(signal) => {
            let at = InstanceRef::root(module_ref).child(&signal.name.0);
            assert(at@ =~= named(module_ref@, signal.name.0@));
            state.add_instance(&at, Instance::port(&source.span_location(&stmt.1)));
            instance.add_child(&signal.name.0, &at);
            Ok(())
        },
        Stmt::Pin(pin) => {
            let at = InstanceRef::root(module_ref).child(&pin.name.0);
            assert(at@ =~= named(module_ref@, pin.name.0@));
            state.add_instance(&at, Instance::pin(&source.span_location(&stmt.1)));
            instance.add_child(&pin.name.0, &at);
            Ok(())
        },
        Stmt::Connect(connect) => {
            let left = resolve_endpoint(state, instance, module_ref, source, &connect.left);
            let right = resolve_endpoint(state, instance, module_ref, source, &connect.right);
            state.connect(
                instance,
                &Located::new(left, source.span_location(&connect.left.1)),
                &Located::new(right, source.span_location(&connect.right.1)),
                &source.span_location(&stmt.1),
            )
        },
        _ => Ok(()),
    }
}

/// Evaluates the block `block` of the file `source`: seeds its root
/// instance, evaluates the body on it, binds it in the store and binds the
/// block's name in the scope.
pub fn evaluate_block(
    state: &mut EvaluatorState,
    reporter: &mut AnalyzerReporter,
    scope: &mut FileScope,
    source: &AtopileSource,
    block: &BlockStmt,
) -> (r: Result<(), EvaluatorError>)
    ensures
        (
            EvalView { store: final(state)@, report: final(reporter)@ },
            final(scope)@,
            failure_of(r),
        ) == block_done(
            EvalView { store: old(state)@, report: old(reporter)@ },
            old(scope)@,
            source,
            *block,
        ),
{
    let module_ref = ModuleRef::new(source.path().as_str(), &block.name.0);
    let root = InstanceRef::root(&module_ref);
    let here = source.span_location(&block.name.1);
    let kind = match block.kind.0 {
        BlockKind::Module => InstanceKind::Module,
        BlockKind::Component => InstanceKind::Component,
        BlockKind::Interface => InstanceKind::Interface,
    };
    match &block.parent {
        Some(parent) => {
            let parent_ref = match scope.resolve(&parent.0) {
                Some(p) => p,
                None => {
                    return Err(
                        EvaluatorError::new(
                            EvaluatorErrorKind::TypeNotFound,
                            &source.span_location(&parent.1),
                        ),
                    );
                },
            };
            let depth = state.depth_limit();
            match state.clone_instance(&InstanceRef::root(parent_ref), &root, Some(&here), depth) {
                Err(_) => {
                    return Err(
                        EvaluatorError::internal(
                            &source.span_location(&parent.1),
                            owned_text("Failed to clone parent module"),
                        ),
                    );
                },
                Ok(_) => {},
            }
        },
        None => {
            state.add_instance(&root, Instance::new(&module_ref, kind, &here));
        },
    }
    let ghost seeded = state@;
    let mut instance = match state.remove_instance(&root) {
        Some(i) => i,
        None => {
            return Err(EvaluatorError::new(EvaluatorErrorKind::Internal, &here));
        },
    };
    instance.type_ref = module_ref.clone();
    let ghost store0 = state@;
    let ghost instance0 = instance@;
    let mut i: usize = 0;
    while i < block.body.len()
        invariant
            i <= block.body.len(),
            scope@ == old(scope)@,
            body_done(
                store0,
                scope@,
                instance0,
                old(reporter)@,
                module_ref@,
                source,
                block.body@,
                0,
            ) == body_done(
                state@,
                scope@,
                instance@,
                reporter@,
                module_ref@,
                source,
                block.body@,
                i as int,
            ),
        decreases block.body.len() - i,
    {
        match evaluate_block_stmt(state, scope, &mut instance, &module_ref, source, &block.body[i]) {
            Err(e) => {
                reporter.report_error(e);
            },
            Ok(_) => {},
        }
        i += 1;
    }
    state.add_instance(&root, instance);
    scope.define(&block.name.0, &module_ref);
    Ok(())
}

/// Evaluates the import of `symbols` from the file that `import_path`
/// names, in the file `source`, with `stack` the files whose import is in
/// progress.
pub fn evaluate_import(
    state: &mut EvaluatorState,
    reporter: &mut AnalyzerReporter,
    scope: &mut FileScope,
    files: &Vec<(String, AtopileSource)>,
    fs: &FileSystem,
    source: &AtopileSource,
    stack: &Vec<String>,
    import_path: &Spanned<String>,
    symbols: &Vec<Spanned<Symbol>>,
) -> (r: Result<(), EvaluatorError>)
    ensures
        (
            EvalView { store: final(state)@, report: final(reporter)@ },
            final(scope)@,
            failure_of(r),
        ) == import_done(
            EvalView { store: old(state)@, report: old(reporter)@ },
            old(scope)@,
            files@,
            fs@,
            source,
            texts(stack@),
            *import_path,
            symbol_spans(symbols@),
        ),
    decreases files.len() - stack.len(), 0nat, 0nat,
{
    let target = resolve_import_path(fs, source.path().as_str(), import_path.0.as_str());
    let ghost wanted = symbol_spans(symbols@);
    let ghost target_view = resolved(fs@, source.path_view(), import_path.0@);
    let mut load = false;
    let mut i: usize = 0;
    while i < symbols.len()
        invariant
            i <= symbols.len(),
            state@ == old(state)@,
            reporter@ == old(reporter)@,
            wanted == symbol_spans(symbols@),
            match target {
                Some(p) => target_view == Some(p@),
                None => target_view is None,
            },
            known_imports(state@, old(scope)@, target_view, wanted, 0, false) == known_imports(
                state@,
                scope@,
                target_view,
                wanted,
                i as int,
                load,
            ),
        decreases symbols.len() - i,
    {
        assert(wanted[i as int] == (symbols[i as int].0@, symbols[i as int].1));
        match &target {
            Some(p) => {
                let root = InstanceRef::root(&ModuleRef::new(p.as_str(), &symbols[i].0));
                match state.resolve_instance(&root) {
                    Some(instance) => {
                        scope.define(&symbols[i].0, &instance.type_ref);
                    },
                    None => {
                        load = true;
                    },
                }
            },
            None => {
                load = true;
            },
        }
        i += 1;
    }
    if !load {
        return Ok(());
    }
    let here = source.span_location(&import_path.1);
    let path = match target {
        Some(p) => p,
        None => {
            return Err(EvaluatorError::new(EvaluatorErrorKind::ImportPathNotFound, &here));
        },
    };
    if holds(stack, &path) {
        return Err(EvaluatorError::new(EvaluatorErrorKind::ImportCycle, &here));
    }
    let at = file_position(files, &path);
    if at >= files.len() {
        let message = concat_text(concat_text(owned_text("`"), path.as_str()), "` is not loaded");
        return Err(
            EvaluatorError::new(EvaluatorErrorKind::ImportLoadFailed, &here).with_message(message),
        );
    }
    if stack.len() >= files.len() {
        return Err(
            EvaluatorError::internal(&here, owned_text("imports are nested too deeply")),
        );
    }
    let mut deeper: Vec<String> = Vec::new();
    let mut k: usize = 0;
    while k < stack.len()
        invariant
            k <= stack.len(),
            deeper.len() == k,
            forall|n: int| 0 <= n < k ==> deeper[n]@ == stack[n]@,
        decreases stack.len() - k,
    {
        deeper.push(copy_text(&stack[k]));
        k += 1;
    }
    deeper.push(copy_text(&path));
    assert(texts(deeper@) =~= texts(stack@).push(path@));
    evaluate_inner(state, reporter, files, fs, &files[at].1, deeper);
    let ghost store1 = state@;
    let ghost scope1 = scope@;
    let ghost report1 = reporter@;
    let mut j: usize = 0;
    while j < symbols.len()
        invariant
            j <= symbols.len(),
            state@ == store1,
            wanted == symbol_spans(symbols@),
            bound_imports(store1, scope1, report1, path@, source, wanted, 0) == bound_imports(
                store1,
                scope@,
                reporter@,
                path@,
                source,
                wanted,
                j as int,
            ),
        decreases symbols.len() - j,
    {
        assert(wanted[j as int] == (symbols[j as int].0@, symbols[j as int].1));
        let root = InstanceRef::root(&ModuleRef::new(path.as_str(), &symbols[j].0));
        match state.resolve_instance(&root) {
            Some(instance) => {
                scope.define(&symbols[j].0, &instance.type_ref);
            },
            None => {
                reporter.report_error(
                    EvaluatorError::new(
                        EvaluatorErrorKind::ImportNotFound,
                        &source.span_location(&symbols[j].1),
                    ),
                );
            },
        }
        j += 1;
    }
    Ok(())
}

/// Evaluates one top-level statement of the file `source`.
pub fn evaluate_top_stmt(
    state: &mut EvaluatorState,
    reporter: &mut AnalyzerReporter,
    scope: &mut FileScope,
    files: &Vec<(String, AtopileSource)>,
    fs: &FileSystem,
    source: &AtopileSource,
    stack: &Vec<String>,
    stmt: &Spanned<Stmt>,
) -> (r: Result<(), EvaluatorError>)
    ensures
        (
            EvalView { store: final(state)@, report: final(reporter)@ },
            final(scope)@,
            failure_of(r),
        ) == top_done(
            EvalView { store: old(state)@, report: old(reporter)@ },
            old(scope)@,
            files@,
            fs@,
            source,
            texts(stack@),
            *stmt,
        ),
    decreases files.len() - stack.len(), 1nat, 0nat,
{
    match &stmt.0 {
        Stmt::Import(import) => evaluate_import(
            state,
            reporter,
            scope,
            files,
            fs,
            source,
            stack,
            &import.from_path,
            &import.imports,
        ),
        Stmt::DepImport(import) => {
            let single = vec![Spanned(import.name.0.clone(), import.name.1)];
            assert(symbol_spans(single@) =~= seq![(import.name.0@, import.name.1)]);
            evaluate_import(
                state,
                reporter,
                scope,
                files,
                fs,
                source,
                stack,
                &import.from_path,
                &single,
            )
        },
        Stmt::Block(block) => evaluate_block(state, reporter, scope, source, block),
        Stmt::Comment(_) => Ok(()),
        Stmt::ParseError(message) => {
            reporter.report_error(
                EvaluatorError::new(
                    EvaluatorErrorKind::ParseError,
                    &source.span_location(&stmt.1),
                ).with_message(copy_text(message)),
            );
            Ok(())
        },
        _ => Err(
            EvaluatorError::new(
                EvaluatorErrorKind::UnexpectedStmt,
                &source.span_location(&stmt.1),
            ),
        ),
    }
}

/// Evaluates the file `source`, with `stack` the files whose import is in
/// progress: clears its diagnostics, collects and orders its type
/// declarations, binds their names, evaluates the statements that are not
/// blocks, and then the blocks in order.
pub fn evaluate_inner(
    state: &mut EvaluatorState,
    reporter: &mut AnalyzerReporter,
    files: &Vec<(String, AtopileSource)>,
    fs: &FileSystem,
    source: &AtopileSource,
    stack: Vec<String>,
)
    ensures
        (EvalView { store: final(state)@, report: final(reporter)@ }) == inner_done(
            EvalView { store: old(state)@, report: old(reporter)@ },
            files@,
            fs@,
            source,
            texts(stack@),
        ),
    decreases files.len() - stack.len(), 3nat, 0nat,
{
    reporter.clear(source.path());
    let mut scope = FileScope::new();
    let declarations = collect_block_declarations(source, reporter);
    let ghost views = declaration_views(declarations@);
    let order = sort_blocks(&declarations, reporter);
    let ghost report3 = reporter@;
    let mut d: usize = 0;
    while d < declarations.len()
        invariant
            d <= declarations.len(),
            views == declaration_views(declarations@),
            registered(Seq::empty(), source.path_view(), views, 0) == registered(
                scope@,
                source.path_view(),
                views,
                d as int,
            ),
        decreases declarations.len() - d,
    {
        assert(views[d as int] == declarations[d as int]@);
        scope.define(
            &declarations[d].name,
            &ModuleRef::new(source.path().as_str(), &declarations[d].name),
        );
        d += 1;
    }
    let ghost scope1 = scope@;
    let ast = source.ast();
    let mut i: usize = 0;
    while i < ast.len()
        invariant
            i <= ast.len(),
            ast@ == source.stmts(),
            tops_done(
                EvalView { store: old(state)@, report: report3 },
                scope1,
                files@,
                fs@,
                source,
                texts(stack@),
                0,
            ) == tops_done(
                EvalView { store: state@, report: reporter@ },
                scope@,
                files@,
                fs@,
                source,
                texts(stack@),
                i as int,
            ),
        decreases ast.len() - i,
    {
        let is_block = match &ast[i].0 {
            Stmt::Block(_) => true,
            _ => false,
        };
        if !is_block {
            match evaluate_top_stmt(state, reporter, &mut scope, files, fs, source, &stack, &ast[i]) {
                Err(e) => {
                    reporter.report_error(e);
                },
                Ok(_) => {},
            }
        }
        i += 1;
    }
    let ghost state4 = EvalView { store: state@, report: reporter@ };
    let ghost scope4 = scope@;
    let mut k: usize = 0;
    while k < order.len()
        invariant
            k <= order.len(),
            ast@ == source.stmts(),
            views == declaration_views(declarations@),
            forall|n: int| 0 <= n < order.len() ==> order[n] < declarations.len(),
            forall|n: int|
                0 <= n < declarations.len() ==> (#[trigger] declarations[n]).index
                    < source.stmts().len(),
            blocks_done(state4, scope4, source, views, order@, 0) == blocks_done(
                EvalView { store: state@, report: reporter@ },
                scope@,
                source,
                views,
                order@,
                k as int,
            ),
        decreases order.len() - k,
    {
        let declaration = &declarations[order[k]];
        assert(views[order[k as int] as int] == declaration@);
        match &ast[declaration.index].0 {
            Stmt::Block(block) => {
                match evaluate_block(state, reporter, &mut scope, source, block) {
                    Err(e) => {
                        reporter.report_error(e);
                    },
                    Ok(_) => {},
                }
            },
            _ => {},
        }
        k += 1;
    }
}

/// The sources with `source` registered under `path`: in place of the
/// source that was registered under that path, or else after all others.
pub open spec fn with_source(
    files: Seq<(String, AtopileSource)>,
    path: String,
    source: AtopileSource,
) -> Seq<(String, AtopileSource)> {
    let at = file_from(files, path@, 0);
    if at < files.len() {
        files.update(at, (path, source))
    } else {
        files.push((path, source))
    }
}

/// The sources without the one registered under `path`.
pub open spec fn without_source(files: Seq<(String, AtopileSource)>, path: Seq<char>) -> Seq<
    (String, AtopileSource),
> {
    let at = file_from(files, path, 0);
    if at < files.len() {
        files.remove(at)
    } else {
        files
    }
}

/// Evaluates the registered source files into the instance graph.
///
/// Every change of the registered sources, or of what is known of the file
/// system, evaluates all of them again from nothing.
pub struct Evaluator {
    pub(crate) state: EvaluatorState,
    pub(crate) reporter: AnalyzerReporter,
    pub(crate) files: Vec<(String, AtopileSource)>,
    pub(crate) fs: FileSystem,
}

impl Default for Evaluator {
    fn default() -> (r: Self)
        ensures
            r.sources() == Seq::<(String, AtopileSource)>::empty(),
            r.file_system() == crate::resolver::nothing_found(),
            r.graph() == StoreView::empty(),
            r.report() == ReportView::empty(),
            r.is_evaluated(),
    {
        Evaluator::new()
    }
}

impl Evaluator {
    /// The registered sources, each under its path, in the order in which
    /// the paths were first registered.
    pub closed spec fn sources(&self) -> Seq<(String, AtopileSource)> {
        self.files@
    }

    /// What is known of the file system.
    pub closed spec fn file_system(&self) -> FileSystemView {
        self.fs@
    }

    /// The instance graph.
    pub closed spec fn graph(&self) -> StoreView {
        self.state@
    }

    /// The diagnostics.
    pub closed spec fn report(&self) -> ReportView {
        self.reporter@
    }

    /// Whether the graph and the diagnostics are those of a full evaluation
    /// of the registered sources.
    pub open spec fn is_evaluated(&self) -> bool {
        &&& self.graph() == evaluated(self.sources(), self.file_system()).store
        &&& self.report() == evaluated(self.sources(), self.file_system()).report
    }

    /// An evaluator without sources, on a file system of which nothing is
    /// known.
    pub fn new() -> (r: Self)
        ensures
            r.sources() == Seq::<(String, AtopileSource)>::empty(),
            r.file_system() == crate::resolver::nothing_found(),
            r.graph() == StoreView::empty(),
            r.report() == ReportView::empty(),
            r.is_evaluated(),
    {
        Evaluator {
            state: EvaluatorState::new(),
            reporter: AnalyzerReporter::new(),
            files: Vec::new(),
            fs: FileSystem::new(),
        }
    }

    /// Discards the graph and the diagnostics.
    pub fn reset(&mut self)
        ensures
            final(self).graph() == StoreView::empty(),
            final(self).report() == ReportView::empty(),
            final(self).sources() == old(self).sources(),
            final(self).file_system() == old(self).file_system(),
    {
        self.state = EvaluatorState::new();
        self.reporter.reset();
    }

    /// The reporter that holds the diagnostics.
    pub fn reporter(&self) -> (r: &AnalyzerReporter)
        ensures
            r@ == self.report(),
    {
        &self.reporter
    }

    /// The store that holds the graph.
    pub fn state(&self) -> (r: &EvaluatorState)
        ensures
            r@ == self.graph(),
    {
        &self.state
    }

    /// The registered sources, each under its path.
    pub fn files(&self) -> (r: &Vec<(String, AtopileSource)>)
        ensures
            r@ == self.sources(),
    {
        &self.files
    }

    /// Evaluates every registered source from nothing and returns a copy of
    /// the graph.
    pub fn evaluate(&mut self) -> (r: EvaluatorState)
        ensures
            final(self).sources() == old(self).sources(),
            final(self).file_system() == old(self).file_system(),
            final(self).is_evaluated(),
            r@ == final(self).graph(),
    {
        self.reset();
        let mut i: usize = 0;
        while i < self.files.len()
            invariant
                i <= self.files.len(),
                self.files@ == old(self).files@,
                self.fs@ == old(self).fs@,
                evaluated(self.files@, self.fs@) == files_done(
                    EvalView { store: self.state@, report: self.reporter@ },
                    self.files@,
                    self.fs@,
                    i as int,
                ),
            decreases self.files.len() - i,
        {
            let stack: Vec<String> = Vec::new();
            assert(texts(stack@) =~= Seq::empty());
            evaluate_inner(
                &mut self.state,
                &mut self.reporter,
                &self.files,
                &self.fs,
                &self.files[i].1,
                stack,
            );
            i += 1;
        }
        self.state.clone()
    }

    /// Registers `source` under `path`, in place of the source that was
    /// registered under that path, and evaluates.
    pub fn set_source(&mut self, path: String, source: AtopileSource)
        ensures
            final(self).sources() == with_source(old(self).sources(), path, source),
            final(self).file_system() == old(self).file_system(),
            final(self).is_evaluated(),
    {
        let at = file_position(&self.files, &path);
        if at < self.files.len() {
            self.files[at] = (path, source);
        } else {
            self.files.push((path, source));
        }
        self.evaluate();
    }

    /// Removes the source registered under `path`, if there is one, and
    /// evaluates.
    pub fn remove_source(&mut self, path: &String)
        ensures
            final(self).sources() == without_source(old(self).sources(), path@),
            final(self).file_system() == old(self).file_system(),
            final(self).is_evaluated(),
    {
        let at = file_position(&self.files, path);
        if at < self.files.len() {
            self.files.remove(at);
        }
        self.evaluate();
    }

    /// Stamps on every component of the graph the reference designator that
    /// the netlist of its project lists for it; `netlists` pairs the path of
    /// each netlist that was read with its contents.
    pub fn resolve_reference_designators(&mut self, netlists: &Vec<(String, String)>)
        ensures
            final(self).graph() == crate::designators::stamped(
                old(self).graph(),
                old(self).file_system(),
                crate::designators::pair_views(netlists@),
            ),
            final(self).report() == old(self).report(),
            final(self).sources() == old(self).sources(),
            final(self).file_system() == old(self).file_system(),
    {
        self.state.resolve_reference_designators(&self.fs, netlists);
    }

    /// The position of the source registered under `path`, or the number of
    /// sources.
    pub fn source_position(&self, path: &String) -> (r: usize)
        ensures
            r == file_from(self.sources(), path@, 0),
            r <= self.sources().len(),
    {
        file_position(&self.files, path)
    }

    /// The file system as it is known.
    pub fn known_file_system(&self) -> (r: &FileSystem)
        ensures
            r@ == self.file_system(),
    {
        &self.fs
    }

    /// Replaces what is known of the file system, and evaluates.
    pub fn set_file_system(&mut self, fs: FileSystem)
        ensures
            final(self).sources() == old(self).sources(),
            final(self).file_system() == fs@,
            final(self).is_evaluated(),
    {
        self.fs = fs;
        self.evaluate();
    }
}

/// Determinism. Two evaluators with the same registered sources and the
/// same knowledge of the file system hold, once evaluated, the same
/// instance graph and the same diagnostics.
pub proof fn lemma_evaluation_is_determined(a: Evaluator, b: Evaluator)
    requires
        a.sources() == b.sources(),
        a.file_system() == b.file_system(),
        a.is_evaluated(),
        b.is_evaluated(),
    ensures
        a.graph() == b.graph(),
        a.report() == b.report(),
{
}

} // verus!
