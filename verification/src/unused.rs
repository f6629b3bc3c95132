//! Finding interfaces that an instantiated module defines and that nothing
//! in the instantiating block connects to.

use vstd::prelude::*;
use crate::assoc;
use crate::ast::{BlockKind, Connectable, Stmt, Symbol};
use crate::diagnostics::{
    diagnostic_views, AnalyzerDiagnostic, AnalyzerDiagnosticKind, AnalyzerDiagnosticSeverity,
    DiagnosticKindView, DiagnosticView, UnconnectedInterfaceDiagnostic, UnconnectedInterfaceView,
};
use crate::evaluator::root_of;
use crate::instance::{
    child_views, Instance, InstanceKind, InstanceRef, InstanceRefView, InstanceView, ModuleRef,
    ModuleRefView,
};
use crate::source::AtopileSource;
use crate::span::Spanned;
use crate::store::{EvaluatorState, StoreView};
use crate::text::{copy_text, same_text};

verus! {

/// Whether one side of a connection is a path that starts with `instance`
/// and then `interface`.
pub open spec fn side_names(side: Connectable, instance: Seq<char>, interface: Seq<char>) -> bool {
    match side {
        Connectable::Port(port) => port.0.parts@.len() >= 2 && port.0.parts@[0].0@ == instance
            && port.0.parts@[1].0@ == interface,
        _ => false,
    }
}

/// Whether a connection among the statements `body[at..]` has a side that
/// starts with `instance` and then `interface`.
pub open spec fn mentioned(
    body: Seq<Spanned<Stmt>>,
    instance: Seq<char>,
    interface: Seq<char>,
    at: int,
) -> bool
    decreases body.len() - at,
{
    if at < 0 || at >= body.len() {
        false
    } else {
        (match body[at].0 {
            Stmt::Connect(connect) => side_names(connect.left.0, instance, interface)
                || side_names(connect.right.0, instance, interface),
            _ => false,
        }) || mentioned(body, instance, interface, at + 1)
    }
}

/// The warning that the interface `interface` of the instance `name` is not
/// connected.
pub open spec fn unconnected(
    name: Seq<char>,
    instance: InstanceView,
    interface: Seq<char>,
    found: InstanceView,
) -> DiagnosticView {
    DiagnosticView {
        severity: AnalyzerDiagnosticSeverity::Warning,
        kind: DiagnosticKindView::UnconnectedInterface(
            UnconnectedInterfaceView {
                instance_name: name,
                interface_name: interface,
                instantiation_location: instance.location,
                interface_location: found.location,
            },
        ),
        file: instance.location.file,
    }
}

/// The warnings for the interfaces among `children[at..]`, the children of
/// the instance `instance` that the block names `name`, that no connection
/// in `body` mentions.
pub open spec fn unused_of_instance(
    store: StoreView,
    body: Seq<Spanned<Stmt>>,
    name: Seq<char>,
    instance: InstanceView,
    children: Seq<(Seq<char>, InstanceRefView)>,
    at: int,
) -> Seq<DiagnosticView>
    decreases children.len() - at,
{
    if at < 0 || at >= children.len() {
        Seq::empty()
    } else {
        let rest = unused_of_instance(store, body, name, instance, children, at + 1);
        match assoc::get(store, children[at].1) {
            Some(found) => if found.kind == InstanceKind::Interface && !mentioned(
                body,
                name,
                children[at].0,
                0,
            ) {
                seq![unconnected(name, instance, children[at].0, found)] + rest
            } else {
                rest
            },
            None => rest,
        }
    }
}

/// The warnings for the modules and components among `children[at..]`, the
/// children of a block with the statements `body`.
pub open spec fn unused_of_block(
    store: StoreView,
    body: Seq<Spanned<Stmt>>,
    children: Seq<(Seq<char>, InstanceRefView)>,
    at: int,
) -> Seq<DiagnosticView>
    decreases children.len() - at,
{
    if at < 0 || at >= children.len() {
        Seq::empty()
    } else {
        let rest = unused_of_block(store, body, children, at + 1);
        match assoc::get(store, children[at].1) {
            Some(instance) => if instance.kind == InstanceKind::Module || instance.kind
                == InstanceKind::Component {
                unused_of_instance(store, body, children[at].0, instance, instance.children, 0)
                    + rest
            } else {
                rest
            },
            None => rest,
        }
    }
}

/// The warnings for the module and component blocks among the top-level
/// statements `stmts[at..]` of the file `path`.
pub open spec fn unused_of_stmts(
    store: StoreView,
    path: Seq<char>,
    stmts: Seq<Spanned<Stmt>>,
    at: int,
) -> Seq<DiagnosticView>
    decreases stmts.len() - at,
{
    if at < 0 || at >= stmts.len() {
        Seq::empty()
    } else {
        let rest = unused_of_stmts(store, path, stmts, at + 1);
        match stmts[at].0 {
            Stmt::Block(block) => {
                let root = root_of(ModuleRefView { source_path: path, module_name: block.name.0@ });
                match assoc::get(store, root) {
                    Some(instance) => if block.kind.0 != BlockKind::Interface {
                        unused_of_block(store, block.body@, instance.children, 0) + rest
                    } else {
                        rest
                    },
                    None => rest,
                }
            },
            _ => rest,
        }
    }
}

/// Tests whether a side of a connection starts with `instance` and then
/// `interface`.
fn side_mentions(side: &Connectable, instance: &Symbol, interface: &Symbol) -> (r: bool)
    ensures
        r == side_names(*side, instance@, interface@),
{
    match side {
        Connectable::Port(port) => port.0.parts.len() >= 2 && same_text(
            &port.0.parts[0].0,
            &instance.0,
        ) && same_text(&port.0.parts[1].0, &interface.0),
        _ => false,
    }
}

/// Tests whether a connection in `body` mentions the interface.
fn body_mentions(body: &Vec<Spanned<Stmt>>, instance: &Symbol, interface: &Symbol) -> (r: bool)
    ensures
        r == mentioned(body@, instance@, interface@, 0),
{
    let mut i: usize = body.len();
    while i > 0
        invariant
            i <= body.len(),
            !mentioned(body@, instance@, interface@, i as int),
        decreases i,
    {
        i -= 1;
        let here = match &body[i].0 {
            Stmt::Connect(connect) => side_mentions(&connect.left.0, instance, interface)
                || side_mentions(&connect.right.0, instance, interface),
            _ => false,
        };
        if here {
            proof {
                lemma_mentioned_from(body@, instance@, interface@, i as int);
            }
            return true;
        }
    }
    false
}

/// A mention at `at` is a mention from every earlier position on.
proof fn lemma_mentioned_from(
    body: Seq<Spanned<Stmt>>,
    instance: Seq<char>,
    interface: Seq<char>,
    at: int,
)
    requires
        0 <= at < body.len(),
        mentioned(body, instance, interface, at),
    ensures
        mentioned(body, instance, interface, 0),
    decreases at,
{
    if at > 0 {
        assert(mentioned(body, instance, interface, at - 1));
        lemma_mentioned_from(body, instance, interface, at - 1);
    }
}

/// The warnings for the interfaces that instances in the module and
/// component blocks of `source` define and that no connection in the
/// instantiating block mentions, given the instance graph in `state`.
pub fn unused_interfaces(state: &EvaluatorState, source: &AtopileSource) -> (r: Vec<
    AnalyzerDiagnostic,
>)
    ensures
        diagnostic_views(r@) == unused_of_stmts(state@, source.path_view(), source.stmts(), 0),
{
    let ast = source.ast();
    let mut out: Vec<AnalyzerDiagnostic> = Vec::new();
    let mut s: usize = ast.len();
    assert(diagnostic_views(out@) =~= Seq::empty());
    while s > 0
        invariant
            s <= ast.len(),
            ast@ == source.stmts(),
            diagnostic_views(out@) == unused_of_stmts(
                state@,
                source.path_view(),
                source.stmts(),
                s as int,
            ),
        decreases s,
    {
        s -= 1;
        match &ast[s].0 {
            Stmt::Block(block) => {
                let root = InstanceRef::root(
                    &ModuleRef::new(source.path().as_str(), &block.name.0),
                );
                match state.resolve_instance(&root) {
                    Some(instance) => {
                        if !matches!(block.kind.0, BlockKind::Interface) {
                            prepend_block(state, &block.body, &instance.children, &mut out);
                        }
                    },
                    None => {},
                }
            },
            _ => {},
        }
    }
    out
}

/// Puts the warnings for the children of a block before those in `out`.
fn prepend_block(
    state: &EvaluatorState,
    body: &Vec<Spanned<Stmt>>,
    children: &Vec<(Symbol, InstanceRef)>,
    out: &mut Vec<AnalyzerDiagnostic>,
)
    ensures
        diagnostic_views(final(out)@) == unused_of_block(state@, body@, child_views(children@), 0)
            + diagnostic_views(old(out)@),
{
    let ghost rest = diagnostic_views(out@);
    let ghost kids = child_views(children@);
    let mut c: usize = children.len();
    assert(unused_of_block(state@, body@, kids, c as int) + rest =~= rest);
    while c > 0
        invariant
            c <= children.len(),
            kids == child_views(children@),
            diagnostic_views(out@) == unused_of_block(state@, body@, kids, c as int) + rest,
        decreases c,
    {
        c -= 1;
        assert(kids[c as int] == (children[c as int].0@, children[c as int].1@));
        match state.resolve_instance(&children[c].1) {
            Some(instance) => {
                if matches!(instance.kind, InstanceKind::Module | InstanceKind::Component) {
                    let ghost before = diagnostic_views(out@);
                    prepend_instance(state, body, &children[c].0, instance, out);
                    assert(diagnostic_views(out@) =~= unused_of_block(
                        state@,
                        body@,
                        kids,
                        c as int,
                    ) + rest);
                }
            },
            None => {},
        }
    }
}

/// Puts the warnings for the interfaces of an instance before those in
/// `out`.
fn prepend_instance(
    state: &EvaluatorState,
    body: &Vec<Spanned<Stmt>>,
    name: &Symbol,
    instance: &Instance,
    out: &mut Vec<AnalyzerDiagnostic>,
)
    ensures
        diagnostic_views(final(out)@) == unused_of_instance(
            state@,
            body@,
            name@,
            instance@,
            instance@.children,
            0,
        ) + diagnostic_views(old(out)@),
{
    let ghost rest = diagnostic_views(out@);
    let ghost kids = instance@.children;
    let mut c: usize = instance.children.len();
    assert(unused_of_instance(state@, body@, name@, instance@, kids, c as int) + rest =~= rest);
    while c > 0
        invariant
            c <= instance.children.len(),
            kids == instance@.children,
            diagnostic_views(out@) == unused_of_instance(
                state@,
                body@,
                name@,
                instance@,
                kids,
                c as int,
            ) + rest,
        decreases c,
    {
        c -= 1;
        assert(kids[c as int] == (instance.children[c as int].0@, instance.children[c as int].1@));
        match state.resolve_instance(&instance.children[c].1) {
            Some(found) => {
                if matches!(found.kind, InstanceKind::Interface) && !body_mentions(
                    body,
                    name,
                    &instance.children[c].0,
                ) {
                    let ghost before = diagnostic_views(out@);
                    let warning = AnalyzerDiagnostic {
                        severity: AnalyzerDiagnosticSeverity::Warning,
                        kind: AnalyzerDiagnosticKind::UnconnectedInterface(
                            UnconnectedInterfaceDiagnostic {
                                instance_name: copy_text(&name.0),
                                interface_name: copy_text(&instance.children[c].0.0),
                                instantiation_location: instance.location.clone(),
                                interface_location: found.location.clone(),
                            },
                        ),
                        file: copy_text(&instance.location.file),
                    };
                    out.insert(0, warning);
                    assert(diagnostic_views(out@) =~= seq![
                        unconnected(name@, instance@, kids[c as int].0, found@),
                    ] + before);
                    assert(diagnostic_views(out@) =~= unused_of_instance(
                        state@,
                        body@,
                        name@,
                        instance@,
                        kids,
                        c as int,
                    ) + rest);
                }
            },
            None => {},
        }
    }
}

} // verus!
