//! The invariants of the instance store, and that evaluation keeps them.
//!
//! In a well-formed store no identity is bound twice, no instance names a
//! child or an attribute twice, every child lies directly below the instance
//! that names it, and every child that is named is bound.

use vstd::prelude::*;
use crate::assoc;
use crate::ast::{Connectable, Expr, Stmt};
use crate::cloning::{
    child_ref, cloned_children, cloned_store, deepest, depth_limit, transposed_connections,
};
use crate::connect::{connected, filed, wires};
use crate::diagnostics::ReportView;
use crate::error::ErrorView;
use crate::evaluator::{
    block_done, blocks_done, body_done, endpoint, evaluated, files_done, import_done, inner_done,
    named, place, root_of, stmt_done, top_done, tops_done, EvalView,
};
use crate::instance::{
    empty_instance, expr_value, leaf_type, AttributeValueView, ConnectionView, InstanceKind,
    InstanceRefView, InstanceView, ModuleRefView,
};
use crate::location::LocationView;
use crate::order::DeclarationView;
use crate::resolver::FileSystemView;
use crate::scope::ScopeView;
use crate::source::AtopileSource;
use crate::span::{Span, Spanned};
use crate::store::{with_attribute, with_connection, StoreView};

verus! {

/// The instance `instance`, bound or to be bound at `key`, names no child
/// or attribute twice, and each child it names lies directly below `key`
/// and is bound in `store`.
pub open spec fn instance_ok(store: StoreView, key: InstanceRefView, instance: InstanceView) -> bool {
    &&& assoc::distinct(instance.children)
    &&& assoc::distinct(instance.attributes)
    &&& forall|j: int|
        0 <= j < instance.children.len() ==> (#[trigger] instance.children[j]).1 == child_ref(
            key,
            instance.children[j].0,
        ) && assoc::has(store, instance.children[j].1)
}

/// No identity is bound twice, and every instance is in order.
pub open spec fn well_formed(store: StoreView) -> bool {
    &&& assoc::distinct(store)
    &&& forall|i: int| 0 <= i < store.len() ==> instance_ok(store, (#[trigger] store[i]).0, store[i].1)
}

/// Whatever `before` binds, `after` binds.
pub open spec fn grows(before: StoreView, after: StoreView) -> bool {
    forall|key: InstanceRefView| assoc::has(before, key) ==> #[trigger] assoc::has(after, key)
}

/// An instance that is in order stays in order where the store grows.
proof fn lemma_ok_grows(
    before: StoreView,
    after: StoreView,
    key: InstanceRefView,
    instance: InstanceView,
)
    requires
        instance_ok(before, key, instance),
        grows(before, after),
    ensures
        instance_ok(after, key, instance),
{
    assert forall|j: int| 0 <= j < instance.children.len() implies (
    #[trigger] instance.children[j]).1 == child_ref(key, instance.children[j].0) && assoc::has(
        after,
        instance.children[j].1,
    ) by {
        assert(assoc::has(before, instance.children[j].1));
    }
}

/// What a store binds after a binding: what it bound, and the new key.
proof fn lemma_has_put(
    store: StoreView,
    key: InstanceRefView,
    instance: InstanceView,
    q: InstanceRefView,
)
    ensures
        assoc::has(assoc::put(store, key, instance), q) == (q == key || assoc::has(store, q)),
{
    assoc::lemma_get_put(store, key, instance, q);
}

/// Binding grows the store.
proof fn lemma_put_grows(store: StoreView, key: InstanceRefView, instance: InstanceView)
    ensures
        grows(store, assoc::put(store, key, instance)),
        assoc::has(assoc::put(store, key, instance), key),
{
    assert forall|q: InstanceRefView| assoc::has(store, q) implies #[trigger] assoc::has(
        assoc::put(store, key, instance),
        q,
    ) by {
        lemma_has_put(store, key, instance, q);
    }
    lemma_has_put(store, key, instance, key);
}

/// Binding an instance that is in order keeps the store well formed.
pub proof fn lemma_put_well_formed(store: StoreView, key: InstanceRefView, instance: InstanceView)
    requires
        well_formed(store),
        instance_ok(assoc::put(store, key, instance), key, instance),
    ensures
        well_formed(assoc::put(store, key, instance)),
{
    let after = assoc::put(store, key, instance);
    assoc::lemma_put_distinct(store, key, instance);
    assoc::lemma_find(store, key);
    lemma_put_grows(store, key, instance);
    assert forall|i: int| 0 <= i < after.len() implies instance_ok(
        after,
        (#[trigger] after[i]).0,
        after[i].1,
    ) by {
        if after[i] != (key, instance) {
            assert(after[i] == store[i]);
            lemma_ok_grows(store, after, store[i].0, store[i].1);
        }
    }
}

/// What is bound in a well-formed store is in order.
proof fn lemma_bound_ok(store: StoreView, key: InstanceRefView)
    requires
        well_formed(store),
        assoc::has(store, key),
    ensures
        instance_ok(store, key, assoc::get(store, key)->0),
{
    assoc::lemma_find(store, key);
    let i = assoc::find(store, key);
    assert(store[i].0 == key);
}

/// Replacing the instance at a bound key by one with the same children,
/// and attributes that are named once, keeps the store well formed.
proof fn lemma_update_well_formed(store: StoreView, key: InstanceRefView, instance: InstanceView)
    requires
        well_formed(store),
        assoc::has(store, key),
        instance.children == assoc::get(store, key)->0.children,
        assoc::distinct(instance.attributes),
    ensures
        well_formed(store.update(assoc::find(store, key), (store[assoc::find(store, key)].0, instance))),
        grows(store, store.update(assoc::find(store, key), (store[assoc::find(store, key)].0, instance))),
        store.update(assoc::find(store, key), (store[assoc::find(store, key)].0, instance))
            == assoc::put(store, key, instance),
{
    assoc::lemma_find(store, key);
    lemma_bound_ok(store, key);
    let after = assoc::put(store, key, instance);
    assert(after =~= store.update(assoc::find(store, key), (store[assoc::find(store, key)].0, instance)));
    lemma_put_grows(store, key, instance);
    lemma_ok_grows(store, after, key, assoc::get(store, key)->0);
    lemma_put_well_formed(store, key, instance);
}

/// Filing a connection keeps the store well formed and what it binds.
proof fn lemma_with_connection(store: StoreView, key: InstanceRefView, wire: ConnectionView)
    requires
        well_formed(store),
    ensures
        well_formed(with_connection(store, key, wire)),
        grows(store, with_connection(store, key, wire)),
{
    if assoc::has(store, key) {
        let found = assoc::get(store, key)->0;
        lemma_bound_ok(store, key);
        lemma_update_well_formed(
            store,
            key,
            InstanceView { connections: found.connections.push(wire), ..found },
        );
    }
}

/// Binding an attribute keeps the store well formed and what it binds.
proof fn lemma_with_attribute(
    store: StoreView,
    key: InstanceRefView,
    attribute: Seq<char>,
    value: AttributeValueView,
)
    requires
        well_formed(store),
    ensures
        well_formed(with_attribute(store, key, attribute, value)),
        grows(store, with_attribute(store, key, attribute, value)),
{
    if assoc::has(store, key) {
        let found = assoc::get(store, key)->0;
        lemma_bound_ok(store, key);
        assoc::lemma_put_distinct(found.attributes, attribute, value);
        lemma_update_well_formed(
            store,
            key,
            InstanceView { attributes: assoc::put(found.attributes, attribute, value), ..found },
        );
    }
}

/// Taking a root instance out keeps the store well formed, and keeps
/// bound whatever lies below a root.
proof fn lemma_without_root(store: StoreView, root: InstanceRefView)
    requires
        well_formed(store),
        root.path.len() == 0,
    ensures
        well_formed(assoc::without(store, root)),
        forall|q: InstanceRefView|
            q.path.len() > 0 && assoc::has(store, q) ==> #[trigger] assoc::has(
                assoc::without(store, root),
                q,
            ),
        forall|q: InstanceRefView| #[trigger]
            assoc::has(assoc::without(store, root), q) ==> assoc::has(store, q),
{
    let after = assoc::without(store, root);
    assoc::lemma_find(store, root);
    let at = assoc::find(store, root);
    assert forall|q: InstanceRefView|
        q.path.len() > 0 && assoc::has(store, q) implies #[trigger] assoc::has(after, q) by {
        assoc::lemma_get_without(store, root, q);
    }
    assert forall|q: InstanceRefView| #[trigger] assoc::has(after, q) implies assoc::has(
        store,
        q,
    ) by {
        assoc::lemma_get_without(store, root, q);
    }
    assoc::lemma_get_without(store, root, root);
    assert forall|i: int| 0 <= i < after.len() implies instance_ok(
        after,
        (#[trigger] after[i]).0,
        after[i].1,
    ) by {
        let si = if assoc::has(store, root) && i >= at { i + 1 } else { i };
        assert(after[i] == store[si]);
        let instance = store[si].1;
        assert(instance_ok(store, store[si].0, instance));
        assert forall|j: int| 0 <= j < instance.children.len() implies (
        #[trigger] instance.children[j]).1 == child_ref(
            after[i].0,
            instance.children[j].0,
        ) && assoc::has(after, instance.children[j].1) by {
            assert(instance.children[j].1.path.len() > 0);
        }
    }
}

/// The child list of a copy in the making is in order: each child is named
/// once, lies directly below `to`, and is bound.
spec fn children_ok(
    store: StoreView,
    to: InstanceRefView,
    done: Seq<(Seq<char>, InstanceRefView)>,
) -> bool {
    &&& assoc::distinct(done)
    &&& forall|j: int|
        0 <= j < done.len() ==> (#[trigger] done[j]).1 == child_ref(to, done[j].0) && assoc::has(
            store,
            done[j].1,
        )
}

/// Copying children keeps the store well formed and what it binds, and the
/// child list of the copy in order.
proof fn lemma_cloned_children(
    store: StoreView,
    children: Seq<(Seq<char>, InstanceRefView)>,
    at: int,
    to: InstanceRefView,
    done: Seq<(Seq<char>, InstanceRefView)>,
    depth: nat,
)
    requires
        well_formed(store),
        children_ok(store, to, done),
        0 <= at,
    ensures
        well_formed(cloned_children(store, children, at, to, done, depth).0),
        grows(store, cloned_children(store, children, at, to, done, depth).0),
        children_ok(
            cloned_children(store, children, at, to, done, depth).0,
            to,
            cloned_children(store, children, at, to, done, depth).1,
        ),
    decreases depth, children.len() - at + 1,
{
    if at < children.len() {
        let name = children[at].0;
        let target = child_ref(to, name);
        let (store1, failure) = cloned_store(store, children[at].1, target, None, depth);
        lemma_cloned_store(store, children[at].1, target, None, depth);
        assert(children_ok(store1, to, done)) by {
            assert forall|j: int| 0 <= j < done.len() implies (#[trigger] done[j]).1 == child_ref(
                to,
                done[j].0,
            ) && assoc::has(store1, done[j].1) by {
                assert(assoc::has(store, done[j].1));
            }
        }
        if failure is None {
            let done1 = assoc::put(done, name, target);
            assoc::lemma_put_distinct(done, name, target);
            assoc::lemma_find(done, name);
            assert(children_ok(store1, to, done1)) by {
                assert forall|j: int| 0 <= j < done1.len() implies (
                #[trigger] done1[j]).1 == child_ref(to, done1[j].0) && assoc::has(
                    store1,
                    done1[j].1,
                ) by {
                    if done1[j] != (name, target) {
                        assert(done1[j] == done[j]);
                    }
                }
            }
            lemma_cloned_children(store1, children, at + 1, to, done1, depth);
            let last = cloned_children(store1, children, at + 1, to, done1, depth).0;
            assert forall|key: InstanceRefView| assoc::has(store, key) implies #[trigger] assoc::has(
                last,
                key,
            ) by {
                assert(assoc::has(store1, key));
            }
        }
    }
}

/// Copying a subtree keeps the store well formed and what it binds; where
/// it succeeds, the target is bound.
pub proof fn lemma_cloned_store(
    store: StoreView,
    from: InstanceRefView,
    to: InstanceRefView,
    location: Option<LocationView>,
    depth: nat,
)
    requires
        well_formed(store),
    ensures
        well_formed(cloned_store(store, from, to, location, depth).0),
        grows(store, cloned_store(store, from, to, location, depth).0),
        cloned_store(store, from, to, location, depth).1 is None ==> assoc::has(
            cloned_store(store, from, to, location, depth).0,
            to,
        ),
    decreases depth, 0nat,
{
    if assoc::has(store, from) && depth > 0 {
        let source = assoc::get(store, from)->0;
        lemma_bound_ok(store, from);
        let (store1, children, failure) = cloned_children(
            store,
            source.children,
            0,
            to,
            Seq::empty(),
            (depth - 1) as nat,
        );
        lemma_cloned_children(store, source.children, 0, to, Seq::empty(), (depth - 1) as nat);
        if failure is None {
            let copy = InstanceView {
                type_ref: source.type_ref,
                kind: source.kind,
                attributes: source.attributes,
                children,
                connections: transposed_connections(source.connections, from, to),
                reference_designator: None,
                location: match location {
                    Some(l) => l,
                    None => source.location,
                },
            };
            let after = assoc::put(store1, to, copy);
            lemma_put_grows(store1, to, copy);
            assert(instance_ok(after, to, copy)) by {
                assert forall|j: int| 0 <= j < copy.children.len() implies (
                #[trigger] copy.children[j]).1 == child_ref(to, copy.children[j].0) && assoc::has(
                    after,
                    copy.children[j].1,
                ) by {
                    assert(assoc::has(store1, children[j].1));
                }
            }
            lemma_put_well_formed(store1, to, copy);
            assert forall|key: InstanceRefView| assoc::has(store, key) implies #[trigger] assoc::has(
                after,
                key,
            ) by {
                assert(assoc::has(store1, key));
            }
        }
    }
}

/// Filing wires keeps the store well formed and the block's instance in
/// order.
proof fn lemma_filed(
    store: StoreView,
    root: InstanceRefView,
    instance: InstanceView,
    all: Seq<ConnectionView>,
    at: int,
    module: ModuleRefView,
    location: LocationView,
)
    requires
        well_formed(store),
        instance_ok(store, root, instance),
        0 <= at,
    ensures
        well_formed(filed(store, instance, all, at, module, location).0),
        grows(store, filed(store, instance, all, at, module, location).0),
        instance_ok(
            filed(store, instance, all, at, module, location).0,
            root,
            filed(store, instance, all, at, module, location).1,
        ),
    decreases all.len() - at,
{
    if at < all.len() {
        let wire = all[at];
        if wire.left.module == wire.right.module {
            let shared = crate::connect::common_prefix(wire.left.path, wire.right.path, 0);
            if shared == 0 {
                let grown = InstanceView { connections: instance.connections.push(wire), ..instance };
                lemma_filed(store, root, grown, all, at + 1, module, location);
            } else {
                let ancestor = InstanceRefView { module, path: wire.left.path.take(shared) };
                if assoc::has(store, ancestor) {
                    let next = with_connection(store, ancestor, wire);
                    lemma_with_connection(store, ancestor, wire);
                    lemma_ok_grows(store, next, root, instance);
                    lemma_filed(next, root, instance, all, at + 1, module, location);
                    let last = filed(next, instance, all, at + 1, module, location).0;
                    assert forall|key: InstanceRefView| assoc::has(
                        store,
                        key,
                    ) implies #[trigger] assoc::has(last, key) by {
                        assert(assoc::has(next, key));
                    }
                }
            }
        }
    }
}

/// Declaring a child of the block keeps the store well formed and the
/// block's instance in order.
proof fn lemma_declared(
    store: StoreView,
    root: InstanceRefView,
    instance: InstanceView,
    name: Seq<char>,
    child: InstanceView,
)
    requires
        well_formed(store),
        instance_ok(store, root, instance),
        root.path.len() == 0,
        child.children.len() == 0,
        assoc::distinct(child.attributes),
    ensures
        well_formed(assoc::put(store, named(root.module, name), child)),
        grows(store, assoc::put(store, named(root.module, name), child)),
        instance_ok(
            assoc::put(store, named(root.module, name), child),
            root,
            InstanceView {
                children: assoc::put(instance.children, name, named(root.module, name)),
                ..instance
            },
        ),
{
    let at = named(root.module, name);
    let after = assoc::put(store, at, child);
    lemma_put_grows(store, at, child);
    lemma_put_well_formed(store, at, child);
    assert(at.path =~= root.path.push(name));
    lemma_put_child(store, after, root, instance, name, at);
}

/// Naming a bound child that lies directly below the block keeps the
/// block's instance in order.
proof fn lemma_put_child(
    before: StoreView,
    after: StoreView,
    root: InstanceRefView,
    instance: InstanceView,
    name: Seq<char>,
    target: InstanceRefView,
)
    requires
        instance_ok(before, root, instance),
        grows(before, after),
        target == child_ref(root, name),
        assoc::has(after, target),
    ensures
        instance_ok(
            after,
            root,
            InstanceView { children: assoc::put(instance.children, name, target), ..instance },
        ),
{
    let children = assoc::put(instance.children, name, target);
    assoc::lemma_put_distinct(instance.children, name, target);
    assoc::lemma_find(instance.children, name);
    assert forall|j: int| 0 <= j < children.len() implies (#[trigger] children[j]).1 == child_ref(
        root,
        children[j].0,
    ) && assoc::has(after, children[j].1) by {
        if children[j] != (name, target) {
            assert(children[j] == instance.children[j]);
            assert(assoc::has(before, instance.children[j].1));
        }
    }
}

/// Resolving one side of a connection keeps the store well formed and the
/// block's instance in order.
proof fn lemma_endpoint(
    store: StoreView,
    instance: InstanceView,
    module: ModuleRefView,
    source: &AtopileSource,
    side: Spanned<Connectable>,
)
    requires
        well_formed(store),
        instance_ok(store, root_of(module), instance),
    ensures
        well_formed(endpoint(store, instance, module, source, side).0),
        grows(store, endpoint(store, instance, module, source, side).0),
        instance_ok(
            endpoint(store, instance, module, source, side).0,
            root_of(module),
            endpoint(store, instance, module, source, side).1,
        ),
{
    match side.0 {
        Connectable::Signal(name) => {
            lemma_declared(
                store,
                root_of(module),
                instance,
                name.0@,
                empty_instance(leaf_type(), InstanceKind::Port, place(source, side.1)),
            );
        },
        Connectable::Pin(name) => {
            lemma_declared(
                store,
                root_of(module),
                instance,
                name.0@,
                empty_instance(leaf_type(), InstanceKind::Pin, place(source, side.1)),
            );
        },
        Connectable::Port(_) => {},
    }
}

/// Connecting keeps the store well formed and the block's instance in
/// order.
proof fn lemma_connected(
    store: StoreView,
    root: InstanceRefView,
    instance: InstanceView,
    source: InstanceRefView,
    source_location: LocationView,
    target: InstanceRefView,
    target_location: LocationView,
    location: LocationView,
)
    requires
        well_formed(store),
        instance_ok(store, root, instance),
    ensures
        well_formed(
            connected(store, instance, source, source_location, target, target_location, location).0,
        ),
        grows(
            store,
            connected(store, instance, source, source_location, target, target_location, location).0,
        ),
        instance_ok(
            connected(store, instance, source, source_location, target, target_location, location).0,
            root,
            connected(store, instance, source, source_location, target, target_location, location).1,
        ),
{
    if assoc::has(store, source) && assoc::has(store, target) {
        let left = assoc::get(store, source)->0;
        let right = assoc::get(store, target)->0;
        match wires(source, left, target, right, location) {
            Ok(all) => {
                lemma_filed(store, root, instance, all, 0, source.module, location);
            },
            Err(_) => {},
        }
    }
}

/// One statement of a block's body keeps the store well formed and the
/// block's instance in order.
proof fn lemma_stmt_done(
    store: StoreView,
    scope: ScopeView,
    instance: InstanceView,
    module: ModuleRefView,
    source: &AtopileSource,
    stmt: Spanned<Stmt>,
)
    requires
        well_formed(store),
        instance_ok(store, root_of(module), instance),
    ensures
        well_formed(stmt_done(store, scope, instance, module, source, stmt).0),
        grows(store, stmt_done(store, scope, instance, module, source, stmt).0),
        instance_ok(
            stmt_done(store, scope, instance, module, source, stmt).0,
            root_of(module),
            stmt_done(store, scope, instance, module, source, stmt).1,
        ),
{
    let root = root_of(module);
    match stmt.0 {
        Stmt::Assign(assign) => {
            let path = assign.target.0.path();
            let target = InstanceRefView { module, path };
            match assign.value.0 {
                Expr::New(wanted) => {
                    if path.len() == 1 && assoc::has(scope, wanted.0@) && !assoc::has(store, target) {
                        let type_ref = assoc::get(scope, wanted.0@)->0;
                        let (store1, failure) = cloned_store(
                            store,
                            root_of(type_ref),
                            target,
                            Some(place(source, stmt.1)),
                            depth_limit(store),
                        );
                        lemma_cloned_store(
                            store,
                            root_of(type_ref),
                            target,
                            Some(place(source, stmt.1)),
                            depth_limit(store),
                        );
                        lemma_ok_grows(store, store1, root, instance);
                        if failure is None {
                            assert(target.path =~= root.path.push(path[0]));
                            lemma_put_child(store, store1, root, instance, path[0], target);
                        }
                    }
                },
                _ => {
                    if path.len() == 1 {
                        assoc::lemma_put_distinct(
                            instance.attributes,
                            path.last(),
                            expr_value(assign.value.0),
                        );
                    } else if path.len() > 1 {
                        let owner = InstanceRefView { module, path: path.drop_last() };
                        if assoc::has(store, owner) {
                            let value = expr_value(assign.value.0);
                            lemma_with_attribute(store, owner, path.last(), value);
                            lemma_ok_grows(
                                store,
                                with_attribute(store, owner, path.last(), value),
                                root,
                                instance,
                            );
                        }
                    }
                },
            }
        },
        Stmt::Signal(signal) => {
            lemma_declared(
                store,
                root,
                instance,
                signal.name.0@,
                empty_instance(leaf_type(), InstanceKind::Port, place(source, stmt.1)),
            );
        },
        Stmt::Pin(pin) => {
            lemma_declared(
                store,
                root,
                instance,
                pin.name.0@,
                empty_instance(leaf_type(), InstanceKind::Pin, place(source, stmt.1)),
            );
        },
        Stmt::Connect(connect) => {
            let (store1, instance1, left) = endpoint(store, instance, module, source, connect.left);
            lemma_endpoint(store, instance, module, source, connect.left);
            let (store2, instance2, right) = endpoint(
                store1,
                instance1,
                module,
                source,
                connect.right,
            );
            lemma_endpoint(store1, instance1, module, source, connect.right);
            lemma_connected(
                store2,
                root,
                instance2,
                left,
                place(source, connect.left.1),
                right,
                place(source, connect.right.1),
                place(source, stmt.1),
            );
            let last = stmt_done(store, scope, instance, module, source, stmt).0;
            assert forall|key: InstanceRefView| assoc::has(store, key) implies #[trigger] assoc::has(
                last,
                key,
            ) by {
                assert(assoc::has(store1, key));
                assert(assoc::has(store2, key));
            }
        },
        _ => {},
    }
}

/// The statements of a block's body keep the store well formed and the
/// block's instance in order.
proof fn lemma_body_done(
    store: StoreView,
    scope: ScopeView,
    instance: InstanceView,
    report: ReportView,
    module: ModuleRefView,
    source: &AtopileSource,
    body: Seq<Spanned<Stmt>>,
    at: int,
)
    requires
        well_formed(store),
        instance_ok(store, root_of(module), instance),
        0 <= at,
    ensures
        well_formed(body_done(store, scope, instance, report, module, source, body, at).0),
        instance_ok(
            body_done(store, scope, instance, report, module, source, body, at).0,
            root_of(module),
            body_done(store, scope, instance, report, module, source, body, at).1,
        ),
    decreases body.len() - at,
{
    if at < body.len() {
        let (store1, instance1, failure) = stmt_done(store, scope, instance, module, source, body[at]);
        lemma_stmt_done(store, scope, instance, module, source, body[at]);
        lemma_body_done(
            store1,
            scope,
            instance1,
            crate::evaluator::noted(report, failure),
            module,
            source,
            body,
            at + 1,
        );
    }
}

/// A block keeps the store well formed.
proof fn lemma_block_done(
    state: EvalView,
    scope: ScopeView,
    source: &AtopileSource,
    block: crate::ast::BlockStmt,
)
    requires
        well_formed(state.store),
    ensures
        well_formed(block_done(state, scope, source, block).0.store),
{
    let module = ModuleRefView { source_path: source.path_view(), module_name: block.name.0@ };
    let root = root_of(module);
    let here = place(source, block.name.1);
    let seeded: StoreView = match block.parent {
        Some(parent) => match assoc::get(scope, parent.0@) {
            None => state.store,
            Some(parent_ref) => {
                lemma_cloned_store(
                    state.store,
                    root_of(parent_ref),
                    root,
                    Some(here),
                    depth_limit(state.store),
                );
                cloned_store(
                    state.store,
                    root_of(parent_ref),
                    root,
                    Some(here),
                    depth_limit(state.store),
                ).0
            },
        },
        None => {
            let fresh = empty_instance(module, crate::evaluator::declared_kind(block.kind.0), here);
            let after = assoc::put(state.store, root, fresh);
            lemma_put_well_formed(state.store, root, fresh);
            after
        },
    };
    assert(well_formed(seeded));
    if assoc::has(seeded, root) {
        let found = assoc::get(seeded, root)->0;
        lemma_bound_ok(seeded, root);
        let taken = assoc::without(seeded, root);
        lemma_without_root(seeded, root);
        let instance = InstanceView { type_ref: module, ..found };
        assert(instance_ok(taken, root, instance)) by {
            assert forall|j: int| 0 <= j < instance.children.len() implies (
            #[trigger] instance.children[j]).1 == child_ref(root, instance.children[j].0)
                && assoc::has(taken, instance.children[j].1) by {
                assert(instance.children[j].1.path.len() > 0);
                assert(assoc::has(seeded, found.children[j].1));
            }
        }
        lemma_body_done(taken, scope, instance, state.report, module, source, block.body@, 0);
        let (store1, instance1, report1) = body_done(
            taken,
            scope,
            instance,
            state.report,
            module,
            source,
            block.body@,
            0,
        );
        lemma_put_grows(store1, root, instance1);
        lemma_ok_grows(store1, assoc::put(store1, root, instance1), root, instance1);
        lemma_put_well_formed(store1, root, instance1);
    }
}

/// The blocks of a file keep the store well formed.
proof fn lemma_blocks_done(
    state: EvalView,
    scope: ScopeView,
    source: &AtopileSource,
    declarations: Seq<DeclarationView>,
    order: Seq<usize>,
    at: int,
)
    requires
        well_formed(state.store),
        0 <= at,
    ensures
        well_formed(blocks_done(state, scope, source, declarations, order, at).0.store),
    decreases order.len() - at,
{
    if at < order.len() {
        match source.stmts()[declarations[order[at] as int].index as int].0 {
            Stmt::Block(block) => {
                let (state1, scope1, failure) = block_done(state, scope, source, block);
                lemma_block_done(state, scope, source, block);
                lemma_blocks_done(
                    EvalView {
                        store: state1.store,
                        report: crate::evaluator::noted(state1.report, failure),
                    },
                    scope1,
                    source,
                    declarations,
                    order,
                    at + 1,
                );
            },
            _ => {
                lemma_blocks_done(state, scope, source, declarations, order, at + 1);
            },
        }
    }
}

/// An import keeps the store well formed.
proof fn lemma_import_done(
    state: EvalView,
    scope: ScopeView,
    files: Seq<(String, AtopileSource)>,
    fs: FileSystemView,
    source: &AtopileSource,
    stack: Seq<Seq<char>>,
    import_path: Spanned<String>,
    symbols: Seq<(Seq<char>, Span)>,
)
    requires
        well_formed(state.store),
    ensures
        well_formed(
            import_done(state, scope, files, fs, source, stack, import_path, symbols).0.store,
        ),
    decreases files.len() - stack.len(), 0nat, 0nat,
{
    let target = crate::resolver::resolved(fs, source.path_view(), import_path.0@);
    let (scope1, load) = crate::evaluator::known_imports(
        state.store,
        scope,
        target,
        symbols,
        0,
        false,
    );
    if load && target is Some {
        let path = target->0;
        if !stack.contains(path) {
            let at = crate::evaluator::file_from(files, path, 0);
            if at < files.len() && stack.len() < files.len() {
                lemma_inner_done(state, files, fs, &files[at].1, stack.push(path));
            }
        }
    }
}

/// A top-level statement keeps the store well formed.
proof fn lemma_top_done(
    state: EvalView,
    scope: ScopeView,
    files: Seq<(String, AtopileSource)>,
    fs: FileSystemView,
    source: &AtopileSource,
    stack: Seq<Seq<char>>,
    stmt: Spanned<Stmt>,
)
    requires
        well_formed(state.store),
    ensures
        well_formed(top_done(state, scope, files, fs, source, stack, stmt).0.store),
    decreases files.len() - stack.len(), 1nat, 0nat,
{
    match stmt.0 {
        Stmt::Import(import) => {
            lemma_import_done(
                state,
                scope,
                files,
                fs,
                source,
                stack,
                import.from_path,
                crate::evaluator::symbol_spans(import.imports@),
            );
        },
        Stmt::DepImport(import) => {
            lemma_import_done(
                state,
                scope,
                files,
                fs,
                source,
                stack,
                import.from_path,
                seq![(import.name.0@, import.name.1)],
            );
        },
        Stmt::Block(block) => {
            lemma_block_done(state, scope, source, block);
        },
        _ => {},
    }
}

/// The top-level statements of a file keep the store well formed.
proof fn lemma_tops_done(
    state: EvalView,
    scope: ScopeView,
    files: Seq<(String, AtopileSource)>,
    fs: FileSystemView,
    source: &AtopileSource,
    stack: Seq<Seq<char>>,
    at: int,
)
    requires
        well_formed(state.store),
        0 <= at,
    ensures
        well_formed(tops_done(state, scope, files, fs, source, stack, at).0.store),
    decreases files.len() - stack.len(), 2nat, source.stmts().len() - at,
{
    if at < source.stmts().len() {
        if source.stmts()[at].0 is Block {
            lemma_tops_done(state, scope, files, fs, source, stack, at + 1);
        } else {
            let (state1, scope1, failure) = top_done(
                state,
                scope,
                files,
                fs,
                source,
                stack,
                source.stmts()[at],
            );
            lemma_top_done(state, scope, files, fs, source, stack, source.stmts()[at]);
            lemma_tops_done(
                EvalView {
                    store: state1.store,
                    report: crate::evaluator::noted(state1.report, failure),
                },
                scope1,
                files,
                fs,
                source,
                stack,
                at + 1,
            );
        }
    }
}

/// Evaluating a file keeps the store well formed.
proof fn lemma_inner_done(
    state: EvalView,
    files: Seq<(String, AtopileSource)>,
    fs: FileSystemView,
    source: &AtopileSource,
    stack: Seq<Seq<char>>,
)
    requires
        well_formed(state.store),
    ensures
        well_formed(inner_done(state, files, fs, source, stack).store),
    decreases files.len() - stack.len(), 3nat, 0nat,
{
    let report1 = crate::diagnostics::cleared(state.report, source.path_view());
    let (declarations, report2) = crate::order::collected(
        source,
        report1,
        source.stmts().len() as int,
    );
    let (order, cycles) = crate::order::ordered(declarations, declarations.len() as int);
    let report3 = crate::order::with_cycles(report2, declarations, cycles);
    let scope1 = crate::evaluator::registered(Seq::empty(), source.path_view(), declarations, 0);
    let start = EvalView { store: state.store, report: report3 };
    lemma_tops_done(start, scope1, files, fs, source, stack, 0);
    let (state4, scope4) = tops_done(start, scope1, files, fs, source, stack, 0);
    lemma_blocks_done(state4, scope4, source, declarations, order, 0);
}

/// Evaluating files one after another keeps the store well formed.
proof fn lemma_files_done(
    state: EvalView,
    files: Seq<(String, AtopileSource)>,
    fs: FileSystemView,
    at: int,
)
    requires
        well_formed(state.store),
        0 <= at,
    ensures
        well_formed(files_done(state, files, fs, at).store),
    decreases files.len() - at,
{
    if at < files.len() {
        lemma_inner_done(state, files, fs, &files[at].1, Seq::empty());
        lemma_files_done(
            inner_done(state, files, fs, &files[at].1, Seq::empty()),
            files,
            fs,
            at + 1,
        );
    }
}

/// The store invariants. The graph of a full evaluation is well formed,
/// whatever the sources hold: no identity is bound twice, no instance names
/// a child or an attribute twice, every child lies directly below the
/// instance that names it, and every child that is named is bound.
pub proof fn lemma_evaluated_is_well_formed(files: Seq<(String, AtopileSource)>, fs: FileSystemView)
    ensures
        well_formed(evaluated(files, fs).store),
{
    let start = EvalView { store: Seq::empty(), report: Seq::empty() };
    lemma_files_done(start, files, fs, 0);
}

/// A well-formed store is one in which copies are faithful: every bound
/// instance names each child once, and names only bound children.
pub proof fn lemma_well_formed_is_tidy(store: StoreView)
    requires
        well_formed(store),
    ensures
        crate::fidelity::tidy(store),
{
    assert forall|key: InstanceRefView| #[trigger] assoc::has(store, key) implies {
        let children = assoc::get(store, key)->0.children;
        &&& assoc::distinct(children)
        &&& forall|j: int|
            0 <= j < children.len() ==> assoc::has(store, (#[trigger] children[j]).1)
    } by {
        lemma_bound_ok(store, key);
    }
}

/// When instantiating succeeds. In a well-formed store, copying a bound
/// subtree to a place at and below which nothing is bound, as deep as the
/// store's limit allows, succeeds.
pub proof fn lemma_copy_succeeds(
    store: StoreView,
    from: InstanceRefView,
    to: InstanceRefView,
    location: Option<LocationView>,
)
    requires
        well_formed(store),
        assoc::has(store, from),
        crate::fidelity::vacant(store, to),
        deepest(store) < usize::MAX,
    ensures
        cloned_store(store, from, to, location, depth_limit(store)).1 is None,
{
    lemma_well_formed_is_tidy(store);
    assert forall|key: InstanceRefView| #[trigger] assoc::has(store, key) implies {
        let children = assoc::get(store, key)->0.children;
        forall|j: int|
            0 <= j < children.len() ==> (#[trigger] children[j]).1 == child_ref(key, children[j].0)
    } by {
        lemma_bound_ok(store, key);
    }
    crate::fidelity::lemma_clone_succeeds(store, from, to, location, depth_limit(store));
}

} // verus!
