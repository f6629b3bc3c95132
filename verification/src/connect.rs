//! Connecting two instances: which wires a connection statement stands for,
//! and at which instance each of them is filed.

use vstd::prelude::*;
use crate::assoc;
use crate::ast::{symbol_texts, Symbol};
use crate::error::{error_with, ErrorView, EvaluatorError, EvaluatorErrorKind};
use crate::instance::{
    child_views, instance_ref_text, kind_text, module_ref_text, Connection, ConnectionView,
    Instance, InstanceKind, InstanceRef, InstanceRefView, InstanceView, ModuleRef,
};
use crate::location::{Located, Location, LocationView};
use crate::store::{with_connection, EvaluatorState, StoreView};
use crate::text::{comes_before, concat_text, owned_text, text_before};

verus! {

/// Whether instances of kinds `left` and `right` connect by a single wire:
/// both are ports or pins.
pub open spec fn wire_kinds(left: InstanceKind, right: InstanceKind) -> bool {
    (left == InstanceKind::Port || left == InstanceKind::Pin) && (right == InstanceKind::Port
        || right == InstanceKind::Pin)
}

/// Where an entry named `name` goes among the first `upto` of `sorted`:
/// after the last of them that does not come after it.
pub open spec fn slot(sorted: Seq<(Seq<char>, InstanceRefView)>, name: Seq<char>, upto: int) -> int
    decreases upto,
{
    if upto <= 0 {
        0
    } else if text_before(name, sorted[upto - 1].0) {
        slot(sorted, name, upto - 1)
    } else {
        upto
    }
}

/// The children in the order of their names; children of the same name keep
/// their order.
pub open spec fn sorted_by_name(children: Seq<(Seq<char>, InstanceRefView)>) -> Seq<
    (Seq<char>, InstanceRefView),
>
    decreases children.len(),
{
    if children.len() == 0 {
        Seq::empty()
    } else {
        let sorted = sorted_by_name(children.drop_last());
        sorted.insert(slot(sorted, children.last().0, sorted.len() as int), children.last())
    }
}

/// The wires between the children of two interfaces: the first of one to
/// the first of the other, and so on, as far as both have children.
pub open spec fn zipped(
    left: Seq<(Seq<char>, InstanceRefView)>,
    right: Seq<(Seq<char>, InstanceRefView)>,
) -> Seq<ConnectionView> {
    Seq::new(
        if left.len() <= right.len() {
            left.len()
        } else {
            right.len()
        },
        |k: int| ConnectionView { left: left[k].1, right: right[k].1 },
    )
}

/// How many leading parts `a[from..]` and `b[from..]` share, counted from
/// the start of the paths.
pub open spec fn common_prefix(a: Seq<Seq<char>>, b: Seq<Seq<char>>, from: int) -> int
    decreases a.len() - from,
{
    if 0 <= from < a.len() && from < b.len() && a[from] == b[from] {
        common_prefix(a, b, from + 1)
    } else {
        from
    }
}

/// The error for an endpoint that the store does not hold.
pub open spec fn missing_error(location: LocationView, endpoint: InstanceRefView) -> ErrorView {
    error_with(
        EvaluatorErrorKind::InvalidConnection,
        location,
        "`"@ + instance_ref_text(endpoint) + "` does not exist"@,
    )
}

/// The error for two interfaces of different types.
pub open spec fn type_error(location: LocationView, left: InstanceView, right: InstanceView) -> ErrorView {
    error_with(
        EvaluatorErrorKind::InvalidAssignment,
        location,
        "cannot connect interfaces of different type: `"@ + module_ref_text(left.type_ref)
            + "` and `"@ + module_ref_text(right.type_ref) + "`"@,
    )
}

/// The error for two kinds that do not connect.
pub open spec fn kind_error(location: LocationView, left: InstanceKind, right: InstanceKind) -> ErrorView {
    error_with(
        EvaluatorErrorKind::InvalidAssignment,
        location,
        "Cannot connect instances of different kind: `"@ + kind_text(left) + "` and `"@
            + kind_text(right) + "`"@,
    )
}

/// The error for a wire between two root modules.
pub open spec fn module_error(location: LocationView, wire: ConnectionView) -> ErrorView {
    error_with(
        EvaluatorErrorKind::InvalidAssignment,
        location,
        "Cannot connect interfaces across modules: `"@ + module_ref_text(wire.left.module)
            + "` and `"@ + module_ref_text(wire.right.module) + "`"@,
    )
}

/// The wires that connecting `left` (bound at `source`) to `right` (bound at
/// `target`) stands for, or the error for kinds or types that do not
/// connect.
pub open spec fn wires(
    source: InstanceRefView,
    left: InstanceView,
    target: InstanceRefView,
    right: InstanceView,
    location: LocationView,
) -> Result<Seq<ConnectionView>, ErrorView> {
    if wire_kinds(left.kind, right.kind) {
        Ok(seq![ConnectionView { left: source, right: target }])
    } else if left.kind == InstanceKind::Interface && right.kind == InstanceKind::Interface {
        if left.type_ref != right.type_ref {
            Err(type_error(location, left, right))
        } else {
            Ok(zipped(sorted_by_name(left.children), sorted_by_name(right.children)))
        }
    } else {
        Err(kind_error(location, left.kind, right.kind))
    }
}

/// The store and the enclosing instance after filing `wires[at..]`, and the
/// error that ended the filing if there was one.
///
/// A wire whose ends share no leading part of their paths is filed at the
/// enclosing instance `instance`; any other at the instance bound to the
/// longest shared leading part, under the root `module`.
pub open spec fn filed(
    store: StoreView,
    instance: InstanceView,
    wires: Seq<ConnectionView>,
    at: int,
    module: crate::instance::ModuleRefView,
    location: LocationView,
) -> (StoreView, InstanceView, Option<ErrorView>)
    decreases wires.len() - at,
{
    if at < 0 || at >= wires.len() {
        (store, instance, None)
    } else {
        let wire = wires[at];
        if wire.left.module != wire.right.module {
            (store, instance, Some(module_error(location, wire)))
        } else {
            let shared = common_prefix(wire.left.path, wire.right.path, 0);
            if shared == 0 {
                filed(
                    store,
                    InstanceView { connections: instance.connections.push(wire), ..instance },
                    wires,
                    at + 1,
                    module,
                    location,
                )
            } else {
                let ancestor = InstanceRefView { module, path: wire.left.path.take(shared) };
                if assoc::has(store, ancestor) {
                    filed(
                        with_connection(store, ancestor, wire),
                        instance,
                        wires,
                        at + 1,
                        module,
                        location,
                    )
                } else {
                    (store, instance, Some(missing_error(location, ancestor)))
                }
            }
        }
    }
}

/// The store and the enclosing instance after connecting `source` to
/// `target`, and the error if there was one.
pub open spec fn connected(
    store: StoreView,
    instance: InstanceView,
    source: InstanceRefView,
    source_location: LocationView,
    target: InstanceRefView,
    target_location: LocationView,
    location: LocationView,
) -> (StoreView, InstanceView, Option<ErrorView>) {
    match assoc::get(store, source) {
        None => (store, instance, Some(missing_error(source_location, source))),
        Some(left) => match assoc::get(store, target) {
            None => (store, instance, Some(missing_error(target_location, target))),
            Some(right) => match wires(source, left, target, right, location) {
                Err(e) => (store, instance, Some(e)),
                Ok(w) => filed(store, instance, w, 0, source.module, location),
            },
        },
    }
}

/// A copy of `children` in the order of their names.
fn sort_children(children: &Vec<(Symbol, InstanceRef)>) -> (r: Vec<(Symbol, InstanceRef)>)
    ensures
        child_views(r@) == sorted_by_name(child_views(children@)),
{
    let mut out: Vec<(Symbol, InstanceRef)> = Vec::new();
    let mut i: usize = 0;
    assert(child_views(out@) =~= sorted_by_name(child_views(children@).take(0)));
    while i < children.len()
        invariant
            i <= children.len(),
            child_views(out@) == sorted_by_name(child_views(children@).take(i as int)),
        decreases children.len() - i,
    {
        let ghost sorted = child_views(out@);
        let mut at: usize = out.len();
        while at > 0 && comes_before(children[i].0.as_str(), out[at - 1].0.as_str())
            invariant
                at <= out.len(),
                i < children.len(),
                sorted == child_views(out@),
                slot(sorted, children[i as int].0@, sorted.len() as int) == slot(
                    sorted,
                    children[i as int].0@,
                    at as int,
                ),
            decreases at,
        {
            at -= 1;
        }
        out.insert(at, (children[i].0.clone(), children[i].1.clone()));
        proof {
            let next = child_views(children@).take(i + 1);
            assert(next.drop_last() =~= child_views(children@).take(i as int));
            assert(next.last() == (children[i as int].0@, children[i as int].1@));
            assert(child_views(out@) =~= sorted.insert(at as int, next.last()));
        }
        i += 1;
    }
    assert(child_views(children@).take(children.len() as int) =~= child_views(children@));
    out
}

/// How many leading parts the two paths share.
fn shared_prefix(a: &Vec<Symbol>, b: &Vec<Symbol>) -> (r: usize)
    ensures
        r == common_prefix(symbol_texts(a@), symbol_texts(b@), 0),
        r <= a.len(),
{
    let mut i: usize = 0;
    while i < a.len() && i < b.len() && a[i].equals(&b[i])
        invariant
            i <= a.len(),
            common_prefix(symbol_texts(a@), symbol_texts(b@), 0) == common_prefix(
                symbol_texts(a@),
                symbol_texts(b@),
                i as int,
            ),
        decreases a.len() - i,
    {
        i += 1;
    }
    i
}

/// The first `n` parts of `path`.
fn leading(path: &Vec<Symbol>, n: usize) -> (r: Vec<Symbol>)
    requires
        n <= path.len(),
    ensures
        symbol_texts(r@) == symbol_texts(path@).take(n as int),
{
    let mut out: Vec<Symbol> = Vec::new();
    let mut i: usize = 0;
    while i < n
        invariant
            i <= n <= path.len(),
            out.len() == i,
            forall|j: int| 0 <= j < i ==> out[j]@ == path[j]@,
        decreases n - i,
    {
        out.push(path[i].clone());
        i += 1;
    }
    assert(symbol_texts(out@) =~= symbol_texts(path@).take(n as int));
    out
}

/// The message `` `name` does not exist ``.
fn missing_message(endpoint: &InstanceRef) -> (r: String)
    ensures
        r@ == "`"@ + instance_ref_text(endpoint@) + "` does not exist"@,
{
    let name = endpoint.to_string();
    concat_text(concat_text(owned_text("`"), name.as_str()), "` does not exist")
}

/// The message that names two things that do not connect.
fn pair_message(head: &str, left: &str, right: &str) -> (r: String)
    ensures
        r@ == head@ + left@ + "` and `"@ + right@ + "`"@,
{
    concat_text(concat_text(concat_text(concat_text(owned_text(head), left), "` and `"), right), "`")
}

impl EvaluatorState {
    /// Connects the instance at `source` to the instance at `target`, for a
    /// statement at `location` in the block whose instance is `instance`.
    ///
    /// Ports and pins connect by one wire. Two interfaces of the same type
    /// connect child by child, in the order of the children's names. Each
    /// wire is filed at the nearest instance that both of its ends lie
    /// below: `instance` where the paths share no leading part.
    pub fn connect(
        &mut self,
        instance: &mut Instance,
        source: &Located<InstanceRef>,
        target: &Located<InstanceRef>,
        location: &Location,
    ) -> (r: Result<(), EvaluatorError>)
        ensures
            final(self)@ == connected(
                old(self)@,
                old(instance)@,
                source.0@,
                source.1@,
                target.0@,
                target.1@,
                location@,
            ).0,
            final(instance)@ == connected(
                old(self)@,
                old(instance)@,
                source.0@,
                source.1@,
                target.0@,
                target.1@,
                location@,
            ).1,
            match r {
                Ok(_) => connected(
                    old(self)@,
                    old(instance)@,
                    source.0@,
                    source.1@,
                    target.0@,
                    target.1@,
                    location@,
                ).2 is None,
                Err(e) => connected(
                    old(self)@,
                    old(instance)@,
                    source.0@,
                    source.1@,
                    target.0@,
                    target.1@,
                    location@,
                ).2 == Some(e@),
            },
    {
        let left = match self.resolve_instance(&source.0) {
            Some(i) => i,
            None => {
                return Err(
                    EvaluatorError::invalid_connection(&source.1, missing_message(&source.0)),
                );
            },
        };
        let right = match self.resolve_instance(&target.0) {
            Some(i) => i,
            None => {
                return Err(
                    EvaluatorError::invalid_connection(&target.1, missing_message(&target.0)),
                );
            },
        };
        let ghost wanted = wires(source.0@, left@, target.0@, right@, location@);
        let mut connections: Vec<Connection> = Vec::new();
        let left_wire = matches!(left.kind, InstanceKind::Port | InstanceKind::Pin);
        let right_wire = matches!(right.kind, InstanceKind::Port | InstanceKind::Pin);
        let left_interface = matches!(left.kind, InstanceKind::Interface);
        let right_interface = matches!(right.kind, InstanceKind::Interface);
        if left_wire && right_wire {
            connections.push(Connection::new(source.0.clone(), target.0.clone()));
            assert(crate::instance::connection_views(connections@) =~= wanted->Ok_0);
        } else if left_interface && right_interface {
            if !left.type_ref.equals(&right.type_ref) {
                let a = left.type_ref.to_string();
                let b = right.type_ref.to_string();
                return Err(
                    EvaluatorError::new(EvaluatorErrorKind::InvalidAssignment, location).with_message(
                        pair_message(
                            "cannot connect interfaces of different type: `",
                            a.as_str(),
                            b.as_str(),
                        ),
                    ),
                );
            }
            let left_sorted = sort_children(&left.children);
            let right_sorted = sort_children(&right.children);
            let mut k: usize = 0;
            while k < left_sorted.len() && k < right_sorted.len()
                invariant
                    k <= left_sorted.len(),
                    k <= right_sorted.len(),
                    connections.len() == k,
                    forall|n: int|
                        0 <= n < k ==> connections[n]@ == (ConnectionView {
                            left: left_sorted[n].1@,
                            right: right_sorted[n].1@,
                        }),
                decreases left_sorted.len() - k,
            {
                connections.push(
                    Connection::new(left_sorted[k].1.clone(), right_sorted[k].1.clone()),
                );
                k += 1;
            }
            assert(crate::instance::connection_views(connections@) =~= wanted->Ok_0);
        } else {
            let a = left.kind.to_string();
            let b = right.kind.to_string();
            return Err(
                EvaluatorError::new(EvaluatorErrorKind::InvalidAssignment, location).with_message(
                    pair_message(
                        "Cannot connect instances of different kind: `",
                        a.as_str(),
                        b.as_str(),
                    ),
                ),
            );
        }
        let ghost all = crate::instance::connection_views(connections@);
        let ghost module = source.0@.module;
        let mut at: usize = 0;
        while at < connections.len()
            invariant
                at <= connections.len(),
                all == crate::instance::connection_views(connections@),
                module == source.0@.module,
                connected(
                    old(self)@,
                    old(instance)@,
                    source.0@,
                    source.1@,
                    target.0@,
                    target.1@,
                    location@,
                ) == filed(old(self)@, old(instance)@, all, 0, module, location@),
                filed(old(self)@, old(instance)@, all, 0, module, location@) == filed(
                    self@,
                    instance@,
                    all,
                    at as int,
                    module,
                    location@,
                ),
            decreases connections.len() - at,
        {
            let wire = &connections[at];
            assert(all[at as int] == wire@);
            if !wire.left.module.equals(&wire.right.module) {
                let a = wire.left.module.to_string();
                let b = wire.right.module.to_string();
                return Err(
                    EvaluatorError::new(EvaluatorErrorKind::InvalidAssignment, location).with_message(
                        pair_message(
                            "Cannot connect interfaces across modules: `",
                            a.as_str(),
                            b.as_str(),
                        ),
                    ),
                );
            }
            let shared = shared_prefix(&wire.left.instance_path, &wire.right.instance_path);
            if shared == 0 {
                instance.add_connection(wire.clone());
            } else {
                let ancestor = InstanceRef::new(
                    &source.0.module,
                    leading(&wire.left.instance_path, shared),
                );
                if !self.add_connection(&ancestor, wire.clone()) {
                    return Err(
                        EvaluatorError::invalid_connection(location, missing_message(&ancestor)),
                    );
                }
            }
            at += 1;
        }
        Ok(())
    }
}

/// Connection kind validation. Connecting two bound instances whose kinds
/// do not connect (anything but two ports or pins, or two interfaces) is an
/// invalid assignment, and files no connection: the store and the enclosing
/// instance stay as they are.
pub proof fn lemma_kinds_must_connect(
    store: StoreView,
    instance: InstanceView,
    source: InstanceRefView,
    source_location: LocationView,
    target: InstanceRefView,
    target_location: LocationView,
    location: LocationView,
)
    requires
        assoc::has(store, source),
        assoc::has(store, target),
        !wire_kinds(assoc::get(store, source)->0.kind, assoc::get(store, target)->0.kind),
        !(assoc::get(store, source)->0.kind == InstanceKind::Interface && assoc::get(
            store,
            target,
        )->0.kind == InstanceKind::Interface),
    ensures
        connected(store, instance, source, source_location, target, target_location, location)
            == (
            store,
            instance,
            Some(
                kind_error(
                    location,
                    assoc::get(store, source)->0.kind,
                    assoc::get(store, target)->0.kind,
                ),
            ),
        ),
        kind_error(
            location,
            assoc::get(store, source)->0.kind,
            assoc::get(store, target)->0.kind,
        ).kind == EvaluatorErrorKind::InvalidAssignment,
{
}

/// Common-ancestor placement. A wire between two bound ports or pins of one
/// root module is filed at the instance bound to the longest leading part
/// that their paths share, and nowhere else; where they share none, at the
/// enclosing instance.
pub proof fn lemma_filed_at_common_ancestor(
    store: StoreView,
    instance: InstanceView,
    source: InstanceRefView,
    source_location: LocationView,
    target: InstanceRefView,
    target_location: LocationView,
    location: LocationView,
)
    requires
        assoc::has(store, source),
        assoc::has(store, target),
        wire_kinds(assoc::get(store, source)->0.kind, assoc::get(store, target)->0.kind),
        source.module == target.module,
    ensures
        ({
            let wire = ConnectionView { left: source, right: target };
            let shared = common_prefix(source.path, target.path, 0);
            let ancestor = InstanceRefView { module: source.module, path: source.path.take(shared) };
            connected(store, instance, source, source_location, target, target_location, location)
                == if shared == 0 {
                (
                    store,
                    InstanceView { connections: instance.connections.push(wire), ..instance },
                    None,
                )
            } else if assoc::has(store, ancestor) {
                (with_connection(store, ancestor, wire), instance, None)
            } else {
                (store, instance, Some(missing_error(location, ancestor)))
            }
        }),
{
    let wire = ConnectionView { left: source, right: target };
    let all = seq![wire];
    let shared = common_prefix(source.path, target.path, 0);
    assert(all[0] == wire);
    if shared == 0 {
        let grown = InstanceView { connections: instance.connections.push(wire), ..instance };
        assert(filed(store, grown, all, 1, source.module, location) == (store, grown, None::<ErrorView>));
    } else {
        let ancestor = InstanceRefView { module: source.module, path: source.path.take(shared) };
        if assoc::has(store, ancestor) {
            let next = with_connection(store, ancestor, wire);
            assert(filed(next, instance, all, 1, source.module, location) == (
                next,
                instance,
                None::<ErrorView>,
            ));
        }
    }
}

/// Sorting children by name keeps their number.
pub proof fn lemma_sorted_keeps_length(children: Seq<(Seq<char>, InstanceRefView)>)
    ensures
        sorted_by_name(children).len() == children.len(),
    decreases children.len(),
{
    if children.len() > 0 {
        lemma_sorted_keeps_length(children.drop_last());
        let sorted = sorted_by_name(children.drop_last());
        lemma_slot_in_range(sorted, children.last().0, sorted.len() as int);
    }
}

/// The slot for an entry among the first `upto` lies among them or right
/// after them.
proof fn lemma_slot_in_range(sorted: Seq<(Seq<char>, InstanceRefView)>, name: Seq<char>, upto: int)
    requires
        0 <= upto <= sorted.len(),
    ensures
        0 <= slot(sorted, name, upto) <= upto,
    decreases upto,
{
    if upto > 0 && text_before(name, sorted[upto - 1].0) {
        lemma_slot_in_range(sorted, name, upto - 1);
    }
}

/// Interface expansion. Connecting two bound interfaces of the same type
/// stands for one wire per child: as many wires as the interface with
/// fewer children has children, the wire at each position between the
/// children that stand at that position when each interface's children are
/// ordered by name.
pub proof fn lemma_interfaces_connect_child_by_child(
    source: InstanceRefView,
    left: InstanceView,
    target: InstanceRefView,
    right: InstanceView,
    location: LocationView,
)
    requires
        left.kind == InstanceKind::Interface,
        right.kind == InstanceKind::Interface,
        left.type_ref == right.type_ref,
    ensures
        wires(source, left, target, right, location) is Ok,
        wires(source, left, target, right, location)->Ok_0.len() == if left.children.len()
            <= right.children.len() {
            left.children.len()
        } else {
            right.children.len()
        },
        forall|k: int|
            0 <= k < wires(source, left, target, right, location)->Ok_0.len() ==> (
            #[trigger] wires(source, left, target, right, location)->Ok_0[k]) == (ConnectionView {
                left: sorted_by_name(left.children)[k].1,
                right: sorted_by_name(right.children)[k].1,
            }),
{
    lemma_sorted_keeps_length(left.children);
    lemma_sorted_keeps_length(right.children);
}

} // verus!
