//! Copying a subtree of the instance graph to a new place.
//!
//! Instantiating a type and inheriting from a parent are both this one
//! operation: the subtree under one identity is copied under another, and the
//! connections in it are moved along.

use vstd::prelude::*;
use crate::assoc;
use crate::ast::{symbol_texts, Symbol};
use crate::instance::{
    child_views, connection_views, copy_symbols, instance_ref_text, path_starts_with, starts_with,
    Connection, ConnectionView, Instance, InstanceRef, InstanceRefView, InstanceView,
};
use crate::location::{Location, LocationView};
use crate::store::{EvaluatorState, StoreView};
use crate::text::{concat_text, owned_text};

verus! {

/// Why a subtree could not be copied.
#[derive(Debug, PartialEq)]
pub enum CloneError {
    /// The subtree refers to an instance that the store does not hold.
    Missing(InstanceRef),
    /// The subtree is nested more deeply than the limit allows.
    TooDeep(InstanceRef),
}

/// What a [`CloneError`] stands for.
pub enum CloneErrorView {
    Missing(InstanceRefView),
    TooDeep(InstanceRefView),
}

impl View for CloneError {
    type V = CloneErrorView;

    open spec fn view(&self) -> CloneErrorView {
        match self {
            CloneError::Missing(r) => CloneErrorView::Missing(r@),
            CloneError::TooDeep(r) => CloneErrorView::TooDeep(r@),
        }
    }
}

/// The message of a failed copy.
pub open spec fn clone_error_text(e: CloneErrorView) -> Seq<char> {
    match e {
        CloneErrorView::Missing(r) => "Tried to clone instance `"@ + instance_ref_text(r)
            + "` but it doesn't exist"@,
        CloneErrorView::TooDeep(r) => "Tried to clone instance `"@ + instance_ref_text(r)
            + "` but it is nested too deeply"@,
    }
}

impl CloneError {
    /// Writes the message of the failure.
    pub fn to_string(&self) -> (r: String)
        ensures
            r@ == clone_error_text(self@),
    {
        match self {
            CloneError::Missing(r) => {
                let name = r.to_string();
                concat_text(
                    concat_text(owned_text("Tried to clone instance `"), name.as_str()),
                    "` but it doesn't exist",
                )
            },
            CloneError::TooDeep(r) => {
                let name = r.to_string();
                concat_text(
                    concat_text(owned_text("Tried to clone instance `"), name.as_str()),
                    "` but it is nested too deeply",
                )
            },
        }
    }
}

/// Where `path` lies once the subtree at `from` has moved to `to`: the part
/// of `path` below `from`, or all of `path` if it is not below `from`, put
/// below `to`.
pub open spec fn transposed_path(
    path: Seq<Seq<char>>,
    from: Seq<Seq<char>>,
    to: Seq<Seq<char>>,
) -> Seq<Seq<char>> {
    if starts_with(path, from) {
        to + path.skip(from.len() as int)
    } else {
        to + path
    }
}

/// The identity that `r` has once the subtree at `from` has moved to `to`.
pub open spec fn transposed_ref(
    r: InstanceRefView,
    from: InstanceRefView,
    to: InstanceRefView,
) -> InstanceRefView {
    InstanceRefView { module: to.module, path: transposed_path(r.path, from.path, to.path) }
}

/// The connection that `c` becomes once the subtree at `from` has moved to
/// `to`.
pub open spec fn transposed_connection(
    c: ConnectionView,
    from: InstanceRefView,
    to: InstanceRefView,
) -> ConnectionView {
    ConnectionView {
        left: transposed_ref(c.left, from, to),
        right: transposed_ref(c.right, from, to),
    }
}

/// Each connection of a list, moved along from `from` to `to`.
pub open spec fn transposed_connections(
    connections: Seq<ConnectionView>,
    from: InstanceRefView,
    to: InstanceRefView,
) -> Seq<ConnectionView> {
    connections.map_values(|c: ConnectionView| transposed_connection(c, from, to))
}

/// The identity of the child `name` of `parent`.
pub open spec fn child_ref(parent: InstanceRefView, name: Seq<char>) -> InstanceRefView {
    InstanceRefView { module: parent.module, path: parent.path.push(name) }
}

/// The store after copying the subtree at `from` to `to`, and the failure if
/// there was one.
///
/// The copy of an instance has its type, kind and attributes, a child under
/// each of its child names, its connections moved along, no reference
/// designator, and `location` if one is given. The children are copied first,
/// in their order; the copy of the instance itself is bound last. A child
/// that the store does not hold ends the copy where it stands, as does a
/// subtree nested more than `depth` deep.
pub open spec fn cloned_store(
    store: StoreView,
    from: InstanceRefView,
    to: InstanceRefView,
    location: Option<LocationView>,
    depth: nat,
) -> (StoreView, Option<CloneErrorView>)
    decreases depth, 0nat,
{
    match assoc::get(store, from) {
        None => (store, Some(CloneErrorView::Missing(from))),
        Some(source) => {
            if depth == 0 {
                (store, Some(CloneErrorView::TooDeep(from)))
            } else {
                let (store1, children, failure) = cloned_children(
                    store,
                    source.children,
                    0,
                    to,
                    Seq::empty(),
                    (depth - 1) as nat,
                );
                if failure is Some {
                    (store1, failure)
                } else {
                    let copy = InstanceView {
                        type_ref: source.type_ref,
                        kind: source.kind,
                        attributes: source.attributes,
                        children,
                        connections: transposed_connections(source.connections, from, to),
                        reference_designator: None,
                        location: match location {
                            Some(l) => l,
                            None => source.location,
                        },
                    };
                    (assoc::put(store1, to, copy), None)
                }
            }
        },
    }
}

/// The store after copying the subtrees of `children[at..]` below `to`, the
/// child list of the copy (starting from `done`), and the failure if there
/// was one.
pub open spec fn cloned_children(
    store: StoreView,
    children: Seq<(Seq<char>, InstanceRefView)>,
    at: int,
    to: InstanceRefView,
    done: Seq<(Seq<char>, InstanceRefView)>,
    depth: nat,
) -> (StoreView, Seq<(Seq<char>, InstanceRefView)>, Option<CloneErrorView>)
    decreases depth, children.len() - at + 1,
{
    if at < 0 || at >= children.len() {
        (store, done, None)
    } else {
        let name = children[at].0;
        let target = child_ref(to, name);
        let (store1, failure) = cloned_store(store, children[at].1, target, None, depth);
        if failure is Some {
            (store1, done, failure)
        } else {
            cloned_children(
                store1,
                children,
                at + 1,
                to,
                assoc::put(done, name, target),
                depth,
            )
        }
    }
}

/// The location that a copy is given, if any.
pub open spec fn location_view(location: Option<&Location>) -> Option<LocationView> {
    match location {
        Some(l) => Some(l@),
        None => None,
    }
}

/// The identity that `r` has once the subtree at `from` has moved to `to`.
fn transpose(r: &InstanceRef, from: &InstanceRef, to: &InstanceRef) -> (out: InstanceRef)
    ensures
        out@ == transposed_ref(r@, from@, to@),
{
    let mut path = copy_symbols(&to.instance_path);
    let start: usize = if path_starts_with(&r.instance_path, &from.instance_path) {
        from.instance_path.len()
    } else {
        0
    };
    let mut i: usize = start;
    while i < r.instance_path.len()
        invariant
            start <= i <= r.instance_path.len(),
            path.len() == to.instance_path.len() + (i - start),
            forall|n: int| 0 <= n < to.instance_path.len() ==> path[n]@ == to.instance_path[n]@,
            forall|n: int|
                to.instance_path.len() <= n < path.len() ==> (#[trigger] path[n])@
                    == r.instance_path[start + n - to.instance_path.len()]@,
        decreases r.instance_path.len() - i,
    {
        path.push(r.instance_path[i].clone());
        i += 1;
    }
    proof {
        assert(symbol_texts(path@) =~= to@.path + r@.path.skip(start as int));
        assert(r@.path.skip(0) =~= r@.path);
    }
    InstanceRef::new(&to.module, path)
}

impl EvaluatorState {
    /// Copies the subtree at `from_ref` to `to_ref`, giving the copy of the
    /// root `location` if there is one, and following children at most
    /// `depth` levels down.
    pub fn clone_instance(
        &mut self,
        from_ref: &InstanceRef,
        to_ref: &InstanceRef,
        location: Option<&Location>,
        depth: usize,
    ) -> (r: Result<(), CloneError>)
        ensures
            final(self)@ == cloned_store(
                old(self)@,
                from_ref@,
                to_ref@,
                location_view(location),
                depth as nat,
            ).0,
            match r {
                Ok(_) => cloned_store(
                    old(self)@,
                    from_ref@,
                    to_ref@,
                    location_view(location),
                    depth as nat,
                ).1 is None,
                Err(e) => cloned_store(
                    old(self)@,
                    from_ref@,
                    to_ref@,
                    location_view(location),
                    depth as nat,
                ).1 == Some(e@),
            },
        decreases depth,
    {
        let (mut copy, children, connections) = match self.resolve_instance(from_ref) {
            None => {
                return Err(CloneError::Missing(from_ref.clone()));
            },
            Some(source) => {
                let at = match location {
                    Some(l) => l,
                    None => &source.location,
                };
                let mut copy = Instance::new(&source.type_ref, source.kind, at);
                let whole = source.clone();
                copy.attributes = whole.attributes;
                (copy, whole.children, whole.connections)
            },
        };
        if depth == 0 {
            return Err(CloneError::TooDeep(from_ref.clone()));
        }
        let ghost source = assoc::get(old(self)@, from_ref@)->0;
        let ghost kids = source.children;
        let mut i: usize = 0;
        while i < children.len()
            invariant
                i <= children.len(),
                depth > 0,
                assoc::get(old(self)@, from_ref@) == Some(source),
                kids == source.children,
                child_views(children@) == kids,
                copy@ == (InstanceView {
                    children: copy@.children,
                    ..empty_copy(source, location_view(location))
                }),
                cloned_children(old(self)@, kids, 0, to_ref@, Seq::empty(), (depth - 1) as nat)
                    == cloned_children(
                    self@,
                    kids,
                    i as int,
                    to_ref@,
                    copy@.children,
                    (depth - 1) as nat,
                ),
            decreases children.len() - i,
        {
            let target = to_ref.child(&children[i].0);
            let ghost before = self@;
            let ghost done = copy@.children;
            proof {
                assert(kids[i as int] == (children[i as int].0@, children[i as int].1@));
                assert(target@ == child_ref(to_ref@, kids[i as int].0));
            }
            match self.clone_instance(&children[i].1, &target, None, depth - 1) {
                Err(e) => {
                    proof {
                        assert(cloned_children(
                            before,
                            kids,
                            i as int,
                            to_ref@,
                            done,
                            (depth - 1) as nat,
                        ) == (self@, done, Some(e@)));
                    }
                    return Err(e);
                },
                Ok(_) => {},
            }
            copy.add_child(&children[i].0, &target);
            proof {
                assert(cloned_children(before, kids, i as int, to_ref@, done, (depth - 1) as nat)
                    == cloned_children(
                    self@,
                    kids,
                    i + 1,
                    to_ref@,
                    copy@.children,
                    (depth - 1) as nat,
                ));
            }
            i += 1;
        }
        let mut j: usize = 0;
        while j < connections.len()
            invariant
                j <= connections.len(),
                connection_views(connections@) == source.connections,
                copy@ == (InstanceView {
                    connections: copy@.connections,
                    ..copy@
                }),
                copy@.connections == transposed_connections(
                    source.connections.take(j as int),
                    from_ref@,
                    to_ref@,
                ),
                copy@.type_ref == source.type_ref,
                copy@.kind == source.kind,
                copy@.attributes == source.attributes,
                copy@.reference_designator is None,
                copy@.location == empty_copy(source, location_view(location)).location,
                copy@.children == cloned_children(
                    old(self)@,
                    kids,
                    0,
                    to_ref@,
                    Seq::empty(),
                    (depth - 1) as nat,
                ).1,
            decreases connections.len() - j,
        {
            let left = transpose(&connections[j].left, from_ref, to_ref);
            let right = transpose(&connections[j].right, from_ref, to_ref);
            copy.add_connection(Connection::new(left, right));
            proof {
                assert(copy@.connections =~= transposed_connections(
                    source.connections.take(j + 1),
                    from_ref@,
                    to_ref@,
                ));
            }
            j += 1;
        }
        proof {
            assert(source.connections.take(connections.len() as int) =~= source.connections);
        }
        self.add_instance(to_ref, copy);
        Ok(())
    }
}

/// The copy of `source` before its children and connections are filled in.
pub open spec fn empty_copy(source: InstanceView, location: Option<LocationView>) -> InstanceView {
    InstanceView {
        type_ref: source.type_ref,
        kind: source.kind,
        attributes: source.attributes,
        children: Seq::empty(),
        connections: Seq::empty(),
        reference_designator: None,
        location: match location {
            Some(l) => l,
            None => source.location,
        },
    }
}

/// The length of the longest path under which `store` binds an instance.
pub open spec fn deepest(store: StoreView) -> nat
    decreases store.len(),
{
    if store.len() == 0 {
        0
    } else {
        let rest = deepest(store.drop_last());
        if store.last().0.path.len() > rest {
            store.last().0.path.len()
        } else {
            rest
        }
    }
}

/// How deep a copy may go in `store`: one level deeper than the longest
/// path under which the store binds an instance, as far as machine numbers
/// go.
pub open spec fn depth_limit(store: StoreView) -> nat {
    if deepest(store) < usize::MAX {
        deepest(store) + 1
    } else {
        usize::MAX as nat
    }
}

impl EvaluatorState {
    /// How deep a copy may go in this store.
    pub fn depth_limit(&self) -> (r: usize)
        ensures
            r == depth_limit(self@),
    {
        let mut longest: usize = 0;
        let mut i: usize = 0;
        assert(self@.take(0) =~= StoreView::empty());
        while i < self.len()
            invariant
                i <= self@.len(),
                longest == deepest(self@.take(i as int)),
            decreases self@.len() - i,
        {
            let length = self.entry(i).0.len();
            proof {
                assert(self@.take(i + 1).drop_last() =~= self@.take(i as int));
                assert(self@.take(i + 1).last() == self@[i as int]);
            }
            if length > longest {
                longest = length;
            }
            i += 1;
        }
        assert(self@.take(self@.len() as int) =~= self@);
        if longest < usize::MAX {
            longest + 1
        } else {
            usize::MAX
        }
    }
}

} // verus!
