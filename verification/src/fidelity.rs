//! What a copied subtree looks like: every instance below the source has its
//! image below the target, and nothing else in the store changes.

use vstd::prelude::*;
use crate::assoc;
use crate::cloning::{
    child_ref, cloned_children, cloned_store, deepest, transposed_connections,
};
use crate::instance::{starts_with, InstanceRefView, InstanceView};
use crate::location::LocationView;
use crate::store::StoreView;

verus! {

/// Whether `key` is `root` or lies below it.
pub open spec fn under(key: InstanceRefView, root: InstanceRefView) -> bool {
    key.module == root.module && starts_with(key.path, root.path)
}

/// The identity reached from `from` by following the child names of `rel`
/// through the store, if every step exists.
pub open spec fn descendant(store: StoreView, from: InstanceRefView, rel: Seq<Seq<char>>) -> Option<
    InstanceRefView,
>
    decreases rel.len(),
{
    match assoc::get(store, from) {
        None => None,
        Some(instance) => if rel.len() == 0 {
            Some(from)
        } else {
            match assoc::get(instance.children, rel[0]) {
                None => None,
                Some(child) => descendant(store, child, rel.skip(1)),
            }
        },
    }
}

/// The child list of a copy bound at `to`: the same names in the same order,
/// each leading to the child of that name below `to`.
pub open spec fn retargeted(
    children: Seq<(Seq<char>, InstanceRefView)>,
    to: InstanceRefView,
) -> Seq<(Seq<char>, InstanceRefView)> {
    children.map_values(|c: (Seq<char>, InstanceRefView)| (c.0, child_ref(to, c.0)))
}

/// The copy of `source`, which is bound at `from`, for the identity `to`:
/// the same type, kind and attributes, the children retargeted, the
/// connections moved along, no reference designator, and `location` if one
/// is given.
pub open spec fn copy_of(
    source: InstanceView,
    from: InstanceRefView,
    to: InstanceRefView,
    location: Option<LocationView>,
) -> InstanceView {
    InstanceView {
        type_ref: source.type_ref,
        kind: source.kind,
        attributes: source.attributes,
        children: retargeted(source.children, to),
        connections: transposed_connections(source.connections, from, to),
        reference_designator: None,
        location: match location {
            Some(l) => l,
            None => source.location,
        },
    }
}

/// Every bound instance names each child once, and every child it names is
/// bound.
pub open spec fn tidy(store: StoreView) -> bool {
    forall|key: InstanceRefView| #[trigger]
        assoc::has(store, key) ==> {
            let children = assoc::get(store, key)->0.children;
            &&& assoc::distinct(children)
            &&& forall|j: int|
                0 <= j < children.len() ==> assoc::has(store, (#[trigger] children[j]).1)
        }
}

/// Nothing is bound at `to` or below it.
pub open spec fn vacant(store: StoreView, to: InstanceRefView) -> bool {
    forall|key: InstanceRefView| under(key, to) ==> !#[trigger] assoc::has(store, key)
}

/// What is bound at `key`, which lies at or below `to`, once the subtree at
/// `from` has been copied to `to`: the copy of the instance that the rest of
/// `key`'s path leads to from `from`, or nothing if it leads nowhere.
pub open spec fn image(
    store: StoreView,
    from: InstanceRefView,
    to: InstanceRefView,
    location: Option<LocationView>,
    key: InstanceRefView,
) -> Option<InstanceView> {
    let rel = key.path.skip(to.path.len() as int);
    match descendant(store, from, rel) {
        Some(d) => Some(
            copy_of(
                assoc::get(store, d)->0,
                d,
                key,
                if rel.len() == 0 {
                    location
                } else {
                    None
                },
            ),
        ),
        None => None,
    }
}

/// What is bound at `key` once the subtree at `from` has been copied to the
/// vacant place `to`.
pub open spec fn after_clone(
    store: StoreView,
    from: InstanceRefView,
    to: InstanceRefView,
    location: Option<LocationView>,
    key: InstanceRefView,
) -> Option<InstanceView> {
    if under(key, to) {
        image(store, from, to, location, key)
    } else {
        assoc::get(store, key)
    }
}

/// Whatever is bound in `base` is bound to the same in `store`.
spec fn agree(base: StoreView, store: StoreView) -> bool {
    forall|key: InstanceRefView| #[trigger]
        assoc::has(base, key) ==> assoc::get(store, key) == assoc::get(base, key)
}

/// What of `store` lies below `to` lies below a child named by one of the
/// first `at` of `children`.
spec fn below_done(
    store: StoreView,
    to: InstanceRefView,
    children: Seq<(Seq<char>, InstanceRefView)>,
    at: int,
) -> bool {
    forall|key: InstanceRefView|
        under(key, to) && #[trigger] assoc::has(store, key) ==> key.path.len() > to.path.len()
            && assoc::find(children, key.path[to.path.len() as int]) < at
}

/// Whether `key` lies at or below the child of `to` that one of
/// `children[at..]` names.
spec fn below_pending(
    key: InstanceRefView,
    to: InstanceRefView,
    children: Seq<(Seq<char>, InstanceRefView)>,
    at: int,
) -> bool {
    under(key, to) && key.path.len() > to.path.len() && at <= assoc::find(
        children,
        key.path[to.path.len() as int],
    ) < children.len()
}

/// To lie at or below the child `name` of `to` is to lie below `to` with
/// `name` as the next part of the path.
proof fn lemma_under_child(key: InstanceRefView, to: InstanceRefView, name: Seq<char>)
    ensures
        under(key, child_ref(to, name)) <==> under(key, to) && key.path.len() > to.path.len()
            && key.path[to.path.len() as int] == name,
{
    let t = child_ref(to, name);
    let n = to.path.len() as int;
    if under(key, t) {
        assert(key.path.take(n + 1) == t.path);
        assert(key.path.take(n) =~= key.path.take(n + 1).take(n));
        assert(t.path.take(n) =~= to.path);
        assert(key.path[n] == key.path.take(n + 1)[n]);
    }
    if under(key, to) && key.path.len() > to.path.len() && key.path[n] == name {
        assert(key.path.take(n + 1) =~= key.path.take(n).push(key.path[n]));
    }
}

/// The first of distinct children that has a name is where `find` finds it.
proof fn lemma_find_distinct(children: Seq<(Seq<char>, InstanceRefView)>, at: int)
    requires
        assoc::distinct(children),
        0 <= at < children.len(),
    ensures
        assoc::find(children, children[at].0) == at,
{
    assert forall|i: int| 0 <= i < at implies (#[trigger] children[i]).0 != children[at].0 by {}
    assoc::lemma_find_is(children, children[at].0, at);
}

/// Nothing is bound at or below the place of a child that is still to be
/// copied.
proof fn lemma_child_vacant(
    base: StoreView,
    store: StoreView,
    children: Seq<(Seq<char>, InstanceRefView)>,
    at: int,
    to: InstanceRefView,
)
    requires
        vacant(base, to),
        0 <= at < children.len(),
        assoc::distinct(children),
        below_done(store, to, children, at),
    ensures
        vacant(base, child_ref(to, children[at].0)),
        vacant(store, child_ref(to, children[at].0)),
{
    let name = children[at].0;
    let target = child_ref(to, name);
    lemma_find_distinct(children, at);
    assert forall|k: InstanceRefView| under(k, target) implies !#[trigger] assoc::has(
        store,
        k,
    ) by {
        lemma_under_child(k, to, name);
    }
    assert forall|k: InstanceRefView| under(k, target) implies !#[trigger] assoc::has(
        base,
        k,
    ) by {
        lemma_under_child(k, to, name);
    }
}

/// After a child is copied, what the copying of the next child rests on
/// holds again.
proof fn lemma_after_child(
    base: StoreView,
    store: StoreView,
    children: Seq<(Seq<char>, InstanceRefView)>,
    at: int,
    to: InstanceRefView,
    done: Seq<(Seq<char>, InstanceRefView)>,
    depth: nat,
)
    requires
        tidy(base),
        vacant(base, to),
        agree(base, store),
        0 <= at < children.len(),
        assoc::distinct(children),
        forall|j: int| 0 <= j < children.len() ==> assoc::has(base, (#[trigger] children[j]).1),
        done == retargeted(children.take(at), to),
        below_done(store, to, children, at),
        cloned_store(store, children[at].1, child_ref(to, children[at].0), None, depth).1 is None,
    ensures
        agree(
            base,
            cloned_store(store, children[at].1, child_ref(to, children[at].0), None, depth).0,
        ),
        assoc::put(done, children[at].0, child_ref(to, children[at].0)) == retargeted(
            children.take(at + 1),
            to,
        ),
        below_done(
            cloned_store(store, children[at].1, child_ref(to, children[at].0), None, depth).0,
            to,
            children,
            at + 1,
        ),
    decreases depth, 1nat,
{
    let name = children[at].0;
    let child = children[at].1;
    let target = child_ref(to, name);
    let store1 = cloned_store(store, child, target, None, depth).0;
    let done1 = assoc::put(done, name, target);
    lemma_find_distinct(children, at);
    lemma_child_vacant(base, store, children, at, to);
    assert forall|k: InstanceRefView| #[trigger] assoc::has(base, k) implies assoc::get(
        store1,
        k,
    ) == assoc::get(base, k) by {
        lemma_under_child(k, to, name);
        lemma_copy(base, store, child, target, None, depth, k);
    }
    assert(done1 == retargeted(children.take(at + 1), to)) by {
        assert forall|i: int| 0 <= i < done.len() implies (#[trigger] done[i]).0 != name by {
            assert(done[i].0 == children[i].0);
        }
        assoc::lemma_find_is(done, name, done.len() as int);
        assert(done1 =~= retargeted(children.take(at + 1), to));
    }
    assert forall|k: InstanceRefView| under(k, to) && #[trigger] assoc::has(
        store1,
        k,
    ) implies k.path.len() > to.path.len() && assoc::find(
        children,
        k.path[to.path.len() as int],
    ) < at + 1 by {
        lemma_under_child(k, to, name);
        lemma_copy(base, store, child, target, None, depth, k);
        if !under(k, target) {
            assert(assoc::has(store, k));
        }
    }
}

/// Copying the children of distinct names from `at` on, into a store that
/// agrees with `base` on what `base` binds: the copy's child list is the
/// retargeted list, and each key holds the image of what its path leads to,
/// or what it held.
proof fn lemma_copy_children(
    base: StoreView,
    store: StoreView,
    children: Seq<(Seq<char>, InstanceRefView)>,
    at: int,
    to: InstanceRefView,
    done: Seq<(Seq<char>, InstanceRefView)>,
    depth: nat,
    key: InstanceRefView,
)
    requires
        tidy(base),
        vacant(base, to),
        agree(base, store),
        0 <= at <= children.len(),
        assoc::distinct(children),
        forall|j: int| 0 <= j < children.len() ==> assoc::has(base, (#[trigger] children[j]).1),
        done == retargeted(children.take(at), to),
        below_done(store, to, children, at),
        cloned_children(store, children, at, to, done, depth).2 is None,
    ensures
        cloned_children(store, children, at, to, done, depth).1 == retargeted(children, to),
        assoc::get(cloned_children(store, children, at, to, done, depth).0, key) == if below_pending(
            key,
            to,
            children,
            at,
        ) {
            let name = key.path[to.path.len() as int];
            image(
                base,
                children[assoc::find(children, name)].1,
                child_ref(to, name),
                None,
                key,
            )
        } else {
            assoc::get(store, key)
        },
    decreases depth, children.len() - at + 1,
{
    if at >= children.len() {
        assert(children.take(at) =~= children);
        assoc::lemma_find(children, key.path[to.path.len() as int]);
    } else {
        let name = children[at].0;
        let child = children[at].1;
        let target = child_ref(to, name);
        let (store1, failure) = cloned_store(store, child, target, None, depth);
        let done1 = assoc::put(done, name, target);
        lemma_find_distinct(children, at);
        lemma_child_vacant(base, store, children, at, to);
        lemma_after_child(base, store, children, at, to, done, depth);
        lemma_copy_children(base, store1, children, at + 1, to, done1, depth, key);
        lemma_copy(base, store, child, target, None, depth, key);
        lemma_under_child(key, to, name);
        if under(key, to) && key.path.len() > to.path.len() {
            assoc::lemma_find(children, key.path[to.path.len() as int]);
        }
    }
}

/// Copying the subtree at `from`, which `base` binds, to the vacant place
/// `to`, in a store that agrees with `base` on what `base` binds: each key at
/// or below `to` holds the image of what its path leads to, every other key
/// what it held.
proof fn lemma_copy(
    base: StoreView,
    store: StoreView,
    from: InstanceRefView,
    to: InstanceRefView,
    location: Option<LocationView>,
    depth: nat,
    key: InstanceRefView,
)
    requires
        tidy(base),
        vacant(base, to),
        vacant(store, to),
        agree(base, store),
        assoc::has(base, from),
        cloned_store(store, from, to, location, depth).1 is None,
    ensures
        assoc::get(cloned_store(store, from, to, location, depth).0, key) == if under(key, to) {
            image(base, from, to, location, key)
        } else {
            assoc::get(store, key)
        },
    decreases depth, 0nat,
{
    let source = assoc::get(store, from)->0;
    assert(assoc::get(store, from) == assoc::get(base, from));
    let children = source.children;
    let d = (depth - 1) as nat;
    let (store1, kids, failure) = cloned_children(store, children, 0, to, Seq::empty(), d);
    assert(children.take(0) =~= Seq::empty());
    assert(retargeted(children.take(0), to) =~= Seq::empty());
    lemma_copy_children(base, store, children, 0, to, Seq::empty(), d, key);
    let copy = copy_of(source, from, to, location);
    assoc::lemma_get_put(store1, to, copy, key);
    let n = to.path.len() as int;
    assert(to.path.take(n) =~= to.path);
    if key == to {
        assert(key.path.skip(n) =~= Seq::empty());
    } else if under(key, to) {
        if key.path.len() == to.path.len() {
            assert(key.path.take(n) =~= key.path);
        }
        let rel = key.path.skip(n);
        let name = key.path[n];
        assert(rel[0] == name);
        assert(rel.skip(1) =~= key.path.skip(n + 1));
        assoc::lemma_find(children, name);
        let t = child_ref(to, name);
        assert(key.path.skip(t.path.len() as int) =~= rel.skip(1));
    }
}

/// Clone fidelity. Where a subtree is copied to a place at and below which
/// nothing is bound, in a store whose instances name each child once and
/// name only bound children, then afterwards: each key at or below the
/// target holds the copy of the instance that the rest of its path leads to
/// from the source (the same type, kind and attributes, the children under
/// the same names, the connections moved along), or nothing if that path
/// leads nowhere; and every other key holds what it held.
pub proof fn lemma_clone_fidelity(
    store: StoreView,
    from: InstanceRefView,
    to: InstanceRefView,
    location: Option<LocationView>,
    depth: nat,
    key: InstanceRefView,
)
    requires
        tidy(store),
        vacant(store, to),
        cloned_store(store, from, to, location, depth).1 is None,
    ensures
        assoc::get(cloned_store(store, from, to, location, depth).0, key) == after_clone(
            store,
            from,
            to,
            location,
            key,
        ),
{
    lemma_copy(store, store, from, to, location, depth, key);
}

/// Every child that a bound instance names lies directly below it.
pub open spec fn placed(store: StoreView) -> bool {
    forall|key: InstanceRefView| #[trigger]
        assoc::has(store, key) ==> {
            let children = assoc::get(store, key)->0.children;
            forall|j: int|
                0 <= j < children.len() ==> (#[trigger] children[j]).1 == child_ref(
                    key,
                    children[j].0,
                )
        }
}

/// No bound path is longer than the longest.
proof fn lemma_deepest(store: StoreView, key: InstanceRefView)
    requires
        assoc::has(store, key),
    ensures
        key.path.len() <= deepest(store),
    decreases store.len(),
{
    assoc::lemma_find(store, key);
    let at = assoc::find(store, key);
    if at < store.len() - 1 {
        let rest = store.drop_last();
        assert forall|i: int| 0 <= i < at implies (#[trigger] rest[i]).0 != key by {
            assert(rest[i] == store[i]);
        }
        assert(rest[at] == store[at]);
        assoc::lemma_find_is(rest, key, at);
        lemma_deepest(rest, key);
    }
}

/// Copying children succeeds where the depth reaches as far down as the
/// store is deep.
proof fn lemma_children_succeed(
    base: StoreView,
    store: StoreView,
    children: Seq<(Seq<char>, InstanceRefView)>,
    at: int,
    to: InstanceRefView,
    done: Seq<(Seq<char>, InstanceRefView)>,
    depth: nat,
    parent: InstanceRefView,
)
    requires
        tidy(base),
        placed(base),
        vacant(base, to),
        agree(base, store),
        0 <= at <= children.len(),
        assoc::distinct(children),
        forall|j: int| 0 <= j < children.len() ==> assoc::has(base, (#[trigger] children[j]).1),
        forall|j: int|
            0 <= j < children.len() ==> (#[trigger] children[j]).1 == child_ref(
                parent,
                children[j].0,
            ),
        done == retargeted(children.take(at), to),
        below_done(store, to, children, at),
        depth + parent.path.len() >= deepest(base),
    ensures
        cloned_children(store, children, at, to, done, depth).2 is None,
    decreases depth, children.len() - at + 1,
{
    if at < children.len() {
        let name = children[at].0;
        let child = children[at].1;
        let target = child_ref(to, name);
        lemma_child_vacant(base, store, children, at, to);
        assert(child.path.len() == parent.path.len() + 1);
        lemma_store_succeeds(base, store, child, target, None, depth);
        lemma_after_child(base, store, children, at, to, done, depth);
        lemma_children_succeed(
            base,
            cloned_store(store, child, target, None, depth).0,
            children,
            at + 1,
            to,
            assoc::put(done, name, target),
            depth,
            parent,
        );
    }
}

/// Copying a bound subtree to a vacant place succeeds where the depth
/// reaches as far down as the store is deep.
proof fn lemma_store_succeeds(
    base: StoreView,
    store: StoreView,
    from: InstanceRefView,
    to: InstanceRefView,
    location: Option<LocationView>,
    depth: nat,
)
    requires
        tidy(base),
        placed(base),
        vacant(base, to),
        vacant(store, to),
        agree(base, store),
        assoc::has(base, from),
        depth + from.path.len() >= deepest(base) + 1,
    ensures
        cloned_store(store, from, to, location, depth).1 is None,
    decreases depth, 0nat,
{
    lemma_deepest(base, from);
    assert(assoc::get(store, from) == assoc::get(base, from));
    let source = assoc::get(base, from)->0;
    let children = source.children;
    assert(children.take(0) =~= Seq::empty());
    assert(retargeted(children.take(0), to) =~= Seq::empty());
    lemma_children_succeed(
        base,
        store,
        children,
        0,
        to,
        Seq::empty(),
        (depth - 1) as nat,
        from,
    );
}

/// When a copy succeeds. In a store whose instances name each child once,
/// name only bound children and name them directly below themselves,
/// copying a bound subtree to a place at and below which nothing is bound
/// succeeds, if the copy may go as deep as the store is deep below the
/// source.
pub proof fn lemma_clone_succeeds(
    store: StoreView,
    from: InstanceRefView,
    to: InstanceRefView,
    location: Option<LocationView>,
    depth: nat,
)
    requires
        tidy(store),
        placed(store),
        vacant(store, to),
        assoc::has(store, from),
        depth + from.path.len() >= deepest(store) + 1,
    ensures
        cloned_store(store, from, to, location, depth).1 is None,
{
    lemma_store_succeeds(store, store, from, to, location, depth);
}

} // verus!
