//! The instance store: every instance of the graph under its identity.

use vstd::prelude::*;
use crate::assoc;
use crate::ast::Symbol;
use crate::instance::{
    AttributeValue, Connection, Instance, InstanceRef, InstanceRefView, InstanceView,
};

verus! {

/// What a store stands for: an association list from identities to
/// instances, in the order in which the identities were first bound.
pub type StoreView = Seq<(InstanceRefView, InstanceView)>;

/// What each entry of a list stands for.
pub open spec fn entry_views(entries: Seq<(InstanceRef, Instance)>) -> StoreView {
    entries.map_values(|e: (InstanceRef, Instance)| (e.0@, e.1@))
}

/// The instances of the graph, each under its identity.
#[derive(Debug, PartialEq)]
pub struct EvaluatorState {
    pub(crate) instances: Vec<(InstanceRef, Instance)>,
}

impl View for EvaluatorState {
    type V = StoreView;

    closed spec fn view(&self) -> StoreView {
        entry_views(self.instances@)
    }
}

impl Default for EvaluatorState {
    fn default() -> (r: Self)
        ensures
            r@ == StoreView::empty(),
    {
        EvaluatorState::new()
    }
}

impl Clone for EvaluatorState {
    fn clone(&self) -> (r: Self)
        ensures
            r@ == self@,
    {
        let mut instances: Vec<(InstanceRef, Instance)> = Vec::new();
        let mut i: usize = 0;
        while i < self.instances.len()
            invariant
                i <= self.instances.len(),
                instances.len() == i,
                forall|n: int|
                    0 <= n < i ==> instances[n].0@ == self.instances[n].0@ && instances[n].1@
                        == self.instances[n].1@,
            decreases self.instances.len() - i,
        {
            instances.push((self.instances[i].0.clone(), self.instances[i].1.clone()));
            i += 1;
        }
        assert(entry_views(instances@) =~= entry_views(self.instances@));
        EvaluatorState { instances }
    }
}

impl EvaluatorState {
    /// The empty store.
    pub fn new() -> (r: Self)
        ensures
            r@ == StoreView::empty(),
    {
        let r = EvaluatorState { instances: Vec::new() };
        assert(r@ =~= StoreView::empty());
        r
    }

    /// The number of instances.
    pub fn len(&self) -> (r: usize)
        ensures
            r == self@.len(),
    {
        self.instances.len()
    }

    /// The identity and the instance at position `index`.
    pub fn entry(&self, index: usize) -> (r: (&InstanceRef, &Instance))
        requires
            index < self@.len(),
        ensures
            (r.0@, r.1@) == self@[index as int],
    {
        (&self.instances[index].0, &self.instances[index].1)
    }

    /// The position of `instance_ref`, or the number of instances if it is
    /// not bound.
    pub fn position(&self, instance_ref: &InstanceRef) -> (r: usize)
        ensures
            r == assoc::find(self@, instance_ref@),
    {
        let mut i: usize = 0;
        while i < self.instances.len()
            invariant
                i <= self.instances.len(),
                forall|j: int| 0 <= j < i ==> (#[trigger] self@[j]).0 != instance_ref@,
            decreases self.instances.len() - i,
        {
            if self.instances[i].0.equals(instance_ref) {
                proof {
                    assoc::lemma_find_is(self@, instance_ref@, i as int);
                }
                return i;
            }
            i += 1;
        }
        proof {
            assoc::lemma_find_is(self@, instance_ref@, i as int);
        }
        i
    }

    /// Whether `instance_ref` is bound.
    pub fn contains(&self, instance_ref: &InstanceRef) -> (r: bool)
        ensures
            r == assoc::has(self@, instance_ref@),
    {
        self.position(instance_ref) < self.instances.len()
    }

    /// The instance bound to `instance_ref`.
    pub fn resolve_instance(&self, instance_ref: &InstanceRef) -> (r: Option<&Instance>)
        ensures
            match r {
                Some(i) => assoc::get(self@, instance_ref@) == Some(i@),
                None => assoc::get(self@, instance_ref@) is None,
            },
    {
        let i = self.position(instance_ref);
        if i < self.instances.len() {
            Some(&self.instances[i].1)
        } else {
            None
        }
    }

    /// Binds `instance_ref` to `instance`, replacing what it was bound to.
    pub fn add_instance(&mut self, instance_ref: &InstanceRef, instance: Instance)
        ensures
            final(self)@ == assoc::put(old(self)@, instance_ref@, instance@),
    {
        let i = self.position(instance_ref);
        if i < self.instances.len() {
            self.instances[i] = (instance_ref.clone(), instance);
        } else {
            self.instances.push((instance_ref.clone(), instance));
        }
        assert(self@ =~= assoc::put(old(self)@, instance_ref@, instance@));
    }

    /// Unbinds `instance_ref` and returns the instance it was bound to.
    pub fn remove_instance(&mut self, instance_ref: &InstanceRef) -> (r: Option<Instance>)
        ensures
            final(self)@ == assoc::without(old(self)@, instance_ref@),
            match r {
                Some(i) => assoc::get(old(self)@, instance_ref@) == Some(i@),
                None => assoc::get(old(self)@, instance_ref@) is None,
            },
    {
        let i = self.position(instance_ref);
        if i < self.instances.len() {
            let entry = self.instances.remove(i);
            assert(self@ =~= assoc::without(old(self)@, instance_ref@));
            Some(entry.1)
        } else {
            None
        }
    }

    /// Appends `connection` to the connections of the instance bound to
    /// `instance_ref`. Returns whether there is such an instance.
    pub fn add_connection(&mut self, instance_ref: &InstanceRef, connection: Connection) -> (r:
        bool)
        ensures
            r == assoc::has(old(self)@, instance_ref@),
            final(self)@ == with_connection(old(self)@, instance_ref@, connection@),
    {
        let i = self.position(instance_ref);
        if i < self.instances.len() {
            self.instances[i].1.add_connection(connection);
            assert(self@ =~= with_connection(old(self)@, instance_ref@, connection@));
            true
        } else {
            false
        }
    }

    /// Binds `attribute` to `value` in the instance bound to `instance_ref`.
    /// Returns whether there is such an instance.
    pub fn add_attribute(
        &mut self,
        instance_ref: &InstanceRef,
        attribute: &Symbol,
        value: AttributeValue,
    ) -> (r: bool)
        ensures
            r == assoc::has(old(self)@, instance_ref@),
            final(self)@ == with_attribute(old(self)@, instance_ref@, attribute@, value@),
    {
        let i = self.position(instance_ref);
        if i < self.instances.len() {
            self.instances[i].1.add_attribute(attribute, value);
            assert(self@ =~= with_attribute(old(self)@, instance_ref@, attribute@, value@));
            true
        } else {
            false
        }
    }

    /// Sets the reference designator of the instance at position `index`.
    pub fn set_reference_designator(&mut self, index: usize, designator: String)
        requires
            index < old(self)@.len(),
        ensures
            final(self)@ == old(self)@.update(
                index as int,
                (
                    old(self)@[index as int].0,
                    InstanceView {
                        reference_designator: Some(designator@),
                        ..old(self)@[index as int].1
                    },
                ),
            ),
    {
        self.instances[index].1.reference_designator = Some(designator);
        assert(self@ =~= old(self)@.update(
            index as int,
            (
                old(self)@[index as int].0,
                InstanceView {
                    reference_designator: Some(designator@),
                    ..old(self)@[index as int].1
                },
            ),
        ));
    }
}

/// `store` with `connection` appended to the connections of the instance
/// bound to `key`; `store` itself where `key` is not bound.
pub open spec fn with_connection(
    store: StoreView,
    key: InstanceRefView,
    connection: crate::instance::ConnectionView,
) -> StoreView {
    match assoc::get(store, key) {
        Some(i) => store.update(
            assoc::find(store, key),
            (
                store[assoc::find(store, key)].0,
                InstanceView { connections: i.connections.push(connection), ..i },
            ),
        ),
        None => store,
    }
}

/// `store` with `attribute` bound to `value` in the instance bound to `key`;
/// `store` itself where `key` is not bound.
pub open spec fn with_attribute(
    store: StoreView,
    key: InstanceRefView,
    attribute: Seq<char>,
    value: crate::instance::AttributeValueView,
) -> StoreView {
    match assoc::get(store, key) {
        Some(i) => store.update(
            assoc::find(store, key),
            (
                store[assoc::find(store, key)].0,
                InstanceView { attributes: assoc::put(i.attributes, attribute, value), ..i },
            ),
        ),
        None => store,
    }
}

} // verus!
