//! The instance graph's data model: type and instance identities, instances,
//! attribute values and connections.

use vstd::prelude::*;
use crate::assoc;
use crate::ast::{symbol_texts, Expr, Symbol};
use crate::location::{Location, LocationView};
use crate::text::{concat_text, copy_text, joined, owned_text, same_text};

verus! {

/// Identifies a declared type: the file that declares it and its name.
#[derive(Debug, PartialEq, Eq, Hash)]
pub struct ModuleRef {
    pub source_path: String,
    pub module_name: Symbol,
}

/// What a [`ModuleRef`] stands for.
pub struct ModuleRefView {
    pub source_path: Seq<char>,
    pub module_name: Seq<char>,
}

impl View for ModuleRef {
    type V = ModuleRefView;

    open spec fn view(&self) -> ModuleRefView {
        ModuleRefView { source_path: self.source_path@, module_name: self.module_name@ }
    }
}

impl Clone for ModuleRef {
    fn clone(&self) -> (r: Self)
        ensures
            r@ == self@,
    {
        ModuleRef { source_path: copy_text(&self.source_path), module_name: self.module_name.clone() }
    }
}

/// The type identity that ports and pins carry: no file, no name.
pub open spec fn leaf_type() -> ModuleRefView {
    ModuleRefView { source_path: Seq::empty(), module_name: Seq::empty() }
}

/// A type identity as displayed: `file:Name`.
pub open spec fn module_ref_text(m: ModuleRefView) -> Seq<char> {
    m.source_path + ":"@ + m.module_name
}

/// `base` followed by `.part` for each part of `path`.
pub open spec fn dotted(base: Seq<char>, path: Seq<Seq<char>>) -> Seq<char>
    decreases path.len(),
{
    if path.len() == 0 {
        base
    } else {
        dotted(base, path.drop_last()) + "."@ + path.last()
    }
}

/// An instance identity as displayed: `file:Name.a.b`.
pub open spec fn instance_ref_text(r: InstanceRefView) -> Seq<char> {
    dotted(module_ref_text(r.module), r.path)
}

impl ModuleRef {
    /// The type `module_name` declared in `source_path`.
    pub fn new(source_path: &str, module_name: &Symbol) -> (r: Self)
        ensures
            r@ == (ModuleRefView { source_path: source_path@, module_name: module_name@ }),
    {
        ModuleRef { source_path: owned_text(source_path), module_name: module_name.clone() }
    }

    /// The type identity of a port.
    pub fn port() -> (r: Self)
        ensures
            r@ == leaf_type(),
    {
        ModuleRef { source_path: String::new(), module_name: Symbol(String::new()) }
    }

    /// The type identity of a pin.
    pub fn pin() -> (r: Self)
        ensures
            r@ == leaf_type(),
    {
        ModuleRef { source_path: String::new(), module_name: Symbol(String::new()) }
    }

    /// Whether both identify the same type.
    pub fn equals(&self, other: &ModuleRef) -> (r: bool)
        ensures
            r == (self@ == other@),
    {
        same_text(&self.source_path, &other.source_path) && self.module_name.equals(
            &other.module_name,
        )
    }

    /// Writes the identity as `file:Name`.
    pub fn to_string(&self) -> (r: String)
        ensures
            r@ == module_ref_text(self@),
    {
        concat_text(concat_text(copy_text(&self.source_path), ":"), self.module_name.as_str())
    }
}

/// Identifies an instantiated node: the type at the root and the path of
/// names from that root. The empty path is the root itself.
#[derive(Debug, PartialEq, Eq, Hash)]
pub struct InstanceRef {
    pub module: ModuleRef,
    pub instance_path: Vec<Symbol>,
}

/// What an [`InstanceRef`] stands for.
pub struct InstanceRefView {
    pub module: ModuleRefView,
    pub path: Seq<Seq<char>>,
}

impl View for InstanceRef {
    type V = InstanceRefView;

    open spec fn view(&self) -> InstanceRefView {
        InstanceRefView { module: self.module@, path: symbol_texts(self.instance_path@) }
    }
}

/// A copy of a list of symbols.
pub fn copy_symbols(symbols: &Vec<Symbol>) -> (r: Vec<Symbol>)
    ensures
        symbol_texts(r@) == symbol_texts(symbols@),
        r.len() == symbols.len(),
        forall|j: int| 0 <= j < r.len() ==> r[j]@ == symbols[j]@,
{
    let mut out: Vec<Symbol> = Vec::new();
    let mut i: usize = 0;
    while i < symbols.len()
        invariant
            i <= symbols.len(),
            out.len() == i,
            forall|j: int| 0 <= j < i ==> out[j]@ == symbols[j]@,
        decreases symbols.len() - i,
    {
        out.push(symbols[i].clone());
        i += 1;
    }
    assert(symbol_texts(out@) =~= symbol_texts(symbols@));
    out
}

/// Whether `a[from..]` begins with all of `prefix`.
pub open spec fn starts_with(a: Seq<Seq<char>>, prefix: Seq<Seq<char>>) -> bool {
    prefix.len() <= a.len() && a.take(prefix.len() as int) == prefix
}

/// Tests whether the path `a` begins with the path `prefix`.
pub fn path_starts_with(a: &Vec<Symbol>, prefix: &Vec<Symbol>) -> (r: bool)
    ensures
        r == starts_with(symbol_texts(a@), symbol_texts(prefix@)),
{
    if prefix.len() > a.len() {
        return false;
    }
    let mut i: usize = 0;
    while i < prefix.len()
        invariant
            i <= prefix.len() <= a.len(),
            forall|j: int| 0 <= j < i ==> a[j]@ == prefix[j]@,
        decreases prefix.len() - i,
    {
        if !a[i].equals(&prefix[i]) {
            proof {
                let ta = symbol_texts(a@).take(prefix.len() as int);
                assert(ta[i as int] == a[i as int]@);
                assert(symbol_texts(prefix@)[i as int] == prefix[i as int]@);
            }
            return false;
        }
        i += 1;
    }
    assert(symbol_texts(a@).take(prefix.len() as int) =~= symbol_texts(prefix@));
    true
}

impl Clone for InstanceRef {
    fn clone(&self) -> (r: Self)
        ensures
            r@ == self@,
    {
        InstanceRef { module: self.module.clone(), instance_path: copy_symbols(&self.instance_path) }
    }
}

impl InstanceRef {
    /// The instance at `instance_path` under the root of `module`.
    pub fn new(module: &ModuleRef, instance_path: Vec<Symbol>) -> (r: Self)
        ensures
            r@ == (InstanceRefView { module: module@, path: symbol_texts(instance_path@) }),
    {
        InstanceRef { module: module.clone(), instance_path }
    }

    /// The root instance of `module`.
    pub fn root(module: &ModuleRef) -> (r: Self)
        ensures
            r@ == (InstanceRefView { module: module@, path: Seq::empty() }),
    {
        let r = InstanceRef { module: module.clone(), instance_path: Vec::new() };
        assert(r@.path =~= Seq::empty());
        r
    }

    /// Drops the last name of the path and returns it, if there is one.
    pub fn pop(&mut self) -> (r: Option<Symbol>)
        ensures
            final(self)@.module == old(self)@.module,
            old(self)@.path.len() == 0 ==> r is None && final(self)@ == old(self)@,
            old(self)@.path.len() > 0 ==> r is Some && r->0@ == old(self)@.path.last()
                && final(self)@.path == old(self)@.path.drop_last(),
    {
        let r = self.instance_path.pop();
        proof {
            if old(self).instance_path@.len() > 0 {
                assert(symbol_texts(self.instance_path@) =~= symbol_texts(
                    old(self).instance_path@,
                ).drop_last());
            } else {
                assert(symbol_texts(self.instance_path@) =~= symbol_texts(old(self).instance_path@));
            }
        }
        r
    }

    /// The number of names in the path.
    pub fn len(&self) -> (r: usize)
        ensures
            r == self@.path.len(),
    {
        self.instance_path.len()
    }

    /// Whether both identify the same instance.
    pub fn equals(&self, other: &InstanceRef) -> (r: bool)
        ensures
            r == (self@ == other@),
    {
        if !self.module.equals(&other.module) {
            return false;
        }
        if self.instance_path.len() != other.instance_path.len() {
            assert(self@.path.len() != other@.path.len());
            return false;
        }
        let r = path_starts_with(&self.instance_path, &other.instance_path);
        proof {
            let a = symbol_texts(self.instance_path@);
            assert(a.take(a.len() as int) =~= a);
        }
        r
    }

    /// The identity of the child `name` of this instance.
    pub fn child(&self, name: &Symbol) -> (r: Self)
        ensures
            r@ == (InstanceRefView { module: self@.module, path: self@.path.push(name@) }),
    {
        let mut path = copy_symbols(&self.instance_path);
        path.push(name.clone());
        let r = InstanceRef { module: self.module.clone(), instance_path: path };
        assert(r@.path =~= self@.path.push(name@));
        r
    }

    /// Writes the identity as `file:Name.a.b`.
    pub fn to_string(&self) -> (r: String)
        ensures
            r@ == instance_ref_text(self@),
    {
        let mut out = self.module.to_string();
        let mut i: usize = 0;
        while i < self.instance_path.len()
            invariant
                i <= self.instance_path.len(),
                out@ == dotted(module_ref_text(self@.module), self@.path.take(i as int)),
            decreases self.instance_path.len() - i,
        {
            proof {
                let next = self@.path.take(i + 1);
                assert(next.drop_last() =~= self@.path.take(i as int));
                assert(next.last() == self.instance_path[i as int]@);
            }
            out = concat_text(concat_text(out, "."), self.instance_path[i].as_str());
            i += 1;
        }
        assert(self@.path.take(self.instance_path.len() as int) =~= self@.path);
        out
    }
}

/// What kind of node an instance is.
#[derive(Debug, Clone, Copy, PartialEq, Eq, Structural)]
pub enum InstanceKind {
    Module,
    Component,
    Interface,
    Port,
    Pin,
}

/// The name of a kind.
pub open spec fn kind_text(kind: InstanceKind) -> Seq<char> {
    match kind {
        InstanceKind::Module => "Module"@,
        InstanceKind::Component => "Component"@,
        InstanceKind::Interface => "Interface"@,
        InstanceKind::Port => "Port"@,
        InstanceKind::Pin => "Pin"@,
    }
}

impl InstanceKind {
    /// Writes the name of the kind.
    pub fn to_string(&self) -> (r: String)
        ensures
            r@ == kind_text(*self),
    {
        match self {
            InstanceKind::Module => owned_text("Module"),
            InstanceKind::Component => owned_text("Component"),
            InstanceKind::Interface => owned_text("Interface"),
            InstanceKind::Port => owned_text("Port"),
            InstanceKind::Pin => owned_text("Pin"),
        }
    }
}

/// The value of an attribute. A number is kept as the text of its literal.
#[derive(Debug, PartialEq)]
pub enum AttributeValue {
    String(String),
    Number(String),
    Boolean(bool),
    Physical(String),
    Port(String),
    Array(Vec<AttributeValue>),
}

/// What an [`AttributeValue`] stands for.
pub enum AttributeValueView {
    String(Seq<char>),
    Number(Seq<char>),
    Boolean(bool),
    Physical(Seq<char>),
    Port(Seq<char>),
    Array(Seq<AttributeValueView>),
}

/// What each value of a list stands for.
pub open spec fn value_views(values: Seq<AttributeValue>) -> Seq<AttributeValueView>
    decreases values, 1int,
{
    if values.len() == 0 {
        Seq::empty()
    } else {
        value_views(values.drop_last()).push(value_view(values.last()))
    }
}

/// What a value stands for.
pub open spec fn value_view(value: AttributeValue) -> AttributeValueView
    decreases value, 0int,
{
    match value {
        AttributeValue::String(s) => AttributeValueView::String(s@),
        AttributeValue::Number(s) => AttributeValueView::Number(s@),
        AttributeValue::Boolean(b) => AttributeValueView::Boolean(b),
        AttributeValue::Physical(s) => AttributeValueView::Physical(s@),
        AttributeValue::Port(s) => AttributeValueView::Port(s@),
        AttributeValue::Array(v) => AttributeValueView::Array(value_views(v@)),
    }
}

impl View for AttributeValue {
    type V = AttributeValueView;

    open spec fn view(&self) -> AttributeValueView {
        value_view(*self)
    }
}

/// Copies the first `n` values of a list.
fn copy_values(values: &Vec<AttributeValue>, n: usize) -> (r: Vec<AttributeValue>)
    requires
        n <= values.len(),
    ensures
        value_views(r@) == value_views(values@.take(n as int)),
    decreases values, n,
{
    if n == 0 {
        Vec::new()
    } else {
        let mut out = copy_values(values, n - 1);
        let ghost before = out@;
        proof {
            vstd::std_specs::vec::axiom_vec_index_decreases(*values, n - 1);
        }
        let item = copy_value(&values[n - 1]);
        out.push(item);
        proof {
            assert(out@.drop_last() =~= before);
            assert(values@.take(n as int).drop_last() =~= values@.take(n - 1));
        }
        out
    }
}

/// Copies a value.
fn copy_value(value: &AttributeValue) -> (r: AttributeValue)
    ensures
        r@ == value@,
    decreases value, 0nat,
{
    match value {
        AttributeValue::String(s) => AttributeValue::String(copy_text(s)),
        AttributeValue::Number(s) => AttributeValue::Number(copy_text(s)),
        AttributeValue::Boolean(b) => AttributeValue::Boolean(*b),
        AttributeValue::Physical(s) => AttributeValue::Physical(copy_text(s)),
        AttributeValue::Port(s) => AttributeValue::Port(copy_text(s)),
        AttributeValue::Array(v) => {
            let out = copy_values(v, v.len());
            assert(v@.take(v.len() as int) =~= v@);
            AttributeValue::Array(out)
        },
    }
}

impl Clone for AttributeValue {
    fn clone(&self) -> (r: Self)
        ensures
            r@ == self@,
    {
        copy_value(self)
    }
}

/// The attribute value that an expression assigns: texts, number literals,
/// booleans, physical values and port references as displayed; the empty
/// text for anything else.
pub open spec fn expr_value(expr: Expr) -> AttributeValueView {
    match expr {
        Expr::String(s) => AttributeValueView::String(s.0@),
        Expr::Number(n) => AttributeValueView::Number(n.0@),
        Expr::Bool(b) => AttributeValueView::Boolean(b.0),
        Expr::Physical(p) => AttributeValueView::Physical(p.0.text()),
        Expr::Port(p) => AttributeValueView::Port(p.0.text()),
        _ => AttributeValueView::String(Seq::empty()),
    }
}

impl From<String> for AttributeValue {
    fn from(s: String) -> (r: Self) {
        AttributeValue::String(s)
    }
}

impl vstd::std_specs::convert::FromSpecImpl<String> for AttributeValue {
    open spec fn obeys_from_spec() -> bool {
        true
    }

    open spec fn from_spec(s: String) -> Self {
        AttributeValue::String(s)
    }
}

impl From<bool> for AttributeValue {
    fn from(b: bool) -> (r: Self) {
        AttributeValue::Boolean(b)
    }
}

impl vstd::std_specs::convert::FromSpecImpl<bool> for AttributeValue {
    open spec fn obeys_from_spec() -> bool {
        true
    }

    open spec fn from_spec(b: bool) -> Self {
        AttributeValue::Boolean(b)
    }
}

impl AttributeValue {
    /// The attribute value that `expr` assigns.
    pub fn from_expr(expr: &Expr) -> (r: Self)
        ensures
            r@ == expr_value(*expr),
    {
        match expr {
            Expr::String(s) => AttributeValue::String(copy_text(&s.0)),
            Expr::Number(n) => AttributeValue::Number(copy_text(&n.0)),
            Expr::Bool(b) => AttributeValue::Boolean(b.0),
            Expr::Physical(p) => AttributeValue::Physical(p.0.to_string()),
            Expr::Port(p) => AttributeValue::Port(p.0.to_string()),
            _ => AttributeValue::String(String::new()),
        }
    }
}

/// A wire between two instances. Which side is left carries no meaning.
#[derive(Debug, PartialEq, Eq)]
pub struct Connection {
    pub left: InstanceRef,
    pub right: InstanceRef,
}

/// What a [`Connection`] stands for.
pub struct ConnectionView {
    pub left: InstanceRefView,
    pub right: InstanceRefView,
}

impl View for Connection {
    type V = ConnectionView;

    open spec fn view(&self) -> ConnectionView {
        ConnectionView { left: self.left@, right: self.right@ }
    }
}

impl Clone for Connection {
    fn clone(&self) -> (r: Self)
        ensures
            r@ == self@,
    {
        Connection { left: self.left.clone(), right: self.right.clone() }
    }
}

impl Connection {
    /// The wire between `left` and `right`.
    pub fn new(left: InstanceRef, right: InstanceRef) -> (r: Self)
        ensures
            r@ == (ConnectionView { left: left@, right: right@ }),
    {
        Connection { left, right }
    }
}

/// What each named attribute of a list stands for.
pub open spec fn attribute_views(entries: Seq<(Symbol, AttributeValue)>) -> Seq<
    (Seq<char>, AttributeValueView),
> {
    entries.map_values(|e: (Symbol, AttributeValue)| (e.0@, e.1@))
}

/// What each named child of a list stands for.
pub open spec fn child_views(entries: Seq<(Symbol, InstanceRef)>) -> Seq<
    (Seq<char>, InstanceRefView),
> {
    entries.map_values(|e: (Symbol, InstanceRef)| (e.0@, e.1@))
}

/// What each connection of a list stands for.
pub open spec fn connection_views(connections: Seq<Connection>) -> Seq<ConnectionView> {
    connections.map_values(|c: Connection| c@)
}

/// One node of the instance graph.
#[derive(Debug, PartialEq)]
pub struct Instance {
    /// The type the instance was created from.
    pub type_ref: ModuleRef,
    pub kind: InstanceKind,
    /// Attribute values by name; no name occurs twice.
    pub attributes: Vec<(Symbol, AttributeValue)>,
    /// Child identities by name; no name occurs twice.
    pub children: Vec<(Symbol, InstanceRef)>,
    pub connections: Vec<Connection>,
    pub reference_designator: Option<String>,
    /// Where the instance was declared.
    pub location: Location,
}

/// What an [`Instance`] stands for. Attributes and children are association
/// lists in the order in which the names were first bound.
pub struct InstanceView {
    pub type_ref: ModuleRefView,
    pub kind: InstanceKind,
    pub attributes: Seq<(Seq<char>, AttributeValueView)>,
    pub children: Seq<(Seq<char>, InstanceRefView)>,
    pub connections: Seq<ConnectionView>,
    pub reference_designator: Option<Seq<char>>,
    pub location: LocationView,
}

impl View for Instance {
    type V = InstanceView;

    open spec fn view(&self) -> InstanceView {
        InstanceView {
            type_ref: self.type_ref@,
            kind: self.kind,
            attributes: attribute_views(self.attributes@),
            children: child_views(self.children@),
            connections: connection_views(self.connections@),
            reference_designator: match self.reference_designator {
                Some(d) => Some(d@),
                None => None,
            },
            location: self.location@,
        }
    }
}

/// An instance of `type_ref` and `kind` declared at `location`, with no
/// attributes, children or connections.
pub open spec fn empty_instance(
    type_ref: ModuleRefView,
    kind: InstanceKind,
    location: LocationView,
) -> InstanceView {
    InstanceView {
        type_ref,
        kind,
        attributes: Seq::empty(),
        children: Seq::empty(),
        connections: Seq::empty(),
        reference_designator: None,
        location,
    }
}

/// The index of the first attribute named `name`, or the length of the list.
fn find_attribute(entries: &Vec<(Symbol, AttributeValue)>, name: &Symbol) -> (r: usize)
    ensures
        r == assoc::find(attribute_views(entries@), name@),
{
    let mut i: usize = 0;
    while i < entries.len()
        invariant
            i <= entries.len(),
            forall|j: int| 0 <= j < i ==> (#[trigger] attribute_views(entries@)[j]).0 != name@,
        decreases entries.len() - i,
    {
        if entries[i].0.equals(name) {
            proof {
                assoc::lemma_find_is(attribute_views(entries@), name@, i as int);
            }
            return i;
        }
        i += 1;
    }
    proof {
        assoc::lemma_find_is(attribute_views(entries@), name@, i as int);
    }
    i
}

/// The index of the first child named `name`, or the length of the list.
fn find_child(entries: &Vec<(Symbol, InstanceRef)>, name: &Symbol) -> (r: usize)
    ensures
        r == assoc::find(child_views(entries@), name@),
{
    let mut i: usize = 0;
    while i < entries.len()
        invariant
            i <= entries.len(),
            forall|j: int| 0 <= j < i ==> (#[trigger] child_views(entries@)[j]).0 != name@,
        decreases entries.len() - i,
    {
        if entries[i].0.equals(name) {
            proof {
                assoc::lemma_find_is(child_views(entries@), name@, i as int);
            }
            return i;
        }
        i += 1;
    }
    proof {
        assoc::lemma_find_is(child_views(entries@), name@, i as int);
    }
    i
}

impl Clone for Instance {
    fn clone(&self) -> (r: Self)
        ensures
            r@ == self@,
    {
        let mut attributes: Vec<(Symbol, AttributeValue)> = Vec::new();
        let mut i: usize = 0;
        while i < self.attributes.len()
            invariant
                i <= self.attributes.len(),
                attributes.len() == i,
                forall|n: int|
                    0 <= n < i ==> attributes[n].0@ == self.attributes[n].0@ && attributes[n].1@
                        == self.attributes[n].1@,
            decreases self.attributes.len() - i,
        {
            attributes.push((self.attributes[i].0.clone(), self.attributes[i].1.clone()));
            i += 1;
        }
        let mut children: Vec<(Symbol, InstanceRef)> = Vec::new();
        let mut j: usize = 0;
        while j < self.children.len()
            invariant
                j <= self.children.len(),
                children.len() == j,
                forall|n: int|
                    0 <= n < j ==> children[n].0@ == self.children[n].0@ && children[n].1@
                        == self.children[n].1@,
            decreases self.children.len() - j,
        {
            children.push((self.children[j].0.clone(), self.children[j].1.clone()));
            j += 1;
        }
        let mut connections: Vec<Connection> = Vec::new();
        let mut k: usize = 0;
        while k < self.connections.len()
            invariant
                k <= self.connections.len(),
                connections.len() == k,
                forall|n: int| 0 <= n < k ==> connections[n]@ == self.connections[n]@,
            decreases self.connections.len() - k,
        {
            connections.push(self.connections[k].clone());
            k += 1;
        }
        proof {
            assert(attribute_views(attributes@) =~= attribute_views(self.attributes@));
            assert(child_views(children@) =~= child_views(self.children@));
            assert(connection_views(connections@) =~= connection_views(self.connections@));
        }
        Instance {
            type_ref: self.type_ref.clone(),
            kind: self.kind,
            attributes,
            children,
            connections,
            reference_designator: match &self.reference_designator {
                Some(d) => Some(copy_text(d)),
                None => None,
            },
            location: self.location.clone(),
        }
    }
}

impl Instance {
    /// An empty instance of the type `module` and of `kind`, declared at
    /// `location`.
    pub fn new(module: &ModuleRef, kind: InstanceKind, location: &Location) -> (r: Self)
        ensures
            r@ == empty_instance(module@, kind, location@),
    {
        let r = Instance {
            type_ref: module.clone(),
            kind,
            attributes: Vec::new(),
            children: Vec::new(),
            connections: Vec::new(),
            reference_designator: None,
            location: location.clone(),
        };
        proof {
            assert(r@.attributes =~= Seq::empty());
            assert(r@.children =~= Seq::empty());
            assert(r@.connections =~= Seq::empty());
        }
        r
    }

    /// An empty port declared at `location`.
    pub fn port(location: &Location) -> (r: Self)
        ensures
            r@ == empty_instance(leaf_type(), InstanceKind::Port, location@),
    {
        Instance::new(&ModuleRef::port(), InstanceKind::Port, location)
    }

    /// An empty pin declared at `location`.
    pub fn pin(location: &Location) -> (r: Self)
        ensures
            r@ == empty_instance(leaf_type(), InstanceKind::Pin, location@),
    {
        Instance::new(&ModuleRef::pin(), InstanceKind::Pin, location)
    }

    /// Binds the attribute `attribute` to `value`, replacing what it was
    /// bound to.
    pub fn add_attribute(&mut self, attribute: &Symbol, value: AttributeValue)
        ensures
            final(self)@ == (InstanceView {
                attributes: assoc::put(old(self)@.attributes, attribute@, value@),
                ..old(self)@
            }),
    {
        let i = find_attribute(&self.attributes, attribute);
        if i < self.attributes.len() {
            self.attributes[i] = (attribute.clone(), value);
            proof {
                assert(attribute_views(self.attributes@) =~= assoc::put(
                    old(self)@.attributes,
                    attribute@,
                    value@,
                ));
            }
        } else {
            self.attributes.push((attribute.clone(), value));
            proof {
                assert(attribute_views(self.attributes@) =~= assoc::put(
                    old(self)@.attributes,
                    attribute@,
                    value@,
                ));
            }
        }
    }

    /// Binds the child name `child` to `instance_ref`, replacing what it was
    /// bound to.
    pub fn add_child(&mut self, child: &Symbol, instance_ref: &InstanceRef)
        ensures
            final(self)@ == (InstanceView {
                children: assoc::put(old(self)@.children, child@, instance_ref@),
                ..old(self)@
            }),
    {
        let i = find_child(&self.children, child);
        if i < self.children.len() {
            self.children[i] = (child.clone(), instance_ref.clone());
            proof {
                assert(child_views(self.children@) =~= assoc::put(
                    old(self)@.children,
                    child@,
                    instance_ref@,
                ));
            }
        } else {
            self.children.push((child.clone(), instance_ref.clone()));
            proof {
                assert(child_views(self.children@) =~= assoc::put(
                    old(self)@.children,
                    child@,
                    instance_ref@,
                ));
            }
        }
    }

    /// Appends `connection` to the instance's connections.
    pub fn add_connection(&mut self, connection: Connection)
        ensures
            final(self)@ == (InstanceView {
                connections: old(self)@.connections.push(connection@),
                ..old(self)@
            }),
    {
        self.connections.push(connection);
        proof {
            assert(connection_views(self.connections@) =~= old(self)@.connections.push(
                connection@,
            ));
        }
    }
}

} // verus!
