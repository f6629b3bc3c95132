//! The statement trees that the evaluator consumes.

use vstd::prelude::*;
use crate::span::{Spanned, Span};
use crate::text::{concat_text, copy_text, joined, owned_text, same_text};

verus! {

/// The name of a type, an instance or an attribute.
#[derive(Debug, PartialEq, Eq, Hash)]
pub struct Symbol(pub String);

impl View for Symbol {
    type V = Seq<char>;

    open spec fn view(&self) -> Seq<char> {
        self.0@
    }
}

impl Clone for Symbol {
    fn clone(&self) -> (r: Self)
        ensures
            r@ == self@,
    {
        Symbol(copy_text(&self.0))
    }
}

impl From<String> for Symbol {
    fn from(s: String) -> (r: Self) {
        Symbol(s)
    }
}

impl vstd::std_specs::convert::FromSpecImpl<String> for Symbol {
    open spec fn obeys_from_spec() -> bool {
        true
    }

    open spec fn from_spec(s: String) -> Self {
        Symbol(s)
    }
}

impl From<Symbol> for String {
    fn from(symbol: Symbol) -> (r: Self) {
        symbol.0
    }
}

impl vstd::std_specs::convert::FromSpecImpl<Symbol> for String {
    open spec fn obeys_from_spec() -> bool {
        true
    }

    open spec fn from_spec(symbol: Symbol) -> Self {
        symbol.0
    }
}

impl Symbol {
    /// A symbol with the text of `s`.
    pub fn new(s: &str) -> (r: Self)
        ensures
            r@ == s@,
    {
        Symbol(owned_text(s))
    }

    /// Whether both symbols hold the same text.
    pub fn equals(&self, other: &Symbol) -> (r: bool)
        ensures
            r == (self@ == other@),
    {
        same_text(&self.0, &other.0)
    }

    /// The symbol's text.
    pub fn as_str(&self) -> (r: &str)
        ensures
            r@ == self@,
    {
        self.0.as_str()
    }
}

/// The texts of a sequence of symbols.
pub open spec fn symbol_texts(symbols: Seq<Symbol>) -> Seq<Seq<char>> {
    symbols.map_values(|s: Symbol| s@)
}

/// One statement of a source file.
#[derive(Debug, PartialEq)]
pub enum Stmt {
    /// `from "file.ato" import Module`
    Import(ImportStmt),
    /// `import Module from "file.ato"`
    DepImport(DepImportStmt),
    /// `v: voltage`
    Attribute(AttributeStmt),
    /// `r1 = new Resistor`
    Assign(AssignStmt),
    /// `m.xtal -> ecsXXX`
    Specialize(SpecializeStmt),
    /// `a ~ b`
    Connect(ConnectStmt),
    /// `module M:`, `component C:`, `interface I:`
    Block(BlockStmt),
    /// `signal a`
    Signal(SignalStmt),
    /// `pin A1`
    Pin(PinStmt),
    /// `assert 10kohm within 5%`
    Assert(AssertStmt),
    /// `# comment`
    Comment(CommentStmt),
    /// `pass`
    Pass,
    /// Text that could not be parsed, with the parser's message.
    ParseError(String),
}

impl Stmt {
    /// A parse-error statement with message `msg` at `span`.
    pub fn spanned_error(msg: &str, span: Span) -> (r: Spanned<Stmt>)
        ensures
            r.0 matches Stmt::ParseError(m) && m@ == msg@,
            r.1 == span,
    {
        Spanned(Stmt::ParseError(owned_text(msg)), span)
    }
}

/// `from "file.ato" import A, B`: the path and the imported names.
#[derive(Debug, Clone, PartialEq)]
pub struct ImportStmt {
    pub from_path: Spanned<String>,
    pub imports: Vec<Spanned<Symbol>>,
}

/// `import A from "file.ato"`: the imported name and the path.
#[derive(Debug, Clone, PartialEq)]
pub struct DepImportStmt {
    pub name: Spanned<Symbol>,
    pub from_path: Spanned<String>,
}

/// `name: type`: the declaration of an attribute and its type.
#[derive(Debug, Clone, PartialEq)]
pub struct AttributeStmt {
    pub name: Spanned<Symbol>,
    pub type_info: Spanned<Symbol>,
}

/// `target = value`, with an optional type after the target.
#[derive(Debug, PartialEq)]
pub struct AssignStmt {
    pub target: Spanned<PortRef>,
    pub type_info: Option<Spanned<String>>,
    pub value: Spanned<Expr>,
}

/// `left ~ right`: the two sides of a connection.
#[derive(Debug, Clone, PartialEq)]
pub struct ConnectStmt {
    pub left: Spanned<Connectable>,
    pub right: Spanned<Connectable>,
}

/// A dotted path such as `a.b.c`.
#[derive(Debug, Clone, PartialEq)]
pub struct PortRef {
    pub parts: Vec<Spanned<String>>,
}

/// The texts of the parts of a dotted path.
pub open spec fn part_texts(parts: Seq<Spanned<String>>) -> Seq<Seq<char>> {
    parts.map_values(|p: Spanned<String>| p.0@)
}

impl PortRef {
    /// The parts of the path as texts.
    pub open spec fn path(&self) -> Seq<Seq<char>> {
        part_texts(self.parts@)
    }

    /// The path written with dots: `a.b.c`.
    pub open spec fn text(&self) -> Seq<char> {
        joined(self.path(), "."@)
    }

    /// The parts of the path as symbols.
    pub fn symbols(&self) -> (r: Vec<Symbol>)
        ensures
            symbol_texts(r@) == self.path(),
    {
        let mut out: Vec<Symbol> = Vec::new();
        let mut i: usize = 0;
        while i < self.parts.len()
            invariant
                i <= self.parts.len(),
                out.len() == i,
                forall|j: int| 0 <= j < i ==> out[j]@ == self.parts[j].0@,
            decreases self.parts.len() - i,
        {
            out.push(Symbol(copy_text(&self.parts[i].0)));
            i += 1;
        }
        assert(symbol_texts(out@) =~= self.path());
        out
    }

    /// The path written with dots: `a.b.c`.
    pub fn to_string(&self) -> (r: String)
        ensures
            r@ == self.text(),
    {
        let mut out = String::new();
        let mut i: usize = 0;
        while i < self.parts.len()
            invariant
                i <= self.parts.len(),
                out@ == joined(self.path().take(i as int), "."@),
            decreases self.parts.len() - i,
        {
            proof {
                let next = self.path().take(i + 1);
                assert(next.drop_last() =~= self.path().take(i as int));
                assert(next.last() == self.parts[i as int].0@);
                if i == 0 {
                    assert(out@ =~= Seq::<char>::empty());
                    assert(Seq::<char>::empty() + self.parts[0].0@ =~= self.parts[0].0@);
                }
            }
            if i > 0 {
                out = concat_text(out, ".");
            }
            out = concat_text(out, self.parts[i].0.as_str());
            i += 1;
        }
        assert(self.path().take(self.parts.len() as int) =~= self.path());
        out
    }
}

/// One side of a connection.
#[derive(Debug, Clone, PartialEq)]
pub enum Connectable {
    Port(Spanned<PortRef>),
    Pin(Spanned<String>),
    Signal(Spanned<String>),
}

/// A `module`, `component` or `interface` declaration with its body.
#[derive(Debug, PartialEq)]
pub struct BlockStmt {
    pub kind: Spanned<BlockKind>,
    pub name: Spanned<Symbol>,
    pub parent: Option<Spanned<Symbol>>,
    pub body: Vec<Spanned<Stmt>>,
}

/// What kind of type a block declares.
#[derive(Debug, Clone, Copy, PartialEq, Eq, Structural)]
pub enum BlockKind {
    Component,
    Module,
    Interface,
}

/// A block that declares a component.
#[derive(Debug, PartialEq)]
pub struct ComponentStmt(pub Spanned<BlockStmt>);

/// A block that declares a module.
#[derive(Debug, PartialEq)]
pub struct ModuleStmt(pub Spanned<BlockStmt>);

/// A block that declares an interface.
#[derive(Debug, PartialEq)]
pub struct InterfaceStmt(pub Spanned<BlockStmt>);

/// `signal name`.
#[derive(Debug, Clone, PartialEq)]
pub struct SignalStmt {
    pub name: Spanned<Symbol>,
}

/// `pin name`.
#[derive(Debug, Clone, PartialEq)]
pub struct PinStmt {
    pub name: Spanned<Symbol>,
}

/// `assert expr`.
#[derive(Debug, PartialEq)]
pub struct AssertStmt {
    pub expr: Spanned<Expr>,
}

/// `# text`.
#[derive(Debug, Clone, PartialEq)]
pub struct CommentStmt {
    pub comment: Spanned<String>,
}

/// `path -> Type`.
#[derive(Debug, Clone, PartialEq)]
pub struct SpecializeStmt {
    pub port: Spanned<PortRef>,
    pub value: Spanned<Symbol>,
}

/// The right-hand side of an assignment, or an asserted expression.
#[derive(Debug, PartialEq)]
pub enum Expr {
    String(Spanned<String>),
    Number(Spanned<String>),
    Port(Spanned<PortRef>),
    New(Spanned<Symbol>),
    Bool(Spanned<bool>),
    BinaryOp(Box<Spanned<BinaryOp>>),
    Physical(Spanned<PhysicalValue>),
}

/// Two expressions with an operator between them.
#[derive(Debug, PartialEq)]
pub struct BinaryOp {
    pub left: Spanned<Expr>,
    pub op: Spanned<BinaryOperator>,
    pub right: Spanned<Expr>,
}

/// The operators of expressions.
#[derive(Debug, Clone, Copy, PartialEq, Eq, Structural)]
pub enum BinaryOperator {
    Add,
    Sub,
    Mul,
    Div,
    Pow,
    Eq,
    Neq,
    Gt,
    Gte,
    Lt,
    Lte,
    Within,
}

/// A number with an optional unit and tolerance, such as `10kohm +/- 5%`.
#[derive(Debug, Clone, PartialEq)]
pub struct PhysicalValue {
    pub value: Spanned<String>,
    pub unit: Option<Spanned<String>>,
    pub tolerance: Option<Spanned<Tolerance>>,
}

/// How far a physical value may be off: by a share or an amount to either
/// side, or between two bounds.
#[derive(Debug, Clone, PartialEq)]
pub enum Tolerance {
    Bilateral { value: Spanned<String>, unit: Option<Spanned<String>> },
    Bound { min: Spanned<String>, max: Spanned<String> },
}

impl Tolerance {
    /// The tolerance as displayed: `± 5%`, `± 1kohm` or `(0 to 5)`.
    pub open spec fn text(&self) -> Seq<char> {
        match self {
            Tolerance::Bilateral { value, unit } => "± "@ + value.0@ + match unit {
                Some(u) => u.0@,
                None => "%"@,
            },
            Tolerance::Bound { min, max } => "("@ + min.0@ + " to "@ + max.0@ + ")"@,
        }
    }

    /// The tolerance as displayed.
    pub fn to_string(&self) -> (r: String)
        ensures
            r@ == self.text(),
    {
        match self {
            Tolerance::Bilateral { value, unit } => {
                let head = concat_text(owned_text("± "), value.0.as_str());
                match unit {
                    Some(u) => concat_text(head, u.0.as_str()),
                    None => concat_text(head, "%"),
                }
            },
            Tolerance::Bound { min, max } => {
                let a = concat_text(owned_text("("), min.0.as_str());
                let b = concat_text(a, " to ");
                let c = concat_text(b, max.0.as_str());
                concat_text(c, ")")
            },
        }
    }
}

impl PhysicalValue {
    /// The value as displayed: the number, the unit, a space, the tolerance.
    pub open spec fn text(&self) -> Seq<char> {
        self.value.0@ + match self.unit {
            Some(u) => u.0@,
            None => Seq::empty(),
        } + " "@ + match self.tolerance {
            Some(t) => t.0.text(),
            None => Seq::empty(),
        }
    }

    /// The value as displayed.
    pub fn to_string(&self) -> (r: String)
        ensures
            r@ == self.text(),
    {
        let mut out = copy_text(&self.value.0);
        match &self.unit {
            Some(u) => {
                out = concat_text(out, u.0.as_str());
            },
            None => {
                assert(out@ + Seq::<char>::empty() =~= out@);
            },
        }
        out = concat_text(out, " ");
        match &self.tolerance {
            Some(t) => {
                let s = t.0.to_string();
                out = concat_text(out, s.as_str());
            },
            None => {
                assert(out@ + Seq::<char>::empty() =~= out@);
            },
        }
        out
    }
}

} // verus!
