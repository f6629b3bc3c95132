//! What the statement trees stand for: the same trees with texts in place
//! of strings and sequences in place of vectors.

use vstd::prelude::*;
use crate::ast::{
    BinaryOperator, BlockKind, BlockStmt, Connectable, Expr, PhysicalValue, PortRef, Stmt, Symbol,
    Tolerance,
};
use crate::span::{Span, Spanned};

verus! {

/// A text with its span.
pub type TextView = (Seq<char>, Span);

/// What a [`PortRef`] stands for.
pub struct PortRefView {
    pub parts: Seq<TextView>,
}

/// What a [`Connectable`] stands for.
pub enum ConnectableView {
    Port(PortRefView, Span),
    Pin(TextView),
    Signal(TextView),
}

/// What a [`Tolerance`] stands for.
pub enum ToleranceView {
    Bilateral { value: TextView, unit: Option<TextView> },
    Bound { min: TextView, max: TextView },
}

/// What a [`PhysicalValue`] stands for.
pub struct PhysicalView {
    pub value: TextView,
    pub unit: Option<TextView>,
    pub tolerance: Option<(ToleranceView, Span)>,
}

/// What an [`Expr`] stands for.
pub enum ExprView {
    String(TextView),
    Number(TextView),
    Port(PortRefView, Span),
    New(TextView),
    Bool(bool, Span),
    BinaryOp(Box<BinaryOpView>, Span),
    Physical(PhysicalView, Span),
}

/// What a binary operation stands for.
pub struct BinaryOpView {
    pub left: (ExprView, Span),
    pub op: (BinaryOperator, Span),
    pub right: (ExprView, Span),
}

/// What a [`BlockStmt`] stands for.
pub struct BlockView {
    pub kind: (BlockKind, Span),
    pub name: TextView,
    pub parent: Option<TextView>,
    pub body: Seq<(StmtView, Span)>,
}

/// What a [`Stmt`] stands for.
pub enum StmtView {
    Import { from_path: TextView, imports: Seq<TextView> },
    DepImport { name: TextView, from_path: TextView },
    Attribute { name: TextView, type_info: TextView },
    Assign { target: (PortRefView, Span), type_info: Option<TextView>, value: (ExprView, Span) },
    Specialize { port: (PortRefView, Span), value: TextView },
    Connect { left: (ConnectableView, Span), right: (ConnectableView, Span) },
    Block(BlockView),
    Signal(TextView),
    Pin(TextView),
    Assert((ExprView, Span)),
    Comment(TextView),
    Pass,
    ParseError(Seq<char>),
}

/// What a spanned string stands for.
pub open spec fn text_view(s: Spanned<String>) -> TextView {
    (s.0@, s.1)
}

/// What a spanned symbol stands for.
pub open spec fn symbol_view(s: Spanned<Symbol>) -> TextView {
    (s.0@, s.1)
}

/// What an optional spanned string stands for.
pub open spec fn optional_text(s: Option<Spanned<String>>) -> Option<TextView> {
    match s {
        Some(t) => Some(text_view(t)),
        None => None,
    }
}

/// What an optional spanned symbol stands for.
pub open spec fn optional_symbol(s: Option<Spanned<Symbol>>) -> Option<TextView> {
    match s {
        Some(t) => Some(symbol_view(t)),
        None => None,
    }
}

/// What a path stands for.
pub open spec fn port_ref_view(p: PortRef) -> PortRefView {
    PortRefView { parts: p.parts@.map_values(|s: Spanned<String>| text_view(s)) }
}

/// What one side of a connection stands for.
pub open spec fn connectable_view(c: Connectable) -> ConnectableView {
    match c {
        Connectable::Port(p) => ConnectableView::Port(port_ref_view(p.0), p.1),
        Connectable::Pin(s) => ConnectableView::Pin(text_view(s)),
        Connectable::Signal(s) => ConnectableView::Signal(text_view(s)),
    }
}

/// What a tolerance stands for.
pub open spec fn tolerance_view(t: Tolerance) -> ToleranceView {
    match t {
        Tolerance::Bilateral { value, unit } => ToleranceView::Bilateral {
            value: text_view(value),
            unit: optional_text(unit),
        },
        Tolerance::Bound { min, max } => ToleranceView::Bound {
            min: text_view(min),
            max: text_view(max),
        },
    }
}

/// What a physical value stands for.
pub open spec fn physical_view(p: PhysicalValue) -> PhysicalView {
    PhysicalView {
        value: text_view(p.value),
        unit: optional_text(p.unit),
        tolerance: match p.tolerance {
            Some(t) => Some((tolerance_view(t.0), t.1)),
            None => None,
        },
    }
}

/// What an expression stands for.
pub open spec fn expr_view(e: Expr) -> ExprView
    decreases e,
{
    match e {
        Expr::String(s) => ExprView::String(text_view(s)),
        Expr::Number(s) => ExprView::Number(text_view(s)),
        Expr::Port(p) => ExprView::Port(port_ref_view(p.0), p.1),
        Expr::New(s) => ExprView::New(symbol_view(s)),
        Expr::Bool(b) => ExprView::Bool(b.0, b.1),
        Expr::BinaryOp(op) => ExprView::BinaryOp(
            Box::new(
                BinaryOpView {
                    left: (expr_view(op.0.left.0), op.0.left.1),
                    op: (op.0.op.0, op.0.op.1),
                    right: (expr_view(op.0.right.0), op.0.right.1),
                },
            ),
            op.1,
        ),
        Expr::Physical(p) => ExprView::Physical(physical_view(p.0), p.1),
    }
}

/// What a spanned expression stands for.
pub open spec fn spanned_expr(e: Spanned<Expr>) -> (ExprView, Span) {
    (expr_view(e.0), e.1)
}

/// What each statement of a list stands for.
pub open spec fn stmt_views(stmts: Seq<Spanned<Stmt>>) -> Seq<(StmtView, Span)>
    decreases stmts, 1int,
{
    if stmts.len() == 0 {
        Seq::empty()
    } else {
        stmt_views(stmts.drop_last()).push((stmt_view(stmts.last().0), stmts.last().1))
    }
}

/// What a block stands for.
pub open spec fn block_view(b: BlockStmt) -> BlockView
    decreases b, 2int,
{
    BlockView {
        kind: (b.kind.0, b.kind.1),
        name: symbol_view(b.name),
        parent: optional_symbol(b.parent),
        body: stmt_views(b.body@),
    }
}

/// What a statement stands for.
pub open spec fn stmt_view(s: Stmt) -> StmtView
    decreases s, 0int,
{
    match s {
        Stmt::Import(i) => StmtView::Import {
            from_path: text_view(i.from_path),
            imports: i.imports@.map_values(|s: Spanned<Symbol>| symbol_view(s)),
        },
        Stmt::DepImport(i) => StmtView::DepImport {
            name: symbol_view(i.name),
            from_path: text_view(i.from_path),
        },
        Stmt::Attribute(a) => StmtView::Attribute {
            name: symbol_view(a.name),
            type_info: symbol_view(a.type_info),
        },
        Stmt::Assign(a) => StmtView::Assign {
            target: (port_ref_view(a.target.0), a.target.1),
            type_info: optional_text(a.type_info),
            value: spanned_expr(a.value),
        },
        Stmt::Specialize(s) => StmtView::Specialize {
            port: (port_ref_view(s.port.0), s.port.1),
            value: symbol_view(s.value),
        },
        Stmt::Connect(c) => StmtView::Connect {
            left: (connectable_view(c.left.0), c.left.1),
            right: (connectable_view(c.right.0), c.right.1),
        },
        Stmt::Block(b) => StmtView::Block(block_view(b)),
        Stmt::Signal(s) => StmtView::Signal(symbol_view(s.name)),
        Stmt::Pin(p) => StmtView::Pin(symbol_view(p.name)),
        Stmt::Assert(a) => StmtView::Assert(spanned_expr(a.expr)),
        Stmt::Comment(c) => StmtView::Comment(text_view(c.comment)),
        Stmt::Pass => StmtView::Pass,
        Stmt::ParseError(m) => StmtView::ParseError(m@),
    }
}

} // verus!
