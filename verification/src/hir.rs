//! The expression tree that checking facts are recorded against.
//!
//! Every node carries the identity assigned when its body was closed, the
//! source span it came from, its operation and its operand subexpressions in
//! evaluation order.

use crate::builtin_call::BuiltinFnName;
use crate::ctor_generics::CtorGenericArg;
use crate::for_comp::ForBindingIndex;
use crate::index::{DagId, ResolvedName, Symbol};
use crate::rules::{BinOp, Span, UnaryOp};
use crate::types::TimeScale;
use vstd::prelude::*;

verus! {

broadcast use vstd::std_specs::vec::axiom_vec_index_decreases;

/// Identity of an expression inside a closed body.
pub type ExprId = u64;

/// A reference to a named constant.
#[derive(Clone, Copy, Debug, PartialEq, Eq, Structural, Hash)]
pub enum ConstRef {
    /// A constant declaration.
    Decl(ResolvedName),
    /// A nullary union constructor used as a value.
    Constructor(ResolvedName),
    /// A time scale, which only `epoch()` takes.
    TimeScale(TimeScale),
}

/// The function a call expression invokes.
#[derive(Clone, Copy, Debug, PartialEq, Eq, Structural, Hash)]
pub enum FunctionRef {
    Builtin(BuiltinFnName),
    /// `epoch()` in a time scale.
    Epoch(TimeScale),
    /// A host function provided by a plugin.
    External { plugin: Symbol, name: Symbol },
}

/// Which `key()` form an expression uses.
#[derive(Clone, Copy, Debug, PartialEq, Eq, Structural, Hash)]
pub enum KeyFormKind {
    /// A position that is checked against the axis at compile time.
    Static,
    /// A label looked up at run time.
    Dynamic,
}

/// One argument of an index access.
#[derive(Clone, Copy, Debug, PartialEq, Eq, Structural, Hash)]
pub enum IndexArg {
    /// The operand at this position selects along the axis.
    Operand(usize),
    /// A named label of the axis.
    Variant(ResolvedName),
}

/// One key of a map-literal entry.
#[derive(Clone, Copy, Debug, PartialEq, Eq, Structural, Hash)]
pub enum MapKey {
    /// A label `Index.Variant` of a declared index.
    Label(ResolvedName),
    /// A position of a nat-range index.
    NatRange { variant: Symbol },
}

/// The pattern of one match arm.
#[derive(Clone, Copy, Debug, PartialEq, Eq, Structural, Hash)]
pub enum MatchPattern {
    /// A union constructor.
    Constructor(ResolvedName),
    /// A label of an index.
    IndexLabel(ResolvedName),
}

/// The operation of an expression node.  Operands are held by the node.
#[derive(Clone, Debug, PartialEq, Eq)]
pub enum ExprKind {
    /// A node that failed to resolve.
    Error,
    /// A decimal literal.
    Number,
    Integer(i64),
    Bool(bool),
    /// A number with a unit; the unit's terms in order.
    QuantityLiteral { unit: Vec<ResolvedName> },
    StringLiteral,
    OffsetDateTimeLiteral,
    CivilDateTimeLiteral,
    ZonedDateTimeLiteral,
    IanaTimeZoneLiteral,
    TypeSystemRef,
    GraphRef(ResolvedName),
    ConstRef(ConstRef),
    LocalRef(u64),
    /// Operands: left, right.
    BinOp(BinOp),
    /// Operand: the argument.
    UnaryOp(UnaryOp),
    /// Operands: the arguments.
    FnCall(FunctionRef),
    /// Operands: condition, then branch, else branch.
    If,
    /// Operand: the converted value; the target unit's terms in order.
    Convert { target: Vec<ResolvedName> },
    /// Operand: the displayed value; `zone_known` is whether the time-zone
    /// database holds the IANA zone it is shown in, as looked up when the
    /// node was built.
    DisplayTimezone { zone_known: bool },
    /// Operand: the record.
    FieldAccess { field: Symbol },
    /// Operands: the field values, in the order of `fields`; `generic_args`
    /// are the generic arguments written at the call.
    ConstructorCall { callee: ResolvedName, generic_args: Vec<CtorGenericArg>, fields: Vec<Symbol> },
    /// Operands: the entry values, value `i` under the keys `keys[i]`.
    MapLiteral { keys: Vec<Vec<MapKey>> },
    /// Operand: the body; `locals[i]` ranges over `indexes[i]`, the first
    /// binding being the outermost axis of the result.
    ForComp { locals: Vec<u64>, indexes: Vec<ForBindingIndex> },
    /// Operand 0 is the indexed value; `args` selects along its axes.
    IndexAccess { args: Vec<IndexArg> },
    /// Operands: source, initial accumulator, body; the body sees the
    /// accumulator as local `acc` and the current element as local `item`.
    Scan { acc: u64, item: u64 },
    /// Operands: initial state, body; the state is unfolded along the
    /// coordinate index `index` of the enclosing declaration, and the body
    /// sees the previous and current coordinates as locals `prev` and `curr`.
    Unfold { index: ResolvedName, prev: u64, curr: u64 },
    /// Operand: the key argument.
    KeyForm { kind: KeyFormKind },
    /// Operand 0 is the scrutinee, then one body per pattern.
    Match { patterns: Vec<MatchPattern> },
    VariantLiteral(ResolvedName),
    /// Operands: the bound values, value `i` bound to parameter `targets[i]`
    /// of DAG `dag`; the call projects the declaration `output`.
    DagCall { dag: DagId, targets: Vec<Symbol>, output: Symbol },
}

/// An expression node.
#[derive(Debug)]
pub struct Expr {
    /// Identity assigned when the body was closed; `None` before that.
    pub id: Option<ExprId>,
    pub span: Span,
    pub kind: ExprKind,
    pub operands: Vec<Expr>,
}

/// An expression without an identity.
#[derive(Clone, Copy, Debug, PartialEq, Eq, Structural)]
pub struct UnassignedExprId;

impl Expr {
    /// A node with its identity, span, operation and operands.
    pub fn new(id: ExprId, span: Span, kind: ExprKind, operands: Vec<Expr>) -> (e: Expr)
        ensures
            e.id == Some(id),
            e.span == span,
            e.kind == kind,
            e.operands == operands,
    {
        Expr { id: Some(id), span, kind, operands }
    }

    /// The identity of the node.
    pub fn id(&self) -> (r: Result<ExprId, UnassignedExprId>)
        ensures
            match self.id {
                Some(i) => r == Ok::<ExprId, UnassignedExprId>(i),
                None => r is Err,
            },
    {
        match self.id {
            Some(i) => Ok(i),
            None => Err(UnassignedExprId),
        }
    }
}

impl Clone for Expr {
    fn clone(&self) -> (r: Self)
        ensures
            r.id == self.id,
            r.span == self.span,
            r.operands@.len() == self.operands@.len(),
        decreases self,
    {
        let mut operands: Vec<Expr> = Vec::new();
        let mut i: usize = 0;
        while i < self.operands.len()
            invariant
                i <= self.operands@.len(),
                operands@.len() == i,
            decreases self.operands@.len() - i,
        {
            proof {
                assert(decreases_to!(self => self.operands@[i as int]));
            }
            operands.push(self.operands[i].clone());
            i += 1;
        }
        Expr { id: self.id, span: self.span, kind: self.kind.clone(), operands }
    }
}

/// The nodes of an expression in post-order: every operand before its parent,
/// operands left to right.
pub open spec fn post_order(e: Expr) -> Seq<Expr>
    decreases e, 1int,
{
    post_order_list(e.operands, e.operands@.len() as int).push(e)
}

/// The post-orders of the first `n` operands, concatenated.
pub open spec fn post_order_list(v: Vec<Expr>, n: int) -> Seq<Expr>
    decreases v, n,
{
    if n <= 0 || n > v@.len() {
        Seq::empty()
    } else {
        post_order_list(v, n - 1) + post_order(v@[n - 1])
    }
}

/// The post-orders of the first `n` roots, concatenated.
pub open spec fn post_order_roots(roots: Seq<Expr>, n: int) -> Seq<Expr>
    decreases n,
{
    if n <= 0 || n > roots.len() {
        Seq::empty()
    } else {
        post_order_roots(roots, n - 1) + post_order(roots[n - 1])
    }
}

} // verus!
