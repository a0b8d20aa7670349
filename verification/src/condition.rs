use vstd::prelude::*;
use cosmwasm_std::QueryRequest;

verus! {

/// Declares `cosmwasm_std::QueryRequest`, the descriptor of an external
/// query. The library carries it and never looks inside.
#[verifier::external_type_specification]
#[verifier::external_body]
#[verifier::reject_recursive_types(C)]
pub struct ExQueryRequest<C>(QueryRequest<C>);

/// A boolean expression that gates a job.
#[derive(Debug, PartialEq, Eq)]
pub enum Condition {
    /// True when no child is false; children are tried from the left.
    And(Vec<Box<Condition>>),
    /// True when some child is true; children are tried from the left.
    Or(Vec<Box<Condition>>),
    Not(Box<Condition>),
    Expr(Expr),
}

/// A comparison of two operands of one kind.
#[derive(Debug, PartialEq, Eq)]
pub struct GenExpr<Type, Op> {
    pub left: Type,
    pub op: Op,
    pub right: Type,
}

/// A comparison of the block time, in seconds, with `comparator`.
#[derive(Clone, Debug, PartialEq, Eq)]
pub struct TimeExpr {
    pub comparator: u64,
    pub op: TimeOp,
}

/// A comparison of the block height with `comparator`.
#[derive(Clone, Debug, PartialEq, Eq)]
pub struct BlockExpr {
    pub comparator: u64,
    pub op: NumOp,
}

/// An operand that is written down or looked up.
#[derive(Debug, PartialEq, Eq)]
pub enum Value<T> {
    Simple(T),
    Query(QueryExpr),
}

/// A numeric operand: written down, computed from two operands, looked up, or
/// computed from one operand.
#[derive(Debug, PartialEq, Eq)]
pub enum NumValue<T, ExprOp, FnOp> {
    Simple(T),
    Expr(NumExprValue<T, ExprOp, FnOp>),
    Query(QueryExpr),
    Fn(NumFnValue<T, ExprOp, FnOp>),
}

#[derive(Debug, PartialEq, Eq)]
pub struct NumExprValue<T, ExprOp, FnOp> {
    pub left: Box<NumValue<T, ExprOp, FnOp>>,
    pub op: ExprOp,
    pub right: Box<NumValue<T, ExprOp, FnOp>>,
}

#[derive(Debug, PartialEq, Eq)]
pub struct NumFnValue<T, ExprOp, FnOp> {
    pub op: FnOp,
    pub right: Box<NumValue<T, ExprOp, FnOp>>,
}

#[derive(Clone, Copy, Debug, PartialEq, Eq, Structural)]
pub enum NumExprOp {
    Add,
    Sub,
    Div,
    Mul,
    Mod,
}

#[derive(Clone, Copy, Debug, PartialEq, Eq, Structural)]
pub enum IntFnOp {
    Abs,
    Neg,
}

#[derive(Clone, Copy, Debug, PartialEq, Eq, Structural)]
pub enum DecimalFnOp {
    Abs,
    Neg,
    Floor,
    Sqrt,
    Ceil,
}

/// A comparison, by the kind of its operands.
#[derive(Debug, PartialEq, Eq)]
pub enum Expr {
    String(GenExpr<Value<String>, StringOp>),
    Uint(GenExpr<NumValue<crate::math::uint256::Uint256, NumExprOp, IntFnOp>, NumOp>),
    Int(GenExpr<NumValue<i128, NumExprOp, IntFnOp>, NumOp>),
    Decimal(GenExpr<NumValue<crate::math::decimal256::Decimal256, NumExprOp, DecimalFnOp>, NumOp>),
    Timestamp(TimeExpr),
    BlockHeight(BlockExpr),
    /// A looked-up value that is itself the verdict.
    Bool(QueryExpr),
}

#[derive(Clone, Copy, Debug, PartialEq, Eq, Structural)]
pub enum NumOp {
    Eq,
    Neq,
    Lt,
    Gt,
    Gte,
    Lte,
}

#[derive(Clone, Copy, Debug, PartialEq, Eq, Structural)]
pub enum TimeOp {
    Lt,
    Gt,
}

#[derive(Clone, Copy, Debug, PartialEq, Eq, Structural)]
pub enum StringOp {
    StartsWith,
    EndsWith,
    Contains,
    Eq,
    Neq,
}

/// One step into a document: the member of an object, or the item of an array.
#[derive(Clone, Debug, PartialEq, Eq)]
pub enum PathStep {
    Key(String),
    Index(u64),
}

/// An external query, and the place in its answer that holds the value.
#[derive(Debug, PartialEq, Eq)]
pub struct QueryExpr {
    pub selector: Vec<PathStep>,
    pub query: QueryRequest<String>,
}

} // verus!
