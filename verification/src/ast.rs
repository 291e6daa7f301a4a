//! The surface abstract syntax tree, parameterized by the identifier
//! type and the type-annotation slot.

use vstd::prelude::*;

verus! {

use crate::ty::Scheme;
use crate::ty::Ty;

/// Primitive binary operators.
#[derive(Clone, Copy, PartialEq, Eq, Structural)]
pub enum OpType {
    Add,
    Sub,
    Mul,
    Div,
    Eq,
    Neq,
    Lt,
    Gt,
    Leq,
    Geq,
}

/// Whether an operator is arithmetic (`int -> int -> int`) rather than
/// a comparison (`int -> int -> bool`).
pub open spec fn op_is_arith(op: OpType) -> bool {
    match op {
        OpType::Add => true,
        OpType::Sub => true,
        OpType::Mul => true,
        OpType::Div => true,
        _ => false,
    }
}

/// The arrow type of an operator: two integer arguments, and an
/// integer or boolean result.
pub open spec fn op_arrow_ty(op: OpType) -> Ty {
    Ty::Arrow(
        Box::new(Ty::Int),
        Box::new(
            Ty::Arrow(
                Box::new(Ty::Int),
                Box::new(if op_is_arith(op) {
                    Ty::Int
                } else {
                    Ty::Bool
                }),
            ),
        ),
    )
}

/// Build the arrow type of an operator.
pub fn make_op_arrow_ty(op: OpType) -> (r: Ty)
    ensures
        r == op_arrow_ty(op),
{
    let res = match op {
        OpType::Add => Ty::Int,
        OpType::Sub => Ty::Int,
        OpType::Mul => Ty::Int,
        OpType::Div => Ty::Int,
        _ => Ty::Bool,
    };
    Ty::Arrow(Box::new(Ty::Int), Box::new(Ty::Arrow(Box::new(Ty::Int), Box::new(res))))
}

/// A value form requiring no evaluation: a literal, a variable
/// reference, or a primitive operator symbol.
pub enum ASTAtom<I> {
    Int(i32),
    Bool(bool),
    Unit,
    Var(I),
    Op(OpType),
}

/// An expression with identifiers of type `I` and type annotations of
/// type `T`; `Let` binders carry an optional user-written scheme, and
/// `Apply` and `Lambda` are unary.
pub enum ASTExpr<I, T> {
    Atom(ASTAtom<I>, T),
    If { cond: Box<ASTExpr<I, T>>, then: Box<ASTExpr<I, T>>, else_: Box<ASTExpr<I, T>>, ty: T },
    Let {
        bind: (I, Option<Scheme>),
        value: Box<ASTExpr<I, T>>,
        body: Box<ASTExpr<I, T>>,
        ty: T,
    },
    Apply { func: Box<ASTExpr<I, T>>, args: Box<ASTExpr<I, T>>, ty: T },
    Lambda { arg: (I, T), body: Box<ASTExpr<I, T>>, ret_ty: T },
}

/// The surface form produced by a parser: string identifiers, optional
/// type annotations.
pub type InputASTExpr = ASTExpr<String, Option<Ty>>;

} // verus!
