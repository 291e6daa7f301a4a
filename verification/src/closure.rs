//! The first-order closure representation: lifted functions with
//! explicit capture records; no lambda form remains.

use vstd::prelude::*;

verus! {

use crate::anf::clone_atoms;
use crate::anf::clone_params;
use crate::name_resolution::ResolvedIdent;
use crate::ty::Ty;
use crate::typed_atom::Atom;
use crate::typed_atom::TypedAtom;

/// A lifted function: its global name, return type, captured
/// variables, and parameters.
pub struct Closure {
    pub global_name: String,
    pub ret_ty: Ty,
    pub capture: Vec<(ResolvedIdent, Ty)>,
    pub args: Vec<(ResolvedIdent, Ty)>,
}

impl Clone for Closure {
    fn clone(&self) -> (r: Closure)
        ensures
            r.global_name@ == self.global_name@,
            r.ret_ty == self.ret_ty,
            r.capture@ == self.capture@,
            r.args@ == self.args@,
    {
        Closure {
            global_name: self.global_name.clone(),
            ret_ty: self.ret_ty.clone(),
            capture: clone_params(&self.capture),
            args: clone_params(&self.args),
        }
    }
}

/// A computation form after closure conversion: as in A-normal form,
/// except that a lambda has become a reference to a lifted closure.
pub enum ClosureCExpr {
    Atom(TypedAtom),
    If { cond: Atom, then: Box<ClosureExpr>, else_: Box<ClosureExpr>, ty: Ty },
    Apply { func: TypedAtom, args: Vec<TypedAtom>, ty: Ty },
    Closure(Closure),
}

/// An expression after closure conversion.
pub enum ClosureExpr {
    CExpr(ClosureCExpr),
    Let { bind: ResolvedIdent, value: Box<ClosureCExpr>, body: Box<ClosureExpr>, ty: Ty },
}

/// Structural equality of converted computation forms; closure records
/// compare by name view and contents.
pub open spec fn ccexpr_eqv(a: ClosureCExpr, b: ClosureCExpr) -> bool
    decreases a, 0int,
{
    match a {
        ClosureCExpr::Atom(ta) => b matches ClosureCExpr::Atom(tb) && tb == ta,
        ClosureCExpr::If { cond, then, else_, ty } => b matches ClosureCExpr::If {
            cond: c2,
            then: t2,
            else_: e2,
            ty: ty2,
        } && c2 == cond && ty2 == ty && cexpr_eqv(*then, *t2) && cexpr_eqv(*else_, *e2),
        ClosureCExpr::Apply { func, args, ty } => b matches ClosureCExpr::Apply {
            func: f2,
            args: a2,
            ty: ty2,
        } && f2 == func && a2@ == args@ && ty2 == ty,
        ClosureCExpr::Closure(c) => b matches ClosureCExpr::Closure(c2) && c2.global_name@
            == c.global_name@ && c2.ret_ty == c.ret_ty && c2.capture@ == c.capture@ && c2.args@
            == c.args@,
    }
}

/// Structural equality of converted expressions.
pub open spec fn cexpr_eqv(a: ClosureExpr, b: ClosureExpr) -> bool
    decreases a, 1int,
{
    match a {
        ClosureExpr::CExpr(c) => b matches ClosureExpr::CExpr(c2) && ccexpr_eqv(c, c2),
        ClosureExpr::Let { bind, value, body, ty } => b matches ClosureExpr::Let {
            bind: b2,
            value: v2,
            body: bo2,
            ty: ty2,
        } && b2 == bind && ty2 == ty && ccexpr_eqv(*value, *v2) && cexpr_eqv(*body, *bo2),
    }
}

impl Clone for ClosureCExpr {
    fn clone(&self) -> (r: ClosureCExpr)
        ensures
            ccexpr_eqv(*self, r),
        decreases self,
    {
        match self {
            ClosureCExpr::Atom(ta) => ClosureCExpr::Atom(ta.clone()),
            ClosureCExpr::If { cond, then, else_, ty } => ClosureCExpr::If {
                cond: cond.clone(),
                then: Box::new((**then).clone()),
                else_: Box::new((**else_).clone()),
                ty: ty.clone(),
            },
            ClosureCExpr::Apply { func, args, ty } => ClosureCExpr::Apply {
                func: func.clone(),
                args: clone_atoms(args),
                ty: ty.clone(),
            },
            ClosureCExpr::Closure(c) => ClosureCExpr::Closure(c.clone()),
        }
    }
}

impl Clone for ClosureExpr {
    fn clone(&self) -> (r: ClosureExpr)
        ensures
            cexpr_eqv(*self, r),
        decreases self,
    {
        match self {
            ClosureExpr::CExpr(c) => ClosureExpr::CExpr(c.clone()),
            ClosureExpr::Let { bind, value, body, ty } => ClosureExpr::Let {
                bind: bind.clone(),
                value: Box::new((**value).clone()),
                body: Box::new((**body).clone()),
                ty: ty.clone(),
            },
        }
    }
}

} // verus!
