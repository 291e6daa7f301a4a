//! The uncurried intermediate representation, and the purely syntactic
//! pass that collapses right-nested unary lambdas and left-nested
//! unary applications into n-ary forms.

use vstd::prelude::*;

verus! {

use crate::ast::ASTExpr;
use crate::errors::CoreError;
use crate::name_resolution::ResolvedIdent;
use crate::ty::Scheme;
use crate::ty::Ty;
use crate::tyck::TypedASTExpr;
use crate::typed_atom::Atom;

/// The uncurried form: applications carry argument lists, lambdas
/// carry parameter lists, and each `Let` remembers whether its binder
/// was declared polymorphic.
pub enum Expr {
    Atom { atom: Atom, ty: Ty },
    If { cond: Box<Expr>, then: Box<Expr>, else_: Box<Expr>, ty: Ty },
    Let {
        bind: ResolvedIdent,
        value: Box<Expr>,
        body: Box<Expr>,
        ty: Ty,
        is_polymorphic: bool,
    },
    Apply { func: Box<Expr>, args: Vec<Expr>, ty: Ty },
    Lambda { args: Vec<(ResolvedIdent, Ty)>, body: Box<Expr>, ret_ty: Ty },
}

/// The type carried at the root of an uncurried expression.
pub open spec fn uexpr_ty(e: Expr) -> Ty {
    match e {
        Expr::Atom { ty, .. } => ty,
        Expr::If { ty, .. } => ty,
        Expr::Let { ty, .. } => ty,
        Expr::Apply { ty, .. } => ty,
        Expr::Lambda { ret_ty, .. } => ret_ty,
    }
}

impl Expr {
    /// The type at the root of this expression.
    pub fn ty(&self) -> (r: Ty)
        ensures
            r == uexpr_ty(*self),
    {
        match self {
            Expr::Atom { ty, .. } => ty.clone(),
            Expr::If { ty, .. } => ty.clone(),
            Expr::Let { ty, .. } => ty.clone(),
            Expr::Apply { ty, .. } => ty.clone(),
            Expr::Lambda { ret_ty, .. } => ret_ty.clone(),
        }
    }
}

/// Whether a binder's annotation makes it polymorphic: a scheme with at
/// least one quantified variable.
pub open spec fn scheme_is_poly(s: Option<Scheme>) -> bool {
    s matches Some(sch) && sch@.vars.len() > 0
}

/// How an application spine flattens: `of` is the head of the spine and
/// `oargs` the collected arguments, in call order.
pub open spec fn uncurry_apply_rel(a: TypedASTExpr, of: Expr, oargs: Seq<Expr>) -> bool
    decreases a, 0int,
{
    match a {
        ASTExpr::Apply { func, args, .. } => {
            &&& oargs.len() >= 1
            &&& uncurry_rel(*args, oargs.last())
            &&& if *func is Apply {
                uncurry_apply_rel(*func, of, oargs.drop_last())
            } else {
                oargs.len() == 1 && uncurry_rel(*func, of)
            }
        },
        _ => false,
    }
}

/// How a lambda nest flattens: `oargs` collects the parameters from the
/// outside in; `oret` is the innermost return type.
pub open spec fn uncurry_lambda_rel(
    a: TypedASTExpr,
    oargs: Seq<(ResolvedIdent, Ty)>,
    obody: Expr,
    oret: Ty,
) -> bool
    decreases a, 0int,
{
    match a {
        ASTExpr::Lambda { arg, body, ret_ty } => {
            &&& oargs.len() >= 1
            &&& oargs[0] == arg
            &&& if *body is Lambda {
                uncurry_lambda_rel(*body, oargs.drop_first(), obody, oret)
            } else {
                oargs.len() == 1 && uncurry_rel(*body, obody) && oret == ret_ty
            }
        },
        _ => false,
    }
}

/// How an uncurried tree relates to the typed tree it came from.
pub open spec fn uncurry_rel(a: TypedASTExpr, o: Expr) -> bool
    decreases a, 1int,
{
    match a {
        ASTExpr::Atom(at, t) => o matches Expr::Atom { atom, ty } && atom == at && ty == t,
        ASTExpr::If { cond, then, else_, ty } => o matches Expr::If {
            cond: oc,
            then: ot,
            else_: oe,
            ty: ty2,
        } && ty2 == ty && uncurry_rel(*cond, *oc) && uncurry_rel(*then, *ot) && uncurry_rel(
            *else_,
            *oe,
        ),
        ASTExpr::Let { bind, value, body, ty } => o matches Expr::Let {
            bind: ob,
            value: ov,
            body: oo,
            ty: ty2,
            is_polymorphic,
        } && ob == bind.0 && ty2 == ty && is_polymorphic == scheme_is_poly(bind.1) && uncurry_rel(
            *value,
            *ov,
        ) && uncurry_rel(*body, *oo),
        ASTExpr::Apply { ty, .. } => o matches Expr::Apply {
            func: of,
            args: oargs,
            ty: ty2,
        } && ty2 == ty && uncurry_apply_rel(a, *of, oargs@),
        ASTExpr::Lambda { .. } => o matches Expr::Lambda {
            args: oargs,
            body: obody,
            ret_ty: oret,
        } && uncurry_lambda_rel(a, oargs@, *obody, oret),
    }
}

/// Collapse nested unary applications and lambdas into n-ary forms,
/// preserving the types on every node.
pub fn uncurry(ast: TypedASTExpr) -> (r: Result<Expr, CoreError>)
    ensures
        r matches Ok(o) && uncurry_rel(ast, o),
    decreases ast,
{
    match ast {
        ASTExpr::Atom(atom, ty) => Ok(Expr::Atom { atom, ty }),
        ASTExpr::If { cond, then, else_, ty } => {
            let c = match uncurry(*cond) {
                Ok(x) => x,
                Err(e) => {
                    return Err(e);
                },
            };
            let t = match uncurry(*then) {
                Ok(x) => x,
                Err(e) => {
                    return Err(e);
                },
            };
            let e2 = match uncurry(*else_) {
                Ok(x) => x,
                Err(e) => {
                    return Err(e);
                },
            };
            Ok(Expr::If { cond: Box::new(c), then: Box::new(t), else_: Box::new(e2), ty })
        },
        ASTExpr::Let { bind, value, body, ty } => {
            let (ident, scheme_opt) = bind;
            let is_polymorphic = match &scheme_opt {
                Some(s) => s.vars.len() > 0,
                None => false,
            };
            let v = match uncurry(*value) {
                Ok(x) => x,
                Err(e) => {
                    return Err(e);
                },
            };
            let b = match uncurry(*body) {
                Ok(x) => x,
                Err(e) => {
                    return Err(e);
                },
            };
            Ok(
                Expr::Let {
                    bind: ident,
                    value: Box::new(v),
                    body: Box::new(b),
                    ty,
                    is_polymorphic,
                },
            )
        },
        ASTExpr::Apply { func, args, ty } => {
            let oarg = match uncurry(*args) {
                Ok(x) => x,
                Err(e) => {
                    return Err(e);
                },
            };
            let func_is_apply = matches!(&*func, ASTExpr::Apply { .. });
            if func_is_apply {
                let inner = match uncurry(*func) {
                    Ok(x) => x,
                    Err(e) => {
                        return Err(e);
                    },
                };
                match inner {
                    Expr::Apply { func: g, args: mut gargs, ty: _ } => {
                        let ghost g0 = gargs@;
                        gargs.push(oarg);
                        proof {
                            assert(gargs@.drop_last() =~= g0);
                            assert(uncurry_apply_rel(ast, *g, gargs@));
                        }
                        Ok(Expr::Apply { func: g, args: gargs, ty })
                    },
                    _ => {
                        proof {
                            assert(false);
                        }
                        Err(CoreError::ConversionError(String::new()))
                    },
                }
            } else {
                let of = match uncurry(*func) {
                    Ok(x) => x,
                    Err(e) => {
                        return Err(e);
                    },
                };
                let mut oargs: Vec<Expr> = Vec::new();
                oargs.push(oarg);
                proof {
                    assert(uncurry_apply_rel(ast, of, oargs@));
                }
                Ok(Expr::Apply { func: Box::new(of), args: oargs, ty })
            }
        },
        ASTExpr::Lambda { arg, body, ret_ty } => {
            let body_is_lambda = matches!(&*body, ASTExpr::Lambda { .. });
            if body_is_lambda {
                let inner = match uncurry(*body) {
                    Ok(x) => x,
                    Err(e) => {
                        return Err(e);
                    },
                };
                match inner {
                    Expr::Lambda { args: mut bargs, body: ibody, ret_ty: irt } => {
                        let ghost b0 = bargs@;
                        bargs.insert(0, arg);
                        proof {
                            assert(bargs@.drop_first() =~= b0);
                            assert(bargs@[0] == arg);
                            assert(uncurry_lambda_rel(ast, bargs@, *ibody, irt));
                        }
                        Ok(Expr::Lambda { args: bargs, body: ibody, ret_ty: irt })
                    },
                    _ => {
                        proof {
                            assert(false);
                        }
                        Err(CoreError::ConversionError(String::new()))
                    },
                }
            } else {
                let ob = match uncurry(*body) {
                    Ok(x) => x,
                    Err(e) => {
                        return Err(e);
                    },
                };
                let mut oargs: Vec<(ResolvedIdent, Ty)> = Vec::new();
                oargs.push(arg);
                proof {
                    assert(uncurry_lambda_rel(ast, oargs@, ob, ret_ty));
                }
                Ok(Expr::Lambda { args: oargs, body: Box::new(ob), ret_ty })
            }
        },
    }
}

} // verus!
