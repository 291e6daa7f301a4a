//! Flattening K-normal form into A-normal form: nested lets in value
//! position are rebound so that every let's value is a computation
//! form.

use vstd::prelude::*;

verus! {

use crate::anf;
use crate::errors::CoreError;
use crate::knf;
use crate::name_resolution::ResolvedIdent;
use crate::ty::Ty;

/// How a let is grafted under a converted value: the value's let spine
/// is kept, and its terminal computation form becomes the value of the
/// new let, whose body is the converted let body.
pub open spec fn wrap_rel(
    vconv: anf::Expr,
    bind: ResolvedIdent,
    ty: Ty,
    is_poly: bool,
    bodyc: anf::Expr,
    o: anf::Expr,
) -> bool
    decreases vconv,
{
    match vconv {
        anf::Expr::CExpr(c) => o matches anf::Expr::Let {
            bind: b2,
            value: v2,
            body: bo2,
            ty: ty2,
            is_polymorphic: p2,
        } && b2 == bind && *v2 == c && *bo2 == bodyc && ty2 == ty && p2 == is_poly,
        anf::Expr::Let { bind: b1, value: v1, body: body1, ty: t1, is_polymorphic: p1 } => o
            matches anf::Expr::Let {
            bind: b2,
            value: v2,
            body: bo2,
            ty: t2,
            is_polymorphic: p2,
        } && b2 == b1 && *v2 == *v1 && t2 == t1 && p2 == p1 && wrap_rel(
            *body1,
            bind,
            ty,
            is_poly,
            bodyc,
            *bo2,
        ),
    }
}

/// How an A-normal tree relates to the K-normal tree it came from.
pub open spec fn k2a_rel(k: knf::Expr, o: anf::Expr) -> bool
    decreases k,
{
    match k {
        knf::Expr::Atom(ta) => o matches anf::Expr::CExpr(c) && c matches anf::CExpr::Atom(t2)
            && t2 == ta,
        knf::Expr::Apply { func, args, ty } => o matches anf::Expr::CExpr(c) && c matches
            anf::CExpr::Apply { func: f2, args: a2, ty: t2 } && f2 == func && a2@ == args@ && t2
            == ty,
        knf::Expr::If { cond, then, else_, ty } => o matches anf::Expr::CExpr(c) && c matches
            anf::CExpr::If { cond: c2, then: t2, else_: e2, ty: ty2 } && c2 == cond && ty2 == ty
            && k2a_rel(*then, *t2) && k2a_rel(*else_, *e2),
        knf::Expr::Lambda { args, body, ret_ty } => o matches anf::Expr::CExpr(c) && c matches
            anf::CExpr::Lambda { args: a2, body: b2, ret_ty: r2 } && a2@ == args@ && r2 == ret_ty
            && k2a_rel(*body, *b2),
        knf::Expr::Let { bind, value, body, ty, is_polymorphic } => exists|
            vc: anf::Expr,
            bc: anf::Expr,
        |
            k2a_rel(*value, vc) && k2a_rel(*body, bc) && #[trigger] wrap_rel(
                vc,
                bind,
                ty,
                is_polymorphic,
                bc,
                o,
            ),
    }
}

/// Graft `Let bind = . in rest` under the let spine of `vconv`.
fn graft(vconv: anf::Expr, bind: ResolvedIdent, ty: Ty, is_poly: bool, rest: anf::Expr) -> (o:
    anf::Expr)
    ensures
        wrap_rel(vconv, bind, ty, is_poly, rest, o),
    decreases vconv,
{
    match vconv {
        anf::Expr::CExpr(c) => anf::Expr::Let {
            bind,
            value: Box::new(c),
            body: Box::new(rest),
            ty,
            is_polymorphic: is_poly,
        },
        anf::Expr::Let { bind: b1, value: v1, body: body1, ty: t1, is_polymorphic: p1 } => {
            let inner = graft(*body1, bind, ty, is_poly, rest);
            anf::Expr::Let {
                bind: b1,
                value: v1,
                body: Box::new(inner),
                ty: t1,
                is_polymorphic: p1,
            }
        },
    }
}

/// Rewrite K-normal form into A-normal form: the value of every let
/// becomes a computation form, with nested lets rebound outward.
pub fn knf2anf(knf: knf::Expr) -> (r: Result<anf::Expr, CoreError>)
    ensures
        r is Ok,
        r matches Ok(o) ==> k2a_rel(knf, o),
    decreases knf,
{
    let ghost k0 = knf;
    match knf {
        knf::Expr::Atom(ta) => {
            let r = anf::Expr::CExpr(anf::CExpr::Atom(ta));
            proof {
                assert(k2a_rel(k0, r));
            }
            Ok(r)
        },
        knf::Expr::Apply { func, args, ty } => {
            let r = anf::Expr::CExpr(anf::CExpr::Apply { func, args, ty });
            proof {
                assert(k2a_rel(k0, r));
            }
            Ok(r)
        },
        knf::Expr::If { cond, then, else_, ty } => {
            let t = match knf2anf(*then) {
                Ok(x) => x,
                Err(e) => {
                    return Err(e);
                },
            };
            let e2 = match knf2anf(*else_) {
                Ok(x) => x,
                Err(e) => {
                    return Err(e);
                },
            };
            let r = anf::Expr::CExpr(
                anf::CExpr::If { cond, then: Box::new(t), else_: Box::new(e2), ty },
            );
            proof {
                assert(k2a_rel(k0, r));
            }
            Ok(r)
        },
        knf::Expr::Lambda { args, body, ret_ty } => {
            let b = match knf2anf(*body) {
                Ok(x) => x,
                Err(e) => {
                    return Err(e);
                },
            };
            let r = anf::Expr::CExpr(anf::CExpr::Lambda { args, body: Box::new(b), ret_ty });
            proof {
                assert(k2a_rel(k0, r));
            }
            Ok(r)
        },
        knf::Expr::Let { bind, value, body, ty, is_polymorphic } => {
            let ghost kvalue = *value;
            let ghost kbody = *body;
            let vc = match knf2anf(*value) {
                Ok(x) => x,
                Err(e) => {
                    return Err(e);
                },
            };
            let bc = match knf2anf(*body) {
                Ok(x) => x,
                Err(e) => {
                    return Err(e);
                },
            };
            let ghost vcg = vc;
            let ghost bcg = bc;
            let o = graft(vc, bind, ty, is_polymorphic, bc);
            proof {
                assert(k2a_rel(kvalue, vcg));
                assert(k2a_rel(kbody, bcg));
                assert(wrap_rel(vcg, bind, ty, is_polymorphic, bcg, o));
                assert(k2a_rel(k0, o));
            }
            Ok(o)
        },
    }
}

} // verus!
