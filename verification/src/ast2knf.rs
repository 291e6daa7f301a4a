//! Conversion to K-normal form: every non-atomic sub-term is named by
//! a fresh `let` binding, so that operands are atoms.

use vstd::prelude::*;

verus! {

use crate::ast::ASTAtom;
use crate::knf;
use crate::name_generator::KNF_GEN_SPACE;
use crate::name_generator::NameGenerator;
use crate::name_resolution::NameIdentifier;
use crate::name_resolution::ResolvedIdent;
use crate::ty::Ty;
use crate::typed_atom::TypedAtom;
use crate::uncurry;
use crate::uncurry::uexpr_ty;

/// A binder issued by the K-normalization generator: its token lives
/// in the generator's space, and its name is `a2k_` followed by the
/// token's number.
pub open spec fn knf_gen_binder(b: ResolvedIdent) -> bool {
    b.id matches NameIdentifier::Gen(sp, n) && sp == KNF_GEN_SPACE && b.name@ == "a2k_"@
        + crate::text::dec_of(n as nat)
}

/// The chain of lets that hoists an application's arguments: the last
/// argument's binding is outermost, and the innermost form applies
/// `fa` to the bound variables in argument order, followed by `vargs`.
pub open spec fn args_lets_rel(
    args: Seq<uncurry::Expr>,
    fa: TypedAtom,
    vargs: Seq<TypedAtom>,
    call_ty: Ty,
    o: knf::Expr,
) -> bool
    decreases o, 0int,
{
    if args.len() == 0 {
        o matches knf::Expr::Apply { func, args: aa, ty } && func == fa && aa@ == vargs && ty
            == call_ty
    } else {
        o matches knf::Expr::Let { bind, value, body, ty, is_polymorphic } && knf_gen_binder(bind)
            && !is_polymorphic && ty == uexpr_ty(args.last()) && a2k_rel(args.last(), *value)
            && args_lets_rel(
            args.drop_last(),
            fa,
            seq![TypedAtom { atom: ASTAtom::Var(bind), ty: uexpr_ty(args.last()) }] + vargs,
            call_ty,
            *body,
        )
    }
}

/// How a K-normal tree relates to the uncurried tree it came from:
/// conditions and call operands are hoisted into fresh `let` bindings,
/// everything else is carried structurally.
pub open spec fn a2k_rel(e: uncurry::Expr, o: knf::Expr) -> bool
    decreases o, 1int,
{
    match e {
        uncurry::Expr::Atom { atom, ty } => o matches knf::Expr::Atom(ta) && ta.atom == atom
            && ta.ty == ty,
        uncurry::Expr::If { cond, then, else_, ty } => o matches knf::Expr::Let {
            bind,
            value,
            body,
            ty: lty,
            is_polymorphic,
        } && knf_gen_binder(bind) && !is_polymorphic && lty == ty && a2k_rel(*cond, *value) && (
        *body matches knf::Expr::If {
            cond: c2,
            then: t2,
            else_: e2,
            ty: ity,
        } && c2 == ASTAtom::Var(bind) && ity == ty && a2k_rel(*then, *t2) && a2k_rel(*else_, *e2)),
        uncurry::Expr::Let { bind, value, body, ty, is_polymorphic } => o matches knf::Expr::Let {
            bind: ob,
            value: ov,
            body: oo,
            ty: oty,
            is_polymorphic: op,
        } && ob == bind && oty == ty && op == is_polymorphic && a2k_rel(*value, *ov) && a2k_rel(
            *body,
            *oo,
        ),
        uncurry::Expr::Apply { func, args, ty } => {
            if *func is Atom {
                args_lets_rel(
                    args@,
                    TypedAtom { atom: func->Atom_atom, ty: func->Atom_ty },
                    Seq::empty(),
                    ty,
                    o,
                )
            } else {
                o matches knf::Expr::Let {
                    bind,
                    value,
                    body,
                    ty: lty,
                    is_polymorphic,
                } && knf_gen_binder(bind) && !is_polymorphic && lty == uexpr_ty(*func) && a2k_rel(
                    *func,
                    *value,
                ) && args_lets_rel(
                    args@,
                    TypedAtom { atom: ASTAtom::Var(bind), ty: uexpr_ty(*func) },
                    Seq::empty(),
                    ty,
                    *body,
                )
            }
        },
        uncurry::Expr::Lambda { args, body, ret_ty } => o matches knf::Expr::Lambda {
            args: oa,
            body: ob,
            ret_ty: ort,
        } && oa@ == args@ && ort == ret_ty && a2k_rel(*body, *ob),
    }
}

/// The K-normalization pass, with its fresh-name generator.
pub struct AST2KNF {
    pub name_generator: NameGenerator,
}

impl AST2KNF {
    /// The generator keeps its own token space and the `a2k_` prefix.
    pub open spec fn wf(&self) -> bool {
        self.name_generator.space == KNF_GEN_SPACE && self.name_generator.prefix@ == "a2k_"@
    }

    /// A converter with a fresh generator.
    pub fn new() -> (r: AST2KNF)
        ensures
            r.wf(),
    {
        AST2KNF { name_generator: NameGenerator::new("a2k_", KNF_GEN_SPACE) }
    }

    /// Convert an uncurried expression to K-normal form.
    pub fn convert(&mut self, expr: uncurry::Expr) -> (r: knf::Expr)
        requires
            old(self).wf(),
        ensures
            final(self).wf(),
            a2k_rel(expr, r),
        decreases expr,
    {
        match expr {
            uncurry::Expr::Atom { atom, ty } => knf::Expr::Atom(TypedAtom { atom, ty }),
            uncurry::Expr::If { cond, then, else_, ty } => {
                let cond_c = self.convert(*cond);
                let then_c = self.convert(*then);
                let else_c = self.convert(*else_);
                let cond_var = self.name_generator.fresh_ident();
                knf::Expr::Let {
                    bind: cond_var.clone(),
                    value: Box::new(cond_c),
                    body: Box::new(
                        knf::Expr::If {
                            cond: ASTAtom::Var(cond_var),
                            then: Box::new(then_c),
                            else_: Box::new(else_c),
                            ty: ty.clone(),
                        },
                    ),
                    ty,
                    is_polymorphic: false,
                }
            },
            uncurry::Expr::Let { bind, value, body, ty, is_polymorphic } => knf::Expr::Let {
                bind,
                value: Box::new(self.convert(*value)),
                body: Box::new(self.convert(*body)),
                ty,
                is_polymorphic,
            },
            uncurry::Expr::Apply { func, args, ty } => {
                let ghost whole_func = *func;
                let func_ty = func.ty();
                let func_is_atom = matches!(&*func, uncurry::Expr::Atom { .. });
                let (func_atom, func_let_opt): (TypedAtom, Option<(ResolvedIdent, knf::Expr)>) =
                    if func_is_atom {
                    match *func {
                        uncurry::Expr::Atom { atom, ty: atom_ty } => (
                            TypedAtom { atom, ty: atom_ty },
                            None,
                        ),
                        _ => {
                            proof {
                                assert(false);
                            }
                            (
                                TypedAtom { atom: ASTAtom::Unit, ty: Ty::Unit },
                                None,
                            )
                        },
                    }
                } else {
                    let func_ident = self.name_generator.fresh_ident();
                    let func_conv = self.convert(*func);
                    (
                        TypedAtom { atom: ASTAtom::Var(func_ident.clone()), ty: func_ty.clone() },
                        Some((func_ident, func_conv)),
                    )
                };

                // one fresh binder per argument, in argument order
                let mut binders: Vec<(ResolvedIdent, Ty)> = Vec::new();
                let mut i: usize = 0;
                while i < args.len()
                    invariant
                        i <= args@.len(),
                        binders@.len() == i,
                        self.wf(),
                        forall|k: int| 0 <= k < i ==> knf_gen_binder(#[trigger] binders@[k].0),
                        forall|k: int|
                            0 <= k < i ==> #[trigger] binders@[k].1 == uexpr_ty(args@[k]),
                    decreases args@.len() - i,
                {
                    let aty = args[i].ty();
                    let v = self.name_generator.fresh_ident();
                    binders.push((v, aty));
                    i = i + 1;
                }

                // the fully applied call, over the bound variables
                let mut atoms: Vec<TypedAtom> = Vec::new();
                let mut j: usize = 0;
                while j < binders.len()
                    invariant
                        j <= binders@.len(),
                        atoms@.len() == j,
                        forall|k: int|
                            0 <= k < j ==> #[trigger] atoms@[k] == (TypedAtom {
                                atom: ASTAtom::Var(binders@[k].0),
                                ty: binders@[k].1,
                            }),
                    decreases binders@.len() - j,
                {
                    let pair = &binders[j];
                    atoms.push(TypedAtom { atom: ASTAtom::Var(pair.0.clone()), ty: pair.1.clone() });
                    j = j + 1;
                }

                let ghost a0 = args@;
                let ghost argsv = args;
                let ghost ty0 = ty;
                let ghost all_atoms = atoms@;
                let nargs = args.len();
                let mut acc = knf::Expr::Apply { func: func_atom, args: atoms, ty };
                let ghost fa = TypedAtom { atom: func_atom.atom, ty: func_atom.ty };
                proof {
                    assert(all_atoms.skip(0) =~= all_atoms);
                    assert(args_lets_rel(a0.take(0), fa, all_atoms.skip(0), ty, acc));
                }
                proof {
                    assert(argsv == expr->Apply_args);
                    assert(decreases_to!(expr => expr->Apply_args));
                    assert(decreases_to!(argsv => argsv@));
                }
                let mut args_mut = args;
                let mut k: usize = 0;
                while k < nargs
                    invariant
                        k <= nargs,
                        nargs == a0.len(),
                        argsv@ == a0,
                        decreases_to!(expr => argsv),
                        decreases_to!(argsv => argsv@),
                        args_mut@ == a0.skip(k as int),
                        binders@.len() == a0.len(),
                        all_atoms.len() == a0.len(),
                        self.wf(),
                        forall|x: int| 0 <= x < a0.len() ==> knf_gen_binder(
                            #[trigger] binders@[x].0,
                        ),
                        forall|x: int|
                            0 <= x < a0.len() ==> #[trigger] binders@[x].1 == uexpr_ty(a0[x]),
                        forall|x: int|
                            0 <= x < a0.len() ==> #[trigger] all_atoms[x] == (TypedAtom {
                                atom: ASTAtom::Var(binders@[x].0),
                                ty: binders@[x].1,
                            }),
                        args_lets_rel(a0.take(k as int), fa, all_atoms.skip(k as int), ty, acc),
                    decreases nargs - k,
                {
                    proof {
                        assert(decreases_to!(expr => argsv));
                        assert(decreases_to!(argsv => argsv@));
                        assert(decreases_to!(argsv@ => argsv@[k as int]));
                    }
                    let arg = args_mut.remove(0);
                    proof {
                        assert(arg == a0[k as int]);
                    }
                    let conv = self.convert(arg);
                    let pair = &binders[k];
                    let bind_ident = pair.0.clone();
                    let bind_ty = pair.1.clone();
                    acc = knf::Expr::Let {
                        bind: bind_ident,
                        value: Box::new(conv),
                        body: Box::new(acc),
                        ty: bind_ty,
                        is_polymorphic: false,
                    };
                    k = k + 1;
                    proof {
                        assert(args_mut@ =~= a0.skip(k as int));
                        assert(a0.take(k as int).drop_last() =~= a0.take(k as int - 1));
                        assert(a0.take(k as int).last() == a0[k as int - 1]);
                        assert(binders@[k - 1].1 == uexpr_ty(a0[k - 1]));
                        assert(all_atoms[k - 1] == (TypedAtom {
                            atom: ASTAtom::Var(binders@[k - 1].0),
                            ty: binders@[k - 1].1,
                        }));
                        assert(seq![
                            TypedAtom {
                                atom: ASTAtom::Var(binders@[k - 1].0),
                                ty: uexpr_ty(a0[k - 1]),
                            },
                        ] + all_atoms.skip(k as int) =~= all_atoms.skip(k as int - 1));
                        assert(args_lets_rel(
                            a0.take(k as int),
                            fa,
                            all_atoms.skip(k as int),
                            ty,
                            acc,
                        ));
                    }
                }
                proof {
                    assert(a0.take(a0.len() as int) =~= a0);
                    assert(args_lets_rel(a0, fa, all_atoms.skip(a0.len() as int), ty0, acc));
                    assert(all_atoms.skip(a0.len() as int) =~= Seq::<TypedAtom>::empty());
                }

                match func_let_opt {
                    Some((func_ident, func_conv)) => {
                        proof {
                            assert(!(whole_func is Atom));
                        }
                        let r = knf::Expr::Let {
                            bind: func_ident,
                            value: Box::new(func_conv),
                            body: Box::new(acc),
                            ty: func_ty,
                            is_polymorphic: false,
                        };
                        proof {
                            assert(a2k_rel(expr, r));
                        }
                        r
                    },
                    None => {
                        proof {
                            assert(whole_func is Atom);
                            assert(fa == (TypedAtom {
                                atom: whole_func->Atom_atom,
                                ty: whole_func->Atom_ty,
                            }));
                            assert(a2k_rel(expr, acc));
                        }
                        acc
                    },
                }
            },
            uncurry::Expr::Lambda { args, body, ret_ty } => knf::Expr::Lambda {
                args,
                body: Box::new(self.convert(*body)),
                ret_ty,
            },
        }
    }
}

} // verus!
