//! Bidirectional Hindley-Milner type checking: unification with an
//! in-place substitution, instantiation of schemes, inference and
//! checking, and the final rewrite that leaves the tree
//! substitution-free.

use vstd::prelude::*;

verus! {

use vstd::set_lib::lemma_len_subset;
use vstd::string::StringExecFns;
use crate::errors::FrontendError;
use crate::subst::app_m;
use crate::subst::apply_subst;
use crate::subst::lemma_apply_clean;
use crate::subst::lemma_apply_fv;
use crate::subst::lemma_apply_idem;
use crate::subst::lemma_bind_apply;
use crate::subst::lemma_bind_refines;
use crate::subst::lemma_bind_wf;
use crate::subst::lemma_factor_subst;
use crate::subst::lemma_fv_contains;
use crate::subst::lemma_fv_finite;
use crate::subst::lemma_occurs_no_unifier;
use crate::subst::lemma_ty_apply_fv;
use crate::subst::sub_apply;
use crate::subst::sub_bind;
use crate::subst::sub_dom;
use crate::subst::sub_wf;
use crate::subst::ty_clean;
use crate::subst::ty_size;
use crate::subst::unifies;
use crate::ast::ASTAtom;
use crate::ast::ASTExpr;
use crate::name_resolution::ResolvedASTExpr;
use crate::ty::Scheme;
use crate::ty::Ty;
use crate::ty::TypeVar;
use crate::ty::TypingContext;
use crate::ty::alist_get;
use crate::ty::ty_free_vars;

/// A fully typed expression: every node carries a concrete type.
pub type TypedASTExpr = ASTExpr<crate::name_resolution::ResolvedIdent, Ty>;

/// `s2` refines `s1`: anything already rewritten by `s1` is rewritten
/// the same way again under `s2`.
pub open spec fn refines(s2: Seq<(TypeVar, Ty)>, s1: Seq<(TypeVar, Ty)>) -> bool {
    forall|u: Ty| #[trigger] sub_apply(s2, sub_apply(s1, u)) == sub_apply(s2, u)
}

/// Every map substitution `m` treats `s2` and `s1` alike: `m` absorbs
/// the extra bindings of `s2`.
pub open spec fn factors_through(
    m: Map<TypeVar, Ty>,
    s2: Seq<(TypeVar, Ty)>,
    s1: Seq<(TypeVar, Ty)>,
) -> bool {
    forall|u: Ty| app_m(m, #[trigger] sub_apply(s2, u)) == app_m(m, sub_apply(s1, u))
}

/// `s2` is a most general extension of `s1` for the problem `a = b`:
/// any unifier of the problem factors through it.
pub open spec fn mgu_from(s1: Seq<(TypeVar, Ty)>, s2: Seq<(TypeVar, Ty)>, a: Ty, b: Ty) -> bool {
    forall|m: Map<TypeVar, Ty>|
        #[trigger] unifies(m, sub_apply(s1, a), sub_apply(s1, b)) ==> factors_through(m, s2, s1)
}

/// Applying `s2` introduces no variables beyond those of `s1`'s output
/// and `bound`.
pub open spec fn fv_bounded(
    s2: Seq<(TypeVar, Ty)>,
    s1: Seq<(TypeVar, Ty)>,
    bound: Set<TypeVar>,
) -> bool {
    forall|u: Ty|
        ty_free_vars(#[trigger] sub_apply(s2, u)) <= ty_free_vars(sub_apply(s1, u)).union(bound)
}

/// The variable `v` never survives application of `s2`.
pub open spec fn eliminates(s2: Seq<(TypeVar, Ty)>, v: TypeVar) -> bool {
    forall|u: Ty| !ty_free_vars(#[trigger] sub_apply(s2, u)).contains(v)
}

/// The variables of the unification problem `a = b` under `s`.
pub open spec fn prob_vars(s: Seq<(TypeVar, Ty)>, a: Ty, b: Ty) -> Set<TypeVar> {
    ty_free_vars(sub_apply(s, a)).union(ty_free_vars(sub_apply(s, b)))
}

/// The problem's variable set is finite.
pub proof fn lemma_prob_vars_finite(s: Seq<(TypeVar, Ty)>, a: Ty, b: Ty)
    ensures
        prob_vars(s, a, b).finite(),
{
    lemma_fv_finite(sub_apply(s, a));
    lemma_fv_finite(sub_apply(s, b));
}

/// What a successful unification guarantees, going from substitution
/// `s1` to `s2` on the problem `a = b`.
pub open spec fn unify_post(s1: Seq<(TypeVar, Ty)>, s2: Seq<(TypeVar, Ty)>, a: Ty, b: Ty) -> bool {
    &&& sub_wf(s2)
    &&& sub_apply(s2, a) == sub_apply(s2, b)
    &&& refines(s2, s1)
    &&& mgu_from(s1, s2, a, b)
    &&& fv_bounded(s2, s1, prob_vars(s1, a, b))
    &&& (s2 == s1 || exists|v: TypeVar|
        prob_vars(s1, a, b).contains(v) && #[trigger] eliminates(s2, v))
}

/// The checker: a typing context, a fresh-variable counter, and the
/// substitution accumulated by unification.
pub struct TypeChecker {
    pub context: TypingContext,
    fresh: u64,
    subst: Vec<(TypeVar, Ty)>,
}

impl TypeChecker {
    /// The current substitution.
    pub closed spec fn subst_v(&self) -> Seq<(TypeVar, Ty)> {
        self.subst@
    }

    /// The fresh-variable counter.
    pub closed spec fn fresh_v(&self) -> u64 {
        self.fresh
    }

    /// The typing context's bindings.
    pub closed spec fn context_v(&self) -> Seq<
        (crate::name_resolution::NameIdentifier, crate::ty::SchemeG),
    > {
        self.context@
    }

    /// The substitution is kept resolved throughout.
    pub open spec fn wf(&self) -> bool {
        sub_wf(self.subst_v())
    }

    /// A checker with an empty context and no bindings.
    pub fn new() -> (r: TypeChecker)
        ensures
            r.wf(),
            r.subst_v() == Seq::<(TypeVar, Ty)>::empty(),
            r.fresh_v() == 0,
            r.context_v() == Seq::<(crate::name_resolution::NameIdentifier, crate::ty::SchemeG)>::empty(),
    {
        let r = TypeChecker { context: TypingContext::new(), fresh: 0, subst: Vec::new() };
        proof {
            assert(r.subst_v() =~= Seq::<(TypeVar, Ty)>::empty());
            assert(r.context_v() =~= Seq::<(
                crate::name_resolution::NameIdentifier,
                crate::ty::SchemeG,
            )>::empty());
        }
        r
    }

    /// Draw a fresh type variable.
    fn fresh_ty(&mut self) -> (r: Ty)
        ensures
            r == Ty::Mono(old(self).fresh),
            final(self).fresh == crate::name_resolution::sat_inc(old(self).fresh),
            final(self).subst == old(self).subst,
            final(self).context == old(self).context,
    {
        let v = self.fresh;
        if self.fresh < u64::MAX {
            self.fresh = self.fresh + 1;
        }
        Ty::Mono(v)
    }

    /// Apply the accumulated substitution throughout a type.
    fn apply_subst(&self, ty: &Ty) -> (r: Ty)
        ensures
            r == sub_apply(self.subst_v(), *ty),
    {
        apply_subst(ty, &self.subst)
    }

    /// Bind `var` to an already-applied type, after the occurs check.
    fn bind(&mut self, var: TypeVar, ty: Ty) -> (r: Result<(), FrontendError>)
        requires
            sub_wf(old(self).subst_v()),
            !sub_dom(old(self).subst_v()).contains(var),
            ty_clean(old(self).subst_v(), ty),
        ensures
            final(self).fresh == old(self).fresh,
            final(self).context == old(self).context,
            match r {
                Ok(_) => {
                    &&& (ty == Ty::Mono(var) ==> final(self).subst_v() == old(self).subst_v())
                    &&& (ty != Ty::Mono(var) ==> !ty_free_vars(ty).contains(var)
                        && final(self).subst_v() == sub_bind(old(self).subst_v(), var, ty))
                },
                Err(e) => {
                    &&& e is TypeError
                    &&& ty_free_vars(ty).contains(var)
                    &&& ty != Ty::Mono(var)
                    &&& final(self).subst_v() == old(self).subst_v()
                },
            },
    {
        let is_trivial = match &ty {
            Ty::Mono(x) => *x == var,
            _ => false,
        };
        if is_trivial {
            return Ok(());
        }
        proof {
            lemma_fv_contains(ty, var);
        }
        if self.occurs_check(var, &ty) {
            proof {
                reveal_strlit("occurs check failed");
            }
            return Err(FrontendError::TypeError(String::from_str("occurs check failed")));
        }
        let ghost olds = self.subst@;
        let mut nsub: Vec<(TypeVar, Ty)> = Vec::new();
        let mut i: usize = 0;
        while i < self.subst.len()
            invariant
                i <= self.subst@.len(),
                self.subst@ == olds,
                nsub@.len() == i,
                forall|k: int|
                    0 <= k < i ==> #[trigger] nsub@[k] == (olds[k].0, crate::ty::ty_apply(
                        olds[k].1,
                        var,
                        ty,
                    )),
            decreases self.subst@.len() - i,
        {
            let entry_var = self.subst[i].0;
            let entry_ty = self.subst[i].1.apply(var, &ty);
            nsub.push((entry_var, entry_ty));
            i = i + 1;
        }
        nsub.push((var, ty));
        self.subst = nsub;
        proof {
            assert(self.subst@ =~= sub_bind(olds, var, ty));
        }
        Ok(())
    }

    /// Whether `var` occurs in `ty` once the substitution is applied.
    /// The caller hands an already-applied type, so it is clean and no
    /// chasing through the substitution is needed.
    fn occurs_check(&self, var: TypeVar, ty: &Ty) -> (r: bool)
        requires
            sub_wf(self.subst_v()),
            ty_clean(self.subst_v(), *ty),
        ensures
            r == crate::ty::ty_contains_var(*ty, var),
            r == crate::ty::ty_contains_var(sub_apply(self.subst_v(), *ty), var),
    {
        proof {
            lemma_apply_clean(self.subst_v(), *ty);
        }
        ty.contains_var(var)
    }

    /// Unify two types, extending the substitution.  On success the
    /// result substitution makes the two types equal, refines the old
    /// substitution, and is most general; on failure no substitution
    /// whatever can make the applied types equal.
    fn unify(&mut self, a: Ty, b: Ty) -> (r: Result<(), FrontendError>)
        requires
            sub_wf(old(self).subst_v()),
        ensures
            sub_wf(final(self).subst_v()),
            final(self).fresh == old(self).fresh,
            final(self).context == old(self).context,
            refines(final(self).subst_v(), old(self).subst_v()),
            match r {
                Ok(_) => unify_post(old(self).subst_v(), final(self).subst_v(), a, b),
                Err(e) => e is TypeError && (forall|m: Map<TypeVar, Ty>|
                    !unifies(
                        m,
                        sub_apply(old(self).subst_v(), a),
                        sub_apply(old(self).subst_v(), b),
                    )),
            },
        decreases prob_vars(old(self).subst_v(), a, b).len(), ty_size(
            sub_apply(old(self).subst_v(), a),
        ),
    {
        let ghost s0 = self.subst@;
        let a1 = self.apply_subst(&a);
        let b1 = self.apply_subst(&b);
        let ghost av = a1;
        let ghost bv = b1;
        proof {
            lemma_apply_fv(s0, a);
            lemma_apply_fv(s0, b);
            lemma_apply_idem(s0, a);
            lemma_apply_idem(s0, b);
            lemma_prob_vars_finite(s0, a, b);
        }
        match (a1, b1) {
            (Ty::Int, Ty::Int) => {
                proof {
                    self.lemma_unify_refl(s0, a, b);
                }
                Ok(())
            },
            (Ty::Bool, Ty::Bool) => {
                proof {
                    self.lemma_unify_refl(s0, a, b);
                }
                Ok(())
            },
            (Ty::Unit, Ty::Unit) => {
                proof {
                    self.lemma_unify_refl(s0, a, b);
                }
                Ok(())
            },
            (Ty::Mono(x), t) => {
                let res = self.bind(x, t);
                proof {
                    if res is Err {
                        lemma_refines_refl(s0);
                    }
                    self.lemma_unify_bind(s0, a, b, x, bv, true, res is Ok);
                }
                res
            },
            (t, Ty::Mono(x)) => {
                let res = self.bind(x, t);
                proof {
                    if res is Err {
                        lemma_refines_refl(s0);
                    }
                    self.lemma_unify_bind(s0, a, b, x, av, false, res is Ok);
                }
                res
            },
            (Ty::Arrow(al, ar), Ty::Arrow(bl, br)) => {
                proof {
                    lemma_sub_components(s0, av, bv);
                    lemma_len_subset(prob_vars(s0, *al, *bl), prob_vars(s0, a, b));
                }
                let r1 = self.unify(*al, *bl);
                match r1 {
                    Err(e) => {
                        proof {
                            assert forall|m: Map<TypeVar, Ty>|
                                !unifies(m, sub_apply(s0, a), sub_apply(s0, b)) by {
                                if unifies(m, sub_apply(s0, a), sub_apply(s0, b)) {
                                    assert(app_m(m, av) == Ty::Arrow(
                                        Box::new(app_m(m, *al)),
                                        Box::new(app_m(m, *ar)),
                                    ));
                                    assert(unifies(m, sub_apply(s0, *al), sub_apply(s0, *bl)));
                                }
                            }
                        }
                        Err(e)
                    },
                    Ok(_) => {
                        let ghost s1 = self.subst@;
                        proof {
                            lemma_sub_components(s0, av, bv);
                            lemma_rec2_measure(s0, s1, a, b, av, bv, *al, *ar, *bl, *br);
                        }
                        let r2 = self.unify(*ar, *br);
                        let ghost s2 = self.subst@;
                        match r2 {
                            Err(e) => {
                                proof {
                                    lemma_refines_trans(s2, s1, s0);
                                    lemma_arrow_err(s0, s1, a, b, av, bv, *al, *ar, *bl, *br, s2);
                                }
                                Err(e)
                            },
                            Ok(_) => {
                                proof {
                                    lemma_arrow_ok(s0, s1, s2, a, b, av, bv, *al, *ar, *bl, *br);
                                }
                                Ok(())
                            },
                        }
                    },
                }
            },
            (x, y) => {
                proof {
                    lemma_refines_refl(s0);
                    assert forall|m: Map<TypeVar, Ty>|
                        !unifies(m, sub_apply(s0, a), sub_apply(s0, b)) by {
                        lemma_head_mismatch(m, x, y);
                    }
                    reveal_strlit("cannot unify: ");
                    reveal_strlit(" with ");
                }
                let mut msg = String::from_str("cannot unify: ");
                msg.append(x.show().as_str());
                msg.append(" with ");
                msg.append(y.show().as_str());
                Err(FrontendError::TypeError(msg))
            },
        }
    }

    /// Unification of two equal ground types leaves everything as it
    /// was, which is trivially most general.
    proof fn lemma_unify_refl(&self, s0: Seq<(TypeVar, Ty)>, a: Ty, b: Ty)
        requires
            sub_wf(s0),
            self.subst_v() == s0,
            sub_apply(s0, a) == sub_apply(s0, b),
        ensures
            unify_post(s0, s0, a, b),
    {
        assert forall|u: Ty| sub_apply(s0, sub_apply(s0, u)) == #[trigger] sub_apply(s0, u) by {
            lemma_apply_idem(s0, u);
        }
        lemma_apply_idem(s0, a);
        lemma_apply_idem(s0, b);
        assert forall|m: Map<TypeVar, Ty>|
            #[trigger] unifies(m, sub_apply(s0, a), sub_apply(s0, b)) implies factors_through(
            m,
            s0,
            s0,
        ) by {
        }
    }

    /// The facts established by a bind arm of unification.
    proof fn lemma_unify_bind(
        &self,
        s0: Seq<(TypeVar, Ty)>,
        a: Ty,
        b: Ty,
        x: TypeVar,
        t: Ty,
        mono_on_left: bool,
        ok: bool,
    )
        requires
            sub_wf(s0),
            ty_clean(s0, t),
            mono_on_left ==> sub_apply(s0, a) == Ty::Mono(x) && sub_apply(s0, b) == t,
            !mono_on_left ==> sub_apply(s0, b) == Ty::Mono(x) && sub_apply(s0, a) == t,
            !sub_dom(s0).contains(x),
            ok ==> (t == Ty::Mono(x) && self.subst_v() == s0) || (t != Ty::Mono(x)
                && !ty_free_vars(t).contains(x) && self.subst_v() == sub_bind(s0, x, t)),
            !ok ==> ty_free_vars(t).contains(x) && t != Ty::Mono(x),
        ensures
            ok ==> unify_post(s0, self.subst_v(), a, b),
            !ok ==> forall|m: Map<TypeVar, Ty>|
                !unifies(m, sub_apply(s0, a), sub_apply(s0, b)),
    {
        if !ok {
            lemma_occurs_no_unifier(x, t);
            assert forall|m: Map<TypeVar, Ty>|
                !unifies(m, sub_apply(s0, a), sub_apply(s0, b)) by {
                assert(!unifies(m, Ty::Mono(x), t));
            }
        } else if t == Ty::Mono(x) {
            self.lemma_unify_refl(s0, a, b);
        } else {
            let s1 = self.subst_v();
            lemma_bind_wf(s0, x, t);
            assert forall|u: Ty|
                sub_apply(s1, sub_apply(s0, u)) == #[trigger] sub_apply(s1, u) by {
                lemma_bind_refines(s0, x, t, u);
            }
            // the result unifies a and b
            lemma_bind_apply(s0, x, t, a);
            lemma_bind_apply(s0, x, t, b);
            lemma_ty_apply_fv(t, x, t);
            assert(crate::ty::ty_apply(t, x, t) == t) by {
                lemma_fv_contains(t, x);
                lemma_ty_apply_fv(t, x, t);
            }
            assert(sub_apply(s1, a) == sub_apply(s1, b));
            // most general
            assert forall|m: Map<TypeVar, Ty>|
                #[trigger] unifies(m, sub_apply(s0, a), sub_apply(s0, b)) implies factors_through(
                m,
                s1,
                s0,
            ) by {
                assert(app_m(m, Ty::Mono(x)) == app_m(m, t));
                assert forall|u: Ty|
                    app_m(m, #[trigger] sub_apply(s1, u)) == app_m(m, sub_apply(s0, u)) by {
                    lemma_bind_apply(s0, x, t, u);
                    lemma_factor_subst(m, x, t, sub_apply(s0, u));
                }
            }
            // bounded variables
            assert forall|u: Ty|
                ty_free_vars(#[trigger] sub_apply(s1, u)) <= ty_free_vars(sub_apply(s0, u)).union(
                prob_vars(s0, a, b),
            ) by {
                lemma_bind_apply(s0, x, t, u);
                lemma_ty_apply_fv(sub_apply(s0, u), x, t);
            }
            // x is eliminated
            assert(eliminates(s1, x)) by {
                assert forall|u: Ty| !ty_free_vars(#[trigger] sub_apply(s1, u)).contains(x) by {
                    lemma_bind_apply(s0, x, t, u);
                    lemma_ty_apply_fv(sub_apply(s0, u), x, t);
                }
            }
            assert(prob_vars(s0, a, b).contains(x));
        }
    }
}

/// A resolved substitution refines itself.
pub proof fn lemma_refines_refl(s: Seq<(TypeVar, Ty)>)
    requires
        sub_wf(s),
    ensures
        refines(s, s),
{
    assert forall|u: Ty| #[trigger] sub_apply(s, sub_apply(s, u)) == sub_apply(s, u) by {
        lemma_apply_idem(s, u);
    }
}

/// Refinement composes.
pub proof fn lemma_refines_trans(s2: Seq<(TypeVar, Ty)>, s1: Seq<(TypeVar, Ty)>, s0: Seq<(TypeVar, Ty)>)
    requires
        refines(s2, s1),
        refines(s1, s0),
    ensures
        refines(s2, s0),
{
    assert forall|u: Ty| #[trigger] sub_apply(s2, sub_apply(s0, u)) == sub_apply(s2, u) by {
        assert(sub_apply(s1, sub_apply(s0, u)) == sub_apply(s1, u));
        assert(sub_apply(s2, sub_apply(s1, sub_apply(s0, u))) == sub_apply(s2, sub_apply(s0, u)));
        assert(sub_apply(s2, sub_apply(s1, u)) == sub_apply(s2, u));
    }
}

/// An applied arrow's components are themselves applied and clean.
proof fn lemma_sub_components(s: Seq<(TypeVar, Ty)>, av: Ty, bv: Ty)
    requires
        sub_wf(s),
        ty_clean(s, av),
        ty_clean(s, bv),
        av is Arrow,
        bv is Arrow,
    ensures
        sub_apply(s, (*av->Arrow_0)) == (*av->Arrow_0),
        sub_apply(s, (*av->Arrow_1)) == (*av->Arrow_1),
        sub_apply(s, (*bv->Arrow_0)) == (*bv->Arrow_0),
        sub_apply(s, (*bv->Arrow_1)) == (*bv->Arrow_1),
        ty_clean(s, (*av->Arrow_0)) && ty_clean(s, (*av->Arrow_1)),
        ty_clean(s, (*bv->Arrow_0)) && ty_clean(s, (*bv->Arrow_1)),
        ty_free_vars((*av->Arrow_0)) <= ty_free_vars(av),
        ty_free_vars((*av->Arrow_1)) <= ty_free_vars(av),
        ty_free_vars((*bv->Arrow_0)) <= ty_free_vars(bv),
        ty_free_vars((*bv->Arrow_1)) <= ty_free_vars(bv),
{
    assert(ty_clean(s, (*av->Arrow_0)) && ty_clean(s, (*av->Arrow_1))) by {
        assert(ty_free_vars(av) == ty_free_vars((*av->Arrow_0)).union(ty_free_vars((*av->Arrow_1))));
    }
    assert(ty_clean(s, (*bv->Arrow_0)) && ty_clean(s, (*bv->Arrow_1))) by {
        assert(ty_free_vars(bv) == ty_free_vars((*bv->Arrow_0)).union(ty_free_vars((*bv->Arrow_1))));
    }
    lemma_apply_clean(s, (*av->Arrow_0));
    lemma_apply_clean(s, (*av->Arrow_1));
    lemma_apply_clean(s, (*bv->Arrow_0));
    lemma_apply_clean(s, (*bv->Arrow_1));
}

/// The measure decreases for the second component of an arrow
/// unification.
proof fn lemma_rec2_measure(
    s0: Seq<(TypeVar, Ty)>,
    s1: Seq<(TypeVar, Ty)>,
    a: Ty,
    b: Ty,
    av: Ty,
    bv: Ty,
    al: Ty,
    ar: Ty,
    bl: Ty,
    br: Ty,
)
    requires
        sub_wf(s0),
        av == sub_apply(s0, a),
        bv == sub_apply(s0, b),
        av == Ty::Arrow(Box::new(al), Box::new(ar)),
        bv == Ty::Arrow(Box::new(bl), Box::new(br)),
        unify_post(s0, s1, al, bl),
    ensures
        prob_vars(s1, ar, br).len() < prob_vars(s0, a, b).len() || (prob_vars(s1, ar, br).len()
            == prob_vars(s0, a, b).len() && ty_size(sub_apply(s1, ar)) < ty_size(
            sub_apply(s0, a),
        )),
{
    let big = prob_vars(s0, a, b);
    lemma_prob_vars_finite(s0, a, b);
    lemma_apply_fv(s0, a);
    lemma_apply_fv(s0, b);
    lemma_sub_components(s0, av, bv);
    assert(prob_vars(s0, al, bl) <= big);
    assert(prob_vars(s0, ar, br) <= big);
    assert(ty_free_vars(sub_apply(s1, ar)) <= ty_free_vars(sub_apply(s0, ar)).union(
        prob_vars(s0, al, bl),
    ));
    assert(ty_free_vars(sub_apply(s1, br)) <= ty_free_vars(sub_apply(s0, br)).union(
        prob_vars(s0, al, bl),
    ));
    assert(prob_vars(s1, ar, br) <= big);
    if s1 == s0 {
        lemma_len_subset(prob_vars(s1, ar, br), big);
        assert(sub_apply(s1, ar) == ar);
        assert(ty_size(sub_apply(s1, ar)) < ty_size(av));
        assert(ty_size(sub_apply(s0, a)) == ty_size(av));
    } else {
        let v = choose|v: TypeVar| prob_vars(s0, al, bl).contains(v) && #[trigger] eliminates(
            s1,
            v,
        );
        assert(!ty_free_vars(sub_apply(s1, ar)).contains(v));
        assert(!ty_free_vars(sub_apply(s1, br)).contains(v));
        assert(big.contains(v));
        prob_vars(s1, ar, br).lemma_subset_not_in_lt(big, v);
    }
}

/// If the second arrow component cannot be unified after the first,
/// the whole arrow problem has no unifier.
#[verifier::spinoff_prover]
#[verifier::rlimit(50)]
proof fn lemma_arrow_err(
    s0: Seq<(TypeVar, Ty)>,
    s1: Seq<(TypeVar, Ty)>,
    a: Ty,
    b: Ty,
    av: Ty,
    bv: Ty,
    al: Ty,
    ar: Ty,
    bl: Ty,
    br: Ty,
    s2: Seq<(TypeVar, Ty)>,
)
    requires
        sub_wf(s0),
        av == sub_apply(s0, a),
        bv == sub_apply(s0, b),
        av == Ty::Arrow(Box::new(al), Box::new(ar)),
        bv == Ty::Arrow(Box::new(bl), Box::new(br)),
        unify_post(s0, s1, al, bl),
        forall|m: Map<TypeVar, Ty>| !unifies(m, sub_apply(s1, ar), sub_apply(s1, br)),
    ensures
        forall|m: Map<TypeVar, Ty>| !unifies(m, sub_apply(s0, a), sub_apply(s0, b)),
{
    lemma_apply_fv(s0, a);
    lemma_apply_fv(s0, b);
    lemma_sub_components(s0, av, bv);
    assert forall|m: Map<TypeVar, Ty>| !unifies(m, sub_apply(s0, a), sub_apply(s0, b)) by {
        if unifies(m, sub_apply(s0, a), sub_apply(s0, b)) {
            assert(app_m(m, av) == Ty::Arrow(Box::new(app_m(m, al)), Box::new(app_m(m, ar))));
            assert(app_m(m, bv) == Ty::Arrow(Box::new(app_m(m, bl)), Box::new(app_m(m, br))));
            assert(unifies(m, sub_apply(s0, al), sub_apply(s0, bl)));
            assert(factors_through(m, s1, s0));
            assert(app_m(m, sub_apply(s1, ar)) == app_m(m, sub_apply(s0, ar)));
            assert(app_m(m, sub_apply(s1, br)) == app_m(m, sub_apply(s0, br)));
            assert(unifies(m, sub_apply(s1, ar), sub_apply(s1, br)));
        }
    }
}

/// Compose the two component unifications of an arrow.
#[verifier::spinoff_prover]
#[verifier::rlimit(50)]
proof fn lemma_arrow_ok(
    s0: Seq<(TypeVar, Ty)>,
    s1: Seq<(TypeVar, Ty)>,
    s2: Seq<(TypeVar, Ty)>,
    a: Ty,
    b: Ty,
    av: Ty,
    bv: Ty,
    al: Ty,
    ar: Ty,
    bl: Ty,
    br: Ty,
)
    requires
        sub_wf(s0),
        av == sub_apply(s0, a),
        bv == sub_apply(s0, b),
        av == Ty::Arrow(Box::new(al), Box::new(ar)),
        bv == Ty::Arrow(Box::new(bl), Box::new(br)),
        unify_post(s0, s1, al, bl),
        unify_post(s1, s2, ar, br),
    ensures
        unify_post(s0, s2, a, b),
{
    lemma_apply_fv(s0, a);
    lemma_apply_fv(s0, b);
    lemma_sub_components(s0, av, bv);
    // refinement composes
    assert forall|u: Ty| sub_apply(s2, sub_apply(s0, u)) == #[trigger] sub_apply(s2, u) by {
        assert(sub_apply(s1, sub_apply(s0, u)) == sub_apply(s1, u));
        assert(sub_apply(s2, sub_apply(s1, sub_apply(s0, u))) == sub_apply(s2, sub_apply(s0, u)));
        assert(sub_apply(s2, sub_apply(s1, u)) == sub_apply(s2, u));
    }
    // the result unifies a and b
    assert(sub_apply(s2, a) == sub_apply(s2, av));
    assert(sub_apply(s2, b) == sub_apply(s2, bv));
    assert(sub_apply(s2, av) == Ty::Arrow(
        Box::new(sub_apply(s2, al)),
        Box::new(sub_apply(s2, ar)),
    ));
    assert(sub_apply(s2, bv) == Ty::Arrow(
        Box::new(sub_apply(s2, bl)),
        Box::new(sub_apply(s2, br)),
    ));
    assert(sub_apply(s2, al) == sub_apply(s2, sub_apply(s1, al)));
    assert(sub_apply(s2, bl) == sub_apply(s2, sub_apply(s1, bl)));
    // most general
    assert forall|m: Map<TypeVar, Ty>|
        #[trigger] unifies(m, sub_apply(s0, a), sub_apply(s0, b)) implies factors_through(
        m,
        s2,
        s0,
    ) by {
        assert(app_m(m, av) == Ty::Arrow(Box::new(app_m(m, al)), Box::new(app_m(m, ar))));
        assert(app_m(m, bv) == Ty::Arrow(Box::new(app_m(m, bl)), Box::new(app_m(m, br))));
        assert(unifies(m, sub_apply(s0, al), sub_apply(s0, bl)));
        assert(factors_through(m, s1, s0));
        assert(app_m(m, sub_apply(s1, ar)) == app_m(m, sub_apply(s0, ar)));
        assert(app_m(m, sub_apply(s1, br)) == app_m(m, sub_apply(s0, br)));
        assert(unifies(m, sub_apply(s1, ar), sub_apply(s1, br)));
        assert(factors_through(m, s2, s1));
        assert forall|u: Ty|
            app_m(m, #[trigger] sub_apply(s2, u)) == app_m(m, sub_apply(s0, u)) by {
            assert(app_m(m, sub_apply(s2, u)) == app_m(m, sub_apply(s1, u)));
            assert(app_m(m, sub_apply(s1, u)) == app_m(m, sub_apply(s0, u)));
        }
    }
    // bounded variables
    let big = prob_vars(s0, a, b);
    assert forall|u: Ty|
        ty_free_vars(#[trigger] sub_apply(s2, u)) <= ty_free_vars(sub_apply(s0, u)).union(big) by {
        assert(ty_free_vars(sub_apply(s2, u)) <= ty_free_vars(sub_apply(s1, u)).union(
            prob_vars(s1, ar, br),
        ));
        assert(ty_free_vars(sub_apply(s1, u)) <= ty_free_vars(sub_apply(s0, u)).union(
            prob_vars(s0, al, bl),
        ));
        assert(ty_free_vars(sub_apply(s1, ar)) <= ty_free_vars(sub_apply(s0, ar)).union(
            prob_vars(s0, al, bl),
        ));
        assert(ty_free_vars(sub_apply(s1, br)) <= ty_free_vars(sub_apply(s0, br)).union(
            prob_vars(s0, al, bl),
        ));
    }
    // elimination
    if s1 == s0 {
        if s2 == s1 {
        } else {
            let v = choose|v: TypeVar| prob_vars(s1, ar, br).contains(v) && #[trigger] eliminates(
                s2,
                v,
            );
            assert(sub_apply(s1, ar) == ar && sub_apply(s1, br) == br);
            assert(big.contains(v));
            assert(prob_vars(s0, a, b).contains(v) && eliminates(s2, v));
        }
    } else {
        let v = choose|v: TypeVar| prob_vars(s0, al, bl).contains(v) && #[trigger] eliminates(
            s1,
            v,
        );
        assert(big.contains(v));
        assert(eliminates(s2, v)) by {
            assert forall|u: Ty| !ty_free_vars(#[trigger] sub_apply(s2, u)).contains(v) by {
                assert(ty_free_vars(sub_apply(s2, u)) <= ty_free_vars(sub_apply(s1, u)).union(
                    prob_vars(s1, ar, br),
                ));
                assert(!ty_free_vars(sub_apply(s1, u)).contains(v));
                assert(!ty_free_vars(sub_apply(s1, ar)).contains(v));
                assert(!ty_free_vars(sub_apply(s1, br)).contains(v));
            }
        }
    }
}

/// Types with different non-variable heads have no unifier.
proof fn lemma_head_mismatch(m: Map<TypeVar, Ty>, x: Ty, y: Ty)
    requires
        !(x is Mono),
        !(y is Mono),
        !(x is Arrow && y is Arrow),
        x != y || (x is Arrow && y is Arrow),
        !(x is Int && y is Int),
        !(x is Bool && y is Bool),
        !(x is Unit && y is Unit),
    ensures
        !unifies(m, x, y),
{
}


/// A fully annotated expression: every type slot is filled.
pub open spec fn annotated(e: ResolvedASTExpr) -> bool
    decreases e,
{
    match e {
        ASTExpr::Atom(_, t) => t is Some,
        ASTExpr::If { cond, then, else_, ty } => ty is Some && annotated(*cond) && annotated(*then)
            && annotated(*else_),
        ASTExpr::Let { value, body, ty, .. } => ty is Some && annotated(*value) && annotated(
            *body,
        ),
        ASTExpr::Apply { func, args, ty } => ty is Some && annotated(*func) && annotated(*args),
        ASTExpr::Lambda { arg, body, ret_ty } => arg.1 is Some && ret_ty is Some && annotated(
            *body,
        ),
    }
}

/// Two resolved trees with the same shape, identifiers, atoms and
/// schemes; only the type slots may differ.
pub open spec fn skel_eq(a: ResolvedASTExpr, b: ResolvedASTExpr) -> bool
    decreases a,
{
    match a {
        ASTExpr::Atom(at, _) => b matches ASTExpr::Atom(bt, _) && bt == at,
        ASTExpr::If { cond, then, else_, .. } => b matches ASTExpr::If {
            cond: bc,
            then: bt,
            else_: be,
            ..
        } && skel_eq(*cond, *bc) && skel_eq(*then, *bt) && skel_eq(*else_, *be),
        ASTExpr::Let { bind, value, body, .. } => b matches ASTExpr::Let {
            bind: bb,
            value: bv,
            body: bo,
            ..
        } && bb == bind && skel_eq(*value, *bv) && skel_eq(*body, *bo),
        ASTExpr::Apply { func, args, .. } => b matches ASTExpr::Apply {
            func: bf,
            args: ba,
            ..
        } && skel_eq(*func, *bf) && skel_eq(*args, *ba),
        ASTExpr::Lambda { arg, body, .. } => b matches ASTExpr::Lambda {
            arg: ba,
            body: bo,
            ..
        } && ba.0 == arg.0 && skel_eq(*body, *bo),
    }
}

/// The type slot at a tree's own root node.
pub open spec fn root_slot(e: ResolvedASTExpr) -> Option<Ty> {
    match e {
        ASTExpr::Atom(_, t) => t,
        ASTExpr::If { ty, .. } => ty,
        ASTExpr::Let { ty, .. } => ty,
        ASTExpr::Apply { ty, .. } => ty,
        ASTExpr::Lambda { ret_ty, .. } => ret_ty,
    }
}

/// Ground types pass through any substitution; in particular an
/// operator's arrow type does.
pub proof fn lemma_sub_apply_op(s: Seq<(TypeVar, Ty)>, op: crate::ast::OpType)
    ensures
        sub_apply(s, crate::ast::op_arrow_ty(op)) == crate::ast::op_arrow_ty(op),
{
    let res = if crate::ast::op_is_arith(op) {
        Ty::Int
    } else {
        Ty::Bool
    };
    assert(sub_apply(s, Ty::Int) == Ty::Int);
    assert(sub_apply(s, Ty::Bool) == Ty::Bool);
    assert(sub_apply(s, res) == res);
    assert(sub_apply(s, Ty::Arrow(Box::new(Ty::Int), Box::new(res))) == Ty::Arrow(
        Box::new(Ty::Int),
        Box::new(res),
    ));
    assert(sub_apply(s, Ty::Arrow(Box::new(Ty::Int), Box::new(Ty::Arrow(Box::new(Ty::Int), Box::new(res)))))
        == Ty::Arrow(Box::new(Ty::Int), Box::new(Ty::Arrow(Box::new(Ty::Int), Box::new(res)))));
}

/// Apply a substitution under an optional type slot.
pub open spec fn opt_apply(s: Seq<(TypeVar, Ty)>, t: Option<Ty>) -> Option<Ty> {
    match t {
        Some(u) => Some(sub_apply(s, u)),
        None => None,
    }
}

/// How `final_apply` rewrites a tree: same skeleton, every filled slot
/// rewritten through the substitution.
pub open spec fn fapply_rel(s: Seq<(TypeVar, Ty)>, a: ResolvedASTExpr, b: ResolvedASTExpr) -> bool
    decreases a,
{
    match a {
        ASTExpr::Atom(at, t) => b matches ASTExpr::Atom(bt, t2) && bt == at && t2 == opt_apply(
            s,
            t,
        ),
        ASTExpr::If { cond, then, else_, ty } => b matches ASTExpr::If {
            cond: bc,
            then: bt,
            else_: be,
            ty: ty2,
        } && ty2 == opt_apply(s, ty) && fapply_rel(s, *cond, *bc) && fapply_rel(s, *then, *bt)
            && fapply_rel(s, *else_, *be),
        ASTExpr::Let { bind, value, body, ty } => b matches ASTExpr::Let {
            bind: bb,
            value: bv,
            body: bo,
            ty: ty2,
        } && bb == bind && ty2 == opt_apply(s, ty) && fapply_rel(s, *value, *bv) && fapply_rel(
            s,
            *body,
            *bo,
        ),
        ASTExpr::Apply { func, args, ty } => b matches ASTExpr::Apply {
            func: bf,
            args: ba,
            ty: ty2,
        } && ty2 == opt_apply(s, ty) && fapply_rel(s, *func, *bf) && fapply_rel(s, *args, *ba),
        ASTExpr::Lambda { arg, body, ret_ty } => b matches ASTExpr::Lambda {
            arg: ba,
            body: bo,
            ret_ty: rt2,
        } && ba.0 == arg.0 && ba.1 == opt_apply(s, arg.1) && rt2 == opt_apply(s, ret_ty)
            && fapply_rel(s, *body, *bo),
    }
}

/// How a fully annotated resolved tree unwraps into a typed tree.
pub open spec fn unwrap_rel(a: ResolvedASTExpr, b: TypedASTExpr) -> bool
    decreases a,
{
    match a {
        ASTExpr::Atom(at, t) => b matches ASTExpr::Atom(bt, t2) && bt == at && Some(t2) == t,
        ASTExpr::If { cond, then, else_, ty } => b matches ASTExpr::If {
            cond: bc,
            then: bt,
            else_: be,
            ty: ty2,
        } && Some(ty2) == ty && unwrap_rel(*cond, *bc) && unwrap_rel(*then, *bt) && unwrap_rel(
            *else_,
            *be,
        ),
        ASTExpr::Let { bind, value, body, ty } => b matches ASTExpr::Let {
            bind: bb,
            value: bv,
            body: bo,
            ty: ty2,
        } && bb == bind && Some(ty2) == ty && unwrap_rel(*value, *bv) && unwrap_rel(*body, *bo),
        ASTExpr::Apply { func, args, ty } => b matches ASTExpr::Apply {
            func: bf,
            args: ba,
            ty: ty2,
        } && Some(ty2) == ty && unwrap_rel(*func, *bf) && unwrap_rel(*args, *ba),
        ASTExpr::Lambda { arg, body, ret_ty } => b matches ASTExpr::Lambda {
            arg: ba,
            body: bo,
            ret_ty: rt2,
        } && ba.0 == arg.0 && Some(ba.1) == arg.1 && Some(rt2) == ret_ty && unwrap_rel(*body, *bo),
    }
}

/// Every type in a typed tree is free of variables the substitution
/// binds: the tree is substitution-free.
pub open spec fn typed_tree_clean(s: Seq<(TypeVar, Ty)>, t: TypedASTExpr) -> bool
    decreases t,
{
    match t {
        ASTExpr::Atom(_, ty) => ty_clean(s, ty),
        ASTExpr::If { cond, then, else_, ty } => ty_clean(s, ty) && typed_tree_clean(s, *cond)
            && typed_tree_clean(s, *then) && typed_tree_clean(s, *else_),
        ASTExpr::Let { value, body, ty, .. } => ty_clean(s, ty) && typed_tree_clean(s, *value)
            && typed_tree_clean(s, *body),
        ASTExpr::Apply { func, args, ty } => ty_clean(s, ty) && typed_tree_clean(s, *func)
            && typed_tree_clean(s, *args),
        ASTExpr::Lambda { arg, body, ret_ty } => ty_clean(s, arg.1) && ty_clean(s, ret_ty)
            && typed_tree_clean(s, *body),
    }
}

/// A typed tree with the same skeleton as the resolved tree it came
/// from.
pub open spec fn tyck_skel(a: ResolvedASTExpr, b: TypedASTExpr) -> bool
    decreases a,
{
    match a {
        ASTExpr::Atom(at, _) => b matches ASTExpr::Atom(bt, _) && bt == at,
        ASTExpr::If { cond, then, else_, .. } => b matches ASTExpr::If {
            cond: bc,
            then: bt,
            else_: be,
            ..
        } && tyck_skel(*cond, *bc) && tyck_skel(*then, *bt) && tyck_skel(*else_, *be),
        ASTExpr::Let { bind, value, body, .. } => b matches ASTExpr::Let {
            bind: bb,
            value: bv,
            body: bo,
            ..
        } && bb == bind && tyck_skel(*value, *bv) && tyck_skel(*body, *bo),
        ASTExpr::Apply { func, args, .. } => b matches ASTExpr::Apply {
            func: bf,
            args: ba,
            ..
        } && tyck_skel(*func, *bf) && tyck_skel(*args, *ba),
        ASTExpr::Lambda { arg, body, .. } => b matches ASTExpr::Lambda {
            arg: ba,
            body: bo,
            ..
        } && ba.0 == arg.0 && tyck_skel(*body, *bo),
    }
}

/// Composing inference, the final rewrite and unwrapping keeps the
/// skeleton and leaves a substitution-free tree.
pub proof fn lemma_tyck_compose(
    s: Seq<(TypeVar, Ty)>,
    a: ResolvedASTExpr,
    b: ResolvedASTExpr,
    c: ResolvedASTExpr,
    d: TypedASTExpr,
)
    requires
        sub_wf(s),
        skel_eq(a, b),
        fapply_rel(s, b, c),
        unwrap_rel(c, d),
    ensures
        tyck_skel(a, d),
        typed_tree_clean(s, d),
    decreases a,
{
    match a {
        ASTExpr::Atom(at, _) => {
            lemma_apply_fv(s, b->Atom_1->Some_0);
        },
        ASTExpr::If { cond, then, else_, .. } => {
            lemma_apply_fv(s, b->If_ty->Some_0);
            lemma_tyck_compose(s, *cond, *b->If_cond, *c->If_cond, *d->If_cond);
            lemma_tyck_compose(s, *then, *b->If_then, *c->If_then, *d->If_then);
            lemma_tyck_compose(s, *else_, *b->If_else_, *c->If_else_, *d->If_else_);
        },
        ASTExpr::Let { value, body, .. } => {
            lemma_apply_fv(s, b->Let_ty->Some_0);
            lemma_tyck_compose(s, *value, *b->Let_value, *c->Let_value, *d->Let_value);
            lemma_tyck_compose(s, *body, *b->Let_body, *c->Let_body, *d->Let_body);
        },
        ASTExpr::Apply { func, args, .. } => {
            lemma_apply_fv(s, b->Apply_ty->Some_0);
            lemma_tyck_compose(s, *func, *b->Apply_func, *c->Apply_func, *d->Apply_func);
            lemma_tyck_compose(s, *args, *b->Apply_args, *c->Apply_args, *d->Apply_args);
        },
        ASTExpr::Lambda { body, .. } => {
            lemma_apply_fv(s, b->Lambda_arg.1->Some_0);
            lemma_apply_fv(s, b->Lambda_ret_ty->Some_0);
            lemma_tyck_compose(s, *body, *b->Lambda_body, *c->Lambda_body, *d->Lambda_body);
        },
    }
}

/// Rewriting slots preserves the annotated property.
pub proof fn lemma_fapply_annotated(s: Seq<(TypeVar, Ty)>, a: ResolvedASTExpr, b: ResolvedASTExpr)
    requires
        annotated(a),
        fapply_rel(s, a, b),
    ensures
        annotated(b),
    decreases a,
{
    match a {
        ASTExpr::Atom(..) => {
        },
        ASTExpr::If { cond, then, else_, .. } => {
            lemma_fapply_annotated(s, *cond, *b->If_cond);
            lemma_fapply_annotated(s, *then, *b->If_then);
            lemma_fapply_annotated(s, *else_, *b->If_else_);
        },
        ASTExpr::Let { value, body, .. } => {
            lemma_fapply_annotated(s, *value, *b->Let_value);
            lemma_fapply_annotated(s, *body, *b->Let_body);
        },
        ASTExpr::Apply { func, args, .. } => {
            lemma_fapply_annotated(s, *func, *b->Apply_func);
            lemma_fapply_annotated(s, *args, *b->Apply_args);
        },
        ASTExpr::Lambda { body, .. } => {
            lemma_fapply_annotated(s, *body, *b->Lambda_body);
        },
    }
}

/// The fresh substitution that instantiates a scheme, mapping each
/// quantified variable to a fresh one.
pub open spec fn inst_map_of(vars: Seq<TypeVar>, start: u64) -> Seq<(TypeVar, Ty)> {
    Seq::new(vars.len(), |i: int| (vars[i], Ty::Mono(sat_add(start, i as nat))))
}

/// Add to a counter, stopping at the largest representable value.
pub open spec fn sat_add(n: u64, k: nat) -> u64 {
    if n + k <= u64::MAX {
        (n + k) as u64
    } else {
        u64::MAX
    }
}

/// Replace the type slot at a node's own position.
fn set_ty_slot(e: ResolvedASTExpr, t: Ty) -> (r: ResolvedASTExpr)
    ensures
        forall|src: ResolvedASTExpr| skel_eq(src, e) ==> skel_eq(src, r),
        annotated(e) ==> annotated(r),
        root_slot(r) == Some(t),
{
    match e {
        ASTExpr::Atom(atom, _) => ASTExpr::Atom(atom, Some(t)),
        ASTExpr::If { cond, then, else_, ty: _ } => ASTExpr::If { cond, then, else_, ty: Some(t) },
        ASTExpr::Let { bind, value, body, ty: _ } => ASTExpr::Let {
            bind,
            value,
            body,
            ty: Some(t),
        },
        ASTExpr::Apply { func, args, ty: _ } => ASTExpr::Apply { func, args, ty: Some(t) },
        ASTExpr::Lambda { arg, body, ret_ty: _ } => ASTExpr::Lambda {
            arg: (arg.0, arg.1),
            body,
            ret_ty: Some(t),
        },
    }
}

/// Unwrap a fully annotated tree into a typed tree.
fn unwrap_ast_expr(e: ResolvedASTExpr) -> (r: TypedASTExpr)
    requires
        annotated(e),
    ensures
        unwrap_rel(e, r),
    decreases e,
{
    match e {
        ASTExpr::Atom(atom, ty) => {
            let t = match ty {
                Some(t) => t,
                None => Ty::Unit,
            };
            ASTExpr::Atom(atom, t)
        },
        ASTExpr::If { cond, then, else_, ty } => {
            let t = match ty {
                Some(t) => t,
                None => Ty::Unit,
            };
            ASTExpr::If {
                cond: Box::new(unwrap_ast_expr(*cond)),
                then: Box::new(unwrap_ast_expr(*then)),
                else_: Box::new(unwrap_ast_expr(*else_)),
                ty: t,
            }
        },
        ASTExpr::Let { bind, value, body, ty } => {
            let t = match ty {
                Some(t) => t,
                None => Ty::Unit,
            };
            ASTExpr::Let {
                bind,
                value: Box::new(unwrap_ast_expr(*value)),
                body: Box::new(unwrap_ast_expr(*body)),
                ty: t,
            }
        },
        ASTExpr::Apply { func, args, ty } => {
            let t = match ty {
                Some(t) => t,
                None => Ty::Unit,
            };
            ASTExpr::Apply {
                func: Box::new(unwrap_ast_expr(*func)),
                args: Box::new(unwrap_ast_expr(*args)),
                ty: t,
            }
        },
        ASTExpr::Lambda { arg, body, ret_ty } => {
            let (ident, arg_ty) = arg;
            let at = match arg_ty {
                Some(t) => t,
                None => Ty::Unit,
            };
            let rt = match ret_ty {
                Some(t) => t,
                None => Ty::Unit,
            };
            ASTExpr::Lambda { arg: (ident, at), body: Box::new(unwrap_ast_expr(*body)), ret_ty: rt }
        },
    }
}

impl TypeChecker {
    /// Instantiate a scheme: each quantified variable is replaced by a
    /// fresh type variable throughout the scheme's type.
    pub fn instantiate(&mut self, scheme: &Scheme) -> (r: Ty)
        ensures
            r == sub_apply(inst_map_of(scheme@.vars, old(self).fresh_v()), scheme.ty),
            final(self).fresh_v() == sat_add(old(self).fresh_v(), scheme@.vars.len()),
            final(self).subst_v() == old(self).subst_v(),
            final(self).context_v() == old(self).context_v(),
    {
        let ghost start = self.fresh;
        let mut m: Vec<(TypeVar, Ty)> = Vec::new();
        let mut i: usize = 0;
        proof {
            assert(m@ =~= inst_map_of(scheme.vars@.take(0), start));
        }
        while i < scheme.vars.len()
            invariant
                i <= scheme.vars@.len(),
                self.fresh == sat_add(start, i as nat),
                self.subst == old(self).subst,
                self.context == old(self).context,
                m@ == inst_map_of(scheme.vars@.take(i as int), start),
            decreases scheme.vars@.len() - i,
        {
            let v = scheme.vars[i];
            let f = self.fresh_ty();
            m.push((v, f));
            i = i + 1;
            proof {
                assert(m@ =~= inst_map_of(scheme.vars@.take(i as int), start));
            }
        }
        proof {
            assert(scheme.vars@.take(scheme.vars@.len() as int) =~= scheme.vars@);
            assert(m@ =~= inst_map_of(scheme.vars@, start));
        }
        apply_subst(&scheme.ty, &m)
    }

    /// Infer a type for `expr`, annotating every node.  The returned
    /// type is fully rewritten by the substitution, which only grows
    /// more precise; the annotated tree keeps the input's skeleton.
    pub fn infer(&mut self, expr: ResolvedASTExpr) -> (r: Result<
        (Ty, ResolvedASTExpr),
        FrontendError,
    >)
        requires
            old(self).wf(),
        ensures
            final(self).wf(),
            refines(final(self).subst_v(), old(self).subst_v()),
            match r {
                Ok((t, out)) => annotated(out) && skel_eq(expr, out) && sub_apply(
                    final(self).subst_v(),
                    t,
                ) == t,
                Err(e) => e is TypeError || e is UnboundVariable,
            },
            (expr matches ASTExpr::Atom(a, _) && !(a is Var)) ==> r is Ok,
            expr matches ASTExpr::Atom(ASTAtom::Int(_), _) ==> (r matches Ok(p) && p.0 == Ty::Int
                && root_slot(p.1) == Some(Ty::Int)),
            expr matches ASTExpr::Atom(ASTAtom::Bool(_), _) ==> (r matches Ok(p) && p.0
                == Ty::Bool && root_slot(p.1) == Some(Ty::Bool)),
            expr matches ASTExpr::Atom(ASTAtom::Unit, _) ==> (r matches Ok(p) && p.0 == Ty::Unit
                && root_slot(p.1) == Some(Ty::Unit)),
            expr matches ASTExpr::Atom(ASTAtom::Op(op), _) ==> (r matches Ok(p) && p.0
                == crate::ast::op_arrow_ty(op) && root_slot(p.1) == Some(
                crate::ast::op_arrow_ty(op),
            )),
            expr matches ASTExpr::Atom(ASTAtom::Var(v), _) ==> ((r is Err) == (alist_get(
                old(self).context_v(),
                v.id,
            ) is None) && (r matches Err(e2) ==> e2 is UnboundVariable) && (r matches Ok(p) ==> (
            alist_get(old(self).context_v(), v.id) matches Some(sch) && root_slot(p.1) == Some(
                sub_apply(inst_map_of(sch.vars, old(self).fresh_v()), sch.ty),
            ) && p.0 == sub_apply(
                old(self).subst_v(),
                sub_apply(inst_map_of(sch.vars, old(self).fresh_v()), sch.ty),
            )))),
            r matches Ok(p) ==> (!(expr is Lambda) ==> (root_slot(p.1) matches Some(t1) && p.0
                == sub_apply(final(self).subst_v(), t1))),
            r matches Ok(p) ==> (expr is Lambda ==> (p.1 matches ASTExpr::Lambda {
                arg: a2,
                ret_ty: rt2,
                ..
            } && a2.1 == expr->Lambda_arg.1 && (rt2 matches Some(bt) && a2.1 matches Some(at)
                && p.0 == sub_apply(final(self).subst_v(), Ty::Arrow(Box::new(at), Box::new(bt)))))),
            expr matches ASTExpr::Lambda { arg, .. } ==> (arg.1 is None ==> r is Err),
        decreases expr, 1int,
    {
        let ghost s0 = self.subst@;
        match expr {
            ASTExpr::Atom(atom, _ty) => {
                match atom {
                    ASTAtom::Int(i) => {
                        proof {
                            lemma_refines_refl(s0);
                        }
                        let t = self.apply_subst(&Ty::Int);
                        proof {
                            lemma_apply_idem(s0, Ty::Int);
                        }
                        Ok((t, ASTExpr::Atom(ASTAtom::Int(i), Some(Ty::Int))))
                    },
                    ASTAtom::Bool(bv) => {
                        proof {
                            lemma_refines_refl(s0);
                            lemma_apply_idem(s0, Ty::Bool);
                        }
                        let t = self.apply_subst(&Ty::Bool);
                        Ok((t, ASTExpr::Atom(ASTAtom::Bool(bv), Some(Ty::Bool))))
                    },
                    ASTAtom::Unit => {
                        proof {
                            lemma_refines_refl(s0);
                            lemma_apply_idem(s0, Ty::Unit);
                        }
                        let t = self.apply_subst(&Ty::Unit);
                        Ok((t, ASTExpr::Atom(ASTAtom::Unit, Some(Ty::Unit))))
                    },
                    ASTAtom::Op(op) => {
                        proof {
                            lemma_refines_refl(s0);
                            lemma_apply_idem(s0, crate::ast::op_arrow_ty(op));
                            lemma_sub_apply_op(s0, op);
                        }
                        let op_ty = crate::ast::make_op_arrow_ty(op);
                        let t = self.apply_subst(&op_ty);
                        Ok((t, ASTExpr::Atom(ASTAtom::Op(op), Some(op_ty))))
                    },
                    ASTAtom::Var(ident) => {
                        let found = match self.context.get(&ident.id) {
                            Some(sch) => Some(sch.clone()),
                            None => None,
                        };
                        match found {
                            None => {
                                proof {
                                    lemma_refines_refl(s0);
                                }
                                Err(FrontendError::UnboundVariable(ident.name.clone()))
                            },
                            Some(scheme) => {
                                let ty = self.instantiate(&scheme);
                                let t = self.apply_subst(&ty);
                                proof {
                                    lemma_refines_refl(s0);
                                    lemma_apply_idem(s0, t);
                                }
                                Ok((t, ASTExpr::Atom(ASTAtom::Var(ident), Some(ty))))
                            },
                        }
                    },
                }
            },
            ASTExpr::If { cond, then, else_, ty: _ } => {
                let (cond_ty, cond_out) = match self.infer(*cond) {
                    Ok(p) => p,
                    Err(e) => {
                        return Err(e);
                    },
                };
                let ghost s1 = self.subst@;
                match self.unify(cond_ty, Ty::Bool) {
                    Ok(_) => {
                    },
                    Err(e) => {
                        proof {
                            lemma_refines_trans(self.subst@, s1, s0);
                        }
                        return Err(e);
                    },
                }
                let ghost s2 = self.subst@;
                proof {
                    lemma_refines_trans(s2, s1, s0);
                }
                let (then_ty, then_out) = match self.infer(*then) {
                    Ok(p) => p,
                    Err(e) => {
                        proof {
                            lemma_refines_trans(self.subst@, s2, s0);
                        }
                        return Err(e);
                    },
                };
                let ghost s3 = self.subst@;
                proof {
                    lemma_refines_trans(s3, s2, s0);
                }
                let (else_ty, else_out) = match self.infer(*else_) {
                    Ok(p) => p,
                    Err(e) => {
                        proof {
                            lemma_refines_trans(self.subst@, s3, s0);
                        }
                        return Err(e);
                    },
                };
                let ghost s4 = self.subst@;
                proof {
                    lemma_refines_trans(s4, s3, s0);
                }
                match self.unify(then_ty.clone(), else_ty) {
                    Ok(_) => {
                    },
                    Err(e) => {
                        proof {
                            lemma_refines_trans(self.subst@, s4, s0);
                        }
                        return Err(e);
                    },
                }
                let ghost s5 = self.subst@;
                proof {
                    lemma_refines_trans(s5, s4, s0);
                }
                let t0 = self.apply_subst(&then_ty);
                let t = self.apply_subst(&t0);
                proof {
                    lemma_apply_idem(s5, t0);
                    lemma_apply_idem(s5, t);
                }
                Ok(
                    (
                        t,
                        ASTExpr::If {
                            cond: Box::new(cond_out),
                            then: Box::new(then_out),
                            else_: Box::new(else_out),
                            ty: Some(t0),
                        },
                    ),
                )
            },
            ASTExpr::Let { bind, value, body, ty: _ } => {
                let (ident, scheme_opt) = bind;
                let value_out: ResolvedASTExpr;
                match &scheme_opt {
                    None => {
                        let (value_ty, vout) = match self.infer(*value) {
                            Ok(p) => p,
                            Err(e) => {
                                return Err(e);
                            },
                        };
                        value_out = vout;
                        self.context.insert(
                            ident.id.clone(),
                            Scheme { ty: value_ty, constraints: Vec::new(), vars: Vec::new() },
                        );
                    },
                    Some(scheme) => {
                        let instantiated_ty = self.instantiate(scheme);
                        self.context.insert(ident.id.clone(), scheme.clone());
                        let vout = match self.check(*value, &instantiated_ty) {
                            Ok(p) => p,
                            Err(e) => {
                                return Err(e);
                            },
                        };
                        value_out = vout;
                    },
                }
                let ghost s1 = self.subst@;
                let (body_ty, body_out) = match self.infer(*body) {
                    Ok(p) => p,
                    Err(e) => {
                        proof {
                            lemma_refines_trans(self.subst@, s1, s0);
                        }
                        return Err(e);
                    },
                };
                let ghost s2 = self.subst@;
                proof {
                    lemma_refines_trans(s2, s1, s0);
                }
                let t0 = self.apply_subst(&body_ty);
                let t = self.apply_subst(&t0);
                proof {
                    lemma_apply_idem(s2, t0);
                    lemma_apply_idem(s2, t);
                }
                Ok(
                    (
                        t,
                        ASTExpr::Let {
                            bind: (ident, scheme_opt),
                            value: Box::new(value_out),
                            body: Box::new(body_out),
                            ty: Some(t0),
                        },
                    ),
                )
            },
            ASTExpr::Apply { func, args, ty: _ } => {
                let (func_ty, func_out) = match self.infer(*func) {
                    Ok(p) => p,
                    Err(e) => {
                        return Err(e);
                    },
                };
                let ghost s1 = self.subst@;
                let (arg_ty, args_out) = match self.infer(*args) {
                    Ok(p) => p,
                    Err(e) => {
                        proof {
                            lemma_refines_trans(self.subst@, s1, s0);
                        }
                        return Err(e);
                    },
                };
                let ghost s2 = self.subst@;
                proof {
                    lemma_refines_trans(s2, s1, s0);
                }
                let ret_ty = self.fresh_ty();
                match self.unify(func_ty, Ty::Arrow(Box::new(arg_ty), Box::new(ret_ty.clone()))) {
                    Ok(_) => {
                    },
                    Err(e) => {
                        proof {
                            lemma_refines_trans(self.subst@, s2, s0);
                        }
                        return Err(e);
                    },
                }
                let ghost s3 = self.subst@;
                proof {
                    lemma_refines_trans(s3, s2, s0);
                }
                let t0 = self.apply_subst(&ret_ty);
                let t = self.apply_subst(&t0);
                proof {
                    lemma_apply_idem(s3, t0);
                    lemma_apply_idem(s3, t);
                }
                Ok(
                    (
                        t,
                        ASTExpr::Apply {
                            func: Box::new(func_out),
                            args: Box::new(args_out),
                            ty: Some(t0),
                        },
                    ),
                )
            },
            ASTExpr::Lambda { arg, body, ret_ty: _ } => {
                let (ident, ty_opt) = arg;
                let arg_ty = match &ty_opt {
                    Some(t) => t.clone(),
                    None => {
                        proof {
                            lemma_refines_refl(s0);
                            reveal_strlit("lambda argument type is not provided");
                        }
                        return Err(
                            FrontendError::TypeError(
                                String::from_str("lambda argument type is not provided"),
                            ),
                        );
                    },
                };
                self.context.insert(
                    ident.id.clone(),
                    Scheme { ty: arg_ty.clone(), constraints: Vec::new(), vars: Vec::new() },
                );
                let (body_ty, body_out) = match self.infer(*body) {
                    Ok(p) => p,
                    Err(e) => {
                        return Err(e);
                    },
                };
                let ghost s1 = self.subst@;
                let body_ty2 = self.apply_subst(&body_ty);
                let prim = Ty::Arrow(Box::new(arg_ty), Box::new(body_ty2.clone()));
                let t = self.apply_subst(&prim);
                proof {
                    lemma_apply_idem(s1, prim);
                }
                Ok(
                    (
                        t,
                        ASTExpr::Lambda {
                            arg: (ident, ty_opt),
                            body: Box::new(body_out),
                            ret_ty: Some(body_ty2),
                        },
                    ),
                )
            },
        }
    }

    /// Check `expr` against an expected type: a lambda is decomposed
    /// against an arrow, anything else is inferred and unified.
    pub fn check(&mut self, expr: ResolvedASTExpr, expected: &Ty) -> (r: Result<
        ResolvedASTExpr,
        FrontendError,
    >)
        requires
            old(self).wf(),
        ensures
            final(self).wf(),
            refines(final(self).subst_v(), old(self).subst_v()),
            match r {
                Ok(out) => annotated(out) && skel_eq(expr, out),
                Err(e) => e is TypeError || e is UnboundVariable,
            },
            (expr is Lambda && !((*expected) is Arrow)) ==> r is Err,
            (*expected) matches Ty::Arrow(ae, re) ==> (expr is Lambda ==> (r matches Ok(out)
                ==> out matches ASTExpr::Lambda { arg: a2, ret_ty: rt2, .. } && a2.1 == Some(
                sub_apply(final(self).subst_v(), *ae),
            ) && rt2 == Some(sub_apply(final(self).subst_v(), *re)))),
            !(expr is Lambda) ==> (r matches Ok(out2) ==> root_slot(out2) == Some(
                sub_apply(final(self).subst_v(), *expected),
            )),
        decreases expr, 2int,
    {
        let ghost s0 = self.subst@;
        match expr {
            ASTExpr::Lambda { arg, body, ret_ty: _ } => {
                match expected {
                    Ty::Arrow(arg_expected, ret_expected) => {
                        let (ident, _old_slot) = arg;
                        self.context.insert(
                            ident.id.clone(),
                            Scheme {
                                ty: (**arg_expected).clone(),
                                constraints: Vec::new(),
                                vars: Vec::new(),
                            },
                        );
                        let body_out = match self.check(*body, ret_expected) {
                            Ok(p) => p,
                            Err(e) => {
                                return Err(e);
                            },
                        };
                        let ret_final = self.apply_subst(ret_expected);
                        let arg_final = self.apply_subst(arg_expected);
                        Ok(
                            ASTExpr::Lambda {
                                arg: (ident, Some(arg_final)),
                                body: Box::new(body_out),
                                ret_ty: Some(ret_final),
                            },
                        )
                    },
                    _ => {
                        proof {
                            lemma_refines_refl(s0);
                            reveal_strlit("expected a function type");
                        }
                        Err(FrontendError::TypeError(String::from_str("expected a function type")))
                    },
                }
            },
            _ => {
                let (inferred, out) = match self.infer(expr) {
                    Ok(p) => p,
                    Err(e) => {
                        return Err(e);
                    },
                };
                let ghost s1 = self.subst@;
                match self.unify(inferred, expected.clone()) {
                    Ok(_) => {
                    },
                    Err(e) => {
                        proof {
                            lemma_refines_trans(self.subst@, s1, s0);
                        }
                        return Err(e);
                    },
                }
                let ghost s2 = self.subst@;
                proof {
                    lemma_refines_trans(s2, s1, s0);
                }
                let final_ty = self.apply_subst(expected);
                let out2 = set_ty_slot(out, final_ty);
                Ok(out2)
            },
        }
    }

    /// Rewrite every filled type slot through the substitution.
    pub fn final_apply(&self, ast: ResolvedASTExpr) -> (r: ResolvedASTExpr)
        ensures
            fapply_rel(self.subst_v(), ast, r),
        decreases ast,
    {
        match ast {
            ASTExpr::Atom(atom, ty) => {
                let ty2 = self.opt_apply_exec(ty);
                ASTExpr::Atom(atom, ty2)
            },
            ASTExpr::If { cond, then, else_, ty } => {
                let ty2 = self.opt_apply_exec(ty);
                ASTExpr::If {
                    cond: Box::new(self.final_apply(*cond)),
                    then: Box::new(self.final_apply(*then)),
                    else_: Box::new(self.final_apply(*else_)),
                    ty: ty2,
                }
            },
            ASTExpr::Let { bind, value, body, ty } => {
                let ty2 = self.opt_apply_exec(ty);
                ASTExpr::Let {
                    bind,
                    value: Box::new(self.final_apply(*value)),
                    body: Box::new(self.final_apply(*body)),
                    ty: ty2,
                }
            },
            ASTExpr::Apply { func, args, ty } => {
                let ty2 = self.opt_apply_exec(ty);
                ASTExpr::Apply {
                    func: Box::new(self.final_apply(*func)),
                    args: Box::new(self.final_apply(*args)),
                    ty: ty2,
                }
            },
            ASTExpr::Lambda { arg, body, ret_ty } => {
                let (ident, arg_ty) = arg;
                let arg_ty2 = self.opt_apply_exec(arg_ty);
                let ret_ty2 = self.opt_apply_exec(ret_ty);
                ASTExpr::Lambda {
                    arg: (ident, arg_ty2),
                    body: Box::new(self.final_apply(*body)),
                    ret_ty: ret_ty2,
                }
            },
        }
    }

    fn opt_apply_exec(&self, t: Option<Ty>) -> (r: Option<Ty>)
        ensures
            r == opt_apply(self.subst_v(), t),
    {
        match t {
            Some(u) => Some(self.apply_subst(&u)),
            None => None,
        }
    }

    /// Run inference, rewrite the annotations through the final
    /// substitution, and unwrap into a fully typed tree.  The result
    /// keeps the input's skeleton and mentions no variable the final
    /// substitution binds: a closed, fully constrained program carries
    /// no type variables at all.
    pub fn tyck(&mut self, ast: ResolvedASTExpr) -> (r: Result<TypedASTExpr, FrontendError>)
        requires
            old(self).wf(),
        ensures
            final(self).wf(),
            match r {
                Ok(t) => tyck_skel(ast, t) && typed_tree_clean(final(self).subst_v(), t),
                Err(e) => e is TypeError || e is UnboundVariable,
            },
            ast matches ASTExpr::Atom(a, _) ==> (!(a is Var) ==> r is Ok),
            ast matches ASTExpr::Atom(ASTAtom::Int(i), _) ==> (r matches Ok(t2) && t2 matches
                ASTExpr::Atom(a2, ty2) && a2 == ASTAtom::<crate::name_resolution::ResolvedIdent>::Int(i) && ty2 == Ty::Int),
            ast matches ASTExpr::Atom(ASTAtom::Bool(b), _) ==> (r matches Ok(t2) && t2 matches
                ASTExpr::Atom(a2, ty2) && a2 == ASTAtom::<crate::name_resolution::ResolvedIdent>::Bool(b) && ty2 == Ty::Bool),
            ast matches ASTExpr::Atom(ASTAtom::Unit, _) ==> (r matches Ok(t2) && t2 matches
                ASTExpr::Atom(a2, ty2) && a2 == ASTAtom::<crate::name_resolution::ResolvedIdent>::Unit && ty2 == Ty::Unit),
            ast matches ASTExpr::Atom(ASTAtom::Op(op), _) ==> (r matches Ok(t2) && t2 matches
                ASTExpr::Atom(a2, ty2) && a2 == ASTAtom::<crate::name_resolution::ResolvedIdent>::Op(op) && ty2 == crate::ast::op_arrow_ty(
                op,
            )),
    {
        let ghost ast0 = ast;
        let (_ty, annotated_ast) = match self.infer(ast) {
            Ok(p) => p,
            Err(e) => {
                return Err(e);
            },
        };
        let rewritten = self.final_apply(annotated_ast);
        proof {
            lemma_fapply_annotated(self.subst@, annotated_ast, rewritten);
        }
        let typed = unwrap_ast_expr(rewritten);
        proof {
            lemma_tyck_compose(self.subst@, ast0, annotated_ast, rewritten, typed);
            match ast0 {
                ASTExpr::Atom(a, _) => {
                    assert(sub_apply(self.subst@, Ty::Int) == Ty::Int);
                    assert(sub_apply(self.subst@, Ty::Bool) == Ty::Bool);
                    assert(sub_apply(self.subst@, Ty::Unit) == Ty::Unit);
                    match a {
                        ASTAtom::Op(op) => {
                            lemma_sub_apply_op(self.subst@, op);
                        },
                        _ => {
                        },
                    }
                },
                _ => {
                },
            }
        }
        Ok(typed)
    }
}


/// The map substitution a resolved substitution denotes.
pub open spec fn map_of(s: Seq<(TypeVar, Ty)>) -> Map<TypeVar, Ty> {
    Map::new(|v: TypeVar| alist_get(s, v) is Some, |v: TypeVar| alist_get(s, v).unwrap())
}

/// Applying a substitution agrees with applying its map.
pub proof fn lemma_map_of_apply(s: Seq<(TypeVar, Ty)>, t: Ty)
    ensures
        app_m(map_of(s), t) == sub_apply(s, t),
    decreases t,
{
    match t {
        Ty::Arrow(a, b) => {
            lemma_map_of_apply(s, *a);
            lemma_map_of_apply(s, *b);
        },
        _ => {
        },
    }
}

/// A successful unification yields a genuine unifier of the applied
/// problem.
pub proof fn lemma_unify_post_unifier(s: Seq<(TypeVar, Ty)>, s1: Seq<(TypeVar, Ty)>, a: Ty, b: Ty)
    requires
        unify_post(s, s1, a, b),
    ensures
        unifies(map_of(s1), sub_apply(s, a), sub_apply(s, b)),
{
    lemma_map_of_apply(s1, sub_apply(s, a));
    lemma_map_of_apply(s1, sub_apply(s, b));
    assert(sub_apply(s1, sub_apply(s, a)) == sub_apply(s1, a));
    assert(sub_apply(s1, sub_apply(s, b)) == sub_apply(s1, b));
}

/// Unification is symmetric: the problem `a = b` has a unifier exactly
/// when `b = a` has one, and what a successful unification guarantees
/// for `a = b` it also guarantees for `b = a`.  Together with the
/// contract of `unify` — success produces `unify_post`, failure means
/// no unifier exists — unifying in either order succeeds on exactly
/// the same states, with substitutions that equate the same types.
pub proof fn lemma_unify_symmetric(s: Seq<(TypeVar, Ty)>, a: Ty, b: Ty)
    ensures
        (exists|m: Map<TypeVar, Ty>| unifies(m, sub_apply(s, a), sub_apply(s, b))) == (exists|
            m: Map<TypeVar, Ty>,
        | unifies(m, sub_apply(s, b), sub_apply(s, a))),
        forall|s1: Seq<(TypeVar, Ty)>| unify_post(s, s1, a, b) ==> #[trigger] unify_post(
            s,
            s1,
            b,
            a,
        ),
{
    if exists|m: Map<TypeVar, Ty>| unifies(m, sub_apply(s, a), sub_apply(s, b)) {
        let m = choose|m: Map<TypeVar, Ty>| unifies(m, sub_apply(s, a), sub_apply(s, b));
        assert(unifies(m, sub_apply(s, b), sub_apply(s, a)));
    }
    if exists|m: Map<TypeVar, Ty>| unifies(m, sub_apply(s, b), sub_apply(s, a)) {
        let m = choose|m: Map<TypeVar, Ty>| unifies(m, sub_apply(s, b), sub_apply(s, a));
        assert(unifies(m, sub_apply(s, a), sub_apply(s, b)));
    }
    assert forall|s1: Seq<(TypeVar, Ty)>| unify_post(s, s1, a, b) implies #[trigger] unify_post(
        s,
        s1,
        b,
        a,
    ) by {
        assert(prob_vars(s, b, a) =~= prob_vars(s, a, b));
        assert forall|m: Map<TypeVar, Ty>|
            #[trigger] unifies(m, sub_apply(s, b), sub_apply(s, a)) implies factors_through(
            m,
            s1,
            s,
        ) by {
            assert(unifies(m, sub_apply(s, a), sub_apply(s, b)));
        }
        assert(fv_bounded(s1, s, prob_vars(s, b, a)));
        if s1 != s {
            let v = choose|v: TypeVar|
                prob_vars(s, a, b).contains(v) && #[trigger] eliminates(s1, v);
            assert(prob_vars(s, b, a).contains(v) && eliminates(s1, v));
        }
    }
}

} // verus!
