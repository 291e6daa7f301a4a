//! Substitutions over type variables: application, well-formedness,
//! extension by binding, and the laws the unifier rests on.
//!
//! A substitution is kept *resolved*: no right-hand side mentions a
//! bound variable, so one structural pass applies it fully.  Binding a
//! new variable rewrites the existing right-hand sides, which keeps the
//! invariant; a read therefore never chases stale entries.

use vstd::prelude::*;

verus! {

use crate::ty::Ty;
use crate::ty::TypeVar;
use crate::ty::alist_get;
use crate::ty::ty_apply;
use crate::ty::ty_free_vars;
use crate::ty::ty_contains_var;

/// The set of variables a substitution binds.
pub open spec fn sub_dom(s: Seq<(TypeVar, Ty)>) -> Set<TypeVar> {
    Set::new(|v: TypeVar| alist_get(s, v) is Some)
}

/// Apply a substitution throughout a type, in one structural pass.
pub open spec fn sub_apply(s: Seq<(TypeVar, Ty)>, t: Ty) -> Ty
    decreases t,
{
    match t {
        Ty::Mono(v) => match alist_get(s, v) {
            Some(u) => u,
            None => t,
        },
        Ty::Arrow(a, b) => Ty::Arrow(Box::new(sub_apply(s, *a)), Box::new(sub_apply(s, *b))),
        _ => t,
    }
}

/// A type is clean for `s` when it mentions no bound variable.
pub open spec fn ty_clean(s: Seq<(TypeVar, Ty)>, t: Ty) -> bool {
    ty_free_vars(t).disjoint(sub_dom(s))
}

/// A resolved substitution: every right-hand side is clean.
pub open spec fn sub_wf(s: Seq<(TypeVar, Ty)>) -> bool {
    forall|i: int| 0 <= i < s.len() ==> ty_clean(s, #[trigger] s[i].1)
}

/// Extend `s` with `v -> t`, rewriting existing right-hand sides so
/// the result stays resolved.
pub open spec fn sub_bind(s: Seq<(TypeVar, Ty)>, v: TypeVar, t: Ty) -> Seq<(TypeVar, Ty)> {
    Seq::new(s.len(), |i: int| (s[i].0, ty_apply(s[i].1, v, t))).push((v, t))
}

/// Apply a total substitution given as a map; unmapped variables stay.
pub open spec fn app_m(m: Map<TypeVar, Ty>, t: Ty) -> Ty
    decreases t,
{
    match t {
        Ty::Mono(v) => if m.dom().contains(v) {
            m[v]
        } else {
            t
        },
        Ty::Arrow(a, b) => Ty::Arrow(Box::new(app_m(m, *a)), Box::new(app_m(m, *b))),
        _ => t,
    }
}

/// Whether `m` makes `a` and `b` the same type.
pub open spec fn unifies(m: Map<TypeVar, Ty>, a: Ty, b: Ty) -> bool {
    app_m(m, a) == app_m(m, b)
}

/// The number of nodes in a type.
pub open spec fn ty_size(t: Ty) -> nat
    decreases t,
{
    match t {
        Ty::Arrow(a, b) => 1 + ty_size(*a) + ty_size(*b),
        _ => 1,
    }
}

/// `ty_free_vars` and `ty_contains_var` agree.
pub proof fn lemma_fv_contains(t: Ty, v: TypeVar)
    ensures
        ty_free_vars(t).contains(v) == ty_contains_var(t, v),
    decreases t,
{
    match t {
        Ty::Arrow(a, b) => {
            lemma_fv_contains(*a, v);
            lemma_fv_contains(*b, v);
        },
        _ => {
        },
    }
}

/// The free-variable set of a type is finite.
pub proof fn lemma_fv_finite(t: Ty)
    ensures
        ty_free_vars(t).finite(),
    decreases t,
{
    match t {
        Ty::Arrow(a, b) => {
            lemma_fv_finite(*a);
            lemma_fv_finite(*b);
        },
        _ => {
        },
    }
}

/// Applying a substitution to a clean type changes nothing.
pub proof fn lemma_apply_clean(s: Seq<(TypeVar, Ty)>, t: Ty)
    requires
        ty_clean(s, t),
    ensures
        sub_apply(s, t) == t,
    decreases t,
{
    match t {
        Ty::Mono(v) => {
            assert(ty_free_vars(t).contains(v));
            assert(!sub_dom(s).contains(v));
        },
        Ty::Arrow(a, b) => {
            assert(ty_clean(s, *a) && ty_clean(s, *b)) by {
                assert forall|x: TypeVar|
                    ty_free_vars(*a).contains(x) || ty_free_vars(*b).contains(
                        x,
                    ) implies !sub_dom(s).contains(x) by {
                    assert(ty_free_vars(t).contains(x));
                }
            }
            lemma_apply_clean(s, *a);
            lemma_apply_clean(s, *b);
        },
        _ => {
        },
    }
}

/// A resolved substitution leaves no bound variable in its output.
pub proof fn lemma_apply_fv(s: Seq<(TypeVar, Ty)>, t: Ty)
    requires
        sub_wf(s),
    ensures
        ty_clean(s, sub_apply(s, t)),
        ty_free_vars(sub_apply(s, t)) <= ty_free_vars(t).union(
            Set::new(
                |x: TypeVar|
                    exists|i: int| 0 <= i < s.len() && ty_free_vars(#[trigger] s[i].1).contains(x),
            ),
        ),
    decreases t,
{
    match t {
        Ty::Mono(v) => {
            match alist_get(s, v) {
                Some(u) => {
                    lemma_alist_get_index(s, v);
                    let i = choose|i: int| 0 <= i < s.len() && #[trigger] s[i] == (v, u);
                    assert(ty_clean(s, s[i].1));
                    assert forall|x: TypeVar| ty_free_vars(u).contains(x) implies ty_free_vars(
                        t,
                    ).union(
                        Set::new(
                            |y: TypeVar|
                                exists|j: int|
                                    0 <= j < s.len() && ty_free_vars(#[trigger] s[j].1).contains(
                                        y,
                                    ),
                        ),
                    ).contains(x) by {
                        assert(ty_free_vars(s[i].1).contains(x));
                    }
                },
                None => {
                    assert(!sub_dom(s).contains(v));
                },
            }
        },
        Ty::Arrow(a, b) => {
            lemma_apply_fv(s, *a);
            lemma_apply_fv(s, *b);
        },
        _ => {
        },
    }
}

/// A found binding is one of the substitution's entries.
pub proof fn lemma_alist_get_index(s: Seq<(TypeVar, Ty)>, v: TypeVar)
    requires
        alist_get(s, v) is Some,
    ensures
        exists|i: int|
            0 <= i < s.len() && #[trigger] s[i] == (v, alist_get(s, v).unwrap()),
    decreases s.len(),
{
    if s.len() == 0 {
    } else if s.last().0 == v {
        assert(s[s.len() - 1] == (v, alist_get(s, v).unwrap()));
    } else {
        lemma_alist_get_index(s.drop_last(), v);
        let i = choose|i: int|
            0 <= i < s.drop_last().len() && #[trigger] s.drop_last()[i] == (
            v,
            alist_get(s.drop_last(), v).unwrap(),
            );
        assert(s[i] == (v, alist_get(s, v).unwrap()));
    }
}

/// Applying a resolved substitution twice equals applying it once.
pub proof fn lemma_apply_idem(s: Seq<(TypeVar, Ty)>, t: Ty)
    requires
        sub_wf(s),
    ensures
        sub_apply(s, sub_apply(s, t)) == sub_apply(s, t),
{
    lemma_apply_fv(s, t);
    lemma_apply_clean(s, sub_apply(s, t));
}

/// Free variables after a one-shot substitution.
pub proof fn lemma_ty_apply_fv(u: Ty, v: TypeVar, t: Ty)
    ensures
        ty_free_vars(ty_apply(u, v, t)) <= ty_free_vars(u).remove(v).union(ty_free_vars(t)),
        !ty_free_vars(t).contains(v) ==> !ty_free_vars(ty_apply(u, v, t)).contains(v),
        !ty_free_vars(u).contains(v) ==> ty_apply(u, v, t) == u,
        ty_free_vars(u).contains(v) ==> ty_free_vars(t) <= ty_free_vars(ty_apply(u, v, t)),
        ty_free_vars(u).remove(v) <= ty_free_vars(ty_apply(u, v, t)),
    decreases u,
{
    match u {
        Ty::Arrow(a, b) => {
            lemma_ty_apply_fv(*a, v, t);
            lemma_ty_apply_fv(*b, v, t);
        },
        _ => {
        },
    }
}

/// What `sub_bind` binds: `v` to `t`, and every old key to its
/// rewritten right-hand side.
pub proof fn lemma_bind_get(s: Seq<(TypeVar, Ty)>, v: TypeVar, t: Ty, x: TypeVar)
    requires
        !sub_dom(s).contains(v),
    ensures
        alist_get(sub_bind(s, v, t), x) == if x == v {
            Some(t)
        } else {
            match alist_get(s, x) {
                Some(u) => Some(ty_apply(u, v, t)),
                None => None::<Ty>,
            }
        },
    decreases s.len(),
{
    let sb = sub_bind(s, v, t);
    assert(sb.last() == (v, t));
    if x == v {
    } else {
        assert(sb.drop_last() =~= Seq::new(s.len(), |i: int| (s[i].0, ty_apply(s[i].1, v, t))));
        lemma_bind_get_inner(s, v, t, x);
    }
}

proof fn lemma_bind_get_inner(s: Seq<(TypeVar, Ty)>, v: TypeVar, t: Ty, x: TypeVar)
    ensures
        alist_get(Seq::new(s.len(), |i: int| (s[i].0, ty_apply(s[i].1, v, t))), x) == match alist_get(
            s,
            x,
        ) {
            Some(u) => Some(ty_apply(u, v, t)),
            None => None::<Ty>,
        },
    decreases s.len(),
{
    let m = Seq::new(s.len(), |i: int| (s[i].0, ty_apply(s[i].1, v, t)));
    if s.len() == 0 {
    } else {
        if s.last().0 == x {
        } else {
            lemma_bind_get_inner(s.drop_last(), v, t, x);
            assert(m.drop_last() =~= Seq::new(
                s.drop_last().len(),
                |i: int| (s.drop_last()[i].0, ty_apply(s.drop_last()[i].1, v, t)),
            ));
        }
    }
}

/// The domain after a bind.
pub proof fn lemma_bind_dom(s: Seq<(TypeVar, Ty)>, v: TypeVar, t: Ty)
    requires
        !sub_dom(s).contains(v),
    ensures
        sub_dom(sub_bind(s, v, t)) =~= sub_dom(s).insert(v),
{
    assert forall|x: TypeVar|
        sub_dom(sub_bind(s, v, t)).contains(x) == sub_dom(s).insert(v).contains(x) by {
        lemma_bind_get(s, v, t, x);
    }
}

/// Applying an extended substitution equals applying the old one and
/// then substituting the new binding.
pub proof fn lemma_bind_apply(s: Seq<(TypeVar, Ty)>, v: TypeVar, t: Ty, u: Ty)
    requires
        !sub_dom(s).contains(v),
    ensures
        sub_apply(sub_bind(s, v, t), u) == ty_apply(sub_apply(s, u), v, t),
    decreases u,
{
    match u {
        Ty::Mono(x) => {
            lemma_bind_get(s, v, t, x);
        },
        Ty::Arrow(a, b) => {
            lemma_bind_apply(s, v, t, *a);
            lemma_bind_apply(s, v, t, *b);
        },
        _ => {
        },
    }
}

/// Binding a fresh variable to a clean type keeps the substitution
/// resolved.
pub proof fn lemma_bind_wf(s: Seq<(TypeVar, Ty)>, v: TypeVar, t: Ty)
    requires
        sub_wf(s),
        !sub_dom(s).contains(v),
        !ty_free_vars(t).contains(v),
        ty_clean(s, t),
    ensures
        sub_wf(sub_bind(s, v, t)),
    decreases s.len(),
{
    let sb = sub_bind(s, v, t);
    lemma_bind_dom(s, v, t);
    assert forall|i: int| 0 <= i < sb.len() implies ty_clean(sb, #[trigger] sb[i].1) by {
        if i < s.len() {
            assert(sb[i].1 == ty_apply(s[i].1, v, t));
            lemma_ty_apply_fv(s[i].1, v, t);
            assert forall|x: TypeVar|
                ty_free_vars(sb[i].1).contains(x) implies !sub_dom(sb).contains(x) by {
                assert(ty_free_vars(s[i].1).remove(v).union(ty_free_vars(t)).contains(x));
            }
        } else {
            assert(sb[i].1 == t);
            assert forall|x: TypeVar|
                ty_free_vars(t).contains(x) implies !sub_dom(sb).contains(x) by {
            }
        }
    }
}

/// The extended substitution refines the old one.
pub proof fn lemma_bind_refines(s: Seq<(TypeVar, Ty)>, v: TypeVar, t: Ty, u: Ty)
    requires
        sub_wf(s),
        !sub_dom(s).contains(v),
        ty_clean(s, t),
    ensures
        sub_apply(sub_bind(s, v, t), sub_apply(s, u)) == sub_apply(sub_bind(s, v, t), u),
{
    lemma_bind_apply(s, v, t, sub_apply(s, u));
    lemma_bind_apply(s, v, t, u);
    lemma_apply_idem(s, u);
}

/// A map substitution that identifies `Mono(v)` with `t` absorbs a
/// one-shot substitution of `t` for `v`.
pub proof fn lemma_factor_subst(m: Map<TypeVar, Ty>, v: TypeVar, t: Ty, u: Ty)
    requires
        app_m(m, Ty::Mono(v)) == app_m(m, t),
    ensures
        app_m(m, ty_apply(u, v, t)) == app_m(m, u),
    decreases u,
{
    match u {
        Ty::Arrow(a, b) => {
            lemma_factor_subst(m, v, t, *a);
            lemma_factor_subst(m, v, t, *b);
        },
        _ => {
        },
    }
}

/// If `v` occurs in `t`, any map substitution makes `t` at least as
/// large as `v`'s image, and strictly larger unless `t` is `Mono(v)`.
pub proof fn lemma_occurs_size(m: Map<TypeVar, Ty>, v: TypeVar, t: Ty)
    requires
        ty_free_vars(t).contains(v),
    ensures
        ty_size(app_m(m, t)) >= ty_size(app_m(m, Ty::Mono(v))),
        t != Ty::Mono(v) ==> ty_size(app_m(m, t)) > ty_size(app_m(m, Ty::Mono(v))),
    decreases t,
{
    match t {
        Ty::Mono(x) => {
        },
        Ty::Arrow(a, b) => {
            if ty_free_vars(*a).contains(v) {
                lemma_occurs_size(m, v, *a);
            } else {
                lemma_occurs_size(m, v, *b);
            }
        },
        _ => {
        },
    }
}

/// No substitution can identify `Mono(v)` with a larger type
/// containing `v`: the occurs check is complete.
pub proof fn lemma_occurs_no_unifier(v: TypeVar, t: Ty)
    requires
        ty_free_vars(t).contains(v),
        t != Ty::Mono(v),
    ensures
        forall|m: Map<TypeVar, Ty>| !unifies(m, Ty::Mono(v), t),
{
    assert forall|m: Map<TypeVar, Ty>| !unifies(m, Ty::Mono(v), t) by {
        lemma_occurs_size(m, v, t);
    }
}

/// Look up a variable in a substitution vector.
pub fn sub_find(subst: &Vec<(TypeVar, Ty)>, v: TypeVar) -> (r: Option<&Ty>)
    ensures
        match r {
            Some(t) => alist_get(subst@, v) == Some(*t),
            None => alist_get(subst@, v) is None,
        },
{
    let n = subst.len();
    let mut i: usize = n;
    proof {
        assert(subst@.take(n as int) =~= subst@);
    }
    while i > 0
        invariant
            i <= subst@.len(),
            alist_get(subst@, v) == alist_get(subst@.take(i as int), v),
        decreases i,
    {
        proof {
            assert(subst@.take(i as int).drop_last() =~= subst@.take(i as int - 1));
        }
        if subst[i - 1].0 == v {
            return Some(&subst[i - 1].1);
        }
        i = i - 1;
    }
    proof {
        assert(subst@.take(0) =~= Seq::<(TypeVar, Ty)>::empty());
    }
    None
}

/// Apply a substitution throughout a type.
pub fn apply_subst(ty: &Ty, subst: &Vec<(TypeVar, Ty)>) -> (r: Ty)
    ensures
        r == sub_apply(subst@, *ty),
    decreases ty,
{
    match ty {
        Ty::Mono(v) => {
            match sub_find(subst, *v) {
                Some(t) => t.clone(),
                None => Ty::Mono(*v),
            }
        },
        Ty::Arrow(a, b) => Ty::Arrow(
            Box::new(apply_subst(a, subst)),
            Box::new(apply_subst(b, subst)),
        ),
        _ => ty.clone(),
    }
}

} // verus!
