//! A-normal form: the grammar of K-normal form, with lets always
//! left-associated — a let's value is a computation form, never
//! another let.  Free-variable computation lives here too.

use vstd::prelude::*;

verus! {

broadcast use {vstd::seq_lib::group_seq_properties, vstd::prelude::Seq::lemma_push_to_set_commute};

use vstd::string::StringExecFns;
use crate::ast::ASTAtom;
use crate::name_resolution::NameIdentifier;
use crate::name_resolution::ResolvedIdent;
use crate::ty::Ty;
use crate::typed_atom::Atom;
use crate::typed_atom::TypedAtom;

/// A computation form: the grammar rules out a nested `Let` here.
pub enum CExpr {
    Atom(TypedAtom),
    If { cond: Atom, then: Box<Expr>, else_: Box<Expr>, ty: Ty },
    Apply { func: TypedAtom, args: Vec<TypedAtom>, ty: Ty },
    Lambda { args: Vec<(ResolvedIdent, Ty)>, body: Box<Expr>, ret_ty: Ty },
}

/// An A-normal expression: a computation form, or a let whose value is
/// a computation form.
pub enum Expr {
    CExpr(CExpr),
    Let {
        bind: ResolvedIdent,
        value: Box<CExpr>,
        body: Box<Expr>,
        ty: Ty,
        is_polymorphic: bool,
    },
}

/// Structural equality of computation forms, comparing vector fields
/// element by element.
pub open spec fn acexpr_eqv(a: CExpr, b: CExpr) -> bool
    decreases a, 0int,
{
    match a {
        CExpr::Atom(ta) => b matches CExpr::Atom(tb) && tb == ta,
        CExpr::If { cond, then, else_, ty } => b matches CExpr::If {
            cond: c2,
            then: t2,
            else_: e2,
            ty: ty2,
        } && c2 == cond && ty2 == ty && aexpr_eqv(*then, *t2) && aexpr_eqv(*else_, *e2),
        CExpr::Apply { func, args, ty } => b matches CExpr::Apply {
            func: f2,
            args: a2,
            ty: ty2,
        } && f2 == func && a2@ == args@ && ty2 == ty,
        CExpr::Lambda { args, body, ret_ty } => b matches CExpr::Lambda {
            args: a2,
            body: b2,
            ret_ty: rt2,
        } && a2@ == args@ && rt2 == ret_ty && aexpr_eqv(*body, *b2),
    }
}

/// Structural equality of A-normal expressions.
pub open spec fn aexpr_eqv(a: Expr, b: Expr) -> bool
    decreases a, 1int,
{
    match a {
        Expr::CExpr(c) => b matches Expr::CExpr(c2) && acexpr_eqv(c, c2),
        Expr::Let { bind, value, body, ty, is_polymorphic } => b matches Expr::Let {
            bind: b2,
            value: v2,
            body: bo2,
            ty: ty2,
            is_polymorphic: p2,
        } && b2 == bind && ty2 == ty && p2 == is_polymorphic && acexpr_eqv(*value, *v2)
            && aexpr_eqv(*body, *bo2),
    }
}

impl Clone for CExpr {
    fn clone(&self) -> (r: CExpr)
        ensures
            acexpr_eqv(*self, r),
        decreases self,
    {
        match self {
            CExpr::Atom(ta) => CExpr::Atom(ta.clone()),
            CExpr::If { cond, then, else_, ty } => CExpr::If {
                cond: cond.clone(),
                then: Box::new((**then).clone()),
                else_: Box::new((**else_).clone()),
                ty: ty.clone(),
            },
            CExpr::Apply { func, args, ty } => {
                let r = CExpr::Apply { func: func.clone(), args: clone_atoms(args), ty: ty.clone() };
                r
            },
            CExpr::Lambda { args, body, ret_ty } => CExpr::Lambda {
                args: clone_params(args),
                body: Box::new((**body).clone()),
                ret_ty: ret_ty.clone(),
            },
        }
    }
}

impl Clone for Expr {
    fn clone(&self) -> (r: Expr)
        ensures
            aexpr_eqv(*self, r),
        decreases self,
    {
        match self {
            Expr::CExpr(c) => Expr::CExpr(c.clone()),
            Expr::Let { bind, value, body, ty, is_polymorphic } => Expr::Let {
                bind: bind.clone(),
                value: Box::new((**value).clone()),
                body: Box::new((**body).clone()),
                ty: ty.clone(),
                is_polymorphic: *is_polymorphic,
            },
        }
    }
}

/// Clone a vector of typed atoms, element for element.
pub fn clone_atoms(v: &Vec<TypedAtom>) -> (r: Vec<TypedAtom>)
    ensures
        r@ == v@,
{
    let mut r: Vec<TypedAtom> = Vec::new();
    let mut i: usize = 0;
    while i < v.len()
        invariant
            i <= v@.len(),
            r@ == v@.take(i as int),
        decreases v@.len() - i,
    {
        r.push(v[i].clone());
        i = i + 1;
        proof {
            assert(r@ =~= v@.take(i as int));
        }
    }
    proof {
        assert(v@.take(v@.len() as int) =~= v@);
    }
    r
}

/// Clone a parameter list, element for element.
pub fn clone_params(v: &Vec<(ResolvedIdent, Ty)>) -> (r: Vec<(ResolvedIdent, Ty)>)
    ensures
        r@ == v@,
{
    let mut r: Vec<(ResolvedIdent, Ty)> = Vec::new();
    let mut i: usize = 0;
    while i < v.len()
        invariant
            i <= v@.len(),
            r@ == v@.take(i as int),
        decreases v@.len() - i,
    {
        let p = &v[i];
        r.push((p.0.clone(), p.1.clone()));
        i = i + 1;
        proof {
            assert(r@ =~= v@.take(i as int));
        }
    }
    proof {
        assert(v@.take(v@.len() as int) =~= v@);
    }
    r
}

/// The free variables of an atom, as (token, type) pairs.
pub open spec fn fv_atom(ta: TypedAtom) -> Set<(NameIdentifier, Ty)> {
    match ta.atom {
        ASTAtom::Var(v) => Set::empty().insert((v.id, ta.ty)),
        _ => Set::empty(),
    }
}

/// Union of the free variables of a list of atoms.
pub open spec fn fv_atoms(s: Seq<TypedAtom>) -> Set<(NameIdentifier, Ty)>
    decreases s.len(),
{
    if s.len() == 0 {
        Set::empty()
    } else {
        fv_atoms(s.drop_last()).union(fv_atom(s.last()))
    }
}

/// Remove every pair bound to a given token.
pub open spec fn fv_drop_id(s: Set<(NameIdentifier, Ty)>, id: NameIdentifier) -> Set<
    (NameIdentifier, Ty),
> {
    Set::new(|p: (NameIdentifier, Ty)| s.contains(p) && p.0 != id)
}

/// Remove every pair bound by a parameter list.
pub open spec fn fv_drop_params(
    s: Set<(NameIdentifier, Ty)>,
    params: Seq<(ResolvedIdent, Ty)>,
) -> Set<(NameIdentifier, Ty)> {
    Set::new(
        |p: (NameIdentifier, Ty)|
            s.contains(p) && forall|i: int|
                0 <= i < params.len() ==> p.0 != (#[trigger] params[i]).0.id,
    )
}

/// The free variables of a computation form.
pub open spec fn fv_cexpr(c: CExpr) -> Set<(NameIdentifier, Ty)>
    decreases c, 0int,
{
    match c {
        CExpr::Atom(ta) => fv_atom(ta),
        CExpr::If { cond, then, else_, .. } => fv_atom(
            TypedAtom { atom: cond, ty: Ty::Bool },
        ).union(fv_expr(*then)).union(fv_expr(*else_)),
        CExpr::Apply { func, args, .. } => fv_atom(func).union(fv_atoms(args@)),
        CExpr::Lambda { args, body, .. } => fv_drop_params(fv_expr(*body), args@),
    }
}

/// The free variables of an A-normal expression.
pub open spec fn fv_expr(e: Expr) -> Set<(NameIdentifier, Ty)>
    decreases e, 1int,
{
    match e {
        Expr::CExpr(c) => fv_cexpr(c),
        Expr::Let { bind, value, body, .. } => fv_drop_id(
            fv_cexpr(*value).union(fv_expr(*body)),
            bind.id,
        ),
    }
}

/// The (token, type) pairs behind a vector of identifiers.
pub open spec fn fv_pairs(v: Seq<(ResolvedIdent, Ty)>) -> Seq<(NameIdentifier, Ty)> {
    Seq::new(v.len(), |i: int| (v[i].0.id, v[i].1))
}

impl TypedAtom {
    /// The free variables of this atom: its identifier paired with its
    /// type, if it is a variable.
    pub fn free_vars(&self) -> (r: Vec<(ResolvedIdent, Ty)>)
        ensures
            fv_pairs(r@).to_set() == fv_atom(*self),
            fv_pairs(r@).no_duplicates(),
    {
        let mut r: Vec<(ResolvedIdent, Ty)> = Vec::new();
        match &self.atom {
            ASTAtom::Var(v) => {
                r.push((v.clone(), self.ty.clone()));
                proof {
                    assert(fv_pairs(r@) =~= seq![(v.id, self.ty)]);
                }
            },
            _ => {
                proof {
                    assert(fv_pairs(r@) =~= Seq::<(NameIdentifier, Ty)>::empty());
                }
            },
        }
        proof {
            assert(fv_pairs(r@).to_set() =~= fv_atom(*self));
        }
        r
    }
}

/// Whether a free-variable list already holds a (token, type) pair.
fn fv_contains(v: &Vec<(ResolvedIdent, Ty)>, id: &NameIdentifier, ty: &Ty) -> (r: bool)
    ensures
        r == fv_pairs(v@).contains((*id, *ty)),
{
    let mut i: usize = 0;
    while i < v.len()
        invariant
            i <= v@.len(),
            forall|j: int| 0 <= j < i ==> fv_pairs(v@)[j] != (*id, *ty),
        decreases v@.len() - i,
    {
        let p = &v[i];
        if p.0.id.eq_id(id) && p.1 == *ty {
            proof {
                assert(fv_pairs(v@)[i as int] == (*id, *ty));
            }
            return true;
        }
        i = i + 1;
    }
    false
}

/// Merge `other` into `acc`, keeping pairs unique.
fn fv_merge(acc: &mut Vec<(ResolvedIdent, Ty)>, other: Vec<(ResolvedIdent, Ty)>)
    requires
        fv_pairs(old(acc)@).no_duplicates(),
    ensures
        fv_pairs(final(acc)@).no_duplicates(),
        fv_pairs(final(acc)@).to_set() == fv_pairs(old(acc)@).to_set().union(
            fv_pairs(other@).to_set(),
        ),
{
    let ghost o0 = other@;
    let mut i: usize = 0;
    let n = other.len();
    let mut rest = other;
    proof {
        assert(fv_pairs(o0.take(0)).to_set() =~= Set::<(NameIdentifier, Ty)>::empty());
        assert(fv_pairs(acc@).to_set().union(fv_pairs(o0.take(0)).to_set()) =~= fv_pairs(
            acc@,
        ).to_set());
    }
    while i < n
        invariant
            i <= o0.len(),
            n == o0.len(),
            rest@ == o0.skip(i as int),
            fv_pairs(acc@).no_duplicates(),
            fv_pairs(acc@).to_set() == fv_pairs(old(acc)@).to_set().union(
                fv_pairs(o0.take(i as int)).to_set(),
            ),
        decreases n - i,
    {
        let p = rest.remove(0);
        proof {
            assert(p == o0[i as int]);
        }
        let ghost accv = acc@;
        let already = fv_contains(acc, &p.0.id, &p.1);
        if !already {
            acc.push(p);
        }
        i = i + 1;
        proof {
            assert(rest@ =~= o0.skip(i as int));
            assert(fv_pairs(o0.take(i as int)).drop_last() =~= fv_pairs(
                o0.take(i as int - 1),
            ));
            assert(fv_pairs(o0.take(i as int)).last() == (o0[i as int - 1].0.id, o0[i as int
                - 1].1));
            assert(fv_pairs(o0.take(i as int)).to_set() =~= fv_pairs(
                o0.take(i as int - 1),
            ).to_set().insert((o0[i as int - 1].0.id, o0[i as int - 1].1)));
            if !already {
                assert(fv_pairs(acc@) =~= fv_pairs(accv).push((o0[i as int - 1].0.id, o0[i as int
                    - 1].1)));
            } else {
                assert(fv_pairs(accv).contains((o0[i as int - 1].0.id, o0[i as int - 1].1)));
                assert(fv_pairs(accv).to_set().contains((o0[i as int - 1].0.id, o0[i as int
                    - 1].1)));
            }
            assert(fv_pairs(acc@).to_set() =~= fv_pairs(old(acc)@).to_set().union(
                fv_pairs(o0.take(i as int)).to_set(),
            ));
        }
    }
    proof {
        assert(o0.take(o0.len() as int) =~= o0);
    }
}

/// Keep only the pairs whose token differs from `id`.
pub(crate) fn fv_remove_id(v: Vec<(ResolvedIdent, Ty)>, id: &NameIdentifier) -> (r: Vec<
    (ResolvedIdent, Ty),
>)
    requires
        fv_pairs(v@).no_duplicates(),
    ensures
        fv_pairs(r@).no_duplicates(),
        fv_pairs(r@).to_set() == fv_drop_id(fv_pairs(v@).to_set(), *id),
{
    let ghost v0 = v@;
    let mut r: Vec<(ResolvedIdent, Ty)> = Vec::new();
    let mut i: usize = 0;
    let n = v.len();
    let mut rest = v;
    proof {
        assert(fv_pairs(r@).to_set() =~= fv_drop_id(fv_pairs(v0.take(0)).to_set(), *id));
    }
    while i < n
        invariant
            i <= v0.len(),
            n == v0.len(),
            rest@ == v0.skip(i as int),
            fv_pairs(v0).no_duplicates(),
            fv_pairs(r@).no_duplicates(),
            fv_pairs(r@).to_set() == fv_drop_id(fv_pairs(v0.take(i as int)).to_set(), *id),
            forall|j: int|
                0 <= j < r@.len() ==> fv_pairs(v0.take(i as int)).contains(
                    #[trigger] fv_pairs(r@)[j],
                ),
        decreases n - i,
    {
        let p = rest.remove(0);
        proof {
            assert(p == v0[i as int]);
        }
        let ghost rv = r@;
        if !p.0.id.eq_id(id) {
            r.push(p);
        }
        i = i + 1;
        proof {
            assert(rest@ =~= v0.skip(i as int));
            assert(fv_pairs(v0.take(i as int)).drop_last() =~= fv_pairs(v0.take(i as int - 1)));
            assert(fv_pairs(v0.take(i as int)).last() == (v0[i as int - 1].0.id, v0[i as int
                - 1].1));
            let ghost q = (v0[i as int - 1].0.id, v0[i as int - 1].1);
            assert(fv_pairs(v0.take(i as int)).to_set() =~= fv_pairs(
                v0.take(i as int - 1),
            ).to_set().insert(q));
            if q.0 != *id {
                assert(fv_pairs(r@) =~= fv_pairs(rv).push(q));
                assert(!fv_pairs(rv).contains(q)) by {
                    if fv_pairs(rv).contains(q) {
                        let j = choose|j: int|
                            0 <= j < rv.len() && #[trigger] fv_pairs(rv)[j] == q;
                        assert(fv_pairs(v0.take(i as int - 1)).contains(q));
                        let m = choose|m: int|
                            0 <= m < i - 1 && #[trigger] fv_pairs(v0.take(i as int - 1))[m] == q;
                        assert(fv_pairs(v0)[m] == q);
                        assert(fv_pairs(v0)[i as int - 1] == q);
                    }
                }
            }
            assert(fv_pairs(r@).to_set() =~= fv_drop_id(
                fv_pairs(v0.take(i as int)).to_set(),
                *id,
            ));
            assert forall|j: int| 0 <= j < r@.len() implies fv_pairs(v0.take(i as int)).contains(
                #[trigger] fv_pairs(r@)[j],
            ) by {
                if j < rv.len() {
                    assert(fv_pairs(v0.take(i as int - 1)).contains(fv_pairs(rv)[j]));
                    let m = choose|m: int|
                        0 <= m < i - 1 && #[trigger] fv_pairs(v0.take(i as int - 1))[m]
                            == fv_pairs(rv)[j];
                    assert(fv_pairs(v0.take(i as int))[m] == fv_pairs(rv)[j]);
                }
            }
        }
    }
    proof {
        assert(v0.take(v0.len() as int) =~= v0);
    }
    r
}

impl Expr {
    /// The free variables of this expression, each with its type; no
    /// pair appears twice.
    pub fn free_vars(&self) -> (r: Vec<(ResolvedIdent, Ty)>)
        ensures
            fv_pairs(r@).to_set() == fv_expr(*self),
            fv_pairs(r@).no_duplicates(),
        decreases self, 1int,
    {
        match self {
            Expr::CExpr(c) => c.free_vars(),
            Expr::Let { bind, value, body, .. } => {
                let mut vars = value.free_vars();
                let bvars = body.free_vars();
                fv_merge(&mut vars, bvars);
                let r = fv_remove_id(vars, &bind.id);
                r
            },
        }
    }
}

impl CExpr {
    /// The free variables of this computation form.
    pub fn free_vars(&self) -> (r: Vec<(ResolvedIdent, Ty)>)
        ensures
            fv_pairs(r@).to_set() == fv_cexpr(*self),
            fv_pairs(r@).no_duplicates(),
        decreases self, 0int,
    {
        match self {
            CExpr::Atom(ta) => ta.free_vars(),
            CExpr::If { cond, then, else_, .. } => {
                let cond_atom = TypedAtom { atom: cond.clone(), ty: Ty::Bool };
                let mut vars = cond_atom.free_vars();
                let tvars = then.free_vars();
                let evars = else_.free_vars();
                fv_merge(&mut vars, tvars);
                fv_merge(&mut vars, evars);
                proof {
                    assert(fv_pairs(vars@).to_set() =~= fv_cexpr(*self));
                }
                vars
            },
            CExpr::Apply { func, args, .. } => {
                let mut vars = func.free_vars();
                let mut i: usize = 0;
                proof {
                    assert(fv_pairs(vars@).to_set() =~= fv_atom(*func).union(
                        fv_atoms(args@.take(0)),
                    ));
                }
                while i < args.len()
                    invariant
                        i <= args@.len(),
                        fv_pairs(vars@).no_duplicates(),
                        fv_pairs(vars@).to_set() == fv_atom(*func).union(
                            fv_atoms(args@.take(i as int)),
                        ),
                    decreases args@.len() - i,
                {
                    let avars = args[i].free_vars();
                    fv_merge(&mut vars, avars);
                    i = i + 1;
                    proof {
                        assert(args@.take(i as int).drop_last() =~= args@.take(i as int - 1));
                        assert(fv_pairs(vars@).to_set() =~= fv_atom(*func).union(
                            fv_atoms(args@.take(i as int)),
                        ));
                    }
                }
                proof {
                    assert(args@.take(args@.len() as int) =~= args@);
                }
                vars
            },
            CExpr::Lambda { args, body, .. } => {
                let mut vars = body.free_vars();
                let mut i: usize = 0;
                proof {
                    assert(fv_pairs(vars@).to_set() =~= fv_drop_params(
                        fv_expr(**body),
                        args@.take(0),
                    ));
                }
                while i < args.len()
                    invariant
                        i <= args@.len(),
                        fv_pairs(vars@).no_duplicates(),
                        fv_pairs(vars@).to_set() == fv_drop_params(
                            fv_expr(**body),
                            args@.take(i as int),
                        ),
                    decreases args@.len() - i,
                {
                    let id = args[i].0.id.clone();
                    let v2 = fv_remove_id(vars, &id);
                    vars = v2;
                    i = i + 1;
                    proof {
                        assert(args@.take(i as int).drop_last() =~= args@.take(i as int - 1));
                        assert(args@.take(i as int).last() == args@[i as int - 1]);
                        assert forall|q: (NameIdentifier, Ty)|
                            fv_drop_params(fv_expr(**body), args@.take(i as int)).contains(q)
                                == fv_drop_id(
                                fv_drop_params(fv_expr(**body), args@.take(i as int - 1)),
                                args@[i as int - 1].0.id,
                            ).contains(q) by {
                            if fv_drop_id(
                                fv_drop_params(fv_expr(**body), args@.take(i as int - 1)),
                                args@[i as int - 1].0.id,
                            ).contains(q) {
                                assert forall|m: int|
                                    0 <= m < args@.take(i as int).len() implies q.0 != (
                                #[trigger] args@.take(i as int)[m]).0.id by {
                                    if m < i - 1 {
                                        assert(args@.take(i as int - 1)[m] == args@.take(
                                            i as int,
                                        )[m]);
                                    }
                                }
                            }
                        }
                        assert(fv_pairs(vars@).to_set() =~= fv_drop_params(
                            fv_expr(**body),
                            args@.take(i as int),
                        ));
                    }
                }
                proof {
                    assert(fv_pairs(vars@).to_set() =~= fv_drop_params(fv_expr(**body), args@));
                }
                vars
            },
        }
    }
}


/// The compact display of a computation form.
pub open spec fn acexpr_display_of(c: CExpr) -> Seq<char>
    decreases c, 0int,
{
    match c {
        CExpr::Atom(ta) => crate::pp::atom_display_of(ta.atom),
        CExpr::If { cond, then, else_, .. } => "if "@ + crate::pp::atom_display_of(cond)
            + " then "@ + aexpr_display_of(*then) + " else "@ + aexpr_display_of(*else_)
            + " end"@,
        CExpr::Apply { func, args, .. } => "("@ + crate::pp::atom_display_of(func.atom)
            + crate::knf::atoms_display_of(args@) + ")"@,
        CExpr::Lambda { args, body, .. } => "fun"@ + crate::knf::params_display_of(args@)
            + " -> "@ + aexpr_display_of(*body),
    }
}

/// The compact display of an A-normal expression.
pub open spec fn aexpr_display_of(e: Expr) -> Seq<char>
    decreases e, 1int,
{
    match e {
        Expr::CExpr(c) => acexpr_display_of(c),
        Expr::Let { bind, value, body, is_polymorphic, .. } => "let "@ + (if is_polymorphic {
            "poly "@
        } else {
            Seq::empty()
        }) + bind.name@ + " = "@ + acexpr_display_of(*value) + " in "@ + aexpr_display_of(*body)
            + " end"@,
    }
}

fn pretty_acexpr(c: &CExpr) -> (r: String)
    ensures
        r@ == acexpr_display_of(*c),
    decreases c, 0int,
{
    match c {
        CExpr::Atom(ta) => crate::pp::pretty_atom(&ta.atom),
        CExpr::If { cond, then, else_, .. } => {
            proof {
                reveal_strlit("if ");
                reveal_strlit(" then ");
                reveal_strlit(" else ");
                reveal_strlit(" end");
            }
            let mut s = String::from_str("if ");
            s.append(crate::pp::pretty_atom(cond).as_str());
            s.append(" then ");
            s.append(pretty_aexpr(then).as_str());
            s.append(" else ");
            s.append(pretty_aexpr(else_).as_str());
            s.append(" end");
            proof {
                assert(s@ =~= acexpr_display_of(*c));
            }
            s
        },
        CExpr::Apply { func, args, .. } => {
            proof {
                reveal_strlit("(");
                reveal_strlit(")");
            }
            let mut s = String::from_str("(");
            s.append(crate::pp::pretty_atom(&func.atom).as_str());
            s.append(crate::knf::render_atoms(args).as_str());
            s.append(")");
            proof {
                assert(s@ =~= acexpr_display_of(*c));
            }
            s
        },
        CExpr::Lambda { args, body, .. } => {
            proof {
                reveal_strlit("fun");
                reveal_strlit(" -> ");
            }
            let mut s = String::from_str("fun");
            s.append(crate::knf::render_params(args).as_str());
            s.append(" -> ");
            s.append(pretty_aexpr(body).as_str());
            proof {
                assert(s@ =~= acexpr_display_of(*c));
            }
            s
        },
    }
}

fn pretty_aexpr(e: &Expr) -> (r: String)
    ensures
        r@ == aexpr_display_of(*e),
    decreases e, 1int,
{
    match e {
        Expr::CExpr(c) => pretty_acexpr(c),
        Expr::Let { bind, value, body, is_polymorphic, .. } => {
            proof {
                reveal_strlit("let ");
                reveal_strlit("poly ");
                reveal_strlit(" = ");
                reveal_strlit(" in ");
                reveal_strlit(" end");
            }
            let mut s = String::from_str("let ");
            if *is_polymorphic {
                s.append("poly ");
            }
            s.append(bind.name.as_str());
            s.append(" = ");
            s.append(pretty_acexpr(value).as_str());
            s.append(" in ");
            s.append(pretty_aexpr(body).as_str());
            s.append(" end");
            proof {
                assert(s@ =~= aexpr_display_of(*e));
            }
            s
        },
    }
}

impl CExpr {
    /// Print a computation form, indented by `indent` spaces.
    pub fn pretty(&self, indent: usize) -> (r: String)
        ensures
            r@ == crate::text::spaces_of(indent as nat) + acexpr_display_of(*self),
    {
        let mut s = crate::text::spaces(indent);
        s.append(pretty_acexpr(self).as_str());
        s
    }
}

impl Expr {
    /// Print an A-normal expression.
    pub fn pretty(&self) -> (r: String)
        ensures
            r@ == aexpr_display_of(*self),
    {
        pretty_aexpr(self)
    }
}

} // verus!
