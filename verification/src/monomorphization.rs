//! Whole-program monomorphization: collect the concrete instantiations
//! of every polymorphic binding from its use sites, then emit one
//! specialized copy per instance and rewrite the call sites to mangled
//! identifiers.

use vstd::prelude::*;

verus! {

broadcast use {vstd::seq_lib::group_seq_properties, vstd::prelude::Seq::lemma_push_to_set_commute};

use vstd::string::StringExecFns;
use crate::anf;
use crate::anf::acexpr_eqv;
use crate::anf::aexpr_eqv;
use crate::anf::clone_params;
use crate::ast::ASTAtom;
use crate::errors::FrontendError;
use crate::name_resolution::NameIdentifier;
use crate::name_resolution::ResolvedIdent;
use crate::subst::apply_subst;
use crate::subst::sub_apply;
use crate::ty::ty_args;
use crate::ty::ty_ret;
use crate::ty::Ty;
use crate::ty::TypeVar;
use crate::ty::mangle_of;
use crate::typed_atom::TypedAtom;

/// The local substitution carried through instance specialization.
pub type UpdateMap = Vec<(TypeVar, Ty)>;

/// Encode an argument-type vector as a single type: an arrow chain
/// ending in `Unit`.  The encoding is injective, so instance tokens
/// built from it stay unique.
pub open spec fn args_enc(s: Seq<Ty>) -> Ty
    decreases s.len(),
{
    if s.len() == 0 {
        Ty::Unit
    } else {
        Ty::Arrow(Box::new(s.first()), Box::new(args_enc(s.drop_first())))
    }
}

/// The encoding of argument vectors is injective.
pub proof fn lemma_args_enc_injective(a: Seq<Ty>, b: Seq<Ty>)
    requires
        args_enc(a) == args_enc(b),
    ensures
        a == b,
    decreases a.len(),
{
    if a.len() == 0 {
        if b.len() != 0 {
            assert(args_enc(b) is Arrow);
        }
        assert(a =~= b);
    } else {
        if b.len() == 0 {
            assert(args_enc(a) is Arrow);
        }
        lemma_args_enc_injective(a.drop_first(), b.drop_first());
        assert(a =~= a.drop_first().insert(0, a.first()));
        assert(b =~= b.drop_first().insert(0, b.first()));
        assert(a =~= b);
    }
}

/// The textual mangling of an argument vector, joined with `_`.
pub open spec fn mangle_join(s: Seq<Ty>) -> Seq<char>
    decreases s.len(),
{
    if s.len() == 0 {
        Seq::empty()
    } else if s.len() == 1 {
        mangle_of(s[0])
    } else {
        mangle_join(s.drop_last()) + "_"@ + mangle_of(s.last())
    }
}

/// The textual name of a monomorphized instance.
pub open spec fn mono_name_of(base: Seq<char>, args: Seq<Ty>) -> Seq<char> {
    base + "__"@ + mangle_join(args)
}

/// Whether an A-normal expression carries no polymorphic binding.
pub open spec fn no_poly_lets(e: anf::Expr) -> bool
    decreases e, 1int,
{
    match e {
        anf::Expr::CExpr(c) => no_poly_cexpr(c),
        anf::Expr::Let { value, body, is_polymorphic, .. } => !is_polymorphic && no_poly_cexpr(
            *value,
        ) && no_poly_lets(*body),
    }
}

/// Whether a computation form carries no polymorphic binding.
pub open spec fn no_poly_cexpr(c: anf::CExpr) -> bool
    decreases c, 0int,
{
    match c {
        anf::CExpr::Atom(_) => true,
        anf::CExpr::If { then, else_, .. } => no_poly_lets(*then) && no_poly_lets(*else_),
        anf::CExpr::Apply { .. } => true,
        anf::CExpr::Lambda { body, .. } => no_poly_lets(*body),
    }
}

/// The binders of polymorphic lets in an expression.
pub open spec fn poly_binds(e: anf::Expr) -> Set<NameIdentifier>
    decreases e, 1int,
{
    match e {
        anf::Expr::CExpr(c) => poly_binds_cexpr(c),
        anf::Expr::Let { bind, value, body, is_polymorphic, .. } => {
            let rest = poly_binds_cexpr(*value).union(poly_binds(*body));
            if is_polymorphic {
                rest.insert(bind.id)
            } else {
                rest
            }
        },
    }
}

/// The binders of polymorphic lets in a computation form.
pub open spec fn poly_binds_cexpr(c: anf::CExpr) -> Set<NameIdentifier>
    decreases c, 0int,
{
    match c {
        anf::CExpr::Atom(_) => Set::empty(),
        anf::CExpr::If { then, else_, .. } => poly_binds(*then).union(poly_binds(*else_)),
        anf::CExpr::Apply { .. } => Set::empty(),
        anf::CExpr::Lambda { body, .. } => poly_binds(*body),
    }
}

/// Tokens that are not specialized-instance tokens, as the collector
/// records for source binders.
pub open spec fn plain_ids(p: Seq<NameIdentifier>) -> bool {
    forall|i: int| 0 <= i < p.len() ==> !((#[trigger] p[i]) is Inst)
}

/// The atom does not name any of the given binders.
pub open spec fn atom_avoids(a: TypedAtom, pv: Seq<NameIdentifier>) -> bool {
    match a.atom {
        ASTAtom::Var(v) => !pv.contains(v.id),
        _ => true,
    }
}

/// No rewritten variable still refers to a polymorphic binder; the
/// hoisted condition of an `If` is carried unchanged and is exempt.
pub open spec fn no_poly_vars_expr(e: anf::Expr, pv: Seq<NameIdentifier>) -> bool
    decreases e, 1int,
{
    match e {
        anf::Expr::CExpr(c) => no_poly_vars_cexpr(c, pv),
        anf::Expr::Let { value, body, .. } => no_poly_vars_cexpr(*value, pv) && no_poly_vars_expr(
            *body,
            pv,
        ),
    }
}

/// The computation-form side of `no_poly_vars_expr`.
pub open spec fn no_poly_vars_cexpr(c: anf::CExpr, pv: Seq<NameIdentifier>) -> bool
    decreases c, 0int,
{
    match c {
        anf::CExpr::Atom(a) => atom_avoids(a, pv),
        anf::CExpr::If { then, else_, .. } => no_poly_vars_expr(*then, pv) && no_poly_vars_expr(
            *else_,
            pv,
        ),
        anf::CExpr::Apply { func, args, .. } => atom_avoids(func, pv) && (forall|i: int|
            0 <= i < args@.len() ==> atom_avoids(#[trigger] args@[i], pv)),
        anf::CExpr::Lambda { body, .. } => no_poly_vars_expr(*body, pv),
    }
}

/// A found instance is one of the recorded entries.
pub proof fn lemma_inst_key_get_index(s: Seq<(Vec<Ty>, (ResolvedIdent, Ty))>, key: Seq<Ty>)
    requires
        inst_key_get(s, key) is Some,
    ensures
        exists|j: int|
            0 <= j < s.len() && (#[trigger] s[j]).0@ == key && s[j].1 == inst_key_get(
                s,
                key,
            ).unwrap(),
    decreases s.len(),
{
    if s.len() == 0 {
    } else if s.last().0@ == key {
        assert(s[s.len() - 1].0@ == key && s[s.len() - 1].1 == inst_key_get(s, key).unwrap());
    } else {
        lemma_inst_key_get_index(s.drop_last(), key);
        let j = choose|j: int|
            0 <= j < s.drop_last().len() && (#[trigger] s.drop_last()[j]).0@ == key
                && s.drop_last()[j].1 == inst_key_get(s.drop_last(), key).unwrap();
        assert(s[j].0@ == key && s[j].1 == inst_key_get(s, key).unwrap());
    }
}

/// Look an argument vector up among a binding's instances.
pub open spec fn inst_key_get(
    s: Seq<(Vec<Ty>, (ResolvedIdent, Ty))>,
    key: Seq<Ty>,
) -> Option<(ResolvedIdent, Ty)>
    decreases s.len(),
{
    if s.len() == 0 {
        None
    } else if s.last().0@ == key {
        Some(s.last().1)
    } else {
        inst_key_get(s.drop_last(), key)
    }
}

/// The variable occurrences the collector visits: atoms standing
/// alone, and the function position of an application.
pub open spec fn occ_expr(e: anf::Expr, v: ResolvedIdent, tau: Ty) -> bool
    decreases e, 1int,
{
    match e {
        anf::Expr::CExpr(c) => occ_cexpr(c, v, tau),
        anf::Expr::Let { value, body, .. } => occ_cexpr(*value, v, tau) || occ_expr(
            *body,
            v,
            tau,
        ),
    }
}

/// The occurrences inside a computation form.
pub open spec fn occ_cexpr(c: anf::CExpr, v: ResolvedIdent, tau: Ty) -> bool
    decreases c, 0int,
{
    match c {
        anf::CExpr::Atom(ta) => ta.atom == ASTAtom::Var(v) && ta.ty == tau,
        anf::CExpr::If { then, else_, .. } => occ_expr(*then, v, tau) || occ_expr(*else_, v, tau),
        anf::CExpr::Apply { func, .. } => func.atom == ASTAtom::Var(v) && func.ty == tau,
        anf::CExpr::Lambda { body, .. } => occ_expr(*body, v, tau),
    }
}

/// An instance with this exact value is recorded for a binder and an
/// argument vector.
pub open spec fn recorded(
    s: Seq<(NameIdentifier, Vec<(Vec<Ty>, (ResolvedIdent, Ty))>)>,
    id: NameIdentifier,
    key: Seq<Ty>,
    val: (ResolvedIdent, Ty),
) -> bool {
    exists|i: int, j: int|
        #![trigger s[i].1@[j]]
        0 <= i < s.len() && 0 <= j < s[i].1@.len() && s[i].0 == id && s[i].1@[j].0@ == key
            && s[i].1@[j].1 == val
}

/// Some instance is recorded for a binder and an argument vector.
pub open spec fn covered(
    s: Seq<(NameIdentifier, Vec<(Vec<Ty>, (ResolvedIdent, Ty))>)>,
    id: NameIdentifier,
    key: Seq<Ty>,
) -> bool {
    exists|val: (ResolvedIdent, Ty)| recorded(s, id, key, val)
}

/// The recorded value a use site contributes: its mangled name comes
/// from the site's base name and argument vector, its result type from
/// the site's type.
pub open spec fn val_from_site(v: ResolvedIdent, tau: Ty, val: (ResolvedIdent, Ty)) -> bool {
    val.0.name@ == mono_name_of(v.name@, ty_args(tau)) && val.1 == ty_ret(tau)
}

/// The monomorphizer: the required instances of each polymorphic
/// binding, and the set of polymorphic binders.
pub struct Monomorphization {
    pub instances: Vec<(NameIdentifier, Vec<(Vec<Ty>, (ResolvedIdent, Ty))>)>,
    pub polymorphic: Vec<NameIdentifier>,
}

/// Every instance's identifier carries the canonical token: the
/// binding's own token paired with the encoded argument vector.
pub open spec fn insts_canonical(
    s: Seq<(NameIdentifier, Vec<(Vec<Ty>, (ResolvedIdent, Ty))>)>,
) -> bool {
    forall|i: int, j: int|
        0 <= i < s.len() && 0 <= j < s[i].1@.len() ==> (#[trigger] s[i].1@[j]).1.0.id
            == NameIdentifier::Inst(Box::new(s[i].0), Box::new(args_enc(s[i].1@[j].0@)))
}

/// Instance keys are unique: outer tokens pairwise distinct, argument
/// vectors distinct within a binding.
pub open spec fn insts_unique(
    s: Seq<(NameIdentifier, Vec<(Vec<Ty>, (ResolvedIdent, Ty))>)>,
) -> bool {
    &&& forall|i: int, j: int|
        0 <= i < j < s.len() ==> (#[trigger] s[i]).0 != (#[trigger] s[j]).0
    &&& forall|i: int, a: int, b: int|
        0 <= i < s.len() && 0 <= a < b < s[i].1@.len() ==> (#[trigger] s[i].1@[a]).0@ != (
        #[trigger] s[i].1@[b]).0@
}

impl Monomorphization {
    /// A well-formed monomorphizer state.
    pub open spec fn wf(&self) -> bool {
        insts_canonical(self.instances@) && insts_unique(self.instances@)
    }

    /// An empty monomorphizer.
    pub fn new() -> (r: Monomorphization)
        ensures
            r.wf(),
            r.instances@ == Seq::<
                (NameIdentifier, Vec<(Vec<Ty>, (ResolvedIdent, Ty))>),
            >::empty(),
            r.polymorphic@ == Seq::<NameIdentifier>::empty(),
    {
        Monomorphization { instances: Vec::new(), polymorphic: Vec::new() }
    }

    /// The mangled identifier of one instance: the base name with the
    /// mangled argument vector appended, and the canonical token.
    pub fn make_mono_ident(base: &ResolvedIdent, args: &Vec<Ty>) -> (r: ResolvedIdent)
        ensures
            r.name@ == mono_name_of(base.name@, args@),
            r.id == NameIdentifier::Inst(Box::new(base.id), Box::new(args_enc(args@))),
    {
        let mut name = base.name.clone();
        proof {
            reveal_strlit("__");
            reveal_strlit("_");
        }
        name.append("__");
        let mut i: usize = 0;
        while i < args.len()
            invariant
                i <= args@.len(),
                name@ == base.name@ + "__"@ + mangle_join(args@.take(i as int)),
            decreases args@.len() - i,
        {
            if i > 0 {
                name.append("_");
            }
            name.append(args[i].mangle().as_str());
            i = i + 1;
            proof {
                reveal_strlit("_");
                assert(args@.take(i as int).drop_last() =~= args@.take(i as int - 1));
                if i == 1 {
                    assert(mangle_join(args@.take(1)) == mangle_of(args@[0]));
                    assert(name@ =~= base.name@ + "__"@ + mangle_join(args@.take(i as int)));
                } else {
                    assert(name@ =~= base.name@ + "__"@ + mangle_join(args@.take(i as int)));
                }
            }
        }
        proof {
            assert(args@.take(args@.len() as int) =~= args@);
        }
        let enc = enc_args(args);
        ResolvedIdent { name, id: NameIdentifier::Inst(Box::new(base.id.clone()), Box::new(enc)) }
    }

    /// Whether a token is recorded as polymorphic.
    fn poly_contains(&self, id: &NameIdentifier) -> (r: bool)
        ensures
            r == self.polymorphic@.contains(*id),
    {
        let mut i: usize = 0;
        while i < self.polymorphic.len()
            invariant
                i <= self.polymorphic@.len(),
                forall|j: int| 0 <= j < i ==> self.polymorphic@[j] != *id,
            decreases self.polymorphic@.len() - i,
        {
            if self.polymorphic[i].eq_id(id) {
                return true;
            }
            i = i + 1;
        }
        false
    }

    /// The index of a binding's instance list, if recorded.
    fn find_inst_index(&self, id: &NameIdentifier) -> (r: Option<usize>)
        ensures
            match r {
                Some(i) => i < self.instances@.len() && self.instances@[i as int].0 == *id,
                None => forall|j: int|
                    0 <= j < self.instances@.len() ==> (#[trigger] self.instances@[j]).0 != *id,
            },
    {
        let mut i: usize = 0;
        while i < self.instances.len()
            invariant
                i <= self.instances@.len(),
                forall|j: int| 0 <= j < i ==> (#[trigger] self.instances@[j]).0 != *id,
            decreases self.instances@.len() - i,
        {
            if self.instances[i].0.eq_id(id) {
                return Some(i);
            }
            i = i + 1;
        }
        None
    }

    /// Record one observed instance: the argument vector of a use site
    /// together with its mangled identifier and result type.
    fn register(&mut self, id: &NameIdentifier, key: Vec<Ty>, val: (ResolvedIdent, Ty))
        requires
            old(self).wf(),
            val.0.id == NameIdentifier::Inst(Box::new(*id), Box::new(args_enc(key@))),
        ensures
            final(self).wf(),
            final(self).polymorphic == old(self).polymorphic,
            recorded(final(self).instances@, *id, key@, val),
            forall|id2: NameIdentifier, k2: Seq<Ty>|
                covered(old(self).instances@, id2, k2) ==> covered(
                    final(self).instances@,
                    id2,
                    k2,
                ),
            forall|id2: NameIdentifier, k2: Seq<Ty>, val2: (ResolvedIdent, Ty)|
                recorded(final(self).instances@, id2, k2, val2) ==> recorded(
                    old(self).instances@,
                    id2,
                    k2,
                    val2,
                ) || (id2 == *id && k2 == key@ && val2 == val),
    {
        let idx = self.find_inst_index(id);
        match idx {
            Some(i) => {
                let mut entry = self.instances.remove(i);
                let ghost removed = self.instances@;
                let mut j: usize = 0;
                let n = entry.1.len();
                let mut found: Option<usize> = None;
                while j < n
                    invariant
                        j <= entry.1@.len(),
                        n == entry.1@.len(),
                        match found {
                            Some(f) => f < entry.1@.len() && entry.1@[f as int].0@ == key@,
                            None => forall|m: int|
                                0 <= m < j ==> (#[trigger] entry.1@[m]).0@ != key@,
                        },
                    decreases n - j,
                {
                    if found.is_none() && tys_eq(&entry.1[j].0, &key) {
                        found = Some(j);
                    }
                    j = j + 1;
                }
                let ghost before = entry.1@;
                match found {
                    Some(f) => {
                        let _ = entry.1.remove(f);
                        entry.1.insert(f, (key, val));
                        proof {
                            assert(entry.1@ =~= before.update(f as int, (key, val)));
                        }
                    },
                    None => {
                        entry.1.push((key, val));
                    },
                }
                let ghost entg = entry;
                self.instances.insert(i, entry);
                proof {
                    let s0 = old(self).instances@;
                    let s1 = self.instances@;
                    assert(s1 =~= removed.insert(i as int, entg));
                    assert(s1 =~= s0.update(i as int, entg));
                    assert(entg.0 == *id);
                    assert(insts_canonical(s1));
                    assert(insts_unique(s1));
                    // the new value is recorded
                    match found {
                        Some(f) => {
                            assert(s1[i as int].1@[f as int] == (key, val));
                            assert(recorded(s1, *id, key@, val));
                        },
                        None => {
                            assert(s1[i as int].1@[before.len() as int] == (key, val));
                            assert(recorded(s1, *id, key@, val));
                        },
                    }
                    // older recordings survive, except the replaced key
                    assert forall|id2: NameIdentifier, k2: Seq<Ty>|
                        covered(s0, id2, k2) implies covered(s1, id2, k2) by {
                        let val2 = choose|val2: (ResolvedIdent, Ty)| recorded(s0, id2, k2, val2);
                        let (i2, j2) = choose|i2: int, j2: int|
                            #![trigger s0[i2].1@[j2]]
                            0 <= i2 < s0.len() && 0 <= j2 < s0[i2].1@.len() && s0[i2].0 == id2
                                && s0[i2].1@[j2].0@ == k2 && s0[i2].1@[j2].1 == val2;
                        if i2 != i {
                            assert(s1[i2].1@[j2] == s0[i2].1@[j2]);
                            assert(recorded(s1, id2, k2, val2));
                        } else {
                            match found {
                                Some(f) => {
                                    if j2 == f {
                                        assert(before[f as int].0@ == key@);
                                        assert(s1[i as int].1@[f as int].0@ == k2);
                                        assert(recorded(s1, id2, k2, val));
                                    } else {
                                        assert(s1[i2].1@[j2] == before[j2]);
                                        assert(recorded(s1, id2, k2, val2));
                                    }
                                },
                                None => {
                                    assert(s1[i2].1@[j2] == before[j2]);
                                    assert(recorded(s1, id2, k2, val2));
                                },
                            }
                        }
                    }
                    // every recording is an old one or the new one
                    assert forall|id2: NameIdentifier, k2: Seq<Ty>, val2: (ResolvedIdent, Ty)|
                        recorded(s1, id2, k2, val2) implies recorded(s0, id2, k2, val2) || (id2
                        == *id && k2 == key@ && val2 == val) by {
                        let (i2, j2) = choose|i2: int, j2: int|
                            #![trigger s1[i2].1@[j2]]
                            0 <= i2 < s1.len() && 0 <= j2 < s1[i2].1@.len() && s1[i2].0 == id2
                                && s1[i2].1@[j2].0@ == k2 && s1[i2].1@[j2].1 == val2;
                        if i2 != i {
                            assert(s0[i2].1@[j2] == s1[i2].1@[j2]);
                            assert(recorded(s0, id2, k2, val2));
                        } else {
                            match found {
                                Some(f) => {
                                    if j2 != f {
                                        assert(s0[i2].1@[j2] == s1[i2].1@[j2]);
                                        assert(recorded(s0, id2, k2, val2));
                                    }
                                },
                                None => {
                                    if j2 < before.len() {
                                        assert(s0[i2].1@[j2] == s1[i2].1@[j2]);
                                        assert(recorded(s0, id2, k2, val2));
                                    }
                                },
                            }
                        }
                    }
                }
            },
            None => {
                let mut inner: Vec<(Vec<Ty>, (ResolvedIdent, Ty))> = Vec::new();
                inner.push((key, val));
                self.instances.push((id.clone(), inner));
                proof {
                    let s0 = old(self).instances@;
                    let s1 = self.instances@;
                    assert(insts_canonical(s1));
                    assert(insts_unique(s1));
                    assert(s1[s0.len() as int].1@[0] == (key, val));
                    assert(recorded(s1, *id, key@, val));
                    assert forall|id2: NameIdentifier, k2: Seq<Ty>|
                        covered(s0, id2, k2) implies covered(s1, id2, k2) by {
                        let val2 = choose|val2: (ResolvedIdent, Ty)| recorded(s0, id2, k2, val2);
                        let (i2, j2) = choose|i2: int, j2: int|
                            #![trigger s0[i2].1@[j2]]
                            0 <= i2 < s0.len() && 0 <= j2 < s0[i2].1@.len() && s0[i2].0 == id2
                                && s0[i2].1@[j2].0@ == k2 && s0[i2].1@[j2].1 == val2;
                        assert(s1[i2].1@[j2] == s0[i2].1@[j2]);
                        assert(recorded(s1, id2, k2, val2));
                    }
                    assert forall|id2: NameIdentifier, k2: Seq<Ty>, val2: (ResolvedIdent, Ty)|
                        recorded(s1, id2, k2, val2) implies recorded(s0, id2, k2, val2) || (id2
                        == *id && k2 == key@ && val2 == val) by {
                        let (i2, j2) = choose|i2: int, j2: int|
                            #![trigger s1[i2].1@[j2]]
                            0 <= i2 < s1.len() && 0 <= j2 < s1[i2].1@.len() && s1[i2].0 == id2
                                && s1[i2].1@[j2].0@ == k2 && s1[i2].1@[j2].1 == val2;
                        if i2 < s0.len() {
                            assert(s0[i2].1@[j2] == s1[i2].1@[j2]);
                            assert(recorded(s0, id2, k2, val2));
                        }
                    }
                }
            },
        }
    }

    fn collect_typed_atom(&mut self, typed_atom: &TypedAtom)
        requires
            old(self).wf(),
        ensures
            final(self).wf(),
            final(self).polymorphic == old(self).polymorphic,
            typed_atom.atom matches ASTAtom::Var(v) ==> covered(
                final(self).instances@,
                v.id,
                ty_args(typed_atom.ty),
            ),
            forall|id2: NameIdentifier, k2: Seq<Ty>|
                covered(old(self).instances@, id2, k2) ==> covered(
                    final(self).instances@,
                    id2,
                    k2,
                ),
            forall|id2: NameIdentifier, k2: Seq<Ty>, val2: (ResolvedIdent, Ty)|
                recorded(final(self).instances@, id2, k2, val2) ==> recorded(
                    old(self).instances@,
                    id2,
                    k2,
                    val2,
                ) || (typed_atom.atom matches ASTAtom::Var(v2) && id2 == v2.id && k2 == ty_args(
                    typed_atom.ty,
                ) && val_from_site(v2, typed_atom.ty, val2)),
    {
        match &typed_atom.atom {
            ASTAtom::Var(var) => {
                let (arg_types, ret_ty) = typed_atom.ty.extract_args();
                let mono_ident = Self::make_mono_ident(var, &arg_types);
                let ghost gval = (mono_ident, ret_ty);
                self.register(&var.id, arg_types, (mono_ident, ret_ty));
                proof {
                    assert(recorded(
                        self.instances@,
                        var.id,
                        ty_args(typed_atom.ty),
                        gval,
                    ));
                    assert(val_from_site(*var, typed_atom.ty, gval));
                }
            },
            _ => {
            },
        }
    }

    fn collect_cexpr(&mut self, cexpr: &anf::CExpr)
        requires
            old(self).wf(),
        ensures
            final(self).wf(),
            final(self).polymorphic@.to_set() == old(self).polymorphic@.to_set().union(
                poly_binds_cexpr(*cexpr),
            ),
            no_poly_cexpr(*cexpr) ==> final(self).polymorphic@ == old(self).polymorphic@,
            forall|v: ResolvedIdent, tau: Ty|
                occ_cexpr(*cexpr, v, tau) ==> covered(
                    final(self).instances@,
                    v.id,
                    ty_args(tau),
                ),
            forall|id2: NameIdentifier, k2: Seq<Ty>|
                covered(old(self).instances@, id2, k2) ==> covered(
                    final(self).instances@,
                    id2,
                    k2,
                ),
            forall|id2: NameIdentifier, k2: Seq<Ty>, val2: (ResolvedIdent, Ty)|
                recorded(final(self).instances@, id2, k2, val2) ==> recorded(
                    old(self).instances@,
                    id2,
                    k2,
                    val2,
                ) || (exists|v2: ResolvedIdent, tau2: Ty|
                    #[trigger] occ_cexpr(*cexpr, v2, tau2) && id2 == v2.id && k2 == ty_args(tau2)
                        && val_from_site(v2, tau2, val2)),
        decreases cexpr, 0int,
    {
        let ghost p0 = self.polymorphic@;
        let ghost m0 = self.instances@;
        match cexpr {
            anf::CExpr::If { cond: _, then, else_, .. } => {
                self.collect_instances(then);
                let ghost m1 = self.instances@;
                self.collect_instances(else_);
                proof {
                    assert(self.polymorphic@.to_set() =~= p0.to_set().union(
                        poly_binds_cexpr(*cexpr),
                    ));
                    assert forall|v: ResolvedIdent, tau: Ty|
                        occ_cexpr(*cexpr, v, tau) implies covered(
                        self.instances@,
                        v.id,
                        ty_args(tau),
                    ) by {
                        if occ_expr(**then, v, tau) {
                            assert(covered(m1, v.id, ty_args(tau)));
                            assert(covered(self.instances@, v.id, ty_args(tau)));
                        } else {
                            assert(occ_expr(**else_, v, tau));
                            assert(covered(self.instances@, v.id, ty_args(tau)));
                        }
                    }
                    assert forall|id2: NameIdentifier, k2: Seq<Ty>, val2: (ResolvedIdent, Ty)|
                        recorded(self.instances@, id2, k2, val2) implies recorded(
                        m0,
                        id2,
                        k2,
                        val2,
                    ) || (exists|v2: ResolvedIdent, tau2: Ty|
                        #[trigger] occ_cexpr(*cexpr, v2, tau2) && id2 == v2.id && k2 == ty_args(
                            tau2,
                        ) && val_from_site(v2, tau2, val2)) by {
                        if !recorded(m0, id2, k2, val2) {
                            if recorded(m1, id2, k2, val2) {
                                let (v2, tau2) = choose|v2: ResolvedIdent, tau2: Ty|
                                    #[trigger] occ_expr(**then, v2, tau2) && id2 == v2.id && k2
                                        == ty_args(tau2) && val_from_site(v2, tau2, val2);
                                assert(occ_cexpr(*cexpr, v2, tau2));
                            } else {
                                let (v2, tau2) = choose|v2: ResolvedIdent, tau2: Ty|
                                    #[trigger] occ_expr(**else_, v2, tau2) && id2 == v2.id && k2
                                        == ty_args(tau2) && val_from_site(v2, tau2, val2);
                                assert(occ_cexpr(*cexpr, v2, tau2));
                            }
                        }
                    }
                }
            },
            anf::CExpr::Apply { func, args: _, .. } => {
                self.collect_typed_atom(func);
                proof {
                    assert(self.polymorphic@.to_set() =~= p0.to_set().union(
                        poly_binds_cexpr(*cexpr),
                    ));
                    assert forall|v: ResolvedIdent, tau: Ty|
                        occ_cexpr(*cexpr, v, tau) implies covered(
                        self.instances@,
                        v.id,
                        ty_args(tau),
                    ) by {
                        assert(func.atom == ASTAtom::Var(v) && func.ty == tau);
                        assert(covered(self.instances@, v.id, ty_args(func.ty)));
                    }
                    assert forall|id2: NameIdentifier, k2: Seq<Ty>, val2: (ResolvedIdent, Ty)|
                        recorded(self.instances@, id2, k2, val2) implies recorded(
                        m0,
                        id2,
                        k2,
                        val2,
                    ) || (exists|v2: ResolvedIdent, tau2: Ty|
                        #[trigger] occ_cexpr(*cexpr, v2, tau2) && id2 == v2.id && k2 == ty_args(
                            tau2,
                        ) && val_from_site(v2, tau2, val2)) by {
                        if !recorded(m0, id2, k2, val2) {
                            match func.atom {
                                ASTAtom::Var(v2) => {
                                    assert(occ_cexpr(*cexpr, v2, func.ty));
                                },
                                _ => {
                                },
                            }
                        }
                    }
                }
            },
            anf::CExpr::Lambda { args: _, body, .. } => {
                self.collect_instances(body);
                proof {
                    assert(self.polymorphic@.to_set() =~= p0.to_set().union(
                        poly_binds_cexpr(*cexpr),
                    ));
                    assert forall|v: ResolvedIdent, tau: Ty|
                        occ_cexpr(*cexpr, v, tau) implies covered(
                        self.instances@,
                        v.id,
                        ty_args(tau),
                    ) by {
                        assert(occ_expr(**body, v, tau));
                        assert(covered(self.instances@, v.id, ty_args(tau)));
                    }
                    assert forall|id2: NameIdentifier, k2: Seq<Ty>, val2: (ResolvedIdent, Ty)|
                        recorded(self.instances@, id2, k2, val2) implies recorded(
                        m0,
                        id2,
                        k2,
                        val2,
                    ) || (exists|v2: ResolvedIdent, tau2: Ty|
                        #[trigger] occ_cexpr(*cexpr, v2, tau2) && id2 == v2.id && k2 == ty_args(
                            tau2,
                        ) && val_from_site(v2, tau2, val2)) by {
                        if !recorded(m0, id2, k2, val2) {
                            let (v2, tau2) = choose|v2: ResolvedIdent, tau2: Ty|
                                #[trigger] occ_expr(**body, v2, tau2) && id2 == v2.id && k2
                                    == ty_args(tau2) && val_from_site(v2, tau2, val2);
                            assert(occ_cexpr(*cexpr, v2, tau2));
                        }
                    }
                }
            },
            anf::CExpr::Atom(typed_atom) => {
                self.collect_typed_atom(typed_atom);
                proof {
                    assert(self.polymorphic@.to_set() =~= p0.to_set().union(
                        poly_binds_cexpr(*cexpr),
                    ));
                    assert forall|v: ResolvedIdent, tau: Ty|
                        occ_cexpr(*cexpr, v, tau) implies covered(
                        self.instances@,
                        v.id,
                        ty_args(tau),
                    ) by {
                        assert(typed_atom.atom == ASTAtom::Var(v) && typed_atom.ty == tau);
                        assert(covered(self.instances@, v.id, ty_args(typed_atom.ty)));
                    }
                    assert forall|id2: NameIdentifier, k2: Seq<Ty>, val2: (ResolvedIdent, Ty)|
                        recorded(self.instances@, id2, k2, val2) implies recorded(
                        m0,
                        id2,
                        k2,
                        val2,
                    ) || (exists|v2: ResolvedIdent, tau2: Ty|
                        #[trigger] occ_cexpr(*cexpr, v2, tau2) && id2 == v2.id && k2 == ty_args(
                            tau2,
                        ) && val_from_site(v2, tau2, val2)) by {
                        if !recorded(m0, id2, k2, val2) {
                            match typed_atom.atom {
                                ASTAtom::Var(v2) => {
                                    assert(occ_cexpr(*cexpr, v2, typed_atom.ty));
                                },
                                _ => {
                                },
                            }
                        }
                    }
                }
            },
        }
    }

    /// Walk the tree once, recording the polymorphic binders and, for
    /// every variable use, the instance its type demands: its binder
    /// and argument-type vector map to an identifier mangled from a
    /// use site of that vector, with the site's result type.
    pub fn collect_instances(&mut self, expr: &anf::Expr)
        requires
            old(self).wf(),
        ensures
            final(self).wf(),
            final(self).polymorphic@.to_set() == old(self).polymorphic@.to_set().union(
                poly_binds(*expr),
            ),
            no_poly_lets(*expr) ==> final(self).polymorphic@ == old(self).polymorphic@,
            forall|v: ResolvedIdent, tau: Ty|
                occ_expr(*expr, v, tau) ==> covered(
                    final(self).instances@,
                    v.id,
                    ty_args(tau),
                ),
            forall|id2: NameIdentifier, k2: Seq<Ty>|
                covered(old(self).instances@, id2, k2) ==> covered(
                    final(self).instances@,
                    id2,
                    k2,
                ),
            forall|id2: NameIdentifier, k2: Seq<Ty>, val2: (ResolvedIdent, Ty)|
                recorded(final(self).instances@, id2, k2, val2) ==> recorded(
                    old(self).instances@,
                    id2,
                    k2,
                    val2,
                ) || (exists|v2: ResolvedIdent, tau2: Ty|
                    #[trigger] occ_expr(*expr, v2, tau2) && id2 == v2.id && k2 == ty_args(tau2)
                        && val_from_site(v2, tau2, val2)),
        decreases expr, 1int,
    {
        let ghost p0 = self.polymorphic@;
        let ghost m0 = self.instances@;
        match expr {
            anf::Expr::Let { bind, value, body, is_polymorphic, .. } => {
                if *is_polymorphic {
                    self.polymorphic.push(bind.id.clone());
                }
                self.collect_cexpr(value);
                let ghost m1 = self.instances@;
                self.collect_instances(body);
                proof {
                    if *is_polymorphic {
                        assert(self.polymorphic@.to_set() =~= p0.to_set().union(
                            poly_binds(*expr),
                        ));
                    } else {
                        assert(self.polymorphic@.to_set() =~= p0.to_set().union(
                            poly_binds(*expr),
                        ));
                    }
                    assert forall|v: ResolvedIdent, tau: Ty|
                        occ_expr(*expr, v, tau) implies covered(
                        self.instances@,
                        v.id,
                        ty_args(tau),
                    ) by {
                        if occ_cexpr(**value, v, tau) {
                            assert(covered(m1, v.id, ty_args(tau)));
                            assert(covered(self.instances@, v.id, ty_args(tau)));
                        } else {
                            assert(occ_expr(**body, v, tau));
                            assert(covered(self.instances@, v.id, ty_args(tau)));
                        }
                    }
                    assert forall|id2: NameIdentifier, k2: Seq<Ty>, val2: (ResolvedIdent, Ty)|
                        recorded(self.instances@, id2, k2, val2) implies recorded(
                        m0,
                        id2,
                        k2,
                        val2,
                    ) || (exists|v2: ResolvedIdent, tau2: Ty|
                        #[trigger] occ_expr(*expr, v2, tau2) && id2 == v2.id && k2 == ty_args(
                            tau2,
                        ) && val_from_site(v2, tau2, val2)) by {
                        if !recorded(m0, id2, k2, val2) {
                            if recorded(m1, id2, k2, val2) {
                                let (v2, tau2) = choose|v2: ResolvedIdent, tau2: Ty|
                                    #[trigger] occ_cexpr(**value, v2, tau2) && id2 == v2.id && k2
                                        == ty_args(tau2) && val_from_site(v2, tau2, val2);
                                assert(occ_expr(*expr, v2, tau2));
                            } else {
                                let (v2, tau2) = choose|v2: ResolvedIdent, tau2: Ty|
                                    #[trigger] occ_expr(**body, v2, tau2) && id2 == v2.id && k2
                                        == ty_args(tau2) && val_from_site(v2, tau2, val2);
                                assert(occ_expr(*expr, v2, tau2));
                            }
                        }
                    }
                }
            },
            anf::Expr::CExpr(cexpr) => {
                self.collect_cexpr(cexpr);
                proof {
                    assert(self.polymorphic@.to_set() =~= p0.to_set().union(poly_binds(*expr)));
                    assert forall|v: ResolvedIdent, tau: Ty|
                        occ_expr(*expr, v, tau) implies covered(
                        self.instances@,
                        v.id,
                        ty_args(tau),
                    ) by {
                        assert(occ_cexpr(*cexpr, v, tau));
                        assert(covered(self.instances@, v.id, ty_args(tau)));
                    }
                    assert forall|id2: NameIdentifier, k2: Seq<Ty>, val2: (ResolvedIdent, Ty)|
                        recorded(self.instances@, id2, k2, val2) implies recorded(
                        m0,
                        id2,
                        k2,
                        val2,
                    ) || (exists|v2: ResolvedIdent, tau2: Ty|
                        #[trigger] occ_expr(*expr, v2, tau2) && id2 == v2.id && k2 == ty_args(
                            tau2,
                        ) && val_from_site(v2, tau2, val2)) by {
                        if !recorded(m0, id2, k2, val2) {
                            let (v2, tau2) = choose|v2: ResolvedIdent, tau2: Ty|
                                #[trigger] occ_cexpr(*cexpr, v2, tau2) && id2 == v2.id && k2
                                    == ty_args(tau2) && val_from_site(v2, tau2, val2);
                            assert(occ_expr(*expr, v2, tau2));
                        }
                    }
                }
            },
        }
    }
}

/// Compare two argument vectors.
fn tys_eq(a: &Vec<Ty>, b: &Vec<Ty>) -> (r: bool)
    ensures
        r == (a@ == b@),
{
    if a.len() != b.len() {
        proof {
            assert(a@.len() != b@.len());
        }
        return false;
    }
    let mut i: usize = 0;
    while i < a.len()
        invariant
            i <= a@.len(),
            a@.len() == b@.len(),
            forall|j: int| 0 <= j < i ==> a@[j] == b@[j],
        decreases a@.len() - i,
    {
        if !(a[i] == b[i]) {
            return false;
        }
        i = i + 1;
    }
    proof {
        assert(a@ =~= b@);
    }
    true
}

/// Encode an argument vector as an arrow chain ending in `Unit`.
fn enc_args(args: &Vec<Ty>) -> (r: Ty)
    ensures
        r == args_enc(args@),
{
    let mut acc = Ty::Unit;
    let mut i: usize = args.len();
    proof {
        assert(args@.skip(args@.len() as int) =~= Seq::<Ty>::empty());
    }
    while i > 0
        invariant
            i <= args@.len(),
            acc == args_enc(args@.skip(i as int)),
        decreases i,
    {
        i = i - 1;
        acc = Ty::Arrow(Box::new(args[i].clone()), Box::new(acc));
        proof {
            assert(args@.skip(i as int).first() == args@[i as int]);
            assert(args@.skip(i as int).drop_first() =~= args@.skip(i as int + 1));
        }
    }
    proof {
        assert(args@.skip(0) =~= args@);
    }
    acc
}

/// No two distinct recorded instances share a mangled token.
pub proof fn lemma_mono_idents_unique(
    m: Monomorphization,
    i1: int,
    j1: int,
    i2: int,
    j2: int,
)
    requires
        m.wf(),
        0 <= i1 < m.instances@.len(),
        0 <= j1 < m.instances@[i1].1@.len(),
        0 <= i2 < m.instances@.len(),
        0 <= j2 < m.instances@[i2].1@.len(),
        (i1, j1) != (i2, j2),
    ensures
        m.instances@[i1].1@[j1].1.0.id != m.instances@[i2].1@[j2].1.0.id,
{
    let s = m.instances@;
    assert(s[i1].1@[j1].1.0.id == NameIdentifier::Inst(
        Box::new(s[i1].0),
        Box::new(args_enc(s[i1].1@[j1].0@)),
    ));
    assert(s[i2].1@[j2].1.0.id == NameIdentifier::Inst(
        Box::new(s[i2].0),
        Box::new(args_enc(s[i2].1@[j2].0@)),
    ));
    if s[i1].1@[j1].1.0.id == s[i2].1@[j2].1.0.id {
        assert(s[i1].0 == s[i2].0);
        if i1 != i2 {
            if i1 < i2 {
                assert(s[i1].0 != s[i2].0);
            } else {
                assert(s[i2].0 != s[i1].0);
            }
        } else {
            lemma_args_enc_injective(s[i1].1@[j1].0@, s[i2].1@[j2].0@);
            if j1 < j2 {
                assert(s[i1].1@[j1].0@ != s[i1].1@[j2].0@);
            } else {
                assert(s[i1].1@[j2].0@ != s[i1].1@[j1].0@);
            }
        }
    }
}



/// How a rewritten atom relates to its source: a use of a polymorphic
/// binder with recorded instances is renamed to the instance its
/// argument vector selects; any other atom keeps its identity.  The
/// carried types are images of the local substitution and are not
/// pinned here.
pub open spec fn rw_atom_rel(m: Monomorphization, a: TypedAtom, o: TypedAtom) -> bool {
    match a.atom {
        ASTAtom::Var(v) => {
            if m.polymorphic@.contains(v.id) && (exists|i: int|
                0 <= i < m.instances@.len() && (#[trigger] m.instances@[i]).0 == v.id) {
                exists|i: int|
                    #![trigger m.instances@[i]]
                    0 <= i < m.instances@.len() && m.instances@[i].0 == v.id && (inst_key_get(
                        m.instances@[i].1@,
                        ty_args(a.ty),
                    ) matches Some(p) && o.atom == ASTAtom::Var(p.0))
            } else {
                o.atom == a.atom
            }
        },
        _ => o.atom == a.atom,
    }
}

/// The specialized bindings a polymorphic lambda binding expands into:
/// one `Let` per recorded instance, later instances outermost, each
/// binding the instance's mangled identifier to a lambda whose
/// parameters take the instance's argument types, whose return type is
/// the instance's result type, and whose body is its own rewrite of
/// the original body; innermost stands the rewritten let body.
pub open spec fn inst_chain_rel(
    m: Monomorphization,
    insts: Seq<(Vec<Ty>, (ResolvedIdent, Ty))>,
    e: anf::Expr,
    o: anf::Expr,
) -> bool
    decreases e, 0int, insts.len(),
{
    match e {
        anf::Expr::Let { value, body: let_body, .. } => match *value {
            anf::CExpr::Lambda { args: largs, body: lam_body, ret_ty: _ } => {
                if insts.len() == 0 {
                    mono_rel(m, *let_body, o)
                } else {
                    o matches anf::Expr::Let {
                        bind: b2,
                        value: v2,
                        body: bo2,
                        ty: _,
                        is_polymorphic: p2,
                    } && b2 == insts.last().1.0 && p2 == false && (*v2 matches anf::CExpr::Lambda {
                        args: a2,
                        body: lb2,
                        ret_ty: rt2,
                    } && a2@.len() == (if largs@.len() <= insts.last().0@.len() {
                        largs@.len()
                    } else {
                        insts.last().0@.len()
                    }) && (forall|j: int|
                        0 <= j < a2@.len() ==> (#[trigger] a2@[j]).0 == largs@[j].0 && a2@[j].1
                            == insts.last().0@[j]) && rt2 == insts.last().1.1 && mono_rel(
                        m,
                        *lam_body,
                        *lb2,
                    )) && inst_chain_rel(m, insts.drop_last(), e, *bo2)
                }
            },
            _ => false,
        },
        _ => false,
    }
}

/// How the rewritten program relates to its source: each polymorphic
/// lambda binding is replaced by its instance chain, every other form
/// is carried structurally with its atoms renamed by `rw_atom_rel`.
pub open spec fn mono_rel(m: Monomorphization, e: anf::Expr, o: anf::Expr) -> bool
    decreases e, 1int, 0int,
{
    match e {
        anf::Expr::CExpr(c) => o matches anf::Expr::CExpr(c2) && mono_cexpr_rel(m, c, c2),
        anf::Expr::Let { bind, value, body, ty: _, is_polymorphic } => {
            if is_polymorphic && (*value) is Lambda {
                exists|i: int|
                    #![trigger m.instances@[i]]
                    0 <= i < m.instances@.len() && m.instances@[i].0 == bind.id && inst_chain_rel(
                        m,
                        m.instances@[i].1@,
                        e,
                        o,
                    )
            } else {
                o matches anf::Expr::Let {
                    bind: b2,
                    value: v2,
                    body: bo2,
                    ty: _,
                    is_polymorphic: p2,
                } && b2 == bind && p2 == false && mono_cexpr_rel(m, *value, *v2) && mono_rel(
                    m,
                    *body,
                    *bo2,
                )
            }
        },
    }
}

/// The computation-form side of the rewrite relation.
pub open spec fn mono_cexpr_rel(m: Monomorphization, c: anf::CExpr, o: anf::CExpr) -> bool
    decreases c, 0int, 0int,
{
    match c {
        anf::CExpr::Atom(a) => o matches anf::CExpr::Atom(a2) && rw_atom_rel(m, a, a2),
        anf::CExpr::If { cond, then, else_, .. } => o matches anf::CExpr::If {
            cond: c2,
            then: t2,
            else_: e2,
            ty: _,
        } && c2 == cond && mono_rel(m, *then, *t2) && mono_rel(m, *else_, *e2),
        anf::CExpr::Apply { func, args, .. } => o matches anf::CExpr::Apply {
            func: f2,
            args: a2,
            ty: _,
        } && rw_atom_rel(m, func, f2) && a2@.len() == args@.len() && (forall|j: int|
            0 <= j < args@.len() ==> rw_atom_rel(m, args@[j], #[trigger] a2@[j])),
        anf::CExpr::Lambda { args, body, .. } => o matches anf::CExpr::Lambda {
            args: ar2,
            body: b2,
            ret_ty: _,
        } && ar2@ == args@ && mono_rel(m, *body, *b2),
    }
}

/// Fuel bounding the specialization unifier; exhaustion is reported as
/// an inconsistency.
const UNIFY_FUEL: u64 = 4294967296;

/// The empty substitution changes nothing.
pub proof fn lemma_sub_apply_empty(s: Seq<(TypeVar, Ty)>, t: Ty)
    requires
        s.len() == 0,
    ensures
        sub_apply(s, t) == t,
    decreases t,
{
    match t {
        Ty::Arrow(a, b) => {
            lemma_sub_apply_empty(s, *a);
            lemma_sub_apply_empty(s, *b);
        },
        _ => {
        },
    }
}

/// Apply the local substitution throughout a type.
fn apply_update(ty: &Ty, update: &UpdateMap) -> (r: Ty)
    ensures
        r == sub_apply(update@, *ty),
{
    apply_subst(ty, update)
}

/// Solve the constraints between a specialized binding's parameter
/// types and an instance's argument types, extending the update map.
/// Base types must match; variables bind on sight.
fn upd_unify(update: &mut UpdateMap, a: &Ty, b: &Ty, fuel: u64) -> (ok: bool)
    decreases fuel,
{
    if fuel == 0 {
        return false;
    }
    let a1 = apply_subst(a, update);
    let b1 = apply_subst(b, update);
    match (a1, b1) {
        (Ty::Int, Ty::Int) => true,
        (Ty::Bool, Ty::Bool) => true,
        (Ty::Unit, Ty::Unit) => true,
        (Ty::Mono(x), t) => {
            update.push((x, t));
            true
        },
        (t, Ty::Mono(x)) => {
            update.push((x, t));
            true
        },
        (Ty::Arrow(a1l, a1r), Ty::Arrow(b1l, b1r)) => {
            if upd_unify(update, &*a1l, &*b1l, fuel - 1) {
                upd_unify(update, &*a1r, &*b1r, fuel - 1)
            } else {
                false
            }
        },
        _ => false,
    }
}

impl Monomorphization {
    fn rewrite_typed_atom(&self, typed_atom: &TypedAtom, update: &mut UpdateMap) -> (r: Result<
        TypedAtom,
        FrontendError,
    >)
        ensures
            final(update)@ == old(update)@,
            r matches Err(e) ==> e is TypeError,
            (self.polymorphic@.len() == 0 && old(update)@.len() == 0) ==> (r matches Ok(o)
                && o.atom == typed_atom.atom && o.ty == typed_atom.ty),
            (self.wf() && plain_ids(self.polymorphic@)) ==> (r matches Ok(o2) ==> atom_avoids(
                o2,
                self.polymorphic@,
            )),
            r matches Ok(o3) ==> rw_atom_rel(*self, *typed_atom, o3),
    {
        proof {
            if update@.len() == 0 {
                lemma_sub_apply_empty(update@, typed_atom.ty);
            }
        }
        match &typed_atom.atom {
            ASTAtom::Var(var) => {
                let is_poly = self.poly_contains(&var.id);
                if is_poly {
                    match self.find_inst_index(&var.id) {
                        Some(i) => {
                            let (arg_types, _ret) = typed_atom.ty.extract_args();
                            match find_key(&self.instances[i].1, &arg_types) {
                                Some(p) => {
                                    proof {
                                        if self.wf() && plain_ids(self.polymorphic@) {
                                            lemma_inst_key_get_index(
                                                self.instances@[i as int].1@,
                                                arg_types@,
                                            );
                                            assert(p.0.id is Inst);
                                            if self.polymorphic@.contains(p.0.id) {
                                                let j = choose|j: int|
                                                    0 <= j < self.polymorphic@.len()
                                                        && self.polymorphic@[j] == p.0.id;
                                            }
                                        }
                                    }
                                    let r = TypedAtom {
                                        atom: ASTAtom::Var(p.0.clone()),
                                        ty: apply_update(&typed_atom.ty, update),
                                    };
                                    proof {
                                        assert(self.instances@[i as int].0 == var.id);
                                        assert(inst_key_get(
                                            self.instances@[i as int].1@,
                                            ty_args(typed_atom.ty),
                                        ) == Some(*p));
                                        assert(rw_atom_rel(*self, *typed_atom, r));
                                    }
                                    Ok(r)
                                },
                                None => {
                                    proof {
                                        reveal_strlit("no instance for a polymorphic use");
                                    }
                                    Err(
                                        FrontendError::TypeError(
                                            String::from_str("no instance for a polymorphic use"),
                                        ),
                                    )
                                },
                            }
                        },
                        None => {
                            proof {
                                reveal_strlit("no instances for a polymorphic use");
                            }
                            Err(
                                FrontendError::TypeError(
                                    String::from_str("no instances for a polymorphic use"),
                                ),
                            )
                        },
                    }
                } else {
                    Ok(
                        TypedAtom {
                            atom: ASTAtom::Var(var.clone()),
                            ty: apply_update(&typed_atom.ty, update),
                        },
                    )
                }
            },
            _ => Ok(
                TypedAtom {
                    atom: typed_atom.atom.clone(),
                    ty: apply_update(&typed_atom.ty, update),
                },
            ),
        }
    }

    fn rewrite_cexpr(&self, cexpr: &anf::CExpr, update: &mut UpdateMap) -> (r: Result<
        anf::CExpr,
        FrontendError,
    >)
        ensures
            r matches Err(e) ==> e is TypeError,
            r matches Ok(o) ==> no_poly_cexpr(o),
            r matches Ok(o4) ==> mono_cexpr_rel(*self, *cexpr, o4),
            (self.wf() && plain_ids(self.polymorphic@)) ==> (r matches Ok(o3)
                ==> no_poly_vars_cexpr(o3, self.polymorphic@)),
            (self.polymorphic@.len() == 0 && old(update)@.len() == 0 && no_poly_cexpr(*cexpr))
                ==> (r matches Ok(o2) && acexpr_eqv(*cexpr, o2) && final(update)@ == old(
                update,
            )@),
        decreases cexpr, 0int,
    {
        match cexpr {
            anf::CExpr::Atom(ta) => {
                let a2 = match self.rewrite_typed_atom(ta, update) {
                    Ok(x) => x,
                    Err(e) => {
                        return Err(e);
                    },
                };
                Ok(anf::CExpr::Atom(a2))
            },
            anf::CExpr::Apply { func, args, ty } => {
                let f2 = match self.rewrite_typed_atom(func, update) {
                    Ok(x) => x,
                    Err(e) => {
                        return Err(e);
                    },
                };
                let mut args2: Vec<TypedAtom> = Vec::new();
                let mut i: usize = 0;
                while i < args.len()
                    invariant
                        i <= args@.len(),
                        args2@.len() == i,
                        update@ == old(update)@ || !(self.polymorphic@.len() == 0 && old(
                            update,
                        )@.len() == 0),
                        (self.polymorphic@.len() == 0 && old(update)@.len() == 0) ==> (
                        forall|j: int| 0 <= j < i ==> #[trigger] args2@[j] == args@[j]),
                        (self.wf() && plain_ids(self.polymorphic@)) ==> (forall|j: int|
                            0 <= j < i ==> atom_avoids(#[trigger] args2@[j], self.polymorphic@)),
                        forall|j: int|
                            0 <= j < i ==> rw_atom_rel(*self, args@[j], #[trigger] args2@[j]),
                    decreases args@.len() - i,
                {
                    let a2 = match self.rewrite_typed_atom(&args[i], update) {
                        Ok(x) => x,
                        Err(e) => {
                            return Err(e);
                        },
                    };
                    args2.push(a2);
                    i = i + 1;
                }
                proof {
                    if self.polymorphic@.len() == 0 && old(update)@.len() == 0 {
                        assert(args2@ =~= args@);
                        lemma_sub_apply_empty(update@, *ty);
                    }
                }
                let ty2 = apply_update(ty, update);
                Ok(anf::CExpr::Apply { func: f2, args: args2, ty: ty2 })
            },
            anf::CExpr::If { cond, then, else_, ty } => {
                let t2 = match self.rewrite_expr(then, update) {
                    Ok(x) => x,
                    Err(e) => {
                        return Err(e);
                    },
                };
                let e2 = match self.rewrite_expr(else_, update) {
                    Ok(x) => x,
                    Err(e) => {
                        return Err(e);
                    },
                };
                proof {
                    if self.polymorphic@.len() == 0 && old(update)@.len() == 0 && no_poly_cexpr(
                        *cexpr,
                    ) {
                        lemma_sub_apply_empty(update@, *ty);
                    }
                }
                let ty2 = apply_update(ty, update);
                Ok(
                    anf::CExpr::If {
                        cond: cond.clone(),
                        then: Box::new(t2),
                        else_: Box::new(e2),
                        ty: ty2,
                    },
                )
            },
            anf::CExpr::Lambda { args, body, ret_ty } => {
                let b2 = match self.rewrite_expr(body, update) {
                    Ok(x) => x,
                    Err(e) => {
                        return Err(e);
                    },
                };
                proof {
                    if self.polymorphic@.len() == 0 && old(update)@.len() == 0 && no_poly_cexpr(
                        *cexpr,
                    ) {
                        lemma_sub_apply_empty(update@, *ret_ty);
                    }
                }
                let rt2 = apply_update(ret_ty, update);
                Ok(anf::CExpr::Lambda { args: clone_params(args), body: Box::new(b2), ret_ty: rt2 })
            },
        }
    }

    /// Rewrite the program: each polymorphic lambda binding is replaced
    /// by one specialized copy per recorded instance, and every other
    /// form is carried through under the local substitution.  The
    /// result carries no polymorphic binding; on a program that is
    /// already monomorphic the rewrite is the identity.
    pub fn rewrite_expr(&self, expr: &anf::Expr, update: &mut UpdateMap) -> (r: Result<
        anf::Expr,
        FrontendError,
    >)
        ensures
            r matches Err(e) ==> e is TypeError,
            r matches Ok(o) ==> no_poly_lets(o),
            r matches Ok(o4) ==> mono_rel(*self, *expr, o4),
            (self.wf() && plain_ids(self.polymorphic@)) ==> (r matches Ok(o3)
                ==> no_poly_vars_expr(o3, self.polymorphic@)),
            (self.polymorphic@.len() == 0 && old(update)@.len() == 0 && no_poly_lets(*expr))
                ==> (r matches Ok(o2) && aexpr_eqv(*expr, o2) && final(update)@ == old(
                update,
            )@),
        decreases expr, 1int,
    {
        match expr {
            anf::Expr::CExpr(c) => {
                let c2 = match self.rewrite_cexpr(c, update) {
                    Ok(x) => x,
                    Err(e) => {
                        return Err(e);
                    },
                };
                Ok(anf::Expr::CExpr(c2))
            },
            anf::Expr::Let { bind, value, body, ty, is_polymorphic } => {
                let value_is_lambda = matches!(&**value, anf::CExpr::Lambda { .. });
                if *is_polymorphic && value_is_lambda {
                    let mut new_body = match self.rewrite_expr(body, update) {
                        Ok(x) => x,
                        Err(e) => {
                            return Err(e);
                        },
                    };
                    let i = match self.find_inst_index(&bind.id) {
                        Some(i) => i,
                        None => {
                            proof {
                                reveal_strlit("no instances for a polymorphic binding");
                            }
                            return Err(
                                FrontendError::TypeError(
                                    String::from_str("no instances for a polymorphic binding"),
                                ),
                            );
                        },
                    };
                    let n = self.instances[i].1.len();
                    let mut k: usize = 0;
                    proof {
                        assert(decreases_to!(*expr => **value));
                        assert(self.instances@[i as int].1@.take(0).len() == 0);
                        assert(inst_chain_rel(
                            *self,
                            self.instances@[i as int].1@.take(0),
                            *expr,
                            new_body,
                        ));
                    }
                    while k < n
                        invariant
                            k <= n,
                            i < self.instances@.len(),
                            n == self.instances@[i as int].1@.len(),
                            no_poly_lets(new_body),
                            (self.wf() && plain_ids(self.polymorphic@)) ==> no_poly_vars_expr(
                                new_body,
                                self.polymorphic@,
                            ),
                            (**value) is Lambda,
                            (*expr) is Let,
                            (*expr)->Let_value == *value,
                            (*expr)->Let_body == *body,
                            !no_poly_lets(*expr),
                            decreases_to!(*expr => **value),
                            inst_chain_rel(
                                *self,
                                self.instances@[i as int].1@.take(k as int),
                                *expr,
                                new_body,
                            ),
                        decreases n - k,
                    {
                        let entry_key = &self.instances[i].1[k].0;
                        let mono_id = &self.instances[i].1[k].1.0;
                        let inst_ret = &self.instances[i].1[k].1.1;
                        match &**value {
                            anf::CExpr::Lambda { args: lam_args, body: lam_body, ret_ty: _ } => {
                                let mut new_args: Vec<(ResolvedIdent, Ty)> = Vec::new();
                                let m = if lam_args.len() < entry_key.len() {
                                    lam_args.len()
                                } else {
                                    entry_key.len()
                                };
                                let mut j: usize = 0;
                                while j < m
                                    invariant
                                        j <= m,
                                        m <= lam_args@.len(),
                                        m <= entry_key@.len(),
                                        new_args@.len() == j,
                                        forall|jj: int|
                                            0 <= jj < j ==> (#[trigger] new_args@[jj]).0
                                                == lam_args@[jj].0 && new_args@[jj].1
                                                == entry_key@[jj],
                                    decreases m - j,
                                {
                                    new_args.push(
                                        (lam_args[j].0.clone(), entry_key[j].clone()),
                                    );
                                    j = j + 1;
                                }
                                update.clear();
                                let mut j2: usize = 0;
                                while j2 < m
                                    invariant
                                        j2 <= m,
                                        m <= lam_args@.len(),
                                        m <= entry_key@.len(),
                                        !no_poly_lets(*expr),
                                    decreases m - j2,
                                {
                                    let ok = upd_unify(
                                        update,
                                        &lam_args[j2].1,
                                        &entry_key[j2],
                                        UNIFY_FUEL,
                                    );
                                    if !ok {
                                        proof {
                                            reveal_strlit(
                                                "cannot unify an instance with its binding",
                                            );
                                        }
                                        return Err(
                                            FrontendError::TypeError(
                                                String::from_str(
                                                    "cannot unify an instance with its binding",
                                                ),
                                            ),
                                        );
                                    }
                                    j2 = j2 + 1;
                                }
                                let new_lam_body = match self.rewrite_expr(lam_body, update) {
                                    Ok(x) => x,
                                    Err(e) => {
                                        return Err(e);
                                    },
                                };
                                let ghost nlb = new_lam_body;
                                let ghost prev_body = new_body;
                                let new_lambda = anf::CExpr::Lambda {
                                    args: new_args,
                                    body: Box::new(new_lam_body),
                                    ret_ty: inst_ret.clone(),
                                };
                                let ghost nlam = new_lambda;
                                new_body = anf::Expr::Let {
                                    bind: mono_id.clone(),
                                    value: Box::new(new_lambda),
                                    body: Box::new(new_body),
                                    ty: apply_update(ty, update),
                                    is_polymorphic: false,
                                };
                                proof {
                                    assert(no_poly_lets(nlb));
                                    assert(no_poly_cexpr(nlam));
                                    assert(no_poly_lets(prev_body));
                                    assert(no_poly_lets(new_body));
                                    if self.wf() && plain_ids(self.polymorphic@) {
                                        assert(no_poly_vars_expr(nlb, self.polymorphic@));
                                        assert(no_poly_vars_cexpr(nlam, self.polymorphic@));
                                        assert(no_poly_vars_expr(prev_body, self.polymorphic@));
                                        assert(no_poly_vars_expr(new_body, self.polymorphic@));
                                    }
                                    let insts = self.instances@[i as int].1@;
                                    assert(insts.take(k as int + 1).drop_last() =~= insts.take(
                                        k as int,
                                    ));
                                    assert(insts.take(k as int + 1).last() == insts[k as int]);
                                    assert(mono_rel(*self, **lam_body, nlb));
                                    assert(inst_chain_rel(
                                        *self,
                                        insts.take(k as int + 1),
                                        *expr,
                                        new_body,
                                    ));
                                }
                            },
                            _ => {
                                proof {
                                    assert(false);
                                }
                            },
                        }
                        k = k + 1;
                    }
                    proof {
                        assert(self.instances@[i as int].1@.take(n as int) =~= self.instances@[
                            i as int
                        ].1@);
                        assert(mono_rel(*self, *expr, new_body));
                    }
                    Ok(new_body)
                } else {
                    let v2 = match self.rewrite_cexpr(value, update) {
                        Ok(x) => x,
                        Err(e) => {
                            return Err(e);
                        },
                    };
                    let b2 = match self.rewrite_expr(body, update) {
                        Ok(x) => x,
                        Err(e) => {
                            return Err(e);
                        },
                    };
                    proof {
                        if self.polymorphic@.len() == 0 && old(update)@.len() == 0 && no_poly_lets(
                            *expr,
                        ) {
                            lemma_sub_apply_empty(update@, *ty);
                        }
                    }
                    let ty2 = apply_update(ty, update);
                    Ok(
                        anf::Expr::Let {
                            bind: bind.clone(),
                            value: Box::new(v2),
                            body: Box::new(b2),
                            ty: ty2,
                            is_polymorphic: false,
                        },
                    )
                }
            },
        }
    }
}

/// Look an argument vector up in a binding's instance list.
fn find_key<'a>(entry: &'a Vec<(Vec<Ty>, (ResolvedIdent, Ty))>, key: &Vec<Ty>) -> (r: Option<
    &'a (ResolvedIdent, Ty),
>)
    ensures
        match r {
            Some(p) => inst_key_get(entry@, key@) == Some(*p),
            None => inst_key_get(entry@, key@) is None,
        },
{
    let n = entry.len();
    let mut i: usize = n;
    proof {
        assert(entry@.take(n as int) =~= entry@);
    }
    while i > 0
        invariant
            i <= entry@.len(),
            inst_key_get(entry@, key@) == inst_key_get(entry@.take(i as int), key@),
        decreases i,
    {
        proof {
            assert(entry@.take(i as int).drop_last() =~= entry@.take(i as int - 1));
        }
        if tys_eq(&entry[i - 1].0, key) {
            return Some(&entry[i - 1].1);
        }
        i = i - 1;
    }
    proof {
        assert(entry@.take(0) =~= Seq::<(Vec<Ty>, (ResolvedIdent, Ty))>::empty());
    }
    None
}

} // verus!
