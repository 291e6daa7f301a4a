//! Turning surface strings into unique identifiers using lexical
//! scopes.

use vstd::prelude::*;

verus! {

use crate::ast::ASTAtom;
use crate::ast::ASTExpr;
use crate::ast::InputASTExpr;
use crate::errors::FrontendError;
use crate::ty::Ty;

/// A process-unique token behind an identifier.  Semantic comparisons
/// go through tokens only; the surface name beside it is
/// informational.
pub enum NameIdentifier {
    /// Issued by the name resolver, numbered in order of binding.
    Source(u64),
    /// Issued by a fresh-name generator: the generator's space and its
    /// counter.
    Gen(u64, u64),
    /// A monomorphized instance of a binding: the base token and the
    /// instance's argument-type vector, encoded as an arrow chain
    /// ending in `Unit`.
    Inst(Box<NameIdentifier>, Box<Ty>),
}

impl NameIdentifier {
    /// Whether two tokens are the same.
    pub fn eq_id(&self, other: &NameIdentifier) -> (r: bool)
        ensures
            r == (*self == *other),
        decreases self,
    {
        match (self, other) {
            (NameIdentifier::Source(a), NameIdentifier::Source(b)) => a == b,
            (NameIdentifier::Gen(s1, c1), NameIdentifier::Gen(s2, c2)) => s1 == s2 && c1 == c2,
            (NameIdentifier::Inst(b1, t1), NameIdentifier::Inst(b2, t2)) => b1.eq_id(&**b2) && (
            **t1 == **t2),
            _ => false,
        }
    }
}

impl Clone for NameIdentifier {
    fn clone(&self) -> (r: NameIdentifier)
        ensures
            r == *self,
        decreases self,
    {
        match self {
            NameIdentifier::Source(n) => NameIdentifier::Source(*n),
            NameIdentifier::Gen(s, c) => NameIdentifier::Gen(*s, *c),
            NameIdentifier::Inst(b, t) => NameIdentifier::Inst(
                Box::new((**b).clone()),
                Box::new((**t).clone()),
            ),
        }
    }
}

impl PartialEq for NameIdentifier {
    fn eq(&self, other: &NameIdentifier) -> (r: bool) {
        self.eq_id(other)
    }
}

impl Eq for NameIdentifier {

}

impl vstd::std_specs::cmp::PartialEqSpecImpl for NameIdentifier {
    open spec fn obeys_eq_spec() -> bool {
        true
    }

    open spec fn eq_spec(&self, other: &NameIdentifier) -> bool {
        *self == *other
    }
}

/// A human-readable name paired with its unique token.
pub struct ResolvedIdent {
    pub name: String,
    pub id: NameIdentifier,
}

impl ResolvedIdent {
    /// Pair a name with a token.
    pub fn new(name: String, id: NameIdentifier) -> (r: ResolvedIdent)
        ensures
            r.name == name,
            r.id == id,
    {
        ResolvedIdent { name, id }
    }

    /// The identifier's token.
    pub fn id(&self) -> (r: &NameIdentifier)
        ensures
            r == &self.id,
    {
        &self.id
    }
}

impl Clone for ResolvedIdent {
    fn clone(&self) -> (r: ResolvedIdent)
        ensures
            r == *self,
    {
        ResolvedIdent { name: self.name.clone(), id: self.id.clone() }
    }
}

impl PartialEq for ResolvedIdent {
    fn eq(&self, other: &ResolvedIdent) -> (r: bool) {
        self.id.eq_id(&other.id)
    }
}

impl Eq for ResolvedIdent {

}

impl vstd::std_specs::cmp::PartialEqSpecImpl for ResolvedIdent {
    open spec fn obeys_eq_spec() -> bool {
        true
    }

    /// Equality judges only the token; surface names are
    /// informational.
    open spec fn eq_spec(&self, other: &ResolvedIdent) -> bool {
        self.id == other.id
    }
}

/// An expression whose identifiers have been resolved; type slots are
/// still optional.
pub type ResolvedASTExpr = ASTExpr<ResolvedIdent, Option<Ty>>;

/// A counter increment that stops at the largest representable value.
pub open spec fn sat_inc(n: u64) -> u64 {
    if n < u64::MAX {
        (n + 1) as u64
    } else {
        n
    }
}

/// A scope frame, as the sequence of its bindings in insertion order.
pub open spec fn frame_view(f: Seq<(String, ResolvedIdent)>) -> Seq<(Seq<char>, ResolvedIdent)> {
    Seq::new(f.len(), |i: int| (f[i].0@, f[i].1))
}

/// The scope stack, innermost frame last.
pub open spec fn scopes_view(s: Seq<Vec<(String, ResolvedIdent)>>) -> Seq<
    Seq<(Seq<char>, ResolvedIdent)>,
> {
    Seq::new(s.len(), |i: int| frame_view(s[i]@))
}

/// Look a name up in one frame, latest binding first.
pub open spec fn frame_lookup(f: Seq<(Seq<char>, ResolvedIdent)>, n: Seq<char>) -> Option<
    ResolvedIdent,
>
    decreases f.len(),
{
    if f.len() == 0 {
        None
    } else if f.last().0 == n {
        Some(f.last().1)
    } else {
        frame_lookup(f.drop_last(), n)
    }
}

/// Look a name up through the scope stack; inner frames shadow outer
/// ones.
pub open spec fn scopes_lookup(ss: Seq<Seq<(Seq<char>, ResolvedIdent)>>, n: Seq<char>) -> Option<
    ResolvedIdent,
>
    decreases ss.len(),
{
    if ss.len() == 0 {
        None
    } else {
        match frame_lookup(ss.last(), n) {
            Some(r) => Some(r),
            None => scopes_lookup(ss.drop_last(), n),
        }
    }
}

/// The names bound in each frame.
pub open spec fn names_of(ss: Seq<Seq<(Seq<char>, ResolvedIdent)>>) -> Seq<Seq<Seq<char>>> {
    Seq::new(ss.len(), |i: int| Seq::new(ss[i].len(), |j: int| ss[i][j].0))
}

/// Whether a name is bound anywhere in the stack.
pub open spec fn ns_has(ns: Seq<Seq<Seq<char>>>, n: Seq<char>) -> bool {
    exists|i: int, j: int| 0 <= i < ns.len() && 0 <= j < ns[i].len() && ns[i][j] == n
}

/// A lookup succeeds exactly when the name is bound in some frame.
pub proof fn lemma_lookup_has(ss: Seq<Seq<(Seq<char>, ResolvedIdent)>>, n: Seq<char>)
    ensures
        (scopes_lookup(ss, n) is Some) == ns_has(names_of(ss), n),
    decreases ss.len(),
{
    if ss.len() == 0 {
        assert(!ns_has(names_of(ss), n));
    } else {
        lemma_frame_lookup_has(ss.last(), n);
        lemma_lookup_has(ss.drop_last(), n);
        let ns = names_of(ss);
        let nsd = names_of(ss.drop_last());
        assert(nsd =~= ns.drop_last());
        if frame_lookup(ss.last(), n) is Some {
            let j = choose|j: int| 0 <= j < ss.last().len() && ss.last()[j].0 == n;
            assert(ns[ss.len() - 1][j] == n);
            assert(ns_has(ns, n));
        } else {
            if scopes_lookup(ss.drop_last(), n) is Some {
                let (i, j) = choose|i: int, j: int|
                    0 <= i < nsd.len() && 0 <= j < nsd[i].len() && nsd[i][j] == n;
                assert(ns[i][j] == n);
                assert(ns_has(ns, n));
            } else {
                assert forall|i: int, j: int|
                    0 <= i < ns.len() && 0 <= j < ns[i].len() implies ns[i][j] != n by {
                    if i < ns.len() - 1 {
                        assert(nsd[i][j] == ns[i][j]);
                    } else {
                        assert(ss.last()[j].0 == ns[i][j]);
                    }
                }
            }
        }
    }
}

/// A frame lookup succeeds exactly when the frame binds the name.
pub proof fn lemma_frame_lookup_has(f: Seq<(Seq<char>, ResolvedIdent)>, n: Seq<char>)
    ensures
        (frame_lookup(f, n) is Some) == exists|j: int| 0 <= j < f.len() && f[j].0 == n,
    decreases f.len(),
{
    if f.len() == 0 {
    } else if f.last().0 == n {
        assert(f[f.len() - 1].0 == n);
    } else {
        lemma_frame_lookup_has(f.drop_last(), n);
        if frame_lookup(f.drop_last(), n) is Some {
            let j = choose|j: int| 0 <= j < f.len() - 1 && f.drop_last()[j].0 == n;
            assert(f[j].0 == n);
        } else {
            assert forall|j: int| 0 <= j < f.len() implies f[j].0 != n by {
                if j < f.len() - 1 {
                    assert(f.drop_last()[j].0 == f[j].0);
                }
            }
        }
    }
}

/// The resolver counter after walking `e`: one fresh token per binder,
/// saturating.
pub open spec fn ctr_after(ctr: u64, e: InputASTExpr) -> u64
    decreases e,
{
    match e {
        ASTExpr::Atom(_, _) => ctr,
        ASTExpr::If { cond, then, else_, .. } => ctr_after(
            ctr_after(ctr_after(ctr, *cond), *then),
            *else_,
        ),
        ASTExpr::Let { bind, value, body, .. } => if bind.1 is Some {
            ctr_after(ctr_after(sat_inc(ctr), *value), *body)
        } else {
            ctr_after(sat_inc(ctr_after(ctr, *value)), *body)
        },
        ASTExpr::Apply { func, args, .. } => ctr_after(ctr_after(ctr, *func), *args),
        ASTExpr::Lambda { body, .. } => ctr_after(sat_inc(ctr), *body),
    }
}

/// Whether every variable occurrence in `e` is bound under the name
/// stack `ns`.
pub open spec fn resolvable(ns: Seq<Seq<Seq<char>>>, e: InputASTExpr) -> bool
    decreases e,
{
    match e {
        ASTExpr::Atom(a, _) => match a {
            ASTAtom::Var(n) => ns_has(ns, n@),
            _ => true,
        },
        ASTExpr::If { cond, then, else_, .. } => resolvable(ns, *cond) && resolvable(ns, *then)
            && resolvable(ns, *else_),
        ASTExpr::Let { bind, value, body, .. } => if bind.1 is Some {
            resolvable(ns.push(seq![bind.0@]), *value) && resolvable(ns.push(seq![bind.0@]), *body)
        } else {
            resolvable(ns, *value) && resolvable(ns.push(seq![bind.0@]), *body)
        },
        ASTExpr::Apply { func, args, .. } => resolvable(ns, *func) && resolvable(ns, *args),
        ASTExpr::Lambda { arg, body, .. } => resolvable(ns.push(seq![arg.0@]), *body),
    }
}

/// How a resolved tree relates to its surface tree: same shape, each
/// variable occurrence replaced by the identifier the scopes give it,
/// each binder given the next fresh token.
pub open spec fn resolve_rel(
    ss: Seq<Seq<(Seq<char>, ResolvedIdent)>>,
    ctr: u64,
    e: InputASTExpr,
    o: ResolvedASTExpr,
) -> bool
    decreases e,
{
    match e {
        ASTExpr::Atom(a, t) => match a {
            ASTAtom::Var(n) => o matches ASTExpr::Atom(ASTAtom::Var(rid), t2) && t2 == t
                && scopes_lookup(ss, n@) == Some(rid),
            ASTAtom::Int(i) => o matches ASTExpr::Atom(ASTAtom::Int(i2), t2) && i2 == i && t2 == t,
            ASTAtom::Bool(b) => o matches ASTExpr::Atom(ASTAtom::Bool(b2), t2) && b2 == b && t2
                == t,
            ASTAtom::Unit => o matches ASTExpr::Atom(ASTAtom::Unit, t2) && t2 == t,
            ASTAtom::Op(op) => o matches ASTExpr::Atom(ASTAtom::Op(op2), t2) && op2 == op && t2
                == t,
        },
        ASTExpr::If { cond, then, else_, ty } => o matches ASTExpr::If {
            cond: oc,
            then: ot,
            else_: oe,
            ty: ty2,
        } && ty2 == ty && resolve_rel(ss, ctr, *cond, *oc) && resolve_rel(
            ss,
            ctr_after(ctr, *cond),
            *then,
            *ot,
        ) && resolve_rel(ss, ctr_after(ctr_after(ctr, *cond), *then), *else_, *oe),
        ASTExpr::Let { bind, value, body, ty } => o matches ASTExpr::Let {
            bind: (rid, sch2),
            value: ov,
            body: ob,
            ty: ty2,
        } && ty2 == ty && sch2 == bind.1 && rid.name@ == bind.0@ && (if bind.1 is Some {
            // an annotated binding is in scope in its own value
            rid.id == NameIdentifier::Source(ctr) && resolve_rel(
                ss.push(seq![(bind.0@, rid)]),
                sat_inc(ctr),
                *value,
                *ov,
            ) && resolve_rel(
                ss.push(seq![(bind.0@, rid)]),
                ctr_after(sat_inc(ctr), *value),
                *body,
                *ob,
            )
        } else {
            rid.id == NameIdentifier::Source(ctr_after(ctr, *value)) && resolve_rel(
                ss,
                ctr,
                *value,
                *ov,
            ) && resolve_rel(
                ss.push(seq![(bind.0@, rid)]),
                sat_inc(ctr_after(ctr, *value)),
                *body,
                *ob,
            )
        }),
        ASTExpr::Apply { func, args, ty } => o matches ASTExpr::Apply {
            func: of,
            args: oa,
            ty: ty2,
        } && ty2 == ty && resolve_rel(ss, ctr, *func, *of) && resolve_rel(
            ss,
            ctr_after(ctr, *func),
            *args,
            *oa,
        ),
        ASTExpr::Lambda { arg, body, ret_ty } => o matches ASTExpr::Lambda {
            arg: (rid, t2),
            body: ob,
            ret_ty: rt2,
        } && t2 == arg.1 && rt2 == ret_ty && rid.name@ == arg.0@ && rid.id
            == NameIdentifier::Source(ctr) && resolve_rel(
            ss.push(seq![(arg.0@, rid)]),
            sat_inc(ctr),
            *body,
            *ob,
        ),
    }
}

/// The resolver: a counter for fresh tokens, and a stack of
/// name-to-identifier frames.
pub struct NameResolver {
    counter: u64,
    scopes: Vec<Vec<(String, ResolvedIdent)>>,
}

impl NameResolver {
    /// The resolver's scope stack.
    pub closed spec fn scopes_v(&self) -> Seq<Seq<(Seq<char>, ResolvedIdent)>> {
        scopes_view(self.scopes@)
    }

    /// The resolver's fresh-token counter.
    pub closed spec fn counter_v(&self) -> u64 {
        self.counter
    }

    /// A resolver always holds at least the global scope.
    pub closed spec fn wf(&self) -> bool {
        self.scopes@.len() > 0
    }

    /// A fresh resolver with an empty global scope.
    pub fn new() -> (r: NameResolver)
        ensures
            r.wf(),
            r.counter_v() == 0,
            r.scopes_v() == seq![Seq::<(Seq<char>, ResolvedIdent)>::empty()],
    {
        let mut scopes: Vec<Vec<(String, ResolvedIdent)>> = Vec::new();
        scopes.push(Vec::new());
        let r = NameResolver { counter: 0, scopes };
        proof {
            assert(r.scopes_v() =~~= seq![Seq::<(Seq<char>, ResolvedIdent)>::empty()]);
        }
        r
    }

    fn push_scope(&mut self)
        ensures
            final(self).counter == old(self).counter,
            final(self).scopes@.len() == old(self).scopes@.len() + 1,
            final(self).scopes_v() == old(self).scopes_v().push(
                Seq::<(Seq<char>, ResolvedIdent)>::empty(),
            ),
    {
        self.scopes.push(Vec::new());
        proof {
            assert(self.scopes_v() =~~= old(self).scopes_v().push(
                Seq::<(Seq<char>, ResolvedIdent)>::empty(),
            ));
        }
    }

    fn pop_scope(&mut self)
        requires
            old(self).scopes@.len() > 0,
        ensures
            final(self).counter == old(self).counter,
            final(self).scopes@.len() == old(self).scopes@.len() - 1,
            final(self).scopes_v() == old(self).scopes_v().drop_last(),
    {
        let _ = self.scopes.pop();
        proof {
            assert(self.scopes_v() =~~= old(self).scopes_v().drop_last());
        }
    }

    fn frame_find(frame: &Vec<(String, ResolvedIdent)>, name: &String) -> (r: Option<
        ResolvedIdent,
    >)
        ensures
            r == frame_lookup(frame_view(frame@), name@),
    {
        let mut j: usize = frame.len();
        proof {
            assert(frame_view(frame@).take(frame@.len() as int) =~~= frame_view(frame@));
        }
        while j > 0
            invariant
                j <= frame@.len(),
                frame_lookup(frame_view(frame@), name@) == frame_lookup(
                    frame_view(frame@).take(j as int),
                    name@,
                ),
            decreases j,
        {
            proof {
                assert(frame_view(frame@).take(j as int).drop_last() =~~= frame_view(frame@).take(
                    j as int - 1,
                ));
                assert(frame_view(frame@).take(j as int).last() == (frame@[j as int - 1].0@,
                frame@[j as int - 1].1));
            }
            let pair: &(String, ResolvedIdent) = &frame[j - 1];
            if pair.0 == *name {
                return Some(pair.1.clone());
            }
            j = j - 1;
        }
        proof {
            assert(frame_view(frame@).take(0) =~~= Seq::<(Seq<char>, ResolvedIdent)>::empty());
        }
        None
    }

    fn lookup_ident(&self, name: &String) -> (r: Option<ResolvedIdent>)
        ensures
            r == scopes_lookup(self.scopes_v(), name@),
    {
        let mut i: usize = self.scopes.len();
        proof {
            assert(self.scopes_v().take(self.scopes@.len() as int) =~~= self.scopes_v());
        }
        while i > 0
            invariant
                i <= self.scopes@.len(),
                scopes_lookup(self.scopes_v(), name@) == scopes_lookup(
                    self.scopes_v().take(i as int),
                    name@,
                ),
            decreases i,
        {
            proof {
                assert(self.scopes_v().take(i as int).drop_last() =~~= self.scopes_v().take(
                    i as int - 1,
                ));
                assert(self.scopes_v().take(i as int).last() =~~= frame_view(
                    self.scopes@[i as int - 1]@,
                ));
            }
            match Self::frame_find(&self.scopes[i - 1], name) {
                Some(ident) => {
                    return Some(ident);
                },
                None => {
                },
            }
            i = i - 1;
        }
        proof {
            assert(self.scopes_v().take(0) =~~= Seq::<Seq<(Seq<char>, ResolvedIdent)>>::empty());
        }
        None
    }

    fn insert_ident(&mut self, name: String) -> (r: ResolvedIdent)
        requires
            old(self).scopes@.len() > 0,
        ensures
            r.name@ == name@,
            r.id == NameIdentifier::Source(old(self).counter),
            final(self).counter == sat_inc(old(self).counter),
            final(self).scopes@.len() == old(self).scopes@.len(),
            final(self).scopes_v() == old(self).scopes_v().drop_last().push(
                old(self).scopes_v().last().push((name@, r)),
            ),
    {
        let id = self.counter;
        if self.counter < u64::MAX {
            self.counter = self.counter + 1;
        }
        let ident = ResolvedIdent::new(name.clone(), NameIdentifier::Source(id));
        let mut frame = match self.scopes.pop() {
            Some(f) => f,
            None => Vec::new(),
        };
        frame.push((name, ident.clone()));
        self.scopes.push(frame);
        proof {
            assert(frame_view(frame@) =~~= old(self).scopes_v().last().push((name@, ident)));
            assert(self.scopes_v() =~~= old(self).scopes_v().drop_last().push(
                frame_view(frame@),
            ));
        }
        ident
    }

    /// Resolve every name in `ast`.  Succeeds exactly when every
    /// variable occurrence is bound; on success the scope stack is
    /// restored and each binder has consumed one fresh token.
    pub fn resolve(&mut self, ast: InputASTExpr) -> (r: Result<
        ResolvedASTExpr,
        FrontendError,
    >)
        requires
            old(self).wf(),
        ensures
            final(self).wf(),
            (r is Ok) == resolvable(names_of(old(self).scopes_v()), ast),
            r matches Ok(o) ==> resolve_rel(old(self).scopes_v(), old(self).counter_v(), ast, o)
                && final(self).scopes_v() == old(self).scopes_v() && final(self).counter_v()
                == ctr_after(old(self).counter_v(), ast),
            r matches Err(e) ==> e is UnboundVariable,
        decreases ast,
    {
        match ast {
            ASTExpr::Atom(atom, ty) => {
                match atom {
                    ASTAtom::Var(name) => {
                        proof {
                            lemma_lookup_has(self.scopes_v(), name@);
                        }
                        if let Some(ident) = self.lookup_ident(&name) {
                            Ok(ASTExpr::Atom(ASTAtom::Var(ident), ty))
                        } else {
                            Err(FrontendError::UnboundVariable(name))
                        }
                    },
                    ASTAtom::Int(i) => Ok(ASTExpr::Atom(ASTAtom::Int(i), ty)),
                    ASTAtom::Bool(b) => Ok(ASTExpr::Atom(ASTAtom::Bool(b), ty)),
                    ASTAtom::Unit => Ok(ASTExpr::Atom(ASTAtom::Unit, ty)),
                    ASTAtom::Op(op) => Ok(ASTExpr::Atom(ASTAtom::Op(op), ty)),
                }
            },
            ASTExpr::If { cond, then, else_, ty } => {
                let rcond = match self.resolve(*cond) {
                    Ok(c) => c,
                    Err(e) => {
                        return Err(e);
                    },
                };
                let rthen = match self.resolve(*then) {
                    Ok(c) => c,
                    Err(e) => {
                        return Err(e);
                    },
                };
                let relse = match self.resolve(*else_) {
                    Ok(c) => c,
                    Err(e) => {
                        return Err(e);
                    },
                };
                Ok(
                    ASTExpr::If {
                        cond: Box::new(rcond),
                        then: Box::new(rthen),
                        else_: Box::new(relse),
                        ty,
                    },
                )
            },
            ASTExpr::Let { bind, value, body, ty } => {
                let (name, bind_ty) = bind;
                if bind_ty.is_some() {
                    // an annotated binding may refer to itself: insert
                    // the binder before resolving the value
                    self.push_scope();
                    let resolved_ident = self.insert_ident(name.clone());
                    let ghost mid = self.scopes_v();
                    proof {
                        assert(mid =~~= old(self).scopes_v().push(seq![(name@, resolved_ident)]));
                        assert(names_of(mid) =~~= names_of(old(self).scopes_v()).push(
                            seq![name@],
                        ));
                    }
                    let resolved_value = match self.resolve(*value) {
                        Ok(c) => c,
                        Err(e) => {
                            return Err(e);
                        },
                    };
                    let resolved_body = match self.resolve(*body) {
                        Ok(c) => c,
                        Err(e) => {
                            return Err(e);
                        },
                    };
                    self.pop_scope();
                    proof {
                        assert(self.scopes_v() =~~= old(self).scopes_v());
                    }
                    Ok(
                        ASTExpr::Let {
                            bind: (resolved_ident, bind_ty),
                            value: Box::new(resolved_value),
                            body: Box::new(resolved_body),
                            ty,
                        },
                    )
                } else {
                    let resolved_value = match self.resolve(*value) {
                        Ok(c) => c,
                        Err(e) => {
                            return Err(e);
                        },
                    };
                    self.push_scope();
                    let resolved_ident = self.insert_ident(name.clone());
                    let ghost mid = self.scopes_v();
                    proof {
                        assert(mid =~~= old(self).scopes_v().push(seq![(name@, resolved_ident)]));
                        assert(names_of(mid) =~~= names_of(old(self).scopes_v()).push(
                            seq![name@],
                        ));
                    }
                    let resolved_body = match self.resolve(*body) {
                        Ok(c) => c,
                        Err(e) => {
                            return Err(e);
                        },
                    };
                    self.pop_scope();
                    proof {
                        assert(self.scopes_v() =~~= old(self).scopes_v());
                    }
                    Ok(
                        ASTExpr::Let {
                            bind: (resolved_ident, bind_ty),
                            value: Box::new(resolved_value),
                            body: Box::new(resolved_body),
                            ty,
                        },
                    )
                }
            },
            ASTExpr::Apply { func, args, ty } => {
                let resolved_func = match self.resolve(*func) {
                    Ok(c) => c,
                    Err(e) => {
                        return Err(e);
                    },
                };
                let resolved_args = match self.resolve(*args) {
                    Ok(c) => c,
                    Err(e) => {
                        return Err(e);
                    },
                };
                Ok(
                    ASTExpr::Apply {
                        func: Box::new(resolved_func),
                        args: Box::new(resolved_args),
                        ty,
                    },
                )
            },
            ASTExpr::Lambda { arg, body, ret_ty } => {
                let (name, arg_ty) = arg;
                self.push_scope();
                let resolved_ident = self.insert_ident(name.clone());
                let ghost mid = self.scopes_v();
                proof {
                    assert(mid =~~= old(self).scopes_v().push(seq![(name@, resolved_ident)]));
                    assert(names_of(mid) =~~= names_of(old(self).scopes_v()).push(seq![name@]));
                }
                let resolved_body = match self.resolve(*body) {
                    Ok(c) => c,
                    Err(e) => {
                        return Err(e);
                    },
                };
                self.pop_scope();
                proof {
                    assert(self.scopes_v() =~~= old(self).scopes_v());
                }
                Ok(
                    ASTExpr::Lambda {
                        arg: (resolved_ident, arg_ty),
                        body: Box::new(resolved_body),
                        ret_ty,
                    },
                )
            },
        }
    }
}

} // verus!
