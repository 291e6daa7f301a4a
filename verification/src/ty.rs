//! Ground types, arrows and type variables; schemes; the typing context.

use vstd::prelude::*;

verus! {

use vstd::string::StringExecFns;
broadcast use vstd::seq_lib::group_seq_properties;

use crate::text::dec_of;
use crate::text::u64_to_string;
use crate::name_resolution::NameIdentifier;

/// Type variables are numbered; variable `n` is rendered `t<n>`.
pub type TypeVar = u64;

/// A monotype.
pub enum Ty {
    Unit,
    Int,
    Bool,
    Arrow(Box<Ty>, Box<Ty>),
    /// A type variable.
    Mono(TypeVar),
}

impl Clone for Ty {
    fn clone(&self) -> (r: Ty)
        ensures
            r == *self,
        decreases self,
    {
        match self {
            Ty::Unit => Ty::Unit,
            Ty::Int => Ty::Int,
            Ty::Bool => Ty::Bool,
            Ty::Arrow(l, r) => Ty::Arrow(Box::new((**l).clone()), Box::new((**r).clone())),
            Ty::Mono(v) => Ty::Mono(*v),
        }
    }
}

impl PartialEq for Ty {
    fn eq(&self, other: &Ty) -> (r: bool)
        decreases self,
    {
        match (self, other) {
            (Ty::Unit, Ty::Unit) => true,
            (Ty::Int, Ty::Int) => true,
            (Ty::Bool, Ty::Bool) => true,
            (Ty::Arrow(l1, r1), Ty::Arrow(l2, r2)) => Ty::eq(&**l1, &**l2) && Ty::eq(
                &**r1,
                &**r2,
            ),
            (Ty::Mono(v1), Ty::Mono(v2)) => v1 == v2,
            _ => false,
        }
    }
}

impl Eq for Ty {

}

impl vstd::std_specs::cmp::PartialEqSpecImpl for Ty {
    open spec fn obeys_eq_spec() -> bool {
        true
    }

    open spec fn eq_spec(&self, other: &Ty) -> bool {
        *self == *other
    }
}

/// Whether `v` occurs in `t`.
pub open spec fn ty_contains_var(t: Ty, v: TypeVar) -> bool
    decreases t,
{
    match t {
        Ty::Unit => false,
        Ty::Int => false,
        Ty::Bool => false,
        Ty::Arrow(l, r) => ty_contains_var(*l, v) || ty_contains_var(*r, v),
        Ty::Mono(x) => x == v,
    }
}

/// One-shot substitution of `s` for the variable `v` throughout `t`.
pub open spec fn ty_apply(t: Ty, v: TypeVar, s: Ty) -> Ty
    decreases t,
{
    match t {
        Ty::Arrow(l, r) => Ty::Arrow(
            Box::new(ty_apply(*l, v, s)),
            Box::new(ty_apply(*r, v, s)),
        ),
        Ty::Mono(x) => if x == v {
            s
        } else {
            t
        },
        _ => t,
    }
}

/// The set of type variables occurring in `t`.
pub open spec fn ty_free_vars(t: Ty) -> Set<TypeVar>
    decreases t,
{
    match t {
        Ty::Unit => Set::empty(),
        Ty::Int => Set::empty(),
        Ty::Bool => Set::empty(),
        Ty::Arrow(l, r) => ty_free_vars(*l).union(ty_free_vars(*r)),
        Ty::Mono(x) => Set::empty().insert(x),
    }
}

/// The argument types along the arrow spine of `t`.
pub open spec fn ty_args(t: Ty) -> Seq<Ty>
    decreases t,
{
    match t {
        Ty::Arrow(a, r) => seq![*a] + ty_args(*r),
        _ => Seq::empty(),
    }
}

/// The eventual result type at the end of the arrow spine of `t`.
pub open spec fn ty_ret(t: Ty) -> Ty
    decreases t,
{
    match t {
        Ty::Arrow(_, r) => ty_ret(*r),
        _ => t,
    }
}

/// The rendering of a type variable: `t<n>`.
pub open spec fn tyvar_name(v: TypeVar) -> Seq<char> {
    seq!['t'] + dec_of(v as nat)
}

/// The injective textual encoding of a type, used in monomorphized
/// symbol names.
pub open spec fn mangle_of(t: Ty) -> Seq<char>
    decreases t,
{
    match t {
        Ty::Unit => "unit"@,
        Ty::Int => "int"@,
        Ty::Bool => "bool"@,
        Ty::Mono(v) => "tv"@ + tyvar_name(v),
        Ty::Arrow(l, r) => "fn_"@ + mangle_of(*l) + "_to_"@ + mangle_of(*r) + "_nf"@,
    }
}

/// The display form of a type: arrows are written `a -> b`, with
/// parentheses around an arrow on the left.
pub open spec fn ty_display_of(t: Ty) -> Seq<char>
    decreases t,
{
    match t {
        Ty::Unit => "unit"@,
        Ty::Int => "int"@,
        Ty::Bool => "bool"@,
        Ty::Mono(v) => tyvar_name(v),
        Ty::Arrow(l, r) => {
            let left = if *l is Arrow {
                "("@ + ty_display_of(*l) + ")"@
            } else {
                ty_display_of(*l)
            };
            left + " -> "@ + ty_display_of(*r)
        },
    }
}

impl Ty {
    /// Whether the variable `var` occurs in this type.
    pub fn contains_var(&self, var: TypeVar) -> (r: bool)
        ensures
            r == ty_contains_var(*self, var),
        decreases self,
    {
        match self {
            Ty::Unit => false,
            Ty::Int => false,
            Ty::Bool => false,
            Ty::Arrow(left, right) => left.contains_var(var) || right.contains_var(var),
            Ty::Mono(v) => *v == var,
        }
    }

    /// Replace every occurrence of the variable `var` by `ty`.
    pub fn apply(&self, var: TypeVar, ty: &Ty) -> (r: Ty)
        ensures
            r == ty_apply(*self, var, *ty),
        decreases self,
    {
        match self {
            Ty::Mono(v) => if *v == var {
                ty.clone()
            } else {
                self.clone()
            },
            Ty::Arrow(left, right) => Ty::Arrow(
                Box::new(left.apply(var, ty)),
                Box::new(right.apply(var, ty)),
            ),
            _ => self.clone(),
        }
    }

    /// The set of type variables occurring in this type, without
    /// duplicates.
    pub fn free_vars(&self) -> (r: Vec<TypeVar>)
        ensures
            r@.to_set() == ty_free_vars(*self),
            r@.no_duplicates(),
        decreases self,
    {
        match self {
            Ty::Unit => {
                let r: Vec<TypeVar> = Vec::new();
                proof {
                    assert(r@.to_set() =~= ty_free_vars(*self));
                }
                r
            },
            Ty::Int => {
                let r: Vec<TypeVar> = Vec::new();
                proof {
                    assert(r@.to_set() =~= ty_free_vars(*self));
                }
                r
            },
            Ty::Bool => {
                let r: Vec<TypeVar> = Vec::new();
                proof {
                    assert(r@.to_set() =~= ty_free_vars(*self));
                }
                r
            },
            Ty::Mono(v) => {
                let mut r: Vec<TypeVar> = Vec::new();
                r.push(*v);
                proof {
                    assert(r@.to_set() =~= ty_free_vars(*self));
                }
                r
            },
            Ty::Arrow(left, right) => {
                let mut vars = left.free_vars();
                let rvars = right.free_vars();
                let mut i: usize = 0;
                proof {
                    assert(vars@.to_set().union(rvars@.take(0).to_set()) =~= vars@.to_set());
                }
                while i < rvars.len()
                    invariant
                        i <= rvars@.len(),
                        vars@.to_set() == ty_free_vars(**left).union(rvars@.take(i as int).to_set()),
                        vars@.no_duplicates(),
                        rvars@.no_duplicates(),
                        rvars@.to_set() == ty_free_vars(**right),
                    decreases rvars@.len() - i,
                {
                    let v = rvars[i];
                    let ghost prev = vars@;
                    let present = vec_contains_var(&vars, v);
                    if !present {
                        vars.push(v);
                    }
                    i = i + 1;
                    proof {
                        assert(rvars@.take(i as int) =~= rvars@.take(i as int - 1).push(v));
                        assert(rvars@.take(i as int).to_set() =~= rvars@.take(i as int - 1).to_set().insert(v));
                        if present {
                            assert(vars@.to_set().contains(v));
                        } else {
                            assert(vars@ == prev.push(v));
                            assert(vars@.to_set() =~= prev.to_set().insert(v));
                        }
                        assert(vars@.to_set() =~= ty_free_vars(**left).union(rvars@.take(i as int).to_set()));
                    }
                }
                proof {
                    assert(rvars@.take(rvars@.len() as int) =~= rvars@);
                    assert(vars@.to_set() =~= ty_free_vars(*self));
                }
                vars
            },
        }
    }

    /// Walk the arrow spine, returning the argument types in order and
    /// the eventual result type.
    pub fn extract_args(&self) -> (r: (Vec<Ty>, Ty))
        ensures
            r.0@ == ty_args(*self),
            r.1 == ty_ret(*self),
    {
        let mut args: Vec<Ty> = Vec::new();
        let mut cur: &Ty = self;
        loop
            invariant
                ty_args(*self) == args@ + ty_args(*cur),
                ty_ret(*self) == ty_ret(*cur),
            decreases cur,
        {
            match cur {
                Ty::Arrow(a, r) => {
                    args.push((**a).clone());
                    cur = &**r;
                    proof {
                        assert(ty_args(*self) =~= args@ + ty_args(*cur));
                    }
                },
                _ => {
                    proof {
                        assert(args@ =~= ty_args(*self));
                    }
                    return (args, cur.clone());
                },
            }
        }
    }

    /// The injective textual encoding of this type.
    pub fn mangle(&self) -> (r: String)
        ensures
            r@ == mangle_of(*self),
        decreases self,
    {
        match self {
            Ty::Unit => {
                let r = String::from_str("unit");
                r
            },
            Ty::Int => {
                let r = String::from_str("int");
                r
            },
            Ty::Bool => {
                let r = String::from_str("bool");
                r
            },
            Ty::Mono(v) => {
                proof {
                    reveal_strlit("tv");
                    reveal_strlit("t");
                }
                let mut s = String::from_str("tv");
                s.append("t");
                s.append(u64_to_string(*v).as_str());
                proof {
                    assert(s@ =~= mangle_of(*self));
                }
                s
            },
            Ty::Arrow(l, r) => {
                let mut s = String::from_str("fn_");
                s.append(l.mangle().as_str());
                s.append("_to_");
                s.append(r.mangle().as_str());
                s.append("_nf");
                proof {
                    assert(s@ =~= mangle_of(*self));
                }
                s
            },
        }
    }

    /// The display form of this type.
    pub fn show(&self) -> (r: String)
        ensures
            r@ == ty_display_of(*self),
        decreases self,
    {
        match self {
            Ty::Unit => String::from_str("unit"),
            Ty::Int => String::from_str("int"),
            Ty::Bool => String::from_str("bool"),
            Ty::Mono(v) => {
                proof {
                    reveal_strlit("t");
                }
                let mut s = String::from_str("t");
                s.append(u64_to_string(*v).as_str());
                proof {
                    assert(s@ =~= ty_display_of(*self));
                }
                s
            },
            Ty::Arrow(l, r) => {
                let mut s = if matches!(&**l, Ty::Arrow(_, _)) {
                    let mut p = String::from_str("(");
                    p.append(l.show().as_str());
                    p.append(")");
                    p
                } else {
                    l.show()
                };
                s.append(" -> ");
                s.append(r.show().as_str());
                proof {
                    assert(s@ =~= ty_display_of(*self));
                }
                s
            },
        }
    }
}

/// Whether a vector of type variables contains `x`.
pub fn vec_contains_var(v: &Vec<TypeVar>, x: TypeVar) -> (r: bool)
    ensures
        r == v@.contains(x),
{
    let mut i: usize = 0;
    while i < v.len()
        invariant
            i <= v@.len(),
            forall|j: int| 0 <= j < i ==> v@[j] != x,
        decreases v@.len() - i,
    {
        if v[i] == x {
            return true;
        }
        i = i + 1;
    }
    false
}

/// A type class constraint `Class var`, parsed and carried but not
/// solved.
pub struct TypeClassConstraint {
    pub class: String,
    pub type_var: TypeVar,
}

/// The mathematical value of a constraint.
#[verifier::ext_equal]
pub struct ConstraintG {
    pub class: Seq<char>,
    pub type_var: TypeVar,
}

impl View for TypeClassConstraint {
    type V = ConstraintG;

    open spec fn view(&self) -> ConstraintG {
        ConstraintG { class: self.class@, type_var: self.type_var }
    }
}

impl DeepView for TypeClassConstraint {
    type V = ConstraintG;

    open spec fn deep_view(&self) -> ConstraintG {
        self@
    }
}

impl Clone for TypeClassConstraint {
    fn clone(&self) -> (r: TypeClassConstraint)
        ensures
            r@ == self@,
    {
        TypeClassConstraint { class: self.class.clone(), type_var: self.type_var }
    }
}

/// A type scheme `forall vars [constraints]. ty`; a scheme with no
/// quantified variables is a monotype.
pub struct Scheme {
    pub vars: Vec<TypeVar>,
    pub constraints: Vec<TypeClassConstraint>,
    pub ty: Ty,
}

/// The mathematical value of a scheme.
#[verifier::ext_equal]
pub struct SchemeG {
    pub vars: Seq<TypeVar>,
    pub constraints: Seq<ConstraintG>,
    pub ty: Ty,
}

impl View for Scheme {
    type V = SchemeG;

    open spec fn view(&self) -> SchemeG {
        SchemeG {
            vars: self.vars@,
            constraints: self.constraints.deep_view(),
            ty: self.ty,
        }
    }
}

impl Clone for Scheme {
    fn clone(&self) -> (r: Scheme)
        ensures
            r@ == self@,
    {
        let mut cs: Vec<TypeClassConstraint> = Vec::new();
        let mut i: usize = 0;
        while i < self.constraints.len()
            invariant
                i <= self.constraints@.len(),
                cs@.len() == i,
                forall|k: int| 0 <= k < i ==> cs@[k]@ == self.constraints@[k]@,
            decreases self.constraints@.len() - i,
        {
            cs.push(self.constraints[i].clone());
            i = i + 1;
        }
        proof {
            assert(cs.deep_view() =~~= self.constraints.deep_view());
        }
        let r = Scheme { vars: self.vars.clone(), constraints: cs, ty: self.ty.clone() };
        proof {
            assert(r@ =~~= self@);
        }
        r
    }
}

/// Association-list lookup, last binding first: the value most recently
/// pushed for a key wins.
pub open spec fn alist_get<K, V>(l: Seq<(K, V)>, k: K) -> Option<V>
    decreases l.len(),
{
    if l.len() == 0 {
        None
    } else if l.last().0 == k {
        Some(l.last().1)
    } else {
        alist_get(l.drop_last(), k)
    }
}

/// The mapping `NameIdentifier -> Scheme` consulted during inference.
pub struct TypingContext {
    pub mapping: Vec<(NameIdentifier, Scheme)>,
}

impl View for TypingContext {
    type V = Seq<(NameIdentifier, SchemeG)>;

    open spec fn view(&self) -> Seq<(NameIdentifier, SchemeG)> {
        Seq::new(self.mapping@.len(), |i: int| (self.mapping@[i].0, self.mapping@[i].1@))
    }
}

impl TypingContext {
    /// An empty context.
    pub fn new() -> (r: TypingContext)
        ensures
            r@ == Seq::<(NameIdentifier, SchemeG)>::empty(),
    {
        let r = TypingContext { mapping: Vec::new() };
        proof {
            assert(r@ =~= Seq::<(NameIdentifier, SchemeG)>::empty());
        }
        r
    }

    /// The underlying bindings, oldest first.
    pub fn get_mapping(&self) -> (r: &Vec<(NameIdentifier, Scheme)>)
        ensures
            r == &self.mapping,
    {
        &self.mapping
    }

    /// Bind `id` to `scheme`; a later binding for the same identifier
    /// shadows an earlier one.
    pub fn insert(&mut self, id: NameIdentifier, scheme: Scheme)
        ensures
            final(self)@ == old(self)@.push((id, scheme@)),
    {
        let ghost s = scheme@;
        self.mapping.push((id, scheme));
        proof {
            assert(self@ =~= old(self)@.push((id, s)));
        }
    }

    /// Look up the scheme bound to `id`, if any.
    pub fn get(&self, id: &NameIdentifier) -> (r: Option<&Scheme>)
        ensures
            match r {
                Some(s) => alist_get(self@, *id) == Some(s@),
                None => alist_get(self@, *id) is None,
            },
    {
        let n = self.mapping.len();
        let mut i: usize = n;
        proof {
            assert(self@.take(n as int) =~~= self@);
        }
        while i > 0
            invariant
                i <= self@.len(),
                n == self@.len(),
                alist_get(self@, *id) == alist_get(self@.take(i as int), *id),
            decreases i,
        {
            proof {
                assert(self@.take(i as int).drop_last() =~= self@.take(i as int - 1));
            }
            if self.mapping[i - 1].0.eq_id(id) {
                let r = &self.mapping[i - 1].1;
                proof {
                    assert(self@.take(i as int).last() == (self.mapping@[i as int - 1].0,
                    self.mapping@[i as int - 1].1@));
                }
                return Some(r);
            }
            i = i - 1;
        }
        proof {
            assert(self@.take(0) =~= Seq::<(NameIdentifier, SchemeG)>::empty());
        }
        None
    }

    /// Whether `id` is bound in the context.
    pub fn contains(&self, id: &NameIdentifier) -> (r: bool)
        ensures
            r == (alist_get(self@, *id) is Some),
    {
        match self.get(id) {
            Some(_) => true,
            None => false,
        }
    }
}

} // verus!
