//! K-normal form: every operand of `If` and `Apply` is an atom;
//! non-atomic values appear only as `let` values.

use vstd::prelude::*;

verus! {

use vstd::string::StringExecFns;
use crate::name_resolution::ResolvedIdent;
use crate::ty::Ty;
use crate::typed_atom::Atom;
use crate::typed_atom::TypedAtom;

/// The K-normal form.  The grammar itself enforces that the condition
/// of an `If` and both sides of an `Apply` are atoms.
pub enum Expr {
    Atom(TypedAtom),
    If { cond: Atom, then: Box<Expr>, else_: Box<Expr>, ty: Ty },
    Let {
        bind: ResolvedIdent,
        value: Box<Expr>,
        body: Box<Expr>,
        ty: Ty,
        is_polymorphic: bool,
    },
    Apply { func: TypedAtom, args: Vec<TypedAtom>, ty: Ty },
    Lambda { args: Vec<(ResolvedIdent, Ty)>, body: Box<Expr>, ret_ty: Ty },
}

/// The type carried at the root of a K-normal expression.
pub open spec fn kexpr_ty(e: Expr) -> Ty {
    match e {
        Expr::Atom(ta) => ta.ty,
        Expr::If { ty, .. } => ty,
        Expr::Let { ty, .. } => ty,
        Expr::Apply { ty, .. } => ty,
        Expr::Lambda { ret_ty, .. } => ret_ty,
    }
}

impl Expr {
    /// The type at the root of this expression.
    pub fn ty(&self) -> (r: Ty)
        ensures
            r == kexpr_ty(*self),
    {
        match self {
            Expr::Atom(ta) => ta.ty.clone(),
            Expr::If { ty, .. } => ty.clone(),
            Expr::Let { ty, .. } => ty.clone(),
            Expr::Apply { ty, .. } => ty.clone(),
            Expr::Lambda { ret_ty, .. } => ret_ty.clone(),
        }
    }
}


/// The rendering of an argument-atom list, one space before each atom.
pub open spec fn atoms_display_of(s: Seq<TypedAtom>) -> Seq<char>
    decreases s.len(),
{
    if s.len() == 0 {
        Seq::empty()
    } else {
        atoms_display_of(s.drop_last()) + " "@ + crate::pp::atom_display_of(s.last().atom)
    }
}

/// The rendering of a parameter list, one space before each name.
pub open spec fn params_display_of(s: Seq<(ResolvedIdent, Ty)>) -> Seq<char>
    decreases s.len(),
{
    if s.len() == 0 {
        Seq::empty()
    } else {
        params_display_of(s.drop_last()) + " "@ + s.last().0.name@
    }
}

/// Render an argument-atom list.
pub fn render_atoms(s: &Vec<TypedAtom>) -> (r: String)
    ensures
        r@ == atoms_display_of(s@),
{
    let mut out = String::new();
    let mut i: usize = 0;
    proof {
        assert(out@ =~= atoms_display_of(s@.take(0)));
    }
    while i < s.len()
        invariant
            i <= s@.len(),
            out@ == atoms_display_of(s@.take(i as int)),
        decreases s@.len() - i,
    {
        proof {
            reveal_strlit(" ");
        }
        out.append(" ");
        out.append(crate::pp::pretty_atom(&s[i].atom).as_str());
        i = i + 1;
        proof {
            assert(s@.take(i as int).drop_last() =~= s@.take(i as int - 1));
            assert(s@.take(i as int).last() == s@[i as int - 1]);
            assert(out@ =~= atoms_display_of(s@.take(i as int)));
        }
    }
    proof {
        assert(s@.take(s@.len() as int) =~= s@);
    }
    out
}

/// Render a parameter list.
pub fn render_params(s: &Vec<(ResolvedIdent, Ty)>) -> (r: String)
    ensures
        r@ == params_display_of(s@),
{
    let mut out = String::new();
    let mut i: usize = 0;
    proof {
        assert(out@ =~= params_display_of(s@.take(0)));
    }
    while i < s.len()
        invariant
            i <= s@.len(),
            out@ == params_display_of(s@.take(i as int)),
        decreases s@.len() - i,
    {
        proof {
            reveal_strlit(" ");
        }
        out.append(" ");
        out.append(s[i].0.name.as_str());
        i = i + 1;
        proof {
            assert(s@.take(i as int).drop_last() =~= s@.take(i as int - 1));
            assert(s@.take(i as int).last() == s@[i as int - 1]);
            assert(out@ =~= params_display_of(s@.take(i as int)));
        }
    }
    proof {
        assert(s@.take(s@.len() as int) =~= s@);
    }
    out
}

/// The compact display of a K-normal expression.
pub open spec fn knf_display_of(e: Expr) -> Seq<char>
    decreases e,
{
    match e {
        Expr::Atom(ta) => crate::pp::atom_display_of(ta.atom),
        Expr::If { cond, then, else_, .. } => "if "@ + crate::pp::atom_display_of(cond) + " then "@
            + knf_display_of(*then) + " else "@ + knf_display_of(*else_) + " end"@,
        Expr::Let { bind, value, body, is_polymorphic, .. } => "let "@ + (if is_polymorphic {
            "poly "@
        } else {
            Seq::empty()
        }) + bind.name@ + " = "@ + knf_display_of(*value) + " in "@ + knf_display_of(*body)
            + " end"@,
        Expr::Apply { func, args, .. } => "("@ + crate::pp::atom_display_of(func.atom)
            + atoms_display_of(args@) + ")"@,
        Expr::Lambda { args, body, .. } => "fun"@ + params_display_of(args@) + " -> "@
            + knf_display_of(*body),
    }
}

/// Print a K-normal expression.
pub fn pretty_expr(expr: &Expr) -> (r: String)
    ensures
        r@ == knf_display_of(*expr),
    decreases expr,
{
    match expr {
        Expr::Atom(ta) => crate::pp::pretty_atom(&ta.atom),
        Expr::If { cond, then, else_, .. } => {
            proof {
                reveal_strlit("if ");
                reveal_strlit(" then ");
                reveal_strlit(" else ");
                reveal_strlit(" end");
            }
            let mut s = String::from_str("if ");
            s.append(crate::pp::pretty_atom(cond).as_str());
            s.append(" then ");
            s.append(pretty_expr(then).as_str());
            s.append(" else ");
            s.append(pretty_expr(else_).as_str());
            s.append(" end");
            proof {
                assert(s@ =~= knf_display_of(*expr));
            }
            s
        },
        Expr::Let { bind, value, body, is_polymorphic, .. } => {
            proof {
                reveal_strlit("let ");
                reveal_strlit("poly ");
                reveal_strlit(" = ");
                reveal_strlit(" in ");
                reveal_strlit(" end");
            }
            let mut s = String::from_str("let ");
            if *is_polymorphic {
                s.append("poly ");
            }
            s.append(bind.name.as_str());
            s.append(" = ");
            s.append(pretty_expr(value).as_str());
            s.append(" in ");
            s.append(pretty_expr(body).as_str());
            s.append(" end");
            proof {
                assert(s@ =~= knf_display_of(*expr));
            }
            s
        },
        Expr::Apply { func, args, .. } => {
            proof {
                reveal_strlit("(");
                reveal_strlit(")");
            }
            let mut s = String::from_str("(");
            s.append(crate::pp::pretty_atom(&func.atom).as_str());
            s.append(render_atoms(args).as_str());
            s.append(")");
            proof {
                assert(s@ =~= knf_display_of(*expr));
            }
            s
        },
        Expr::Lambda { args, body, .. } => {
            proof {
                reveal_strlit("fun");
                reveal_strlit(" -> ");
            }
            let mut s = String::from_str("fun");
            s.append(render_params(args).as_str());
            s.append(" -> ");
            s.append(pretty_expr(body).as_str());
            proof {
                assert(s@ =~= knf_display_of(*expr));
            }
            s
        },
    }
}

} // verus!
