//! Closure conversion: every lambda is lifted to a top-level function
//! whose capture record holds the free variables of its body.

use vstd::prelude::*;

verus! {

use vstd::string::StringExecFns;
use crate::anf;
use crate::anf::fv_atom;
use crate::anf::fv_atoms;
use crate::anf::fv_cexpr;
use crate::anf::fv_drop_id;
use crate::anf::fv_drop_params;
use crate::anf::fv_expr;
use crate::anf::fv_pairs;
use crate::anf::fv_remove_id;
use crate::closure::Closure;
use crate::closure::ClosureCExpr;
use crate::closure::ClosureExpr;
use crate::closure::cexpr_eqv;
use crate::name_generator::CLOSURE_GEN_SPACE;
use crate::name_generator::NameGenerator;
use crate::name_resolution::NameIdentifier;
use crate::name_resolution::ResolvedIdent;
use crate::text::dec_of;
use crate::ty::Ty;
use crate::typed_atom::TypedAtom;

/// A top-level item of the converted program: a lifted function and
/// its converted body.
pub enum ClosureProgramGlobal {
    FuncDef { closure: Closure, body: ClosureExpr },
}

/// Whether a token names one of the parameters.
pub open spec fn id_in_params(id: NameIdentifier, params: Seq<(ResolvedIdent, Ty)>) -> bool {
    exists|i: int| 0 <= i < params.len() && (#[trigger] params[i]).0.id == id
}

/// The free variables of a converted computation form; a closure
/// reference contributes its capture list, which the binding site
/// reads to fill the environment.
pub open spec fn fv_clos_cexpr(c: ClosureCExpr) -> Set<(NameIdentifier, Ty)>
    decreases c, 0int,
{
    match c {
        ClosureCExpr::Atom(ta) => fv_atom(ta),
        ClosureCExpr::If { cond, then, else_, .. } => fv_atom(
            TypedAtom { atom: cond, ty: Ty::Bool },
        ).union(fv_clos_expr(*then)).union(fv_clos_expr(*else_)),
        ClosureCExpr::Apply { func, args, .. } => fv_atom(func).union(fv_atoms(args@)),
        ClosureCExpr::Closure(cl) => fv_pairs(cl.capture@).to_set(),
    }
}

/// The free variables of a converted expression.
pub open spec fn fv_clos_expr(e: ClosureExpr) -> Set<(NameIdentifier, Ty)>
    decreases e, 1int,
{
    match e {
        ClosureExpr::CExpr(c) => fv_clos_cexpr(c),
        ClosureExpr::Let { bind, value, body, .. } => fv_drop_id(
            fv_clos_cexpr(*value).union(fv_clos_expr(*body)),
            bind.id,
        ),
    }
}

/// How a converted tree relates to its A-normal source: everything is
/// carried structurally, and each lambda becomes a closure record
/// holding the lambda's parameters, return type, and exactly the free
/// variables of its body that do not name a parameter.
pub open spec fn cc_rel(e: anf::Expr, o: ClosureExpr) -> bool
    decreases e, 1int,
{
    match e {
        anf::Expr::CExpr(c) => o matches ClosureExpr::CExpr(c2) && cc_cexpr_rel(c, c2),
        anf::Expr::Let { bind, value, body, ty, .. } => o matches ClosureExpr::Let {
            bind: b2,
            value: v2,
            body: bo2,
            ty: ty2,
        } && b2 == bind && ty2 == ty && cc_cexpr_rel(*value, *v2) && cc_rel(*body, *bo2),
    }
}

/// How a converted computation form relates to its source.
pub open spec fn cc_cexpr_rel(c: anf::CExpr, o: ClosureCExpr) -> bool
    decreases c, 0int,
{
    match c {
        anf::CExpr::Atom(ta) => o matches ClosureCExpr::Atom(t2) && t2 == ta,
        anf::CExpr::If { cond, then, else_, ty } => o matches ClosureCExpr::If {
            cond: c2,
            then: t2,
            else_: e2,
            ty: ty2,
        } && c2 == cond && ty2 == ty && cc_rel(*then, *t2) && cc_rel(*else_, *e2),
        anf::CExpr::Apply { func, args, ty } => o matches ClosureCExpr::Apply {
            func: f2,
            args: a2,
            ty: ty2,
        } && f2 == func && a2@ == args@ && ty2 == ty,
        anf::CExpr::Lambda { args, body, ret_ty } => o matches ClosureCExpr::Closure(cl)
            && cl.args@ == args@ && cl.ret_ty == ret_ty && fv_pairs(cl.capture@).no_duplicates()
            && fv_pairs(cl.capture@).to_set() == fv_drop_params(fv_expr(*body), args@) && (exists|
            n: nat,
        | cl.global_name@ == "lambda_"@ + dec_of(n)),
    }
}

/// Conversion preserves free variables: a lifted closure's capture
/// list stands for exactly the free variables of the lambda it
/// replaced.
pub proof fn lemma_cc_fv(e: anf::Expr, o: ClosureExpr)
    requires
        cc_rel(e, o),
    ensures
        fv_clos_expr(o) == fv_expr(e),
    decreases e, 1int,
{
    match e {
        anf::Expr::CExpr(c) => {
            lemma_cc_fv_cexpr(c, o->CExpr_0);
        },
        anf::Expr::Let { bind, value, body, .. } => {
            lemma_cc_fv_cexpr(*value, *o->Let_value);
            lemma_cc_fv(*body, *o->Let_body);
            assert(fv_clos_expr(o) =~= fv_expr(e));
        },
    }
}

/// The computation-form side of free-variable preservation.
pub proof fn lemma_cc_fv_cexpr(c: anf::CExpr, o: ClosureCExpr)
    requires
        cc_cexpr_rel(c, o),
    ensures
        fv_clos_cexpr(o) == fv_cexpr(c),
    decreases c, 0int,
{
    match c {
        anf::CExpr::Atom(_) => {
        },
        anf::CExpr::If { then, else_, .. } => {
            lemma_cc_fv(*then, *o->If_then);
            lemma_cc_fv(*else_, *o->If_else_);
            assert(fv_clos_cexpr(o) =~= fv_cexpr(c));
        },
        anf::CExpr::Apply { .. } => {
        },
        anf::CExpr::Lambda { .. } => {
        },
    }
}

/// A lifted function is closed by its parameters and captures: every
/// free variable of its body names a parameter or appears in the
/// capture list.
pub open spec fn global_p5(g: ClosureProgramGlobal) -> bool {
    match g {
        ClosureProgramGlobal::FuncDef { closure, body } => forall|q: (NameIdentifier, Ty)|
            fv_clos_expr(body).contains(q) ==> id_in_params(q.0, closure.args@) || fv_pairs(
                closure.capture@,
            ).to_set().contains(q),
    }
}

/// Every lifted function in the list is closed in this sense.
pub open spec fn globals_p5(gs: Seq<ClosureProgramGlobal>) -> bool {
    forall|i: int| 0 <= i < gs.len() ==> global_p5(#[trigger] gs[i])
}

/// Every lifted function's name is `lambda_` followed by a number.
pub open spec fn globals_named(gs: Seq<ClosureProgramGlobal>) -> bool {
    forall|i: int|
        0 <= i < gs.len() ==> exists|n: nat|
            (#[trigger] gs[i])->FuncDef_closure.global_name@ == "lambda_"@ + dec_of(n)
}

/// The number of lambdas in an A-normal expression: one lifted
/// function arises per lambda.
pub open spec fn lam_count(e: anf::Expr) -> nat
    decreases e, 1int,
{
    match e {
        anf::Expr::CExpr(c) => lam_count_cexpr(c),
        anf::Expr::Let { value, body, .. } => lam_count_cexpr(*value) + lam_count(*body),
    }
}

/// The lambda count of a computation form.
pub open spec fn lam_count_cexpr(c: anf::CExpr) -> nat
    decreases c, 0int,
{
    match c {
        anf::CExpr::Atom(_) => 0,
        anf::CExpr::If { then, else_, .. } => lam_count(*then) + lam_count(*else_),
        anf::CExpr::Apply { .. } => 0,
        anf::CExpr::Lambda { body, .. } => 1 + lam_count(*body),
    }
}

/// The converted program: the lifted functions, the main expression,
/// and the generator of global names.
pub struct ClosureProgram {
    pub globals: Vec<ClosureProgramGlobal>,
    pub main: Option<ClosureExpr>,
    pub name_generator: NameGenerator,
}

/// The capture list of a lifted lambda: the free variables of its body
/// whose token does not name a parameter.  Every free variable of the
/// body either names a parameter or appears in the capture list.
pub fn compute_captures(body: &anf::Expr, args: &Vec<(ResolvedIdent, Ty)>) -> (r: Vec<
    (ResolvedIdent, Ty),
>)
    ensures
        fv_pairs(r@).no_duplicates(),
        fv_pairs(r@).to_set() == fv_drop_params(fv_expr(*body), args@),
        forall|q: (NameIdentifier, Ty)|
            fv_expr(*body).contains(q) ==> id_in_params(q.0, args@) || fv_pairs(
                r@,
            ).to_set().contains(q),
{
    let mut vars = body.free_vars();
    let mut i: usize = 0;
    proof {
        assert(fv_pairs(vars@).to_set() =~= fv_drop_params(fv_expr(*body), args@.take(0)));
    }
    while i < args.len()
        invariant
            i <= args@.len(),
            fv_pairs(vars@).no_duplicates(),
            fv_pairs(vars@).to_set() == fv_drop_params(fv_expr(*body), args@.take(i as int)),
        decreases args@.len() - i,
    {
        let id = args[i].0.id.clone();
        let v2 = fv_remove_id(vars, &id);
        vars = v2;
        i = i + 1;
        proof {
            assert(args@.take(i as int).drop_last() =~= args@.take(i as int - 1));
            assert(args@.take(i as int).last() == args@[i as int - 1]);
            assert forall|q: (NameIdentifier, Ty)|
                fv_drop_params(fv_expr(*body), args@.take(i as int)).contains(q) == fv_drop_id(
                    fv_drop_params(fv_expr(*body), args@.take(i as int - 1)),
                    args@[i as int - 1].0.id,
                ).contains(q) by {
                if fv_drop_id(
                    fv_drop_params(fv_expr(*body), args@.take(i as int - 1)),
                    args@[i as int - 1].0.id,
                ).contains(q) {
                    assert forall|m: int|
                        0 <= m < args@.take(i as int).len() implies q.0 != (#[trigger] args@.take(
                        i as int,
                    )[m]).0.id by {
                        if m < i - 1 {
                            assert(args@.take(i as int - 1)[m] == args@.take(i as int)[m]);
                        }
                    }
                }
            }
            assert(fv_pairs(vars@).to_set() =~= fv_drop_params(
                fv_expr(*body),
                args@.take(i as int),
            ));
        }
    }
    proof {
        assert(args@.take(args@.len() as int) =~= args@);
        assert forall|q: (NameIdentifier, Ty)| fv_expr(*body).contains(q) implies id_in_params(
            q.0,
            args@,
        ) || fv_pairs(vars@).to_set().contains(q) by {
            if !id_in_params(q.0, args@) {
                assert(fv_drop_params(fv_expr(*body), args@).contains(q));
            }
        }
    }
    vars
}

impl ClosureProgram {
    /// The lambda-name generator keeps its own token space and the
    /// `lambda_` prefix.
    pub open spec fn wf(&self) -> bool {
        self.name_generator.space == CLOSURE_GEN_SPACE && self.name_generator.prefix@
            == "lambda_"@
    }

    /// An empty program with a fresh name generator.
    pub fn new() -> (r: ClosureProgram)
        ensures
            r.wf(),
            r.globals@.len() == 0,
            r.main is None,
            r.name_generator.counter == 0,
    {
        ClosureProgram {
            globals: Vec::new(),
            main: None,
            name_generator: NameGenerator::new("lambda_", CLOSURE_GEN_SPACE),
        }
    }

    /// A short description of the converted program: one line per
    /// lifted function, then whether a main expression is present.
    pub fn show(&self) -> (r: String)
        ensures
            r@ == show_of(self.globals@, self.main is Some),
    {
        let mut s = String::new();
        let mut i: usize = 0;
        proof {
            assert(show_globals_of(self.globals@.take(0)) =~= Seq::<char>::empty());
            assert(s@ =~= show_globals_of(self.globals@.take(0)));
        }
        while i < self.globals.len()
            invariant
                i <= self.globals@.len(),
                s@ == show_globals_of(self.globals@.take(i as int)),
            decreases self.globals@.len() - i,
        {
            proof {
                reveal_strlit("Function: ");
                reveal_strlit("\n");
            }
            match &self.globals[i] {
                ClosureProgramGlobal::FuncDef { closure, body: _ } => {
                    s.append("Function: ");
                    s.append(closure.global_name.as_str());
                    s.append("\n");
                },
            }
            i = i + 1;
            proof {
                assert(self.globals@.take(i as int).drop_last() =~= self.globals@.take(
                    i as int - 1,
                ));
                assert(s@ =~= show_globals_of(self.globals@.take(i as int)));
            }
        }
        proof {
            assert(self.globals@.take(self.globals@.len() as int) =~= self.globals@);
            reveal_strlit("Main present\n");
            reveal_strlit("Main absent\n");
        }
        if self.main.is_some() {
            s.append("Main present\n");
        } else {
            s.append("Main absent\n");
        }
        proof {
            assert(s@ =~= show_of(self.globals@, self.main is Some));
        }
        s
    }

    fn convert_cexpr(&mut self, cexpr: &anf::CExpr) -> (r: ClosureCExpr)
        requires
            old(self).wf(),
        ensures
            final(self).wf(),
            cc_cexpr_rel(*cexpr, r),
            old(self).globals@.is_prefix_of(final(self).globals@),
            final(self).globals@.len() == old(self).globals@.len() + lam_count_cexpr(*cexpr),
            globals_p5(old(self).globals@) ==> globals_p5(final(self).globals@),
            globals_named(old(self).globals@) ==> globals_named(final(self).globals@),
            final(self).main == old(self).main,
        decreases cexpr, 0int,
    {
        match cexpr {
            anf::CExpr::Atom(ta) => ClosureCExpr::Atom(ta.clone()),
            anf::CExpr::Apply { func, args, ty } => ClosureCExpr::Apply {
                func: func.clone(),
                args: crate::anf::clone_atoms(args),
                ty: ty.clone(),
            },
            anf::CExpr::If { cond, then, else_, ty } => {
                let t2 = self.convert_expr(then);
                let e2 = self.convert_expr(else_);
                proof {
                    assert(old(self).globals@.is_prefix_of(self.globals@));
                }
                ClosureCExpr::If {
                    cond: cond.clone(),
                    then: Box::new(t2),
                    else_: Box::new(e2),
                    ty: ty.clone(),
                }
            },
            anf::CExpr::Lambda { args, body, ret_ty } => {
                let free_vars = compute_captures(body, args);
                let ghost n0 = self.name_generator.counter;
                let gname = self.name_generator.next_name();
                proof {
                    assert(gname@ == "lambda_"@ + dec_of(n0 as nat));
                }
                let closure = Closure {
                    global_name: gname,
                    args: crate::anf::clone_params(args),
                    capture: free_vars,
                    ret_ty: ret_ty.clone(),
                };
                let cbody = self.convert_expr(body);
                let ghost gbody = cbody;
                let ghost gclosure = closure;
                self.globals.push(
                    ClosureProgramGlobal::FuncDef { closure: closure.clone(), body: cbody },
                );
                let r = ClosureCExpr::Closure(closure);
                proof {
                    lemma_cc_fv(**body, gbody);
                    assert(global_p5(
                        ClosureProgramGlobal::FuncDef { closure: gclosure, body: gbody },
                    ));
                    assert(old(self).globals@.is_prefix_of(self.globals@));
                    assert(cc_cexpr_rel(*cexpr, r));
                }
                r
            },
        }
    }

    fn convert_expr(&mut self, expr: &anf::Expr) -> (r: ClosureExpr)
        requires
            old(self).wf(),
        ensures
            final(self).wf(),
            cc_rel(*expr, r),
            old(self).globals@.is_prefix_of(final(self).globals@),
            final(self).globals@.len() == old(self).globals@.len() + lam_count(*expr),
            globals_p5(old(self).globals@) ==> globals_p5(final(self).globals@),
            globals_named(old(self).globals@) ==> globals_named(final(self).globals@),
            final(self).main == old(self).main,
        decreases expr, 1int,
    {
        match expr {
            anf::Expr::CExpr(cexpr) => ClosureExpr::CExpr(self.convert_cexpr(cexpr)),
            anf::Expr::Let { bind, value, body, ty, .. } => {
                let v2 = self.convert_cexpr(value);
                let b2 = self.convert_expr(body);
                proof {
                    assert(old(self).globals@.is_prefix_of(self.globals@));
                }
                ClosureExpr::Let {
                    bind: bind.clone(),
                    value: Box::new(v2),
                    body: Box::new(b2),
                    ty: ty.clone(),
                }
            },
        }
    }

    /// Convert a program: each lambda is lifted into `globals` — one
    /// `FuncDef` per lambda, named `lambda_<n>`, closed by its
    /// parameters and captures — and the first conversion becomes
    /// `main`.
    pub fn convert(&mut self, anf_expr: &anf::Expr) -> (r: ClosureExpr)
        requires
            old(self).wf(),
        ensures
            final(self).wf(),
            cc_rel(*anf_expr, r),
            old(self).globals@.is_prefix_of(final(self).globals@),
            final(self).globals@.len() == old(self).globals@.len() + lam_count(*anf_expr),
            globals_p5(old(self).globals@) ==> globals_p5(final(self).globals@),
            globals_named(old(self).globals@) ==> globals_named(final(self).globals@),
            final(self).main is Some,
            old(self).main is None ==> (final(self).main matches Some(m) && cexpr_eqv(r, m)),
            old(self).main is Some ==> final(self).main == old(self).main,
    {
        let converted_expr = self.convert_expr(anf_expr);
        if self.main.is_none() {
            self.main = Some(converted_expr.clone());
        }
        converted_expr
    }
}

/// One description line per lifted function.
pub open spec fn show_globals_of(gs: Seq<ClosureProgramGlobal>) -> Seq<char>
    decreases gs.len(),
{
    if gs.len() == 0 {
        Seq::empty()
    } else {
        show_globals_of(gs.drop_last()) + "Function: "@
            + gs.last()->FuncDef_closure.global_name@ + "\n"@
    }
}

/// The program description: the function lines, then whether a main
/// expression is present.
pub open spec fn show_of(gs: Seq<ClosureProgramGlobal>, has_main: bool) -> Seq<char> {
    show_globals_of(gs) + if has_main {
        "Main present\n"@
    } else {
        "Main absent\n"@
    }
}

} // verus!
