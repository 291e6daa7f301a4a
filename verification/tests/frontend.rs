//! Name resolution and type inference on hand-built surface trees.

use mujicalang::ast::ASTAtom;
use mujicalang::ast::ASTExpr;
use mujicalang::ast::InputASTExpr;
use mujicalang::ast::OpType;
use mujicalang::errors::FrontendError;
use mujicalang::name_resolution::NameResolver;
use mujicalang::ty::Scheme;
use mujicalang::ty::Ty;
use mujicalang::tyck::TypeChecker;

fn arrow(a: Ty, b: Ty) -> Ty {
    Ty::Arrow(Box::new(a), Box::new(b))
}

fn lit(i: i32) -> InputASTExpr {
    ASTExpr::Atom(ASTAtom::Int(i), None)
}

fn boolean(b: bool) -> InputASTExpr {
    ASTExpr::Atom(ASTAtom::Bool(b), None)
}

fn var(name: &str) -> InputASTExpr {
    ASTExpr::Atom(ASTAtom::Var(String::from(name)), None)
}

fn app(f: InputASTExpr, a: InputASTExpr) -> InputASTExpr {
    ASTExpr::Apply { func: Box::new(f), args: Box::new(a), ty: None }
}

fn binop(op: OpType, l: InputASTExpr, r: InputASTExpr) -> InputASTExpr {
    app(app(ASTExpr::Atom(ASTAtom::Op(op), None), l), r)
}

fn let_plain(name: &str, value: InputASTExpr, body: InputASTExpr) -> InputASTExpr {
    ASTExpr::Let {
        bind: (String::from(name), None),
        value: Box::new(value),
        body: Box::new(body),
        ty: None,
    }
}

fn let_scheme(
    name: &str,
    scheme: Scheme,
    value: InputASTExpr,
    body: InputASTExpr,
) -> InputASTExpr {
    ASTExpr::Let {
        bind: (String::from(name), Some(scheme)),
        value: Box::new(value),
        body: Box::new(body),
        ty: None,
    }
}

fn lam(name: &str, ty: Option<Ty>, body: InputASTExpr) -> InputASTExpr {
    ASTExpr::Lambda { arg: (String::from(name), ty), body: Box::new(body), ret_ty: None }
}

fn mono_scheme(ty: Ty) -> Scheme {
    Scheme { vars: vec![], constraints: vec![], ty }
}

#[test]
fn resolver_accepts_bound_names() {
    let e = let_plain("x", lit(1), var("x"));
    let mut r = NameResolver::new();
    assert!(r.resolve(e).is_ok());
}

#[test]
fn resolver_rejects_unbound_names() {
    let e = let_plain("x", lit(1), var("y"));
    let mut r = NameResolver::new();
    match r.resolve(e) {
        Err(FrontendError::UnboundVariable(n)) => assert_eq!(n, "y"),
        _ => panic!("expected an unbound-variable error"),
    }
}

#[test]
fn resolver_shadows_inner_binders() {
    let e = let_plain("x", lit(1), let_plain("x", lit(2), var("x")));
    let mut r = NameResolver::new();
    let out = r.resolve(e).unwrap();
    // the inner use refers to the inner binder, which got the later token
    match out {
        ASTExpr::Let { body, .. } => match *body {
            ASTExpr::Let { bind, body: inner_body, .. } => match *inner_body {
                ASTExpr::Atom(ASTAtom::Var(v), _) => assert!(v.id == bind.0.id),
                _ => panic!("expected a variable"),
            },
            _ => panic!("expected a let"),
        },
        _ => panic!("expected a let"),
    }
}

fn typecheck(e: InputASTExpr) -> Result<mujicalang::tyck::TypedASTExpr, FrontendError> {
    let mut r = NameResolver::new();
    let resolved = r.resolve(e).map_err(|e| e)?;
    let mut tc = TypeChecker::new();
    tc.tyck(resolved)
}

fn root_ty(t: &mujicalang::tyck::TypedASTExpr) -> Ty {
    match t {
        ASTExpr::Atom(_, ty) => ty.clone(),
        ASTExpr::If { ty, .. } => ty.clone(),
        ASTExpr::Let { ty, .. } => ty.clone(),
        ASTExpr::Apply { ty, .. } => ty.clone(),
        ASTExpr::Lambda { ret_ty, .. } => ret_ty.clone(),
    }
}

#[test]
fn infers_integer_arithmetic() {
    let e = binop(OpType::Add, lit(1), lit(2));
    let t = typecheck(e).unwrap();
    assert!(root_ty(&t) == Ty::Int);
}

#[test]
fn infers_comparison_as_bool() {
    let e = binop(OpType::Lt, lit(1), lit(2));
    let t = typecheck(e).unwrap();
    assert!(root_ty(&t) == Ty::Bool);
}

#[test]
fn annotated_lambda_application() {
    let e = let_plain("f", lam("x", Some(Ty::Int), binop(OpType::Add, var("x"), lit(1))), app(
        var("f"),
        lit(41),
    ));
    let t = typecheck(e).unwrap();
    assert!(root_ty(&t) == Ty::Int);
}

#[test]
fn rejects_branch_type_mismatch() {
    let e = ASTExpr::If {
        cond: Box::new(boolean(true)),
        then: Box::new(lit(1)),
        else_: Box::new(boolean(false)),
        ty: None,
    };
    match typecheck(e) {
        Err(FrontendError::TypeError(_)) => {},
        _ => panic!("expected a type error"),
    }
}

#[test]
fn rejects_condition_that_is_not_bool() {
    let e = ASTExpr::If {
        cond: Box::new(lit(1)),
        then: Box::new(lit(1)),
        else_: Box::new(lit(2)),
        ty: None,
    };
    match typecheck(e) {
        Err(FrontendError::TypeError(_)) => {},
        _ => panic!("expected a type error"),
    }
}

#[test]
fn rejects_unannotated_free_lambda() {
    let e = lam("x", None, var("x"));
    match typecheck(e) {
        Err(FrontendError::TypeError(_)) => {},
        _ => panic!("expected a type error"),
    }
}

#[test]
fn rejects_applying_an_integer() {
    let e = let_plain("x", lit(1), app(var("x"), lit(2)));
    match typecheck(e) {
        Err(FrontendError::TypeError(_)) => {},
        _ => panic!("expected a type error"),
    }
}

#[test]
fn recursive_binding_with_annotation() {
    // factorial over an annotated monotype scheme
    let body = lam(
        "n",
        None,
        ASTExpr::If {
            cond: Box::new(binop(OpType::Eq, var("n"), lit(0))),
            then: Box::new(lit(1)),
            else_: Box::new(binop(
                OpType::Mul,
                var("n"),
                app(var("fact"), binop(OpType::Sub, var("n"), lit(1))),
            )),
            ty: None,
        },
    );
    let e = let_scheme("fact", mono_scheme(arrow(Ty::Int, Ty::Int)), body, app(var("fact"), lit(5)));
    let t = typecheck(e).unwrap();
    assert!(root_ty(&t) == Ty::Int);
}

#[test]
fn polymorphic_identity_instantiates_at_two_types() {
    // let id : forall a. a -> a = fun x -> x in (id 5) + (if id true then 1 else 0)
    let id_scheme = Scheme {
        vars: vec![0],
        constraints: vec![],
        ty: arrow(Ty::Mono(0), Ty::Mono(0)),
    };
    let body = binop(
        OpType::Add,
        app(var("id"), lit(5)),
        ASTExpr::If {
            cond: Box::new(app(var("id"), boolean(true))),
            then: Box::new(lit(1)),
            else_: Box::new(lit(0)),
            ty: None,
        },
    );
    let e = let_scheme("id", id_scheme, lam("x", None, var("x")), body);
    let t = typecheck(e).unwrap();
    assert!(root_ty(&t) == Ty::Int);
}

fn ty_has_mono(t: &Ty) -> bool {
    match t {
        Ty::Arrow(a, b) => ty_has_mono(a) || ty_has_mono(b),
        Ty::Mono(_) => true,
        _ => false,
    }
}

fn tree_has_mono(t: &mujicalang::tyck::TypedASTExpr) -> bool {
    match t {
        ASTExpr::Atom(_, ty) => ty_has_mono(ty),
        ASTExpr::If { cond, then, else_, ty } => {
            ty_has_mono(ty) || tree_has_mono(cond) || tree_has_mono(then) || tree_has_mono(else_)
        },
        ASTExpr::Let { value, body, ty, .. } => {
            ty_has_mono(ty) || tree_has_mono(value) || tree_has_mono(body)
        },
        ASTExpr::Apply { func, args, ty } => {
            ty_has_mono(ty) || tree_has_mono(func) || tree_has_mono(args)
        },
        ASTExpr::Lambda { arg, body, ret_ty } => {
            ty_has_mono(&arg.1) || ty_has_mono(ret_ty) || tree_has_mono(body)
        },
    }
}

#[test]
fn fully_constrained_program_has_no_type_variables() {
    // every fresh variable is forced to a ground type, so the final
    // tree carries no type variable at all
    let e = let_plain(
        "f",
        lam("x", Some(Ty::Int), binop(OpType::Add, var("x"), lit(1))),
        app(var("f"), app(var("f"), lit(5))),
    );
    let t = typecheck(e).unwrap();
    assert!(!tree_has_mono(&t));
}

#[test]
fn unused_scheme_instantiation_keeps_its_variable() {
    // the definition-side instantiation of a scheme is never forced to
    // a ground type, so the binding's own annotations may keep a
    // variable even in a closed program
    let id_scheme = Scheme {
        vars: vec![0],
        constraints: vec![],
        ty: arrow(Ty::Mono(0), Ty::Mono(0)),
    };
    let e = let_scheme(
        "id",
        id_scheme,
        lam("x", None, var("x")),
        binop(OpType::Add, app(var("id"), lit(5)), lit(1)),
    );
    let t = typecheck(e).unwrap();
    assert!(tree_has_mono(&t));
}
