//! End-to-end runs of the compiler middle end on hand-built programs,
//! down to the emitted C text.

use mujicalang::ast::ASTAtom;
use mujicalang::ast::ASTExpr;
use mujicalang::ast::InputASTExpr;
use mujicalang::ast::OpType;
use mujicalang::ast2knf::AST2KNF;
use mujicalang::closure_conversion::ClosureProgram;
use mujicalang::emit_imp::emit_imp;
use mujicalang::knf2anf::knf2anf;
use mujicalang::monomorphization::Monomorphization;
use mujicalang::name_resolution::NameResolver;
use mujicalang::ty::Scheme;
use mujicalang::ty::Ty;
use mujicalang::tyck::TypeChecker;
use mujicalang::uncurry::uncurry;

fn arrow(a: Ty, b: Ty) -> Ty {
    Ty::Arrow(Box::new(a), Box::new(b))
}

fn lit(i: i32) -> InputASTExpr {
    ASTExpr::Atom(ASTAtom::Int(i), None)
}

fn boolean(b: bool) -> InputASTExpr {
    ASTExpr::Atom(ASTAtom::Bool(b), None)
}

fn var(name: &str) -> InputASTExpr {
    ASTExpr::Atom(ASTAtom::Var(String::from(name)), None)
}

fn app(f: InputASTExpr, a: InputASTExpr) -> InputASTExpr {
    ASTExpr::Apply { func: Box::new(f), args: Box::new(a), ty: None }
}

fn binop(op: OpType, l: InputASTExpr, r: InputASTExpr) -> InputASTExpr {
    app(app(ASTExpr::Atom(ASTAtom::Op(op), None), l), r)
}

fn ite(c: InputASTExpr, t: InputASTExpr, e: InputASTExpr) -> InputASTExpr {
    ASTExpr::If { cond: Box::new(c), then: Box::new(t), else_: Box::new(e), ty: None }
}

fn let_plain(name: &str, value: InputASTExpr, body: InputASTExpr) -> InputASTExpr {
    ASTExpr::Let {
        bind: (String::from(name), None),
        value: Box::new(value),
        body: Box::new(body),
        ty: None,
    }
}

fn let_scheme(
    name: &str,
    scheme: Scheme,
    value: InputASTExpr,
    body: InputASTExpr,
) -> InputASTExpr {
    ASTExpr::Let {
        bind: (String::from(name), Some(scheme)),
        value: Box::new(value),
        body: Box::new(body),
        ty: None,
    }
}

fn lam(name: &str, ty: Option<Ty>, body: InputASTExpr) -> InputASTExpr {
    ASTExpr::Lambda { arg: (String::from(name), ty), body: Box::new(body), ret_ty: None }
}

fn mono_scheme(ty: Ty) -> Scheme {
    Scheme { vars: vec![], constraints: vec![], ty }
}

/// Run the whole middle end and return the emitted C text.
fn compile(e: InputASTExpr) -> String {
    let mut resolver = NameResolver::new();
    let resolved = resolver.resolve(e).expect("name resolution failed");
    let mut checker = TypeChecker::new();
    let typed = checker.tyck(resolved).expect("type checking failed");
    let uncurried = uncurry(typed).expect("uncurrying failed");
    let mut a2k = AST2KNF::new();
    let knf = a2k.convert(uncurried);
    let anf = knf2anf(knf).expect("flattening failed");
    let mut mono = Monomorphization::new();
    mono.collect_instances(&anf);
    let mut update = Vec::new();
    let mono_anf = mono.rewrite_expr(&anf, &mut update).expect("monomorphization failed");
    let mut conv = ClosureProgram::new();
    conv.convert(&mono_anf);
    emit_imp(conv).expect("emission failed")
}

fn id_scheme() -> Scheme {
    Scheme { vars: vec![0], constraints: vec![], ty: arrow(Ty::Mono(0), Ty::Mono(0)) }
}

#[test]
fn increment_of_a_literal() {
    // let f = fun (x: int) -> x + 1 in f 41
    let e = let_plain(
        "f",
        lam("x", Some(Ty::Int), binop(OpType::Add, var("x"), lit(1))),
        app(var("f"), lit(41)),
    );
    let c = compile(e);
    assert!(c.contains("#include <stdio.h>"));
    assert!(c.contains("printf(\"%d\\n\""));
    assert!(c.contains("int main() {"));
    assert!(c.contains("= 41;"));
    assert!(c.contains("lambda_0"));
}

#[test]
fn factorial_with_annotation() {
    // let fact : int -> int = fun n -> if n == 0 then 1 else n * fact (n - 1) in fact 5
    let body = lam(
        "n",
        None,
        ite(
            binop(OpType::Eq, var("n"), lit(0)),
            lit(1),
            binop(
                OpType::Mul,
                var("n"),
                app(var("fact"), binop(OpType::Sub, var("n"), lit(1))),
            ),
        ),
    );
    let e = let_scheme(
        "fact",
        mono_scheme(arrow(Ty::Int, Ty::Int)),
        body,
        app(var("fact"), lit(5)),
    );
    let c = compile(e);
    assert!(c.contains("if ("));
    assert!(c.contains("} else {"));
    assert!(c.contains("= 5;"));
    // the recursive call goes through the closure bound to fact
    assert!(c.contains("->func)("));
}

#[test]
fn closure_captures_an_outer_binding() {
    // let x = 3 in let add_x = fun (y: int) -> x + y in add_x 4
    let e = let_plain(
        "x",
        lit(3),
        let_plain(
            "add_x",
            lam("y", Some(Ty::Int), binop(OpType::Add, var("x"), var("y"))),
            app(var("add_x"), lit(4)),
        ),
    );
    let c = compile(e);
    // the environment struct holds the captured x
    assert!(c.contains("clos_env_lambda_0"));
    assert!(c.contains("x_0"));
    assert!(c.contains("= malloc(sizeof("));
}

#[test]
fn polymorphic_identity_at_two_types() {
    // let id : forall a. a -> a = fun x -> x in (id 5) + (if id true then 1 else 0)
    let body = binop(
        OpType::Add,
        app(var("id"), lit(5)),
        ite(app(var("id"), boolean(true)), lit(1), lit(0)),
    );
    let e = let_scheme("id", id_scheme(), lam("x", None, var("x")), body);
    let c = compile(e);
    // two specialized instances with distinct mangled names
    assert!(c.contains("id__int"));
    assert!(c.contains("id__bool"));
}

#[test]
fn polymorphic_apply_and_identity() {
    // let id : forall a. a -> a = fun x -> x in
    // let apply : forall b. (b -> b) -> b -> b = fun f x -> f x in
    // apply id (apply id 7)
    let apply_scheme = Scheme {
        vars: vec![1],
        constraints: vec![],
        ty: arrow(arrow(Ty::Mono(1), Ty::Mono(1)), arrow(Ty::Mono(1), Ty::Mono(1))),
    };
    let e = let_scheme(
        "id",
        id_scheme(),
        lam("x", None, var("x")),
        let_scheme(
            "apply",
            apply_scheme,
            lam("f", None, lam("x", None, app(var("f"), var("x")))),
            app(app(var("apply"), var("id")), app(app(var("apply"), var("id")), lit(7))),
        ),
    );
    let c = compile(e);
    assert!(c.contains("id__int"));
    assert!(c.contains("apply__fn_int_to_int_nf_int"));
    assert!(c.contains("= 7;"));
}

#[test]
fn mixed_if_branches() {
    // let f : int -> int = fun n -> if n == 0 then 1 else 2 in f 0 + f 5
    let e = let_scheme(
        "f",
        mono_scheme(arrow(Ty::Int, Ty::Int)),
        lam("n", None, ite(binop(OpType::Eq, var("n"), lit(0)), lit(1), lit(2))),
        binop(OpType::Add, app(var("f"), lit(0)), app(var("f"), lit(5))),
    );
    let c = compile(e);
    assert!(c.contains("if ("));
    assert!(c.contains("= 0;"));
    assert!(c.contains("= 5;"));
}

#[test]
fn every_comparison_operator_lowers() {
    let mut ops = Vec::new();
    ops.push(OpType::Neq);
    ops.push(OpType::Lt);
    ops.push(OpType::Gt);
    ops.push(OpType::Leq);
    ops.push(OpType::Geq);
    for op in ops {
        let e = ite(binop(op, lit(1), lit(2)), lit(1), lit(0));
        let c = compile(e);
        assert!(c.contains("int main() {"));
    }
    let c = compile(ite(binop(OpType::Leq, lit(1), lit(2)), lit(1), lit(0)));
    assert!(c.contains("<="));
}

#[test]
fn monomorphization_is_idempotent_on_monomorphic_programs() {
    // run the middle end once; a second monomorphization pass over its
    // output changes nothing, down to the emitted C text
    let body = binop(
        OpType::Add,
        app(var("id"), lit(5)),
        ite(app(var("id"), boolean(true)), lit(1), lit(0)),
    );
    let e = let_scheme("id", id_scheme(), lam("x", None, var("x")), body);

    let mut resolver = NameResolver::new();
    let resolved = resolver.resolve(e).unwrap();
    let mut checker = TypeChecker::new();
    let typed = checker.tyck(resolved).unwrap();
    let uncurried = uncurry(typed).unwrap();
    let mut a2k = AST2KNF::new();
    let knf = a2k.convert(uncurried);
    let anf = knf2anf(knf).unwrap();

    let mut mono1 = Monomorphization::new();
    mono1.collect_instances(&anf);
    let mut u1 = Vec::new();
    let once = mono1.rewrite_expr(&anf, &mut u1).unwrap();

    let mut mono2 = Monomorphization::new();
    mono2.collect_instances(&once);
    let mut u2 = Vec::new();
    let twice = mono2.rewrite_expr(&once, &mut u2).unwrap();

    let mut conv1 = ClosureProgram::new();
    conv1.convert(&once);
    let c1 = emit_imp(conv1).unwrap();
    let mut conv2 = ClosureProgram::new();
    conv2.convert(&twice);
    let c2 = emit_imp(conv2).unwrap();
    assert_eq!(c1, c2);
}

#[test]
fn program_summary_lists_lifted_functions() {
    let e = let_plain(
        "f",
        lam("x", Some(Ty::Int), binop(OpType::Add, var("x"), lit(1))),
        app(var("f"), lit(41)),
    );
    let mut resolver = NameResolver::new();
    let resolved = resolver.resolve(e).unwrap();
    let mut checker = TypeChecker::new();
    let typed = checker.tyck(resolved).unwrap();
    let uncurried = uncurry(typed).unwrap();
    let mut a2k = AST2KNF::new();
    let knf = a2k.convert(uncurried);
    let anf = knf2anf(knf).unwrap();
    let mut mono = Monomorphization::new();
    mono.collect_instances(&anf);
    let mut update = Vec::new();
    let mono_anf = mono.rewrite_expr(&anf, &mut update).unwrap();
    let mut conv = ClosureProgram::new();
    conv.convert(&mono_anf);
    let summary = conv.show();
    assert_eq!(summary, "Function: lambda_0\nMain present\n");
}
