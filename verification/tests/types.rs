//! Type-level operations: mangling, spine extraction, substitution,
//! free variables, rendering, and generated names.

use mujicalang::monomorphization::Monomorphization;
use mujicalang::name_generator::NameGenerator;
use mujicalang::name_resolution::NameIdentifier;
use mujicalang::name_resolution::ResolvedIdent;
use mujicalang::text::i32_to_string;
use mujicalang::text::u64_to_string;
use mujicalang::ty::Ty;

fn arrow(a: Ty, b: Ty) -> Ty {
    Ty::Arrow(Box::new(a), Box::new(b))
}

#[test]
fn mangle_base_types() {
    assert_eq!(Ty::Int.mangle(), "int");
    assert_eq!(Ty::Bool.mangle(), "bool");
    assert_eq!(Ty::Unit.mangle(), "unit");
    assert_eq!(Ty::Mono(0).mangle(), "tvt0");
}

#[test]
fn mangle_arrow() {
    assert_eq!(arrow(Ty::Int, Ty::Int).mangle(), "fn_int_to_int_nf");
    assert_eq!(
        arrow(arrow(Ty::Int, Ty::Bool), Ty::Unit).mangle(),
        "fn_fn_int_to_bool_nf_to_unit_nf"
    );
}

#[test]
fn display_types() {
    assert_eq!(arrow(Ty::Int, Ty::Bool).show(), "int -> bool");
    assert_eq!(arrow(arrow(Ty::Int, Ty::Int), Ty::Bool).show(), "(int -> int) -> bool");
    assert_eq!(Ty::Mono(3).show(), "t3");
}

#[test]
fn extract_args_walks_the_spine() {
    let t = arrow(Ty::Int, arrow(Ty::Bool, Ty::Unit));
    let (args, ret) = t.extract_args();
    assert_eq!(args.len(), 2);
    assert!(args[0] == Ty::Int);
    assert!(args[1] == Ty::Bool);
    assert!(ret == Ty::Unit);
}

#[test]
fn contains_and_apply() {
    let t = arrow(Ty::Mono(1), Ty::Int);
    assert!(t.contains_var(1));
    assert!(!t.contains_var(2));
    let u = t.apply(1, &Ty::Bool);
    assert!(u == arrow(Ty::Bool, Ty::Int));
}

#[test]
fn free_vars_no_duplicates() {
    let t = arrow(Ty::Mono(1), arrow(Ty::Mono(2), Ty::Mono(1)));
    let vs = t.free_vars();
    assert_eq!(vs.len(), 2);
    assert!(vs.contains(&1));
    assert!(vs.contains(&2));
}

#[test]
fn decimal_rendering() {
    assert_eq!(u64_to_string(0), "0");
    assert_eq!(u64_to_string(907), "907");
    assert_eq!(i32_to_string(-45), "-45");
    assert_eq!(i32_to_string(7), "7");
}

#[test]
fn generated_names_count_up() {
    let mut g = NameGenerator::new("a2k_", 1);
    let a = g.fresh_ident();
    let b = g.fresh_ident();
    assert_eq!(a.name, "a2k_0");
    assert_eq!(b.name, "a2k_1");
    assert!(a.id == NameIdentifier::Gen(1, 0));
    assert!(b.id == NameIdentifier::Gen(1, 1));
}

#[test]
fn mono_ident_mangles_name_and_token() {
    let base = ResolvedIdent::new(String::from("id"), NameIdentifier::Source(7));
    let at_int = Monomorphization::make_mono_ident(&base, &vec![Ty::Int]);
    let at_bool = Monomorphization::make_mono_ident(&base, &vec![Ty::Bool]);
    assert_eq!(at_int.name, "id__int");
    assert_eq!(at_bool.name, "id__bool");
    assert!(at_int.id != at_bool.id);
}

#[test]
fn mono_ident_joins_many_arguments() {
    let base = ResolvedIdent::new(String::from("f"), NameIdentifier::Source(1));
    let m = Monomorphization::make_mono_ident(&base, &vec![Ty::Int, arrow(Ty::Int, Ty::Bool)]);
    assert_eq!(m.name, "f__int_fn_int_to_bool_nf");
}

#[test]
fn substitution_is_idempotent_after_application() {
    // applying the accumulated substitution twice equals applying it once
    let subst: Vec<(u64, Ty)> = vec![(0, Ty::Int), (1, arrow(Ty::Int, Ty::Bool))];
    let t = arrow(Ty::Mono(0), arrow(Ty::Mono(1), Ty::Mono(2)));
    let once = mujicalang::subst::apply_subst(&t, &subst);
    let twice = mujicalang::subst::apply_subst(&once, &subst);
    assert!(once == twice);
    assert!(once == arrow(Ty::Int, arrow(arrow(Ty::Int, Ty::Bool), Ty::Mono(2))));
}
