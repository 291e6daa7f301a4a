//! A whole-program compiler middle end for a small, statically typed,
//! higher-order functional language: Hindley-Milner inference with
//! user-written polytype schemes, uncurrying, K-normal form, A-normal
//! form, whole-program monomorphization, closure conversion, and
//! C emission.

pub mod anf;
pub mod ast2knf;
pub mod ast;
pub mod closure;
pub mod closure_conversion;
pub mod emit_imp;
pub mod errors;
pub mod imp;
pub mod imp_builder;
pub mod knf2anf;
pub mod knf;
pub mod monomorphization;
pub mod name_generator;
pub mod name_resolution;
pub mod pp;
pub mod subst;
pub mod text;
pub mod ty;
pub mod tyck;
pub mod typed_atom;
pub mod uncurry;
