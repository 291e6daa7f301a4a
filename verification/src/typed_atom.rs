//! Atoms carrying their types, shared by the normalized forms.

use vstd::prelude::*;

verus! {

use crate::ast::ASTAtom;
use crate::name_resolution::ResolvedIdent;
use crate::ty::Ty;

/// An atom over resolved identifiers.
pub type Atom = ASTAtom<ResolvedIdent>;

impl Clone for ASTAtom<ResolvedIdent> {
    fn clone(&self) -> (r: ASTAtom<ResolvedIdent>)
        ensures
            r == *self,
    {
        match self {
            ASTAtom::Int(i) => ASTAtom::Int(*i),
            ASTAtom::Bool(b) => ASTAtom::Bool(*b),
            ASTAtom::Unit => ASTAtom::Unit,
            ASTAtom::Var(v) => ASTAtom::Var(v.clone()),
            ASTAtom::Op(o) => ASTAtom::Op(*o),
        }
    }
}

/// An atom together with its type.
pub struct TypedAtom {
    pub atom: Atom,
    pub ty: Ty,
}

impl Clone for TypedAtom {
    fn clone(&self) -> (r: TypedAtom)
        ensures
            r == *self,
    {
        TypedAtom { atom: self.atom.clone(), ty: self.ty.clone() }
    }
}

} // verus!
