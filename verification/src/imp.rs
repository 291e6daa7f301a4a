//! The imperative target layer: C types and C variables.

use vstd::prelude::*;

verus! {

use vstd::string::StringExecFns;
use crate::errors::BackendError;
use crate::name_resolution::NameIdentifier;
use crate::name_resolution::ResolvedIdent;
use crate::text::dec_of;
use crate::text::u64_to_string;
use crate::ty::Ty;
use crate::ty::mangle_of;

/// A C type as the emitter writes it.
pub enum ImpType {
    Int,
    Void,
    Struct(String),
    Ptr(Box<ImpType>),
    ClosureContextOf(String),
    ClosureStruct,
}

/// The textual form of a C type.
pub open spec fn imp_display_of(t: ImpType) -> Seq<char>
    decreases t,
{
    match t {
        ImpType::Int => "int"@,
        ImpType::Void => "void"@,
        ImpType::Struct(n) => "struct "@ + n@,
        ImpType::Ptr(inner) => imp_display_of(*inner) + "*"@,
        ImpType::ClosureContextOf(n) => "clos_env_"@ + n@,
        ImpType::ClosureStruct => "__closure"@,
    }
}

/// How a source type lowers to a C type: integers and booleans are
/// `int`, unit is `void`, arrows are closure pointers, and a type
/// variable has no lowering.
pub open spec fn imp_of(t: Ty) -> Option<ImpType> {
    match t {
        Ty::Int => Some(ImpType::Int),
        Ty::Unit => Some(ImpType::Void),
        Ty::Bool => Some(ImpType::Int),
        Ty::Arrow(_, _) => Some(ImpType::Ptr(Box::new(ImpType::ClosureStruct))),
        Ty::Mono(_) => None,
    }
}

impl Clone for ImpType {
    fn clone(&self) -> (r: ImpType)
        ensures
            r == *self,
        decreases self,
    {
        match self {
            ImpType::Int => ImpType::Int,
            ImpType::Void => ImpType::Void,
            ImpType::Struct(n) => ImpType::Struct(n.clone()),
            ImpType::Ptr(inner) => ImpType::Ptr(Box::new((**inner).clone())),
            ImpType::ClosureContextOf(n) => ImpType::ClosureContextOf(n.clone()),
            ImpType::ClosureStruct => ImpType::ClosureStruct,
        }
    }
}

impl ImpType {
    /// A `void*`.
    pub fn void_ptr() -> (r: ImpType)
        ensures
            r == ImpType::Ptr(Box::new(ImpType::Void)),
    {
        ImpType::Ptr(Box::new(ImpType::Void))
    }

    /// Lower a source type; a type variable should have been
    /// monomorphized away and is reported as an error.
    pub fn from_type(ty: &Ty) -> (r: Result<ImpType, BackendError>)
        ensures
            match r {
                Ok(t) => imp_of(*ty) == Some(t),
                Err(e) => imp_of(*ty) is None && e is ImpError,
            },
    {
        match ty {
            Ty::Int => Ok(ImpType::Int),
            Ty::Unit => Ok(ImpType::Void),
            Ty::Bool => Ok(ImpType::Int),
            Ty::Arrow(_, _) => Ok(ImpType::Ptr(Box::new(ImpType::ClosureStruct))),
            Ty::Mono(_) => {
                proof {
                    reveal_strlit("cannot lower a type variable");
                }
                Err(BackendError::ImpError(String::from_str("cannot lower a type variable")))
            },
        }
    }

    /// The textual form of this C type.
    pub fn show(&self) -> (r: String)
        ensures
            r@ == imp_display_of(*self),
        decreases self,
    {
        match self {
            ImpType::Int => String::from_str("int"),
            ImpType::Void => String::from_str("void"),
            ImpType::Struct(n) => {
                let mut s = String::from_str("struct ");
                s.append(n.as_str());
                proof {
                    assert(s@ =~= imp_display_of(*self));
                }
                s
            },
            ImpType::Ptr(inner) => {
                proof {
                    reveal_strlit("*");
                }
                let mut s = inner.show();
                s.append("*");
                proof {
                    assert(s@ =~= imp_display_of(*self));
                }
                s
            },
            ImpType::ClosureContextOf(n) => {
                let mut s = String::from_str("clos_env_");
                s.append(n.as_str());
                proof {
                    assert(s@ =~= imp_display_of(*self));
                }
                s
            },
            ImpType::ClosureStruct => String::from_str("__closure"),
        }
    }
}

/// The C rendering of an identifier token, injective by construction.
pub open spec fn id_render_of(id: NameIdentifier) -> Seq<char>
    decreases id,
{
    match id {
        NameIdentifier::Source(n) => dec_of(n as nat),
        NameIdentifier::Gen(s, c) => "g"@ + dec_of(s as nat) + "_"@ + dec_of(c as nat),
        NameIdentifier::Inst(b, t) => id_render_of(*b) + "__"@ + mangle_of(*t),
    }
}

/// Render an identifier token for use in a C name.
pub fn id_render(id: &NameIdentifier) -> (r: String)
    ensures
        r@ == id_render_of(*id),
    decreases id,
{
    match id {
        NameIdentifier::Source(n) => u64_to_string(*n),
        NameIdentifier::Gen(s, c) => {
            proof {
                reveal_strlit("g");
                reveal_strlit("_");
            }
            let mut r = String::from_str("g");
            r.append(u64_to_string(*s).as_str());
            r.append("_");
            r.append(u64_to_string(*c).as_str());
            proof {
                assert(r@ =~= id_render_of(*id));
            }
            r
        },
        NameIdentifier::Inst(b, t) => {
            proof {
                reveal_strlit("__");
            }
            let mut r = id_render(b);
            r.append("__");
            r.append(t.mangle().as_str());
            proof {
                assert(r@ =~= id_render_of(*id));
            }
            r
        },
    }
}

/// A C variable: its name and C type.
pub struct ImpVar {
    pub name: String,
    pub ty: ImpType,
}

impl Clone for ImpVar {
    fn clone(&self) -> (r: ImpVar)
        ensures
            r == *self,
    {
        ImpVar { name: self.name.clone(), ty: self.ty.clone() }
    }
}

/// The C name of a source identifier: its surface name and its
/// rendered token, joined by an underscore.
pub open spec fn imp_name_of(ident: ResolvedIdent) -> Seq<char> {
    ident.name@ + "_"@ + id_render_of(ident.id)
}

impl ImpVar {
    /// The C variable for a typed identifier.
    pub fn from_typed_ident(p: &(ResolvedIdent, Ty)) -> (r: Result<ImpVar, BackendError>)
        ensures
            match r {
                Ok(v) => v.name@ == imp_name_of(p.0) && imp_of(p.1) == Some(v.ty),
                Err(e) => imp_of(p.1) is None && e is ImpError,
            },
    {
        let ty = match ImpType::from_type(&p.1) {
            Ok(t) => t,
            Err(e) => {
                return Err(e);
            },
        };
        proof {
            reveal_strlit("_");
        }
        let mut name = p.0.name.clone();
        name.append("_");
        name.append(id_render(&p.0.id).as_str());
        proof {
            assert(name@ =~= imp_name_of(p.0));
        }
        Ok(ImpVar { name, ty })
    }
}

} // verus!
