//! Pretty printing of atoms, operators and typed expressions, for
//! diagnostics.

use vstd::prelude::*;

verus! {

use vstd::string::StringExecFns;
use crate::ast::ASTAtom;
use crate::ast::ASTExpr;
use crate::ast::OpType;
use crate::text::int_dec_of;
use crate::text::i32_to_string;
use crate::text::spaces;
use crate::text::spaces_of;
use crate::ty::Ty;
use crate::ty::ty_display_of;
use crate::tyck::TypedASTExpr;
use crate::typed_atom::Atom;

/// The source spelling of an operator.
pub open spec fn op_display_of(op: OpType) -> Seq<char> {
    match op {
        OpType::Add => "+"@,
        OpType::Sub => "-"@,
        OpType::Mul => "*"@,
        OpType::Div => "/"@,
        OpType::Eq => "=="@,
        OpType::Neq => "!="@,
        OpType::Lt => "<"@,
        OpType::Gt => ">"@,
        OpType::Leq => "<="@,
        OpType::Geq => ">="@,
    }
}

/// Print an operator.
pub fn pretty_op(op: &OpType) -> (r: String)
    ensures
        r@ == op_display_of(*op),
{
    match op {
        OpType::Add => String::from_str("+"),
        OpType::Sub => String::from_str("-"),
        OpType::Mul => String::from_str("*"),
        OpType::Div => String::from_str("/"),
        OpType::Eq => String::from_str("=="),
        OpType::Neq => String::from_str("!="),
        OpType::Lt => String::from_str("<"),
        OpType::Gt => String::from_str(">"),
        OpType::Leq => String::from_str("<="),
        OpType::Geq => String::from_str(">="),
    }
}

/// The display of an atom: its literal, its name, or its operator.
pub open spec fn atom_display_of(a: Atom) -> Seq<char> {
    match a {
        ASTAtom::Int(i) => int_dec_of(i as int),
        ASTAtom::Bool(b) => if b {
            "true"@
        } else {
            "false"@
        },
        ASTAtom::Unit => "()"@,
        ASTAtom::Var(v) => v.name@,
        ASTAtom::Op(op) => op_display_of(op),
    }
}

/// Print an atom.
pub fn pretty_atom(atom: &Atom) -> (r: String)
    ensures
        r@ == atom_display_of(*atom),
{
    match atom {
        ASTAtom::Int(i) => i32_to_string(*i),
        ASTAtom::Bool(b) => {
            if *b {
                String::from_str("true")
            } else {
                String::from_str("false")
            }
        },
        ASTAtom::Unit => String::from_str("()"),
        ASTAtom::Var(v) => v.name.clone(),
        ASTAtom::Op(op) => pretty_op(op),
    }
}

/// Types that render as a type annotation.
pub trait TypeDisplay {
    /// The rendering.
    spec fn type_view(&self) -> Seq<char>;

    /// Render the annotation.
    fn format_type(&self) -> (r: String)
        ensures
            r@ == self.type_view(),
    ;
}

impl TypeDisplay for Ty {
    open spec fn type_view(&self) -> Seq<char> {
        " : "@ + ty_display_of(*self)
    }

    fn format_type(&self) -> (r: String)
        ensures
            r@ == self.type_view(),
    {
        proof {
            reveal_strlit(" : ");
        }
        let mut s = String::from_str(" : ");
        s.append(self.show().as_str());
        s
    }
}

impl TypeDisplay for Option<Ty> {
    open spec fn type_view(&self) -> Seq<char> {
        match self {
            Some(t) => " : "@ + ty_display_of(*t),
            None => Seq::empty(),
        }
    }

    fn format_type(&self) -> (r: String)
        ensures
            r@ == self.type_view(),
    {
        match self {
            Some(t) => t.format_type(),
            None => {
                let r = String::new();
                proof {
                    assert(r@ =~= self.type_view());
                }
                r
            },
        }
    }
}

/// The compact display of a typed expression.
pub open spec fn expr_display_of(e: TypedASTExpr) -> Seq<char>
    decreases e,
{
    match e {
        ASTExpr::Atom(a, _) => atom_display_of(a),
        ASTExpr::If { cond, then, else_, .. } => "if "@ + expr_display_of(*cond) + " then "@
            + expr_display_of(*then) + " else "@ + expr_display_of(*else_) + " end"@,
        ASTExpr::Let { bind, value, body, .. } => "let "@ + bind.0.name@ + " = "@
            + expr_display_of(*value) + " in "@ + expr_display_of(*body) + " end"@,
        ASTExpr::Apply { func, args, .. } => "("@ + expr_display_of(*func) + " "@
            + expr_display_of(*args) + ")"@,
        ASTExpr::Lambda { arg, body, .. } => "fun "@ + arg.0.name@ + " -> "@ + expr_display_of(
            *body,
        ),
    }
}

/// Print a typed expression, indented by `indent` spaces.
pub fn pretty_expr(expr: &TypedASTExpr, indent: usize) -> (r: String)
    ensures
        r@ == spaces_of(indent as nat) + expr_display_of(*expr),
{
    let mut s = spaces(indent);
    s.append(pretty_expr_inner(expr).as_str());
    s
}

fn pretty_expr_inner(expr: &TypedASTExpr) -> (r: String)
    ensures
        r@ == expr_display_of(*expr),
    decreases expr,
{
    match expr {
        ASTExpr::Atom(a, _) => pretty_atom(a),
        ASTExpr::If { cond, then, else_, .. } => {
            proof {
                reveal_strlit("if ");
                reveal_strlit(" then ");
                reveal_strlit(" else ");
                reveal_strlit(" end");
            }
            let mut s = String::from_str("if ");
            s.append(pretty_expr_inner(cond).as_str());
            s.append(" then ");
            s.append(pretty_expr_inner(then).as_str());
            s.append(" else ");
            s.append(pretty_expr_inner(else_).as_str());
            s.append(" end");
            proof {
                assert(s@ =~= expr_display_of(*expr));
            }
            s
        },
        ASTExpr::Let { bind, value, body, .. } => {
            proof {
                reveal_strlit("let ");
                reveal_strlit(" = ");
                reveal_strlit(" in ");
                reveal_strlit(" end");
            }
            let mut s = String::from_str("let ");
            s.append(bind.0.name.as_str());
            s.append(" = ");
            s.append(pretty_expr_inner(value).as_str());
            s.append(" in ");
            s.append(pretty_expr_inner(body).as_str());
            s.append(" end");
            proof {
                assert(s@ =~= expr_display_of(*expr));
            }
            s
        },
        ASTExpr::Apply { func, args, .. } => {
            proof {
                reveal_strlit("(");
                reveal_strlit(" ");
                reveal_strlit(")");
            }
            let mut s = String::from_str("(");
            s.append(pretty_expr_inner(func).as_str());
            s.append(" ");
            s.append(pretty_expr_inner(args).as_str());
            s.append(")");
            proof {
                assert(s@ =~= expr_display_of(*expr));
            }
            s
        },
        ASTExpr::Lambda { arg, body, .. } => {
            proof {
                reveal_strlit("fun ");
                reveal_strlit(" -> ");
            }
            let mut s = String::from_str("fun ");
            s.append(arg.0.name.as_str());
            s.append(" -> ");
            s.append(pretty_expr_inner(body).as_str());
            proof {
                assert(s@ =~= expr_display_of(*expr));
            }
            s
        },
    }
}

} // verus!
