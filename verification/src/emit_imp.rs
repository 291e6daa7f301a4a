//! Lowering the closure-converted program to C statements: one lifted
//! function per global, then `main`, which prints the final value.

use vstd::prelude::*;

verus! {

use vstd::string::StringExecFns;
use crate::ast::ASTAtom;
use crate::ast::OpType;
use crate::closure::ClosureCExpr;
use crate::closure::ClosureExpr;
use crate::closure_conversion::ClosureProgram;
use crate::closure_conversion::ClosureProgramGlobal;
use crate::errors::BackendError;
use crate::imp::ImpType;
use crate::imp::ImpVar;
use crate::imp::id_render;
use crate::imp::imp_name_of;
use crate::imp::imp_of;
use crate::imp_builder::code_of;
use crate::imp_builder::FunctionHandle;
use crate::imp_builder::ImpBuilder;
use crate::imp_builder::ImpLine;
use crate::imp_builder::line_of;
use crate::text::i32_to_string;
use crate::ty::Ty;
use crate::ty::alist_get;
use crate::typed_atom::TypedAtom;

/// Anything that can be lowered to C statements against a builder.
pub trait EmitImp {
    type Output;

    fn emit_imp(&self, builder: &mut ImpBuilder) -> Result<Self::Output, BackendError>;
}

impl EmitImp for ClosureExpr {
    type Output = Option<ImpVar>;

    fn emit_imp(&self, builder: &mut ImpBuilder) -> Result<Option<ImpVar>, BackendError> {
        emit_expr(self, builder)
    }
}

impl EmitImp for ClosureCExpr {
    type Output = ImpVar;

    fn emit_imp(&self, builder: &mut ImpBuilder) -> Result<ImpVar, BackendError> {
        emit_cexpr(self, builder)
    }
}

impl EmitImp for TypedAtom {
    type Output = ImpVar;

    fn emit_imp(&self, builder: &mut ImpBuilder) -> Result<ImpVar, BackendError> {
        emit_atom(self, builder)
    }
}

/// `b` extends `a`: the old statements stand unchanged at the front.
pub open spec fn stmts_prefix(a: Seq<ImpLine>, b: Seq<ImpLine>) -> bool {
    a.len() <= b.len() && forall|i: int| 0 <= i < a.len() ==> #[trigger] b[i] == a[i]
}

/// The C spelling of a binary operator.
fn op_c(op: OpType) -> (r: &'static str) {
    match op {
        OpType::Add => "+",
        OpType::Sub => "-",
        OpType::Mul => "*",
        OpType::Div => "/",
        OpType::Eq => "==",
        OpType::Neq => "!=",
        OpType::Lt => "<",
        OpType::Gt => ">",
        OpType::Leq => "<=",
        OpType::Geq => ">=",
    }
}

/// Lower an atom: a literal becomes a fresh initialized temporary, a
/// variable resolves to its C binding.
fn emit_atom(atom: &TypedAtom, builder: &mut ImpBuilder) -> (r: Result<ImpVar, BackendError>)
    ensures
        r matches Err(e) ==> e is ImpError,
        (r is Err) == (atom.atom is Op || atom.atom is Unit || (atom.atom matches ASTAtom::Var(
            v0,
        ) && alist_get(old(builder).variables@, v0.id) is None)),
        r matches Ok(iv) ==> (atom.atom matches ASTAtom::Var(v) ==> alist_get(
            final(builder).variables@,
            v.id,
        ) == Some(iv) && final(builder).statements == old(builder).statements
            && final(builder).temp_counter == old(builder).temp_counter),
        atom.atom matches ASTAtom::Int(n) ==> (r matches Ok(iv2) && iv2.ty == ImpType::Int
            && iv2.name@ == "tmp"@ + crate::text::dec_of(old(builder).temp_counter as nat)
            && final(builder).statements@.len() == old(builder).statements@.len() + 2
            && stmts_prefix(old(builder).statements@, final(builder).statements@) && line_of(
            final(builder).statements@[old(builder).statements@.len() as int],
        ) == crate::text::spaces_of(crate::imp_builder::pad_of(old(builder).indent_level))
            + crate::imp_builder::init_line_of(iv2) && line_of(
            final(builder).statements@[old(builder).statements@.len() as int + 1],
        ) == crate::text::spaces_of(crate::imp_builder::pad_of(old(builder).indent_level))
            + iv2.name@ + " = "@ + crate::text::int_dec_of(n as int) + ";"@),
        atom.atom matches ASTAtom::Bool(b) ==> (r matches Ok(iv3) && iv3.ty == ImpType::Int
            && iv3.name@ == "tmp"@ + crate::text::dec_of(old(builder).temp_counter as nat)
            && final(builder).statements@.len() == old(builder).statements@.len() + 2
            && stmts_prefix(old(builder).statements@, final(builder).statements@) && line_of(
            final(builder).statements@[old(builder).statements@.len() as int],
        ) == crate::text::spaces_of(crate::imp_builder::pad_of(old(builder).indent_level))
            + crate::imp_builder::init_line_of(iv3) && line_of(
            final(builder).statements@[old(builder).statements@.len() as int + 1],
        ) == crate::text::spaces_of(crate::imp_builder::pad_of(old(builder).indent_level))
            + iv3.name@ + (if b {
            " = 1;"@
        } else {
            " = 0;"@
        })),
        stmts_prefix(old(builder).statements@, final(builder).statements@),
        final(builder).variables == old(builder).variables,
        final(builder).functions == old(builder).functions,
        final(builder).indent_level == old(builder).indent_level,
        final(builder).context_map == old(builder).context_map,
{
    match &atom.atom {
        ASTAtom::Int(num) => {
            let imp_var = builder.fresh_imp_var(ImpType::Int);
            builder.initialize_var(imp_var.clone());
            proof {
                reveal_strlit(" = ");
                reveal_strlit(";");
            }
            let mut line = imp_var.name.clone();
            line.append(" = ");
            line.append(i32_to_string(*num).as_str());
            line.append(";");
            proof {
                assert(line@ =~= imp_var.name@ + " = "@ + crate::text::int_dec_of(
                    *num as int,
                ) + ";"@);
            }
            builder.emit(line);
            Ok(imp_var)
        },
        ASTAtom::Bool(b) => {
            let imp_var = builder.fresh_imp_var(ImpType::Int);
            builder.initialize_var(imp_var.clone());
            proof {
                reveal_strlit(" = 1;");
                reveal_strlit(" = 0;");
            }
            let mut line = imp_var.name.clone();
            if *b {
                line.append(" = 1;");
            } else {
                line.append(" = 0;");
            }
            proof {
                assert(line@ =~= imp_var.name@ + (if *b {
                    " = 1;"@
                } else {
                    " = 0;"@
                }));
            }
            builder.emit(line);
            Ok(imp_var)
        },
        ASTAtom::Var(var) => builder.resolve_var(&var.id),
        ASTAtom::Op(_) => {
            proof {
                reveal_strlit("operator outside an application");
            }
            Err(BackendError::ImpError(String::from_str("operator outside an application")))
        },
        ASTAtom::Unit => {
            proof {
                reveal_strlit("a unit value has no lowering");
            }
            Err(BackendError::ImpError(String::from_str("a unit value has no lowering")))
        },
    }
}

/// Lower a computation form, returning the C variable holding its
/// value.
fn emit_cexpr(cexpr: &ClosureCExpr, builder: &mut ImpBuilder) -> (r: Result<
    ImpVar,
    BackendError,
>)
    ensures
        r matches Err(e) ==> e is ImpError,
        final(builder).functions == old(builder).functions,
        stmts_prefix(old(builder).statements@, final(builder).statements@),
    decreases cexpr, 0int,
{
    match cexpr {
        ClosureCExpr::Atom(atom) => emit_atom(atom, builder),
        ClosureCExpr::Apply { func, args, ty } => {
            let mut call_args: Vec<ImpVar> = Vec::new();
            let mut i: usize = 0;
            while i < args.len()
                invariant
                    builder.functions == old(builder).functions,
                    stmts_prefix(old(builder).statements@, builder.statements@),
                decreases args@.len() - i,
            {
                let arg_var = match emit_atom(&args[i], builder) {
                    Ok(v) => v,
                    Err(e) => {
                        return Err(e);
                    },
                };
                call_args.push(arg_var);
                i = i + 1;
            }
            let result_ty = match ImpType::from_type(ty) {
                Ok(t) => t,
                Err(e) => {
                    return Err(e);
                },
            };
            let result = builder.fresh_imp_var(result_ty);
            proof {
                reveal_strlit(" ");
                reveal_strlit(";");
            }
            let mut decl = result.ty.show();
            decl.append(" ");
            decl.append(result.name.as_str());
            decl.append(";");
            builder.emit(decl);
            match &func.atom {
                ASTAtom::Var(var) => {
                    let clos_var = match builder.resolve_var(&var.id) {
                        Ok(v) => v,
                        Err(e) => {
                            return Err(e);
                        },
                    };
                    // the cast signature of the function pointer
                    proof {
                        reveal_strlit(" (*)(void*, ");
                        reveal_strlit(", ");
                        reveal_strlit(")");
                    }
                    let mut sig = result.ty.show();
                    sig.append(" (*)(void*, ");
                    let mut j: usize = 0;
                    while j < args.len()
                        invariant
                            builder.functions == old(builder).functions,
                            stmts_prefix(old(builder).statements@, builder.statements@),
                        decreases args@.len() - j,
                    {
                        if j > 0 {
                            sig.append(", ");
                        }
                        let aty = match ImpType::from_type(&args[j].ty) {
                            Ok(t) => t,
                            Err(e) => {
                                return Err(e);
                            },
                        };
                        sig.append(aty.show().as_str());
                        j = j + 1;
                    }
                    sig.append(")");
                    proof {
                        reveal_strlit(" = ((");
                        reveal_strlit(") ");
                        reveal_strlit("->func)(");
                        reveal_strlit("->env, ");
                        reveal_strlit(", ");
                        reveal_strlit(");");
                    }
                    let mut line = result.name.clone();
                    line.append(" = ((");
                    line.append(sig.as_str());
                    line.append(") ");
                    line.append(clos_var.name.as_str());
                    line.append("->func)(");
                    line.append(clos_var.name.as_str());
                    line.append("->env, ");
                    let mut k: usize = 0;
                    while k < call_args.len()
                        decreases call_args@.len() - k,
                    {
                        if k > 0 {
                            line.append(", ");
                        }
                        line.append(call_args[k].name.as_str());
                        k = k + 1;
                    }
                    line.append(");");
                    builder.emit(line);
                    Ok(result)
                },
                ASTAtom::Op(op) => {
                    if call_args.len() != 2 {
                        proof {
                            reveal_strlit("an operator takes two arguments");
                        }
                        return Err(
                            BackendError::ImpError(
                                String::from_str("an operator takes two arguments"),
                            ),
                        );
                    }
                    proof {
                        reveal_strlit(" = ");
                        reveal_strlit(" ");
                        reveal_strlit(";");
                    }
                    let mut line = result.name.clone();
                    line.append(" = ");
                    line.append(call_args[0].name.as_str());
                    line.append(" ");
                    line.append(op_c(*op));
                    line.append(" ");
                    line.append(call_args[1].name.as_str());
                    line.append(";");
                    builder.emit(line);
                    Ok(result)
                },
                _ => {
                    proof {
                        reveal_strlit("cannot apply a non-function");
                    }
                    Err(BackendError::ImpError(String::from_str("cannot apply a non-function")))
                },
            }
        },
        ClosureCExpr::If { cond, then, else_, ty } => {
            let phi_ty = match ImpType::from_type(ty) {
                Ok(t) => t,
                Err(e) => {
                    return Err(e);
                },
            };
            let phi_var = builder.fresh_imp_var(phi_ty);
            builder.initialize_var(phi_var.clone());
            let cond_atom = TypedAtom { atom: cond.clone(), ty: Ty::Bool };
            let cond_var = match emit_atom(&cond_atom, builder) {
                Ok(v) => v,
                Err(e) => {
                    return Err(e);
                },
            };
            proof {
                reveal_strlit("if (");
                reveal_strlit(") {");
            }
            let mut line = String::from_str("if (");
            line.append(cond_var.name.as_str());
            line.append(") {");
            builder.emit(line);
            builder.push_scope();
            let then_var = match emit_expr(then, builder) {
                Ok(Some(v)) => v,
                Ok(None) => {
                    proof {
                        reveal_strlit("a branch produced no value");
                    }
                    return Err(
                        BackendError::ImpError(String::from_str("a branch produced no value")),
                    );
                },
                Err(e) => {
                    return Err(e);
                },
            };
            proof {
                reveal_strlit(" = ");
                reveal_strlit(";");
            }
            let mut assign = phi_var.name.clone();
            assign.append(" = ");
            assign.append(then_var.name.as_str());
            assign.append(";");
            builder.emit(assign);
            builder.pop_scope();
            proof {
                reveal_strlit("} else {");
            }
            builder.emit(String::from_str("} else {"));
            builder.push_scope();
            let else_var = match emit_expr(else_, builder) {
                Ok(Some(v)) => v,
                Ok(None) => {
                    proof {
                        reveal_strlit("a branch produced no value");
                    }
                    return Err(
                        BackendError::ImpError(String::from_str("a branch produced no value")),
                    );
                },
                Err(e) => {
                    return Err(e);
                },
            };
            let mut assign2 = phi_var.name.clone();
            proof {
                reveal_strlit(" = ");
                reveal_strlit(";");
            }
            assign2.append(" = ");
            assign2.append(else_var.name.as_str());
            assign2.append(";");
            builder.emit(assign2);
            builder.pop_scope();
            proof {
                reveal_strlit("}");
            }
            builder.emit(String::from_str("}"));
            Ok(phi_var)
        },
        ClosureCExpr::Closure(_) => {
            proof {
                reveal_strlit("a closure value outside a binding");
            }
            Err(BackendError::ImpError(String::from_str("a closure value outside a binding")))
        },
    }
}

/// Lower an expression; a let binds its value's C variable, and a
/// closure binding allocates and fills its environment, binding the
/// closure before the captures so it can capture itself.
fn emit_expr(expr: &ClosureExpr, builder: &mut ImpBuilder) -> (r: Result<
    Option<ImpVar>,
    BackendError,
>)
    ensures
        r matches Err(e) ==> e is ImpError,
        final(builder).functions == old(builder).functions,
        stmts_prefix(old(builder).statements@, final(builder).statements@),
    decreases expr, 1int,
{
    match expr {
        ClosureExpr::CExpr(cexp) => {
            let v = match emit_cexpr(cexp, builder) {
                Ok(v) => v,
                Err(e) => {
                    return Err(e);
                },
            };
            Ok(Some(v))
        },
        ClosureExpr::Let { bind, value, body, ty: _ } => {
            match &**value {
                ClosureCExpr::Closure(clos) => {
                    proof {
                        reveal_strlit("_");
                        reveal_strlit("_clos");
                    }
                    let mut clos_name = bind.name.clone();
                    clos_name.append("_");
                    clos_name.append(id_render(&bind.id).as_str());
                    clos_name.append("_clos");
                    let clos_var = ImpVar { name: clos_name, ty: ImpType::ClosureStruct };
                    let env_var = builder.fresh_imp_var(
                        ImpType::ClosureContextOf(clos.global_name.clone()),
                    );
                    builder.initialize_var(env_var.clone());
                    builder.initialize_var(clos_var.clone());
                    builder.push_var(&bind.id, clos_var.clone());
                    let mut i: usize = 0;
                    while i < clos.capture.len()
                        invariant
                            builder.functions == old(builder).functions,
                            stmts_prefix(old(builder).statements@, builder.statements@),
                        decreases clos.capture@.len() - i,
                    {
                        let imp_arg = match ImpVar::from_typed_ident(&clos.capture[i]) {
                            Ok(v) => v,
                            Err(e) => {
                                return Err(e);
                            },
                        };
                        let src = match builder.resolve_var(&clos.capture[i].0.id) {
                            Ok(v) => v,
                            Err(e) => {
                                return Err(e);
                            },
                        };
                        proof {
                            reveal_strlit("->");
                            reveal_strlit(" = ");
                            reveal_strlit(";");
                        }
                        let mut line = env_var.name.clone();
                        line.append("->");
                        line.append(imp_arg.name.as_str());
                        line.append(" = ");
                        line.append(src.name.as_str());
                        line.append(";");
                        builder.emit(line);
                        i = i + 1;
                    }
                    proof {
                        reveal_strlit("->func = (void *) ");
                        reveal_strlit("->env = (void *) ");
                        reveal_strlit(";");
                    }
                    let mut fline = clos_var.name.clone();
                    fline.append("->func = (void *) ");
                    fline.append(clos.global_name.as_str());
                    fline.append(";");
                    builder.emit(fline);
                    let mut eline = clos_var.name.clone();
                    eline.append("->env = (void *) ");
                    eline.append(env_var.name.as_str());
                    eline.append(";");
                    builder.emit(eline);
                    emit_expr(body, builder)
                },
                _ => {
                    let value_var = match emit_cexpr(value, builder) {
                        Ok(v) => v,
                        Err(e) => {
                            return Err(e);
                        },
                    };
                    builder.push_var(&bind.id, value_var);
                    emit_expr(body, builder)
                },
            }
        },
    }
}

/// The registered function table entry a lifted function produces:
/// its C name is the global name; its return, parameter and capture
/// types are the lowerings of the closure record's, with parameter and
/// capture names derived from the source identifiers.
pub open spec fn handle_matches(f: (String, FunctionHandle), g: ClosureProgramGlobal) -> bool {
    match g {
        ClosureProgramGlobal::FuncDef { closure, .. } => {
            &&& f.0@ == closure.global_name@
            &&& f.1.name@ == closure.global_name@
            &&& imp_of(closure.ret_ty) == Some(f.1.ret_ty)
            &&& f.1.args@.len() == closure.args@.len()
            &&& (forall|j: int|
                0 <= j < closure.args@.len() ==> (#[trigger] f.1.args@[j]).name@ == imp_name_of(
                    closure.args@[j].0,
                ) && imp_of(closure.args@[j].1) == Some(f.1.args@[j].ty))
            &&& f.1.captures@.len() == closure.capture@.len()
            &&& (forall|j: int|
                0 <= j < closure.capture@.len() ==> (#[trigger] f.1.captures@[j]).name@
                    == imp_name_of(closure.capture@[j].0) && imp_of(closure.capture@[j].1)
                    == Some(f.1.captures@[j].ty))
        },
    }
}

/// Emit the whole program: every lifted function, then `main`, which
/// prints the final integer value; render the translation unit.
pub fn emit_imp(program: ClosureProgram) -> (r: Result<String, BackendError>)
    ensures
        r matches Err(e) ==> e is ImpError,
        r matches Ok(s2) ==> exists|fns: Seq<(String, FunctionHandle)>, lines: Seq<ImpLine>|
            #![trigger code_of(fns, lines)]
            s2@ == code_of(fns, lines) && fns.len() == program.globals@.len() && (forall|k: int|
                0 <= k < fns.len() ==> handle_matches(#[trigger] fns[k], program.globals@[k])),
{
    let mut builder = ImpBuilder::new();
    let mut g: usize = 0;
    let globals = program.globals;
    while g < globals.len()
        invariant
            g <= globals@.len(),
            globals@ == program.globals@,
            builder.functions@.len() == g,
            forall|k: int|
                0 <= k < g ==> handle_matches(#[trigger] builder.functions@[k], globals@[k]),
        decreases globals@.len() - g,
    {
        let ghost fns_start = builder.functions@;
        match &globals[g] {
            ClosureProgramGlobal::FuncDef { closure, body } => {
                let ret_imp = match ImpType::from_type(&closure.ret_ty) {
                    Ok(t) => t,
                    Err(e) => {
                        return Err(e);
                    },
                };
                // the signature line
                proof {
                    reveal_strlit(" ");
                    reveal_strlit("(void* __env");
                    reveal_strlit(", ");
                    reveal_strlit(") {");
                }
                let mut sig = ret_imp.show();
                sig.append(" ");
                sig.append(closure.global_name.as_str());
                sig.append("(void* __env");
                let mut arg_vars: Vec<ImpVar> = Vec::new();
                let mut a: usize = 0;
                let ghost fns0 = builder.functions@;
                while a < closure.args.len()
                    invariant
                        a <= closure.args@.len(),
                        builder.functions@ == fns0,
                        arg_vars@.len() == a,
                        forall|j: int|
                            0 <= j < a ==> (#[trigger] arg_vars@[j]).name@ == imp_name_of(
                                closure.args@[j].0,
                            ) && imp_of(closure.args@[j].1) == Some(arg_vars@[j].ty),
                    decreases closure.args@.len() - a,
                {
                    let iv = match ImpVar::from_typed_ident(&closure.args[a]) {
                        Ok(v) => v,
                        Err(e) => {
                            return Err(e);
                        },
                    };
                    proof {
                        reveal_strlit(", ");
                        reveal_strlit(" ");
                    }
                    sig.append(", ");
                    sig.append(iv.ty.show().as_str());
                    sig.append(" ");
                    sig.append(iv.name.as_str());
                    arg_vars.push(iv);
                    a = a + 1;
                }
                sig.append(") {");
                builder.emit(sig);

                let mut cap_vars: Vec<ImpVar> = Vec::new();
                let mut c: usize = 0;
                while c < closure.capture.len()
                    invariant
                        c <= closure.capture@.len(),
                        builder.functions@ == fns0,
                        cap_vars@.len() == c,
                        forall|j: int|
                            0 <= j < c ==> (#[trigger] cap_vars@[j]).name@ == imp_name_of(
                                closure.capture@[j].0,
                            ) && imp_of(closure.capture@[j].1) == Some(cap_vars@[j].ty),
                    decreases closure.capture@.len() - c,
                {
                    let iv = match ImpVar::from_typed_ident(&closure.capture[c]) {
                        Ok(v) => v,
                        Err(e) => {
                            return Err(e);
                        },
                    };
                    cap_vars.push(iv);
                    c = c + 1;
                }
                builder.register_function(
                    closure.global_name.as_str(),
                    FunctionHandle {
                        name: closure.global_name.clone(),
                        args: arg_vars,
                        ret_ty: ret_imp,
                        captures: cap_vars,
                    },
                );
                proof {
                    assert(handle_matches(builder.functions@.last(), globals@[g as int]));
                    assert(builder.functions@.drop_last() =~= fns_start);
                }
                builder.push_scope();

                // parameters
                let mut a2: usize = 0;
                let ghost fns1 = builder.functions@;
                while a2 < closure.args.len()
                    invariant
                        builder.functions@ == fns1,
                    decreases closure.args@.len() - a2,
                {
                    let iv = match ImpVar::from_typed_ident(&closure.args[a2]) {
                        Ok(v) => v,
                        Err(e) => {
                            return Err(e);
                        },
                    };
                    builder.push_var(&closure.args[a2].0.id, iv);
                    a2 = a2 + 1;
                }

                // the environment cast
                let typed_env = builder.fresh_imp_var(
                    ImpType::ClosureContextOf(closure.global_name.clone()),
                );
                proof {
                    reveal_strlit("* ");
                    reveal_strlit(" = (");
                    reveal_strlit("*) __env;");
                }
                let mut cast = typed_env.ty.show();
                cast.append("* ");
                cast.append(typed_env.name.as_str());
                cast.append(" = (");
                cast.append(typed_env.ty.show().as_str());
                cast.append("*) __env;");
                builder.emit(cast);

                // captures loaded from the environment
                let mut c2: usize = 0;
                while c2 < closure.capture.len()
                    invariant
                        builder.functions@ == fns1,
                    decreases closure.capture@.len() - c2,
                {
                    let iv = match ImpVar::from_typed_ident(&closure.capture[c2]) {
                        Ok(v) => v,
                        Err(e) => {
                            return Err(e);
                        },
                    };
                    builder.initialize_var(iv.clone());
                    builder.push_var(&closure.capture[c2].0.id, iv.clone());
                    proof {
                        reveal_strlit(" = ");
                        reveal_strlit("->");
                        reveal_strlit(";");
                    }
                    let mut load = iv.name.clone();
                    load.append(" = ");
                    load.append(typed_env.name.as_str());
                    load.append("->");
                    load.append(iv.name.as_str());
                    load.append(";");
                    builder.emit(load);
                    c2 = c2 + 1;
                }

                // the body and its return
                let body_var = match emit_expr(body, &mut builder) {
                    Ok(Some(v)) => v,
                    Ok(None) => {
                        proof {
                            reveal_strlit("a function body produced no value");
                        }
                        return Err(
                            BackendError::ImpError(
                                String::from_str("a function body produced no value"),
                            ),
                        );
                    },
                    Err(e) => {
                        return Err(e);
                    },
                };
                proof {
                    reveal_strlit("return ");
                    reveal_strlit(";");
                    reveal_strlit("}\n");
                }
                let mut ret = String::from_str("return ");
                ret.append(body_var.name.as_str());
                ret.append(";");
                builder.emit(ret);
                builder.pop_scope();
                builder.emit(String::from_str("}\n"));
                proof {
                    assert(builder.functions@ == fns1);
                    assert forall|k: int|
                        0 <= k < g + 1 implies handle_matches(
                        #[trigger] builder.functions@[k],
                        globals@[k],
                    ) by {
                        if k < g {
                            assert(builder.functions@[k] == fns_start[k]);
                        } else {
                            assert(builder.functions@[k] == fns1.last());
                        }
                    }
                }
            },
        }
        g = g + 1;
    }

    match program.main {
        Some(main) => {
            proof {
                reveal_strlit("int main() {");
                reveal_strlit("printf(\"%d\\n\", ");
                reveal_strlit(");");
                reveal_strlit("}\n");
            }
            builder.emit(String::from_str("int main() {"));
            builder.push_scope();
            let main_var = match emit_expr(&main, &mut builder) {
                Ok(Some(v)) => v,
                Ok(None) => {
                    proof {
                        reveal_strlit("the main body produced no value");
                    }
                    return Err(
                        BackendError::ImpError(
                            String::from_str("the main body produced no value"),
                        ),
                    );
                },
                Err(e) => {
                    return Err(e);
                },
            };
            let mut pline = String::from_str("printf(\"%d\\n\", ");
            pline.append(main_var.name.as_str());
            pline.append(");");
            builder.emit(pline);
            builder.pop_scope();
            builder.emit(String::from_str("}\n"));
        },
        None => {
        },
    }
    let ghost fns_g = builder.functions@;
    let ghost lines_g = builder.statements@;
    let code = builder.into_code();
    proof {
        assert(code@ == code_of(fns_g, lines_g));
        assert(globals@.len() == program.globals@.len());
    }
    Ok(code)
}

} // verus!
