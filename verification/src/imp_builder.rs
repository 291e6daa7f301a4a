//! The C code builder: tracked variable bindings, emitted statements,
//! a temporary-name counter, the table of lifted functions, and the
//! final rendering of the translation unit.

use vstd::prelude::*;

verus! {

use vstd::string::StringExecFns;
use crate::errors::BackendError;
use crate::imp::ImpType;
use crate::imp::ImpVar;
use crate::imp::imp_display_of;
use crate::name_resolution::NameIdentifier;
use crate::name_resolution::sat_inc;
use crate::text::dec_of;
use crate::text::spaces;
use crate::text::spaces_of;
use crate::text::u64_to_string;
use crate::ty::alist_get;

/// A registered lifted function: its C name, parameters, return type,
/// and capture list.
pub struct FunctionHandle {
    pub name: String,
    pub args: Vec<ImpVar>,
    pub ret_ty: ImpType,
    pub captures: Vec<ImpVar>,
}

/// One emitted line of C.
pub enum ImpLine {
    Text(String),
}

/// The text of an emitted line.
pub open spec fn line_of(l: ImpLine) -> Seq<char> {
    match l {
        ImpLine::Text(s) => s@,
    }
}

/// The builder state.
pub struct ImpBuilder {
    pub variables: Vec<(NameIdentifier, ImpVar)>,
    pub statements: Vec<ImpLine>,
    pub temp_counter: u64,
    pub functions: Vec<(String, FunctionHandle)>,
    pub indent_level: usize,
    pub closures: Vec<(String, (String, Vec<ImpVar>))>,
    pub context_map: Vec<(String, String)>,
}

/// The indentation width of a nesting level, four spaces per level.
pub open spec fn pad_of(level: usize) -> nat {
    if level <= 16000 {
        (level * 4) as nat
    } else {
        64000
    }
}

/// The declaration text of a C variable: its type and name.
pub open spec fn var_decl_of(v: ImpVar) -> Seq<char> {
    imp_display_of(v.ty) + " "@ + v.name@
}

/// The capture fields of an environment struct.
pub open spec fn caps_fields_of(caps: Seq<ImpVar>) -> Seq<char>
    decreases caps.len(),
{
    if caps.len() == 0 {
        Seq::empty()
    } else if caps.len() == 1 {
        var_decl_of(caps[0])
    } else {
        caps_fields_of(caps.drop_last()) + ";\n    "@ + var_decl_of(caps.last())
    }
}

/// The environment struct of one lifted function.
pub open spec fn env_struct_of(name: Seq<char>, caps: Seq<ImpVar>) -> Seq<char> {
    "\ntypedef struct {\n    "@ + caps_fields_of(caps) + ";\n} clos_env_"@ + name + ";\n\n"@
}

/// A comma-separated parameter list.
pub open spec fn args_sig_of(args: Seq<ImpVar>) -> Seq<char>
    decreases args.len(),
{
    if args.len() == 0 {
        Seq::empty()
    } else if args.len() == 1 {
        var_decl_of(args[0])
    } else {
        args_sig_of(args.drop_last()) + ", "@ + var_decl_of(args.last())
    }
}

/// The forward declaration of one lifted function.
pub open spec fn decl_of(h: FunctionHandle) -> Seq<char> {
    imp_display_of(h.ret_ty) + " "@ + h.name@ + "(void* __env, "@ + args_sig_of(h.args@)
        + ");\n"@
}

/// All environment structs, in registration order.
pub open spec fn structs_of(fns: Seq<(String, FunctionHandle)>) -> Seq<char>
    decreases fns.len(),
{
    if fns.len() == 0 {
        Seq::empty()
    } else {
        structs_of(fns.drop_last()) + env_struct_of(fns.last().0@, fns.last().1.captures@)
    }
}

/// All forward declarations, in registration order.
pub open spec fn decls_of(fns: Seq<(String, FunctionHandle)>) -> Seq<char>
    decreases fns.len(),
{
    if fns.len() == 0 {
        Seq::empty()
    } else {
        decls_of(fns.drop_last()) + decl_of(fns.last().1)
    }
}

/// All emitted statements, one line each.
pub open spec fn stmts_of(lines: Seq<ImpLine>) -> Seq<char>
    decreases lines.len(),
{
    if lines.len() == 0 {
        Seq::empty()
    } else {
        stmts_of(lines.drop_last()) + line_of(lines.last()) + "\n"@
    }
}

/// The whole translation unit: includes, the closure typedef, the
/// environment structs, the forward declarations, and the statements.
pub open spec fn code_of(fns: Seq<(String, FunctionHandle)>, lines: Seq<ImpLine>) -> Seq<char> {
    "#include <stdio.h>\n#include <stdlib.h>\n"@
        + "\ntypedef struct {\n    void* func;\n    void* env;\n} __closure;\n"@ + structs_of(fns)
        + decls_of(fns) + stmts_of(lines)
}

/// Look a name up in the closure context map.
pub open spec fn ctxmap_get(s: Seq<(String, String)>, n: Seq<char>) -> Option<Seq<char>>
    decreases s.len(),
{
    if s.len() == 0 {
        None
    } else if s.last().0@ == n {
        Some(s.last().1@)
    } else {
        ctxmap_get(s.drop_last(), n)
    }
}

/// The line an `initialize_var` call emits: closure environments and
/// closure structs are heap-allocated, anything else is declared.
pub open spec fn init_line_of(v: ImpVar) -> Seq<char> {
    if v.ty is ClosureContextOf || v.ty is ClosureStruct {
        imp_display_of(v.ty) + "* "@ + v.name@ + " = malloc(sizeof("@ + imp_display_of(v.ty)
            + "));"@
    } else {
        imp_display_of(v.ty) + " "@ + v.name@ + ";"@
    }
}

impl ImpBuilder {
    /// An empty builder.
    pub fn new() -> (r: ImpBuilder)
        ensures
            r.variables@.len() == 0,
            r.statements@.len() == 0,
            r.temp_counter == 0,
            r.functions@.len() == 0,
            r.indent_level == 0,
            r.closures@.len() == 0,
            r.context_map@.len() == 0,
    {
        ImpBuilder {
            variables: Vec::new(),
            statements: Vec::new(),
            temp_counter: 0,
            functions: Vec::new(),
            indent_level: 0,
            closures: Vec::new(),
            context_map: Vec::new(),
        }
    }

    /// A fresh temporary C variable `tmp<n>`.
    pub fn fresh_imp_var(&mut self, ty: ImpType) -> (r: ImpVar)
        ensures
            r.name@ == "tmp"@ + dec_of(old(self).temp_counter as nat),
            r.ty == ty,
            final(self).temp_counter == sat_inc(old(self).temp_counter),
            final(self).variables == old(self).variables,
            final(self).statements == old(self).statements,
            final(self).functions == old(self).functions,
            final(self).indent_level == old(self).indent_level,
            final(self).context_map == old(self).context_map,
    {
        proof {
            reveal_strlit("tmp");
        }
        let mut name = String::from_str("tmp");
        name.append(u64_to_string(self.temp_counter).as_str());
        if self.temp_counter < u64::MAX {
            self.temp_counter = self.temp_counter + 1;
        }
        ImpVar { name, ty }
    }

    /// Add a C statement at the current indentation.
    pub fn emit(&mut self, stmt: String)
        ensures
            final(self).statements@.len() == old(self).statements@.len() + 1,
            final(self).statements@ == old(self).statements@.push(
                ImpLine::Text(final(self).statements@.last()->Text_0),
            ),
            line_of(final(self).statements@.last()) == spaces_of(pad_of(old(self).indent_level))
                + stmt@,
            final(self).variables == old(self).variables,
            final(self).temp_counter == old(self).temp_counter,
            final(self).functions == old(self).functions,
            final(self).indent_level == old(self).indent_level,
            final(self).context_map == old(self).context_map,
    {
        let pad: usize = if self.indent_level <= 16000 {
            self.indent_level * 4
        } else {
            64000
        };
        let mut line = spaces(pad);
        line.append(stmt.as_str());
        self.statements.push(ImpLine::Text(line));
    }

    /// The C variable bound to a source identifier.
    pub fn resolve_var(&self, var: &NameIdentifier) -> (r: Result<ImpVar, BackendError>)
        ensures
            match r {
                Ok(v) => alist_get(self.variables@, *var) == Some(v),
                Err(e) => alist_get(self.variables@, *var) is None && e is ImpError,
            },
    {
        let n = self.variables.len();
        let mut i: usize = n;
        proof {
            assert(self.variables@.take(n as int) =~= self.variables@);
        }
        while i > 0
            invariant
                i <= self.variables@.len(),
                alist_get(self.variables@, *var) == alist_get(
                    self.variables@.take(i as int),
                    *var,
                ),
            decreases i,
        {
            proof {
                assert(self.variables@.take(i as int).drop_last() =~= self.variables@.take(
                    i as int - 1,
                ));
            }
            if self.variables[i - 1].0.eq_id(var) {
                return Ok(self.variables[i - 1].1.clone());
            }
            i = i - 1;
        }
        proof {
            assert(self.variables@.take(0) =~= Seq::<(NameIdentifier, ImpVar)>::empty());
        }
        proof {
            reveal_strlit("variable not found in the current scope");
        }
        Err(BackendError::ImpError(String::from_str("variable not found in the current scope")))
    }

    /// Declare a C variable; closure environments and closure structs
    /// are heap-allocated.
    pub fn initialize_var(&mut self, imp_var: ImpVar)
        ensures
            final(self).statements@.len() == old(self).statements@.len() + 1,
            line_of(final(self).statements@.last()) == spaces_of(pad_of(old(self).indent_level))
                + init_line_of(imp_var),
            final(self).statements@.drop_last() == old(self).statements@,
            final(self).variables == old(self).variables,
            final(self).temp_counter == old(self).temp_counter,
            final(self).functions == old(self).functions,
            final(self).indent_level == old(self).indent_level,
            final(self).context_map == old(self).context_map,
    {
        let should_initialize = match &imp_var.ty {
            ImpType::ClosureContextOf(_) => true,
            ImpType::ClosureStruct => true,
            _ => false,
        };
        proof {
            reveal_strlit("* ");
            reveal_strlit(" = malloc(sizeof(");
            reveal_strlit("));");
            reveal_strlit(" ");
            reveal_strlit(";");
        }
        if should_initialize {
            let mut line = imp_var.ty.show();
            line.append("* ");
            line.append(imp_var.name.as_str());
            line.append(" = malloc(sizeof(");
            line.append(imp_var.ty.show().as_str());
            line.append("));");
            proof {
                assert(line@ =~= init_line_of(imp_var));
            }
            self.emit(line);
            proof {
                assert(final(self).statements@.drop_last() =~= old(self).statements@);
            }
        } else {
            let mut line = imp_var.ty.show();
            line.append(" ");
            line.append(imp_var.name.as_str());
            line.append(";");
            proof {
                assert(line@ =~= init_line_of(imp_var));
            }
            self.emit(line);
            proof {
                assert(final(self).statements@.drop_last() =~= old(self).statements@);
            }
        }
    }

    /// Bind a source identifier to a C variable.
    pub fn push_var(&mut self, anf_var: &NameIdentifier, imp_var: ImpVar)
        ensures
            final(self).variables@ == old(self).variables@.push((*anf_var, imp_var)),
            final(self).statements == old(self).statements,
            final(self).temp_counter == old(self).temp_counter,
            final(self).functions == old(self).functions,
            final(self).indent_level == old(self).indent_level,
            final(self).context_map == old(self).context_map,
    {
        self.variables.push((anf_var.clone(), imp_var));
    }

    /// Enter a nested block.
    pub fn push_scope(&mut self)
        ensures
            final(self).indent_level as int == if old(self).indent_level < usize::MAX {
                old(self).indent_level + 1
            } else {
                old(self).indent_level as int
            },
            final(self).variables == old(self).variables,
            final(self).statements == old(self).statements,
            final(self).temp_counter == old(self).temp_counter,
            final(self).functions == old(self).functions,
            final(self).context_map == old(self).context_map,
    {
        if self.indent_level < usize::MAX {
            self.indent_level = self.indent_level + 1;
        }
    }

    /// Leave a nested block.
    pub fn pop_scope(&mut self)
        ensures
            final(self).indent_level == if old(self).indent_level > 0 {
                (old(self).indent_level - 1) as usize
            } else {
                0usize
            },
            final(self).variables == old(self).variables,
            final(self).statements == old(self).statements,
            final(self).temp_counter == old(self).temp_counter,
            final(self).functions == old(self).functions,
            final(self).context_map == old(self).context_map,
    {
        if self.indent_level > 0 {
            self.indent_level = self.indent_level - 1;
        }
    }

    /// Register a lifted function for declaration emission.
    pub fn register_function(&mut self, name: &str, handle: FunctionHandle)
        ensures
            final(self).functions@.len() == old(self).functions@.len() + 1,
            final(self).functions@.drop_last() == old(self).functions@,
            final(self).functions@.last().0@ == name@,
            final(self).functions@.last().1 == handle,
            final(self).variables == old(self).variables,
            final(self).statements == old(self).statements,
            final(self).temp_counter == old(self).temp_counter,
            final(self).indent_level == old(self).indent_level,
            final(self).context_map == old(self).context_map,
    {
        self.functions.push((String::from_str(name), handle));
        proof {
            assert(final(self).functions@.drop_last() =~= old(self).functions@);
        }
    }

    /// Record which environment struct a closure name uses.
    pub fn register_closure(&mut self, name: &str, clos_name: &str, args: Vec<ImpVar>)
        ensures
            final(self).context_map@.len() == old(self).context_map@.len() + 1,
            final(self).context_map@.last().0@ == name@,
            final(self).context_map@.last().1@ == clos_name@,
            final(self).context_map@.drop_last() == old(self).context_map@,
            final(self).variables == old(self).variables,
            final(self).statements == old(self).statements,
            final(self).temp_counter == old(self).temp_counter,
            final(self).functions == old(self).functions,
            final(self).indent_level == old(self).indent_level,
    {
        self.closures.push((String::from_str(name), (String::from_str(clos_name), args)));
        self.context_map.push((String::from_str(name), String::from_str(clos_name)));
        proof {
            assert(final(self).context_map@.drop_last() =~= old(self).context_map@);
        }
    }

    /// The environment struct a closure name uses, if registered.
    pub fn get_closure_context(&self, name: &str) -> (r: Option<String>)
        ensures
            match r {
                Some(s) => ctxmap_get(self.context_map@, name@) == Some(s@),
                None => ctxmap_get(self.context_map@, name@) is None,
            },
    {
        let name_s = String::from_str(name);
        let n = self.context_map.len();
        let mut i: usize = n;
        proof {
            assert(self.context_map@.take(n as int) =~= self.context_map@);
        }
        while i > 0
            invariant
                i <= self.context_map@.len(),
                name_s@ == name@,
                ctxmap_get(self.context_map@, name@) == ctxmap_get(
                    self.context_map@.take(i as int),
                    name@,
                ),
            decreases i,
        {
            proof {
                assert(self.context_map@.take(i as int).drop_last() =~= self.context_map@.take(
                    i as int - 1,
                ));
            }
            proof {
                assert(self.context_map@.take(i as int).last() == self.context_map@[i as int - 1]);
            }
            let hit = self.context_map[i - 1].0 == name_s;
            if hit {
                proof {
                    assert(self.context_map@[i as int - 1].0@ == name@);
                    assert(ctxmap_get(self.context_map@, name@) == Some(
                        self.context_map@[i as int - 1].1@,
                    ));
                }
                return Some(self.context_map[i - 1].1.clone());
            }
            i = i - 1;
        }
        proof {
            assert(self.context_map@.take(0) =~= Seq::<(String, String)>::empty());
        }
        None
    }

    /// Render the whole translation unit.
    pub fn into_code(self) -> (r: String)
        ensures
            r@ == code_of(self.functions@, self.statements@),
    {
        proof {
            reveal_strlit("#include <stdio.h>\n#include <stdlib.h>\n");
            reveal_strlit("\ntypedef struct {\n    void* func;\n    void* env;\n} __closure;\n");
        }
        let mut code = String::from_str("#include <stdio.h>\n#include <stdlib.h>\n");
        code.append("\ntypedef struct {\n    void* func;\n    void* env;\n} __closure;\n");
        let mut i: usize = 0;
        proof {
            assert(structs_of(self.functions@.take(0)) =~= Seq::<char>::empty());
            assert(code@ =~= "#include <stdio.h>\n#include <stdlib.h>\n"@
                + "\ntypedef struct {\n    void* func;\n    void* env;\n} __closure;\n"@
                + structs_of(self.functions@.take(0)));
        }
        while i < self.functions.len()
            invariant
                i <= self.functions@.len(),
                code@ == "#include <stdio.h>\n#include <stdlib.h>\n"@
                    + "\ntypedef struct {\n    void* func;\n    void* env;\n} __closure;\n"@
                    + structs_of(self.functions@.take(i as int)),
            decreases self.functions@.len() - i,
        {
            let entry = &self.functions[i];
            proof {
                reveal_strlit("\ntypedef struct {\n    ");
                reveal_strlit(";\n} clos_env_");
                reveal_strlit(";\n\n");
            }
            code.append("\ntypedef struct {\n    ");
            code.append(caps_fields(&entry.1.captures).as_str());
            code.append(";\n} clos_env_");
            code.append(entry.0.as_str());
            code.append(";\n\n");
            i = i + 1;
            proof {
                assert(self.functions@.take(i as int).drop_last() =~= self.functions@.take(
                    i as int - 1,
                ));
                assert(code@ =~= "#include <stdio.h>\n#include <stdlib.h>\n"@
                    + "\ntypedef struct {\n    void* func;\n    void* env;\n} __closure;\n"@
                    + structs_of(self.functions@.take(i as int)));
            }
        }
        proof {
            assert(self.functions@.take(self.functions@.len() as int) =~= self.functions@);
        }
        let ghost hdr = code@;
        let mut j: usize = 0;
        proof {
            assert(decls_of(self.functions@.take(0)) =~= Seq::<char>::empty());
            assert(code@ =~= hdr + decls_of(self.functions@.take(0)));
        }
        while j < self.functions.len()
            invariant
                j <= self.functions@.len(),
                code@ == hdr + decls_of(self.functions@.take(j as int)),
            decreases self.functions@.len() - j,
        {
            let entry = &self.functions[j];
            proof {
                reveal_strlit(" ");
                reveal_strlit("(void* __env, ");
                reveal_strlit(");\n");
            }
            code.append(entry.1.ret_ty.show().as_str());
            code.append(" ");
            code.append(entry.1.name.as_str());
            code.append("(void* __env, ");
            code.append(args_sig(&entry.1.args).as_str());
            code.append(");\n");
            j = j + 1;
            proof {
                assert(self.functions@.take(j as int).drop_last() =~= self.functions@.take(
                    j as int - 1,
                ));
                assert(code@ =~= hdr + decls_of(self.functions@.take(j as int)));
            }
        }
        proof {
            assert(self.functions@.take(self.functions@.len() as int) =~= self.functions@);
        }
        let ghost hdr2 = code@;
        let mut k: usize = 0;
        proof {
            assert(stmts_of(self.statements@.take(0)) =~= Seq::<char>::empty());
            assert(code@ =~= hdr2 + stmts_of(self.statements@.take(0)));
        }
        while k < self.statements.len()
            invariant
                k <= self.statements@.len(),
                code@ == hdr2 + stmts_of(self.statements@.take(k as int)),
            decreases self.statements@.len() - k,
        {
            proof {
                reveal_strlit("\n");
            }
            match &self.statements[k] {
                ImpLine::Text(line) => {
                    code.append(line.as_str());
                    code.append("\n");
                },
            }
            k = k + 1;
            proof {
                assert(self.statements@.take(k as int).drop_last() =~= self.statements@.take(
                    k as int - 1,
                ));
                assert(code@ =~= hdr2 + stmts_of(self.statements@.take(k as int)));
            }
        }
        proof {
            assert(self.statements@.take(self.statements@.len() as int) =~= self.statements@);
            assert(code@ =~= code_of(self.functions@, self.statements@));
        }
        code
    }
}

/// Render the capture fields of an environment struct.
pub fn caps_fields(caps: &Vec<ImpVar>) -> (r: String)
    ensures
        r@ == caps_fields_of(caps@),
{
    let mut s = String::new();
    let mut i: usize = 0;
    proof {
        assert(caps_fields_of(caps@.take(0)) =~= Seq::<char>::empty());
        assert(s@ =~= caps_fields_of(caps@.take(0)));
    }
    while i < caps.len()
        invariant
            i <= caps@.len(),
            s@ == caps_fields_of(caps@.take(i as int)),
        decreases caps@.len() - i,
    {
        proof {
            reveal_strlit(";\n    ");
            reveal_strlit(" ");
        }
        if i > 0 {
            s.append(";\n    ");
        }
        let v = &caps[i];
        s.append(v.ty.show().as_str());
        s.append(" ");
        s.append(v.name.as_str());
        i = i + 1;
        proof {
            assert(caps@.take(i as int).drop_last() =~= caps@.take(i as int - 1));
            assert(caps@.take(i as int).last() == caps@[i as int - 1]);
            assert(s@ =~= caps_fields_of(caps@.take(i as int)));
        }
    }
    proof {
        assert(caps@.take(caps@.len() as int) =~= caps@);
    }
    s
}

/// Render a comma-separated parameter list.
pub fn args_sig(args: &Vec<ImpVar>) -> (r: String)
    ensures
        r@ == args_sig_of(args@),
{
    let mut s = String::new();
    let mut i: usize = 0;
    proof {
        assert(args_sig_of(args@.take(0)) =~= Seq::<char>::empty());
        assert(s@ =~= args_sig_of(args@.take(0)));
    }
    while i < args.len()
        invariant
            i <= args@.len(),
            s@ == args_sig_of(args@.take(i as int)),
        decreases args@.len() - i,
    {
        proof {
            reveal_strlit(", ");
            reveal_strlit(" ");
        }
        if i > 0 {
            s.append(", ");
        }
        let v = &args[i];
        s.append(v.ty.show().as_str());
        s.append(" ");
        s.append(v.name.as_str());
        i = i + 1;
        proof {
            assert(args@.take(i as int).drop_last() =~= args@.take(i as int - 1));
            assert(args@.take(i as int).last() == args@[i as int - 1]);
            assert(s@ =~= args_sig_of(args@.take(i as int)));
        }
    }
    proof {
        assert(args@.take(args@.len() as int) =~= args@);
    }
    s
}

} // verus!
