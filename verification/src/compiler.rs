use vstd::prelude::*;

pub mod compile_dependencies_phase;
pub mod desugar_pipe_phase;
pub mod emission;
pub mod emit_bytecode_phase;
pub mod finish_phase;
pub mod function_names_phase;
pub mod insert_prelude_phase;
pub mod node_ids_phase;
pub mod read_file_phase;
pub mod resolve_imports_phase;
pub mod resolution;
pub mod resolve_structs_phase;
pub mod resolve_variables_phase;
pub mod struct_info_phase;
pub mod tag_return_exprs_phase;
pub mod tags;
pub mod validate_struct_fields_phase;
pub mod variable;

use crate::ast::{child_counts_fit, counts_fit, preorder, ImportKind, Node, NodeKind};
use crate::exception::Exception;
use crate::module::{last_component, ModuleName};
use crate::program::{module_position, Program};
use crate::struct_info::StructInfo;
use compile_dependencies_phase::dependencies;
use desugar_pipe_phase::{desugar_pipe_phase, desugared, pipe_errors, pipe_free};
use insert_prelude_phase::{default_implicit_imports, insert_prelude_phase, prelude_inserted};
use node_ids_phase::{node_ids_phase, numbered, same_but_ids};
use resolution::error_views;
use resolve_imports_phase::{imports_in, resolve_imports_phase};
use struct_info_phase::{check_struct_names, struct_info_outcome, struct_info_phase, struct_names_ok};

verus! {

/// What to compile: a module looked up by name, or source text given a name.
#[derive(Debug, Clone)]
pub enum Input {
    ModuleName(String),
    SourceCode { text: String, name: String },
}

impl Input {
    pub open spec fn spec_module_name(&self) -> Seq<char> {
        match self {
            Input::ModuleName(module_name) => module_name@,
            Input::SourceCode { name, .. } => name@,
        }
    }

    /// The name of the module being compiled.
    pub fn module_name(&self) -> (r: &str)
        ensures
            r@ == self.spec_module_name(),
    {
        match self {
            Input::ModuleName(module_name) => module_name.as_str(),
            Input::SourceCode { text: _, name } => name.as_str(),
        }
    }
}

/// An import statement, once resolved.
#[derive(Debug)]
pub struct ResolvedImport {
    pub module_name: ModuleName,
    pub kind: ResolvedImportKind,
}

#[derive(Debug)]
pub enum ResolvedImportKind {
    /// import Std/Enum
    Module,
    /// import Std/Enum.map
    Field(String),
    /// import Std/Enum.*
    AllFields,
}

/// `r` is what resolving the import statement `k` gives.
pub open spec fn resolved_from(r: ResolvedImport, k: ImportKind) -> bool {
    &&& r.module_name.0@ == k.spec_module_name()
    &&& match k {
        ImportKind::Module { .. } => r.kind is Module,
        ImportKind::Field { field_name, .. } => r.kind matches ResolvedImportKind::Field(f)
            && f@ == field_name@,
        ImportKind::AllFields { .. } => r.kind is AllFields,
    }
}

impl ResolvedImport {
    pub fn new(import_ast: &ImportKind) -> (r: ResolvedImport)
        ensures
            resolved_from(r, *import_ast),
    {
        ResolvedImport {
            module_name: ModuleName::new(import_ast.module_name()),
            kind: match import_ast {
                ImportKind::Module { .. } => ResolvedImportKind::Module,
                ImportKind::Field { module_name: _, field_name } => ResolvedImportKind::Field(
                    field_name.clone(),
                ),
                ImportKind::AllFields { .. } => ResolvedImportKind::AllFields,
            },
        }
    }

    /// The last component of the imported module's name.
    pub fn short_name(&self) -> (r: String)
        ensures
            r@ == last_component(self.module_name.0@),
    {
        self.module_name.short_name()
    }
}

/// The phases of compilation, in the order they run.
#[derive(Debug, Clone, Copy, PartialEq, Eq, Structural)]
pub enum Phase {
    ReadFile,
    ParseAst,
    InsertPrelude,
    CompileDependencies,
    DesugarPipePhase,
    NodeIds,
    StructInfo,
    ResolveImports,
    ResolveVariables,
    ResolveStructs,
    ValidateStructFields,
    FunctionNames,
    TagReturnExprsPhase,
    EmitBytecode,
    Finish,
}

/// The name of a compiled function, as stack traces show it.
#[derive(Debug)]
pub struct FunctionName {
    pub name: String,
}

/// Marks an expression whose value its function returns: the function literal (or the
/// module's top level) it belongs to.
#[derive(Debug, Clone, Copy)]
pub struct IsReturnExpr {
    pub function: u32,
}

/// Marks a variable reference that names an imported module.
#[derive(Debug)]
pub struct ModuleReference {
    pub module_name: ModuleName,
}

/// Marks a struct literal with the struct it builds.
#[derive(Debug)]
pub struct ReferencedStruct {
    pub struct_info: StructInfo,
}

/// The position of a phase in the order the phases run.
pub open spec fn phase_index(p: Phase) -> nat {
    match p {
        Phase::ReadFile => 0,
        Phase::ParseAst => 1,
        Phase::InsertPrelude => 2,
        Phase::CompileDependencies => 3,
        Phase::DesugarPipePhase => 4,
        Phase::NodeIds => 5,
        Phase::StructInfo => 6,
        Phase::ResolveImports => 7,
        Phase::ResolveVariables => 8,
        Phase::ResolveStructs => 9,
        Phase::ValidateStructFields => 10,
        Phase::FunctionNames => 11,
        Phase::TagReturnExprsPhase => 12,
        Phase::EmitBytecode => 13,
        Phase::Finish => 14,
    }
}

impl Phase {
    /// The position of the phase in the order the phases run.
    pub fn index(self) -> (r: u8)
        ensures
            r == phase_index(self),
    {
        match self {
            Phase::ReadFile => 0,
            Phase::ParseAst => 1,
            Phase::InsertPrelude => 2,
            Phase::CompileDependencies => 3,
            Phase::DesugarPipePhase => 4,
            Phase::NodeIds => 5,
            Phase::StructInfo => 6,
            Phase::ResolveImports => 7,
            Phase::ResolveVariables => 8,
            Phase::ResolveStructs => 9,
            Phase::ValidateStructFields => 10,
            Phase::FunctionNames => 11,
            Phase::TagReturnExprsPhase => 12,
            Phase::EmitBytecode => 13,
            Phase::Finish => 14,
        }
    }
}

/// What is known of a module while it is compiled.
#[derive(Debug)]
pub struct CompilationState {
    pub module_name: ModuleName,
    pub errors: Vec<Exception>,
    pub ast: Node,
    pub imports: Vec<ResolvedImport>,
    pub struct_info: Option<StructInfo>,
}

/// How a run of the phases ended, other than with errors.
#[derive(Debug)]
pub enum Compiled {
    /// The phases up to the one asked for ran; the state after it.
    Reached(CompilationState),
    /// The module imports this module, which the program does not hold yet: it is to be
    /// compiled first.
    NeedsModule(String),
    /// The syntax tree cannot be handled: a node with more children than `usize` counts, more
    /// nodes than node ids number (`u32`), or a struct field named by something other than an
    /// identifier.
    Rejected,
}

/// Every module that the tree `a` imports is in the program.
pub open spec fn dependencies_present(program: Program, a: Node) -> bool {
    forall|i: int|
        0 <= i < imports_in(preorder(a)).len() ==> module_position(
            program.modules@,
            (#[trigger] imports_in(preorder(a))[i]).spec_module_name(),
        ) is Some
}

/// `name` is the first module that the tree `a` imports and the program does not hold.
pub open spec fn first_missing(program: Program, a: Node, name: Seq<char>) -> bool {
    exists|i: int|
        0 <= i < imports_in(preorder(a)).len() && (#[trigger] imports_in(preorder(a))[i]).spec_module_name()
            == name && module_position(program.modules@, name) is None && forall|j: int|
            0 <= j < i ==> module_position(
                program.modules@,
                (#[trigger] imports_in(preorder(a))[j]).spec_module_name(),
            ) is Some
}

/// The trees after the phases that rewrite the syntax tree of module `m`: `a1` is `a0` with the
/// implicit imports put in, whose dependencies are all compiled, `a2` is `a1` with the pipe
/// operator desugared, and `a3` is `a2` with its nodes numbered in pre-order.
pub open spec fn rewritten(
    program: Program,
    m: Seq<char>,
    imps: Seq<ImportKind>,
    a0: Node,
    a1: Node,
    a2: Node,
    a3: Node,
) -> bool {
    &&& prelude_inserted(m, imps, a0, a1)
    &&& dependencies_present(program, a1)
    &&& desugared(a1, a2)
    &&& pipe_free(a2)
    &&& numbered(a3, m, 0)
    &&& same_but_ids(a2, a3)
}

/// The first of the modules `deps` (those of `wanted`, in order) that the program does not
/// hold, if there is one.
fn missing_dependency(deps: &Vec<Input>, program: &Program, Ghost(wanted): Ghost<Seq<ImportKind>>) -> (r:
    Option<String>)
    requires
        deps@.len() == wanted.len(),
        forall|j: int|
            0 <= j < deps@.len() ==> ((#[trigger] deps@[j]) matches Input::ModuleName(n) && n@
                == wanted[j].spec_module_name()),
    ensures
        match r {
            Some(name) => exists|i: int|
                0 <= i < wanted.len() && (#[trigger] wanted[i]).spec_module_name() == name@
                    && module_position(program.modules@, name@) is None && forall|j: int|
                    0 <= j < i ==> module_position(
                        program.modules@,
                        (#[trigger] wanted[j]).spec_module_name(),
                    ) is Some,
            None => forall|j: int|
                0 <= j < wanted.len() ==> module_position(
                    program.modules@,
                    (#[trigger] wanted[j]).spec_module_name(),
                ) is Some,
        },
{
    let mut i: usize = 0;
    while i < deps.len()
        invariant
            i <= deps@.len(),
            deps@.len() == wanted.len(),
            forall|j: int|
                0 <= j < deps@.len() ==> ((#[trigger] deps@[j]) matches Input::ModuleName(n) && n@
                    == wanted[j].spec_module_name()),
            forall|j: int|
                0 <= j < i ==> module_position(
                    program.modules@,
                    (#[trigger] wanted[j]).spec_module_name(),
                ) is Some,
        decreases deps.len() - i,
    {
        match &deps[i] {
            Input::ModuleName(name) => {
                if program.get_module(name.as_str()).is_none() {
                    assert(deps@[i as int] matches Input::ModuleName(n) && n@
                        == wanted[i as int].spec_module_name());
                    let missing = name.clone();
                    assert(wanted[i as int].spec_module_name() == missing@);
                    return Some(missing);
                }
            },
            _ => {
                assert(deps@[i as int] matches Input::ModuleName(_));
            },
        }
        i = i + 1;
    }
    None
}

/// The implicit imports that every module outside the standard library gets.
pub struct Compiler {
    pub implicit_imports: Vec<ImportKind>,
}

impl Compiler {
    /// A compiler with the default implicit imports.
    pub fn new() -> (r: Compiler)
        ensures
            r.implicit_imports@.len() == insert_prelude_phase::default_imports().len(),
            forall|i: int|
                0 <= i < r.implicit_imports@.len() ==> insert_prelude_phase::import_view(
                    #[trigger] r.implicit_imports@[i],
                ) == insert_prelude_phase::default_imports()[i],
    {
        Compiler { implicit_imports: default_implicit_imports() }
    }

    /// Runs the phases in order on the parsed module `ast` of `input`, each on what the one
    /// before gave, up to and including `phase`: the implicit imports are put in, the modules
    /// it imports must already be in `program`, the pipe operator is desugared, the nodes are
    /// numbered, the struct is read and the imports are resolved.  The errors are those of the
    /// first phase that fails.
    #[verifier::rlimit(40)]
    pub fn run_until(&self, input: &Input, ast: Node, phase: Phase, program: &Program) -> (r: Result<
        Compiled,
        Vec<Exception>,
    >)
        requires
            ast.kind is SourceFile,
            phase_index(phase) <= phase_index(Phase::ResolveImports),
        ensures
            ({
                let m = input.spec_module_name();
                let imps = self.implicit_imports@;
                let p = phase_index(phase);
                match r {
                    Ok(Compiled::Reached(st)) => {
                        &&& st.module_name.0@ == m
                        &&& st.errors@.len() == 0
                        &&& p <= 1 ==> st.ast == ast
                        &&& p == 2 ==> prelude_inserted(m, imps, ast, st.ast)
                        &&& p == 3 ==> prelude_inserted(m, imps, ast, st.ast) && dependencies_present(
                            *program,
                            st.ast,
                        )
                        &&& p == 4 ==> exists|a1: Node|
                            prelude_inserted(m, imps, ast, a1) && dependencies_present(*program, a1)
                                && #[trigger] desugared(a1, st.ast) && pipe_free(st.ast)
                        &&& p >= 5 ==> exists|a1: Node, a2: Node|
                            #[trigger] rewritten(*program, m, imps, ast, a1, a2, st.ast)
                        &&& p >= 6 ==> struct_info_outcome(m, st.ast, Ok(st.struct_info))
                        &&& p < 6 ==> st.struct_info is None
                        &&& p == 7 ==> st.imports@.len() == imports_in(preorder(st.ast)).len() && forall|i: int|
                            0 <= i < st.imports@.len() ==> resolved_from(
                                #[trigger] st.imports@[i],
                                imports_in(preorder(st.ast))[i],
                            )
                        &&& p < 7 ==> st.imports@.len() == 0
                    },
                    Ok(Compiled::NeedsModule(name)) => p >= 3 && exists|a1: Node|
                        #[trigger] prelude_inserted(m, imps, ast, a1) && first_missing(
                            *program,
                            a1,
                            name@,
                        ),
                    Ok(Compiled::Rejected) => p >= 2 && {
                        ||| ast.kind->SourceFile_0@.len() + imps.len() > usize::MAX
                        ||| exists|a1: Node|
                            #[trigger] prelude_inserted(m, imps, ast, a1) && !child_counts_fit(a1)
                        ||| p >= 5 && exists|a1: Node, a2: Node|
                            prelude_inserted(m, imps, ast, a1) && dependencies_present(*program, a1)
                                && #[trigger] desugared(a1, a2) && pipe_free(a2) && (
                            !child_counts_fit(a2) || preorder(a2).len() > u32::MAX)
                        ||| p >= 6 && exists|a1: Node, a2: Node, a3: Node|
                            #[trigger] rewritten(*program, m, imps, ast, a1, a2, a3) && (
                            !child_counts_fit(a3) || !struct_names_ok(a3))
                    },
                    Err(es) => p >= 4 && {
                        ||| exists|a1: Node|
                            #[trigger] prelude_inserted(m, imps, ast, a1) && dependencies_present(
                                *program,
                                a1,
                            ) && pipe_errors(a1).len() > 0 && es@.len() == pipe_errors(a1).len()
                                + 1 && error_views(es@.drop_last()) == pipe_errors(a1)
                                && es@.last().message@ == "Failed to desugar pipe operator"@
                        ||| p >= 6 && es@.len() == 1 && exists|a1: Node, a2: Node, a3: Node|
                            #[trigger] rewritten(*program, m, imps, ast, a1, a2, a3)
                                && struct_info_outcome(m, a3, Err(es@[0]))
                    },
                }
            }),
    {
        let p = phase.index();
        let module_name = ModuleName::new(input.module_name());
        let ghost m = input.spec_module_name();
        let ghost imps = self.implicit_imports@;
        let ghost a0 = ast;
        let mut ast = ast;
        if p <= 1 {
            return Ok(
                Compiled::Reached(
                    CompilationState {
                        module_name,
                        errors: Vec::new(),
                        ast,
                        imports: Vec::new(),
                        struct_info: None,
                    },
                ),
            );
        }
        let statements = match &ast.kind {
            NodeKind::SourceFile(stmts) => stmts.len(),
            _ => 0,
        };
        if statements > usize::MAX - self.implicit_imports.len() {
            return Ok(Compiled::Rejected);
        }
        insert_prelude_phase(&module_name, &self.implicit_imports, &mut ast);
        let ghost a1 = ast;
        if p == 2 {
            return Ok(
                Compiled::Reached(
                    CompilationState {
                        module_name,
                        errors: Vec::new(),
                        ast,
                        imports: Vec::new(),
                        struct_info: None,
                    },
                ),
            );
        }
        if !counts_fit(&ast) {
            return Ok(Compiled::Rejected);
        }
        let deps = dependencies(&ast);
        match missing_dependency(&deps, program, Ghost(imports_in(preorder(a1)))) {
            Some(name) => {
                assert(prelude_inserted(m, imps, a0, a1) && first_missing(*program, a1, name@));
                return Ok(Compiled::NeedsModule(name));
            },
            None => {},
        }
        assert(dependencies_present(*program, a1));
        if p == 3 {
            return Ok(
                Compiled::Reached(
                    CompilationState {
                        module_name,
                        errors: Vec::new(),
                        ast,
                        imports: Vec::new(),
                        struct_info: None,
                    },
                ),
            );
        }
        let mut errors: Vec<Exception> = Vec::new();
        match desugar_pipe_phase(&mut ast, &mut errors) {
            Ok(()) => {},
            Err(e) => {
                let ghost before = errors@;
                errors.push(e);
                proof {
                    assert(errors@.drop_last() =~= before);
                }
                return Err(errors);
            },
        }
        let ghost a2 = ast;
        if p == 4 {
            return Ok(
                Compiled::Reached(
                    CompilationState { module_name, errors, ast, imports: Vec::new(), struct_info: None },
                ),
            );
        }
        if !counts_fit(&ast) {
            return Ok(Compiled::Rejected);
        }
        let count = ast.iter().len();
        if count > 4294967295usize {
            return Ok(Compiled::Rejected);
        }
        node_ids_phase(&module_name, &mut ast);
        let ghost a3 = ast;
        assert(rewritten(*program, m, imps, a0, a1, a2, a3));
        if p == 5 {
            return Ok(
                Compiled::Reached(
                    CompilationState { module_name, errors, ast, imports: Vec::new(), struct_info: None },
                ),
            );
        }
        if !counts_fit(&ast) {
            return Ok(Compiled::Rejected);
        }
        if !check_struct_names(&ast) {
            return Ok(Compiled::Rejected);
        }
        let struct_info = match struct_info_phase(ModuleName::new(module_name.0.as_str()), &ast) {
            Ok(info) => info,
            Err(e) => {
                return Err(vec![e]);
            },
        };
        if p == 6 {
            return Ok(
                Compiled::Reached(
                    CompilationState { module_name, errors, ast, imports: Vec::new(), struct_info },
                ),
            );
        }
        let imports = resolve_imports_phase(&ast);
        Ok(Compiled::Reached(CompilationState { module_name, errors, ast, imports, struct_info }))
    }
}

} // verus!
