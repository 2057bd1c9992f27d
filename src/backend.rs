//! Lowers IR-building steps to an LLVM module and emits a native object.

use vstd::prelude::*;

use crate::ast::Statement;
use crate::codegen::{
    gen_error_text, generate, lemma_program_runs, program_code, runs, GenError, Instr,
};
use crate::text::{push_str, string_of};
use inkwell::basic_block::BasicBlock;
use inkwell::builder::{Builder, BuilderError};
use inkwell::context::Context;
use inkwell::module::Module;
use inkwell::targets::{
    CodeModel, FileType, InitializationConfig, RelocMode, Target, TargetMachine, TargetTriple,
};
use inkwell::types::{FunctionType, IntType};
use inkwell::values::{FunctionValue, IntValue, PointerValue};
use inkwell::OptimizationLevel;

verus! {

#[verifier::external_type_specification]
#[verifier::external_body]
pub struct ExContext(Context);

#[verifier::external_type_specification]
#[verifier::external_body]
pub struct ExBuilder<'ctx>(Builder<'ctx>);

#[verifier::external_type_specification]
#[verifier::external_body]
pub struct ExBuilderError(BuilderError);

#[verifier::external_type_specification]
#[verifier::external_body]
pub struct ExModule<'ctx>(Module<'ctx>);

#[verifier::external_type_specification]
#[verifier::external_body]
pub struct ExIntType<'ctx>(IntType<'ctx>);

#[verifier::external_type_specification]
#[verifier::external_body]
pub struct ExFunctionType<'ctx>(FunctionType<'ctx>);

#[verifier::external_type_specification]
#[verifier::external_body]
pub struct ExFunctionValue<'ctx>(FunctionValue<'ctx>);

#[verifier::external_type_specification]
#[verifier::external_body]
pub struct ExBasicBlock<'ctx>(BasicBlock<'ctx>);

#[verifier::external_type_specification]
#[verifier::external_body]
pub struct ExIntValue<'ctx>(IntValue<'ctx>);

#[verifier::external_type_specification]
#[verifier::external_body]
pub struct ExPointerValue<'ctx>(PointerValue<'ctx>);

#[verifier::external_type_specification]
#[verifier::external_body]
pub struct ExTarget(Target);

#[verifier::external_type_specification]
#[verifier::external_body]
pub struct ExTargetTriple(TargetTriple);

#[verifier::external_type_specification]
#[verifier::external_body]
pub struct ExTargetMachine(TargetMachine);

#[derive(Debug)]
pub enum BackendError {
    /// The program itself cannot be translated.
    Generation(GenError),
    Target(String),
    IRBuild(BuilderError),
    IRVerification(String),
    CompileTarget(String),
    TargetMachine,
    OutputIR(String),
}

pub open spec fn ir_build_prefix() -> Seq<char> {
    "Something during building IR failed: "@
}

/// The message for `e`; for `IRBuild` only its opening words, which the
/// builder error's debug text follows.
pub open spec fn backend_error_text(e: BackendError) -> Seq<char> {
    match e {
        BackendError::Generation(g) => "Code generation failed: "@ + gen_error_text(g),
        BackendError::Target(m) => "Failed to initialize target: "@ + m@,
        BackendError::IRBuild(_) => ir_build_prefix(),
        BackendError::IRVerification(m) => "IR verification failed: "@ + m@,
        BackendError::CompileTarget(m) => "Failed to create target: "@ + m@,
        BackendError::TargetMachine => "Failed to create target machine"@,
        BackendError::OutputIR(m) => "Failed to output IR: "@ + m@,
    }
}

/// `t` is a message that `e` may be rendered as.
pub open spec fn renders_backend_error(e: BackendError, t: Seq<char>) -> bool {
    if e is IRBuild {
        t.len() >= ir_build_prefix().len() && t.take(ir_build_prefix().len() as int)
            == ir_build_prefix()
    } else {
        t == backend_error_text(e)
    }
}

/// Relies on the `Debug` formatting of `BuilderError`.
#[verifier::external_body]
fn builder_error_debug(e: &BuilderError) -> String {
    format!("{:?}", e)
}

impl BackendError {
    /// The message for this error.
    pub fn render(&self) -> (r: String)
        ensures
            renders_backend_error(*self, r@),
    {
        let mut out: Vec<char> = Vec::new();
        match self {
            BackendError::Generation(g) => {
                push_str(&mut out, "Code generation failed: ");
                push_str(&mut out, g.render().as_str());
            },
            BackendError::Target(m) => {
                push_str(&mut out, "Failed to initialize target: ");
                push_str(&mut out, m.as_str());
            },
            BackendError::IRBuild(e) => {
                push_str(&mut out, "Something during building IR failed: ");
                let ghost opening = out@;
                push_str(&mut out, builder_error_debug(e).as_str());
                assert(out@.take(opening.len() as int) == opening);
            },
            BackendError::IRVerification(m) => {
                push_str(&mut out, "IR verification failed: ");
                push_str(&mut out, m.as_str());
            },
            BackendError::CompileTarget(m) => {
                push_str(&mut out, "Failed to create target: ");
                push_str(&mut out, m.as_str());
            },
            BackendError::TargetMachine => push_str(&mut out, "Failed to create target machine"),
            BackendError::OutputIR(m) => {
                push_str(&mut out, "Failed to output IR: ");
                push_str(&mut out, m.as_str());
            },
        }
        string_of(out.as_slice())
    }
}

/// Relies on `Context::create`: a fresh LLVM context.
#[verifier::external_body]
fn new_context() -> Context {
    Context::create()
}

/// Relies on `Target::initialize_native`: prepares the host target, or
/// says why it cannot.
#[verifier::external_body]
fn initialize_native_target() -> Result<(), String> {
    Target::initialize_native(&InitializationConfig::default())
}

/// Relies on `Context::create_builder`.
#[verifier::external_body]
fn create_builder<'ctx>(ctx: &'ctx Context) -> Builder<'ctx> {
    ctx.create_builder()
}

/// Relies on `Context::create_module`: an empty module of that name.
#[verifier::external_body]
fn create_module<'ctx>(ctx: &'ctx Context, name: &str) -> Module<'ctx> {
    ctx.create_module(name)
}

/// Relies on `Context::i64_type`.
#[verifier::external_body]
fn i64_type<'ctx>(ctx: &'ctx Context) -> IntType<'ctx> {
    ctx.i64_type()
}

/// Relies on `IntType::fn_type`: a function type without parameters
/// that returns this integer type.
#[verifier::external_body]
fn no_arg_fn_type<'ctx>(ret: IntType<'ctx>) -> FunctionType<'ctx> {
    ret.fn_type(&[], false)
}

/// Relies on `Module::add_function`, with default linkage.
#[verifier::external_body]
fn add_function<'ctx>(module: &Module<'ctx>, name: &str, ty: FunctionType<'ctx>) -> FunctionValue<'ctx> {
    module.add_function(name, ty, None)
}

/// Relies on `Context::append_basic_block`.
#[verifier::external_body]
fn append_basic_block<'ctx>(ctx: &'ctx Context, f: FunctionValue<'ctx>, name: &str) -> BasicBlock<'ctx> {
    ctx.append_basic_block(f, name)
}

/// Relies on `Builder::position_at_end`.
#[verifier::external_body]
fn position_at_end<'ctx>(builder: &Builder<'ctx>, block: BasicBlock<'ctx>) {
    builder.position_at_end(block)
}

/// Relies on `IntType::const_int`, without sign extension.
#[verifier::external_body]
fn const_int<'ctx>(ty: IntType<'ctx>, value: u64) -> IntValue<'ctx> {
    ty.const_int(value, false)
}

/// Relies on `Builder::build_load`; the slots loaded hold 64-bit integers.
#[verifier::external_body]
fn build_load<'ctx>(builder: &Builder<'ctx>, ptr: PointerValue<'ctx>, name: &str) -> Result<IntValue<'ctx>, BuilderError> {
    match builder.build_load(ptr, name) {
        Ok(v) => Ok(v.into_int_value()),
        Err(e) => Err(e),
    }
}

/// Relies on `Builder::build_int_add`.
#[verifier::external_body]
fn build_int_add<'ctx>(builder: &Builder<'ctx>, a: IntValue<'ctx>, b: IntValue<'ctx>) -> Result<IntValue<'ctx>, BuilderError> {
    builder.build_int_add(a, b, "add")
}

/// Relies on `Builder::build_int_sub`.
#[verifier::external_body]
fn build_int_sub<'ctx>(builder: &Builder<'ctx>, a: IntValue<'ctx>, b: IntValue<'ctx>) -> Result<IntValue<'ctx>, BuilderError> {
    builder.build_int_sub(a, b, "sub")
}

/// Relies on `Builder::build_int_mul`.
#[verifier::external_body]
fn build_int_mul<'ctx>(builder: &Builder<'ctx>, a: IntValue<'ctx>, b: IntValue<'ctx>) -> Result<IntValue<'ctx>, BuilderError> {
    builder.build_int_mul(a, b, "mul")
}

/// Relies on `Builder::build_alloca`.
#[verifier::external_body]
fn build_alloca<'ctx>(builder: &Builder<'ctx>, ty: IntType<'ctx>, name: &str) -> Result<PointerValue<'ctx>, BuilderError> {
    builder.build_alloca(ty, name)
}

/// Relies on `Builder::build_store`; the instruction itself is not kept.
#[verifier::external_body]
fn build_store<'ctx>(builder: &Builder<'ctx>, ptr: PointerValue<'ctx>, value: IntValue<'ctx>) -> Result<(), BuilderError> {
    match builder.build_store(ptr, value) {
        Ok(_) => Ok(()),
        Err(e) => Err(e),
    }
}

/// Relies on `Builder::build_return`; the instruction itself is not kept.
#[verifier::external_body]
fn build_return<'ctx>(builder: &Builder<'ctx>, value: IntValue<'ctx>) -> Result<(), BuilderError> {
    match builder.build_return(Some(&value)) {
        Ok(_) => Ok(()),
        Err(e) => Err(e),
    }
}

/// Relies on `Module::verify`: `Err` carries LLVM's diagnostic as text.
#[verifier::external_body]
fn verify_module<'ctx>(module: &Module<'ctx>) -> Result<(), String> {
    match module.verify() {
        Ok(()) => Ok(()),
        Err(e) => Err(e.to_string()),
    }
}

/// Relies on `TargetMachine::get_default_triple`: the host's triple.
#[verifier::external_body]
fn default_triple() -> TargetTriple {
    TargetMachine::get_default_triple()
}

/// Relies on `Target::from_triple`: `Err` carries LLVM's diagnostic as text.
#[verifier::external_body]
fn target_from_triple(triple: &TargetTriple) -> Result<Target, String> {
    match Target::from_triple(triple) {
        Ok(t) => Ok(t),
        Err(e) => Err(e.to_string()),
    }
}

/// Relies on `Target::create_target_machine` for the given CPU and
/// features, at the aggressive optimisation level with default relocation
/// and code models.
#[verifier::external_body]
fn create_target_machine(target: &Target, triple: &TargetTriple, cpu: &str, features: &str) -> Option<TargetMachine> {
    target.create_target_machine(
        triple,
        cpu,
        features,
        OptimizationLevel::Aggressive,
        RelocMode::Default,
        CodeModel::Default,
    )
}

/// Relies on `TargetMachine::write_to_memory_buffer`: the object file's
/// bytes, or LLVM's diagnostic as text.
#[verifier::external_body]
fn emit_object<'ctx>(machine: &TargetMachine, module: &Module<'ctx>) -> Result<Vec<u8>, String> {
    match machine.write_to_memory_buffer(module, FileType::Object) {
        Ok(buffer) => Ok(buffer.as_slice().to_vec()),
        Err(e) => Err(e.to_string()),
    }
}

struct Backend<'ctx> {
    ctx: &'ctx Context,
    builder: Builder<'ctx>,
    module: Module<'ctx>,
}

impl<'ctx> Backend<'ctx> {
    fn new(ctx: &'ctx Context) -> (r: Result<Self, BackendError>)
        ensures
            r matches Err(e) ==> e is Target,
    {
        match initialize_native_target() {
            Ok(()) => {},
            Err(e) => {
                return Err(BackendError::Target(e));
            },
        }
        let builder = create_builder(ctx);
        Ok(Backend { ctx, builder, module: create_module(ctx, "main") })
    }

    /// Opens `main`, returning a 64-bit integer, and places the builder in
    /// its entry block.
    fn begin_main(&self) {
        let i64_type = i64_type(self.ctx);
        let main_type = no_arg_fn_type(i64_type);
        let main_func = add_function(&self.module, "main", main_type);
        let main_block = append_basic_block(self.ctx, main_func, "entry");
        position_at_end(&self.builder, main_block);
    }

    /// Builds the instructions that the steps describe, in order.
    fn emit(&self, code: &Vec<Instr>) -> (r: Result<(), BuilderError>)
        requires
            runs(code@, 0, 0),
    {
        let ty = i64_type(self.ctx);
        let mut stack: Vec<IntValue<'ctx>> = Vec::new();
        let mut slots: Vec<PointerValue<'ctx>> = Vec::new();
        let mut i: usize = 0;
        assert(code@.skip(0) == code@);
        while i < code.len()
            invariant
                i <= code@.len(),
                runs(code@.skip(i as int), stack@.len(), slots@.len()),
            decreases code@.len() - i,
        {
            assert(code@.skip(i as int)[0] == code@[i as int]);
            assert(code@.skip(i as int).drop_first() == code@.skip(i + 1));
            match &code[i] {
                Instr::Const { value } => {
                    stack.push(const_int(ty, *value));
                },
                Instr::Load { slot, name } => {
                    let v = build_load(&self.builder, slots[*slot], name.as_str())?;
                    stack.push(v);
                },
                Instr::Add => {
                    let b = stack.pop().unwrap();
                    let a = stack.pop().unwrap();
                    stack.push(build_int_add(&self.builder, a, b)?);
                },
                Instr::Sub => {
                    let b = stack.pop().unwrap();
                    let a = stack.pop().unwrap();
                    stack.push(build_int_sub(&self.builder, a, b)?);
                },
                Instr::Mul => {
                    let b = stack.pop().unwrap();
                    let a = stack.pop().unwrap();
                    stack.push(build_int_mul(&self.builder, a, b)?);
                },
                Instr::Alloca { name, .. } => {
                    let ptr = build_alloca(&self.builder, ty, name.as_str())?;
                    slots.push(ptr);
                },
                Instr::Store { slot } => {
                    let v = stack.pop().unwrap();
                    build_store(&self.builder, slots[*slot], v)?;
                },
                Instr::Return => {
                    let v = stack.pop().unwrap();
                    build_return(&self.builder, v)?;
                },
            }
            i = i + 1;
        }
        Ok(())
    }
}

/// Translates `program`, checks the resulting module with LLVM, and
/// returns it as a native object for the host.
pub fn compile(program: &[Statement]) -> (r: Result<Vec<u8>, BackendError>)
    ensures
        match program_code(program@) {
            Err(g) => r matches Err(BackendError::Generation(e)) && e == g,
            Ok(_) => !(r matches Err(BackendError::Generation(_))),
        },
{
    let code = match generate(program) {
        Ok(c) => c,
        Err(e) => {
            return Err(BackendError::Generation(e));
        },
    };
    let count = program.len();
    proof {
        assert(program@.len() == count);
        lemma_program_runs(program@);
    }
    let ctx = new_context();
    let backend = Backend::new(&ctx)?;
    backend.begin_main();
    match backend.emit(&code) {
        Ok(()) => {},
        Err(e) => {
            return Err(BackendError::IRBuild(e));
        },
    }
    match verify_module(&backend.module) {
        Ok(()) => {},
        Err(e) => {
            return Err(BackendError::IRVerification(e));
        },
    }
    let triple = default_triple();
    let target = match target_from_triple(&triple) {
        Ok(t) => t,
        Err(e) => {
            return Err(BackendError::CompileTarget(e));
        },
    };
    let machine = match create_target_machine(&target, &triple, "generic", "") {
        Some(m) => m,
        None => {
            return Err(BackendError::TargetMachine);
        },
    };
    match emit_object(&machine, &backend.module) {
        Ok(bytes) => Ok(bytes),
        Err(e) => Err(BackendError::OutputIR(e)),
    }
}

} // verus!
