//! Declarations of the instruction-builder library's types and one trusted
//! wrapper around each of its calls that the code generator makes. The
//! handles are opaque; the code generator keeps its own model of what has
//! been emitted.
use vstd::prelude::*;

use inkwell::basic_block::BasicBlock;
use inkwell::builder::{Builder, BuilderError};
use inkwell::context::Context;
use inkwell::module::Module;
use inkwell::targets::{
    CodeModel, FileType, InitializationConfig, RelocMode, Target, TargetMachine, TargetTriple,
};
use inkwell::types::{FunctionType, IntType, PointerType};
use inkwell::values::{
    BasicValueEnum, CallSiteValue, FunctionValue, GlobalValue, InstructionValue, IntValue,
    PointerValue,
};
use inkwell::AddressSpace;
use inkwell::OptimizationLevel;

verus! {

#[verifier::external_type_specification]
#[verifier::external_body]
pub struct ExContext(Context);

#[verifier::external_type_specification]
#[verifier::external_body]
pub struct ExModule<'ctx>(Module<'ctx>);

#[verifier::external_type_specification]
#[verifier::external_body]
pub struct ExBuilder<'ctx>(Builder<'ctx>);

#[verifier::external_type_specification]
#[verifier::external_body]
pub struct ExBuilderError(BuilderError);

#[verifier::external_type_specification]
#[verifier::external_body]
pub struct ExIntType<'ctx>(IntType<'ctx>);

#[verifier::external_type_specification]
#[verifier::external_body]
pub struct ExPointerType<'ctx>(PointerType<'ctx>);

#[verifier::external_type_specification]
#[verifier::external_body]
pub struct ExFunctionType<'ctx>(FunctionType<'ctx>);

#[verifier::external_type_specification]
#[verifier::external_body]
pub struct ExFunctionValue<'ctx>(FunctionValue<'ctx>);

#[verifier::external_type_specification]
#[verifier::external_body]
pub struct ExBasicBlock<'ctx>(BasicBlock<'ctx>);

#[verifier::external_type_specification]
#[verifier::external_body]
pub struct ExPointerValue<'ctx>(PointerValue<'ctx>);

#[verifier::external_type_specification]
#[verifier::external_body]
pub struct ExIntValue<'ctx>(IntValue<'ctx>);

#[verifier::external_type_specification]
#[verifier::external_body]
pub struct ExGlobalValue<'ctx>(GlobalValue<'ctx>);

#[verifier::external_type_specification]
#[verifier::external_body]
pub struct ExBasicValueEnum<'ctx>(BasicValueEnum<'ctx>);

#[verifier::external_type_specification]
#[verifier::external_body]
pub struct ExCallSiteValue<'ctx>(CallSiteValue<'ctx>);

#[verifier::external_type_specification]
#[verifier::external_body]
pub struct ExInstructionValue<'ctx>(InstructionValue<'ctx>);

#[verifier::external_type_specification]
#[verifier::external_body]
pub struct ExTargetTriple(TargetTriple);

#[verifier::external_type_specification]
#[verifier::external_body]
pub struct ExTarget(Target);

#[verifier::external_type_specification]
#[verifier::external_body]
pub struct ExTargetMachine(TargetMachine);

/// Relies on Context::create_module: makes one empty module under the
/// given name.
#[verifier::external_body]
pub(crate) fn create_module<'ctx>(ctx: &'ctx Context, name: &str) -> Module<'ctx> {
    ctx.create_module(name)
}

/// Relies on Context::create_builder: makes one instruction builder,
/// not yet positioned.
#[verifier::external_body]
pub(crate) fn create_builder<'ctx>(ctx: &'ctx Context) -> Builder<'ctx> {
    ctx.create_builder()
}

/// Relies on Context::i8_type: the 8-bit integer type handle.
#[verifier::external_body]
pub(crate) fn i8_type<'ctx>(ctx: &'ctx Context) -> IntType<'ctx> {
    ctx.i8_type()
}

/// Relies on Context::i32_type: the 32-bit integer type handle.
#[verifier::external_body]
pub(crate) fn i32_type<'ctx>(ctx: &'ctx Context) -> IntType<'ctx> {
    ctx.i32_type()
}

/// Relies on Context::i64_type: the 64-bit integer type handle.
#[verifier::external_body]
pub(crate) fn i64_type<'ctx>(ctx: &'ctx Context) -> IntType<'ctx> {
    ctx.i64_type()
}

/// Relies on IntType::ptr_type: the pointer type to this integer type,
/// in the default address space.
#[verifier::external_body]
pub(crate) fn ptr_type<'ctx>(ty: &IntType<'ctx>) -> PointerType<'ctx> {
    ty.ptr_type(AddressSpace::default())
}

/// Relies on IntType::fn_type: a variadic function type with the given
/// return type and one pointer parameter.
#[verifier::external_body]
pub(crate) fn variadic_fn_type<'ctx>(
    ret: &IntType<'ctx>,
    param: &PointerType<'ctx>,
) -> FunctionType<'ctx> {
    ret.fn_type(&[(*param).into()], true)
}

/// Relies on IntType::fn_type: a function type with the given return
/// type and no parameters.
#[verifier::external_body]
pub(crate) fn fn_type_no_params<'ctx>(ret: &IntType<'ctx>) -> FunctionType<'ctx> {
    ret.fn_type(&[], false)
}

/// Relies on Module::add_function: registers a function of the given
/// name and type in the module, with default linkage.
#[verifier::external_body]
pub(crate) fn add_function<'ctx>(
    module: &Module<'ctx>,
    name: &str,
    ty: &FunctionType<'ctx>,
) -> FunctionValue<'ctx> {
    module.add_function(name, *ty, None)
}

/// Relies on Context::append_basic_block: appends one basic block to
/// the given function.
#[verifier::external_body]
pub(crate) fn append_basic_block<'ctx>(
    ctx: &'ctx Context,
    function: &FunctionValue<'ctx>,
    name: &str,
) -> BasicBlock<'ctx> {
    ctx.append_basic_block(*function, name)
}

/// Relies on Builder::position_at_end: further instructions are emitted
/// at the end of the given block.
#[verifier::external_body]
pub(crate) fn position_at_end<'ctx>(builder: &Builder<'ctx>, block: &BasicBlock<'ctx>) {
    builder.position_at_end(*block)
}

/// Relies on Builder::build_alloca: emits one stack allocation of the
/// given type at the builder's position.
#[verifier::external_body]
pub(crate) fn build_alloca<'ctx>(
    builder: &Builder<'ctx>,
    ty: &IntType<'ctx>,
    name: &str,
) -> Result<PointerValue<'ctx>, BuilderError> {
    builder.build_alloca(*ty, name)
}

/// Relies on IntType::const_int: the constant of this type with the
/// given bits.
#[verifier::external_body]
pub(crate) fn const_int<'ctx>(
    ty: &IntType<'ctx>,
    value: u64,
    sign_extend: bool,
) -> IntValue<'ctx> {
    ty.const_int(value, sign_extend)
}

/// Relies on Builder::build_store: emits one store of the value through
/// the pointer at the builder's position.
#[verifier::external_body]
pub(crate) fn build_store<'ctx>(
    builder: &Builder<'ctx>,
    ptr: &PointerValue<'ctx>,
    value: &IntValue<'ctx>,
) -> Result<InstructionValue<'ctx>, BuilderError> {
    builder.build_store(*ptr, *value)
}

/// Relies on Builder::build_load: emits one load through the pointer at
/// the builder's position.
#[verifier::external_body]
pub(crate) fn build_load<'ctx>(
    builder: &Builder<'ctx>,
    ptr: &PointerValue<'ctx>,
    name: &str,
) -> Result<BasicValueEnum<'ctx>, BuilderError> {
    builder.build_load(*ptr, name)
}

/// Relies on Builder::build_global_string_ptr: emits one global string
/// constant and hands back its handle.
#[verifier::external_body]
pub(crate) fn build_global_string_ptr<'ctx>(
    builder: &Builder<'ctx>,
    value: &str,
    name: &str,
) -> Result<GlobalValue<'ctx>, BuilderError> {
    builder.build_global_string_ptr(value, name)
}

/// Relies on GlobalValue::as_pointer_value: the global as a pointer.
#[verifier::external_body]
pub(crate) fn global_as_pointer_value<'ctx>(global: &GlobalValue<'ctx>) -> PointerValue<'ctx> {
    (*global).as_pointer_value()
}

/// Relies on Builder::build_call: emits one call of the function with
/// the two given arguments at the builder's position.
#[verifier::external_body]
pub(crate) fn build_call2<'ctx>(
    builder: &Builder<'ctx>,
    function: &FunctionValue<'ctx>,
    arg0: &PointerValue<'ctx>,
    arg1: &BasicValueEnum<'ctx>,
    name: &str,
) -> Result<CallSiteValue<'ctx>, BuilderError> {
    builder.build_call(*function, &[(*arg0).into(), (*arg1).into()], name)
}

/// Relies on Builder::build_return: emits one return of the given value
/// at the builder's position.
#[verifier::external_body]
pub(crate) fn build_return_int<'ctx>(
    builder: &Builder<'ctx>,
    value: &IntValue<'ctx>,
) -> Result<InstructionValue<'ctx>, BuilderError> {
    builder.build_return(Some(value))
}

/// Relies on Module::print_to_string: the module's textual intermediate
/// form.
#[verifier::external_body]
pub(crate) fn module_ir_string<'ctx>(module: &Module<'ctx>) -> String {
    module.print_to_string().to_string()
}

/// Relies on Target::initialize_native: brings up the host's native
/// target; what it yields depends on the machine.
#[verifier::external_body]
pub(crate) fn initialize_native_target() -> Result<(), String> {
    Target::initialize_native(&InitializationConfig::default())
}

/// Relies on TargetMachine::get_default_triple: the host's triple,
/// which depends on the machine.
#[verifier::external_body]
pub(crate) fn default_triple() -> TargetTriple {
    TargetMachine::get_default_triple()
}

/// Relies on Target::from_triple: the target for a triple, or the
/// library's message when there is none.
#[verifier::external_body]
pub(crate) fn target_from_triple(triple: &TargetTriple) -> Result<Target, String> {
    match Target::from_triple(triple) {
        Ok(t) => Ok(t),
        Err(e) => Err(e.to_string()),
    }
}

/// Relies on Target::create_target_machine, with a generic processor
/// and default optimization, relocation and code-model settings.
#[verifier::external_body]
pub(crate) fn create_target_machine(
    target: &Target,
    triple: &TargetTriple,
) -> Option<TargetMachine> {
    target.create_target_machine(
        triple,
        "generic",
        "",
        OptimizationLevel::Default,
        RelocMode::Default,
        CodeModel::Default,
    )
}

/// Relies on TargetMachine::write_to_memory_buffer: the bytes of the
/// relocatable object file for the module.
#[verifier::external_body]
pub(crate) fn write_object_to_memory<'ctx>(
    machine: &TargetMachine,
    module: &Module<'ctx>,
) -> Result<Vec<u8>, String> {
    match machine.write_to_memory_buffer(module, FileType::Object) {
        Ok(buf) => Ok(buf.as_slice().to_vec()),
        Err(e) => Err(e.to_string()),
    }
}

} // verus!
