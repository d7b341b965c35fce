use chinese_compiler::codegen::{CodegenError, Compiler};
use inkwell::context::Context;

#[test]
fn emission_out_of_order_is_refused() {
    let ctx = Context::create();
    let mut c = Compiler::new(&ctx, "m");
    assert!(matches!(c.compile_print("x"), Err(CodegenError::OutOfOrder)));
    assert!(matches!(c.compile_var_decl("x", 1), Err(CodegenError::OutOfOrder)));
    assert!(matches!(c.finish_main(), Err(CodegenError::OutOfOrder)));
    assert!(matches!(c.create_main_function(), Err(CodegenError::OutOfOrder)));
    assert!(matches!(c.object_file_bytes(), Err(CodegenError::OutOfOrder)));
}

#[test]
fn declare_printf_twice_is_refused() {
    let ctx = Context::create();
    let mut c = Compiler::new(&ctx, "m");
    assert!(c.declare_printf().is_ok());
    assert!(matches!(c.declare_printf(), Err(CodegenError::OutOfOrder)));
}

#[test]
fn print_without_declaration_names_the_variable() {
    let ctx = Context::create();
    let mut c = Compiler::new(&ctx, "m");
    c.declare_printf().unwrap();
    c.create_main_function().unwrap();
    let r = c.compile_print("甲");
    assert!(matches!(r, Err(CodegenError::UndefinedVariable(n)) if n == "甲"));
}

#[test]
fn declare_then_print_lowers_one_of_each_instruction() {
    let ctx = Context::create();
    let mut c = Compiler::new(&ctx, "m");
    c.declare_printf().unwrap();
    c.create_main_function().unwrap();
    c.compile_var_decl("x", 42).unwrap();
    c.compile_print("x").unwrap();
    c.finish_main().unwrap();
    let ir = c.llvm_ir_text();
    assert_eq!(ir.matches(" = alloca ").count(), 1, "{}", ir);
    assert_eq!(ir.matches("  store ").count(), 1, "{}", ir);
    assert_eq!(ir.matches(" = load ").count(), 1, "{}", ir);
    assert_eq!(ir.matches(" = call ").count(), 1, "{}", ir);
    assert!(ir.contains("printf"));
    assert!(ir.contains("%lld"));
    assert!(ir.contains("42"));
}

#[test]
fn redeclaration_allocates_a_second_slot() {
    let ctx = Context::create();
    let mut c = Compiler::new(&ctx, "m");
    c.declare_printf().unwrap();
    c.create_main_function().unwrap();
    c.compile_var_decl("x", 1).unwrap();
    c.compile_var_decl("x", 2).unwrap();
    c.compile_print("x").unwrap();
    c.finish_main().unwrap();
    let ir = c.llvm_ir_text();
    assert_eq!(ir.matches(" = alloca ").count(), 2, "{}", ir);
    assert_eq!(ir.matches(" = load ").count(), 1, "{}", ir);
}

#[test]
fn finish_main_twice_is_refused() {
    let ctx = Context::create();
    let mut c = Compiler::new(&ctx, "m");
    c.declare_printf().unwrap();
    c.create_main_function().unwrap();
    c.finish_main().unwrap();
    assert!(matches!(c.finish_main(), Err(CodegenError::OutOfOrder)));
}

fn build_fixed_module<'ctx>(ctx: &'ctx Context) -> Compiler<'ctx> {
    let mut c = Compiler::new(ctx, "stable");
    c.declare_printf().unwrap();
    c.create_main_function().unwrap();
    c.compile_var_decl("x", 42).unwrap();
    c.compile_print("x").unwrap();
    c.finish_main().unwrap();
    c
}

#[test]
fn object_emission_is_byte_stable() {
    let ctx1 = Context::create();
    let c1 = build_fixed_module(&ctx1);
    let b1 = c1.object_file_bytes().unwrap();
    let ctx2 = Context::create();
    let c2 = build_fixed_module(&ctx2);
    let b2 = c2.object_file_bytes().unwrap();
    assert!(!b1.is_empty());
    assert_eq!(b1, b2);
}
