//! Native-code generation for one compilation unit. The generator drives
//! an outside instruction builder, whose handles are opaque; alongside it
//! keeps a model of everything emitted into the entry function — the
//! phase of the required call order, the recorded stack slot of each
//! declared name, and the sequence of emitted instructions — and every
//! contract speaks of that model.
use vstd::prelude::*;

use inkwell::builder::Builder;
use inkwell::context::Context;
use inkwell::module::Module;
use inkwell::values::{FunctionValue, PointerValue};

use crate::llvm;
use crate::str_eq;

verus! {

/// Where a compilation stands in the required call order: create the
/// generator, register the output primitive, open the entry function,
/// lower declarations and prints, close the entry function.
#[derive(Clone, Copy, PartialEq, Eq, Structural, Debug)]
pub enum Phase {
    Created,
    PrintfDeclared,
    InFunction,
    Finished,
}

/// Model of one emitted entry-function instruction.
pub enum Instr {
    /// One stack slot for a 64-bit integer, recorded under `name`.
    Alloca { name: Seq<char> },
    /// A store of the constant `value` into the newest slot of `name`.
    Store { name: Seq<char>, value: int },
    /// A load from the slot of `name` allocated by the instruction at
    /// index `slot`.
    Load { name: Seq<char>, slot: int },
    /// A call of the output primitive on the loaded value of `name`,
    /// with the fixed 64-bit decimal-and-newline format descriptor.
    PrintCall { name: Seq<char> },
    /// The entry function's terminating return of the success status.
    Ret,
}

/// Model of the generator's state.
pub struct CompilerModel {
    pub phase: Phase,
    /// For each declared name, the index in `instrs` of the stack
    /// allocation of its latest declaration.
    pub slots: Map<Seq<char>, int>,
    /// Everything emitted into the entry function so far.
    pub instrs: Seq<Instr>,
}

/// The instructions that lowering one declaration emits.
pub open spec fn decl_instrs(name: Seq<char>, value: int) -> Seq<Instr> {
    seq![Instr::Alloca { name }, Instr::Store { name, value }]
}

/// The instructions that lowering one print emits.
pub open spec fn print_instrs(name: Seq<char>, slot: int) -> Seq<Instr> {
    seq![Instr::Load { name, slot }, Instr::PrintCall { name }]
}

/// How many stack allocations a sequence of instructions holds.
pub open spec fn count_allocas(s: Seq<Instr>) -> int
    decreases s.len(),
{
    if s.len() == 0 {
        0int
    } else {
        count_allocas(s.drop_last()) + if s.last() is Alloca {
            1int
        } else {
            0int
        }
    }
}

/// How many stores a sequence of instructions holds.
pub open spec fn count_stores(s: Seq<Instr>) -> int
    decreases s.len(),
{
    if s.len() == 0 {
        0int
    } else {
        count_stores(s.drop_last()) + if s.last() is Store {
            1int
        } else {
            0int
        }
    }
}

/// How many loads a sequence of instructions holds.
pub open spec fn count_loads(s: Seq<Instr>) -> int
    decreases s.len(),
{
    if s.len() == 0 {
        0int
    } else {
        count_loads(s.drop_last()) + if s.last() is Load {
            1int
        } else {
            0int
        }
    }
}

/// How many calls of the output primitive a sequence of instructions
/// holds.
pub open spec fn count_print_calls(s: Seq<Instr>) -> int
    decreases s.len(),
{
    if s.len() == 0 {
        0int
    } else {
        count_print_calls(s.drop_last()) + if s.last() is PrintCall {
            1int
        } else {
            0int
        }
    }
}

proof fn lemma_counts_concat(a: Seq<Instr>, b: Seq<Instr>)
    ensures
        count_allocas(a + b) == count_allocas(a) + count_allocas(b),
        count_stores(a + b) == count_stores(a) + count_stores(b),
        count_loads(a + b) == count_loads(a) + count_loads(b),
        count_print_calls(a + b) == count_print_calls(a) + count_print_calls(b),
    decreases b.len(),
{
    if b.len() == 0 {
        assert(a + b =~= a);
    } else {
        assert((a + b).drop_last() =~= a + b.drop_last());
        assert((a + b).last() == b.last());
        lemma_counts_concat(a, b.drop_last());
    }
}

/// Law (code-generation ordering): lowering one declaration and then
/// one print of the same name, in the emitting phase, appends exactly
/// one stack allocation, one store, one load and one call of the
/// output primitive, and the load reads the very slot the declaration
/// allocated.
pub proof fn lemma_declare_then_print_lowering(
    base: Seq<Instr>,
    slots: Map<Seq<char>, int>,
    name: Seq<char>,
    value: int,
)
    ensures
        ({
            let slots2 = slots.insert(name, base.len() as int);
            let after = base + decl_instrs(name, value) + print_instrs(name, slots2[name]);
            &&& count_allocas(after) == count_allocas(base) + 1
            &&& count_stores(after) == count_stores(base) + 1
            &&& count_loads(after) == count_loads(base) + 1
            &&& count_print_calls(after) == count_print_calls(base) + 1
            &&& after[base.len() as int] == (Instr::Alloca { name })
            &&& after[base.len() as int + 2] == (Instr::Load { name, slot: base.len() as int })
        }),
{
    let slots2 = slots.insert(name, base.len() as int);
    let d = decl_instrs(name, value);
    let p = print_instrs(name, slots2[name]);
    let after = base + d + p;
    let e0 = Seq::<Instr>::empty();
    assert(count_allocas(e0) == 0 && count_stores(e0) == 0 && count_loads(e0) == 0
        && count_print_calls(e0) == 0);
    let da = seq![Instr::Alloca { name }];
    assert(d.drop_last() =~= da);
    assert(da.drop_last() =~= e0);
    assert(da.last() == (Instr::Alloca { name }));
    assert(count_allocas(da) == 1 && count_stores(da) == 0 && count_loads(da) == 0
        && count_print_calls(da) == 0);
    assert(d.last() == (Instr::Store { name, value }));
    assert(count_allocas(d) == 1 && count_stores(d) == 1 && count_loads(d) == 0
        && count_print_calls(d) == 0);
    let pl = seq![Instr::Load { name, slot: base.len() as int }];
    assert(p.drop_last() =~= pl);
    assert(pl.drop_last() =~= e0);
    assert(pl.last() == (Instr::Load { name, slot: base.len() as int }));
    assert(count_allocas(pl) == 0 && count_stores(pl) == 0 && count_loads(pl) == 1
        && count_print_calls(pl) == 0);
    assert(p.last() == (Instr::PrintCall { name }));
    assert(count_allocas(p) == 0 && count_stores(p) == 0 && count_loads(p) == 1
        && count_print_calls(p) == 1);
    lemma_counts_concat(base, d);
    lemma_counts_concat(base + d, p);
    assert(after[base.len() as int] == d[0]);
    assert(after[base.len() as int + 2] == p[0]);
}

/// A code-generation failure. Every error is local to one compilation.
#[derive(Debug)]
pub enum CodegenError {
    /// A call was made out of the required order.
    OutOfOrder,
    /// A print was lowered for a name with no prior declaration;
    /// carries the name.
    UndefinedVariable(String),
    /// The instruction builder refused an emission; carries the stage.
    Backend(String),
    /// The native target could not be brought up; carries the stage and
    /// the target library's message.
    Target(String),
}

/// Mathematical model of a [`CodegenError`].
pub enum CodegenErrorModel {
    OutOfOrder,
    UndefinedVariable(Seq<char>),
    Backend(Seq<char>),
    Target(Seq<char>),
}

impl View for CodegenError {
    type V = CodegenErrorModel;

    open spec fn view(&self) -> CodegenErrorModel {
        match self {
            CodegenError::OutOfOrder => CodegenErrorModel::OutOfOrder,
            CodegenError::UndefinedVariable(s) => CodegenErrorModel::UndefinedVariable(s@),
            CodegenError::Backend(s) => CodegenErrorModel::Backend(s@),
            CodegenError::Target(s) => CodegenErrorModel::Target(s@),
        }
    }
}

/// The generator for one compilation unit: one module, one instruction
/// builder, one entry function.
pub struct Compiler<'ctx> {
    context: &'ctx Context,
    module: Module<'ctx>,
    builder: Builder<'ctx>,
    variables: Vec<(String, PointerValue<'ctx>)>,
    printf_fn: Option<FunctionValue<'ctx>>,
    phase: Phase,
    slots: Ghost<Map<Seq<char>, int>>,
    instrs: Ghost<Seq<Instr>>,
}

impl<'ctx> View for Compiler<'ctx> {
    type V = CompilerModel;

    closed spec fn view(&self) -> CompilerModel {
        CompilerModel { phase: self.phase, slots: self.slots@, instrs: self.instrs@ }
    }
}

impl<'ctx> Compiler<'ctx> {
    /// The recorded slots are exactly the names held in the variable
    /// table.
    spec fn table_ok(variables: Seq<(String, PointerValue<'ctx>)>, slots: Map<Seq<char>, int>) -> bool {
        &&& (forall|j: int|
            0 <= j < variables.len() ==> slots.contains_key(#[trigger] variables[j].0@))
        &&& (forall|k: Seq<char>|
            #[trigger] slots.contains_key(k) ==> exists|j: int|
                0 <= j < variables.len() && #[trigger] variables[j].0@ == k)
    }

    /// The generator's internal consistency: past the first phase the
    /// output primitive is registered, and the recorded slots are
    /// exactly the names held in the variable table.
    pub closed spec fn wf(self) -> bool {
        &&& (self.phase != Phase::Created ==> self.printf_fn is Some)
        &&& Self::table_ok(self.variables@, self.slots@)
    }

    /// Creates a generator bound to one fresh module under the given
    /// name, with nothing registered and nothing emitted.
    pub fn new(context: &'ctx Context, module_name: &str) -> (r: Compiler<'ctx>)
        ensures
            r.wf(),
            r@.phase == Phase::Created,
            r@.slots == Map::<Seq<char>, int>::empty(),
            r@.instrs == Seq::<Instr>::empty(),
    {
        let module = llvm::create_module(context, module_name);
        let builder = llvm::create_builder(context);
        Compiler {
            context,
            module,
            builder,
            variables: Vec::new(),
            printf_fn: None,
            phase: Phase::Created,
            slots: Ghost(Map::empty()),
            instrs: Ghost(Seq::empty()),
        }
    }

    /// Registers the variadic formatted-output primitive. Must be the
    /// first call after creation; out of order it fails and changes
    /// nothing.
    pub fn declare_printf(&mut self) -> (r: Result<(), CodegenError>)
        requires
            old(self).wf(),
        ensures
            final(self).wf(),
            final(self)@.slots == old(self)@.slots,
            final(self)@.instrs == old(self)@.instrs,
            match r {
                Ok(_) => old(self)@.phase == Phase::Created && final(self)@.phase
                    == Phase::PrintfDeclared,
                Err(e) => old(self)@.phase != Phase::Created && final(self)@ == old(self)@ && e@
                    == CodegenErrorModel::OutOfOrder,
            },
    {
        if self.phase != Phase::Created {
            return Err(CodegenError::OutOfOrder);
        }
        let i8t = llvm::i8_type(self.context);
        let i8p = llvm::ptr_type(&i8t);
        let i32t = llvm::i32_type(self.context);
        let printf_ty = llvm::variadic_fn_type(&i32t, &i8p);
        let f = llvm::add_function(&self.module, "printf", &printf_ty);
        self.printf_fn = Some(f);
        self.phase = Phase::PrintfDeclared;
        Ok(())
    }

    /// Opens the single entry function and positions emission at its
    /// body start. Must follow the output-primitive registration; out
    /// of order it fails and changes nothing.
    pub fn create_main_function(&mut self) -> (r: Result<FunctionValue<'ctx>, CodegenError>)
        requires
            old(self).wf(),
        ensures
            final(self).wf(),
            final(self)@.slots == old(self)@.slots,
            final(self)@.instrs == old(self)@.instrs,
            match r {
                Ok(_) => old(self)@.phase == Phase::PrintfDeclared && final(self)@.phase
                    == Phase::InFunction,
                Err(e) => old(self)@.phase != Phase::PrintfDeclared && final(self)@ == old(self)@
                    && e@ == CodegenErrorModel::OutOfOrder,
            },
    {
        if self.phase != Phase::PrintfDeclared {
            return Err(CodegenError::OutOfOrder);
        }
        let i32t = llvm::i32_type(self.context);
        let main_ty = llvm::fn_type_no_params(&i32t);
        let main_fn = llvm::add_function(&self.module, "main", &main_ty);
        let entry = llvm::append_basic_block(self.context, &main_fn, "entry");
        llvm::position_at_end(&self.builder, &entry);
        self.phase = Phase::InFunction;
        Ok(main_fn)
    }

    /// Index of the latest variable-table entry for `name`, if any.
    fn find_var(&self, name: &str) -> (r: Option<usize>)
        ensures
            match r {
                Some(i) => i < self.variables@.len() && self.variables@[i as int].0@ == name@
                    && forall|j: int|
                    i < j < self.variables@.len() ==> self.variables@[j].0@ != name@,
                None => forall|j: int|
                    0 <= j < self.variables@.len() ==> self.variables@[j].0@ != name@,
            },
    {
        let n = self.variables.len();
        let mut i: usize = n;
        while i > 0
            invariant
                n == self.variables@.len(),
                0 <= i <= n,
                forall|j: int| i <= j < n ==> self.variables@[j].0@ != name@,
            decreases i,
        {
            let k = i - 1;
            if str_eq(self.variables[k].0.as_str(), name) {
                return Some(k);
            }
            i = k;
        }
        None
    }

    /// Lowers one declaration: allocates a stack slot sized for a
    /// 64-bit integer, stores the constant into it, and records the
    /// slot under `name`, rebinding any prior slot of that name. Out of
    /// order it fails and changes nothing; a refusal of the builder is
    /// reported with the stage that failed.
    pub fn compile_var_decl(&mut self, var_name: &str, value: i64) -> (r: Result<
        (),
        CodegenError,
    >)
        requires
            old(self).wf(),
        ensures
            final(self).wf(),
            final(self)@.phase == old(self)@.phase,
            match r {
                Ok(_) => old(self)@.phase == Phase::InFunction && final(self)@.instrs == old(
                    self,
                )@.instrs + decl_instrs(var_name@, value as int) && final(self)@.slots == old(
                    self,
                )@.slots.insert(var_name@, old(self)@.instrs.len() as int),
                Err(e) => final(self)@.slots == old(self)@.slots && match e@ {
                    CodegenErrorModel::OutOfOrder => old(self)@.phase != Phase::InFunction
                        && final(self)@ == old(self)@,
                    CodegenErrorModel::Backend(stage) => old(self)@.phase == Phase::InFunction && (
                    (stage == "alloca"@ && final(self)@.instrs == old(self)@.instrs) || (stage
                        == "store"@ && final(self)@.instrs == old(self)@.instrs.push(
                        Instr::Alloca { name: var_name@ },
                    ))),
                    _ => false,
                },
            },
    {
        if self.phase != Phase::InFunction {
            return Err(CodegenError::OutOfOrder);
        }
        proof {
            reveal_strlit("alloca");
            reveal_strlit("store");
        }
        let i64t = llvm::i64_type(self.context);
        let ptr = match llvm::build_alloca(&self.builder, &i64t, var_name) {
            Ok(p) => p,
            Err(_) => {
                return Err(CodegenError::Backend(String::from_str("alloca")));
            },
        };
        proof {
            self.instrs@ = self.instrs@.push(Instr::Alloca { name: var_name@ });
        }
        let cv = llvm::const_int(&i64t, value as u64, false);
        match llvm::build_store(&self.builder, &ptr, &cv) {
            Ok(_) => {},
            Err(_) => {
                return Err(CodegenError::Backend(String::from_str("store")));
            },
        }
        proof {
            self.instrs@ = self.instrs@.push(Instr::Store { name: var_name@, value: value as int });
            self.slots@ = self.slots@.insert(var_name@, (self.instrs@.len() - 2) as int);
        }
        self.variables.push((String::from_str(var_name), ptr));
        proof {
            assert(self.instrs@ =~= old(self)@.instrs + decl_instrs(var_name@, value as int));
            assert forall|k: Seq<char>| #[trigger] self.slots@.contains_key(k) implies exists|
                j: int,
            |
                0 <= j < self.variables@.len() && #[trigger] self.variables@[j].0@ == k by {
                if k == var_name@ {
                    assert(self.variables@[self.variables@.len() - 1].0@ == k);
                } else {
                    assert(old(self).slots@.contains_key(k));
                    let j = choose|j: int|
                        0 <= j < old(self).variables@.len() && #[trigger] old(
                            self,
                        ).variables@[j].0@ == k;
                    assert(self.variables@[j].0@ == k);
                }
            }
        }
        Ok(())
    }

    /// Lowers one print: loads the value of the latest slot recorded
    /// under `name` and emits a call of the output primitive with the
    /// fixed 64-bit decimal-and-newline format descriptor and the
    /// loaded value. A name with no prior declaration fails with the
    /// undefined-variable error naming it; out of order it fails and
    /// changes nothing; a refusal of the builder is reported with the
    /// stage that failed.
    pub fn compile_print(&mut self, var_name: &str) -> (r: Result<(), CodegenError>)
        requires
            old(self).wf(),
        ensures
            final(self).wf(),
            final(self)@.phase == old(self)@.phase,
            final(self)@.slots == old(self)@.slots,
            match r {
                Ok(_) => old(self)@.phase == Phase::InFunction && old(self)@.slots.contains_key(
                    var_name@,
                ) && final(self)@.instrs == old(self)@.instrs + print_instrs(
                    var_name@,
                    old(self)@.slots[var_name@],
                ),
                Err(e) => match e@ {
                    CodegenErrorModel::OutOfOrder => old(self)@.phase != Phase::InFunction
                        && final(self)@ == old(self)@,
                    CodegenErrorModel::UndefinedVariable(n) => old(self)@.phase
                        == Phase::InFunction && n == var_name@ && !old(self)@.slots.contains_key(
                        var_name@,
                    ) && final(self)@ == old(self)@,
                    CodegenErrorModel::Backend(stage) => old(self)@.phase == Phase::InFunction
                        && old(self)@.slots.contains_key(var_name@) && (((stage == "format"@
                        || stage == "load"@) && final(self)@.instrs == old(self)@.instrs) || (stage
                        == "call"@ && final(self)@.instrs == old(self)@.instrs.push(
                        Instr::Load { name: var_name@, slot: old(self)@.slots[var_name@] },
                    ))),
                    _ => false,
                },
            },
    {
        if self.phase != Phase::InFunction {
            return Err(CodegenError::OutOfOrder);
        }
        proof {
            reveal_strlit("format");
            reveal_strlit("load");
            reveal_strlit("call");
        }
        let idx = match self.find_var(var_name) {
            Some(i) => i,
            None => {
                return Err(CodegenError::UndefinedVariable(String::from_str(var_name)));
            },
        };
        let printf = match &self.printf_fn {
            Some(f) => f,
            None => {
                proof {
                    assert(false);
                }
                return Err(CodegenError::OutOfOrder);
            },
        };
        let fmt = match llvm::build_global_string_ptr(&self.builder, "%lld\n", "fmt") {
            Ok(g) => g,
            Err(_) => {
                return Err(CodegenError::Backend(String::from_str("format")));
            },
        };
        let fmt_ptr = llvm::global_as_pointer_value(&fmt);
        let loaded = match llvm::build_load(&self.builder, &self.variables[idx].1, var_name) {
            Ok(v) => v,
            Err(_) => {
                return Err(CodegenError::Backend(String::from_str("load")));
            },
        };
        proof {
            self.instrs@ = self.instrs@.push(
                Instr::Load { name: var_name@, slot: self.slots@[var_name@] },
            );
        }
        match llvm::build_call2(&self.builder, printf, &fmt_ptr, &loaded, "printf_call") {
            Ok(_) => {},
            Err(_) => {
                return Err(CodegenError::Backend(String::from_str("call")));
            },
        }
        proof {
            self.instrs@ = self.instrs@.push(Instr::PrintCall { name: var_name@ });
            assert(self.instrs@ =~= old(self)@.instrs + print_instrs(
                var_name@,
                old(self)@.slots[var_name@],
            ));
        }
        Ok(())
    }

    /// Closes the entry function with its terminating return of the
    /// success status. Out of order it fails and changes nothing; a
    /// refusal of the builder is reported with the stage that failed.
    pub fn finish_main(&mut self) -> (r: Result<(), CodegenError>)
        requires
            old(self).wf(),
        ensures
            final(self).wf(),
            final(self)@.slots == old(self)@.slots,
            match r {
                Ok(_) => old(self)@.phase == Phase::InFunction && final(self)@.phase
                    == Phase::Finished && final(self)@.instrs == old(self)@.instrs.push(Instr::Ret),
                Err(e) => final(self)@ == old(self)@ && match e@ {
                    CodegenErrorModel::OutOfOrder => old(self)@.phase != Phase::InFunction,
                    CodegenErrorModel::Backend(stage) => old(self)@.phase == Phase::InFunction
                        && stage == "return"@,
                    _ => false,
                },
            },
    {
        if self.phase != Phase::InFunction {
            return Err(CodegenError::OutOfOrder);
        }
        proof {
            reveal_strlit("return");
        }
        let i32t = llvm::i32_type(self.context);
        let zero = llvm::const_int(&i32t, 0, false);
        match llvm::build_return_int(&self.builder, &zero) {
            Ok(_) => {},
            Err(_) => {
                return Err(CodegenError::Backend(String::from_str("return")));
            },
        }
        proof {
            self.instrs@ = self.instrs@.push(Instr::Ret);
        }
        self.phase = Phase::Finished;
        Ok(())
    }

    /// The module's human-readable intermediate form. Relies on
    /// Module::print_to_string.
    pub fn llvm_ir_text(&self) -> String {
        llvm::module_ir_string(&self.module)
    }

    /// The bytes of a relocatable object file for the host's native
    /// target, built with default optimization, relocation and
    /// code-model settings. Allowed only once the entry function is
    /// finished; each failing stage is named in the error.
    pub fn object_file_bytes(&self) -> (r: Result<Vec<u8>, CodegenError>)
        ensures
            match r {
                Ok(_) => self@.phase == Phase::Finished,
                Err(e) => match e@ {
                    CodegenErrorModel::OutOfOrder => self@.phase != Phase::Finished,
                    CodegenErrorModel::Target(_) => self@.phase == Phase::Finished,
                    _ => false,
                },
            },
    {
        if self.phase != Phase::Finished {
            return Err(CodegenError::OutOfOrder);
        }
        if let Err(e) = llvm::initialize_native_target() {
            let mut msg = String::from_str("native target initialization: ");
            msg.append(e.as_str());
            return Err(CodegenError::Target(msg));
        }
        let triple = llvm::default_triple();
        let target = match llvm::target_from_triple(&triple) {
            Ok(t) => t,
            Err(e) => {
                let mut msg = String::from_str("target lookup: ");
                msg.append(e.as_str());
                return Err(CodegenError::Target(msg));
            },
        };
        let machine = match llvm::create_target_machine(&target, &triple) {
            Some(m) => m,
            None => {
                return Err(CodegenError::Target(String::from_str(
                    "target machine construction failed",
                )));
            },
        };
        match llvm::write_object_to_memory(&machine, &self.module) {
            Ok(bytes) => Ok(bytes),
            Err(e) => {
                let mut msg = String::from_str("object emission: ");
                msg.append(e.as_str());
                Err(CodegenError::Target(msg))
            },
        }
    }
}

} // verus!
