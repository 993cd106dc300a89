use bytevm::prelude::{BlockEncoder, FunctionBuilder, Heap, Host, Program, Variant, Vm, VmError, VmExecutionResult};
use bytevm::variant::ArithOp;

use bytevm::prelude::ProgramBuilder;
use bytevm::program::SymbolEntry;

#[test]
fn test_user_defined_function() {
    let mut program = Program::builder();

    program.add_function(
        FunctionBuilder::default()
            .name("main")
            .arity(0)
            .body(
                BlockEncoder::default()
                    // Call the add function with 1 and 2
                    .push_integer(1)
                    .push_integer(2)
                    .call_function_by_name("add")
                    // Return the result
                    .return_value(),
            )
            .build()
            .unwrap(),
    );

    program.add_function(
        FunctionBuilder::default()
            .name("add")
            .arity(2)
            .body(
                BlockEncoder::default()
                    .declare_local("a")
                    .declare_local("b")
                    .get_local("a")
                    .get_local("b")
                    .add()
                    .return_value(),
            )
            .build()
            .unwrap(),
    );

    let mut vm = Vm::default();
    vm.load_program(program.build());
    let result = vm.run(None, &mut host()).unwrap().result.unwrap();

    assert_eq!(result, Variant::Integer(3));
}

#[test]
fn test_builtin_function() {
    let mut program = Program::builder();
    program.add_function(
        FunctionBuilder::default()
            .name("main")
            .arity(0)
            .body(
                BlockEncoder::default()
                    // Call the add function with 1 and 2
                    .push_integer(1)
                    .push_integer(2)
                    .call_function_by_name("native_add")
                    // Return the result
                    .return_value(),
            )
            .build()
            .unwrap(),
    );

    let mut vm = Vm::default();
    vm.load_program(program.build());
    vm.register_native_function(String::from("native_add"), 2);

    let result = vm.run(None, &mut host()).unwrap().result.unwrap();
    assert_eq!(result, Variant::Integer(3));
}

#[test]
fn native_add_by_symbolic_name() {
    let mut program = Program::builder();
    program.add_function(
        FunctionBuilder::default()
            .name("main")
            .arity(0)
            .body(BlockEncoder::default().push_integer(1).push_integer(2).call_function_by_name("add").return_value())
            .build()
            .unwrap(),
    );
    let mut vm = Vm::default();
    vm.register_native_function(String::from("add"), 2);
    vm.load_program(program.build());
    assert_eq!(vm.run(None, &mut host()).unwrap().result, Some(Variant::Integer(3)));
}

fn single(name: &str, arity: usize, encoder: &mut BlockEncoder) -> Program {
    let mut program = ProgramBuilder::new();
    program.add_function(FunctionBuilder::default().name(name).arity(arity).body(encoder).build().unwrap());
    program.build()
}

#[test]
fn arguments_arrive_as_the_first_locals() {
    let mut program = Program::builder();
    program.add_function(
        FunctionBuilder::default()
            .name("main")
            .arity(0)
            .body(
                BlockEncoder::default()
                    .push_integer(10)
                    .push_integer(20)
                    .push_integer(30)
                    .call_function_by_name("second")
                    .return_value(),
            )
            .build()
            .unwrap(),
    );
    program.add_function(
        FunctionBuilder::default()
            .name("second")
            .arity(3)
            .body(
                BlockEncoder::default()
                    .declare_local("a")
                    .declare_local("b")
                    .declare_local("c")
                    .declare_local("scratch")
                    .get_local("b")
                    .return_value(),
            )
            .build()
            .unwrap(),
    );
    let out = run_program(program.build()).unwrap();
    assert_eq!(out.result.unwrap(), Variant::Integer(20));
}

#[test]
fn calls_by_index_reach_the_function() {
    let mut program = Program::builder();
    program.add_function(
        FunctionBuilder::default()
            .name("main")
            .arity(0)
            .body(BlockEncoder::default().push_integer(4).call_function_by_index(1).return_value())
            .build()
            .unwrap(),
    );
    program.add_function(
        FunctionBuilder::default()
            .name("double")
            .arity(1)
            .body(BlockEncoder::default().declare_local("x").get_local("x").get_local("x").add().return_value())
            .build()
            .unwrap(),
    );
    assert_eq!(run_program(program.build()).unwrap().result.unwrap(), Variant::Integer(8));
}

#[test]
fn unknown_function_fails() {
    let err = run_program(single("main", 0, BlockEncoder::default().call_function_by_name("nowhere").return_value()))
        .unwrap_err();
    assert_eq!(err, VmError::UnknownFunction("nowhere".to_string()));
    let err = run_program(single("main", 0, BlockEncoder::default().call_function_by_index(7).return_value()))
        .unwrap_err();
    assert_eq!(err, VmError::UnknownFunctionIndex(7));
}

#[test]
fn entry_point_must_be_a_user_defined_function() {
    let mut vm = Vm::default();
    vm.load_program(single("main", 0, BlockEncoder::default().push_integer(1).return_value()));
    let err = vm.run(Some("start".to_string()), &mut host()).unwrap_err();
    assert_eq!(err, VmError::UnknownEntryPoint("start".to_string()));
    vm.register_native_function("native_add".to_string(), 2);
    let err = vm.run(Some("native_add".to_string()), &mut host()).unwrap_err();
    assert_eq!(err, VmError::UnknownEntryPoint("native_add".to_string()));
    let ok = vm.run(Some("main".to_string()), &mut host()).unwrap();
    assert_eq!(ok.result, Some(Variant::Integer(1)));
}

#[test]
fn native_function_without_result_pushes_nothing() {
    let mut vm = Vm::default();
    vm.load_program(single(
        "main",
        0,
        BlockEncoder::default().push_integer(5).push_integer(6).call_function_by_name("ignore").return_value(),
    ));
    vm.register_native_function("ignore".to_string(), 1);
    assert_eq!(vm.run(None, &mut host()).unwrap().result, Some(Variant::Integer(5)));
}

#[test]
fn native_function_the_host_lacks_fails() {
    let mut vm = Vm::default();
    vm.load_program(single("main", 0, BlockEncoder::default().call_function_by_name("missing").return_value()));
    vm.register_native_function("missing".to_string(), 0);
    let err = vm.run(None, &mut host()).unwrap_err();
    assert_eq!(err, VmError::UnknownNativeFunction("missing".to_string()));
}

#[test]
fn native_call_needs_its_arguments() {
    let mut vm = Vm::default();
    vm.load_program(single("main", 0, BlockEncoder::default().push_integer(1).call_function_by_name("add").return_value()));
    vm.register_native_function("add".to_string(), 2);
    assert_eq!(vm.run(None, &mut host()).unwrap_err(), VmError::StackUnderflow);
}

#[test]
fn loading_twice_moves_the_second_program_behind_the_first() {
    let mut vm = Vm::default();
    vm.load_program(single("one", 0, BlockEncoder::default().push_integer(1).return_value()));
    let mut program = Program::builder();
    program.add_function(
        FunctionBuilder::default()
            .name("main")
            .arity(0)
            .body(BlockEncoder::default().call_function_by_index(1).return_value())
            .build()
            .unwrap(),
    );
    program.add_function(
        FunctionBuilder::default()
            .name("two")
            .arity(0)
            .body(BlockEncoder::default().push_integer(2).return_value())
            .build()
            .unwrap(),
    );
    vm.load_program(program.build());
    assert_eq!(vm.functions.len(), 3);
    assert_eq!(vm.run(None, &mut host()).unwrap().result, Some(Variant::Integer(2)));
    assert_eq!(vm.run(Some("one".to_string()), &mut host()).unwrap().result, Some(Variant::Integer(1)));
}

#[test]
fn symbols_of_native_functions_do_not_shadow_user_functions() {
    let mut program = Program::builder();
    program.add_function(
        FunctionBuilder::default()
            .name("main")
            .arity(0)
            .body(BlockEncoder::default().push_integer(1).return_value())
            .build()
            .unwrap(),
    );
    program.add_symbol("main".to_string(), SymbolEntry::NativeFunction { arity: 0 });
    program.add_symbol("print_it".to_string(), SymbolEntry::NativeFunction { arity: 1 });
    let built = program.build();
    assert_eq!(built.symbol_table.len(), 2);
    assert_eq!(built.symbol_table[0].1, SymbolEntry::UserDefinedFunction { index: 0 });
    assert_eq!(built.symbol_table[1].1, SymbolEntry::NativeFunction { arity: 1 });
}
struct TestHost {
    printed: Vec<String>,
}

impl Host for TestHost {
    fn call_native(&mut self, _heap: &mut Heap, name: &String, args: Vec<Variant>) -> Result<Option<Variant>, VmError> {
        match (name.as_str(), args.as_slice()) {
            ("native_add", [Variant::Integer(a), Variant::Integer(b)]) => Ok(Some(Variant::Integer(a + b))),
            ("add", [Variant::Integer(a), Variant::Integer(b)]) => Ok(Some(Variant::Integer(a + b))),
            ("ignore", _) => Ok(None),
            _ => Err(VmError::UnknownNativeFunction(name.clone())),
        }
    }

    fn print(&mut self, line: String) {
        self.printed.push(line);
    }

    fn float_arith(&mut self, op: ArithOp, lhs: u64, rhs: u64) -> u64 {
        let a = f64::from_bits(lhs);
        let b = f64::from_bits(rhs);
        let r = match op {
            ArithOp::Add => a + b,
            ArithOp::Sub => a - b,
            ArithOp::Mul => a * b,
            ArithOp::Div => a / b,
            ArithOp::Mod => a % b,
            ArithOp::Pow => a.powf(b),
        };
        r.to_bits()
    }

    fn float_text(&self, bits: u64) -> String {
        format!("{}", f64::from_bits(bits))
    }
}

fn host() -> TestHost {
    TestHost { printed: Vec::new() }
}

fn run_program(program: Program) -> Result<VmExecutionResult, VmError> {
    let mut vm = Vm::default();
    vm.load_program(program);
    vm.run(None, &mut host())
}

