use bytevm::prelude::{BlockEncoder, FunctionBuilder, Heap, Host, Program, Variant, Vm, VmError, VmExecutionResult};
use bytevm::variant::ArithOp;


fn main_program(encoder: &mut BlockEncoder) -> Program {
    let mut program = Program::builder();
    program.add_function(FunctionBuilder::default().name("main").arity(1).body(encoder).build().unwrap());
    program.build()
}

use bytevm::program::{Function, Instruction};

#[test]
fn test_jumps() {
    let target = 1_000;

    let mut program = Program::builder();
    program.add_function(
        FunctionBuilder::default()
            .name("main")
            .arity(0)
            .body(
                BlockEncoder::default()
                    // create a variable to hold the result
                    .declare_local("i")
                    .push_integer(0)
                    .set_local("i")
                    // create a variable to hold the target value
                    .declare_local("target")
                    .push_integer(target)
                    .set_local("target")
                    // start of the loop
                    .add_label("start")
                    // check if i < target
                    .get_local("i")
                    .get_local("target")
                    .less_than()
                    .jump_if_false("end")
                    // increment i
                    .get_local("i")
                    .push_integer(1)
                    .add()
                    .set_local("i")
                    // jump to the start of the loop
                    .jump("start")
                    // end of the loop
                    .add_label("end")
                    // return the result
                    .get_local("i")
                    .return_value(),
            )
            .build()
            .unwrap(),
    );

    let result = run_program(program.build()).unwrap();
    assert_eq!(result.result.unwrap(), Variant::Integer(target));
    println!("Elapsed time: {:?}", result.run_time.as_secs_f64());
}

fn raw(instructions: Vec<Instruction>, local_count: usize) -> Program {
    let mut program = Program::builder();
    program.add_function(Function { name: "main".to_string(), arity: 0, local_count, instructions });
    program.build()
}

#[test]
fn numeric_loop_counts_to_ten() {
    let code = vec![
        Instruction::Push(Variant::Integer(0)),
        Instruction::SetLocal(0),
        Instruction::Push(Variant::Integer(10)),
        Instruction::SetLocal(1),
        Instruction::GetLocal(0),
        Instruction::GetLocal(1),
        Instruction::LessThan,
        Instruction::JumpIfFalse(13),
        Instruction::GetLocal(0),
        Instruction::Push(Variant::Integer(1)),
        Instruction::Add,
        Instruction::SetLocal(0),
        Instruction::Jump(4),
        Instruction::GetLocal(0),
        Instruction::Return,
    ];
    assert_eq!(run_program(raw(code, 2)).unwrap().result, Some(Variant::Integer(10)));
}

#[test]
fn pushes_then_return_gives_the_last_value() {
    let code = vec![
        Instruction::Push(Variant::Integer(1)),
        Instruction::Push(Variant::String("two".to_string())),
        Instruction::Push(Variant::Boolean(false)),
        Instruction::Return,
    ];
    assert_eq!(run_program(raw(code, 3)).unwrap().result, Some(Variant::Boolean(false)));
}

#[test]
fn halt_ends_without_a_result() {
    let out = run_program(main_program(BlockEncoder::default().push_integer(1).halt())).unwrap();
    assert_eq!(out.result, None);
    let out = run_program(main_program(BlockEncoder::default().push_integer(1))).unwrap();
    assert_eq!(out.result, None);
}

#[test]
fn return_needs_a_value() {
    let err = run_program(main_program(BlockEncoder::default().declare_local("a").return_value())).unwrap_err();
    assert_eq!(err, VmError::ReturnWithoutValue);
}

#[test]
fn panic_fails_with_its_message() {
    let err = run_program(main_program(BlockEncoder::default().push_string("boom".to_string()).panic())).unwrap_err();
    assert_eq!(err, VmError::Panic("boom".to_string()));
    let err = run_program(main_program(BlockEncoder::default().push_integer(3).panic())).unwrap_err();
    assert_eq!(err, VmError::TypeError);
}

#[test]
fn jump_if_false_wants_a_boolean() {
    let err = run_program(main_program(
        BlockEncoder::default().push_integer(0).jump_if_false("end").add_label("end").push_integer(1).return_value(),
    ))
    .unwrap_err();
    assert_eq!(err, VmError::TypeError);
}

#[test]
fn running_off_the_code_fails() {
    let err = run_program(raw(vec![Instruction::Jump(5)], 0)).unwrap_err();
    assert_eq!(err, VmError::PcOutOfBounds(5));
}

#[test]
fn pop_on_empty_operands_fails() {
    let err = run_program(raw(vec![Instruction::Pop, Instruction::Halt], 1)).unwrap_err();
    assert_eq!(err, VmError::StackUnderflow);
}

#[test]
fn step_budget_is_enforced() {
    let mut vm = Vm::default();
    vm.load_program(raw(vec![Instruction::Jump(0)], 0));
    let err = vm.run_with_budget(None, &mut host(), 1000).unwrap_err();
    assert_eq!(err, VmError::StepLimitExceeded);
}
struct TestHost {
    printed: Vec<String>,
}

impl Host for TestHost {
    fn call_native(&mut self, _heap: &mut Heap, name: &String, args: Vec<Variant>) -> Result<Option<Variant>, VmError> {
        match (name.as_str(), args.as_slice()) {
            ("native_add", [Variant::Integer(a), Variant::Integer(b)]) => Ok(Some(Variant::Integer(a + b))),
            ("add", [Variant::Integer(a), Variant::Integer(b)]) => Ok(Some(Variant::Integer(a + b))),
            ("ignore", _) => Ok(None),
            _ => Err(VmError::UnknownNativeFunction(name.clone())),
        }
    }

    fn print(&mut self, line: String) {
        self.printed.push(line);
    }

    fn float_arith(&mut self, op: ArithOp, lhs: u64, rhs: u64) -> u64 {
        let a = f64::from_bits(lhs);
        let b = f64::from_bits(rhs);
        let r = match op {
            ArithOp::Add => a + b,
            ArithOp::Sub => a - b,
            ArithOp::Mul => a * b,
            ArithOp::Div => a / b,
            ArithOp::Mod => a % b,
            ArithOp::Pow => a.powf(b),
        };
        r.to_bits()
    }

    fn float_text(&self, bits: u64) -> String {
        format!("{}", f64::from_bits(bits))
    }
}

fn host() -> TestHost {
    TestHost { printed: Vec::new() }
}

fn run_program(program: Program) -> Result<VmExecutionResult, VmError> {
    let mut vm = Vm::default();
    vm.load_program(program);
    vm.run(None, &mut host())
}

