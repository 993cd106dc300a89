use bytevm::prelude::{BlockEncoder, FunctionBuilder, Heap, Host, Program, Variant, Vm, VmError, VmExecutionResult};
use bytevm::variant::ArithOp;


fn main_program(encoder: &mut BlockEncoder) -> Program {
    let mut program = Program::builder();
    program.add_function(FunctionBuilder::default().name("main").arity(1).body(encoder).build().unwrap());
    program.build()
}


#[test]
fn test_get_variable() {
    let out = run_program(main_program(
        BlockEncoder::default().declare_local("a").push_integer(1).set_local("a").get_local("a").return_value(),
    ))
    .unwrap();
    assert_eq!(out.result.unwrap(), Variant::Integer(1));
}

#[test]
fn test_overwrite_local() {
    let out = run_program(main_program(
        BlockEncoder::default()
            .declare_local("a")
            .push_integer(1)
            .set_local("a")
            .push_integer(2)
            .set_local("a")
            .get_local("a")
            .return_value(),
    ))
    .unwrap();
    assert_eq!(out.result.unwrap(), Variant::Integer(2));
}

#[test]
fn locals_keep_their_values_until_overwritten() {
    let out = run_program(main_program(
        BlockEncoder::default()
            .declare_local("a")
            .declare_local("b")
            .declare_local("a")
            .push_string("first".to_string())
            .set_local("a")
            .push_integer(7)
            .set_local("b")
            .push_integer(8)
            .set_local("b")
            .get_local("a")
            .return_value(),
    ))
    .unwrap();
    assert_eq!(out.result.unwrap(), Variant::String("first".to_string()));
}

#[test]
fn declared_locals_start_as_null() {
    let out = run_program(main_program(BlockEncoder::default().declare_local("a").get_local("a").return_value()))
        .unwrap();
    assert_eq!(out.result.unwrap(), Variant::Null);
}

#[test]
fn declaring_a_local_twice_keeps_one_slot() {
    let mut encoder = BlockEncoder::default();
    encoder.declare_local("a").declare_local("b").declare_local("a");
    assert_eq!(encoder.next_local_slot, 2);
    encoder.set_local("a").get_local("b");
    assert_eq!(encoder.encode().unwrap(), vec![
        bytevm::program::Instruction::SetLocal(0),
        bytevm::program::Instruction::GetLocal(1),
        bytevm::program::Instruction::Halt,
    ]);
}

#[test]
fn slot_outside_the_frame_fails() {
    let mut program = Program::builder();
    program.add_function(bytevm::program::Function {
        name: "main".to_string(),
        arity: 0,
        local_count: 1,
        instructions: vec![
            bytevm::program::Instruction::GetLocal(3),
            bytevm::program::Instruction::Return,
        ],
    });
    assert_eq!(run_program(program.build()).unwrap_err(), VmError::BadLocalIndex(3));
}
struct TestHost {
    printed: Vec<String>,
}

impl Host for TestHost {
    fn call_native(&mut self, _heap: &mut Heap, name: &String, args: Vec<Variant>) -> Result<Option<Variant>, VmError> {
        match (name.as_str(), args.as_slice()) {
            ("native_add", [Variant::Integer(a), Variant::Integer(b)]) => Ok(Some(Variant::Integer(a + b))),
            ("add", [Variant::Integer(a), Variant::Integer(b)]) => Ok(Some(Variant::Integer(a + b))),
            ("ignore", _) => Ok(None),
            _ => Err(VmError::UnknownNativeFunction(name.clone())),
        }
    }

    fn print(&mut self, line: String) {
        self.printed.push(line);
    }

    fn float_arith(&mut self, op: ArithOp, lhs: u64, rhs: u64) -> u64 {
        let a = f64::from_bits(lhs);
        let b = f64::from_bits(rhs);
        let r = match op {
            ArithOp::Add => a + b,
            ArithOp::Sub => a - b,
            ArithOp::Mul => a * b,
            ArithOp::Div => a / b,
            ArithOp::Mod => a % b,
            ArithOp::Pow => a.powf(b),
        };
        r.to_bits()
    }

    fn float_text(&self, bits: u64) -> String {
        format!("{}", f64::from_bits(bits))
    }
}

fn host() -> TestHost {
    TestHost { printed: Vec::new() }
}

fn run_program(program: Program) -> Result<VmExecutionResult, VmError> {
    let mut vm = Vm::default();
    vm.load_program(program);
    vm.run(None, &mut host())
}

