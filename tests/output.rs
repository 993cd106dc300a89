use bytevm::prelude::{BlockEncoder, FunctionBuilder, Heap, Host, Program, Variant, Vm, VmError, VmExecutionResult};
use bytevm::variant::ArithOp;


fn run_printing(encoder: &mut BlockEncoder) -> (Option<Variant>, Vec<String>) {
    let mut program = Program::builder();
    program.add_function(FunctionBuilder::default().name("main").arity(0).body(encoder).build().unwrap());
    let mut vm = Vm::default();
    vm.load_program(program.build());
    let mut h = host();
    let out = vm.run(None, &mut h).unwrap();
    (out.result, h.printed)
}

#[test]
fn print_writes_the_display_form_and_a_newline() {
    let (result, printed) = run_printing(
        BlockEncoder::default().push_integer(41).push_integer(42).print().return_value(),
    );
    assert_eq!(printed, vec!["42\n".to_string()]);
    // the value pushed before the printed one is still on top
    assert_eq!(result, Some(Variant::Integer(41)));
}

#[test]
fn print_of_each_kind() {
    let (_, printed) = run_printing(
        BlockEncoder::default()
            .push_null()
            .print()
            .push_string("text".to_string())
            .print()
            .push_boolean(false)
            .print()
            .push_float_bits(2.5f64.to_bits())
            .print()
            .push_integer(1)
            .push_integer(2)
            .create_array(2)
            .print()
            .halt(),
    );
    assert_eq!(printed, vec!["null\n", "text\n", "false\n", "2.5\n", "[1, 2]\n"]);
}
struct TestHost {
    printed: Vec<String>,
}

impl Host for TestHost {
    fn call_native(&mut self, _heap: &mut Heap, name: &String, args: Vec<Variant>) -> Result<Option<Variant>, VmError> {
        match (name.as_str(), args.as_slice()) {
            ("native_add", [Variant::Integer(a), Variant::Integer(b)]) => Ok(Some(Variant::Integer(a + b))),
            ("add", [Variant::Integer(a), Variant::Integer(b)]) => Ok(Some(Variant::Integer(a + b))),
            ("ignore", _) => Ok(None),
            _ => Err(VmError::UnknownNativeFunction(name.clone())),
        }
    }

    fn print(&mut self, line: String) {
        self.printed.push(line);
    }

    fn float_arith(&mut self, op: ArithOp, lhs: u64, rhs: u64) -> u64 {
        let a = f64::from_bits(lhs);
        let b = f64::from_bits(rhs);
        let r = match op {
            ArithOp::Add => a + b,
            ArithOp::Sub => a - b,
            ArithOp::Mul => a * b,
            ArithOp::Div => a / b,
            ArithOp::Mod => a % b,
            ArithOp::Pow => a.powf(b),
        };
        r.to_bits()
    }

    fn float_text(&self, bits: u64) -> String {
        format!("{}", f64::from_bits(bits))
    }
}

fn host() -> TestHost {
    TestHost { printed: Vec::new() }
}

fn run_program(program: Program) -> Result<VmExecutionResult, VmError> {
    let mut vm = Vm::default();
    vm.load_program(program);
    vm.run(None, &mut host())
}

