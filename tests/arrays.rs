use bytevm::prelude::{BlockEncoder, FunctionBuilder, Heap, Host, Program, Variant, Vm, VmError, VmExecutionResult};
use bytevm::variant::ArithOp;


fn main_program(encoder: &mut BlockEncoder) -> Program {
    let mut program = Program::builder();
    program.add_function(FunctionBuilder::default().name("main").arity(1).body(encoder).build().unwrap());
    program.build()
}

#[test]
fn test_create_array() {
    let out = run_program(main_program(
        BlockEncoder::default()
            // Create an array with 3 elements
            .push_integer(1)
            .push_integer(2)
            .push_integer(3)
            .create_array(3)
            // Return the array
            .return_value(),
    ))
    .unwrap();

    match out.result.unwrap() {
        Variant::Array(handle) => {
            let array = out.heap.array(handle).unwrap();
            assert_eq!(array.len(), 3);
            assert_eq!(array.get(0), Some(&Variant::Integer(1)));
            assert_eq!(array.get(1), Some(&Variant::Integer(2)));
            assert_eq!(array.get(2), Some(&Variant::Integer(3)));
        }
        _ => panic!("Expected array"),
    }
}

#[test]
fn test_get_array_element() {
    let out = run_program(main_program(
        BlockEncoder::default()
            .push_integer(1)
            .push_integer(2)
            .push_integer(3)
            .create_array(3)
            // Return the second element
            .push_integer(1)
            .get_array_item()
            .return_value(),
    ))
    .unwrap();
    assert_eq!(out.result.unwrap(), Variant::Integer(2));
}

#[test]
fn test_set_array_element() {
    let out = run_program(main_program(
        BlockEncoder::default()
            .push_integer(1)
            .push_integer(2)
            .push_integer(3)
            .create_array(3)
            // Set the second element to 4
            .push_integer(1)
            .push_integer(4)
            .set_array_item()
            // Return the second element
            .push_integer(1)
            .get_array_item()
            .return_value(),
    ))
    .unwrap();
    assert_eq!(out.result.unwrap(), Variant::Integer(4));
}

#[test]
fn test_get_array_length() {
    let out = run_program(main_program(
        BlockEncoder::default()
            .push_integer(1)
            .push_integer(2)
            .push_integer(3)
            .create_array(3)
            .get_array_length()
            .return_value(),
    ))
    .unwrap();
    assert_eq!(out.result.unwrap(), Variant::Integer(3));
}

#[test]
fn mutation_through_one_alias_is_seen_through_another() {
    let out = run_program(main_program(
        BlockEncoder::default()
            .declare_local("x")
            .declare_local("y")
            .push_integer(10)
            .push_integer(20)
            .create_array(2)
            .set_local("x")
            // y is a second alias of the same array
            .get_local("x")
            .set_local("y")
            .get_local("x")
            .push_integer(0)
            .push_integer(99)
            .set_array_item()
            .pop()
            .get_local("y")
            .push_integer(0)
            .get_array_item()
            .return_value(),
    ))
    .unwrap();
    assert_eq!(out.result.unwrap(), Variant::Integer(99));
}

#[test]
fn set_array_item_pushes_the_same_array_back() {
    let out = run_program(main_program(
        BlockEncoder::default()
            .push_integer(1)
            .create_array(1)
            .push_integer(0)
            .push_integer(5)
            .set_array_item()
            .return_value(),
    ))
    .unwrap();
    match out.result.unwrap() {
        Variant::Array(handle) => assert_eq!(out.heap.array(handle).unwrap(), &vec![Variant::Integer(5)]),
        _ => panic!("Expected array"),
    }
}

#[test]
fn array_index_out_of_bounds_fails() {
    let err = run_program(main_program(
        BlockEncoder::default().push_integer(1).create_array(1).push_integer(1).get_array_item().return_value(),
    ))
    .unwrap_err();
    assert_eq!(err, VmError::IndexOutOfBounds);
    let err = run_program(main_program(
        BlockEncoder::default().push_integer(1).create_array(1).push_integer(-1).get_array_item().return_value(),
    ))
    .unwrap_err();
    assert_eq!(err, VmError::IndexOutOfBounds);
}

#[test]
fn array_operations_need_an_array() {
    let err = run_program(main_program(
        BlockEncoder::default().push_integer(1).push_integer(0).get_array_item().return_value(),
    ))
    .unwrap_err();
    assert_eq!(err, VmError::TypeError);
    let err = run_program(main_program(
        BlockEncoder::default().push_integer(1).create_array(1).push_boolean(true).get_array_item().return_value(),
    ))
    .unwrap_err();
    assert_eq!(err, VmError::TypeError);
}

#[test]
fn create_array_needs_enough_operands() {
    let err = run_program(main_program(BlockEncoder::default().push_integer(1).create_array(2).return_value()))
        .unwrap_err();
    assert_eq!(err, VmError::StackUnderflow);
}

#[test]
fn adding_arrays_concatenates_into_a_fresh_array() {
    let out = run_program(main_program(
        BlockEncoder::default()
            .push_integer(1)
            .create_array(1)
            .push_integer(2)
            .push_integer(3)
            .create_array(2)
            .add()
            .return_value(),
    ))
    .unwrap();
    match out.result.unwrap() {
        Variant::Array(handle) => {
            assert_eq!(handle, 2);
            assert_eq!(
                out.heap.array(handle).unwrap(),
                &vec![Variant::Integer(1), Variant::Integer(2), Variant::Integer(3)]
            );
        }
        _ => panic!("Expected array"),
    }
}

#[test]
fn arrays_compare_by_contents() {
    let out = run_program(main_program(
        BlockEncoder::default()
            .push_integer(1)
            .push_string("a".to_string())
            .create_array(2)
            .push_integer(1)
            .push_string("a".to_string())
            .create_array(2)
            .equal()
            .return_value(),
    ))
    .unwrap();
    assert_eq!(out.result.unwrap(), Variant::Boolean(true));
}
struct TestHost {
    printed: Vec<String>,
}

impl Host for TestHost {
    fn call_native(&mut self, _heap: &mut Heap, name: &String, args: Vec<Variant>) -> Result<Option<Variant>, VmError> {
        match (name.as_str(), args.as_slice()) {
            ("native_add", [Variant::Integer(a), Variant::Integer(b)]) => Ok(Some(Variant::Integer(a + b))),
            ("add", [Variant::Integer(a), Variant::Integer(b)]) => Ok(Some(Variant::Integer(a + b))),
            ("ignore", _) => Ok(None),
            _ => Err(VmError::UnknownNativeFunction(name.clone())),
        }
    }

    fn print(&mut self, line: String) {
        self.printed.push(line);
    }

    fn float_arith(&mut self, op: ArithOp, lhs: u64, rhs: u64) -> u64 {
        let a = f64::from_bits(lhs);
        let b = f64::from_bits(rhs);
        let r = match op {
            ArithOp::Add => a + b,
            ArithOp::Sub => a - b,
            ArithOp::Mul => a * b,
            ArithOp::Div => a / b,
            ArithOp::Mod => a % b,
            ArithOp::Pow => a.powf(b),
        };
        r.to_bits()
    }

    fn float_text(&self, bits: u64) -> String {
        format!("{}", f64::from_bits(bits))
    }
}

fn host() -> TestHost {
    TestHost { printed: Vec::new() }
}

fn run_program(program: Program) -> Result<VmExecutionResult, VmError> {
    let mut vm = Vm::default();
    vm.load_program(program);
    vm.run(None, &mut host())
}

