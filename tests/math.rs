use bytevm::prelude::{BlockEncoder, FunctionBuilder, Heap, Host, Program, Variant, Vm, VmError, VmExecutionResult};
use bytevm::variant::ArithOp;


fn main_program(encoder: &mut BlockEncoder) -> Program {
    let mut program = Program::builder();
    program.add_function(FunctionBuilder::default().name("main").arity(1).body(encoder).build().unwrap());
    program.build()
}


fn result_of(encoder: &mut BlockEncoder) -> Result<Option<Variant>, VmError> {
    run_program(main_program(encoder)).map(|out| out.result)
}

fn float(x: f64) -> u64 {
    x.to_bits()
}

#[test]
fn test_add_and_compare() {
    let result = result_of(BlockEncoder::default()
        .push_integer(1)
        .push_integer(2)
        .add()
        .push_integer(3)
        .equal()
        .return_value())
    .unwrap()
    .unwrap();
    assert_eq!(result, Variant::Boolean(true));
}

#[test]
fn test_add_and_compare_false() {
    let result = result_of(BlockEncoder::default()
        .push_integer(1)
        .push_integer(2)
        .add()
        .push_integer(4)
        .equal()
        .return_value())
    .unwrap()
    .unwrap();
    assert_eq!(result, Variant::Boolean(false));
}

#[test]
fn test_sub_and_compare() {
    let result = result_of(BlockEncoder::default()
        .push_integer(5)
        .push_integer(2)
        .sub()
        .push_integer(3)
        .equal()
        .return_value())
    .unwrap()
    .unwrap();
    assert_eq!(result, Variant::Boolean(true));
}

#[test]
fn test_mul_and_compare() {
    let result = result_of(BlockEncoder::default()
        .push_integer(2)
        .push_integer(3)
        .mul()
        .push_integer(6)
        .equal()
        .return_value())
    .unwrap()
    .unwrap();
    assert_eq!(result, Variant::Boolean(true));
}

#[test]
fn test_div_and_compare() {
    let result = result_of(BlockEncoder::default()
        .push_integer(6)
        .push_integer(3)
        .div()
        .push_integer(2)
        .equal()
        .return_value())
    .unwrap()
    .unwrap();
    assert_eq!(result, Variant::Boolean(true));
}

#[test]
fn test_mod_and_compare() {
    let result = result_of(BlockEncoder::default()
        .push_integer(7)
        .push_integer(3)
        .modulus()
        .push_integer(1)
        .equal()
        .return_value())
    .unwrap()
    .unwrap();
    assert_eq!(result, Variant::Boolean(true));
}

#[test]
fn test_pow_and_compare() {
    let result = result_of(BlockEncoder::default()
        .push_integer(2)
        .push_integer(3)
        .pow()
        .push_integer(8)
        .equal()
        .return_value())
    .unwrap()
    .unwrap();
    assert_eq!(result, Variant::Boolean(true));
}

#[test]
fn test_negate() {
    let result = result_of(BlockEncoder::default()
        .push_integer(2)
        .negate()
        .push_integer(-2)
        .equal()
        .return_value())
    .unwrap()
    .unwrap();
    assert_eq!(result, Variant::Boolean(true));
}

#[test]
fn test_less_than() {
    let result = result_of(BlockEncoder::default()
        .push_integer(1)
        .push_integer(2)
        .less_than()
        .return_value())
    .unwrap()
    .unwrap();
    assert_eq!(result, Variant::Boolean(true));
}

#[test]
fn test_less_than_or_equal() {
    let result = result_of(BlockEncoder::default()
        .push_integer(1)
        .push_integer(1)
        .less_than_or_equal()
        .return_value())
    .unwrap()
    .unwrap();
    assert_eq!(result, Variant::Boolean(true));
}

#[test]
fn test_greater_than() {
    let result = result_of(BlockEncoder::default()
        .push_integer(2)
        .push_integer(1)
        .greater_than()
        .return_value())
    .unwrap()
    .unwrap();
    assert_eq!(result, Variant::Boolean(true));
}

#[test]
fn test_greater_than_or_equal() {
    let result = result_of(BlockEncoder::default()
        .push_integer(1)
        .push_integer(1)
        .greater_than_or_equal()
        .return_value())
    .unwrap()
    .unwrap();
    assert_eq!(result, Variant::Boolean(true));
}

#[test]
fn test_not_equal() {
    let result = result_of(BlockEncoder::default()
        .push_integer(1)
        .push_integer(2)
        .not_equal()
        .return_value())
    .unwrap()
    .unwrap();
    assert_eq!(result, Variant::Boolean(true));
}

#[test]
fn integer_overflow_fails() {
    let err = result_of(BlockEncoder::default().push_integer(i64::MAX).push_integer(1).add().return_value());
    assert_eq!(err, Err(VmError::Overflow));
    let err = result_of(BlockEncoder::default().push_integer(i64::MIN).negate().return_value());
    assert_eq!(err, Err(VmError::Overflow));
    let err = result_of(BlockEncoder::default().push_integer(i64::MIN).push_integer(-1).div().return_value());
    assert_eq!(err, Err(VmError::Overflow));
    let err = result_of(BlockEncoder::default().push_integer(2).push_integer(63).pow().return_value());
    assert_eq!(err, Err(VmError::Overflow));
}

#[test]
fn powers_at_the_edge_of_the_range() {
    let r = result_of(BlockEncoder::default().push_integer(-2).push_integer(63).pow().return_value());
    assert_eq!(r, Ok(Some(Variant::Integer(i64::MIN))));
    let r = result_of(BlockEncoder::default().push_integer(-1).push_integer(1_000_001).pow().return_value());
    assert_eq!(r, Ok(Some(Variant::Integer(-1))));
    let r = result_of(BlockEncoder::default().push_integer(7).push_integer(0).pow().return_value());
    assert_eq!(r, Ok(Some(Variant::Integer(1))));
}

#[test]
fn division_by_zero_fails() {
    let err = result_of(BlockEncoder::default().push_integer(1).push_integer(0).div().return_value());
    assert_eq!(err, Err(VmError::DivisionByZero));
    let err = result_of(BlockEncoder::default().push_integer(1).push_integer(0).modulus().return_value());
    assert_eq!(err, Err(VmError::DivisionByZero));
    let err = result_of(BlockEncoder::default().push_float_bits(float(1.0)).push_float_bits(float(-0.0)).div().return_value());
    assert_eq!(err, Err(VmError::DivisionByZero));
}

#[test]
fn negative_exponent_fails() {
    let err = result_of(BlockEncoder::default().push_integer(2).push_integer(-1).pow().return_value());
    assert_eq!(err, Err(VmError::BadOperands));
}

#[test]
fn division_truncates_toward_zero() {
    let r = result_of(BlockEncoder::default().push_integer(-7).push_integer(2).div().return_value());
    assert_eq!(r, Ok(Some(Variant::Integer(-3))));
    let r = result_of(BlockEncoder::default().push_integer(-7).push_integer(2).modulus().return_value());
    assert_eq!(r, Ok(Some(Variant::Integer(-1))));
}

#[test]
fn mixed_kinds_are_bad_operands() {
    let err = result_of(BlockEncoder::default().push_integer(1).push_float_bits(float(1.0)).add().return_value());
    assert_eq!(err, Err(VmError::BadOperands));
    let err = result_of(BlockEncoder::default().push_integer(1).push_string("a".to_string()).less_than().return_value());
    assert_eq!(err, Err(VmError::BadOperands));
    let err = result_of(BlockEncoder::default().push_null().negate().return_value());
    assert_eq!(err, Err(VmError::BadOperands));
}

#[test]
fn float_arithmetic_goes_through_the_host() {
    let r = result_of(BlockEncoder::default().push_float_bits(float(1.5)).push_float_bits(float(2.25)).add().return_value());
    assert_eq!(r, Ok(Some(Variant::Float(float(3.75)))));
    let r = result_of(BlockEncoder::default().push_float_bits(float(2.0)).push_float_bits(float(3.0)).pow().return_value());
    assert_eq!(r, Ok(Some(Variant::Float(float(8.0)))));
    let r = result_of(BlockEncoder::default().push_float_bits(float(2.5)).negate().return_value());
    assert_eq!(r, Ok(Some(Variant::Float(float(-2.5)))));
}

#[test]
fn float_comparisons() {
    let r = result_of(BlockEncoder::default().push_float_bits(float(-1.0)).push_float_bits(float(0.5)).less_than().return_value());
    assert_eq!(r, Ok(Some(Variant::Boolean(true))));
    let r = result_of(BlockEncoder::default().push_float_bits(float(0.0)).push_float_bits(float(-0.0)).equal().return_value());
    assert_eq!(r, Ok(Some(Variant::Boolean(true))));
    let nan = float(f64::NAN);
    let r = result_of(BlockEncoder::default().push_float_bits(nan).push_float_bits(nan).equal().return_value());
    assert_eq!(r, Ok(Some(Variant::Boolean(false))));
    let err = result_of(BlockEncoder::default().push_float_bits(nan).push_float_bits(float(1.0)).less_than().return_value());
    assert_eq!(err, Err(VmError::BadOperands));
}

#[test]
fn string_addition_appends_the_display_form() {
    let r = result_of(BlockEncoder::default().push_string("n=".to_string()).push_integer(-42).add().return_value());
    assert_eq!(r, Ok(Some(Variant::String("n=-42".to_string()))));
    let r = result_of(BlockEncoder::default().push_string("x".to_string()).push_float_bits(float(0.5)).add().return_value());
    assert_eq!(r, Ok(Some(Variant::String("x0.5".to_string()))));
    let r = result_of(BlockEncoder::default().push_string("".to_string()).push_boolean(false).add().return_value());
    assert_eq!(r, Ok(Some(Variant::String("false".to_string()))));
}

#[test]
fn boolean_addition_is_and() {
    let r = result_of(BlockEncoder::default().push_boolean(true).push_boolean(false).add().return_value());
    assert_eq!(r, Ok(Some(Variant::Boolean(false))));
}

#[test]
fn logical_operators_use_truthiness() {
    let r = result_of(BlockEncoder::default().push_integer(3).push_string("a".to_string()).and().return_value());
    assert_eq!(r, Ok(Some(Variant::Boolean(true))));
    let r = result_of(BlockEncoder::default().push_null().push_integer(0).or().return_value());
    assert_eq!(r, Ok(Some(Variant::Boolean(false))));
    let r = result_of(BlockEncoder::default().push_string("".to_string()).not().return_value());
    assert_eq!(r, Ok(Some(Variant::Boolean(true))));
    let r = result_of(BlockEncoder::default().push_null().not().return_value());
    assert_eq!(r, Ok(Some(Variant::Boolean(true))));
    let err = result_of(BlockEncoder::default().push_integer(1).create_array(1).not().return_value());
    assert_eq!(err, Err(VmError::TypeError));
    let err = result_of(BlockEncoder::default().push_integer(1).create_array(1).push_boolean(true).and().return_value());
    assert_eq!(err, Err(VmError::TypeError));
}

#[test]
fn operators_need_operands() {
    let err = result_of(BlockEncoder::default().push_integer(1).add().return_value());
    assert_eq!(err, Err(VmError::StackUnderflow));
}
struct TestHost {
    printed: Vec<String>,
}

impl Host for TestHost {
    fn call_native(&mut self, _heap: &mut Heap, name: &String, args: Vec<Variant>) -> Result<Option<Variant>, VmError> {
        match (name.as_str(), args.as_slice()) {
            ("native_add", [Variant::Integer(a), Variant::Integer(b)]) => Ok(Some(Variant::Integer(a + b))),
            ("add", [Variant::Integer(a), Variant::Integer(b)]) => Ok(Some(Variant::Integer(a + b))),
            ("ignore", _) => Ok(None),
            _ => Err(VmError::UnknownNativeFunction(name.clone())),
        }
    }

    fn print(&mut self, line: String) {
        self.printed.push(line);
    }

    fn float_arith(&mut self, op: ArithOp, lhs: u64, rhs: u64) -> u64 {
        let a = f64::from_bits(lhs);
        let b = f64::from_bits(rhs);
        let r = match op {
            ArithOp::Add => a + b,
            ArithOp::Sub => a - b,
            ArithOp::Mul => a * b,
            ArithOp::Div => a / b,
            ArithOp::Mod => a % b,
            ArithOp::Pow => a.powf(b),
        };
        r.to_bits()
    }

    fn float_text(&self, bits: u64) -> String {
        format!("{}", f64::from_bits(bits))
    }
}

fn host() -> TestHost {
    TestHost { printed: Vec::new() }
}

fn run_program(program: Program) -> Result<VmExecutionResult, VmError> {
    let mut vm = Vm::default();
    vm.load_program(program);
    vm.run(None, &mut host())
}

