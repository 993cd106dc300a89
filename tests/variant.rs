use bytevm::prelude::{Heap, Host, Variant, VmError};
use bytevm::heap::Aggregate;
use bytevm::display::integer_text;
use bytevm::variant::{ArithOp, Comparison};

#[test]
fn test_integer_less_than_or_equal() {
    assert_eq!(Variant::Integer(1).compare(&Variant::Integer(1), Comparison::LessEqual), Some(true));
}

#[test]
fn test_float_less_than_or_equal() {
    assert_eq!(
        Variant::Float(1.0f64.to_bits()).compare(&Variant::Float(1.0f64.to_bits()), Comparison::LessEqual),
        Some(true)
    );
}

#[test]
fn test_integer_greater_than() {
    assert_eq!(Variant::Integer(2).compare(&Variant::Integer(1), Comparison::Greater), Some(true));
}

#[test]
fn test_float_greater_than() {
    assert_eq!(
        Variant::Float(2.0f64.to_bits()).compare(&Variant::Float(1.0f64.to_bits()), Comparison::Greater),
        Some(true)
    );
}

#[test]
fn test_integer_greater_than_or_equal() {
    assert_eq!(Variant::Integer(2).compare(&Variant::Integer(2), Comparison::GreaterEqual), Some(true));
}

#[test]
fn test_float_greater_than_or_equal() {
    assert_eq!(
        Variant::Float(2.0f64.to_bits()).compare(&Variant::Float(2.0f64.to_bits()), Comparison::GreaterEqual),
        Some(true)
    );
}

#[test]
fn test_boolean_negation() {
    assert_eq!(Variant::Boolean(false).negate(), Ok(Variant::Boolean(true)));
}

#[test]
fn test_boolean_not() {
    assert_eq!(Variant::Boolean(false).not(), Ok(Variant::Boolean(true)));
}

#[test]
fn ordering_is_only_between_numbers_of_one_kind() {
    assert_eq!(Variant::Integer(1).compare(&Variant::Float(1.0f64.to_bits()), Comparison::Less), None);
    assert_eq!(Variant::Null.compare(&Variant::Null, Comparison::LessEqual), None);
    assert_eq!(
        Variant::Float((-3.0f64).to_bits()).compare(&Variant::Float((-2.0f64).to_bits()), Comparison::Less),
        Some(true)
    );
}

#[test]
fn truthiness() {
    assert!(Variant::Null.is_false());
    assert!(Variant::Boolean(false).is_false());
    assert!(Variant::Integer(0).is_false());
    assert!(Variant::Float((-0.0f64).to_bits()).is_false());
    assert!(Variant::String(String::new()).is_false());
    assert!(!Variant::String("a".to_string()).is_false());
    assert!(!Variant::Integer(-1).is_false());
    assert!(!Variant::Array(0).is_false());
}

#[test]
fn negation_of_each_kind() {
    assert_eq!(Variant::Integer(5).negate(), Ok(Variant::Integer(-5)));
    assert_eq!(Variant::Float(1.25f64.to_bits()).negate(), Ok(Variant::Float((-1.25f64).to_bits())));
    assert_eq!(Variant::Integer(i64::MIN).negate(), Err(VmError::Overflow));
    assert_eq!(Variant::String("s".to_string()).negate(), Err(VmError::BadOperands));
    assert_eq!(Variant::Integer(0).not(), Ok(Variant::Boolean(true)));
    assert_eq!(Variant::Dictionary(0).not(), Err(VmError::TypeError));
}

#[test]
fn integers_in_decimal() {
    assert_eq!(integer_text(0), "0");
    assert_eq!(integer_text(6765), "6765");
    assert_eq!(integer_text(-42), "-42");
    assert_eq!(integer_text(i64::MIN), "-9223372036854775808");
}

struct Floats;

impl Host for Floats {
    fn call_native(&mut self, _heap: &mut Heap, name: &String, _args: Vec<Variant>) -> Result<Option<Variant>, VmError> {
        Err(VmError::UnknownNativeFunction(name.clone()))
    }

    fn print(&mut self, _line: String) {}

    fn float_arith(&mut self, _op: ArithOp, lhs: u64, _rhs: u64) -> u64 {
        lhs
    }

    fn float_text(&self, bits: u64) -> String {
        format!("{}", f64::from_bits(bits))
    }
}

#[test]
fn display_forms() {
    let mut heap = Heap::new();
    let inner = heap.allocate(Aggregate::Array(vec![Variant::Integer(1), Variant::Null]));
    let outer = heap.allocate(Aggregate::Array(vec![
        Variant::Array(inner),
        Variant::String("s".to_string()),
        Variant::Boolean(true),
    ]));
    let dict = heap.allocate(Aggregate::Dictionary(vec![(Variant::Integer(1), Variant::Float(0.5f64.to_bits()))]));
    assert_eq!(heap.display(&Variant::Array(outer), &Floats), "[[1, null], s, true]");
    assert_eq!(heap.display(&Variant::Dictionary(dict), &Floats), "{1: 0.5}");
    assert_eq!(heap.display(&Variant::Index(3), &Floats), "Index(3)");
    assert_eq!(heap.display(&Variant::SymbolReference("f".to_string()), &Floats), "GlobalReference(f)");
    assert_eq!(heap.print_line(&Variant::Integer(-7), &Floats), "-7\n");
}

#[test]
fn deep_equality_follows_the_heap() {
    let mut heap = Heap::new();
    let a = heap.allocate(Aggregate::Array(vec![Variant::Integer(1)]));
    let b = heap.allocate(Aggregate::Array(vec![Variant::Integer(1)]));
    let c = heap.allocate(Aggregate::Array(vec![Variant::Integer(2)]));
    let d1 = heap.allocate(Aggregate::Dictionary(vec![
        (Variant::Integer(1), Variant::Array(a)),
        (Variant::Integer(2), Variant::Null),
    ]));
    let d2 = heap.allocate(Aggregate::Dictionary(vec![
        (Variant::Integer(2), Variant::Null),
        (Variant::Integer(1), Variant::Array(b)),
    ]));
    assert!(heap.equals(&Variant::Array(a), &Variant::Array(b)));
    assert!(!heap.equals(&Variant::Array(a), &Variant::Array(c)));
    assert!(heap.equals(&Variant::Dictionary(d1), &Variant::Dictionary(d2)));
    assert!(!heap.equals(&Variant::Array(a), &Variant::Dictionary(d1)));
    assert!(!heap.equals(&Variant::Integer(1), &Variant::Float(1.0f64.to_bits())));
    assert!(heap.equals(&Variant::Null, &Variant::Null));
}
