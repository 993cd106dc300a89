use vstd::prelude::*;
use crate::display::{append_digits, digits};

verus! {

/// Why building or running a program failed.
#[derive(Clone, Debug, PartialEq)]
pub enum VmError {
    /// The entry point names no user-defined function.
    UnknownEntryPoint(String),
    /// A call names a function that the symbol table does not know.
    UnknownFunction(String),
    /// A call names a function index that the program does not have.
    UnknownFunctionIndex(usize),
    /// A call names a native function that the host does not provide.
    UnknownNativeFunction(String),
    /// The encoder was asked for a local that was never declared.
    UndeclaredLocal(String),
    /// A jump names a label that was never placed.
    UndeclaredLabel(String),
    /// The program counter left the current function's instructions.
    PcOutOfBounds(usize),
    /// A local slot outside the current frame.
    BadLocalIndex(usize),
    /// The stack cannot grow to hold a callee's locals.
    StackOverflow,
    /// A pop from an empty operand region.
    StackUnderflow,
    /// An operand is not of the kind the instruction requires.
    TypeError,
    /// An arithmetic or ordering operator met operands it is not defined on.
    BadOperands,
    DivisionByZero,
    /// An integer result does not fit in 64 bits.
    Overflow,
    IndexOutOfBounds,
    KeyNotFound,
    /// `Return` found no value to return.
    ReturnWithoutValue,
    /// The run took more steps than it was allowed.
    StepLimitExceeded,
    /// The program panicked with this message.
    Panic(String),
}

/// The human-readable message of an error.
pub open spec fn message_of(e: VmError) -> Seq<char> {
    match e {
        VmError::UnknownEntryPoint(s) => "unknown entry point: "@ + s@,
        VmError::UnknownFunction(s) => "unknown function: "@ + s@,
        VmError::UnknownFunctionIndex(i) => "unknown function index: "@ + digits(i as nat),
        VmError::UnknownNativeFunction(s) => "unknown native function: "@ + s@,
        VmError::UndeclaredLocal(s) => "undeclared local: "@ + s@,
        VmError::UndeclaredLabel(s) => "undeclared label: "@ + s@,
        VmError::PcOutOfBounds(i) => "program counter out of bounds: "@ + digits(i as nat),
        VmError::BadLocalIndex(i) => "bad local index: "@ + digits(i as nat),
        VmError::StackOverflow => "stack overflow"@,
        VmError::StackUnderflow => "stack underflow"@,
        VmError::TypeError => "operand of the wrong kind"@,
        VmError::BadOperands => "operator not defined on these operands"@,
        VmError::DivisionByZero => "division by zero"@,
        VmError::Overflow => "integer overflow"@,
        VmError::IndexOutOfBounds => "index out of bounds"@,
        VmError::KeyNotFound => "key not found"@,
        VmError::ReturnWithoutValue => "return without a value"@,
        VmError::StepLimitExceeded => "step limit exceeded"@,
        VmError::Panic(s) => "panic: "@ + s@,
    }
}

impl VmError {
    /// The human-readable message of the error.
    pub fn message(&self) -> (r: String)
        ensures
            r@ == message_of(*self),
    {
        let mut out = String::new();
        match self {
            VmError::UnknownEntryPoint(s) => {
                out.append("unknown entry point: ");
                out.append(s.as_str());
            },
            VmError::UnknownFunction(s) => {
                out.append("unknown function: ");
                out.append(s.as_str());
            },
            VmError::UnknownFunctionIndex(i) => {
                out.append("unknown function index: ");
                append_digits(&mut out, *i as u64);
            },
            VmError::UnknownNativeFunction(s) => {
                out.append("unknown native function: ");
                out.append(s.as_str());
            },
            VmError::UndeclaredLocal(s) => {
                out.append("undeclared local: ");
                out.append(s.as_str());
            },
            VmError::UndeclaredLabel(s) => {
                out.append("undeclared label: ");
                out.append(s.as_str());
            },
            VmError::PcOutOfBounds(i) => {
                out.append("program counter out of bounds: ");
                append_digits(&mut out, *i as u64);
            },
            VmError::BadLocalIndex(i) => {
                out.append("bad local index: ");
                append_digits(&mut out, *i as u64);
            },
            VmError::StackOverflow => {
                out.append("stack overflow");
            },
            VmError::StackUnderflow => {
                out.append("stack underflow");
            },
            VmError::TypeError => {
                out.append("operand of the wrong kind");
            },
            VmError::BadOperands => {
                out.append("operator not defined on these operands");
            },
            VmError::DivisionByZero => {
                out.append("division by zero");
            },
            VmError::Overflow => {
                out.append("integer overflow");
            },
            VmError::IndexOutOfBounds => {
                out.append("index out of bounds");
            },
            VmError::KeyNotFound => {
                out.append("key not found");
            },
            VmError::ReturnWithoutValue => {
                out.append("return without a value");
            },
            VmError::StepLimitExceeded => {
                out.append("step limit exceeded");
            },
            VmError::Panic(s) => {
                out.append("panic: ");
                out.append(s.as_str());
            },
        }
        assert(out@ =~= message_of(*self));
        out
    }

    /// A copy of the error.
    pub fn duplicate(&self) -> (r: VmError)
        ensures
            r == *self,
    {
        match self {
            VmError::UnknownEntryPoint(s) => VmError::UnknownEntryPoint(s.clone()),
            VmError::UnknownFunction(s) => VmError::UnknownFunction(s.clone()),
            VmError::UnknownFunctionIndex(i) => VmError::UnknownFunctionIndex(*i),
            VmError::UnknownNativeFunction(s) => VmError::UnknownNativeFunction(s.clone()),
            VmError::UndeclaredLocal(s) => VmError::UndeclaredLocal(s.clone()),
            VmError::UndeclaredLabel(s) => VmError::UndeclaredLabel(s.clone()),
            VmError::PcOutOfBounds(pc) => VmError::PcOutOfBounds(*pc),
            VmError::BadLocalIndex(i) => VmError::BadLocalIndex(*i),
            VmError::StackOverflow => VmError::StackOverflow,
            VmError::StackUnderflow => VmError::StackUnderflow,
            VmError::TypeError => VmError::TypeError,
            VmError::BadOperands => VmError::BadOperands,
            VmError::DivisionByZero => VmError::DivisionByZero,
            VmError::Overflow => VmError::Overflow,
            VmError::IndexOutOfBounds => VmError::IndexOutOfBounds,
            VmError::KeyNotFound => VmError::KeyNotFound,
            VmError::ReturnWithoutValue => VmError::ReturnWithoutValue,
            VmError::StepLimitExceeded => VmError::StepLimitExceeded,
            VmError::Panic(s) => VmError::Panic(s.clone()),
        }
    }
}

} // verus!
