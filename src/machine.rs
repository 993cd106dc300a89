use vstd::prelude::*;
use crate::error::VmError;
use crate::heap::{
    Aggregate, AggregateView, Heap, array_at, dictionary_at, entries_insert, find_key,
    lemma_find_key_bounds, values_equal,
};
use crate::program::{CallTarget, Function, Instruction, SymbolEntry, lookup, lookup_name};
use crate::variant::{
    ArithOp, Comparison, Variant, compare_keys, float_is_zero, float_is_zero_exec, int_arith,
    int_arith_exec, is_aggregate, is_falsy, logical_not, negated, order_keys,
};

verus! {

/// A suspended call: the function to return to, the instruction to resume at,
/// and the base of that function's locals.
#[derive(Clone, Copy, Debug, PartialEq, Eq)]
pub struct Frame {
    pub function_index: usize,
    pub pc: usize,
    pub stack_base_pointer: usize,
}

/// The state of a run. The locals of the running function occupy
/// `stack[base .. base + local_count]`; its operands lie above them.
#[derive(Clone, Debug, PartialEq)]
pub struct Machine {
    pub stack: Vec<Variant>,
    pub frames: Vec<Frame>,
    pub function_index: usize,
    pub pc: usize,
    pub base: usize,
    pub heap: Heap,
}

pub struct MachineView {
    pub stack: Seq<Variant>,
    pub frames: Seq<Frame>,
    pub function_index: usize,
    pub pc: usize,
    pub base: usize,
    pub heap: Seq<AggregateView>,
}

impl View for Machine {
    type V = MachineView;

    open spec fn view(&self) -> MachineView {
        MachineView {
            stack: self.stack@,
            frames: self.frames@,
            function_index: self.function_index,
            pc: self.pc,
            base: self.base,
            heap: self.heap@,
        }
    }
}

/// What one step did, and what it asks of the host.
///
/// For `NativeCall` the arguments are still on the stack, the last on top; the
/// host pops them, calls the function, and pushes its result if there is one.
/// For `Print`, `FloatArith` and `Concat` the operands have been popped; the
/// host writes the value, or pushes the float, or pushes the text with the
/// value's display form appended.
#[derive(Clone, Debug, PartialEq)]
pub enum StepEvent {
    Continue,
    Finished(Option<Variant>),
    Failed(VmError),
    NativeCall { name: String, arity: usize },
    Print(Variant),
    FloatArith { op: ArithOp, lhs: u64, rhs: u64 },
    Concat { text: String, value: Variant },
}

/// The local count of the running function.
pub open spec fn local_count_of(functions: Seq<Function>, m: MachineView) -> int {
    if m.function_index < functions.len() {
        functions[m.function_index as int].local_count as int
    } else {
        0
    }
}

/// The number of operands above the running function's locals.
pub open spec fn operand_count(functions: Seq<Function>, m: MachineView) -> int {
    m.stack.len() - (m.base + local_count_of(functions, m))
}

/// The value `k` places below the top of the stack.
pub open spec fn top(m: MachineView, k: int) -> Variant {
    m.stack[m.stack.len() - 1 - k]
}

/// The stack without its top `k` values.
pub open spec fn popped(m: MachineView, k: int) -> Seq<Variant> {
    m.stack.take(m.stack.len() - k)
}

/// The machine at its next instruction.
pub open spec fn advanced(m: MachineView) -> MachineView {
    MachineView { pc: (m.pc + 1) as usize, ..m }
}

/// The machine at its next instruction, with `stack` as its stack.
pub open spec fn next_with(m: MachineView, stack: Seq<Variant>) -> MachineView {
    MachineView { stack, pc: (m.pc + 1) as usize, ..m }
}

pub open spec fn fail(m: MachineView, e: VmError) -> (MachineView, StepEvent) {
    (m, StepEvent::Failed(e))
}

pub open spec fn continue_with(m: MachineView) -> (MachineView, StepEvent) {
    (m, StepEvent::Continue)
}

/// `n` values of `Null`.
pub open spec fn nulls(n: int) -> Seq<Variant> {
    Seq::new(n as nat, |i: int| Variant::Null)
}

/// The result of an arithmetic operator on two values that is neither an
/// array, a dictionary nor a string operation.
pub open spec fn arith_step(m: MachineView, op: ArithOp, a: Variant, b: Variant, rest: Seq<Variant>) -> (
    MachineView,
    StepEvent,
) {
    match (a, b) {
        (Variant::Integer(x), Variant::Integer(y)) => if (op == ArithOp::Div || op == ArithOp::Mod)
            && y == 0 {
            fail(m, VmError::DivisionByZero)
        } else if op == ArithOp::Pow && y < 0 {
            fail(m, VmError::BadOperands)
        } else {
            match int_arith(op, x, y) {
                Some(r) => continue_with(next_with(m, rest.push(Variant::Integer(r)))),
                None => fail(m, VmError::Overflow),
            }
        },
        (Variant::Float(x), Variant::Float(y)) => if (op == ArithOp::Div || op == ArithOp::Mod)
            && float_is_zero(y) {
            fail(m, VmError::DivisionByZero)
        } else {
            (next_with(m, rest), StepEvent::FloatArith { op, lhs: x, rhs: y })
        },
        _ => fail(m, VmError::BadOperands),
    }
}

/// The entries of a dictionary made from `vals`, a sequence of key and value
/// pairs, the key of each pair first: the pairs are inserted from the last to
/// the first, so of two equal keys the first pair's value stays.
pub open spec fn entries_from_pairs(heap: Seq<AggregateView>, vals: Seq<Variant>) -> Seq<
    (Variant, Variant),
>
    decreases vals.len(),
{
    if vals.len() < 2 {
        Seq::empty()
    } else {
        entries_insert(heap, entries_from_pairs(heap, vals.subrange(2, vals.len() as int)), vals[0], vals[1])
    }
}

/// `ys` inserted, in order, into `xs`.
pub open spec fn entries_merge(
    heap: Seq<AggregateView>,
    xs: Seq<(Variant, Variant)>,
    ys: Seq<(Variant, Variant)>,
) -> Seq<(Variant, Variant)>
    decreases ys.len(),
{
    if ys.len() == 0 {
        xs
    } else {
        entries_insert(heap, entries_merge(heap, xs, ys.drop_last()), ys.last().0, ys.last().1)
    }
}

/// A fresh object pushed as a new handle.
pub open spec fn with_new_object(
    m: MachineView,
    rest: Seq<Variant>,
    object: AggregateView,
    handle: Variant,
) -> (MachineView, StepEvent) {
    continue_with(
        MachineView {
            stack: rest.push(handle),
            pc: (m.pc + 1) as usize,
            heap: m.heap.push(object),
            ..m
        },
    )
}

/// `Add`, `Sub`, `Mul`, `Div`, `Mod` and `Pow`.
pub open spec fn binary_step(m: MachineView, op: ArithOp, ops: int) -> (MachineView, StepEvent) {
    if ops < 2 {
        fail(m, VmError::StackUnderflow)
    } else {
        let b = top(m, 0);
        let a = top(m, 1);
        let rest = popped(m, 2);
        if op == ArithOp::Add {
            match (a, b) {
                (Variant::String(s), _) => (
                    next_with(m, rest),
                    StepEvent::Concat { text: s, value: b },
                ),
                (Variant::Boolean(p), Variant::Boolean(q)) => continue_with(
                    next_with(m, rest.push(Variant::Boolean(p && q))),
                ),
                (Variant::Array(x), Variant::Array(y)) => match (
                    array_at(m.heap, x),
                    array_at(m.heap, y),
                ) {
                    (Some(xs), Some(ys)) => with_new_object(
                        m,
                        rest,
                        AggregateView::Array(xs + ys),
                        Variant::Array(m.heap.len() as usize),
                    ),
                    _ => fail(m, VmError::TypeError),
                },
                (Variant::Dictionary(x), Variant::Dictionary(y)) => match (
                    dictionary_at(m.heap, x),
                    dictionary_at(m.heap, y),
                ) {
                    (Some(xs), Some(ys)) => with_new_object(
                        m,
                        rest,
                        AggregateView::Dictionary(entries_merge(m.heap, xs, ys)),
                        Variant::Dictionary(m.heap.len() as usize),
                    ),
                    _ => fail(m, VmError::TypeError),
                },
                _ => arith_step(m, op, a, b, rest),
            }
        } else {
            arith_step(m, op, a, b, rest)
        }
    }
}

/// `Negate` and `Not`: the operator applied to the top of the stack.
pub open spec fn unary_step(m: MachineView, outcome: Result<Variant, VmError>, ops: int) -> (MachineView, StepEvent) {
    if ops < 1 {
        fail(m, VmError::StackUnderflow)
    } else {
        match outcome {
            Ok(r) => continue_with(next_with(m, popped(m, 1).push(r))),
            Err(e) => fail(m, e),
        }
    }
}

/// `Equal`, `NotEqual`, `And`, `Or` and the ordering comparisons.
pub open spec fn compare_step(m: MachineView, ins: Instruction, ops: int) -> (MachineView, StepEvent) {
    if ops < 2 {
        fail(m, VmError::StackUnderflow)
    } else {
        let b = top(m, 0);
        let a = top(m, 1);
        let rest = popped(m, 2);
        let outcome: Option<bool> = match ins {
            Instruction::Equal => Some(values_equal(m.heap, a, b, m.heap.len())),
            Instruction::NotEqual => Some(!values_equal(m.heap, a, b, m.heap.len())),
            Instruction::And => if is_aggregate(a) || is_aggregate(b) {
                None
            } else {
                Some(!is_falsy(a) && !is_falsy(b))
            },
            Instruction::Or => if is_aggregate(a) || is_aggregate(b) {
                None
            } else {
                Some(!is_falsy(a) || !is_falsy(b))
            },
            _ => match order_keys(a, b) {
                Some(k) => Some(compare_keys(comparison_of(ins), k.0, k.1)),
                None => None,
            },
        };
        match outcome {
            Some(r) => continue_with(next_with(m, rest.push(Variant::Boolean(r)))),
            None => if ins is And || ins is Or {
                fail(m, VmError::TypeError)
            } else {
                fail(m, VmError::BadOperands)
            },
        }
    }
}

pub open spec fn comparison_of(ins: Instruction) -> Comparison {
    match ins {
        Instruction::LessThan => Comparison::Less,
        Instruction::LessEqual => Comparison::LessEqual,
        Instruction::GreaterThan => Comparison::Greater,
        _ => Comparison::GreaterEqual,
    }
}

/// The position that an index value names in a sequence of `len` items.
pub open spec fn index_of(index: Variant, len: int) -> Result<int, VmError> {
    match index {
        Variant::Integer(i) => if 0 <= i < len {
            Ok(i as int)
        } else {
            Err(VmError::IndexOutOfBounds)
        },
        Variant::Index(i) => if i < len {
            Ok(i as int)
        } else {
            Err(VmError::IndexOutOfBounds)
        },
        _ => Err(VmError::TypeError),
    }
}

/// The array and dictionary instructions.
pub open spec fn aggregate_step(m: MachineView, ins: Instruction, ops: int) -> (MachineView, StepEvent) {
    match ins {
        Instruction::CreateArray(n) => if ops < n {
            fail(m, VmError::StackUnderflow)
        } else {
            with_new_object(
                m,
                popped(m, n as int),
                AggregateView::Array(m.stack.subrange(m.stack.len() - n, m.stack.len() as int)),
                Variant::Array(m.heap.len() as usize),
            )
        },
        Instruction::CreateDictionary(n) => if ops < 2 * n {
            fail(m, VmError::StackUnderflow)
        } else {
            with_new_object(
                m,
                popped(m, 2 * n),
                AggregateView::Dictionary(
                    entries_from_pairs(m.heap, m.stack.subrange(m.stack.len() - 2 * n, m.stack.len() as int)),
                ),
                Variant::Dictionary(m.heap.len() as usize),
            )
        },
        Instruction::GetArrayItem => if ops < 2 {
            fail(m, VmError::StackUnderflow)
        } else {
            match top(m, 1) {
                Variant::Array(h) => match array_at(m.heap, h) {
                    Some(items) => match index_of(top(m, 0), items.len() as int) {
                        Ok(i) => continue_with(next_with(m, popped(m, 2).push(items[i]))),
                        Err(e) => fail(m, e),
                    },
                    None => fail(m, VmError::TypeError),
                },
                _ => fail(m, VmError::TypeError),
            }
        },
        Instruction::SetArrayItem => if ops < 3 {
            fail(m, VmError::StackUnderflow)
        } else {
            match top(m, 2) {
                Variant::Array(h) => match array_at(m.heap, h) {
                    Some(items) => match index_of(top(m, 1), items.len() as int) {
                        Ok(i) => continue_with(
                            MachineView {
                                stack: popped(m, 3).push(Variant::Array(h)),
                                pc: (m.pc + 1) as usize,
                                heap: m.heap.update(h as int, AggregateView::Array(items.update(i, top(m, 0)))),
                                ..m
                            },
                        ),
                        Err(e) => fail(m, e),
                    },
                    None => fail(m, VmError::TypeError),
                },
                _ => fail(m, VmError::TypeError),
            }
        },
        Instruction::GetArrayLength => if ops < 1 {
            fail(m, VmError::StackUnderflow)
        } else {
            match top(m, 0) {
                Variant::Array(h) => match array_at(m.heap, h) {
                    Some(items) => if items.len() <= i64::MAX {
                        continue_with(next_with(m, popped(m, 1).push(Variant::Integer(items.len() as i64))))
                    } else {
                        fail(m, VmError::Overflow)
                    },
                    None => fail(m, VmError::TypeError),
                },
                _ => fail(m, VmError::TypeError),
            }
        },
        Instruction::GetDictionaryItem => if ops < 2 {
            fail(m, VmError::StackUnderflow)
        } else {
            match top(m, 1) {
                Variant::Dictionary(h) => match dictionary_at(m.heap, h) {
                    Some(entries) => match find_key(m.heap, entries, top(m, 0)) {
                        Some(j) => continue_with(next_with(m, popped(m, 2).push(entries[j].1))),
                        None => fail(m, VmError::KeyNotFound),
                    },
                    None => fail(m, VmError::TypeError),
                },
                _ => fail(m, VmError::TypeError),
            }
        },
        Instruction::SetDictionaryItem => if ops < 3 {
            fail(m, VmError::StackUnderflow)
        } else {
            match top(m, 2) {
                Variant::Dictionary(h) => match dictionary_at(m.heap, h) {
                    Some(entries) => continue_with(
                        MachineView {
                            stack: popped(m, 3),
                            pc: (m.pc + 1) as usize,
                            heap: m.heap.update(
                                h as int,
                                AggregateView::Dictionary(entries_insert(m.heap, entries, top(m, 1), top(m, 0))),
                            ),
                            ..m
                        },
                    ),
                    None => fail(m, VmError::TypeError),
                },
                _ => fail(m, VmError::TypeError),
            }
        },
        Instruction::GetDictionaryKeys => if ops < 1 {
            fail(m, VmError::StackUnderflow)
        } else {
            match top(m, 0) {
                Variant::Dictionary(h) => match dictionary_at(m.heap, h) {
                    Some(entries) => with_new_object(
                        m,
                        popped(m, 1),
                        AggregateView::Array(entries.map_values(|e: (Variant, Variant)| e.0)),
                        Variant::Array(m.heap.len() as usize),
                    ),
                    None => fail(m, VmError::TypeError),
                },
                _ => fail(m, VmError::TypeError),
            }
        },
        _ => fail(m, VmError::TypeError),
    }
}

/// A call of user-defined function `target`: its arguments, on top of the
/// stack, become its first locals, and its other locals start as `Null`.
pub open spec fn call_step(functions: Seq<Function>, m: MachineView, target: usize, ops: int) -> (
    MachineView,
    StepEvent,
) {
    if target >= functions.len() {
        fail(m, VmError::UnknownFunctionIndex(target))
    } else {
        let callee = functions[target as int];
        if ops < callee.arity {
            fail(m, VmError::StackUnderflow)
        } else {
            let new_base = m.stack.len() - callee.arity;
            let needed = new_base + callee.local_count - m.stack.len();
            if new_base + callee.local_count > usize::MAX {
                fail(m, VmError::StackOverflow)
            } else {
            continue_with(
                MachineView {
                    stack: if needed > 0 {
                        m.stack + nulls(needed)
                    } else {
                        m.stack
                    },
                    frames: m.frames.push(
                        Frame {
                            function_index: m.function_index,
                            pc: (m.pc + 1) as usize,
                            stack_base_pointer: m.base,
                        },
                    ),
                    function_index: target,
                    pc: 0,
                    base: new_base as usize,
                    heap: m.heap,
                },
            )
            }
        }
    }
}

/// `Return`: the callee's locals and operands go, and the value returns to
/// the caller, or ends the run when no caller is left.
pub open spec fn return_step(m: MachineView, ops: int) -> (MachineView, StepEvent) {
    if ops < 1 {
        fail(m, VmError::ReturnWithoutValue)
    } else {
        let r = top(m, 0);
        let kept = m.stack.take(m.base as int);
        if m.frames.len() == 0 {
            (MachineView { stack: kept, ..m }, StepEvent::Finished(Some(r)))
        } else {
            let caller = m.frames.last();
            continue_with(
                MachineView {
                    stack: kept.push(r),
                    frames: m.frames.drop_last(),
                    function_index: caller.function_index,
                    pc: caller.pc,
                    base: caller.stack_base_pointer,
                    heap: m.heap,
                },
            )
        }
    }
}

/// One step of the machine: the instruction at `pc` of the running function.
pub open spec fn step_spec(
    functions: Seq<Function>,
    symbols: Seq<(String, SymbolEntry)>,
    m: MachineView,
) -> (MachineView, StepEvent) {
    if m.function_index >= functions.len() || m.pc >= functions[m.function_index as int].instructions@.len() {
        fail(m, VmError::PcOutOfBounds(m.pc))
    } else {
        let ins = functions[m.function_index as int].instructions@[m.pc as int];
        let locals = local_count_of(functions, m);
        let ops = operand_count(functions, m);
        match ins {
            Instruction::Push(v) => continue_with(next_with(m, m.stack.push(v))),
            Instruction::Pop => if ops < 1 {
                fail(m, VmError::StackUnderflow)
            } else {
                continue_with(next_with(m, popped(m, 1)))
            },
            Instruction::GetLocal(i) => if i < locals && m.base + i < m.stack.len() {
                continue_with(next_with(m, m.stack.push(m.stack[m.base + i])))
            } else {
                fail(m, VmError::BadLocalIndex(i))
            },
            Instruction::SetLocal(i) => if ops < 1 {
                fail(m, VmError::StackUnderflow)
            } else if i < locals && m.base + i < m.stack.len() - 1 {
                continue_with(next_with(m, popped(m, 1).update(m.base + i, top(m, 0))))
            } else {
                fail(m, VmError::BadLocalIndex(i))
            },
            Instruction::Jump(a) => continue_with(MachineView { pc: a, ..m }),
            Instruction::JumpIfFalse(a) => if ops < 1 {
                fail(m, VmError::StackUnderflow)
            } else {
                match top(m, 0) {
                    Variant::Boolean(false) => continue_with(
                        MachineView { stack: popped(m, 1), pc: a, ..m },
                    ),
                    Variant::Boolean(true) => continue_with(next_with(m, popped(m, 1))),
                    _ => fail(m, VmError::TypeError),
                }
            },
            Instruction::Add => binary_step(m, ArithOp::Add, ops),
            Instruction::Sub => binary_step(m, ArithOp::Sub, ops),
            Instruction::Mul => binary_step(m, ArithOp::Mul, ops),
            Instruction::Div => binary_step(m, ArithOp::Div, ops),
            Instruction::Mod => binary_step(m, ArithOp::Mod, ops),
            Instruction::Pow => binary_step(m, ArithOp::Pow, ops),
            Instruction::Negate => unary_step(m, negated(top(m, 0)), ops),
            Instruction::Not => unary_step(m, logical_not(top(m, 0)), ops),
            Instruction::Equal | Instruction::NotEqual | Instruction::And | Instruction::Or
            | Instruction::LessThan | Instruction::LessEqual | Instruction::GreaterThan
            | Instruction::GreaterEqual => compare_step(m, ins, ops),
            Instruction::CreateArray(_) | Instruction::GetArrayItem | Instruction::SetArrayItem
            | Instruction::GetArrayLength | Instruction::CreateDictionary(_)
            | Instruction::GetDictionaryItem | Instruction::SetDictionaryItem
            | Instruction::GetDictionaryKeys => aggregate_step(m, ins, ops),
            Instruction::FunctionCall(CallTarget::Index(t)) => call_step(functions, m, t, ops),
            Instruction::FunctionCall(CallTarget::Name(name)) => match lookup_name(symbols, name@) {
                Some(SymbolEntry::UserDefinedFunction { index }) => call_step(functions, m, index, ops),
                Some(SymbolEntry::NativeFunction { arity }) => if ops < arity {
                    fail(m, VmError::StackUnderflow)
                } else {
                    (advanced(m), StepEvent::NativeCall { name, arity })
                },
                None => fail(m, VmError::UnknownFunction(name)),
            },
            Instruction::Return => return_step(m, ops),
            Instruction::Print => if ops < 1 {
                fail(m, VmError::StackUnderflow)
            } else {
                (next_with(m, popped(m, 1)), StepEvent::Print(top(m, 0)))
            },
            Instruction::Halt => (m, StepEvent::Finished(None)),
            Instruction::Panic => if ops < 1 {
                fail(m, VmError::StackUnderflow)
            } else {
                match top(m, 0) {
                    Variant::String(s) => fail(m, VmError::Panic(s)),
                    _ => fail(m, VmError::TypeError),
                }
            },
        }
    }
}

/// How a run ends when the host is asked for nothing but output: `None` when
/// some step within `fuel` steps needs a native call, float arithmetic or a
/// display form to go on.
pub open spec fn run_spec(
    functions: Seq<Function>,
    symbols: Seq<(String, SymbolEntry)>,
    m: MachineView,
    fuel: nat,
) -> Option<Result<Option<Variant>, VmError>>
    decreases fuel,
{
    if fuel == 0 {
        Some(Err(VmError::StepLimitExceeded))
    } else {
        let (next, ev) = step_spec(functions, symbols, m);
        match ev {
            StepEvent::Continue | StepEvent::Print(_) => run_spec(functions, symbols, next, (fuel - 1) as nat),
            StepEvent::Finished(r) => Some(Ok(r)),
            StepEvent::Failed(e) => Some(Err(e)),
            _ => None,
        }
    }
}

} // verus!

verus! {

/// A copy of `xs` followed by `ys`.
fn concatenated(xs: &Vec<Variant>, ys: &Vec<Variant>) -> (r: Vec<Variant>)
    ensures
        r@ == xs@ + ys@,
{
    let mut r: Vec<Variant> = Vec::new();
    let mut i: usize = 0;
    while i < xs.len()
        invariant
            i <= xs.len(),
            r@ == xs@.take(i as int),
        decreases xs.len() - i,
    {
        r.push(xs[i].duplicate());
        assert(r@ =~= xs@.take(i + 1));
        i = i + 1;
    }
    let mut j: usize = 0;
    while j < ys.len()
        invariant
            i == xs.len(),
            j <= ys.len(),
            r@ == xs@ + ys@.take(j as int),
        decreases ys.len() - j,
    {
        r.push(ys[j].duplicate());
        assert(r@ =~= xs@ + ys@.take(j + 1));
        j = j + 1;
    }
    assert(ys@.take(j as int) =~= ys@);
    r
}

impl Machine {
    /// Whether at least `k` operands lie above the running function's locals.
    fn has_operands(&self, functions: &Vec<Function>, k: usize) -> (r: bool)
        requires
            self.function_index < functions.len(),
        ensures
            r == (operand_count(functions@, self@) >= k),
    {
        let locals = functions[self.function_index].local_count;
        self.base <= self.stack.len() && locals <= self.stack.len() - self.base && k <= self.stack.len()
            - self.base - locals
    }

    /// Removes and returns the top of the stack.
    pub fn pop_top(&mut self) -> (v: Variant)
        requires
            old(self).stack.len() > 0,
        ensures
            v == old(self)@.stack.last(),
            final(self)@ == (MachineView { stack: old(self)@.stack.drop_last(), ..old(self)@ }),
    {
        let v = self.stack.pop().unwrap();
        v
    }

    /// Pushes a value onto the stack.
    pub fn push_value(&mut self, v: Variant)
        ensures
            final(self)@ == (MachineView { stack: old(self)@.stack.push(v), ..old(self)@ }),
    {
        self.stack.push(v);
    }

    /// Removes the top `n` values and returns them, the deepest first.
    pub fn pop_values(&mut self, n: usize) -> (r: Vec<Variant>)
        requires
            n <= old(self).stack.len(),
        ensures
            r@ == old(self)@.stack.subrange(old(self).stack.len() - n, old(self).stack.len() as int),
            final(self)@ == (MachineView { stack: popped(old(self)@, n as int), ..old(self)@ }),
    {
        let at = self.stack.len() - n;
        self.stack.split_off(at)
    }

    /// Allocates `object`, pushes the handle, and moves to the next instruction.
    fn push_new_object(&mut self, object: Aggregate, handle_of: bool) -> (h: usize)
        requires
            old(self).pc < usize::MAX,
        ensures
            h == old(self)@.heap.len(),
            final(self)@ == (MachineView {
                stack: old(self)@.stack.push(if handle_of { Variant::Array(h) } else { Variant::Dictionary(h) }),
                pc: (old(self).pc + 1) as usize,
                heap: old(self)@.heap.push(object@),
                ..old(self)@
            }),
    {
        let h = self.heap.allocate(object);
        if handle_of {
            self.stack.push(Variant::Array(h));
        } else {
            self.stack.push(Variant::Dictionary(h));
        }
        self.pc = self.pc + 1;
        h
    }

    fn arith(&mut self, op: ArithOp, a: Variant, b: Variant) -> (ev: StepEvent)
        requires
            old(self).pc < usize::MAX,
        ensures
            ev == arith_step(old(self)@, op, a, b, old(self)@.stack).1,
            !(ev is Failed) ==> final(self)@ == arith_step(old(self)@, op, a, b, old(self)@.stack).0,
    {
        let division = match op {
            ArithOp::Div | ArithOp::Mod => true,
            _ => false,
        };
        match (a, b) {
            (Variant::Integer(x), Variant::Integer(y)) => {
                if division && y == 0 {
                    return StepEvent::Failed(VmError::DivisionByZero);
                }
                if (match op {
                    ArithOp::Pow => true,
                    _ => false,
                }) && y < 0 {
                    return StepEvent::Failed(VmError::BadOperands);
                }
                match int_arith_exec(op, x, y) {
                    Some(r) => {
                        self.stack.push(Variant::Integer(r));
                        self.pc = self.pc + 1;
                        StepEvent::Continue
                    },
                    None => StepEvent::Failed(VmError::Overflow),
                }
            },
            (Variant::Float(x), Variant::Float(y)) => {
                if division && float_is_zero_exec(y) {
                    return StepEvent::Failed(VmError::DivisionByZero);
                }
                self.pc = self.pc + 1;
                StepEvent::FloatArith { op, lhs: x, rhs: y }
            },
            _ => StepEvent::Failed(VmError::BadOperands),
        }
    }

    fn binary(&mut self, functions: &Vec<Function>, op: ArithOp) -> (ev: StepEvent)
        requires
            old(self).function_index < functions.len(),
            old(self).pc < usize::MAX,
        ensures
            ev == binary_step(old(self)@, op, operand_count(functions@, old(self)@)).1,
            !(ev is Failed) ==> final(self)@ == binary_step(
                old(self)@,
                op,
                operand_count(functions@, old(self)@),
            ).0,
    {
        if !self.has_operands(functions, 2) {
            return StepEvent::Failed(VmError::StackUnderflow);
        }
        let ghost m = self@;
        let b = self.pop_top();
        let a = self.pop_top();
        assert(self@.stack =~= popped(m, 2));
        let is_add = match op {
            ArithOp::Add => true,
            _ => false,
        };
        if !is_add {
            return self.arith(op, a, b);
        }
        match (a, b) {
            (Variant::String(s), b) => {
                self.pc = self.pc + 1;
                StepEvent::Concat { text: s, value: b }
            },
            (Variant::Boolean(p), Variant::Boolean(q)) => {
                self.stack.push(Variant::Boolean(p && q));
                self.pc = self.pc + 1;
                StepEvent::Continue
            },
            (Variant::Array(x), Variant::Array(y)) => {
                let joined = match (self.heap.array(x), self.heap.array(y)) {
                    (Some(xs), Some(ys)) => concatenated(xs, ys),
                    _ => {
                        return StepEvent::Failed(VmError::TypeError);
                    },
                };
                self.push_new_object(Aggregate::Array(joined), true);
                StepEvent::Continue
            },
            (Variant::Dictionary(x), Variant::Dictionary(y)) => {
                let merged = match (self.heap.dictionary(x), self.heap.dictionary(y)) {
                    (Some(xs), Some(ys)) => self.merged(xs, ys),
                    _ => {
                        return StepEvent::Failed(VmError::TypeError);
                    },
                };
                self.push_new_object(Aggregate::Dictionary(merged), false);
                StepEvent::Continue
            },
            (a, b) => self.arith(op, a, b),
        }
    }

    /// The entries of `xs` with those of `ys` inserted in order.
    fn merged(&self, xs: &Vec<(Variant, Variant)>, ys: &Vec<(Variant, Variant)>) -> (r: Vec<
        (Variant, Variant),
    >)
        ensures
            r@ == crate::machine::entries_merge(self@.heap, xs@, ys@),
    {
        let mut r: Vec<(Variant, Variant)> = Vec::new();
        let mut i: usize = 0;
        while i < xs.len()
            invariant
                i <= xs.len(),
                r@ == xs@.take(i as int),
            decreases xs.len() - i,
        {
            r.push((xs[i].0.duplicate(), xs[i].1.duplicate()));
            assert(r@ =~= xs@.take(i + 1));
            i = i + 1;
        }
        assert(xs@.take(i as int) =~= xs@);
        let mut j: usize = 0;
        while j < ys.len()
            invariant
                j <= ys.len(),
                r@ == entries_merge(self@.heap, xs@, ys@.take(j as int)),
            decreases ys.len() - j,
        {
            assert(ys@.take(j + 1).drop_last() =~= ys@.take(j as int));
            self.heap.insert_entry(&mut r, ys[j].0.duplicate(), ys[j].1.duplicate());
            j = j + 1;
        }
        assert(ys@.take(j as int) =~= ys@);
        r
    }
}

impl Machine {
    fn unary(&mut self, functions: &Vec<Function>, negate: bool) -> (ev: StepEvent)
        requires
            old(self).function_index < functions.len(),
            old(self).pc < usize::MAX,
        ensures
            ({
                let ops = operand_count(functions@, old(self)@);
                let outcome = if negate {
                    negated(top(old(self)@, 0))
                } else {
                    logical_not(top(old(self)@, 0))
                };
                &&& ev == unary_step(old(self)@, outcome, ops).1
                &&& !(ev is Failed) ==> final(self)@ == unary_step(old(self)@, outcome, ops).0
            }),
    {
        if !self.has_operands(functions, 1) {
            return StepEvent::Failed(VmError::StackUnderflow);
        }
        let ghost m = self@;
        let a = self.pop_top();
        assert(self@.stack =~= popped(m, 1));
        let outcome = if negate {
            a.negate()
        } else {
            a.not()
        };
        match outcome {
            Ok(r) => {
                self.stack.push(r);
                self.pc = self.pc + 1;
                StepEvent::Continue
            },
            Err(e) => StepEvent::Failed(e),
        }
    }

    fn compare(&mut self, functions: &Vec<Function>, ins: &Instruction) -> (ev: StepEvent)
        requires
            old(self).function_index < functions.len(),
            old(self).pc < usize::MAX,
            *ins is Equal || *ins is NotEqual || *ins is And || *ins is Or || *ins is LessThan
                || *ins is LessEqual || *ins is GreaterThan || *ins is GreaterEqual,
        ensures
            ev == compare_step(old(self)@, *ins, operand_count(functions@, old(self)@)).1,
            !(ev is Failed) ==> final(self)@ == compare_step(
                old(self)@,
                *ins,
                operand_count(functions@, old(self)@),
            ).0,
    {
        if !self.has_operands(functions, 2) {
            return StepEvent::Failed(VmError::StackUnderflow);
        }
        let ghost m = self@;
        let b = self.pop_top();
        let a = self.pop_top();
        assert(self@.stack =~= popped(m, 2));
        let outcome: Option<bool> = match ins {
            Instruction::Equal => Some(self.heap.equals(&a, &b)),
            Instruction::NotEqual => Some(!self.heap.equals(&a, &b)),
            Instruction::And => if a.is_aggregate() || b.is_aggregate() {
                None
            } else {
                Some(!a.is_false() && !b.is_false())
            },
            Instruction::Or => if a.is_aggregate() || b.is_aggregate() {
                None
            } else {
                Some(!a.is_false() || !b.is_false())
            },
            Instruction::LessThan => a.compare(&b, Comparison::Less),
            Instruction::LessEqual => a.compare(&b, Comparison::LessEqual),
            Instruction::GreaterThan => a.compare(&b, Comparison::Greater),
            _ => a.compare(&b, Comparison::GreaterEqual),
        };
        match outcome {
            Some(r) => {
                self.stack.push(Variant::Boolean(r));
                self.pc = self.pc + 1;
                StepEvent::Continue
            },
            None => match ins {
                Instruction::And | Instruction::Or => StepEvent::Failed(VmError::TypeError),
                _ => StepEvent::Failed(VmError::BadOperands),
            },
        }
    }

    /// The position that `index` names among `len` items.
    fn index_in(index: &Variant, len: usize) -> (r: Result<usize, VmError>)
        ensures
            match r {
                Ok(i) => index_of(*index, len as int) == Ok::<int, VmError>(i as int),
                Err(e) => index_of(*index, len as int) == Err::<int, VmError>(e),
            },
    {
        match index {
            Variant::Integer(i) => {
                if 0 <= *i && (*i as u64) < (len as u64) {
                    Ok(*i as usize)
                } else {
                    Err(VmError::IndexOutOfBounds)
                }
            },
            Variant::Index(i) => {
                if *i < len {
                    Ok(*i)
                } else {
                    Err(VmError::IndexOutOfBounds)
                }
            },
            _ => Err(VmError::TypeError),
        }
    }
}

impl Machine {
    fn array_op(&mut self, functions: &Vec<Function>, ins: &Instruction) -> (ev: StepEvent)
        requires
            old(self).function_index < functions.len(),
            old(self).pc < usize::MAX,
            *ins is CreateArray || *ins is GetArrayItem || *ins is SetArrayItem || *ins is GetArrayLength,
        ensures
            ev == aggregate_step(old(self)@, *ins, operand_count(functions@, old(self)@)).1,
            !(ev is Failed) ==> final(self)@ == aggregate_step(
                old(self)@,
                *ins,
                operand_count(functions@, old(self)@),
            ).0,
    {
        let ghost m = self@;
        match ins {
            Instruction::CreateArray(n) => {
                if !self.has_operands(functions, *n) {
                    return StepEvent::Failed(VmError::StackUnderflow);
                }
                let items = self.pop_values(*n);
                self.push_new_object(Aggregate::Array(items), true);
                StepEvent::Continue
            },
            Instruction::GetArrayItem => {
                if !self.has_operands(functions, 2) {
                    return StepEvent::Failed(VmError::StackUnderflow);
                }
                let index = self.pop_top();
                let array = self.pop_top();
                assert(self@.stack =~= popped(m, 2));
                let value = match array {
                    Variant::Array(h) => match self.heap.array(h) {
                        Some(items) => match Self::index_in(&index, items.len()) {
                            Ok(i) => items[i].duplicate(),
                            Err(e) => {
                                return StepEvent::Failed(e);
                            },
                        },
                        None => {
                            return StepEvent::Failed(VmError::TypeError);
                        },
                    },
                    _ => {
                        return StepEvent::Failed(VmError::TypeError);
                    },
                };
                self.stack.push(value);
                self.pc = self.pc + 1;
                StepEvent::Continue
            },
            Instruction::SetArrayItem => {
                if !self.has_operands(functions, 3) {
                    return StepEvent::Failed(VmError::StackUnderflow);
                }
                let value = self.pop_top();
                let index = self.pop_top();
                let array = self.pop_top();
                assert(self@.stack =~= popped(m, 3));
                match array {
                    Variant::Array(h) => {
                        let len = match self.heap.array(h) {
                            Some(items) => items.len(),
                            None => {
                                return StepEvent::Failed(VmError::TypeError);
                            },
                        };
                        match Self::index_in(&index, len) {
                            Ok(i) => {
                                self.heap.set_array_item(h, i, value);
                                self.stack.push(Variant::Array(h));
                                self.pc = self.pc + 1;
                                StepEvent::Continue
                            },
                            Err(e) => StepEvent::Failed(e),
                        }
                    },
                    _ => StepEvent::Failed(VmError::TypeError),
                }
            },
            _ => {
                if !self.has_operands(functions, 1) {
                    return StepEvent::Failed(VmError::StackUnderflow);
                }
                let array = self.pop_top();
                assert(self@.stack =~= popped(m, 1));
                let len = match array {
                    Variant::Array(h) => match self.heap.array(h) {
                        Some(items) => items.len(),
                        None => {
                            return StepEvent::Failed(VmError::TypeError);
                        },
                    },
                    _ => {
                        return StepEvent::Failed(VmError::TypeError);
                    },
                };
                if len as u64 > i64::MAX as u64 {
                    return StepEvent::Failed(VmError::Overflow);
                }
                self.stack.push(Variant::Integer(len as i64));
                self.pc = self.pc + 1;
                StepEvent::Continue
            },
        }
    }

    /// The entries of a dictionary made from the key and value pairs of `vals`.
    fn entries_of_pairs(&self, vals: &Vec<Variant>, n: usize) -> (r: Vec<(Variant, Variant)>)
        requires
            vals.len() == 2 * n,
        ensures
            r@ == entries_from_pairs(self@.heap, vals@),
    {
        let mut entries: Vec<(Variant, Variant)> = Vec::new();
        let len = vals.len();
        let mut j: usize = 0;
        assert(vals@.subrange(len as int, len as int).len() == 0);
        while j < n
            invariant
                j <= n,
                len == vals.len(),
                len == 2 * n,
                entries@ == entries_from_pairs(self@.heap, vals@.subrange(len - 2 * j, len as int)),
            decreases n - j,
        {
            let t = len - 2 * j - 2;
            proof {
                let sub = vals@.subrange(t as int, len as int);
                assert(sub.subrange(2, sub.len() as int) =~= vals@.subrange(len - 2 * j, len as int));
                assert(sub[0] == vals@[t as int]);
                assert(sub[1] == vals@[t + 1]);
            }
            self.heap.insert_entry(&mut entries, vals[t].duplicate(), vals[t + 1].duplicate());
            j = j + 1;
        }
        assert(vals@.subrange(0, len as int) =~= vals@);
        entries
    }

    fn dictionary_op(&mut self, functions: &Vec<Function>, ins: &Instruction) -> (ev: StepEvent)
        requires
            old(self).function_index < functions.len(),
            old(self).pc < usize::MAX,
            *ins is CreateDictionary || *ins is GetDictionaryItem || *ins is SetDictionaryItem
                || *ins is GetDictionaryKeys,
        ensures
            ev == aggregate_step(old(self)@, *ins, operand_count(functions@, old(self)@)).1,
            !(ev is Failed) ==> final(self)@ == aggregate_step(
                old(self)@,
                *ins,
                operand_count(functions@, old(self)@),
            ).0,
    {
        let ghost m = self@;
        match ins {
            Instruction::CreateDictionary(n) => {
                if *n > usize::MAX / 2 {
                    assert(operand_count(functions@, m) <= self.stack.len());
                    return StepEvent::Failed(VmError::StackUnderflow);
                }
                if !self.has_operands(functions, 2 * *n) {
                    return StepEvent::Failed(VmError::StackUnderflow);
                }
                let vals = self.pop_values(2 * *n);
                let entries = self.entries_of_pairs(&vals, *n);
                self.push_new_object(Aggregate::Dictionary(entries), false);
                StepEvent::Continue
            },
            Instruction::GetDictionaryItem => {
                if !self.has_operands(functions, 2) {
                    return StepEvent::Failed(VmError::StackUnderflow);
                }
                let key = self.pop_top();
                let table = self.pop_top();
                assert(self@.stack =~= popped(m, 2));
                let value = match table {
                    Variant::Dictionary(h) => match self.heap.dictionary(h) {
                        Some(entries) => {
                            proof {
                                lemma_find_key_bounds(self@.heap, entries@, key);
                            }
                            match self.heap.find_key(entries, &key) {
                                Some(j) => entries[j].1.duplicate(),
                                None => {
                                    return StepEvent::Failed(VmError::KeyNotFound);
                                },
                            }
                        },
                        None => {
                            return StepEvent::Failed(VmError::TypeError);
                        },
                    },
                    _ => {
                        return StepEvent::Failed(VmError::TypeError);
                    },
                };
                self.stack.push(value);
                self.pc = self.pc + 1;
                StepEvent::Continue
            },
            Instruction::SetDictionaryItem => {
                if !self.has_operands(functions, 3) {
                    return StepEvent::Failed(VmError::StackUnderflow);
                }
                let value = self.pop_top();
                let key = self.pop_top();
                let table = self.pop_top();
                assert(self@.stack =~= popped(m, 3));
                match table {
                    Variant::Dictionary(h) => {
                        if self.heap.dictionary(h).is_none() {
                            return StepEvent::Failed(VmError::TypeError);
                        }
                        self.heap.dictionary_insert(h, key, value);
                        self.pc = self.pc + 1;
                        StepEvent::Continue
                    },
                    _ => StepEvent::Failed(VmError::TypeError),
                }
            },
            _ => {
                if !self.has_operands(functions, 1) {
                    return StepEvent::Failed(VmError::StackUnderflow);
                }
                let table = self.pop_top();
                assert(self@.stack =~= popped(m, 1));
                let keys = match table {
                    Variant::Dictionary(h) => match self.heap.dictionary(h) {
                        Some(entries) => {
                            let mut keys: Vec<Variant> = Vec::new();
                            let mut i: usize = 0;
                            while i < entries.len()
                                invariant
                                    i <= entries.len(),
                                    keys@ == entries@.take(i as int).map_values(
                                        |e: (Variant, Variant)| e.0,
                                    ),
                                decreases entries.len() - i,
                            {
                                keys.push(entries[i].0.duplicate());
                                assert(keys@ =~= entries@.take(i + 1).map_values(
                                    |e: (Variant, Variant)| e.0,
                                ));
                                i = i + 1;
                            }
                            assert(entries@.take(i as int) =~= entries@);
                            keys
                        },
                        None => {
                            return StepEvent::Failed(VmError::TypeError);
                        },
                    },
                    _ => {
                        return StepEvent::Failed(VmError::TypeError);
                    },
                };
                self.push_new_object(Aggregate::Array(keys), true);
                StepEvent::Continue
            },
        }
    }
}

impl Machine {
    fn call(&mut self, functions: &Vec<Function>, target: usize) -> (ev: StepEvent)
        requires
            old(self).function_index < functions.len(),
            old(self).pc < usize::MAX,
        ensures
            ev == call_step(functions@, old(self)@, target, operand_count(functions@, old(self)@)).1,
            !(ev is Failed) ==> final(self)@ == call_step(
                functions@,
                old(self)@,
                target,
                operand_count(functions@, old(self)@),
            ).0,
    {
        if target >= functions.len() {
            return StepEvent::Failed(VmError::UnknownFunctionIndex(target));
        }
        let arity = functions[target].arity;
        let locals = functions[target].local_count;
        if !self.has_operands(functions, arity) {
            return StepEvent::Failed(VmError::StackUnderflow);
        }
        let new_base = self.stack.len() - arity;
        if locals > usize::MAX - new_base {
            return StepEvent::Failed(VmError::StackOverflow);
        }
        let wanted = new_base + locals;
        self.frames.push(
            Frame { function_index: self.function_index, pc: self.pc + 1, stack_base_pointer: self.base },
        );
        let ghost start = self.stack@;
        let ghost before = self@;
        while self.stack.len() < wanted
            invariant
                start == before.stack,
                start.len() <= self.stack@.len(),
                self.stack@.len() <= start.len() || self.stack@.len() <= wanted,
                self@ == (MachineView { stack: self.stack@, ..before }),
                self.stack@ == start + nulls(self.stack@.len() - start.len()),
            decreases wanted - self.stack.len(),
        {
            self.stack.push(Variant::Null);
            assert(self.stack@ =~= start + nulls(self.stack@.len() - start.len()));
        }
        proof {
            if wanted <= start.len() {
                assert(self.stack@ =~= start);
            } else {
                assert(self.stack@.len() == wanted);
            }
        }
        self.function_index = target;
        self.pc = 0;
        self.base = new_base;
        StepEvent::Continue
    }

    fn return_value(&mut self, functions: &Vec<Function>) -> (ev: StepEvent)
        requires
            old(self).function_index < functions.len(),
        ensures
            ev == return_step(old(self)@, operand_count(functions@, old(self)@)).1,
            !(ev is Failed) ==> final(self)@ == return_step(old(self)@, operand_count(functions@, old(self)@)).0,
    {
        if !self.has_operands(functions, 1) {
            return StepEvent::Failed(VmError::ReturnWithoutValue);
        }
        let ghost m = self@;
        let r = self.pop_top();
        self.stack.truncate(self.base);
        assert(self.stack@ =~= m.stack.take(m.base as int));
        match self.frames.pop() {
            None => StepEvent::Finished(Some(r)),
            Some(caller) => {
                self.stack.push(r);
                self.function_index = caller.function_index;
                self.pc = caller.pc;
                self.base = caller.stack_base_pointer;
                StepEvent::Continue
            },
        }
    }

    /// Executes the instruction at `pc` of the running function. On failure the
    /// state is left unspecified: a run ends at its first failure.
    pub fn step(&mut self, functions: &Vec<Function>, symbols: &Vec<(String, SymbolEntry)>) -> (ev: StepEvent)
        ensures
            ev == step_spec(functions@, symbols@, old(self)@).1,
            !(ev is Failed) ==> final(self)@ == step_spec(functions@, symbols@, old(self)@).0,
    {
        if self.function_index >= functions.len() || self.pc >= functions[self.function_index].instructions.len() {
            return StepEvent::Failed(VmError::PcOutOfBounds(self.pc));
        }
        let ghost m = self@;
        let locals = functions[self.function_index].local_count;
        let ins = &functions[self.function_index].instructions[self.pc];
        match ins {
            Instruction::Push(v) => {
                self.stack.push(v.duplicate());
                self.pc = self.pc + 1;
                StepEvent::Continue
            },
            Instruction::Pop => {
                if !self.has_operands(functions, 1) {
                    return StepEvent::Failed(VmError::StackUnderflow);
                }
                self.pop_top();
                assert(self@.stack =~= popped(m, 1));
                self.pc = self.pc + 1;
                StepEvent::Continue
            },
            Instruction::GetLocal(i) => {
                if *i < locals && self.base <= self.stack.len() && *i < self.stack.len() - self.base {
                    let v = self.stack[self.base + *i].duplicate();
                    self.stack.push(v);
                    self.pc = self.pc + 1;
                    StepEvent::Continue
                } else {
                    StepEvent::Failed(VmError::BadLocalIndex(*i))
                }
            },
            Instruction::SetLocal(i) => {
                if !self.has_operands(functions, 1) {
                    return StepEvent::Failed(VmError::StackUnderflow);
                }
                let v = self.pop_top();
                if *i < locals && self.base <= self.stack.len() && *i < self.stack.len() - self.base {
                    self.stack.set(self.base + *i, v);
                    assert(self@.stack =~= popped(m, 1).update(m.base + *i, top(m, 0)));
                    self.pc = self.pc + 1;
                    StepEvent::Continue
                } else {
                    StepEvent::Failed(VmError::BadLocalIndex(*i))
                }
            },
            Instruction::Jump(a) => {
                self.pc = *a;
                StepEvent::Continue
            },
            Instruction::JumpIfFalse(a) => {
                if !self.has_operands(functions, 1) {
                    return StepEvent::Failed(VmError::StackUnderflow);
                }
                let v = self.pop_top();
                assert(self@.stack =~= popped(m, 1));
                match v {
                    Variant::Boolean(false) => {
                        self.pc = *a;
                        StepEvent::Continue
                    },
                    Variant::Boolean(true) => {
                        self.pc = self.pc + 1;
                        StepEvent::Continue
                    },
                    _ => StepEvent::Failed(VmError::TypeError),
                }
            },
            Instruction::Add => self.binary(functions, ArithOp::Add),
            Instruction::Sub => self.binary(functions, ArithOp::Sub),
            Instruction::Mul => self.binary(functions, ArithOp::Mul),
            Instruction::Div => self.binary(functions, ArithOp::Div),
            Instruction::Mod => self.binary(functions, ArithOp::Mod),
            Instruction::Pow => self.binary(functions, ArithOp::Pow),
            Instruction::Negate => self.unary(functions, true),
            Instruction::Not => self.unary(functions, false),
            Instruction::Equal | Instruction::NotEqual | Instruction::And | Instruction::Or
            | Instruction::LessThan | Instruction::LessEqual | Instruction::GreaterThan
            | Instruction::GreaterEqual => self.compare(functions, ins),
            Instruction::CreateArray(_) | Instruction::GetArrayItem | Instruction::SetArrayItem
            | Instruction::GetArrayLength => self.array_op(functions, ins),
            Instruction::CreateDictionary(_) | Instruction::GetDictionaryItem
            | Instruction::SetDictionaryItem | Instruction::GetDictionaryKeys => self.dictionary_op(
                functions,
                ins,
            ),
            Instruction::FunctionCall(CallTarget::Index(t)) => self.call(functions, *t),
            Instruction::FunctionCall(CallTarget::Name(name)) => match lookup(symbols, name) {
                Some(SymbolEntry::UserDefinedFunction { index }) => self.call(functions, index),
                Some(SymbolEntry::NativeFunction { arity }) => {
                    if !self.has_operands(functions, arity) {
                        return StepEvent::Failed(VmError::StackUnderflow);
                    }
                    self.pc = self.pc + 1;
                    StepEvent::NativeCall { name: name.clone(), arity }
                },
                None => StepEvent::Failed(VmError::UnknownFunction(name.clone())),
            },
            Instruction::Return => self.return_value(functions),
            Instruction::Print => {
                if !self.has_operands(functions, 1) {
                    return StepEvent::Failed(VmError::StackUnderflow);
                }
                let v = self.pop_top();
                assert(self@.stack =~= popped(m, 1));
                self.pc = self.pc + 1;
                StepEvent::Print(v)
            },
            Instruction::Halt => StepEvent::Finished(None),
            Instruction::Panic => {
                if !self.has_operands(functions, 1) {
                    return StepEvent::Failed(VmError::StackUnderflow);
                }
                match self.pop_top() {
                    Variant::String(s) => StepEvent::Failed(VmError::Panic(s)),
                    _ => StepEvent::Failed(VmError::TypeError),
                }
            },
        }
    }
}

} // verus!
