use vstd::prelude::*;
use crate::builder::{BlockEncoder, patched, terminated};
use crate::error::VmError;
use crate::heap::array_at;
use crate::machine::{
    MachineView, StepEvent, nulls, operand_count, run_spec, step_spec, top,
};
use crate::program::{CallTarget, Function, Instruction, SymbolEntry, lookup_name};
use crate::runtime::initial_machine;
use crate::variant::Variant;

verus! {

/// The value pushed by a `Push` instruction.
pub open spec fn pushed_value(ins: Instruction) -> Variant {
    match ins {
        Instruction::Push(v) => v,
        _ => Variant::Null,
    }
}

/// The machine after the first `k` pushes of a function that only pushes.
spec fn after_pushes(functions: Seq<Function>, i: usize, k: int) -> MachineView {
    let code = functions[i as int].instructions@;
    MachineView {
        stack: nulls(functions[i as int].local_count as int) + Seq::new(
            k as nat,
            |j: int| pushed_value(code[j]),
        ),
        frames: Seq::empty(),
        function_index: i,
        pc: k as usize,
        base: 0,
        heap: Seq::empty(),
    }
}

proof fn lemma_pushes_then_return(
    functions: Seq<Function>,
    symbols: Seq<(String, SymbolEntry)>,
    i: usize,
    k: int,
    fuel: nat,
)
    requires
        i < functions.len(),
        functions[i as int].instructions@.len() >= 2,
        forall|j: int|
            0 <= j < functions[i as int].instructions@.len() - 1 ==> (
            #[trigger] functions[i as int].instructions@[j]) is Push,
        functions[i as int].instructions@.last() is Return,
        0 <= k < functions[i as int].instructions@.len(),
        fuel + k >= functions[i as int].instructions@.len(),
    ensures
        run_spec(functions, symbols, after_pushes(functions, i, k), fuel) == Some(
            Ok::<Option<Variant>, VmError>(
                Some(pushed_value(functions[i as int].instructions@[functions[i as int].instructions@.len() - 2])),
            ),
        ),
    decreases functions[i as int].instructions@.len() - k,
{
    let code = functions[i as int].instructions@;
    let m = after_pushes(functions, i, k);
    if k == code.len() - 1 {
        assert(top(m, 0) == pushed_value(code[k - 1]));
        assert(code[k] == Instruction::Return);
        assert(functions[i as int].instructions.len() == code.len());
        assert(step_spec(functions, symbols, m).1 == StepEvent::Finished(Some(top(m, 0))));
    } else {
        let next = after_pushes(functions, i, k + 1);
        assert(code[k] is Push);
        let v = pushed_value(code[k]);
        assert(code[k] == Instruction::Push(v));
        assert(m.stack.push(v) =~= next.stack);
        assert(functions[i as int].instructions.len() == code.len());
        assert(step_spec(functions, symbols, m) == (next, StepEvent::Continue));
        lemma_pushes_then_return(functions, symbols, i, k + 1, (fuel - 1) as nat);
        assert(run_spec(functions, symbols, m, fuel) == run_spec(functions, symbols, next, (fuel - 1) as nat));
    }
}

/// A function that only pushes values and then returns the last of them,
/// run as the entry point, ends with exactly that value.
pub proof fn law_push_then_return(
    functions: Seq<Function>,
    symbols: Seq<(String, SymbolEntry)>,
    entry: usize,
    fuel: nat,
)
    requires
        entry < functions.len(),
        functions[entry as int].instructions@.len() >= 2,
        forall|j: int|
            0 <= j < functions[entry as int].instructions@.len() - 1 ==> (
            #[trigger] functions[entry as int].instructions@[j]) is Push,
        functions[entry as int].instructions@.last() is Return,
        fuel >= functions[entry as int].instructions@.len(),
    ensures
        run_spec(functions, symbols, initial_machine(functions, entry), fuel) == Some(
            Ok::<Option<Variant>, VmError>(
                Some(
                    pushed_value(
                        functions[entry as int].instructions@[functions[entry as int].instructions@.len()
                            - 2],
                    ),
                ),
            ),
        ),
{
    let m0 = after_pushes(functions, entry, 0);
    assert(m0.stack =~= initial_machine(functions, entry).stack);
    assert(m0 == initial_machine(functions, entry));
    lemma_pushes_then_return(functions, symbols, entry, 0, fuel);
}

/// The instruction at which the machine stands.
pub open spec fn current(functions: Seq<Function>, m: MachineView) -> Instruction {
    functions[m.function_index as int].instructions@[m.pc as int]
}

/// The machine stands at an instruction of one of the functions.
pub open spec fn at_instruction(functions: Seq<Function>, m: MachineView) -> bool {
    m.function_index < functions.len() && m.pc < functions[m.function_index as int].instructions@.len()
}

/// The machine after one step, when the step continues.
pub open spec fn next_state(
    functions: Seq<Function>,
    symbols: Seq<(String, SymbolEntry)>,
    m: MachineView,
) -> MachineView {
    step_spec(functions, symbols, m).0
}

/// Pushing a value and printing it hands that very value to the output, and
/// leaves the stack as it was.
pub proof fn law_push_then_print(
    functions: Seq<Function>,
    symbols: Seq<(String, SymbolEntry)>,
    m: MachineView,
    v: Variant,
)
    requires
        at_instruction(functions, m),
        m.pc + 1 < functions[m.function_index as int].instructions@.len(),
        current(functions, m) == Instruction::Push(v),
        functions[m.function_index as int].instructions@[m.pc + 1] == Instruction::Print,
        operand_count(functions, m) >= 0,
    ensures
        step_spec(functions, symbols, m).1 == StepEvent::Continue,
        step_spec(functions, symbols, next_state(functions, symbols, m)).1 == StepEvent::Print(v),
        next_state(functions, symbols, next_state(functions, symbols, m)).stack == m.stack,
        next_state(functions, symbols, next_state(functions, symbols, m)).pc == m.pc + 2,
{
    assert(functions[m.function_index as int].instructions.len() == functions[m.function_index as int].instructions@.len());
    let m1 = next_state(functions, symbols, m);
    assert(m1.stack == m.stack.push(v));
    assert(m1.stack.take(m1.stack.len() - 1) =~= m.stack);
}

/// A call of a user-defined function, by index or by a name bound to it.
pub open spec fn calls(symbols: Seq<(String, SymbolEntry)>, ins: Instruction, target: usize) -> bool {
    ||| ins == Instruction::FunctionCall(CallTarget::Index(target))
    ||| ins matches Instruction::FunctionCall(CallTarget::Name(n)) && lookup_name(symbols, n@) == Some(
        SymbolEntry::UserDefinedFunction { index: target },
    )
}

/// The arguments of a call, on top of the stack in source order, are the
/// callee's first locals: local `i` of the callee holds argument `i`, and a
/// `GetLocal(i)` at the callee's start pushes it.
pub proof fn law_arguments_become_locals(
    functions: Seq<Function>,
    symbols: Seq<(String, SymbolEntry)>,
    m: MachineView,
    target: usize,
)
    requires
        at_instruction(functions, m),
        calls(symbols, current(functions, m), target),
        target < functions.len(),
        functions[target as int].arity <= functions[target as int].local_count,
        operand_count(functions, m) >= functions[target as int].arity,
        m.stack.len() + functions[target as int].local_count <= usize::MAX,
    ensures
        ({
            let k = functions[target as int].arity as int;
            let m2 = next_state(functions, symbols, m);
            &&& step_spec(functions, symbols, m).1 == StepEvent::Continue
            &&& m2.function_index == target
            &&& m2.pc == 0
            &&& m2.base == m.stack.len() - k
            &&& forall|i: int| 0 <= i < k ==> #[trigger] m2.stack[m2.base + i] == m.stack[m.stack.len() - k + i]
            &&& forall|i: usize|
                i < k && functions[target as int].instructions@.len() > 0
                    && functions[target as int].instructions@[0] == Instruction::GetLocal(i)
                    ==> step_spec(functions, symbols, m2).1 == StepEvent::Continue
                    && #[trigger] step_spec(functions, symbols, m2).0.stack.last() == m.stack[m.stack.len() - k + i]
        }),
{
    let k = functions[target as int].arity as int;
    let m2 = next_state(functions, symbols, m);
    assert(m2.stack.len() >= m.stack.len());
    assert forall|i: int| 0 <= i < k implies #[trigger] m2.stack[m2.base + i] == m.stack[m.stack.len() - k + i] by {
        assert(m2.base + i < m.stack.len());
    }
    assert(functions[target as int].instructions.len() == functions[target as int].instructions@.len());
}

/// A value stored into a local is the value that reading the local next
/// pushes.
pub proof fn law_set_then_get_local(
    functions: Seq<Function>,
    symbols: Seq<(String, SymbolEntry)>,
    m: MachineView,
    slot: usize,
)
    requires
        at_instruction(functions, m),
        m.pc + 1 < functions[m.function_index as int].instructions@.len(),
        current(functions, m) == Instruction::SetLocal(slot),
        functions[m.function_index as int].instructions@[m.pc + 1] == Instruction::GetLocal(slot),
        operand_count(functions, m) >= 1,
        slot < functions[m.function_index as int].local_count,
        m.base + slot < m.stack.len() - 1,
    ensures
        step_spec(functions, symbols, m).1 == StepEvent::Continue,
        step_spec(functions, symbols, next_state(functions, symbols, m)).1 == StepEvent::Continue,
        next_state(functions, symbols, next_state(functions, symbols, m)).stack.last() == top(m, 0),
{
    assert(functions[m.function_index as int].instructions.len() == functions[m.function_index as int].instructions@.len());
}

/// Storing into one local leaves every other local as it was.
pub proof fn law_set_local_keeps_others(
    functions: Seq<Function>,
    symbols: Seq<(String, SymbolEntry)>,
    m: MachineView,
    slot: usize,
    other: usize,
)
    requires
        at_instruction(functions, m),
        current(functions, m) == Instruction::SetLocal(other),
        other != slot,
        m.base + slot < m.stack.len() - 1,
        step_spec(functions, symbols, m).1 == StepEvent::Continue,
    ensures
        next_state(functions, symbols, m).stack[m.base + slot] == m.stack[m.base + slot],
        next_state(functions, symbols, m).base == m.base,
{
}

/// Arrays are shared: once an item is set through one copy of a handle, a
/// read through any copy of the same handle sees the new item.
pub proof fn law_alias_sees_mutation(
    functions: Seq<Function>,
    symbols: Seq<(String, SymbolEntry)>,
    m: MachineView,
    reader: MachineView,
    h: usize,
    index: i64,
    value: Variant,
)
    requires
        at_instruction(functions, m),
        current(functions, m) == Instruction::SetArrayItem,
        operand_count(functions, m) >= 3,
        top(m, 2) == Variant::Array(h),
        top(m, 1) == Variant::Integer(index),
        top(m, 0) == value,
        array_at(m.heap, h) matches Some(items) && 0 <= index < items.len(),
        at_instruction(functions, reader),
        reader.heap == next_state(functions, symbols, m).heap,
        current(functions, reader) == Instruction::GetArrayItem,
        operand_count(functions, reader) >= 2,
        top(reader, 1) == Variant::Array(h),
        top(reader, 0) == Variant::Integer(index),
    ensures
        step_spec(functions, symbols, m).1 == StepEvent::Continue,
        next_state(functions, symbols, m).stack.last() == Variant::Array(h),
        step_spec(functions, symbols, reader).1 == StepEvent::Continue,
        next_state(functions, symbols, reader).stack.last() == value,
{
    assert(functions[m.function_index as int].instructions.len() == functions[m.function_index as int].instructions@.len());
    assert(functions[reader.function_index as int].instructions.len() == functions[reader.function_index as int].instructions@.len());
}

/// The jump instruction `ins` aimed at `target`.
pub open spec fn aimed(ins: Instruction, target: usize) -> Instruction {
    match ins {
        Instruction::JumpIfFalse(_) => Instruction::JumpIfFalse(target),
        _ => Instruction::Jump(target),
    }
}

proof fn lemma_patch_prefix(e: BlockEncoder, k: int, n: int, target: usize)
    requires
        e.wf(),
        0 <= k < e.pending_jumps@.len(),
        0 <= n <= e.pending_jumps@.len(),
        lookup_name(e.labels@, e.pending_jumps@[k].1@) == Some(target),
    ensures
        patched(terminated(e.instructions@), e.labels@, e.pending_jumps@.take(n)) matches Ok(c) ==> {
            let j = e.pending_jumps@[k].0 as int;
            &&& c.len() == terminated(e.instructions@).len()
            &&& c[j] == if n > k {
                aimed(e.instructions@[j], target)
            } else {
                e.instructions@[j]
            }
        },
    decreases n,
{
    let code = terminated(e.instructions@);
    let j = e.pending_jumps@[k].0 as int;
    assert(j < e.instructions@.len());
    assert(code[j] == e.instructions@[j]);
    if n > 0 {
        let pre = e.pending_jumps@.take(n);
        assert(pre.drop_last() =~= e.pending_jumps@.take(n - 1));
        assert(pre.last() == e.pending_jumps@[n - 1]);
        lemma_patch_prefix(e, k, n - 1, target);
        if n - 1 != k {
            if n - 1 < k {
                assert(e.pending_jumps@[n - 1].0 < e.pending_jumps@[k].0);
            } else {
                assert(e.pending_jumps@[k].0 < e.pending_jumps@[n - 1].0);
            }
        }
    } else {
        assert(e.pending_jumps@.take(0) =~= Seq::<(usize, String)>::empty());
    }
}

/// A jump emitted before its label was placed lands, once the code is
/// encoded, exactly at the label's position, which is the index of the
/// instruction placed right after the label; executing the jump moves the
/// machine there.
pub proof fn law_forward_jump(e: BlockEncoder, k: int, target: usize)
    requires
        e.wf(),
        0 <= k < e.pending_jumps@.len(),
        lookup_name(e.labels@, e.pending_jumps@[k].1@) == Some(target),
    ensures
        e.encoded() matches Ok(code) ==> code[e.pending_jumps@[k].0 as int] == aimed(
            e.instructions@[e.pending_jumps@[k].0 as int],
            target,
        ),
        forall|functions: Seq<Function>, symbols: Seq<(String, SymbolEntry)>, m: MachineView|
            at_instruction(functions, m) && current(functions, m) == Instruction::Jump(target)
                ==> #[trigger] step_spec(functions, symbols, m) == (MachineView { pc: target, ..m }, StepEvent::Continue),
{
    lemma_patch_prefix(e, k, e.pending_jumps@.len() as int, target);
    assert(e.pending_jumps@.take(e.pending_jumps@.len() as int) =~= e.pending_jumps@);
}

/// Two declared locals of different names have different slots, so storing
/// into one never overwrites the other.
pub proof fn law_distinct_locals_distinct_slots(e: BlockEncoder, a: Seq<char>, b: Seq<char>)
    requires
        e.wf(),
        a != b,
        lookup_name(e.locals@, a) is Some,
        lookup_name(e.locals@, b) is Some,
    ensures
        lookup_name(e.locals@, a) != lookup_name(e.locals@, b),
{
    crate::program::lemma_name_position(e.locals@, a);
    crate::program::lemma_name_position(e.locals@, b);
}

} // verus!
