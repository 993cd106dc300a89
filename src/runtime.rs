use vstd::prelude::*;
use std::time::{Duration, Instant};
use crate::error::VmError;
use crate::heap::{AggregateView, Heap};
use crate::machine::{Machine, MachineView, StepEvent, nulls, run_spec, step_spec};
use crate::program::{
    CallTarget, Function, Instruction, Program, SymbolEntry, bind, bind_name, lookup, lookup_name,
};
use crate::variant::{ArithOp, Variant};
use crate::display::{display, float_free};

verus! {

/// Declares `std::time::Instant`, which a run holds, opaque, from its start to
/// its end to measure how long it took.
#[verifier::external_type_specification]
#[verifier::external_body]
pub struct ExInstant(std::time::Instant);

/// Relies on `std::time::Instant::now`: the current instant, used only to
/// measure how long a run took.
#[verifier::external_body]
fn clock_now() -> Instant {
    Instant::now()
}

/// Relies on `std::time::Instant::elapsed`: the time since `start`.
#[verifier::external_body]
fn clock_elapsed(start: &Instant) -> Duration {
    start.elapsed()
}

/// What the embedding program supplies to a run: the native functions, the
/// output, and IEEE-754 arithmetic, which this library leaves to the platform.
pub trait Host {
    /// Calls the native function `name` on `args`, the first argument first.
    /// A returned value is pushed onto the caller's stack.
    fn call_native(&mut self, heap: &mut Heap, name: &String, args: Vec<Variant>) -> Result<
        Option<Variant>,
        VmError,
    >;

    /// Writes one line of output; `line` ends with its newline.
    fn print(&mut self, line: String);

    /// The IEEE-754 binary64 result of `op` on two bit patterns.
    fn float_arith(&mut self, op: ArithOp, lhs: u64, rhs: u64) -> u64;

    /// The display form of the float with bit pattern `bits`.
    fn float_text(&self, bits: u64) -> String;
}

/// The outcome of a run that finished.
#[derive(Debug)]
pub struct VmExecutionResult {
    /// The value that the entry function returned; `None` after `Halt`.
    pub result: Option<Variant>,
    pub run_time: Duration,
    /// The heap that the result's handles name.
    pub heap: Heap,
}

/// Holds the loaded functions and the symbol table, and runs them.
#[derive(Clone, Default, Debug)]
pub struct Vm {
    pub functions: Vec<Function>,
    pub symbols: Vec<(String, SymbolEntry)>,
}

/// The entry point's name: the given one, or `main`.
pub open spec fn entry_name(entry_point: Option<String>) -> Seq<char> {
    match entry_point {
        Some(name) => name@,
        None => "main"@,
    }
}

/// The index of the user-defined function that `name` names.
pub open spec fn entry_index(
    functions: Seq<Function>,
    symbols: Seq<(String, SymbolEntry)>,
    name: Seq<char>,
) -> Option<usize> {
    match lookup_name(symbols, name) {
        Some(SymbolEntry::UserDefinedFunction { index }) => if index < functions.len() {
            Some(index)
        } else {
            None
        },
        _ => None,
    }
}

/// The machine about to run function `index`: its locals are `Null`, and no
/// call is pending.
pub open spec fn initial_machine(functions: Seq<Function>, index: usize) -> MachineView {
    MachineView {
        stack: nulls(functions[index as int].local_count as int),
        frames: Seq::empty(),
        function_index: index,
        pc: 0,
        base: 0,
        heap: Seq::empty(),
    }
}

/// A loaded call target: indices move by `offset`.
pub open spec fn offset_instruction(offset: int, ins: Instruction) -> Instruction {
    match ins {
        Instruction::FunctionCall(CallTarget::Index(i)) => if i + offset <= usize::MAX {
            Instruction::FunctionCall(CallTarget::Index((i + offset) as usize))
        } else {
            ins
        },
        _ => ins,
    }
}

pub open spec fn offset_entry(offset: int, e: SymbolEntry) -> SymbolEntry {
    match e {
        SymbolEntry::UserDefinedFunction { index } => if index + offset <= usize::MAX {
            SymbolEntry::UserDefinedFunction { index: (index + offset) as usize }
        } else {
            e
        },
        _ => e,
    }
}

/// `f` is `g` loaded behind `offset` other functions.
pub open spec fn loaded_function(offset: int, g: Function, f: Function) -> bool {
    &&& f.name@ == g.name@
    &&& f.arity == g.arity
    &&& f.local_count == g.local_count
    &&& f.instructions@ == g.instructions@.map_values(|i: Instruction| offset_instruction(offset, i))
}

impl Vm {
    pub fn new() -> (r: Vm)
        ensures
            r.functions@.len() == 0,
            r.symbols@.len() == 0,
    {
        Vm { functions: Vec::new(), symbols: Vec::new() }
    }

    /// Binds `name` to a native function of `arity` arguments; the host
    /// provides the function itself.
    pub fn register_native_function(&mut self, name: String, arity: usize)
        ensures
            final(self).functions == old(self).functions,
            final(self).symbols@ == bind_name(old(self).symbols@, name, SymbolEntry::NativeFunction { arity }),
    {
        bind(&mut self.symbols, name, SymbolEntry::NativeFunction { arity });
    }

    /// Adds the program's functions after those already loaded, moving its
    /// function indices by the number of those, and binds its symbols, which
    /// replace earlier bindings of the same names.
    pub fn load_program(&mut self, program: Program)
        ensures
            final(self).functions@.len() == old(self).functions@.len() + program.functions@.len(),
            forall|k: int|
                0 <= k < old(self).functions@.len() ==> #[trigger] final(self).functions@[k] == old(
                    self,
                ).functions@[k],
            forall|k: int|
                0 <= k < program.functions@.len() ==> loaded_function(
                    old(self).functions@.len() as int,
                    program.functions@[k],
                    #[trigger] final(self).functions@[old(self).functions@.len() + k],
                ),
            forall|n: Seq<char>|
                #[trigger] lookup_name(final(self).symbols@, n) == match lookup_name(
                    program.symbol_table@,
                    n,
                ) {
                    Some(e) => Some(offset_entry(old(self).functions@.len() as int, e)),
                    None => lookup_name(old(self).symbols@, n),
                },
    {
        let offset = self.functions.len();
        let ghost old_functions = self.functions@;
        let ghost old_symbols = self.symbols@;
        let mut k: usize = 0;
        while k < program.functions.len()
            invariant
                k <= program.functions.len(),
                self.symbols@ == old_symbols,
                offset == old_functions.len(),
                self.functions@.len() == offset + k,
                forall|j: int| 0 <= j < offset ==> #[trigger] self.functions@[j] == old_functions[j],
                forall|j: int|
                    0 <= j < k ==> loaded_function(
                        offset as int,
                        program.functions@[j],
                        #[trigger] self.functions@[offset + j],
                    ),
            decreases program.functions.len() - k,
        {
            let f = &program.functions[k];
            let mut code: Vec<Instruction> = Vec::new();
            let mut i: usize = 0;
            while i < f.instructions.len()
                invariant
                    i <= f.instructions.len(),
                    code@ == f.instructions@.take(i as int).map_values(
                        |ins: Instruction| offset_instruction(offset as int, ins),
                    ),
                decreases f.instructions.len() - i,
            {
                let moved = match &f.instructions[i] {
                    Instruction::FunctionCall(CallTarget::Index(t)) => {
                        if *t > usize::MAX - offset {
                            f.instructions[i].duplicate()
                        } else {
                            Instruction::FunctionCall(CallTarget::Index(*t + offset))
                        }
                    },
                    other => other.duplicate(),
                };
                code.push(moved);
                proof {
                    assert(code@ =~= f.instructions@.take(i + 1).map_values(
                        |ins: Instruction| offset_instruction(offset as int, ins),
                    ));
                }
                i = i + 1;
            }
            assert(f.instructions@.take(i as int) =~= f.instructions@);
            self.functions.push(
                Function {
                    name: f.name.clone(),
                    arity: f.arity,
                    local_count: f.local_count,
                    instructions: code,
                },
            );
            k = k + 1;
        }
        let ghost loaded = self.functions@;
        let mut s: usize = 0;
        assert(program.symbol_table@.take(0) =~= Seq::<(String, SymbolEntry)>::empty());
        while s < program.symbol_table.len()
            invariant
                s <= program.symbol_table.len(),
                offset == old_functions.len(),
                self.functions@ == loaded,
                forall|n: Seq<char>|
                    #[trigger] lookup_name(self.symbols@, n) == match lookup_name(
                        program.symbol_table@.take(s as int),
                        n,
                    ) {
                        Some(e) => Some(offset_entry(offset as int, e)),
                        None => lookup_name(old_symbols, n),
                    },
            decreases program.symbol_table.len() - s,
        {
            let name = program.symbol_table[s].0.clone();
            let entry = match program.symbol_table[s].1 {
                SymbolEntry::UserDefinedFunction { index } => {
                    if index > usize::MAX - offset {
                        program.symbol_table[s].1
                    } else {
                        SymbolEntry::UserDefinedFunction { index: index + offset }
                    }
                },
                other => other,
            };
            let ghost before = self.symbols@;
            bind(&mut self.symbols, name, entry);
            proof {
                crate::program::lemma_bind_lookup(before, name, entry);
                assert forall|n: Seq<char>|
                    #[trigger] lookup_name(self.symbols@, n) == match lookup_name(
                        program.symbol_table@.take(s + 1),
                        n,
                    ) {
                        Some(e) => Some(offset_entry(offset as int, e)),
                        None => lookup_name(old_symbols, n),
                    } by {
                    crate::program::lemma_lookup_take_next(program.symbol_table@, s as int, n);
                    if n != name@ {
                        assert(lookup_name(self.symbols@, n) == lookup_name(before, n));
                    }
                }
            }
            s = s + 1;
        }
        assert(program.symbol_table@.take(s as int) =~= program.symbol_table@);
    }
}

/// What the host handed back for one request of a run.
pub enum HostAnswer {
    /// A native call: the heap after the call, and the call's outcome.
    Native { heap: Seq<AggregateView>, outcome: Result<Option<Variant>, VmError> },
    /// The bit pattern of a float result.
    Float(u64),
    /// The string that a string addition pushed.
    Text(String),
}

/// `joined` is `text` followed by a display form of `value`: exactly the
/// display form where no float shows in it.
pub open spec fn joined_text(heap: Seq<AggregateView>, text: Seq<char>, value: Variant, joined: Seq<char>) -> bool {
    &&& text.len() <= joined.len()
    &&& joined.take(text.len() as int) == text
    &&& float_free(heap, value, heap.len()) ==> joined == text + display(heap, value, heap.len())
}

/// How a run ends when the host hands back `answers`, in order, to its
/// requests: `None` when the answers run out or one does not fit its request.
pub open spec fn run_answered(
    functions: Seq<Function>,
    symbols: Seq<(String, SymbolEntry)>,
    m: MachineView,
    fuel: nat,
    answers: Seq<HostAnswer>,
) -> Option<Result<Option<Variant>, VmError>>
    decreases fuel,
{
    if fuel == 0 {
        Some(Err(VmError::StepLimitExceeded))
    } else {
        let (next, ev) = step_spec(functions, symbols, m);
        match ev {
            StepEvent::Continue | StepEvent::Print(_) => run_answered(
                functions,
                symbols,
                next,
                (fuel - 1) as nat,
                answers,
            ),
            StepEvent::Finished(r) => Some(Ok(r)),
            StepEvent::Failed(e) => Some(Err(e)),
            StepEvent::NativeCall { name, arity } => if next.stack.len() < arity {
                Some(Err(VmError::StackUnderflow))
            } else if answers.len() == 0 {
                None
            } else {
                match answers[0] {
                    HostAnswer::Native { heap, outcome } => match outcome {
                        Err(e) => Some(Err(e)),
                        Ok(pushed) => {
                            let args_gone = next.stack.take(next.stack.len() - arity);
                            let stack = match pushed {
                                Some(v) => args_gone.push(v),
                                None => args_gone,
                            };
                            run_answered(
                                functions,
                                symbols,
                                MachineView { stack, heap, ..next },
                                (fuel - 1) as nat,
                                answers.drop_first(),
                            )
                        },
                    },
                    _ => None,
                }
            },
            StepEvent::FloatArith { .. } => if answers.len() == 0 {
                None
            } else {
                match answers[0] {
                    HostAnswer::Float(bits) => run_answered(
                        functions,
                        symbols,
                        MachineView { stack: next.stack.push(Variant::Float(bits)), ..next },
                        (fuel - 1) as nat,
                        answers.drop_first(),
                    ),
                    _ => None,
                }
            },
            StepEvent::Concat { text, value } => if answers.len() == 0 {
                None
            } else {
                match answers[0] {
                    HostAnswer::Text(s) => if joined_text(next.heap, text@, value, s@) {
                        run_answered(
                            functions,
                            symbols,
                            MachineView { stack: next.stack.push(Variant::String(s)), ..next },
                            (fuel - 1) as nat,
                            answers.drop_first(),
                        )
                    } else {
                        None
                    },
                    _ => None,
                }
            },
        }
    }
}

/// How many steps `run` allows: as many as a `u64` counts.
pub const DEFAULT_STEP_BUDGET: u64 = 0xffff_ffff_ffff_ffff;

/// `r` is how a run that ends as `o` reports it.
pub open spec fn reports(r: Result<VmExecutionResult, VmError>, o: Result<Option<Variant>, VmError>) -> bool {
    match o {
        Ok(x) => r matches Ok(res) && res.result == x,
        Err(e) => r == Err::<VmExecutionResult, VmError>(e),
    }
}

/// What a run promises: an entry point that names no user-defined function is
/// refused; a run that asks the host for nothing but output ends as the step
/// semantics says; and every run ends as the step semantics says for the
/// answers that the host gave.
pub open spec fn run_outcome(
    functions: Seq<Function>,
    symbols: Seq<(String, SymbolEntry)>,
    entry_point: Option<String>,
    budget: nat,
    r: Result<VmExecutionResult, VmError>,
) -> bool {
    match entry_index(functions, symbols, entry_name(entry_point)) {
        None => r matches Err(VmError::UnknownEntryPoint(n)) && n@ == entry_name(entry_point),
        Some(i) => {
            &&& run_spec(functions, symbols, initial_machine(functions, i), budget) matches Some(o)
                ==> reports(r, o)
            &&& exists|answers: Seq<HostAnswer>|
                #[trigger] run_answered(functions, symbols, initial_machine(functions, i), budget, answers) matches Some(o)
                    && reports(r, o)
        },
    }
}

impl Vm {
    /// Handing the host's answer to a request moves a run on by one step and
    /// one answer.
    proof fn lemma_answer_consumed(
        &self,
        init: MachineView,
        budget: nat,
        given: Seq<HostAnswer>,
        m: MachineView,
        fuel: nat,
        answer: HostAnswer,
    )
        requires
            forall|rest: Seq<HostAnswer>|
                #[trigger] run_answered(self.functions@, self.symbols@, init, budget, given + rest)
                    == run_answered(self.functions@, self.symbols@, m, fuel, rest),
        ensures
            forall|rest: Seq<HostAnswer>|
                #[trigger] run_answered(self.functions@, self.symbols@, init, budget, given.push(answer) + rest)
                    == run_answered(self.functions@, self.symbols@, m, fuel, seq![answer] + rest),
    {
        assert forall|rest: Seq<HostAnswer>|
            #[trigger] run_answered(self.functions@, self.symbols@, init, budget, given.push(answer) + rest)
                == run_answered(self.functions@, self.symbols@, m, fuel, seq![answer] + rest) by {
            assert(given.push(answer) + rest =~= given + (seq![answer] + rest));
        }
    }

    /// A step that asks the host for no answer moves a run on by one step.
    proof fn lemma_plain_step(&self, init: MachineView, budget: nat, given: Seq<HostAnswer>, m: MachineView, fuel: nat)
        requires
            fuel > 0,
            step_spec(self.functions@, self.symbols@, m).1 is Continue || step_spec(self.functions@, self.symbols@, m).1 is Print,
            forall|rest: Seq<HostAnswer>|
                #[trigger] run_answered(self.functions@, self.symbols@, init, budget, given + rest)
                    == run_answered(self.functions@, self.symbols@, m, fuel, rest),
        ensures
            forall|rest: Seq<HostAnswer>|
                #[trigger] run_answered(self.functions@, self.symbols@, init, budget, given + rest)
                    == run_answered(self.functions@, self.symbols@, step_spec(self.functions@, self.symbols@, m).0, (fuel - 1) as nat, rest),
    {
    }

    /// After a step that asked the host, the run goes on from the state that
    /// the answer gives, with one answer fewer.
    proof fn lemma_answered_step(
        &self,
        init: MachineView,
        budget: nat,
        given: Seq<HostAnswer>,
        m: MachineView,
        fuel: nat,
        answer: HostAnswer,
        resumed: MachineView,
    )
        requires
            fuel > 0,
            forall|rest: Seq<HostAnswer>|
                #[trigger] run_answered(self.functions@, self.symbols@, init, budget, given.push(answer) + rest)
                    == run_answered(self.functions@, self.symbols@, m, fuel, seq![answer] + rest),
            forall|rest: Seq<HostAnswer>|
                run_answered(self.functions@, self.symbols@, m, fuel, #[trigger] (seq![answer] + rest))
                    == run_answered(self.functions@, self.symbols@, resumed, (fuel - 1) as nat, rest),
        ensures
            forall|rest: Seq<HostAnswer>|
                #[trigger] run_answered(self.functions@, self.symbols@, init, budget, given.push(answer) + rest)
                    == run_answered(self.functions@, self.symbols@, resumed, (fuel - 1) as nat, rest),
    {
        assert forall|rest: Seq<HostAnswer>|
            #[trigger] run_answered(self.functions@, self.symbols@, init, budget, given.push(answer) + rest)
                == run_answered(self.functions@, self.symbols@, resumed, (fuel - 1) as nat, rest) by {
            assert(run_answered(self.functions@, self.symbols@, m, fuel, seq![answer] + rest)
                == run_answered(self.functions@, self.symbols@, resumed, (fuel - 1) as nat, rest));
        }
    }

    /// The answer to a native call resumes the run with the arguments popped,
    /// the heap the call left, and the call's value pushed.
    proof fn lemma_native_answer(
        &self,
        m: MachineView,
        fuel: nat,
        heap: Seq<AggregateView>,
        pushed: Option<Variant>,
        resumed: MachineView,
    )
        requires
            fuel > 0,
            step_spec(self.functions@, self.symbols@, m).1 matches StepEvent::NativeCall { arity, .. } && ({
                let next = step_spec(self.functions@, self.symbols@, m).0;
                let args_gone = next.stack.take(next.stack.len() - arity);
                &&& next.stack.len() >= arity
                &&& resumed == (MachineView {
                    stack: match pushed {
                        Some(v) => args_gone.push(v),
                        None => args_gone,
                    },
                    heap,
                    ..next
                })
            }),
        ensures
            forall|rest: Seq<HostAnswer>|
                run_answered(
                    self.functions@,
                    self.symbols@,
                    m,
                    fuel,
                    #[trigger] (seq![HostAnswer::Native { heap, outcome: Ok(pushed) }] + rest),
                ) == run_answered(self.functions@, self.symbols@, resumed, (fuel - 1) as nat, rest),
    {
        assert forall|rest: Seq<HostAnswer>|
            run_answered(
                self.functions@,
                self.symbols@,
                m,
                fuel,
                #[trigger] (seq![HostAnswer::Native { heap, outcome: Ok(pushed) }] + rest),
            ) == run_answered(self.functions@, self.symbols@, resumed, (fuel - 1) as nat, rest) by {
            let all = seq![HostAnswer::Native { heap, outcome: Ok(pushed) }] + rest;
            assert(all.drop_first() =~= rest);
            assert(all[0] == HostAnswer::Native { heap, outcome: Ok(pushed) });
        }
    }

    /// The answer to a float operation resumes the run with the float pushed.
    proof fn lemma_float_answer(&self, m: MachineView, fuel: nat, bits: u64, resumed: MachineView)
        requires
            fuel > 0,
            step_spec(self.functions@, self.symbols@, m).1 is FloatArith,
            resumed == (MachineView {
                stack: step_spec(self.functions@, self.symbols@, m).0.stack.push(Variant::Float(bits)),
                ..step_spec(self.functions@, self.symbols@, m).0
            }),
        ensures
            forall|rest: Seq<HostAnswer>|
                run_answered(self.functions@, self.symbols@, m, fuel, #[trigger] (seq![HostAnswer::Float(bits)] + rest))
                    == run_answered(self.functions@, self.symbols@, resumed, (fuel - 1) as nat, rest),
    {
        assert forall|rest: Seq<HostAnswer>|
            run_answered(self.functions@, self.symbols@, m, fuel, #[trigger] (seq![HostAnswer::Float(bits)] + rest))
                == run_answered(self.functions@, self.symbols@, resumed, (fuel - 1) as nat, rest) by {
            let all = seq![HostAnswer::Float(bits)] + rest;
            assert(all.drop_first() =~= rest);
            assert(all[0] == HostAnswer::Float(bits));
        }
    }

    /// The answer to a string addition resumes the run with the string pushed.
    proof fn lemma_text_answer(&self, m: MachineView, fuel: nat, joined: String, resumed: MachineView)
        requires
            fuel > 0,
            step_spec(self.functions@, self.symbols@, m).1 matches StepEvent::Concat { text, value }
                && joined_text(step_spec(self.functions@, self.symbols@, m).0.heap, text@, value, joined@),
            resumed == (MachineView {
                stack: step_spec(self.functions@, self.symbols@, m).0.stack.push(Variant::String(joined)),
                ..step_spec(self.functions@, self.symbols@, m).0
            }),
        ensures
            forall|rest: Seq<HostAnswer>|
                run_answered(self.functions@, self.symbols@, m, fuel, #[trigger] (seq![HostAnswer::Text(joined)] + rest))
                    == run_answered(self.functions@, self.symbols@, resumed, (fuel - 1) as nat, rest),
    {
        assert forall|rest: Seq<HostAnswer>|
            run_answered(self.functions@, self.symbols@, m, fuel, #[trigger] (seq![HostAnswer::Text(joined)] + rest))
                == run_answered(self.functions@, self.symbols@, resumed, (fuel - 1) as nat, rest) by {
            let all = seq![HostAnswer::Text(joined)] + rest;
            assert(all.drop_first() =~= rest);
            assert(all[0] == HostAnswer::Text(joined));
        }
    }

    /// Runs the entry point (`main` when none is given) to its end. The host
    /// serves native calls, output and float arithmetic.
    pub fn run<H: Host>(&self, entry_point: Option<String>, host: &mut H) -> (r: Result<
        VmExecutionResult,
        VmError,
    >)
        ensures
            run_outcome(self.functions@, self.symbols@, entry_point, DEFAULT_STEP_BUDGET as nat, r),
    {
        self.run_with_budget(entry_point, host, DEFAULT_STEP_BUDGET)
    }

    /// `run`, failing with `StepLimitExceeded` once `budget` steps are taken.
    #[verifier::rlimit(50)]
    pub fn run_with_budget<H: Host>(&self, entry_point: Option<String>, host: &mut H, budget: u64) -> (r:
        Result<VmExecutionResult, VmError>)
        ensures
            run_outcome(self.functions@, self.symbols@, entry_point, budget as nat, r),
    {
        let start = clock_now();
        let name = match entry_point {
            Some(n) => n,
            None => "main".to_owned(),
        };
        let index = match lookup(&self.symbols, &name) {
            Some(SymbolEntry::UserDefinedFunction { index }) => {
                if index < self.functions.len() {
                    index
                } else {
                    return Err(VmError::UnknownEntryPoint(name));
                }
            },
            _ => {
                return Err(VmError::UnknownEntryPoint(name));
            },
        };
        let locals = self.functions[index].local_count;
        let mut stack: Vec<Variant> = Vec::new();
        while stack.len() < locals
            invariant
                stack.len() <= locals,
                stack@ == nulls(stack.len() as int),
            decreases locals - stack.len(),
        {
            stack.push(Variant::Null);
            assert(stack@ =~= nulls(stack.len() as int));
        }
        let mut machine = Machine {
            stack,
            frames: Vec::new(),
            function_index: index,
            pc: 0,
            base: 0,
            heap: Heap::new(),
        };
        let ghost init = initial_machine(self.functions@, index);
        let ghost chosen = entry_index(self.functions@, self.symbols@, entry_name(entry_point));
        assert(chosen == Some(index));
        assert(machine@.frames =~= init.frames);
        assert(machine@ == init);
        let mut fuel: u64 = budget;
        let ghost mut pure = true;
        let ghost mut given: Seq<HostAnswer> = Seq::empty();
        proof {
            assert forall|rest: Seq<HostAnswer>|
                #[trigger] run_answered(self.functions@, self.symbols@, init, budget as nat, given + rest)
                    == run_answered(self.functions@, self.symbols@, machine@, fuel as nat, rest) by {
                assert(given + rest =~= rest);
            }
        }
        loop
            invariant
                chosen == Some(index),
                chosen == entry_index(self.functions@, self.symbols@, entry_name(entry_point)),
                init == initial_machine(self.functions@, index),
                pure ==> run_spec(self.functions@, self.symbols@, init, budget as nat) == run_spec(
                    self.functions@,
                    self.symbols@,
                    machine@,
                    fuel as nat,
                ),
                !pure ==> run_spec(self.functions@, self.symbols@, init, budget as nat) is None,
                forall|rest: Seq<HostAnswer>|
                    #[trigger] run_answered(self.functions@, self.symbols@, init, budget as nat, given + rest)
                        == run_answered(self.functions@, self.symbols@, machine@, fuel as nat, rest),
            decreases fuel,
        {
            let ghost before = machine@;
            let ghost prev = given;
            proof {
                assert(given + Seq::<HostAnswer>::empty() =~= given);
                assert(run_answered(self.functions@, self.symbols@, init, budget as nat, given + Seq::<HostAnswer>::empty())
                    == run_answered(self.functions@, self.symbols@, before, fuel as nat, Seq::<HostAnswer>::empty()));
            }
            if fuel == 0 {
                return Err(VmError::StepLimitExceeded);
            }
            let ev = machine.step(&self.functions, &self.symbols);
            let ghost after_step = machine@;
            match ev {
                StepEvent::Continue => {
                    proof {
                        self.lemma_plain_step(init, budget as nat, given, before, fuel as nat);
                    }
                },
                StepEvent::Finished(result) => {
                    return Ok(VmExecutionResult { result, run_time: clock_elapsed(&start), heap: machine.heap });
                },
                StepEvent::Failed(e) => {
                    return Err(e);
                },
                StepEvent::NativeCall { name, arity } => {
                    proof {
                        pure = false;
                    }
                    if arity > machine.stack.len() {
                        return Err(VmError::StackUnderflow);
                    }
                    let args = machine.pop_values(arity);
                    let outcome = host.call_native(&mut machine.heap, &name, args);
                    let ghost answer = HostAnswer::Native { heap: machine.heap@, outcome };
                    proof {
                        self.lemma_answer_consumed(init, budget as nat, given, before, fuel as nat, answer);
                        given = given.push(answer);
                    }
                    match outcome {
                        Ok(Some(v)) => machine.push_value(v),
                        Ok(None) => {},
                        Err(e) => {
                            proof {
                                assert(seq![answer] + Seq::<HostAnswer>::empty() =~= seq![answer]);
                                assert(given + Seq::<HostAnswer>::empty() =~= given);
                                assert(run_answered(self.functions@, self.symbols@, init, budget as nat, given + Seq::<HostAnswer>::empty())
                                    == run_answered(self.functions@, self.symbols@, before, fuel as nat, seq![answer]));
                            }
                            return Err(e);
                        },
                    }
                    proof {
                        self.lemma_native_answer(before, fuel as nat, answer->heap, outcome->Ok_0, machine@);
                        self.lemma_answered_step(init, budget as nat, prev, before, fuel as nat, answer, machine@);
                    }
                },
                StepEvent::Print(v) => {
                    proof {
                        self.lemma_plain_step(init, budget as nat, given, before, fuel as nat);
                    }
                    let line = machine.heap.print_line(&v, host);
                    host.print(line);
                },
                StepEvent::FloatArith { op, lhs, rhs } => {
                    proof {
                        pure = false;
                    }
                    let bits = host.float_arith(op, lhs, rhs);
                    let ghost answer = HostAnswer::Float(bits);
                    proof {
                        self.lemma_answer_consumed(init, budget as nat, given, before, fuel as nat, answer);
                        given = given.push(answer);
                    }
                    machine.push_value(Variant::Float(bits));
                    proof {
                        self.lemma_float_answer(before, fuel as nat, bits, machine@);
                        self.lemma_answered_step(init, budget as nat, prev, before, fuel as nat, answer, machine@);
                    }
                },
                StepEvent::Concat { text, value } => {
                    proof {
                        pure = false;
                    }
                    let ghost prefix = text@;
                    let mut joined = text;
                    let shown = machine.heap.display(&value, host);
                    joined.append(shown.as_str());
                    let ghost answer = HostAnswer::Text(joined);
                    proof {
                        assert(joined@.take(prefix.len() as int) =~= prefix);
                        self.lemma_answer_consumed(init, budget as nat, given, before, fuel as nat, answer);
                        given = given.push(answer);
                    }
                    machine.push_value(Variant::String(joined));
                    proof {
                        self.lemma_text_answer(before, fuel as nat, joined, machine@);
                        self.lemma_answered_step(init, budget as nat, prev, before, fuel as nat, answer, machine@);
                    }
                },
            }
            fuel = fuel - 1;
        }
    }
}

} // verus!
