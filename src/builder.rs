use vstd::prelude::*;
use crate::error::VmError;
use crate::program::{
    CallTarget, Function, Instruction, Program, SymbolEntry, bind, bind_name, find_name,
    lemma_bind_name, lemma_name_position, lookup, lookup_name, names_unique,
};
use crate::variant::Variant;

verus! {

/// Assembles a program from functions, then links calls by name to calls by index.
#[derive(Clone, Debug, Default)]
pub struct ProgramBuilder {
    pub program: Program,
}

/// A call by name becomes a call by index when the name is that of a
/// user-defined function; every other instruction stays as it is.
pub open spec fn link_instruction(table: Seq<(String, SymbolEntry)>, ins: Instruction) -> Instruction {
    match ins {
        Instruction::FunctionCall(CallTarget::Name(n)) => match lookup_name(table, n@) {
            Some(SymbolEntry::UserDefinedFunction { index }) => Instruction::FunctionCall(
                CallTarget::Index(index),
            ),
            _ => ins,
        },
        _ => ins,
    }
}

pub open spec fn linked_code(table: Seq<(String, SymbolEntry)>, code: Seq<Instruction>) -> Seq<Instruction> {
    code.map_values(|i: Instruction| link_instruction(table, i))
}

/// `f` is `g` with its calls linked against `table`.
pub open spec fn linked_function(table: Seq<(String, SymbolEntry)>, g: Function, f: Function) -> bool {
    &&& f.name@ == g.name@
    &&& f.arity == g.arity
    &&& f.local_count == g.local_count
    &&& f.instructions@ == linked_code(table, g.instructions@)
}

impl ProgramBuilder {
    pub fn new() -> (r: ProgramBuilder)
        ensures
            r.program.functions@.len() == 0,
            r.program.symbol_table@.len() == 0,
    {
        ProgramBuilder { program: Program { symbol_table: Vec::new(), functions: Vec::new() } }
    }

    /// Adds `function`. A function of the same name is replaced in place and
    /// keeps its index; otherwise the function is appended and its name is bound
    /// to its new index, also where it named a native function before.
    pub fn add_function(&mut self, function: Function)
        ensures
            match lookup_name(old(self).program.symbol_table@, function.name@) {
                Some(SymbolEntry::UserDefinedFunction { index }) if index < old(self).program.functions.len() => {
                    &&& final(self).program.functions@ == old(self).program.functions@.update(index as int, function)
                    &&& final(self).program.symbol_table == old(self).program.symbol_table
                },
                _ => {
                    &&& final(self).program.functions@ == old(self).program.functions@.push(function)
                    &&& final(self).program.symbol_table@ == bind_name(
                        old(self).program.symbol_table@,
                        function.name,
                        SymbolEntry::UserDefinedFunction { index: old(self).program.functions.len() },
                    )
                },
            },
    {
        match lookup(&self.program.symbol_table, &function.name) {
            Some(SymbolEntry::UserDefinedFunction { index }) => {
                if index < self.program.functions.len() {
                    self.program.functions.set(index, function);
                    return ;
                }
            },
            _ => {},
        }
        let index = self.program.functions.len();
        let name = function.name.clone();
        self.program.functions.push(function);
        bind(&mut self.program.symbol_table, name, SymbolEntry::UserDefinedFunction { index });
    }

    /// Binds `name` to `entry`, unless `name` is that of a user-defined function,
    /// which it may not shadow.
    pub fn add_symbol(&mut self, name: String, entry: SymbolEntry)
        ensures
            final(self).program.functions == old(self).program.functions,
            final(self).program.symbol_table@ == (match lookup_name(old(self).program.symbol_table@, name@) {
                Some(SymbolEntry::UserDefinedFunction { .. }) => old(self).program.symbol_table@,
                _ => bind_name(old(self).program.symbol_table@, name, entry),
            }),
    {
        match lookup(&self.program.symbol_table, &name) {
            Some(SymbolEntry::UserDefinedFunction { .. }) => {},
            _ => {
                bind(&mut self.program.symbol_table, name, entry);
            },
        }
    }

    /// The program, with every call by the name of a user-defined function
    /// rewritten into a call by its index.
    pub fn build(self) -> (r: Program)
        ensures
            r.symbol_table == self.program.symbol_table,
            r.functions.len() == self.program.functions.len(),
            forall|k: int|
                0 <= k < r.functions.len() ==> linked_function(
                    self.program.symbol_table@,
                    self.program.functions@[k],
                    #[trigger] r.functions@[k],
                ),
    {
        let table = &self.program.symbol_table;
        let mut functions: Vec<Function> = Vec::new();
        let mut k: usize = 0;
        while k < self.program.functions.len()
            invariant
                k <= self.program.functions.len(),
                functions.len() == k,
                table@ == self.program.symbol_table@,
                forall|j: int|
                    0 <= j < k ==> linked_function(
                        self.program.symbol_table@,
                        self.program.functions@[j],
                        #[trigger] functions@[j],
                    ),
            decreases self.program.functions.len() - k,
        {
            let f = &self.program.functions[k];
            let mut code: Vec<Instruction> = Vec::new();
            let mut i: usize = 0;
            while i < f.instructions.len()
                invariant
                    i <= f.instructions.len(),
                    code@ == linked_code(table@, f.instructions@.take(i as int)),
                    k < self.program.functions.len(),
                    *f == self.program.functions@[k as int],
                    table@ == self.program.symbol_table@,
                    functions.len() == k,
                    forall|j: int|
                        0 <= j < k ==> linked_function(
                            self.program.symbol_table@,
                            self.program.functions@[j],
                            #[trigger] functions@[j],
                        ),
                decreases f.instructions.len() - i,
            {
                let linked = match &f.instructions[i] {
                    Instruction::FunctionCall(CallTarget::Name(n)) => match lookup(table, n) {
                        Some(SymbolEntry::UserDefinedFunction { index }) => Instruction::FunctionCall(
                            CallTarget::Index(index),
                        ),
                        _ => f.instructions[i].duplicate(),
                    },
                    other => other.duplicate(),
                };
                code.push(linked);
                proof {
                    assert(f.instructions@.take(i + 1) =~= f.instructions@.take(i as int).push(
                        f.instructions@[i as int],
                    ));
                    assert(code@ =~= linked_code(table@, f.instructions@.take(i + 1)));
                }
                i = i + 1;
            }
            proof {
                assert(f.instructions@.take(i as int) =~= f.instructions@);
            }
            functions.push(
                Function {
                    name: f.name.clone(),
                    arity: f.arity,
                    local_count: f.local_count,
                    instructions: code,
                },
            );
            k = k + 1;
        }
        Program { symbol_table: self.program.symbol_table, functions }
    }
}

/// Gathers a function's name, arity and body.
#[derive(Clone, Default, Debug, PartialEq)]
pub struct FunctionBuilder {
    pub name: String,
    pub arity: usize,
    pub local_count: usize,
    pub body: Vec<Instruction>,
    /// The error that encoding the body met, if it met one.
    pub error: Option<VmError>,
}

impl FunctionBuilder {
    /// Sets the name of the function.
    pub fn name(&mut self, name: &str) -> (r: &mut Self)
        ensures
            r.name@ == name@,
            r.arity == old(self).arity,
            r.local_count == old(self).local_count,
            r.body == old(self).body,
            r.error == old(self).error,
            *final(self) == *final(r),
    {
        self.name = name.to_owned();
        self
    }

    /// Sets the number of arguments of the function.
    pub fn arity(&mut self, arity: usize) -> (r: &mut Self)
        ensures
            r.arity == arity,
            r.name == old(self).name,
            r.local_count == old(self).local_count,
            r.body == old(self).body,
            r.error == old(self).error,
            *final(self) == *final(r),
    {
        self.arity = arity;
        self
    }

    /// Encodes `body` into the function's instructions; its local count is the
    /// number of locals the body declared.
    pub fn body(&mut self, body: &mut BlockEncoder) -> (r: &mut Self)
        ensures
            *final(body) == *old(body),
            r.name == old(self).name,
            r.arity == old(self).arity,
            r.local_count == old(body).next_local_slot,
            match old(body).encoded() {
                Ok(code) => r.body@ == code && r.error is None,
                Err(e) => r.error == Some(e) && r.body == old(self).body,
            },
            *final(self) == *final(r),
    {
        match body.encode() {
            Ok(code) => {
                self.body = code;
                self.error = None;
            },
            Err(e) => {
                self.error = Some(e);
            },
        }
        self.local_count = body.next_local_slot;
        self
    }

    /// The function, or the error that encoding its body met.
    pub fn build(&mut self) -> (r: Result<Function, VmError>)
        ensures
            *final(self) == *old(self),
            match old(self).error {
                Some(e) => r == Err::<Function, VmError>(e),
                None => r matches Ok(f) && f.name@ == old(self).name@ && f.arity == old(self).arity
                    && f.local_count == old(self).local_count && f.instructions@ == old(self).body@,
            },
    {
        match &self.error {
            Some(e) => Err(e.duplicate()),
            None => {
                let mut code: Vec<Instruction> = Vec::new();
                let mut i: usize = 0;
                while i < self.body.len()
                    invariant
                        i <= self.body.len(),
                        code@ == self.body@.take(i as int),
                    decreases self.body.len() - i,
                {
                    code.push(self.body[i].duplicate());
                    proof {
                        assert(code@ =~= self.body@.take(i + 1));
                    }
                    i = i + 1;
                }
                proof {
                    assert(self.body@.take(i as int) =~= self.body@);
                }
                Ok(
                    Function {
                        name: self.name.clone(),
                        arity: self.arity,
                        local_count: self.local_count,
                        instructions: code,
                    },
                )
            },
        }
    }
}

/// Assembles the instructions of one function from named locals, symbolic
/// labels and calls by name.
///
/// `locals` binds each declared name to its slot, in declaration order;
/// `labels` binds each label to the index of the instruction that follows it;
/// `pending_jumps` holds, for each jump emitted before its label was placed,
/// the jump's index and the label. The first undeclared local met is kept in
/// `error`.
#[derive(Clone, Default, Debug, PartialEq)]
pub struct BlockEncoder {
    pub instructions: Vec<Instruction>,
    pub locals: Vec<(String, usize)>,
    pub next_local_slot: usize,
    pub labels: Vec<(String, usize)>,
    pub pending_jumps: Vec<(usize, String)>,
    pub error: Option<VmError>,
}

pub open spec fn is_jump(ins: Instruction) -> bool {
    ins is Jump || ins is JumpIfFalse
}

/// The code followed by `Halt`, unless it already ends in `Return` or `Halt`.
pub open spec fn terminated(code: Seq<Instruction>) -> Seq<Instruction> {
    if code.len() > 0 && (code.last() is Return || code.last() is Halt) {
        code
    } else {
        code.push(Instruction::Halt)
    }
}

/// The jump at `at` with its target set to `target`.
pub open spec fn retarget(code: Seq<Instruction>, at: usize, target: usize) -> Seq<Instruction> {
    if at < code.len() {
        match code[at as int] {
            Instruction::Jump(_) => code.update(at as int, Instruction::Jump(target)),
            Instruction::JumpIfFalse(_) => code.update(at as int, Instruction::JumpIfFalse(target)),
            _ => code,
        }
    } else {
        code
    }
}

/// The code with each pending jump aimed at its label, or the first label
/// that was never placed.
pub open spec fn patched(
    code: Seq<Instruction>,
    labels: Seq<(String, usize)>,
    pending: Seq<(usize, String)>,
) -> Result<Seq<Instruction>, VmError>
    decreases pending.len(),
{
    if pending.len() == 0 {
        Ok(code)
    } else {
        match patched(code, labels, pending.drop_last()) {
            Err(e) => Err(e),
            Ok(c) => match lookup_name(labels, pending.last().1@) {
                Some(target) => Ok(retarget(c, pending.last().0, target)),
                None => Err(VmError::UndeclaredLabel(pending.last().1)),
            },
        }
    }
}

impl BlockEncoder {
    pub fn new() -> (r: BlockEncoder)
        ensures
            r.instructions@.len() == 0,
            r.locals@.len() == 0,
            r.next_local_slot == 0,
            r.labels@.len() == 0,
            r.pending_jumps@.len() == 0,
            r.error is None,
            r.wf(),
    {
        BlockEncoder {
            instructions: Vec::new(),
            locals: Vec::new(),
            next_local_slot: 0,
            labels: Vec::new(),
            pending_jumps: Vec::new(),
            error: None,
        }
    }

    /// Slots are handed out in declaration order, names are declared once, and
    /// each pending jump, in order of emission, points at a jump instruction.
    pub open spec fn wf(&self) -> bool {
        &&& names_unique(self.locals@)
        &&& self.next_local_slot == self.locals@.len()
        &&& forall|k: int| 0 <= k < self.locals@.len() ==> #[trigger] self.locals@[k].1 == k
        &&& names_unique(self.labels@)
        &&& forall|k: int|
            0 <= k < self.pending_jumps@.len() ==> {
                let at = #[trigger] self.pending_jumps@[k].0;
                at < self.instructions@.len() && is_jump(self.instructions@[at as int])
            }
        &&& forall|k1: int, k2: int|
            0 <= k1 < k2 < self.pending_jumps@.len() ==> #[trigger] self.pending_jumps@[k1].0
                < #[trigger] self.pending_jumps@[k2].0
    }

    /// `self` is `prev` with `ins` appended, and well formed if `prev` was.
    pub open spec fn appended(&self, prev: BlockEncoder, ins: Instruction) -> bool {
        &&& self.instructions@ == prev.instructions@.push(ins)
        &&& self.locals == prev.locals
        &&& self.next_local_slot == prev.next_local_slot
        &&& self.labels == prev.labels
        &&& self.pending_jumps == prev.pending_jumps
        &&& self.error == prev.error
        &&& prev.wf() ==> self.wf()
    }

    /// What `encode` returns.
    pub open spec fn encoded(&self) -> Result<Seq<Instruction>, VmError> {
        match self.error {
            Some(e) => Err(e),
            None => patched(terminated(self.instructions@), self.labels@, self.pending_jumps@),
        }
    }

    fn push(&mut self, instruction: Instruction) -> (r: &mut Self)
        ensures
            r.appended(*old(self), instruction),
            *final(self) == *final(r),
    {
        self.instructions.push(instruction);
        proof {
            if old(self).wf() {
                assert forall|k: int| 0 <= k < self.pending_jumps@.len() implies {
                    let at = #[trigger] self.pending_jumps@[k].0;
                    at < self.instructions@.len() && is_jump(self.instructions@[at as int])
                } by {
                    let at = self.pending_jumps@[k].0;
                    assert(self.instructions@[at as int] == old(self).instructions@[at as int]);
                }
            }
        }
        self
    }

    /// Declares a local; a name already declared keeps its slot.
    pub fn declare_local(&mut self, name: &str) -> (r: &mut Self)
        ensures
            r.instructions == old(self).instructions,
            r.labels == old(self).labels,
            r.pending_jumps == old(self).pending_jumps,
            r.error == old(self).error,
            match lookup_name(old(self).locals@, name@) {
                Some(_) => r.locals == old(self).locals && r.next_local_slot == old(self).next_local_slot,
                None => r.locals@.len() == old(self).locals@.len() + 1 && r.locals@.last().0@ == name@
                    && r.locals@.drop_last() == old(self).locals@,
            },
            old(self).wf() ==> r.wf() && lookup_name(r.locals@, name@) == Some(
                (match lookup_name(old(self).locals@, name@) {
                    Some(slot) => slot,
                    None => old(self).next_local_slot,
                }),
            ) && forall|n: Seq<char>|
                n != name@ ==> lookup_name(r.locals@, n) == lookup_name(old(self).locals@, n),
            *final(self) == *final(r),
    {
        let owned = name.to_owned();
        proof {
            lemma_name_position(self.locals@, name@);
        }
        match find_name(&self.locals, &owned) {
            Some(_) => {},
            None => {
                let slot = self.locals.len();
                let ghost before = self.locals@;
                self.locals.push((owned, slot));
                self.next_local_slot = self.locals.len();
                proof {
                    assert(self.locals@.drop_last() =~= before);
                    if old(self).wf() {
                        assert(self.locals@ == bind_name(before, owned, slot));
                        lemma_bind_name(before, owned, slot);
                    }
                }
            },
        }
        self
    }

    /// Stores the top of the stack into a declared local.
    pub fn set_local(&mut self, name: &str) -> (r: &mut Self)
        ensures
            match lookup_name(old(self).locals@, name@) {
                Some(slot) => r.appended(*old(self), Instruction::SetLocal(slot)),
                None => r.undeclared(*old(self), name@),
            },
            *final(self) == *final(r),
    {
        let owned = name.to_owned();
        match lookup(&self.locals, &owned) {
            Some(slot) => self.push(Instruction::SetLocal(slot)),
            None => self.fail_undeclared(owned),
        }
    }

    /// Pushes the value of a declared local.
    pub fn get_local(&mut self, name: &str) -> (r: &mut Self)
        ensures
            match lookup_name(old(self).locals@, name@) {
                Some(slot) => r.appended(*old(self), Instruction::GetLocal(slot)),
                None => r.undeclared(*old(self), name@),
            },
            *final(self) == *final(r),
    {
        let owned = name.to_owned();
        match lookup(&self.locals, &owned) {
            Some(slot) => self.push(Instruction::GetLocal(slot)),
            None => self.fail_undeclared(owned),
        }
    }

    /// `self` is `prev` with an undeclared local recorded, unless an error was
    /// recorded before.
    pub open spec fn undeclared(&self, prev: BlockEncoder, name: Seq<char>) -> bool {
        &&& self.instructions == prev.instructions
        &&& self.locals == prev.locals
        &&& self.next_local_slot == prev.next_local_slot
        &&& self.labels == prev.labels
        &&& self.pending_jumps == prev.pending_jumps
        &&& match prev.error {
            Some(e) => self.error == Some(e),
            None => self.error matches Some(VmError::UndeclaredLocal(n)) && n@ == name,
        }
        &&& prev.wf() ==> self.wf()
    }

    fn fail_undeclared(&mut self, name: String) -> (r: &mut Self)
        ensures
            r.undeclared(*old(self), name@),
            *final(self) == *final(r),
    {
        if self.error.is_none() {
            self.error = Some(VmError::UndeclaredLocal(name));
        }
        self
    }

    /// Places a label at the index of the next instruction.
    pub fn add_label(&mut self, label: &str) -> (r: &mut Self)
        ensures
            r.instructions == old(self).instructions,
            r.locals == old(self).locals,
            r.next_local_slot == old(self).next_local_slot,
            r.pending_jumps == old(self).pending_jumps,
            r.error == old(self).error,
            r.labels@.len() >= old(self).labels@.len(),
            old(self).wf() ==> r.wf() && lookup_name(r.labels@, label@) == Some(
                old(self).instructions@.len() as usize,
            ) && forall|n: Seq<char>|
                n != label@ ==> lookup_name(r.labels@, n) == lookup_name(old(self).labels@, n),
            *final(self) == *final(r),
    {
        let owned = label.to_owned();
        let at = self.instructions.len();
        let ghost before = self.labels@;
        bind(&mut self.labels, owned, at);
        proof {
            lemma_name_position(before, label@);
            if old(self).wf() {
                lemma_bind_name(before, owned, at);
            }
        }
        self
    }

    /// Jumps to a label: at once where it is placed, else once it is.
    pub fn jump(&mut self, label: &str) -> (r: &mut Self)
        ensures
            r.jumped(*old(self), label@, false),
            *final(self) == *final(r),
    {
        self.emit_jump(label.to_owned(), false)
    }

    /// Pops a boolean and jumps to a label when it is false.
    pub fn jump_if_false(&mut self, label: &str) -> (r: &mut Self)
        ensures
            r.jumped(*old(self), label@, true),
            *final(self) == *final(r),
    {
        self.emit_jump(label.to_owned(), true)
    }

    /// `self` is `prev` with a jump to `label` appended: aimed at the label where
    /// it is placed, else left pending on it.
    pub open spec fn jumped(&self, prev: BlockEncoder, label: Seq<char>, conditional: bool) -> bool {
        let target = match lookup_name(prev.labels@, label) {
            Some(t) => t,
            None => 0,
        };
        let ins = if conditional {
            Instruction::JumpIfFalse(target)
        } else {
            Instruction::Jump(target)
        };
        &&& self.instructions@ == prev.instructions@.push(ins)
        &&& self.locals == prev.locals
        &&& self.next_local_slot == prev.next_local_slot
        &&& self.labels == prev.labels
        &&& self.error == prev.error
        &&& match lookup_name(prev.labels@, label) {
            Some(_) => self.pending_jumps == prev.pending_jumps,
            None => self.pending_jumps@.len() == prev.pending_jumps@.len() + 1
                && self.pending_jumps@.drop_last() == prev.pending_jumps@
                && self.pending_jumps@.last().0 == prev.instructions@.len()
                && self.pending_jumps@.last().1@ == label,
        }
        &&& prev.wf() ==> self.wf()
    }

    fn emit_jump(&mut self, label: String, conditional: bool) -> (r: &mut Self)
        ensures
            r.jumped(*old(self), label@, conditional),
            *final(self) == *final(r),
    {
        let target = match lookup(&self.labels, &label) {
            Some(t) => t,
            None => {
                let ghost before = self.pending_jumps@;
                self.pending_jumps.push((self.instructions.len(), label));
                proof {
                    assert(self.pending_jumps@.drop_last() =~= before);
                }
                0
            },
        };
        let ins = if conditional {
            Instruction::JumpIfFalse(target)
        } else {
            Instruction::Jump(target)
        };
        let ghost mid = *self;
        self.instructions.push(ins);
        proof {
            if old(self).wf() {
                assert forall|k: int| 0 <= k < self.pending_jumps@.len() implies {
                    let at = #[trigger] self.pending_jumps@[k].0;
                    at < self.instructions@.len() && is_jump(self.instructions@[at as int])
                } by {
                    if k < old(self).pending_jumps@.len() {
                        assert(self.pending_jumps@[k] == old(self).pending_jumps@[k]);
                    }
                }
                assert forall|k1: int, k2: int|
                    0 <= k1 < k2 < self.pending_jumps@.len() implies #[trigger] self.pending_jumps@[k1].0
                        < #[trigger] self.pending_jumps@[k2].0 by {
                    assert(self.pending_jumps@[k1] == old(self).pending_jumps@[k1]);
                    if k2 < old(self).pending_jumps@.len() {
                        assert(self.pending_jumps@[k2] == old(self).pending_jumps@[k2]);
                    }
                }
            }
        }
        self
    }

    /// Pushes a symbol reference onto the stack.
    pub fn push_symbol(&mut self, value: &str) -> (r: &mut Self)
        ensures
            r.instructions@.len() == old(self).instructions@.len() + 1,
            r.instructions@.last() matches Instruction::Push(Variant::SymbolReference(s)) && s@ == value@,
            r.appended(*old(self), r.instructions@.last()),
            *final(self) == *final(r),
    {
        self.push(Instruction::Push(Variant::SymbolReference(value.to_owned())))
    }

    /// Pushes a reference to a function, by its name.
    pub fn push_function_reference(&mut self, name: &str) -> (r: &mut Self)
        ensures
            r.instructions@.len() == old(self).instructions@.len() + 1,
            r.instructions@.last() matches Instruction::Push(Variant::SymbolReference(s)) && s@ == name@,
            r.appended(*old(self), r.instructions@.last()),
            *final(self) == *final(r),
    {
        self.push_symbol(name)
    }

    /// Calls a function by its name.
    pub fn call_function_by_name(&mut self, name: &str) -> (r: &mut Self)
        ensures
            r.instructions@.len() == old(self).instructions@.len() + 1,
            r.instructions@.last() matches Instruction::FunctionCall(CallTarget::Name(s)) && s@ == name@,
            r.appended(*old(self), r.instructions@.last()),
            *final(self) == *final(r),
    {
        self.push(Instruction::FunctionCall(CallTarget::Name(name.to_owned())))
    }

    /// Add tos-1 and tos and push the result.
    pub fn add(&mut self) -> (r: &mut Self)
        ensures
            r.appended(*old(self), Instruction::Add),
            *final(self) == *final(r),
    {
        self.push(Instruction::Add)
    }

    /// Subtract tos from tos-1 and push the result.
    pub fn sub(&mut self) -> (r: &mut Self)
        ensures
            r.appended(*old(self), Instruction::Sub),
            *final(self) == *final(r),
    {
        self.push(Instruction::Sub)
    }

    /// Multiply tos-1 by tos and push the result.
    pub fn mul(&mut self) -> (r: &mut Self)
        ensures
            r.appended(*old(self), Instruction::Mul),
            *final(self) == *final(r),
    {
        self.push(Instruction::Mul)
    }

    /// Divide tos-1 by tos and push the result.
    pub fn div(&mut self) -> (r: &mut Self)
        ensures
            r.appended(*old(self), Instruction::Div),
            *final(self) == *final(r),
    {
        self.push(Instruction::Div)
    }

    /// The remainder of tos-1 divided by tos.
    pub fn modulus(&mut self) -> (r: &mut Self)
        ensures
            r.appended(*old(self), Instruction::Mod),
            *final(self) == *final(r),
    {
        self.push(Instruction::Mod)
    }

    /// Raise tos-1 to the power tos.
    pub fn pow(&mut self) -> (r: &mut Self)
        ensures
            r.appended(*old(self), Instruction::Pow),
            *final(self) == *final(r),
    {
        self.push(Instruction::Pow)
    }

    /// Push whether the top two values are equal.
    pub fn equal(&mut self) -> (r: &mut Self)
        ensures
            r.appended(*old(self), Instruction::Equal),
            *final(self) == *final(r),
    {
        self.push(Instruction::Equal)
    }

    /// Negate the top value.
    pub fn negate(&mut self) -> (r: &mut Self)
        ensures
            r.appended(*old(self), Instruction::Negate),
            *final(self) == *final(r),
    {
        self.push(Instruction::Negate)
    }

    /// Push whether tos-1 is less than tos.
    pub fn less_than(&mut self) -> (r: &mut Self)
        ensures
            r.appended(*old(self), Instruction::LessThan),
            *final(self) == *final(r),
    {
        self.push(Instruction::LessThan)
    }

    /// Push whether tos-1 is at most tos.
    pub fn less_than_or_equal(&mut self) -> (r: &mut Self)
        ensures
            r.appended(*old(self), Instruction::LessEqual),
            *final(self) == *final(r),
    {
        self.push(Instruction::LessEqual)
    }

    /// Push whether tos-1 is greater than tos.
    pub fn greater_than(&mut self) -> (r: &mut Self)
        ensures
            r.appended(*old(self), Instruction::GreaterThan),
            *final(self) == *final(r),
    {
        self.push(Instruction::GreaterThan)
    }

    /// Push whether tos-1 is at least tos.
    pub fn greater_than_or_equal(&mut self) -> (r: &mut Self)
        ensures
            r.appended(*old(self), Instruction::GreaterEqual),
            *final(self) == *final(r),
    {
        self.push(Instruction::GreaterEqual)
    }

    /// Push whether the top two values differ.
    pub fn not_equal(&mut self) -> (r: &mut Self)
        ensures
            r.appended(*old(self), Instruction::NotEqual),
            *final(self) == *final(r),
    {
        self.push(Instruction::NotEqual)
    }

    /// Push whether the top value is falsy.
    pub fn not(&mut self) -> (r: &mut Self)
        ensures
            r.appended(*old(self), Instruction::Not),
            *final(self) == *final(r),
    {
        self.push(Instruction::Not)
    }

    /// Push whether both of the top two values are truthy.
    pub fn and(&mut self) -> (r: &mut Self)
        ensures
            r.appended(*old(self), Instruction::And),
            *final(self) == *final(r),
    {
        self.push(Instruction::And)
    }

    /// Push whether either of the top two values is truthy.
    pub fn or(&mut self) -> (r: &mut Self)
        ensures
            r.appended(*old(self), Instruction::Or),
            *final(self) == *final(r),
    {
        self.push(Instruction::Or)
    }

    /// Push the item of an array at an index.
    pub fn get_array_item(&mut self) -> (r: &mut Self)
        ensures
            r.appended(*old(self), Instruction::GetArrayItem),
            *final(self) == *final(r),
    {
        self.push(Instruction::GetArrayItem)
    }

    /// Replace the item of an array at an index, and push the array.
    pub fn set_array_item(&mut self) -> (r: &mut Self)
        ensures
            r.appended(*old(self), Instruction::SetArrayItem),
            *final(self) == *final(r),
    {
        self.push(Instruction::SetArrayItem)
    }

    /// Push the length of an array as an integer.
    pub fn get_array_length(&mut self) -> (r: &mut Self)
        ensures
            r.appended(*old(self), Instruction::GetArrayLength),
            *final(self) == *final(r),
    {
        self.push(Instruction::GetArrayLength)
    }

    /// Push the value of a key of a dictionary.
    pub fn get_dictionary_item(&mut self) -> (r: &mut Self)
        ensures
            r.appended(*old(self), Instruction::GetDictionaryItem),
            *final(self) == *final(r),
    {
        self.push(Instruction::GetDictionaryItem)
    }

    /// Give a key of a dictionary a value.
    pub fn set_dictionary_item(&mut self) -> (r: &mut Self)
        ensures
            r.appended(*old(self), Instruction::SetDictionaryItem),
            *final(self) == *final(r),
    {
        self.push(Instruction::SetDictionaryItem)
    }

    /// Push an array of the keys of a dictionary.
    pub fn get_dictionary_keys(&mut self) -> (r: &mut Self)
        ensures
            r.appended(*old(self), Instruction::GetDictionaryKeys),
            *final(self) == *final(r),
    {
        self.push(Instruction::GetDictionaryKeys)
    }

    /// Return the top of the stack from the function.
    pub fn return_value(&mut self) -> (r: &mut Self)
        ensures
            r.appended(*old(self), Instruction::Return),
            *final(self) == *final(r),
    {
        self.push(Instruction::Return)
    }

    /// Print the top of the stack.
    pub fn print(&mut self) -> (r: &mut Self)
        ensures
            r.appended(*old(self), Instruction::Print),
            *final(self) == *final(r),
    {
        self.push(Instruction::Print)
    }

    /// Stop the program with no result.
    pub fn halt(&mut self) -> (r: &mut Self)
        ensures
            r.appended(*old(self), Instruction::Halt),
            *final(self) == *final(r),
    {
        self.push(Instruction::Halt)
    }

    /// Fail the program with the top of the stack as the message.
    pub fn panic(&mut self) -> (r: &mut Self)
        ensures
            r.appended(*old(self), Instruction::Panic),
            *final(self) == *final(r),
    {
        self.push(Instruction::Panic)
    }

    /// Discard the top of the stack.
    pub fn pop(&mut self) -> (r: &mut Self)
        ensures
            r.appended(*old(self), Instruction::Pop),
            *final(self) == *final(r),
    {
        self.push(Instruction::Pop)
    }

    /// Push an integer onto the stack.
    pub fn push_integer(&mut self, value: i64) -> (r: &mut Self)
        ensures
            r.appended(*old(self), Instruction::Push(Variant::Integer(value))),
            *final(self) == *final(r),
    {
        self.push(Instruction::Push(Variant::Integer(value)))
    }

    /// Push a string onto the stack.
    pub fn push_string(&mut self, value: String) -> (r: &mut Self)
        ensures
            r.appended(*old(self), Instruction::Push(Variant::String(value))),
            *final(self) == *final(r),
    {
        self.push(Instruction::Push(Variant::String(value)))
    }

    /// Push a boolean onto the stack.
    pub fn push_boolean(&mut self, value: bool) -> (r: &mut Self)
        ensures
            r.appended(*old(self), Instruction::Push(Variant::Boolean(value))),
            *final(self) == *final(r),
    {
        self.push(Instruction::Push(Variant::Boolean(value)))
    }

    /// Push null onto the stack.
    pub fn push_null(&mut self) -> (r: &mut Self)
        ensures
            r.appended(*old(self), Instruction::Push(Variant::Null)),
            *final(self) == *final(r),
    {
        self.push(Instruction::Push(Variant::Null))
    }

    /// Push the float whose IEEE-754 binary64 bit pattern is `bits`.
    pub fn push_float_bits(&mut self, bits: u64) -> (r: &mut Self)
        ensures
            r.appended(*old(self), Instruction::Push(Variant::Float(bits))),
            *final(self) == *final(r),
    {
        self.push(Instruction::Push(Variant::Float(bits)))
    }

    /// Call the function with the given index.
    pub fn call_function_by_index(&mut self, index: usize) -> (r: &mut Self)
        ensures
            r.appended(*old(self), Instruction::FunctionCall(CallTarget::Index(index))),
            *final(self) == *final(r),
    {
        self.push(Instruction::FunctionCall(CallTarget::Index(index)))
    }

    /// Collect the top `size` values into a new array.
    pub fn create_array(&mut self, size: usize) -> (r: &mut Self)
        ensures
            r.appended(*old(self), Instruction::CreateArray(size)),
            *final(self) == *final(r),
    {
        self.push(Instruction::CreateArray(size))
    }

    /// Collect the top `size` key and value pairs into a new dictionary.
    pub fn create_dictionary(&mut self, size: usize) -> (r: &mut Self)
        ensures
            r.appended(*old(self), Instruction::CreateDictionary(size)),
            *final(self) == *final(r),
    {
        self.push(Instruction::CreateDictionary(size))
    }

    /// The instructions: a `Halt` is appended unless the code already ends in
    /// `Return` or `Halt`, and each pending jump is aimed at its label. Fails
    /// with the first undeclared local, or else the first pending label that was
    /// never placed.
    pub fn encode(&self) -> (r: Result<Vec<Instruction>, VmError>)
        ensures
            match r {
                Ok(code) => self.encoded() == Ok::<Seq<Instruction>, VmError>(code@),
                Err(e) => self.encoded() == Err::<Seq<Instruction>, VmError>(e),
            },
    {
        if let Some(e) = &self.error {
            return Err(e.duplicate());
        }
        let mut code: Vec<Instruction> = Vec::new();
        let mut i: usize = 0;
        while i < self.instructions.len()
            invariant
                i <= self.instructions.len(),
                code@ == self.instructions@.take(i as int),
            decreases self.instructions.len() - i,
        {
            code.push(self.instructions[i].duplicate());
            proof {
                assert(code@ =~= self.instructions@.take(i + 1));
            }
            i = i + 1;
        }
        proof {
            assert(self.instructions@.take(i as int) =~= self.instructions@);
        }
        let ends = code.len() > 0 && match &code[code.len() - 1] {
            Instruction::Return | Instruction::Halt => true,
            _ => false,
        };
        if !ends {
            code.push(Instruction::Halt);
        }
        let mut k: usize = 0;
        while k < self.pending_jumps.len()
            invariant
                k <= self.pending_jumps.len(),
                self.error is None,
                patched(terminated(self.instructions@), self.labels@, self.pending_jumps@.take(k as int))
                    == Ok::<Seq<Instruction>, VmError>(code@),
            decreases self.pending_jumps.len() - k,
        {
            let at = self.pending_jumps[k].0;
            proof {
                assert(self.pending_jumps@.take(k + 1).drop_last() =~= self.pending_jumps@.take(k as int));
            }
            match lookup(&self.labels, &self.pending_jumps[k].1) {
                Some(target) => {
                    if at < code.len() {
                        match &code[at] {
                            Instruction::Jump(_) => {
                                code.set(at, Instruction::Jump(target));
                            },
                            Instruction::JumpIfFalse(_) => {
                                code.set(at, Instruction::JumpIfFalse(target));
                            },
                            _ => {},
                        }
                    }
                },
                None => {
                    proof {
                        lemma_patched_fails(
                            terminated(self.instructions@),
                            self.labels@,
                            self.pending_jumps@,
                            k + 1,
                        );
                    }
                    return Err(VmError::UndeclaredLabel(self.pending_jumps[k].1.clone()));
                },
            }
            k = k + 1;
        }
        proof {
            assert(self.pending_jumps@.take(k as int) =~= self.pending_jumps@);
        }
        Ok(code)
    }
}

/// Once patching a prefix of the pending jumps fails, patching all of them
/// fails the same way.
proof fn lemma_patched_fails(
    code: Seq<Instruction>,
    labels: Seq<(String, usize)>,
    pending: Seq<(usize, String)>,
    n: int,
)
    requires
        0 <= n <= pending.len(),
        patched(code, labels, pending.take(n)) is Err,
    ensures
        patched(code, labels, pending) == patched(code, labels, pending.take(n)),
    decreases pending.len() - n,
{
    if n < pending.len() {
        assert(pending.take(n + 1).drop_last() =~= pending.take(n));
        lemma_patched_fails(code, labels, pending, n + 1);
    } else {
        assert(pending.take(n) =~= pending);
    }
}

} // verus!
