use vstd::prelude::*;
use crate::variant::Variant;
use crate::builder::ProgramBuilder;

verus! {

/// One operation of the machine.
#[derive(Clone, Debug, PartialEq)]
pub enum Instruction {
    // Variables
    SetLocal(usize),
    GetLocal(usize),
    // Arrays
    CreateArray(usize),
    GetArrayItem,
    SetArrayItem,
    GetArrayLength,
    // Dictionaries
    CreateDictionary(usize),
    GetDictionaryItem,
    SetDictionaryItem,
    GetDictionaryKeys,
    // Functions
    FunctionCall(CallTarget),
    Return,
    // Stack operations
    Push(Variant),
    Pop,
    // Arithmetic
    Add,
    Sub,
    Mul,
    Div,
    Mod,
    Pow,
    // Comparison
    Equal,
    LessThan,
    LessEqual,
    GreaterThan,
    GreaterEqual,
    NotEqual,
    // Logical
    Or,
    And,
    // Unary
    Not,
    Negate,
    // Jumps
    Jump(usize),
    JumpIfFalse(usize),
    // Output
    Print,
    // End of program
    Halt,
    Panic,
}

impl Instruction {
    /// A copy of the instruction.
    pub fn duplicate(&self) -> (r: Instruction)
        ensures
            r == *self,
    {
        match self {
            Instruction::SetLocal(i) => Instruction::SetLocal(*i),
            Instruction::GetLocal(i) => Instruction::GetLocal(*i),
            Instruction::CreateArray(n) => Instruction::CreateArray(*n),
            Instruction::GetArrayItem => Instruction::GetArrayItem,
            Instruction::SetArrayItem => Instruction::SetArrayItem,
            Instruction::GetArrayLength => Instruction::GetArrayLength,
            Instruction::CreateDictionary(n) => Instruction::CreateDictionary(*n),
            Instruction::GetDictionaryItem => Instruction::GetDictionaryItem,
            Instruction::SetDictionaryItem => Instruction::SetDictionaryItem,
            Instruction::GetDictionaryKeys => Instruction::GetDictionaryKeys,
            Instruction::FunctionCall(CallTarget::Name(n)) => Instruction::FunctionCall(
                CallTarget::Name(n.clone()),
            ),
            Instruction::FunctionCall(CallTarget::Index(i)) => Instruction::FunctionCall(
                CallTarget::Index(*i),
            ),
            Instruction::Return => Instruction::Return,
            Instruction::Push(v) => Instruction::Push(v.duplicate()),
            Instruction::Pop => Instruction::Pop,
            Instruction::Add => Instruction::Add,
            Instruction::Sub => Instruction::Sub,
            Instruction::Mul => Instruction::Mul,
            Instruction::Div => Instruction::Div,
            Instruction::Mod => Instruction::Mod,
            Instruction::Pow => Instruction::Pow,
            Instruction::Equal => Instruction::Equal,
            Instruction::LessThan => Instruction::LessThan,
            Instruction::LessEqual => Instruction::LessEqual,
            Instruction::GreaterThan => Instruction::GreaterThan,
            Instruction::GreaterEqual => Instruction::GreaterEqual,
            Instruction::NotEqual => Instruction::NotEqual,
            Instruction::Or => Instruction::Or,
            Instruction::And => Instruction::And,
            Instruction::Not => Instruction::Not,
            Instruction::Negate => Instruction::Negate,
            Instruction::Jump(a) => Instruction::Jump(*a),
            Instruction::JumpIfFalse(a) => Instruction::JumpIfFalse(*a),
            Instruction::Print => Instruction::Print,
            Instruction::Halt => Instruction::Halt,
            Instruction::Panic => Instruction::Panic,
        }
    }
}

/// The function that a call names: by symbol before linking, by index after.
#[derive(Clone, Debug, PartialEq)]
pub enum CallTarget {
    Name(String),
    Index(usize),
}

/// What a name of the symbol table stands for.
#[derive(Clone, Copy, Debug, PartialEq, Eq)]
pub enum SymbolEntry {
    NativeFunction { arity: usize },
    UserDefinedFunction { index: usize },
}

#[derive(Clone, Default, Debug, PartialEq)]
pub struct Function {
    /// Name of the function
    pub name: String,
    /// Number of arguments
    pub arity: usize,
    /// Number of local slots, arguments included
    pub local_count: usize,
    /// List of instructions
    pub instructions: Vec<Instruction>,
}

/// A set of functions and the symbol table that names them. The symbol table
/// holds each name at most once.
#[derive(Clone, Default, Debug, PartialEq)]
pub struct Program {
    pub symbol_table: Vec<(String, SymbolEntry)>,
    pub functions: Vec<Function>,
}

/// The names of a name table, as character sequences.
pub open spec fn table_names<V>(table: Seq<(String, V)>) -> Seq<Seq<char>> {
    table.map_values(|e: (String, V)| e.0@)
}

/// No name occurs twice in the table.
pub open spec fn names_unique<V>(table: Seq<(String, V)>) -> bool {
    forall|i: int, j: int|
        0 <= i < j < table.len() ==> #[trigger] table[i].0@ != #[trigger] table[j].0@
}

/// The position of `name` in the table.
pub open spec fn name_position<V>(table: Seq<(String, V)>, name: Seq<char>) -> Option<int>
    decreases table.len(),
{
    if table.len() == 0 {
        None
    } else if table.last().0@ == name {
        Some(table.len() - 1)
    } else {
        name_position(table.drop_last(), name)
    }
}

/// What `name` stands for in the table.
pub open spec fn lookup_name<V>(table: Seq<(String, V)>, name: Seq<char>) -> Option<V> {
    match name_position(table, name) {
        Some(i) => Some(table[i].1),
        None => None,
    }
}

/// The table after `name` is bound to `entry`: an existing binding is replaced
/// in place, or a new one is added at the end.
pub open spec fn bind_name<V>(table: Seq<(String, V)>, name: String, entry: V) -> Seq<(String, V)> {
    match name_position(table, name@) {
        Some(i) => table.update(i, (table[i].0, entry)),
        None => table.push((name, entry)),
    }
}

pub proof fn lemma_name_position<V>(table: Seq<(String, V)>, name: Seq<char>)
    ensures
        match name_position(table, name) {
            Some(i) => 0 <= i < table.len() && table[i].0@ == name && forall|k: int|
                i < k < table.len() ==> #[trigger] table[k].0@ != name,
            None => forall|k: int| 0 <= k < table.len() ==> #[trigger] table[k].0@ != name,
        },
    decreases table.len(),
{
    if table.len() > 0 {
        lemma_name_position(table.drop_last(), name);
        if table.last().0@ != name {
            assert forall|k: int| 0 <= k < table.len() - 1 implies #[trigger] table[k].0@
                == table.drop_last()[k].0@ by {}
        }
    }
}

/// In a table without repeated names, the position of a name is the one index
/// that holds it.
pub proof fn lemma_name_position_unique<V>(table: Seq<(String, V)>, i: int)
    requires
        names_unique(table),
        0 <= i < table.len(),
    ensures
        name_position(table, table[i].0@) == Some(i),
{
    lemma_name_position(table, table[i].0@);
}

pub proof fn lemma_bind_name<V>(table: Seq<(String, V)>, name: String, entry: V)
    requires
        names_unique(table),
    ensures
        names_unique(bind_name(table, name, entry)),
        lookup_name(bind_name(table, name, entry), name@) == Some(entry),
        forall|n: Seq<char>| n != name@ ==> lookup_name(bind_name(table, name, entry), n) == lookup_name(table, n),
{
    let t2 = bind_name(table, name, entry);
    lemma_name_position(table, name@);
    assert(table_names(t2) =~= match name_position(table, name@) {
        Some(i) => table_names(table),
        None => table_names(table).push(name@),
    });
    assert forall|i: int, j: int| 0 <= i < j < t2.len() implies #[trigger] t2[i].0@ != #[trigger] t2[j].0@ by {
        assert(table_names(t2)[i] == t2[i].0@);
        assert(table_names(t2)[j] == t2[j].0@);
        if j < table.len() {
            assert(table_names(table)[i] == table[i].0@);
            assert(table_names(table)[j] == table[j].0@);
        }
    }
    lemma_name_position(t2, name@);
    assert forall|n: Seq<char>| n != name@ implies lookup_name(t2, n) == lookup_name(table, n) by {
        lemma_name_position(t2, n);
        lemma_name_position(table, n);
        match name_position(table, n) {
            Some(i) => {
                assert(t2[i].0@ == n);
                lemma_name_position_unique(t2, i);
            },
            None => {
                match name_position(t2, n) {
                    Some(k) => {
                        if k < table.len() {
                            assert(t2[k].0@ == table[k].0@);
                        }
                    },
                    None => {},
                }
            },
        }
    }
    match name_position(table, name@) {
        Some(i) => {
            assert(t2[i].0@ == name@);
            lemma_name_position_unique(t2, i);
        },
        None => {
            lemma_name_position_unique(t2, table.len() as int);
        },
    }
}

/// Binding a name leaves it bound to the new entry and every other name as it
/// was, whether or not the table repeats names.
pub proof fn lemma_bind_lookup<V>(table: Seq<(String, V)>, name: String, entry: V)
    ensures
        lookup_name(bind_name(table, name, entry), name@) == Some(entry),
        forall|n: Seq<char>|
            n != name@ ==> lookup_name(bind_name(table, name, entry), n) == lookup_name(table, n),
{
    lemma_name_position(table, name@);
    let t2 = bind_name(table, name, entry);
    lemma_name_position(t2, name@);
    match name_position(table, name@) {
        Some(i) => {
            assert(t2[i].0@ == name@);
        },
        None => {
            assert(t2.last().0@ == name@);
        },
    }
    assert forall|n: Seq<char>| n != name@ implies lookup_name(t2, n) == lookup_name(table, n) by {
        lemma_name_position(t2, n);
        lemma_name_position(table, n);
        match name_position(table, n) {
            Some(i) => {
                assert(t2[i].0@ == n);
                match name_position(t2, n) {
                    Some(k) => {
                        if k < table.len() {
                            assert(t2[k].0@ == table[k].0@);
                        }
                    },
                    None => {},
                }
            },
            None => {
                match name_position(t2, n) {
                    Some(k) => {
                        if k < table.len() {
                            assert(t2[k].0@ == table[k].0@);
                        }
                    },
                    None => {},
                }
            },
        }
    }
}

/// Extending a prefix of a table by its next entry binds that entry's name
/// to its value and leaves every other name as it was.
pub proof fn lemma_lookup_take_next<V>(table: Seq<(String, V)>, k: int, n: Seq<char>)
    requires
        0 <= k < table.len(),
    ensures
        lookup_name(table.take(k + 1), n) == if table[k].0@ == n {
            Some(table[k].1)
        } else {
            lookup_name(table.take(k), n)
        },
{
    let t1 = table.take(k + 1);
    assert(t1.drop_last() =~= table.take(k));
    assert(t1.last() == table[k]);
    lemma_name_position(table.take(k), n);
    lemma_name_position(t1, n);
    match name_position(table.take(k), n) {
        Some(i) => {
            assert(t1[i] == table.take(k)[i]);
        },
        None => {},
    }
}

/// The position of `name` in `table`.
pub fn find_name<V>(table: &Vec<(String, V)>, name: &String) -> (r: Option<usize>)
    ensures
        match r {
            Some(i) => name_position(table@, name@) == Some(i as int),
            None => name_position(table@, name@) is None,
        },
{
    let mut i: usize = table.len();
    assert(table@.take(i as int) =~= table@);
    while i > 0
        invariant
            i <= table.len(),
            name_position(table@, name@) == name_position(table@.take(i as int), name@),
        decreases i,
    {
        proof {
            lemma_name_position(table@.take(i as int), name@);
            assert(table@.take(i as int).drop_last() =~= table@.take(i - 1));
        }
        if table[i - 1].0.eq(name) {
            return Some(i - 1);
        }
        i = i - 1;
    }
    None
}

/// What `name` stands for in `table`.
pub fn lookup<V: Copy>(table: &Vec<(String, V)>, name: &String) -> (r: Option<V>)
    ensures
        r == lookup_name(table@, name@),
{
    match find_name(table, name) {
        Some(i) => {
            proof {
                lemma_name_position(table@, name@);
            }
            Some(table[i].1)
        },
        None => None,
    }
}

/// Binds `name` to `entry` in `table`.
pub fn bind<V>(table: &mut Vec<(String, V)>, name: String, entry: V)
    ensures
        final(table)@ == bind_name(old(table)@, name, entry),
{
    proof {
        lemma_name_position(table@, name@);
    }
    match find_name(table, &name) {
        Some(i) => {
            let key = table[i].0.clone();
            table.set(i, (key, entry));
        },
        None => {
            table.push((name, entry));
        },
    }
}

impl Program {
    /// A builder for a new program.
    pub fn builder() -> (r: ProgramBuilder)
        ensures
            r.program.functions@.len() == 0,
            r.program.symbol_table@.len() == 0,
    {
        ProgramBuilder::new()
    }
}

} // verus!
