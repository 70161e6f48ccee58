//! Runtime values, the opcode set, and compiled bytecode modules.

use vstd::prelude::*;

verus! {

/// Opcodes for the stack virtual machine.
///
/// The set is closed: no opcode branches, so execution is linear except
/// for `Halt`.
#[derive(Debug, Clone, Copy, PartialEq, Eq, Structural)]
pub enum Opcode {
    /// No operation.
    Nop,
    /// Halt execution.
    Halt,
    /// Push a constant from the pool onto the stack (followed by a
    /// big-endian u16 index).
    PushConst,
    /// Pop a value and print it without a newline.
    Print,
    /// Pop a value and print it with a newline.
    PrintLn,
    /// Pop the top of the stack and discard it.
    Pop,
}

/// The byte that encodes each opcode on the wire.
pub open spec fn spec_opcode_byte(op: Opcode) -> u8 {
    match op {
        Opcode::Nop => 0x00,
        Opcode::Halt => 0x01,
        Opcode::PushConst => 0x02,
        Opcode::Print => 0x03,
        Opcode::PrintLn => 0x04,
        Opcode::Pop => 0x05,
    }
}

/// The opcode encoded by a byte, if the byte is a recognised opcode.
pub open spec fn spec_opcode_from_byte(byte: u8) -> Option<Opcode> {
    if byte == 0x00 {
        Some(Opcode::Nop)
    } else if byte == 0x01 {
        Some(Opcode::Halt)
    } else if byte == 0x02 {
        Some(Opcode::PushConst)
    } else if byte == 0x03 {
        Some(Opcode::Print)
    } else if byte == 0x04 {
        Some(Opcode::PrintLn)
    } else if byte == 0x05 {
        Some(Opcode::Pop)
    } else {
        None
    }
}

impl Opcode {
    /// The wire encoding of this opcode.
    pub fn to_byte(self) -> (b: u8)
        ensures
            b == spec_opcode_byte(self),
    {
        match self {
            Opcode::Nop => 0x00,
            Opcode::Halt => 0x01,
            Opcode::PushConst => 0x02,
            Opcode::Print => 0x03,
            Opcode::PrintLn => 0x04,
            Opcode::Pop => 0x05,
        }
    }

    /// Decode a byte into an opcode; `None` on an unrecognised byte.
    pub fn from_u8(byte: u8) -> (r: Option<Opcode>)
        ensures
            r == spec_opcode_from_byte(byte),
    {
        match byte {
            0x00 => Some(Opcode::Nop),
            0x01 => Some(Opcode::Halt),
            0x02 => Some(Opcode::PushConst),
            0x03 => Some(Opcode::Print),
            0x04 => Some(Opcode::PrintLn),
            0x05 => Some(Opcode::Pop),
            _ => None,
        }
    }
}

/// Runtime values held on the operand stack and in the constant pool.
///
/// Values are immutable once constructed and cloned when pushed or
/// read; equality is structural.
#[derive(Debug, PartialEq)]
pub enum Value {
    Null,
    String(String),
    Integer(i64),
    Boolean(bool),
}

/// The mathematical model of a [`Value`]: the string variant is
/// abstracted to its character sequence.
#[verifier::ext_equal]
pub ghost enum ValueView {
    Null,
    Str(Seq<char>),
    Int(i64),
    Bool(bool),
}

impl View for Value {
    type V = ValueView;

    open spec fn view(&self) -> ValueView {
        match self {
            Value::Null => ValueView::Null,
            Value::String(s) => ValueView::Str(s@),
            Value::Integer(n) => ValueView::Int(*n),
            Value::Boolean(b) => ValueView::Bool(*b),
        }
    }
}

impl Clone for Value {
    /// A clone denotes the same value.
    fn clone(&self) -> (res: Self)
        ensures
            res@ == self@,
    {
        match self {
            Value::Null => Value::Null,
            Value::String(s) => Value::String(s.clone()),
            Value::Integer(n) => Value::Integer(*n),
            Value::Boolean(b) => Value::Boolean(*b),
        }
    }
}

/// Structural equality on values, reflected into the model.
pub fn value_eq(a: &Value, b: &Value) -> (r: bool)
    ensures
        r == (a@ == b@),
{
    match (a, b) {
        (Value::Null, Value::Null) => true,
        (Value::String(x), Value::String(y)) => x.eq(y),
        (Value::Integer(x), Value::Integer(y)) => *x == *y,
        (Value::Boolean(x), Value::Boolean(y)) => *x == *y,
        _ => false,
    }
}

/// The mathematical model of a [`BytecodeModule`].
#[verifier::ext_equal]
pub ghost struct ModuleView {
    pub constants: Seq<ValueView>,
    pub instructions: Seq<u8>,
}

/// A compiled bytecode module: a constant pool and a raw instruction
/// stream.
#[derive(Debug, Clone, PartialEq)]
pub struct BytecodeModule {
    /// Constant pool containing literal values, free of duplicates when
    /// produced by the compiler.
    pub constants: Vec<Value>,
    /// Raw bytecode instructions.
    pub instructions: Vec<u8>,
}

impl View for BytecodeModule {
    type V = ModuleView;

    open spec fn view(&self) -> ModuleView {
        ModuleView {
            constants: self.constants@.map_values(|v: Value| v@),
            instructions: self.instructions@,
        }
    }
}

/// The index at which `v` first occurs in `pool`, or `pool.len()` when
/// it does not occur.
pub open spec fn pool_index(pool: Seq<ValueView>, v: ValueView) -> int
    decreases pool.len(),
{
    if pool.len() == 0 {
        0
    } else if pool[0] == v {
        0
    } else {
        1 + pool_index(pool.drop_first(), v)
    }
}

/// `pool_index` names the first occurrence of `v`, and names
/// `pool.len()` exactly when `v` is absent.
pub proof fn lemma_pool_index_props(pool: Seq<ValueView>, v: ValueView)
    ensures
        0 <= pool_index(pool, v) <= pool.len(),
        pool.contains(v) ==> pool_index(pool, v) < pool.len() && pool[pool_index(pool, v)] == v,
        !pool.contains(v) ==> pool_index(pool, v) == pool.len(),
        forall|j: int| 0 <= j < pool_index(pool, v) ==> pool[j] != v,
    decreases pool.len(),
{
    if pool.len() > 0 && pool[0] != v {
        let rest = pool.drop_first();
        lemma_pool_index_props(rest, v);
        assert(pool.contains(v) ==> rest.contains(v)) by {
            if pool.contains(v) {
                let i = choose|i: int| 0 <= i < pool.len() && pool[i] == v;
                assert(rest[i - 1] == v);
            }
        }
        assert(rest.contains(v) ==> pool.contains(v)) by {
            if rest.contains(v) {
                let i = choose|i: int| 0 <= i < rest.len() && rest[i] == v;
                assert(pool[i + 1] == v);
            }
        }
        assert forall|j: int| 0 <= j < pool_index(pool, v) implies pool[j] != v by {
            if j > 0 {
                assert(rest[j - 1] != v);
            }
        }
    }
}

impl BytecodeModule {
    /// An empty module: no constants, no instructions.
    pub fn new() -> (r: Self)
        ensures
            r@.constants == Seq::<ValueView>::empty(),
            r@.instructions == Seq::<u8>::empty(),
    {
        let r = BytecodeModule { constants: Vec::new(), instructions: Vec::new() };
        proof {
            assert(r@.constants =~= Seq::<ValueView>::empty());
            assert(r@.instructions =~= Seq::<u8>::empty());
        }
        r
    }

    /// Add a constant to the pool and return its index.
    ///
    /// An existing structurally equal entry is reused, so the pool
    /// stays free of duplicates and indices stay densely packed.
    pub fn add_constant(&mut self, value: Value) -> (idx: u16)
        requires
            old(self)@.constants.len() <= 0x10000,
            old(self)@.constants.contains(value@) || old(self)@.constants.len() < 0x10000,
        ensures
            idx as int == pool_index(old(self)@.constants, value@),
            final(self)@.instructions == old(self)@.instructions,
            final(self)@.constants == if old(self)@.constants.contains(value@) {
                old(self)@.constants
            } else {
                old(self)@.constants.push(value@)
            },
            idx < final(self)@.constants.len(),
            final(self)@.constants[idx as int] == value@,
    {
        proof {
            lemma_pool_index_props(old(self)@.constants, value@);
        }
        let ghost pool = self@.constants;
        let n = self.constants.len();
        let mut i: usize = 0;
        while i < n
            invariant
                n == pool.len(),
                i <= n,
                pool.len() <= 0x10000,
                pool == self@.constants,
                *self == *old(self),
                forall|j: int| 0 <= j < i ==> pool[j] != value@,
            decreases n - i,
        {
            if value_eq(&self.constants[i], &value) {
                proof {
                    assert(pool[i as int] == self.constants@[i as int]@);
                    assert(pool.contains(value@));
                    lemma_pool_index_unique(pool, value@, i as int);
                }
                return i as u16;
            }
            i += 1;
        }
        proof {
            assert(!pool.contains(value@)) by {
                if pool.contains(value@) {
                    let k = choose|k: int| 0 <= k < pool.len() && pool[k] == value@;
                    assert(pool[k] != value@);
                }
            }
        }
        let index = self.constants.len() as u16;
        self.constants.push(value);
        proof {
            assert(final(self)@.constants =~= pool.push(value@));
        }
        index
    }

    /// Emit a single-byte opcode.
    pub fn emit(&mut self, opcode: Opcode)
        ensures
            final(self)@.constants == old(self)@.constants,
            final(self)@.instructions == old(self)@.instructions.push(spec_opcode_byte(opcode)),
    {
        let b = opcode.to_byte();
        self.instructions.push(b);
    }

    /// Emit an opcode followed by a big-endian u16 operand.
    pub fn emit_with_operand(&mut self, opcode: Opcode, operand: u16)
        ensures
            final(self)@.constants == old(self)@.constants,
            final(self)@.instructions == old(self)@.instructions.push(
                spec_opcode_byte(opcode),
            ).push((operand / 256) as u8).push((operand % 256) as u8),
    {
        let b = opcode.to_byte();
        self.instructions.push(b);
        let hi = (operand >> 8) as u8;
        let lo = (operand & 0xFF) as u8;
        proof {
            assert(operand >> 8 == operand / 256) by (bit_vector);
            assert(operand & 0xFF == operand % 256) by (bit_vector);
        }
        self.instructions.push(hi);
        self.instructions.push(lo);
    }
}

/// `pool_index` is pinned by any witness of a first occurrence.
pub proof fn lemma_pool_index_unique(pool: Seq<ValueView>, v: ValueView, i: int)
    requires
        0 <= i < pool.len(),
        pool[i] == v,
        forall|j: int| 0 <= j < i ==> pool[j] != v,
    ensures
        pool_index(pool, v) == i,
    decreases pool.len(),
{
    if i > 0 {
        let rest = pool.drop_first();
        assert forall|j: int| 0 <= j < i - 1 implies rest[j] != v by {
            assert(pool[j + 1] != v);
        }
        lemma_pool_index_unique(rest, v, i - 1);
    }
}

} // verus!
