use vstd::prelude::*;

use std::rc::Rc;

verus! {

/// A function compiled into a chunk: its code starts at `address` and it takes
/// `arity` arguments.
#[derive(Debug, Clone, PartialEq)]
pub struct Function {
    pub name: String,
    pub address: usize,
    pub arity: usize,
}

/// The constants a compiled chunk refers to. A floating-point constant is carried
/// as the decimal text it was written with.
#[derive(Debug, Clone)]
pub enum Value {
    Integer(i64),
    Float(String),
    String(Rc<String>),
    Boolean(bool),
    Null,
    Function(Rc<Function>),
}

/// The mathematical model of a [`Value`].
pub enum ValueV {
    Integer(i64),
    Float(Seq<char>),
    Str(Seq<char>),
    Boolean(bool),
    Null,
    Function { name: Seq<char>, address: nat, arity: nat },
}

impl View for Value {
    type V = ValueV;

    open spec fn view(&self) -> ValueV {
        match self {
            Value::Integer(v) => ValueV::Integer(*v),
            Value::Float(t) => ValueV::Float(t@),
            Value::String(s) => ValueV::Str(s@),
            Value::Boolean(b) => ValueV::Boolean(*b),
            Value::Null => ValueV::Null,
            Value::Function(f) => ValueV::Function {
                name: f.name@,
                address: f.address as nat,
                arity: f.arity as nat,
            },
        }
    }
}

/// The instructions of the stack machine.
#[derive(Debug, Clone, Copy, PartialEq, Eq)]
pub enum OperationCode {
    Constant(usize),
    Pop,
    Add,
    Subtract,
    Multiply,
    Divide,
    Modulo,
    Negate,
    Not,
    Equal,
    GreaterThan,
    LessThan,
    SetGlobal(usize),
    GetGlobal(usize),
    SetLocal(usize),
    GetLocal(usize),
    BuildArray(usize),
    GetIndex,
    SetIndex,
    BuildObject(usize),
    GetProperty(usize),
    SetProperty(usize),
    JumpIfFalse(usize),
    Jump(usize),
    Call(usize),
    Return,
    Print,
}

/// Compiled code: instructions, the constants they refer to, and the source line
/// of each instruction.
#[derive(Debug, Clone)]
pub struct Chunk {
    pub code: Vec<OperationCode>,
    pub constants: Vec<Value>,
    pub lines: Vec<usize>,
}

/// The mathematical model of a [`Chunk`].
pub struct ChunkV {
    pub code: Seq<OperationCode>,
    pub constants: Seq<ValueV>,
    pub lines: Seq<nat>,
}

pub open spec fn values_view(v: Seq<Value>) -> Seq<ValueV> {
    v.map_values(|x: Value| x@)
}

pub open spec fn lines_view(v: Seq<usize>) -> Seq<nat> {
    v.map_values(|x: usize| x as nat)
}

impl View for Chunk {
    type V = ChunkV;

    open spec fn view(&self) -> ChunkV {
        ChunkV { code: self.code@, constants: values_view(self.constants@), lines: lines_view(self.lines@) }
    }
}

impl Chunk {
    pub fn new() -> (r: Self)
        ensures
            r@.code.len() == 0,
            r@.constants.len() == 0,
            r@.lines.len() == 0,
    {
        Chunk { code: Vec::new(), constants: Vec::new(), lines: Vec::new() }
    }
}

} // verus!
