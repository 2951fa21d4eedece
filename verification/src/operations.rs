use vstd::prelude::*;

use crate::error::{decimal, push_decimal, push_text, text};

verus! {

/// The kinds of run-time values.
#[derive(Debug, Clone, Copy, PartialEq, Eq, Structural)]
pub enum Kind {
    Integer,
    Float,
    Text,
    Boolean,
    Null,
    Array,
    Object,
    Function,
    Method,
}

/// The operators that take two values off the stack and check their kinds.
#[derive(Debug, Clone, Copy, PartialEq, Eq, Structural)]
pub enum BinaryOp {
    Add,
    Subtract,
    Multiply,
    Divide,
    Modulo,
    GreaterThan,
    LessThan,
}

/// How an operator works on the kinds of its two operands.
#[derive(Debug, Clone, Copy, PartialEq, Eq)]
pub enum Operands {
    /// Both are integers: integer arithmetic or comparison.
    Integers,
    /// Both are numbers and one is a floating-point number: both are taken as
    /// floating-point numbers.
    Numbers,
    /// One is a text: the text forms of both are joined.
    Texts,
}

pub open spec fn is_number(k: Kind) -> bool {
    k == Kind::Integer || k == Kind::Float
}

/// The error an operator raises on operands of kinds it does not accept.
pub open spec fn refusal(op: BinaryOp) -> Seq<char> {
    match op {
        BinaryOp::Add => "Operasi panambihan mung kanggo angka sareng teks."@,
        BinaryOp::Subtract => "Operasi pangurangan mung kanggo angka."@,
        BinaryOp::Multiply => "Operasi pangalian mung kanggo angka."@,
        BinaryOp::Divide => "Operasi ngabagi mung kanggo angka."@,
        BinaryOp::Modulo => "Operasi sesa ngabagi mung kanggo angka."@,
        BinaryOp::GreaterThan | BinaryOp::LessThan => "Babandingan mung kanggo angka."@,
    }
}

/// How `op` works on operands of kinds `l` and `r`, or the error it raises:
/// numbers go with numbers, and only `+` accepts a text on either side.
pub open spec fn operand_rule(op: BinaryOp, l: Kind, r: Kind) -> Result<Operands, Seq<char>> {
    if l == Kind::Integer && r == Kind::Integer {
        Ok(Operands::Integers)
    } else if is_number(l) && is_number(r) {
        Ok(Operands::Numbers)
    } else if op == BinaryOp::Add && (l == Kind::Text || r == Kind::Text) {
        Ok(Operands::Texts)
    } else {
        Err(refusal(op))
    }
}

/// How `op` works on operands of kinds `l` and `r`, or the error it raises.
pub fn binary_operands(op: BinaryOp, l: Kind, r: Kind) -> (res: Result<Operands, String>)
    ensures
        match res {
            Ok(o) => operand_rule(op, l, r) == Ok::<Operands, Seq<char>>(o),
            Err(m) => operand_rule(op, l, r) == Err::<Operands, Seq<char>>(m@),
        },
{
    let l_number = l == Kind::Integer || l == Kind::Float;
    let r_number = r == Kind::Integer || r == Kind::Float;
    if l == Kind::Integer && r == Kind::Integer {
        Ok(Operands::Integers)
    } else if l_number && r_number {
        Ok(Operands::Numbers)
    } else if op == BinaryOp::Add && (l == Kind::Text || r == Kind::Text) {
        Ok(Operands::Texts)
    } else {
        Err(
            match op {
                BinaryOp::Add => text("Operasi panambihan mung kanggo angka sareng teks."),
                BinaryOp::Subtract => text("Operasi pangurangan mung kanggo angka."),
                BinaryOp::Multiply => text("Operasi pangalian mung kanggo angka."),
                BinaryOp::Divide => text("Operasi ngabagi mung kanggo angka."),
                BinaryOp::Modulo => text("Operasi sesa ngabagi mung kanggo angka."),
                BinaryOp::GreaterThan | BinaryOp::LessThan => text("Babandingan mung kanggo angka."),
            },
        )
    }
}

/// The operators that take one value off the stack.
#[derive(Debug, Clone, Copy, PartialEq, Eq)]
pub enum UnaryOp {
    Negate,
    Not,
}

/// Whether a unary operator accepts an operand of kind `k`, and otherwise the
/// error it raises: `-` takes numbers, `!` takes truth values.
pub open spec fn unary_rule(op: UnaryOp, k: Kind) -> Result<(), Seq<char>> {
    match op {
        UnaryOp::Negate => if is_number(k) {
            Ok(())
        } else {
            Err("Tanda minus mung tiasa kanggo angka."@)
        },
        UnaryOp::Not => if k == Kind::Boolean {
            Ok(())
        } else {
            Err("Tanda seru mung tiasa kanggo nilai leres atanapi lepat."@)
        },
    }
}

/// Whether a unary operator accepts an operand of kind `k`, or the error it raises.
pub fn unary_operand(op: UnaryOp, k: Kind) -> (res: Result<(), String>)
    ensures
        match res {
            Ok(()) => unary_rule(op, k) == Ok::<(), Seq<char>>(()),
            Err(m) => unary_rule(op, k) == Err::<(), Seq<char>>(m@),
        },
{
    match op {
        UnaryOp::Negate => if k == Kind::Integer || k == Kind::Float {
            Ok(())
        } else {
            Err(text("Tanda minus mung tiasa kanggo angka."))
        },
        UnaryOp::Not => if k == Kind::Boolean {
            Ok(())
        } else {
            Err(text("Tanda seru mung tiasa kanggo nilai leres atanapi lepat."))
        },
    }
}

/// A conditional jump reads a truth value; anything else is refused with this error.
pub open spec fn condition_rule(k: Kind) -> Result<(), Seq<char>> {
    if k == Kind::Boolean {
        Ok(())
    } else {
        Err("Kondisi kedah mangrupa 'leres' atanapi 'lepat'."@)
    }
}

/// Whether a value of kind `k` can decide a conditional jump, or the error.
pub fn condition_operand(k: Kind) -> (res: Result<(), String>)
    ensures
        match res {
            Ok(()) => condition_rule(k) == Ok::<(), Seq<char>>(()),
            Err(m) => condition_rule(k) == Err::<(), Seq<char>>(m@),
        },
{
    if k == Kind::Boolean {
        Ok(())
    } else {
        Err(text("Kondisi kedah mangrupa 'leres' atanapi 'lepat'."))
    }
}

} // verus!

verus! {

/// Where `list[index]` reads (`write` false) or writes (`write` true) in a list of
/// `array_len` elements, or the error: the value indexed must be a list
/// (`array_len` is `None` when it is not), the index an integer (`index` is
/// `None` when it is not), and inside the list.
pub open spec fn slot_rule(write: bool, array_len: Option<nat>, index: Option<int>) -> Result<nat, Seq<char>> {
    match array_len {
        None => Err(
            if write {
                "Mung daptar anu tiasa dirobih indeksna ku []."@
            } else {
                "Mung daptar anu tiasa dicandak indeksna ku []."@
            },
        ),
        Some(len) => match index {
            None => Err("Indeks daptar kedah mangrupa angka buleud."@),
            Some(i) => if 0 <= i < len {
                Ok(i as nat)
            } else {
                Err("Indeks daptar di luar wates."@)
            },
        },
    }
}

/// The position that `list[index]` refers to, or the error.
pub fn element_slot(write: bool, array_len: Option<usize>, index: Option<i64>) -> (res: Result<usize, String>)
    ensures
        match res {
            Ok(p) => slot_rule(
                write,
                match array_len {
                    Some(n) => Some(n as nat),
                    None => None,
                },
                match index {
                    Some(i) => Some(i as int),
                    None => None,
                },
            ) == Ok::<nat, Seq<char>>(p as nat),
            Err(m) => slot_rule(
                write,
                match array_len {
                    Some(n) => Some(n as nat),
                    None => None,
                },
                match index {
                    Some(i) => Some(i as int),
                    None => None,
                },
            ) == Err::<nat, Seq<char>>(m@),
        },
{
    match array_len {
        None => Err(
            if write {
                text("Mung daptar anu tiasa dirobih indeksna ku [].")
            } else {
                text("Mung daptar anu tiasa dicandak indeksna ku [].")
            },
        ),
        Some(len) => match index {
            None => Err(text("Indeks daptar kedah mangrupa angka buleud.")),
            Some(i) => if 0 <= i && (i as u64) < (len as u64) {
                Ok(i as usize)
            } else {
                Err(text("Indeks daptar di luar wates."))
            },
        },
    }
}

} // verus!

verus! {

/// A call of the function `name`, which takes `arity` arguments, with `given`
/// arguments: accepted when the numbers agree, else refused with this message.
pub open spec fn arity_rule(name: Seq<char>, arity: nat, given: nat) -> Result<(), Seq<char>> {
    if arity == given {
        Ok(())
    } else {
        Err("Pancen '"@ + name + "' peryogi "@ + decimal(arity) + " argumen, tapi dipasihan "@ + decimal(given)
            + "."@)
    }
}

/// Whether a call of the function `name` of `arity` parameters with `given`
/// arguments is accepted, or the error.
pub fn arity_check(name: &str, arity: usize, given: usize) -> (res: Result<(), String>)
    ensures
        match res {
            Ok(()) => arity_rule(name@, arity as nat, given as nat) == Ok::<(), Seq<char>>(()),
            Err(m) => arity_rule(name@, arity as nat, given as nat) == Err::<(), Seq<char>>(m@),
        },
{
    if arity == given {
        return Ok(());
    }
    let mut m = String::new();
    push_text(&mut m, "Pancen '");
    push_text(&mut m, name);
    push_text(&mut m, "' peryogi ");
    push_decimal(&mut m, arity as u64);
    push_text(&mut m, " argumen, tapi dipasihan ");
    push_decimal(&mut m, given as u64);
    push_text(&mut m, ".");
    assert(m@ =~= "Pancen '"@ + name@ + "' peryogi "@ + decimal(arity as nat) + " argumen, tapi dipasihan "@
        + decimal(given as nat) + "."@);
    Err(m)
}

} // verus!

verus! {

/// The arguments of a list method that runs a function of the script on each
/// element (`method` is its name): exactly one argument, a function
/// (`callback_arity` is `None` when the argument is not one) of one parameter.
pub open spec fn callback_rule(method: Seq<char>, args_len: nat, callback_arity: Option<nat>) -> Result<(), Seq<char>> {
    if args_len != 1 {
        Err("Metode '"@ + method + "' peryogi 1 argumen pancen."@)
    } else {
        match callback_arity {
            None => Err("Argumen '"@ + method + "' kedah mangrupa pancen."@),
            Some(n) => if n != 1 {
                Err("Pancen keur '"@ + method + "' peryogi 1 parameter, tapi dipasihan "@ + decimal(n) + "."@)
            } else {
                Ok(())
            },
        }
    }
}

/// Whether the arguments of the list method `method` are one function of one
/// parameter, or the error.
pub fn callback_check(method: &str, args_len: usize, callback_arity: Option<usize>) -> (res: Result<(), String>)
    ensures
        match res {
            Ok(()) => callback_rule(
                method@,
                args_len as nat,
                match callback_arity {
                    Some(n) => Some(n as nat),
                    None => None,
                },
            ) == Ok::<(), Seq<char>>(()),
            Err(m) => callback_rule(
                method@,
                args_len as nat,
                match callback_arity {
                    Some(n) => Some(n as nat),
                    None => None,
                },
            ) == Err::<(), Seq<char>>(m@),
        },
{
    let mut m = String::new();
    if args_len != 1 {
        push_text(&mut m, "Metode '");
        push_text(&mut m, method);
        push_text(&mut m, "' peryogi 1 argumen pancen.");
        assert(m@ =~= "Metode '"@ + method@ + "' peryogi 1 argumen pancen."@);
        return Err(m);
    }
    match callback_arity {
        None => {
            push_text(&mut m, "Argumen '");
            push_text(&mut m, method);
            push_text(&mut m, "' kedah mangrupa pancen.");
            assert(m@ =~= "Argumen '"@ + method@ + "' kedah mangrupa pancen."@);
            Err(m)
        },
        Some(n) => if n != 1 {
            push_text(&mut m, "Pancen keur '");
            push_text(&mut m, method);
            push_text(&mut m, "' peryogi 1 parameter, tapi dipasihan ");
            push_decimal(&mut m, n as u64);
            push_text(&mut m, ".");
            assert(m@ =~= "Pancen keur '"@ + method@ + "' peryogi 1 parameter, tapi dipasihan "@ + decimal(
                n as nat,
            ) + "."@);
            Err(m)
        } else {
            Ok(())
        },
    }
}

/// What a function run by `saring` or `milari` gave back must be a truth value;
/// anything else is refused with this message.
pub open spec fn verdict_rule(method: Seq<char>, k: Kind) -> Result<(), Seq<char>> {
    if k == Kind::Boolean {
        Ok(())
    } else {
        Err("Pancen keur '"@ + method + "' kedah mulangkeun nilai 'leres' atanapi 'lepat'."@)
    }
}

/// Whether a value of kind `k` can answer a `saring` or `milari` test, or the error.
pub fn verdict_check(method: &str, k: Kind) -> (res: Result<(), String>)
    ensures
        match res {
            Ok(()) => verdict_rule(method@, k) == Ok::<(), Seq<char>>(()),
            Err(m) => verdict_rule(method@, k) == Err::<(), Seq<char>>(m@),
        },
{
    if k == Kind::Boolean {
        return Ok(());
    }
    let mut m = String::new();
    push_text(&mut m, "Pancen keur '");
    push_text(&mut m, method);
    push_text(&mut m, "' kedah mulangkeun nilai 'leres' atanapi 'lepat'.");
    assert(m@ =~= "Pancen keur '"@ + method@ + "' kedah mulangkeun nilai 'leres' atanapi 'lepat'."@);
    Err(m)
}

} // verus!

verus! {

/// Which operands each operator takes: two integers give integer arithmetic,
/// two numbers of which one is a floating-point number give floating-point
/// arithmetic, a text on either side joins texts under `+` only, and everything
/// else is refused with the operator's own message.
pub proof fn lemma_operand_kinds(op: BinaryOp, l: Kind, r: Kind)
    ensures
        (operand_rule(op, l, r) == Ok::<Operands, Seq<char>>(Operands::Integers)) <==> (l == Kind::Integer && r
            == Kind::Integer),
        (operand_rule(op, l, r) == Ok::<Operands, Seq<char>>(Operands::Numbers)) <==> ((l == Kind::Integer || l
            == Kind::Float) && (r == Kind::Integer || r == Kind::Float) && !(l == Kind::Integer && r
            == Kind::Integer)),
        (operand_rule(op, l, r) == Ok::<Operands, Seq<char>>(Operands::Texts)) <==> (op == BinaryOp::Add && (l
            == Kind::Text || r == Kind::Text)),
        operand_rule(op, l, r) is Err ==> operand_rule(op, l, r) == Err::<Operands, Seq<char>>(
            match op {
                BinaryOp::Add => "Operasi panambihan mung kanggo angka sareng teks."@,
                BinaryOp::Subtract => "Operasi pangurangan mung kanggo angka."@,
                BinaryOp::Multiply => "Operasi pangalian mung kanggo angka."@,
                BinaryOp::Divide => "Operasi ngabagi mung kanggo angka."@,
                BinaryOp::Modulo => "Operasi sesa ngabagi mung kanggo angka."@,
                _ => "Babandingan mung kanggo angka."@,
            },
        ),
{
}

/// `-` takes exactly the numbers, `!` exactly the truth values, and a
/// conditional jump exactly a truth value.
pub proof fn lemma_unary_and_condition_kinds(k: Kind)
    ensures
        unary_rule(UnaryOp::Negate, k) is Ok <==> (k == Kind::Integer || k == Kind::Float),
        unary_rule(UnaryOp::Not, k) is Ok <==> k == Kind::Boolean,
        condition_rule(k) is Ok <==> k == Kind::Boolean,
{
}

/// Indexing reaches exactly the positions inside a list, and the position it
/// reaches is the index.
pub proof fn lemma_slots_inside_lists(write: bool, len: nat, i: int)
    ensures
        slot_rule(write, Some(len), Some(i)) is Ok <==> 0 <= i < len,
        slot_rule(write, Some(len), Some(i)) matches Ok(p) ==> p == i,
        slot_rule(write, None, Some(i)) is Err,
        slot_rule(write, Some(len), None) is Err,
{
}

/// A call is accepted exactly when it gives as many arguments as the function
/// has parameters; a list method's function is accepted exactly when it is the
/// only argument and has one parameter.
pub proof fn lemma_call_counts(name: Seq<char>, arity: nat, given: nat, method: Seq<char>, args: nat, callback: Option<nat>)
    ensures
        arity_rule(name, arity, given) is Ok <==> arity == given,
        callback_rule(method, args, callback) is Ok <==> (args == 1 && callback == Some(1nat)),
{
}

} // verus!
