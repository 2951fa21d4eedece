use vstd::prelude::*;

use crate::ast::{ExprV, StmtV};
use crate::bytecode::{OperationCode, ValueV};
use crate::token::{TokenKind, TokenView};

verus! {

/// What the compiler knows while it translates a program: the code emitted so
/// far with its constants and lines, the local variables in scope with the block
/// depth of each, the current block depth, and for each enclosing loop the jumps
/// of `continue` and `break` still to be patched and the number of locals at its
/// start.
pub struct CompilerState {
    pub code: Seq<OperationCode>,
    pub constants: Seq<ValueV>,
    pub lines: Seq<nat>,
    pub locals: Seq<(Seq<char>, nat)>,
    pub scope_depth: nat,
    pub continue_jumps: Seq<Seq<nat>>,
    pub break_jumps: Seq<Seq<nat>>,
    pub loop_local_counts: Seq<nat>,
}

pub open spec fn emit(st: CompilerState, op: OperationCode, line: nat) -> CompilerState {
    CompilerState { code: st.code.push(op), lines: st.lines.push(line), ..st }
}

pub open spec fn add_constant(st: CompilerState, v: ValueV) -> CompilerState {
    CompilerState { constants: st.constants.push(v), ..st }
}

/// Adds a constant and the instruction that loads it.
pub open spec fn emit_constant(st: CompilerState, v: ValueV, line: nat) -> CompilerState {
    emit(add_constant(st, v), OperationCode::Constant(st.constants.len() as usize), line)
}

/// The line of the last instruction, or 0 before any.
pub open spec fn last_line(st: CompilerState) -> nat {
    if st.lines.len() > 0 {
        st.lines.last()
    } else {
        0
    }
}

/// Emits a jump whose target is patched later, on the line of the last instruction;
/// the jump stands at position `st.code.len()`.
pub open spec fn emit_jump(st: CompilerState, op: OperationCode) -> CompilerState {
    emit(st, op, last_line(st))
}

/// Makes the jump at `offset` lead to the end of the code emitted so far.
pub open spec fn patch_jump(st: CompilerState, offset: nat) -> CompilerState {
    let target = st.code.len() as usize;
    match st.code[offset as int] {
        OperationCode::JumpIfFalse(_) => CompilerState {
            code: st.code.update(offset as int, OperationCode::JumpIfFalse(target)),
            ..st
        },
        OperationCode::Jump(_) => CompilerState { code: st.code.update(offset as int, OperationCode::Jump(target)), ..st },
        _ => st,
    }
}

pub open spec fn patch_all(st: CompilerState, offsets: Seq<nat>) -> CompilerState
    decreases offsets.len(),
{
    if offsets.len() == 0 {
        st
    } else {
        patch_all(patch_jump(st, offsets[0]), offsets.drop_first())
    }
}

/// The first constant at or after `i` that is the text `name`, if any.
pub open spec fn find_string(constants: Seq<ValueV>, name: Seq<char>, i: nat) -> Option<nat>
    decreases constants.len() - i,
{
    if i >= constants.len() {
        None
    } else if constants[i as int] == ValueV::Str(name) {
        Some(i)
    } else {
        find_string(constants, name, i + 1)
    }
}

/// The index of the constant holding `name`, added when there is none yet.
pub open spec fn identifier_constant(st: CompilerState, name: Seq<char>) -> (CompilerState, nat) {
    match find_string(st.constants, name, 0) {
        Some(i) => (st, i),
        None => (add_constant(st, ValueV::Str(name)), st.constants.len()),
    }
}

/// The slot of the innermost local variable called `name`, if any.
pub open spec fn resolve_local(locals: Seq<(Seq<char>, nat)>, name: Seq<char>) -> Option<nat>
    decreases locals.len(),
{
    if locals.len() == 0 {
        None
    } else if locals.last().0 == name {
        Some((locals.len() - 1) as nat)
    } else {
        resolve_local(locals.drop_last(), name)
    }
}

/// One block deeper; the depth stops growing at the largest machine word.
pub open spec fn deeper(d: nat) -> nat {
    if d < usize::MAX {
        d + 1
    } else {
        d
    }
}

/// Pops the locals of the innermost block, emitting a `Pop` for each.
pub open spec fn pop_block_locals(st: CompilerState) -> CompilerState
    decreases st.locals.len(),
{
    if st.locals.len() > 0 && st.locals.last().1 == st.scope_depth {
        pop_block_locals(emit(CompilerState { locals: st.locals.drop_last(), ..st }, OperationCode::Pop, 0))
    } else {
        st
    }
}

/// Emits `n` instructions `Pop` on `line`.
pub open spec fn emit_pops(st: CompilerState, n: nat, line: nat) -> CompilerState
    decreases n,
{
    if n == 0 {
        st
    } else {
        emit_pops(emit(st, OperationCode::Pop, line), (n - 1) as nat, line)
    }
}

/// The locals declared inside the innermost loop, which a `break` or `continue`
/// pops; none outside loops (and none where fewer locals are in scope than at the
/// start of the loop).
pub open spec fn loop_locals(st: CompilerState) -> nat {
    if st.loop_local_counts.len() > 0 && st.loop_local_counts.last() <= st.locals.len() {
        (st.locals.len() - st.loop_local_counts.last()) as nat
    } else {
        0
    }
}

/// Records `jump` in the innermost list of `lists`, if there is one.
pub open spec fn record_jump(lists: Seq<Seq<nat>>, jump: nat) -> Seq<Seq<nat>> {
    if lists.len() > 0 {
        lists.update(lists.len() - 1, lists.last().push(jump))
    } else {
        lists
    }
}

/// The locals of a function body: its parameters, at depth 1.
pub open spec fn param_locals(params: Seq<TokenView>) -> Seq<(Seq<char>, nat)> {
    Seq::new(params.len(), |i: int| (params[i].lexeme, 1nat))
}

/// The instruction for a binary operator, with a following `Not` where the
/// operator is the negation of another.
pub open spec fn binary_ops(st: CompilerState, op: TokenView) -> CompilerState {
    let line = op.line;
    match op.kind {
        TokenKind::Plus => emit(st, OperationCode::Add, line),
        TokenKind::Minus => emit(st, OperationCode::Subtract, line),
        TokenKind::Star => emit(st, OperationCode::Multiply, line),
        TokenKind::Slash => emit(st, OperationCode::Divide, line),
        TokenKind::Percent => emit(st, OperationCode::Modulo, line),
        TokenKind::Equal => emit(st, OperationCode::Equal, line),
        TokenKind::BangEqual => emit(emit(st, OperationCode::Equal, line), OperationCode::Not, line),
        TokenKind::GreaterThan => emit(st, OperationCode::GreaterThan, line),
        TokenKind::GreaterEqual => emit(emit(st, OperationCode::LessThan, line), OperationCode::Not, line),
        TokenKind::LessThan => emit(st, OperationCode::LessThan, line),
        TokenKind::LessEqual => emit(emit(st, OperationCode::GreaterThan, line), OperationCode::Not, line),
        _ => st,
    }
}

pub open spec fn compile_stmts(st: CompilerState, ss: Seq<StmtV>) -> CompilerState
    decreases ss, 0nat,
{
    if ss.len() == 0 {
        st
    } else {
        compile_stmts(compile_stmt(st, ss[0]), ss.drop_first())
    }
}

pub open spec fn compile_exprs(st: CompilerState, es: Seq<ExprV>) -> CompilerState
    decreases es, 0nat,
{
    if es.len() == 0 {
        st
    } else {
        compile_exprs(compile_expr(st, es[0]), es.drop_first())
    }
}

/// Each property: its name as a constant, then its value.
pub open spec fn compile_props(st: CompilerState, ps: Seq<(TokenView, ExprV)>) -> CompilerState
    decreases ps, 0nat,
{
    if ps.len() == 0 {
        st
    } else {
        let (st1, idx) = identifier_constant(st, ps[0].0.lexeme);
        let st2 = emit(st1, OperationCode::Constant(idx as usize), ps[0].0.line);
        proof {
            assert(decreases_to!(ps => ps[0]));
            assert(decreases_to!(ps[0] => ps[0].1));
        }
        compile_props(compile_expr(st2, ps[0].1), ps.drop_first())
    }
}

/// The code of a function body, jumped over where it stands, ending with a return
/// of `false` on `line`; the body's code starts at `st.code.len() + 1`.
pub open spec fn compile_function(st: CompilerState, params: Seq<TokenView>, body: Seq<StmtV>, line: nat) -> CompilerState
    decreases body, 1nat,
{
    let jump_over = st.code.len();
    let st1 = emit_jump(st, OperationCode::Jump(0));
    let inner = CompilerState { locals: param_locals(params), scope_depth: 1, ..st1 };
    let st2 = compile_stmts(inner, body);
    let st3 = emit(emit_constant(st2, ValueV::Boolean(false), line), OperationCode::Return, line);
    let st4 = CompilerState { locals: st1.locals, scope_depth: st1.scope_depth, ..st3 };
    patch_jump(st4, jump_over)
}

/// Stores the value on top of the stack in a new variable: a local inside a block,
/// otherwise a global.
pub open spec fn bind_variable(st: CompilerState, name: TokenView) -> CompilerState {
    if st.scope_depth > 0 {
        CompilerState { locals: st.locals.push((name.lexeme, st.scope_depth)), ..st }
    } else {
        let (st1, idx) = identifier_constant(st, name.lexeme);
        emit(emit(st1, OperationCode::SetGlobal(idx as usize), name.line), OperationCode::Pop, name.line)
    }
}

/// A `while` loop: the condition, a jump out when it is false, the body, the
/// increment, and a jump back; `continue` jumps lead to the increment and `break`
/// jumps past the loop.
pub open spec fn compile_while(st: CompilerState, s: StmtV) -> CompilerState
    decreases s, 0nat,
{
    match s {
        StmtV::While { condition, body, increment } => {
            let loop_start = st.code.len();
            let st1 = CompilerState {
                continue_jumps: st.continue_jumps.push(seq![]),
                break_jumps: st.break_jumps.push(seq![]),
                loop_local_counts: st.loop_local_counts.push(st.locals.len()),
                ..st
            };
            let st2 = compile_expr(st1, condition);
            let exit_jump = st2.code.len();
            let st3 = emit(emit_jump(st2, OperationCode::JumpIfFalse(0)), OperationCode::Pop, 0);
            let st4 = compile_stmt(st3, *body);
            let st5 = if st4.continue_jumps.len() > 0 {
                patch_all(CompilerState { continue_jumps: st4.continue_jumps.drop_last(), ..st4 }, st4.continue_jumps.last())
            } else {
                st4
            };
            let st6 = match increment {
                Some(inc) => emit(compile_expr(st5, inc), OperationCode::Pop, 0),
                None => st5,
            };
            let st7 = emit(patch_jump(emit(st6, OperationCode::Jump(loop_start as usize), 0), exit_jump), OperationCode::Pop, 0);
            let st8 = if st7.break_jumps.len() > 0 {
                patch_all(CompilerState { break_jumps: st7.break_jumps.drop_last(), ..st7 }, st7.break_jumps.last())
            } else {
                st7
            };
            CompilerState {
                loop_local_counts: if st8.loop_local_counts.len() > 0 {
                    st8.loop_local_counts.drop_last()
                } else {
                    st8.loop_local_counts
                },
                ..st8
            }
        },
        _ => st,
    }
}

pub open spec fn compile_stmt(st: CompilerState, s: StmtV) -> CompilerState
    decreases s, 1nat,
{
    match s {
        StmtV::Expression(e) => emit(compile_expr(st, e), OperationCode::Pop, 0),
        StmtV::Print(e) => emit(compile_expr(st, e), OperationCode::Print, 0),
        StmtV::Block(ss) => {
            let st1 = compile_stmts(CompilerState { scope_depth: deeper(st.scope_depth), ..st }, ss);
            let st2 = pop_block_locals(st1);
            CompilerState { scope_depth: st.scope_depth, ..st2 }
        },
        StmtV::Variable { name, initializer } => bind_variable(compile_expr(st, initializer), name),
        StmtV::Function { name, params, body } => {
            let address = st.code.len() + 1;
            let st1 = compile_function(st, params, body, name.line);
            let f = ValueV::Function { name: name.lexeme, address, arity: params.len() };
            bind_variable(emit_constant(st1, f, name.line), name)
        },
        StmtV::If { condition, then_branch, else_branch } => {
            let st1 = compile_expr(st, condition);
            let if_jump = st1.code.len();
            let st2 = emit(emit_jump(st1, OperationCode::JumpIfFalse(0)), OperationCode::Pop, 0);
            let st3 = compile_stmt(st2, *then_branch);
            let jump_over_else = st3.code.len();
            let st4 = emit(patch_jump(emit_jump(st3, OperationCode::Jump(0)), if_jump), OperationCode::Pop, 0);
            let st5 = match else_branch {
                Some(b) => compile_stmt(st4, *b),
                None => st4,
            };
            patch_jump(st5, jump_over_else)
        },
        StmtV::While { .. } => compile_while(st, s),
        StmtV::Break { keyword } => {
            let st1 = emit_pops(st, loop_locals(st), keyword.line);
            let jump = st1.code.len();
            let st2 = emit_jump(st1, OperationCode::Jump(0));
            CompilerState { break_jumps: record_jump(st2.break_jumps, jump), ..st2 }
        },
        StmtV::Continue { keyword } => {
            let st1 = emit_pops(st, loop_locals(st), keyword.line);
            let jump = st1.code.len();
            let st2 = emit_jump(st1, OperationCode::Jump(0));
            CompilerState { continue_jumps: record_jump(st2.continue_jumps, jump), ..st2 }
        },
        StmtV::Return { keyword, value } => {
            let st1 = match value {
                Some(v) => compile_expr(st, v),
                None => emit_constant(st, ValueV::Boolean(false), keyword.line),
            };
            emit(st1, OperationCode::Return, keyword.line)
        },
    }
}

pub open spec fn compile_expr(st: CompilerState, e: ExprV) -> CompilerState
    decreases e, 0nat,
{
    match e {
        ExprV::Integer(v) => emit_constant(st, ValueV::Integer(v), 0),
        ExprV::Float(t) => emit_constant(st, ValueV::Float(t), 0),
        ExprV::Str(t) => emit_constant(st, ValueV::Str(t), 0),
        ExprV::Boolean(b) => emit_constant(st, ValueV::Boolean(b), 0),
        ExprV::Null => emit_constant(st, ValueV::Null, 0),
        ExprV::Function { params, body } => {
            let address = st.code.len() + 1;
            let st1 = compile_function(st, params, body, 0);
            let f = ValueV::Function { name: "<pancen_teu_aya_nami>"@, address, arity: params.len() };
            emit_constant(st1, f, 0)
        },
        ExprV::Variable { name } => match resolve_local(st.locals, name.lexeme) {
            Some(i) => emit(st, OperationCode::GetLocal(i as usize), name.line),
            None => {
                let (st1, idx) = identifier_constant(st, name.lexeme);
                emit(st1, OperationCode::GetGlobal(idx as usize), name.line)
            },
        },
        ExprV::Assign { name, value } => {
            let st1 = compile_expr(st, *value);
            match resolve_local(st1.locals, name.lexeme) {
                Some(i) => emit(st1, OperationCode::SetLocal(i as usize), name.line),
                None => {
                    let (st2, idx) = identifier_constant(st1, name.lexeme);
                    emit(st2, OperationCode::SetGlobal(idx as usize), name.line)
                },
            }
        },
        ExprV::Unary { operator, right } => {
            let st1 = compile_expr(st, *right);
            if operator.kind is Minus {
                emit(st1, OperationCode::Negate, operator.line)
            } else if operator.kind is Bang {
                emit(st1, OperationCode::Not, operator.line)
            } else {
                st1
            }
        },
        ExprV::Binary { left, operator, right } => binary_ops(compile_expr(compile_expr(st, *left), *right), operator),
        ExprV::Logical { left, operator, right } => {
            let st1 = compile_expr(st, *left);
            if operator.kind is And {
                let end_jump = st1.code.len();
                let st2 = emit(emit_jump(st1, OperationCode::JumpIfFalse(0)), OperationCode::Pop, operator.line);
                patch_jump(compile_expr(st2, *right), end_jump)
            } else if operator.kind is Or {
                let else_jump = st1.code.len();
                let st2 = emit_jump(st1, OperationCode::JumpIfFalse(0));
                let end_jump = st2.code.len();
                let st3 = emit(patch_jump(emit_jump(st2, OperationCode::Jump(0)), else_jump), OperationCode::Pop, operator.line);
                patch_jump(compile_expr(st3, *right), end_jump)
            } else {
                st1
            }
        },
        ExprV::Call { callee, arguments, paren_line } => emit(
            compile_exprs(compile_expr(st, *callee), arguments),
            OperationCode::Call(arguments.len() as usize),
            paren_line,
        ),
        ExprV::Array { elements } => emit(compile_exprs(st, elements), OperationCode::BuildArray(elements.len() as usize), 0),
        ExprV::Index { array, index, bracket_line } => emit(
            compile_expr(compile_expr(st, *array), *index),
            OperationCode::GetIndex,
            bracket_line,
        ),
        ExprV::AssignIndex { array, index, value } => emit(
            compile_expr(compile_expr(compile_expr(st, *array), *index), *value),
            OperationCode::SetIndex,
            0,
        ),
        ExprV::Object { properties } => emit(
            compile_props(st, properties),
            OperationCode::BuildObject(properties.len() as usize),
            0,
        ),
        ExprV::GetProperty { object, name } => {
            let (st1, idx) = identifier_constant(compile_expr(st, *object), name.lexeme);
            emit(st1, OperationCode::GetProperty(idx as usize), name.line)
        },
        ExprV::SetProperty { object, name, value } => {
            let (st1, idx) = identifier_constant(compile_expr(compile_expr(st, *object), *value), name.lexeme);
            emit(st1, OperationCode::SetProperty(idx as usize), name.line)
        },
    }
}

/// Every recorded `continue` and `break` jump stands inside the code.
pub open spec fn jumps_fit(st: CompilerState) -> bool {
    &&& forall|i: int, j: int|
        0 <= i < st.continue_jumps.len() && 0 <= j < st.continue_jumps[i].len() ==> #[trigger] st.continue_jumps[i][j]
            < st.code.len()
    &&& forall|i: int, j: int|
        0 <= i < st.break_jumps.len() && 0 <= j < st.break_jumps[i].len() ==> #[trigger] st.break_jumps[i][j]
            < st.code.len()
}

/// Whether an instruction refers only to what exists: a loaded constant exists, the
/// name of a global or of a property is a text constant, and a jump leads at most
/// to the end of the code.
pub open spec fn op_fits(op: OperationCode, constants: Seq<ValueV>, code_len: nat) -> bool {
    match op {
        OperationCode::Constant(k) => k < constants.len(),
        OperationCode::SetGlobal(k) | OperationCode::GetGlobal(k) | OperationCode::GetProperty(k)
        | OperationCode::SetProperty(k) => k < constants.len() && constants[k as int] is Str,
        OperationCode::Jump(t) | OperationCode::JumpIfFalse(t) => t <= code_len,
        _ => true,
    }
}

/// Whether a constant refers only to what exists: a function starts at an
/// instruction of the code.
pub open spec fn constant_fits(v: ValueV, code_len: nat) -> bool {
    match v {
        ValueV::Function { address, .. } => address < code_len,
        _ => true,
    }
}

/// Every instruction has a line and refers only to what exists, and so does every
/// constant.
pub open spec fn code_fits(code: Seq<OperationCode>, constants: Seq<ValueV>, lines: Seq<nat>) -> bool {
    &&& lines.len() == code.len()
    &&& forall|i: int| 0 <= i < code.len() ==> op_fits(#[trigger] code[i], constants, code.len())
    &&& forall|k: int| 0 <= k < constants.len() ==> constant_fits(#[trigger] constants[k], code.len())
}

/// What holds of a compiler between its steps.
pub open spec fn compiler_inv(st: CompilerState) -> bool {
    &&& jumps_fit(st)
    &&& code_fits(st.code, st.constants, st.lines)
}

/// The state of a compiler that has not compiled anything.
pub open spec fn initial_compiler() -> CompilerState {
    CompilerState {
        code: seq![],
        constants: seq![],
        lines: seq![],
        locals: seq![],
        scope_depth: 0,
        continue_jumps: seq![],
        break_jumps: seq![],
        loop_local_counts: seq![],
    }
}

} // verus!

verus! {

/// A binary operation compiles to the code of its left operand, then that of its
/// right operand, then the instructions of its operator: `+ - * / %` and `==`,
/// `>`, `<` one instruction each; `!=` as equality then `Not`; `>=` as "less
/// than" then `Not` (true on equal operands); `<=` as "greater than" then `Not`.
/// The instructions of the operator take the operator's line.
pub proof fn lemma_binary_operator_code(st: CompilerState, left: ExprV, operator: TokenView, right: ExprV)
    ensures
        ({
            let mid = compile_expr(compile_expr(st, left), right);
            let r = compile_expr(st, ExprV::Binary { left: Box::new(left), operator, right: Box::new(right) });
            let l = operator.line;
            &&& r.constants == mid.constants
            &&& operator.kind is Plus ==> r.code == mid.code + seq![OperationCode::Add] && r.lines == mid.lines + seq![l]
            &&& operator.kind is Minus ==> r.code == mid.code + seq![OperationCode::Subtract] && r.lines == mid.lines
                + seq![l]
            &&& operator.kind is Star ==> r.code == mid.code + seq![OperationCode::Multiply] && r.lines == mid.lines
                + seq![l]
            &&& operator.kind is Slash ==> r.code == mid.code + seq![OperationCode::Divide] && r.lines == mid.lines
                + seq![l]
            &&& operator.kind is Percent ==> r.code == mid.code + seq![OperationCode::Modulo] && r.lines == mid.lines
                + seq![l]
            &&& operator.kind is Equal ==> r.code == mid.code + seq![OperationCode::Equal] && r.lines == mid.lines
                + seq![l]
            &&& operator.kind is BangEqual ==> r.code == mid.code + seq![OperationCode::Equal, OperationCode::Not]
                && r.lines == mid.lines + seq![l, l]
            &&& operator.kind is GreaterThan ==> r.code == mid.code + seq![OperationCode::GreaterThan] && r.lines
                == mid.lines + seq![l]
            &&& operator.kind is GreaterEqual ==> r.code == mid.code + seq![OperationCode::LessThan, OperationCode::Not]
                && r.lines == mid.lines + seq![l, l]
            &&& operator.kind is LessThan ==> r.code == mid.code + seq![OperationCode::LessThan] && r.lines
                == mid.lines + seq![l]
            &&& operator.kind is LessEqual ==> r.code == mid.code + seq![OperationCode::GreaterThan, OperationCode::Not]
                && r.lines == mid.lines + seq![l, l]
        }),
{
    let mid = compile_expr(compile_expr(st, left), right);
    let r = compile_expr(st, ExprV::Binary { left: Box::new(left), operator, right: Box::new(right) });
    let l = operator.line;
    assert(r == binary_ops(mid, operator));
    match operator.kind {
        TokenKind::BangEqual => {
            assert(r.code =~= mid.code + seq![OperationCode::Equal, OperationCode::Not]);
            assert(r.lines =~= mid.lines + seq![l, l]);
        },
        TokenKind::GreaterEqual => {
            assert(r.code =~= mid.code + seq![OperationCode::LessThan, OperationCode::Not]);
            assert(r.lines =~= mid.lines + seq![l, l]);
        },
        TokenKind::LessEqual => {
            assert(r.code =~= mid.code + seq![OperationCode::GreaterThan, OperationCode::Not]);
            assert(r.lines =~= mid.lines + seq![l, l]);
        },
        TokenKind::Plus => {
            assert(r.code =~= mid.code + seq![OperationCode::Add]);
            assert(r.lines =~= mid.lines + seq![l]);
        },
        TokenKind::Minus => {
            assert(r.code =~= mid.code + seq![OperationCode::Subtract]);
            assert(r.lines =~= mid.lines + seq![l]);
        },
        TokenKind::Star => {
            assert(r.code =~= mid.code + seq![OperationCode::Multiply]);
            assert(r.lines =~= mid.lines + seq![l]);
        },
        TokenKind::Slash => {
            assert(r.code =~= mid.code + seq![OperationCode::Divide]);
            assert(r.lines =~= mid.lines + seq![l]);
        },
        TokenKind::Percent => {
            assert(r.code =~= mid.code + seq![OperationCode::Modulo]);
            assert(r.lines =~= mid.lines + seq![l]);
        },
        TokenKind::Equal => {
            assert(r.code =~= mid.code + seq![OperationCode::Equal]);
            assert(r.lines =~= mid.lines + seq![l]);
        },
        TokenKind::GreaterThan => {
            assert(r.code =~= mid.code + seq![OperationCode::GreaterThan]);
            assert(r.lines =~= mid.lines + seq![l]);
        },
        TokenKind::LessThan => {
            assert(r.code =~= mid.code + seq![OperationCode::LessThan]);
            assert(r.lines =~= mid.lines + seq![l]);
        },
        _ => {},
    }
}

/// A unary operation compiles to the code of its operand followed by `Negate`
/// for `-` and by `Not` for `!`, on the operator's line.
pub proof fn lemma_unary_operator_code(st: CompilerState, operator: TokenView, right: ExprV)
    ensures
        ({
            let mid = compile_expr(st, right);
            let r = compile_expr(st, ExprV::Unary { operator, right: Box::new(right) });
            &&& r.constants == mid.constants
            &&& operator.kind is Minus ==> r.code == mid.code + seq![OperationCode::Negate] && r.lines == mid.lines
                + seq![operator.line]
            &&& operator.kind is Bang ==> r.code == mid.code + seq![OperationCode::Not] && r.lines == mid.lines
                + seq![operator.line]
        }),
{
    let mid = compile_expr(st, right);
    let r = compile_expr(st, ExprV::Unary { operator, right: Box::new(right) });
    if operator.kind is Minus {
        assert(r.code =~= mid.code + seq![OperationCode::Negate]);
        assert(r.lines =~= mid.lines + seq![operator.line]);
    } else if operator.kind is Bang {
        assert(r.code =~= mid.code + seq![OperationCode::Not]);
        assert(r.lines =~= mid.lines + seq![operator.line]);
    }
}

/// A literal becomes a new constant at the end of the constants and one
/// instruction that loads it.
pub proof fn lemma_literal_code(st: CompilerState, e: ExprV)
    ensures
        ({
            let r = compile_expr(st, e);
            let k = st.constants.len();
            let loads = |v: ValueV| r.constants == st.constants + seq![v] && r.code == st.code + seq![
                OperationCode::Constant(k as usize),
            ];
            &&& e matches ExprV::Integer(v) ==> loads(ValueV::Integer(v))
            &&& e matches ExprV::Float(x) ==> loads(ValueV::Float(x))
            &&& e matches ExprV::Str(x) ==> loads(ValueV::Str(x))
            &&& e matches ExprV::Boolean(b) ==> loads(ValueV::Boolean(b))
            &&& e is Null ==> loads(ValueV::Null)
        }),
{
    let r = compile_expr(st, e);
    let k = st.constants.len();
    match e {
        ExprV::Integer(v) => {
            assert(r.constants =~= st.constants + seq![ValueV::Integer(v)]);
            assert(r.code =~= st.code + seq![OperationCode::Constant(k as usize)]);
        },
        ExprV::Float(x) => {
            assert(r.constants =~= st.constants + seq![ValueV::Float(x)]);
            assert(r.code =~= st.code + seq![OperationCode::Constant(k as usize)]);
        },
        ExprV::Str(x) => {
            assert(r.constants =~= st.constants + seq![ValueV::Str(x)]);
            assert(r.code =~= st.code + seq![OperationCode::Constant(k as usize)]);
        },
        ExprV::Boolean(b) => {
            assert(r.constants =~= st.constants + seq![ValueV::Boolean(b)]);
            assert(r.code =~= st.code + seq![OperationCode::Constant(k as usize)]);
        },
        ExprV::Null => {
            assert(r.constants =~= st.constants + seq![ValueV::Null]);
            assert(r.code =~= st.code + seq![OperationCode::Constant(k as usize)]);
        },
        _ => {},
    }
}

/// `citak(e);` compiles to the code of `e` then `Print`; an expression standing
/// as a statement compiles to its code then `Pop`, which drops its value.
pub proof fn lemma_print_and_expression_statement_code(st: CompilerState, e: ExprV)
    ensures
        compile_stmt(st, StmtV::Print(e)).code == compile_expr(st, e).code + seq![OperationCode::Print],
        compile_stmt(st, StmtV::Expression(e)).code == compile_expr(st, e).code + seq![OperationCode::Pop],
{
    assert(compile_stmt(st, StmtV::Print(e)).code =~= compile_expr(st, e).code + seq![OperationCode::Print]);
    assert(compile_stmt(st, StmtV::Expression(e)).code =~= compile_expr(st, e).code + seq![OperationCode::Pop]);
}

} // verus!
