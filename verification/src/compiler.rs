use vstd::prelude::*;

use std::rc::Rc;

use crate::ast::{exprs_model, props_model, stmts_model, Expr, ExprV, Stmt, StmtV};
use crate::bytecode::{lines_view, values_view, Chunk, Function, OperationCode, Value, ValueV};
use crate::codegen::{
    add_constant, binary_ops, compile_expr, compile_exprs, compile_function, compile_props,
    compile_stmt, compile_stmts, compile_while, constant_fits, deeper, emit, emit_constant, emit_jump, emit_pops, find_string,
    identifier_constant, initial_compiler, last_line, loop_locals, param_locals, patch_all, patch_jump,
    pop_block_locals, record_jump, resolve_local, CompilerState, bind_variable, jumps_fit, compiler_inv, code_fits, op_fits,
};
use crate::error::text;
use crate::token::{tokens_view, Token, TokenType, TokenView};

verus! {

/// A local variable and the block depth it was declared at.
struct Local {
    name: String,
    depth: usize,
}

pub open spec fn nats(v: Seq<usize>) -> Seq<nat> {
    v.map_values(|x: usize| x as nat)
}

pub open spec fn jump_lists(v: Seq<Vec<usize>>) -> Seq<Seq<nat>> {
    v.map_values(|j: Vec<usize>| nats(j@))
}

spec fn locals_view(v: Seq<Local>) -> Seq<(Seq<char>, nat)> {
    v.map_values(|l: Local| (l.name@, l.depth as nat))
}

/// The working state of a compiler.
struct Emitter {
    chunk: Chunk,
    locals: Vec<Local>,
    scope_depth: usize,
    continue_jumps: Vec<Vec<usize>>,
    break_jumps: Vec<Vec<usize>>,
    loop_local_counts: Vec<usize>,
}

/// Translates statements into a chunk of instructions.
pub struct Compiler {
    state: Emitter,
}

impl Compiler {
    #[verifier::type_invariant]
    spec fn fits(self) -> bool {
        compiler_inv(self.state.model())
    }

    /// What this compiler knows.
    pub closed spec fn model(&self) -> CompilerState {
        self.state.model()
    }

    pub fn new() -> (r: Self)
        ensures
            r.model() == initial_compiler(),
    {
        Compiler { state: Emitter::new() }
    }

    /// The chunk of code for a whole program.
    pub fn compile(self, statements: Vec<Stmt>) -> (r: Chunk)
        ensures
            r@ == ({
                let st = compile_stmts(self.model(), stmts_model(statements@));
                crate::bytecode::ChunkV { code: st.code, constants: st.constants, lines: st.lines }
            }),
            code_fits(r@.code, r@.constants, r@.lines),
    {
        proof {
            use_type_invariant(&self);
        }
        let mut emitter = self.state;
        emitter.compile_block(&statements);
        emitter.chunk
    }
}

impl Emitter {
    spec fn model(&self) -> CompilerState {
        CompilerState {
            code: self.chunk.code@,
            constants: values_view(self.chunk.constants@),
            lines: lines_view(self.chunk.lines@),
            locals: locals_view(self.locals@),
            scope_depth: self.scope_depth as nat,
            continue_jumps: jump_lists(self.continue_jumps@),
            break_jumps: jump_lists(self.break_jumps@),
            loop_local_counts: nats(self.loop_local_counts@),
        }
    }

    fn new() -> (r: Self)
        ensures
            r.model() == initial_compiler(),
    {
        let r = Emitter {
            chunk: Chunk::new(),
            locals: Vec::new(),
            scope_depth: 0,
            continue_jumps: Vec::new(),
            break_jumps: Vec::new(),
            loop_local_counts: Vec::new(),
        };
        assert(r.model().code =~= Seq::<OperationCode>::empty());
        assert(r.model().constants =~= Seq::<ValueV>::empty());
        assert(r.model().lines =~= Seq::<nat>::empty());
        assert(r.model().locals =~= Seq::<(Seq<char>, nat)>::empty());
        assert(r.model().continue_jumps =~= Seq::<Seq<nat>>::empty());
        assert(r.model().break_jumps =~= Seq::<Seq<nat>>::empty());
        assert(r.model().loop_local_counts =~= Seq::<nat>::empty());
        r
    }

    // -- emitting -----------------------------------------------------------

    fn emit_op(&mut self, op: OperationCode, line: usize)
        requires
            compiler_inv(old(self).model()),
            op_fits(op, old(self).model().constants, old(self).model().code.len() + 1),
        ensures
            final(self).model() == emit(old(self).model(), op, line as nat),
            compiler_inv(final(self).model()),
    {
        let ghost st = self.model();
        self.chunk.code.push(op);
        self.chunk.lines.push(line);
        assert(lines_view(self.chunk.lines@) =~= lines_view(old(self).chunk.lines@).push(line as nat));
        proof {
            lemma_fits_emit(st.code, st.constants, st.lines, op, line as nat);
            lemma_jumps_fit_prefix(st, self.model());
        }
    }

    fn add_constant(&mut self, v: Value) -> (r: usize)
        requires
            compiler_inv(old(self).model()),
            constant_fits(v@, old(self).model().code.len()),
        ensures
            final(self).model() == add_constant(old(self).model(), v@),
            r == old(self).model().constants.len(),
            compiler_inv(final(self).model()),
    {
        let ghost st = self.model();
        let ghost vv = v@;
        self.chunk.constants.push(v);
        assert(values_view(self.chunk.constants@) =~= values_view(old(self).chunk.constants@).push(vv));
        proof {
            lemma_fits_constant(st.code, st.constants, st.lines, vv);
            lemma_jumps_fit_prefix(st, self.model());
        }
        self.chunk.constants.len() - 1
    }

    fn emit_constant(&mut self, v: Value, line: usize)
        requires
            compiler_inv(old(self).model()),
            constant_fits(v@, old(self).model().code.len()),
        ensures
            final(self).model() == emit_constant(old(self).model(), v@, line as nat),
            compiler_inv(final(self).model()),
    {
        let idx = self.add_constant(v);
        self.emit_op(OperationCode::Constant(idx), line);
    }

    fn emit_jump(&mut self, instruction: OperationCode) -> (r: usize)
        requires
            compiler_inv(old(self).model()),
            instruction == OperationCode::Jump(0) || instruction == OperationCode::JumpIfFalse(0),
        ensures
            final(self).model() == emit_jump(old(self).model(), instruction),
            r == old(self).model().code.len(),
            compiler_inv(final(self).model()),
    {
        let n = self.chunk.lines.len();
        let line = if n > 0 {
            self.chunk.lines[n - 1]
        } else {
            0
        };
        self.emit_op(instruction, line);
        self.chunk.code.len() - 1
    }

    fn patch_jump(&mut self, offset: usize)
        requires
            compiler_inv(old(self).model()),
            offset < old(self).model().code.len(),
        ensures
            final(self).model() == patch_jump(old(self).model(), offset as nat),
            final(self).model().code.len() == old(self).model().code.len(),
            final(self).model().continue_jumps == old(self).model().continue_jumps,
            final(self).model().break_jumps == old(self).model().break_jumps,
            final(self).model().scope_depth == old(self).model().scope_depth,
            compiler_inv(final(self).model()),
    {
        let target = self.chunk.code.len();
        let ghost st = self.model();
        match self.chunk.code[offset] {
            OperationCode::JumpIfFalse(_) => {
                self.chunk.code.set(offset, OperationCode::JumpIfFalse(target));
                proof {
                    lemma_fits_update(st.code, st.constants, st.lines, offset as int, OperationCode::JumpIfFalse(target));
                }
            },
            OperationCode::Jump(_) => {
                self.chunk.code.set(offset, OperationCode::Jump(target));
                proof {
                    lemma_fits_update(st.code, st.constants, st.lines, offset as int, OperationCode::Jump(target));
                }
            },
            _ => {},
        }
        proof {
            lemma_jumps_fit_prefix(st, self.model());
        }
    }

    fn patch_all(&mut self, offsets: &Vec<usize>)
        requires
            compiler_inv(old(self).model()),
            forall|k: int| 0 <= k < offsets@.len() ==> offsets@[k] < old(self).model().code.len(),
        ensures
            final(self).model() == patch_all(old(self).model(), nats(offsets@)),
            final(self).model().code.len() == old(self).model().code.len(),
            final(self).model().scope_depth == old(self).model().scope_depth,
            final(self).model().continue_jumps == old(self).model().continue_jumps,
            final(self).model().break_jumps == old(self).model().break_jumps,
            compiler_inv(final(self).model()),
    {
        let ghost os = nats(offsets@);
        let ghost st0 = self.model();
        let mut i: usize = 0;
        assert(os.skip(0) =~= os);
        while i < offsets.len()
            invariant
                os == nats(offsets@),
                i <= offsets@.len(),
                compiler_inv(self.model()),
                self.model().code.len() == st0.code.len(),
                self.model().scope_depth == st0.scope_depth,
                self.model().continue_jumps == st0.continue_jumps,
                self.model().break_jumps == st0.break_jumps,
                st0 == old(self).model(),
                forall|k: int| 0 <= k < offsets@.len() ==> offsets@[k] < st0.code.len(),
                patch_all(st0, os) == patch_all(self.model(), os.skip(i as int)),
            decreases offsets@.len() - i,
        {
            self.patch_jump(offsets[i]);
            assert(os.skip(i as int).drop_first() =~= os.skip(i + 1));
            i += 1;
        }
        assert(os.skip(i as int) =~= Seq::<nat>::empty());
    }

    fn identifier_constant(&mut self, name: String) -> (r: usize)
        requires
            compiler_inv(old(self).model()),
        ensures
            (final(self).model(), r as nat) == identifier_constant(old(self).model(), name@),
            compiler_inv(final(self).model()),
            r < final(self).model().constants.len(),
            final(self).model().constants[r as int] is Str,
    {
        let ghost cs = self.model().constants;
        let mut i: usize = 0;
        while i < self.chunk.constants.len()
            invariant
                cs == self.model().constants,
                self.model() == old(self).model(),
                compiler_inv(old(self).model()),
                i <= cs.len(),
                find_string(cs, name@, 0) == find_string(cs, name@, i as nat),
            decreases cs.len() - i,
        {
            let found = match &self.chunk.constants[i] {
                Value::String(s) => **s == name,
                _ => false,
            };
            if found {
                return i;
            }
            i += 1;
        }
        self.add_constant(Value::String(Rc::new(name)))
    }

    fn resolve_local(&self, name: &String) -> (r: Option<usize>)
        ensures
            match r {
                Some(i) => resolve_local(self.model().locals, name@) == Some(i as nat),
                None => resolve_local(self.model().locals, name@) is None,
            },
    {
        let ghost ls = self.model().locals;
        let mut j = self.locals.len();
        assert(ls.subrange(0, j as int) =~= ls);
        while j > 0
            invariant
                ls == self.model().locals,
                j <= ls.len(),
                resolve_local(ls, name@) == resolve_local(ls.subrange(0, j as int), name@),
            decreases j,
        {
            assert(ls.subrange(0, j as int).drop_last() =~= ls.subrange(0, j - 1));
            if self.locals[j - 1].name == *name {
                return Some(j - 1);
            }
            j -= 1;
        }
        None
    }
}


proof fn lemma_jumps_fit_prefix(a: CompilerState, b: CompilerState)
    requires
        jumps_fit(a),
        a.code.len() <= b.code.len(),
        b.continue_jumps.len() <= a.continue_jumps.len(),
        b.break_jumps.len() <= a.break_jumps.len(),
        forall|i: int| 0 <= i < b.continue_jumps.len() ==> b.continue_jumps[i] == a.continue_jumps[i],
        forall|i: int| 0 <= i < b.break_jumps.len() ==> b.break_jumps[i] == a.break_jumps[i],
    ensures
        jumps_fit(b),
{
    assert forall|i: int, j: int|
        0 <= i < b.continue_jumps.len() && 0 <= j < b.continue_jumps[i].len() implies #[trigger] b.continue_jumps[i][j]
        < b.code.len() by {
        assert(a.continue_jumps[i][j] < a.code.len());
    }
    assert forall|i: int, j: int|
        0 <= i < b.break_jumps.len() && 0 <= j < b.break_jumps[i].len() implies #[trigger] b.break_jumps[i][j]
        < b.code.len() by {
        assert(a.break_jumps[i][j] < a.code.len());
    }
}

proof fn lemma_fits_emit(code: Seq<OperationCode>, c: Seq<ValueV>, l: Seq<nat>, op: OperationCode, line: nat)
    requires
        code_fits(code, c, l),
        op_fits(op, c, code.len() + 1),
    ensures
        code_fits(code.push(op), c, l.push(line)),
{
    let code2 = code.push(op);
    assert forall|i: int| 0 <= i < code2.len() implies op_fits(#[trigger] code2[i], c, code2.len()) by {
        if i < code.len() {
            assert(op_fits(code[i], c, code.len()));
        }
    }
    assert forall|k: int| 0 <= k < c.len() implies constant_fits(#[trigger] c[k], code2.len()) by {
        assert(constant_fits(c[k], code.len()));
    }
}

proof fn lemma_fits_constant(code: Seq<OperationCode>, c: Seq<ValueV>, l: Seq<nat>, v: ValueV)
    requires
        code_fits(code, c, l),
        constant_fits(v, code.len()),
    ensures
        code_fits(code, c.push(v), l),
{
    assert forall|i: int| 0 <= i < code.len() implies op_fits(#[trigger] code[i], c.push(v), code.len()) by {
        assert(op_fits(code[i], c, code.len()));
    }
    let c2 = c.push(v);
    assert forall|k: int| 0 <= k < c2.len() implies constant_fits(#[trigger] c2[k], code.len()) by {
        if k < c.len() {
            assert(constant_fits(c[k], code.len()));
        }
    }
}

proof fn lemma_fits_update(code: Seq<OperationCode>, c: Seq<ValueV>, l: Seq<nat>, at: int, op: OperationCode)
    requires
        code_fits(code, c, l),
        0 <= at < code.len(),
        op_fits(op, c, code.len()),
    ensures
        code_fits(code.update(at, op), c, l),
{
    let code2 = code.update(at, op);
    assert forall|i: int| 0 <= i < code2.len() implies op_fits(#[trigger] code2[i], c, code2.len()) by {
        if i != at {
            assert(op_fits(code[i], c, code.len()));
        }
    }
}

proof fn lemma_last_list(v: Seq<Vec<usize>>, k: int)
    requires
        v.len() > 0,
        0 <= k < v.last()@.len(),
    ensures
        jump_lists(v)[v.len() - 1][k] == v.last()@[k] as nat,
{
}

/// A method of the compiler keeps its recorded jumps inside the code, never
/// shortens the code, and leaves the block depth as it found it.
pub open spec fn keeps(before: CompilerState, after: CompilerState) -> bool {
    &&& compiler_inv(after)
    &&& before.code.len() <= after.code.len()
    &&& after.scope_depth == before.scope_depth
}

impl Emitter {
    fn compile_block(&mut self, statements: &Vec<Stmt>)
        requires
            compiler_inv(old(self).model()),
        ensures
            final(self).model() == compile_stmts(old(self).model(), stmts_model(statements@)),
            keeps(old(self).model(), final(self).model()),
        decreases statements, 0nat,
    {
        let ghost ss = stmts_model(statements@);
        let ghost st0 = self.model();
        let mut i: usize = 0;
        assert(ss.skip(0) =~= ss);
        while i < statements.len()
            invariant
                ss == stmts_model(statements@),
                st0 == old(self).model(),
                i <= statements@.len(),
                keeps(st0, self.model()),
                compile_stmts(st0, ss) == compile_stmts(self.model(), ss.skip(i as int)),
            decreases statements@.len() - i,
        {
            self.compile_stmt(&statements[i]);
            assert(ss.skip(i as int)[0] == statements@[i as int]@);
            assert(ss.skip(i as int).drop_first() =~= ss.skip(i + 1));
            i += 1;
        }
        assert(ss.skip(i as int) =~= Seq::<StmtV>::empty());
    }

    fn compile_exprs(&mut self, exprs: &Vec<Expr>)
        requires
            compiler_inv(old(self).model()),
        ensures
            final(self).model() == compile_exprs(old(self).model(), exprs_model(exprs@)),
            keeps(old(self).model(), final(self).model()),
        decreases exprs, 0nat,
    {
        let ghost es = exprs_model(exprs@);
        let ghost st0 = self.model();
        let mut i: usize = 0;
        assert(es.skip(0) =~= es);
        while i < exprs.len()
            invariant
                es == exprs_model(exprs@),
                st0 == old(self).model(),
                i <= exprs@.len(),
                keeps(st0, self.model()),
                compile_exprs(st0, es) == compile_exprs(self.model(), es.skip(i as int)),
            decreases exprs@.len() - i,
        {
            self.compile_expr(&exprs[i]);
            assert(es.skip(i as int)[0] == exprs@[i as int]@);
            assert(es.skip(i as int).drop_first() =~= es.skip(i + 1));
            i += 1;
        }
        assert(es.skip(i as int) =~= Seq::<ExprV>::empty());
    }

    fn compile_props(&mut self, props: &Vec<(Token, Expr)>)
        requires
            compiler_inv(old(self).model()),
        ensures
            final(self).model() == compile_props(old(self).model(), props_model(props@)),
            keeps(old(self).model(), final(self).model()),
        decreases props, 0nat,
    {
        let ghost ps = props_model(props@);
        let ghost st0 = self.model();
        let mut i: usize = 0;
        assert(ps.skip(0) =~= ps);
        while i < props.len()
            invariant
                ps == props_model(props@),
                st0 == old(self).model(),
                i <= props@.len(),
                keeps(st0, self.model()),
                compile_props(st0, ps) == compile_props(self.model(), ps.skip(i as int)),
            decreases props@.len() - i,
        {
            proof {
                assert(decreases_to!(props => props@[i as int]));
                assert(decreases_to!(props@[i as int] => props@[i as int].1));
            }
            assert(ps.skip(i as int)[0] == (props@[i as int].0@, props@[i as int].1@));
            let idx = self.identifier_constant(props[i].0.lexeme.clone());
            self.emit_op(OperationCode::Constant(idx), props[i].0.line);
            self.compile_expr(&props[i].1);
            assert(ps.skip(i as int).drop_first() =~= ps.skip(i + 1));
            i += 1;
        }
        assert(ps.skip(i as int) =~= Seq::<(TokenView, ExprV)>::empty());
    }

    /// Compiles a function body and returns the address its code starts at.
    fn compile_function(&mut self, params: &Vec<Token>, body: &Vec<Stmt>, line: usize) -> (r: usize)
        requires
            compiler_inv(old(self).model()),
        ensures
            final(self).model() == compile_function(old(self).model(), tokens_view(params@), stmts_model(body@), line as nat),
            keeps(old(self).model(), final(self).model()),
            r == old(self).model().code.len() + 1,
            r < final(self).model().code.len(),
        decreases body, 1nat,
    {
        let ghost st0 = self.model();
        let jump_over = self.emit_jump(OperationCode::Jump(0));
        let address = self.chunk.code.len();
        let ghost st1 = self.model();
        let mut previous_locals: Vec<Local> = Vec::new();
        std::mem::swap(&mut previous_locals, &mut self.locals);
        let previous_scope_depth = self.scope_depth;
        self.scope_depth = 1;
        let ghost pl = param_locals(tokens_view(params@));
        let mut i: usize = 0;
        assert(locals_view(self.locals@) =~= pl.take(0));
        while i < params.len()
            invariant
                pl == param_locals(tokens_view(params@)),
                i <= params@.len(),
                self.scope_depth == 1,
                locals_view(self.locals@) == pl.take(i as int),
                self.model() == (CompilerState { locals: pl.take(i as int), scope_depth: 1, ..st1 }),
            decreases params@.len() - i,
        {
            let ghost before = self.locals@;
            self.locals.push(Local { name: params[i].lexeme.clone(), depth: 1 });
            assert(locals_view(self.locals@) =~= pl.take(i + 1)) by {
                assert(locals_view(self.locals@) =~= locals_view(before).push((params@[i as int].lexeme@, 1nat)));
            }
            i += 1;
        }
        assert(pl.take(i as int) =~= pl);
        self.compile_block(body);
        self.emit_constant(Value::Boolean(false), line);
        self.emit_op(OperationCode::Return, line);
        std::mem::swap(&mut previous_locals, &mut self.locals);
        self.scope_depth = previous_scope_depth;
        self.patch_jump(jump_over);
        address
    }

    /// Stores the value on top of the stack in a new variable.
    fn bind_variable(&mut self, name: &Token)
        requires
            compiler_inv(old(self).model()),
        ensures
            final(self).model() == bind_variable(old(self).model(), name@),
            keeps(old(self).model(), final(self).model()),
    {
        if self.scope_depth > 0 {
            let ghost before = self.locals@;
            self.locals.push(Local { name: name.lexeme.clone(), depth: self.scope_depth });
            assert(locals_view(self.locals@) =~= locals_view(before).push((name.lexeme@, self.scope_depth as nat)));
        } else {
            let idx = self.identifier_constant(name.lexeme.clone());
            self.emit_op(OperationCode::SetGlobal(idx), name.line);
            self.emit_op(OperationCode::Pop, name.line);
        }
    }

    fn pop_block_locals(&mut self)
        requires
            compiler_inv(old(self).model()),
        ensures
            final(self).model() == pop_block_locals(old(self).model()),
            keeps(old(self).model(), final(self).model()),
    {
        let ghost st0 = self.model();
        while self.locals.len() > 0 && self.locals[self.locals.len() - 1].depth == self.scope_depth
            invariant
                keeps(st0, self.model()),
                pop_block_locals(st0) == pop_block_locals(self.model()),
            decreases self.locals@.len(),
        {
            let ghost st = self.model();
            self.emit_op(OperationCode::Pop, 0);
            self.locals.pop();
            assert(self.model() == emit(CompilerState { locals: st.locals.drop_last(), ..st }, OperationCode::Pop, 0)) by {
                assert(locals_view(self.locals@) =~= st.locals.drop_last());
            }
        }
    }

    fn emit_pops(&mut self, n: usize, line: usize)
        requires
            compiler_inv(old(self).model()),
        ensures
            final(self).model() == emit_pops(old(self).model(), n as nat, line as nat),
            keeps(old(self).model(), final(self).model()),
    {
        let ghost st0 = self.model();
        let mut k: usize = 0;
        while k < n
            invariant
                k <= n,
                keeps(st0, self.model()),
                emit_pops(st0, n as nat, line as nat) == emit_pops(self.model(), (n - k) as nat, line as nat),
            decreases n - k,
        {
            self.emit_op(OperationCode::Pop, line);
            k += 1;
        }
    }

    /// The number of locals a `break` or `continue` pops.
    fn loop_locals(&self) -> (r: usize)
        ensures
            r == loop_locals(self.model()),
    {
        let n = self.loop_local_counts.len();
        if n > 0 {
            let count = self.loop_local_counts[n - 1];
            if count <= self.locals.len() {
                return self.locals.len() - count;
            }
        }
        0
    }

    /// Records a jump in the innermost list of `continue` (or `break`) jumps.
    fn record_jump(&mut self, jump: usize, is_break: bool)
        requires
            compiler_inv(old(self).model()),
            jump < old(self).model().code.len(),
        ensures
            is_break ==> final(self).model() == (CompilerState {
                break_jumps: record_jump(old(self).model().break_jumps, jump as nat),
                ..old(self).model()
            }),
            !is_break ==> final(self).model() == (CompilerState {
                continue_jumps: record_jump(old(self).model().continue_jumps, jump as nat),
                ..old(self).model()
            }),
            keeps(old(self).model(), final(self).model()),
    {
        let ghost st = self.model();
        if is_break {
            if self.break_jumps.len() > 0 {
                let mut top = self.break_jumps.pop().unwrap();
                top.push(jump);
                self.break_jumps.push(top);
                assert(self.model().break_jumps =~= record_jump(st.break_jumps, jump as nat)) by {
                    assert(nats(top@) =~= st.break_jumps.last().push(jump as nat));
                }
            }
        } else {
            if self.continue_jumps.len() > 0 {
                let mut top = self.continue_jumps.pop().unwrap();
                top.push(jump);
                self.continue_jumps.push(top);
                assert(self.model().continue_jumps =~= record_jump(st.continue_jumps, jump as nat)) by {
                    assert(nats(top@) =~= st.continue_jumps.last().push(jump as nat));
                }
            }
        }
    }
}


impl Emitter {
    fn compile_while(&mut self, stmt: &Stmt)
        requires
            compiler_inv(old(self).model()),
            stmt is While,
        ensures
            final(self).model() == compile_while(old(self).model(), stmt@),
            keeps(old(self).model(), final(self).model()),
        decreases stmt, 0nat,
    {
        match stmt {
            Stmt::While { condition, body, increment } => {
                let ghost st = self.model();
                let loop_start = self.chunk.code.len();
                let local_count = self.locals.len();
                self.continue_jumps.push(Vec::new());
                self.break_jumps.push(Vec::new());
                self.loop_local_counts.push(local_count);
                proof {
                    assert(self.model() == (CompilerState {
                        continue_jumps: st.continue_jumps.push(seq![]),
                        break_jumps: st.break_jumps.push(seq![]),
                        loop_local_counts: st.loop_local_counts.push(st.locals.len()),
                        ..st
                    })) by {
                        assert(nats(self.continue_jumps@.last()@) =~= Seq::<nat>::empty());
                        assert(nats(self.break_jumps@.last()@) =~= Seq::<nat>::empty());
                        assert(jump_lists(self.continue_jumps@) =~= st.continue_jumps.push(seq![]));
                        assert(jump_lists(self.break_jumps@) =~= st.break_jumps.push(seq![]));
                        assert(nats(self.loop_local_counts@) =~= st.loop_local_counts.push(st.locals.len()));
                    }
                }
                self.compile_expr(condition);
                let exit_jump = self.emit_jump(OperationCode::JumpIfFalse(0));
                self.emit_op(OperationCode::Pop, 0);
                self.compile_stmt(body);
                let ghost st4 = self.model();
                let ghost old_continues = self.continue_jumps@;
                match self.continue_jumps.pop() {
                    Some(continues) => {
                        assert(jump_lists(self.continue_jumps@) =~= st4.continue_jumps.drop_last());
                        assert forall|k: int| 0 <= k < continues@.len() implies continues@[k] < self.model().code.len() by {
                            lemma_last_list(old_continues, k);
                            assert(st4.continue_jumps[st4.continue_jumps.len() - 1][k] == continues@[k] as nat);
                        }
                        proof {
                            lemma_jumps_fit_prefix(st4, self.model());
                        }
                        self.patch_all(&continues);
                    },
                    None => {},
                }
                match increment {
                    Some(inc) => {
                        self.compile_expr(inc);
                        self.emit_op(OperationCode::Pop, 0);
                    },
                    None => {},
                }
                self.emit_op(OperationCode::Jump(loop_start), 0);
                self.patch_jump(exit_jump);
                self.emit_op(OperationCode::Pop, 0);
                let ghost st7 = self.model();
                let ghost old_breaks = self.break_jumps@;
                match self.break_jumps.pop() {
                    Some(breaks) => {
                        assert(jump_lists(self.break_jumps@) =~= st7.break_jumps.drop_last());
                        assert forall|k: int| 0 <= k < breaks@.len() implies breaks@[k] < self.model().code.len() by {
                            lemma_last_list(old_breaks, k);
                            assert(st7.break_jumps[st7.break_jumps.len() - 1][k] == breaks@[k] as nat);
                        }
                        proof {
                            lemma_jumps_fit_prefix(st7, self.model());
                        }
                        self.patch_all(&breaks);
                    },
                    None => {},
                }
                let ghost st8 = self.model();
                if self.loop_local_counts.len() > 0 {
                    self.loop_local_counts.pop();
                    assert(nats(self.loop_local_counts@) =~= st8.loop_local_counts.drop_last());
                }
                proof {
                    lemma_jumps_fit_prefix(st8, self.model());
                    assert(self.model().scope_depth == st.scope_depth);
                    assert(self.model().code.len() >= st.code.len());
                }

            },
            _ => {},
        }
    }

    fn compile_stmt(&mut self, stmt: &Stmt)
        requires
            compiler_inv(old(self).model()),
        ensures
            final(self).model() == compile_stmt(old(self).model(), stmt@),
            keeps(old(self).model(), final(self).model()),
        decreases stmt, 1nat,
    {
        match stmt {
            Stmt::Expression(expr) => {
                self.compile_expr(expr);
                self.emit_op(OperationCode::Pop, 0);
            },
            Stmt::Print(expr) => {
                self.compile_expr(expr);
                self.emit_op(OperationCode::Print, 0);
            },
            Stmt::Block(statements) => {
                let ghost st = self.model();
                let depth = self.scope_depth;
                self.scope_depth = if depth < usize::MAX {
                    depth + 1
                } else {
                    depth
                };
                assert(self.model() == (CompilerState { scope_depth: deeper(st.scope_depth), ..st }));
                self.compile_block(statements);
                self.pop_block_locals();
                self.scope_depth = depth;
            },
            Stmt::Variable { name, initializer } => {
                self.compile_expr(initializer);
                self.bind_variable(name);
            },
            Stmt::Function { name, params, body } => {
                let address = self.compile_function(params, body, name.line);
                let f = Function { name: name.lexeme.clone(), address, arity: params.len() };
                self.emit_constant(Value::Function(Rc::new(f)), name.line);
                self.bind_variable(name);
            },
            Stmt::If { condition, then_branch, else_branch } => {
                self.compile_expr(condition);
                let if_jump = self.emit_jump(OperationCode::JumpIfFalse(0));
                self.emit_op(OperationCode::Pop, 0);
                self.compile_stmt(then_branch);
                let jump_over_else = self.emit_jump(OperationCode::Jump(0));
                self.patch_jump(if_jump);
                self.emit_op(OperationCode::Pop, 0);
                match else_branch {
                    Some(b) => self.compile_stmt(b),
                    None => {},
                }
                self.patch_jump(jump_over_else);
            },
            Stmt::While { .. } => self.compile_while(stmt),
            Stmt::Break { keyword } => {
                let n = self.loop_locals();
                self.emit_pops(n, keyword.line);
                let jump = self.emit_jump(OperationCode::Jump(0));
                self.record_jump(jump, true);
            },
            Stmt::Continue { keyword } => {
                let n = self.loop_locals();
                self.emit_pops(n, keyword.line);
                let jump = self.emit_jump(OperationCode::Jump(0));
                self.record_jump(jump, false);
            },
            Stmt::Return { keyword, value } => {
                match value {
                    Some(v) => self.compile_expr(v),
                    None => self.emit_constant(Value::Boolean(false), keyword.line),
                }
                self.emit_op(OperationCode::Return, keyword.line);
            },
        }
    }

    /// The instruction for a binary operator.
    fn binary_ops(&mut self, operator: &Token)
        requires
            compiler_inv(old(self).model()),
        ensures
            final(self).model() == binary_ops(old(self).model(), operator@),
            keeps(old(self).model(), final(self).model()),
    {
        let line = operator.line;
        match operator.kind {
            TokenType::Plus => self.emit_op(OperationCode::Add, line),
            TokenType::Minus => self.emit_op(OperationCode::Subtract, line),
            TokenType::Star => self.emit_op(OperationCode::Multiply, line),
            TokenType::Slash => self.emit_op(OperationCode::Divide, line),
            TokenType::Percent => self.emit_op(OperationCode::Modulo, line),
            TokenType::Equal => self.emit_op(OperationCode::Equal, line),
            TokenType::BangEqual => {
                self.emit_op(OperationCode::Equal, line);
                self.emit_op(OperationCode::Not, line);
            },
            TokenType::GreaterThan => self.emit_op(OperationCode::GreaterThan, line),
            TokenType::GreaterEqual => {
                self.emit_op(OperationCode::LessThan, line);
                self.emit_op(OperationCode::Not, line);
            },
            TokenType::LessThan => self.emit_op(OperationCode::LessThan, line),
            TokenType::LessEqual => {
                self.emit_op(OperationCode::GreaterThan, line);
                self.emit_op(OperationCode::Not, line);
            },
            _ => {},
        }
    }

    fn compile_expr(&mut self, expr: &Expr)
        requires
            compiler_inv(old(self).model()),
        ensures
            final(self).model() == compile_expr(old(self).model(), expr@),
            keeps(old(self).model(), final(self).model()),
        decreases expr, 0nat,
    {
        match expr {
            Expr::Integer(v) => self.emit_constant(Value::Integer(*v), 0),
            Expr::Float(t) => self.emit_constant(Value::Float(t.clone()), 0),
            Expr::String(t) => self.emit_constant(Value::String(Rc::new(t.clone())), 0),
            Expr::Boolean(b) => self.emit_constant(Value::Boolean(*b), 0),
            Expr::Null => self.emit_constant(Value::Null, 0),
            Expr::Function { params, body } => {
                let address = self.compile_function(params, body, 0);
                let f = Function { name: text("<pancen_teu_aya_nami>"), address, arity: params.len() };
                self.emit_constant(Value::Function(Rc::new(f)), 0);
            },
            Expr::Variable { name } => match self.resolve_local(&name.lexeme) {
                Some(i) => self.emit_op(OperationCode::GetLocal(i), name.line),
                None => {
                    let idx = self.identifier_constant(name.lexeme.clone());
                    self.emit_op(OperationCode::GetGlobal(idx), name.line);
                },
            },
            Expr::Assign { name, value } => {
                self.compile_expr(value);
                match self.resolve_local(&name.lexeme) {
                    Some(i) => self.emit_op(OperationCode::SetLocal(i), name.line),
                    None => {
                        let idx = self.identifier_constant(name.lexeme.clone());
                        self.emit_op(OperationCode::SetGlobal(idx), name.line);
                    },
                }
            },
            Expr::Unary { operator, right } => {
                self.compile_expr(right);
                match operator.kind {
                    TokenType::Minus => self.emit_op(OperationCode::Negate, operator.line),
                    TokenType::Bang => self.emit_op(OperationCode::Not, operator.line),
                    _ => {},
                }
            },
            Expr::Binary { left, operator, right } => {
                self.compile_expr(left);
                self.compile_expr(right);
                self.binary_ops(operator);
            },
            Expr::Logical { left, operator, right } => {
                self.compile_expr(left);
                match operator.kind {
                    TokenType::And => {
                        let end_jump = self.emit_jump(OperationCode::JumpIfFalse(0));
                        self.emit_op(OperationCode::Pop, operator.line);
                        self.compile_expr(right);
                        self.patch_jump(end_jump);
                    },
                    TokenType::Or => {
                        let else_jump = self.emit_jump(OperationCode::JumpIfFalse(0));
                        let end_jump = self.emit_jump(OperationCode::Jump(0));
                        self.patch_jump(else_jump);
                        self.emit_op(OperationCode::Pop, operator.line);
                        self.compile_expr(right);
                        self.patch_jump(end_jump);
                    },
                    _ => {},
                }
            },
            Expr::Call { callee, arguments, paren_line } => {
                self.compile_expr(callee);
                self.compile_exprs(arguments);
                self.emit_op(OperationCode::Call(arguments.len()), *paren_line);
            },
            Expr::Array { elements } => {
                self.compile_exprs(elements);
                self.emit_op(OperationCode::BuildArray(elements.len()), 0);
            },
            Expr::Index { array, index, bracket_line } => {
                self.compile_expr(array);
                self.compile_expr(index);
                self.emit_op(OperationCode::GetIndex, *bracket_line);
            },
            Expr::AssignIndex { array, index, value } => {
                self.compile_expr(array);
                self.compile_expr(index);
                self.compile_expr(value);
                self.emit_op(OperationCode::SetIndex, 0);
            },
            Expr::Object { properties } => {
                self.compile_props(properties);
                self.emit_op(OperationCode::BuildObject(properties.len()), 0);
            },
            Expr::GetProperty { object, name } => {
                self.compile_expr(object);
                let idx = self.identifier_constant(name.lexeme.clone());
                self.emit_op(OperationCode::GetProperty(idx), name.line);
            },
            Expr::SetProperty { object, name, value } => {
                self.compile_expr(object);
                self.compile_expr(value);
                let idx = self.identifier_constant(name.lexeme.clone());
                self.emit_op(OperationCode::SetProperty(idx), name.line);
            },
        }
    }
}

} // verus!
