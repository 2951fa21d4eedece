use vstd::prelude::*;

use crate::ast::{Expr, ExprV, Stmt, StmtV};
use crate::error::{text, ErrorView, ScriptError};
use crate::token::{tokens_view, Token, TokenView};

verus! {

// ---------------------------------------------------------------------------
// The checks as mathematics
// ---------------------------------------------------------------------------

/// What the analyzer knows while it walks a program: the names declared in each
/// enclosing block (innermost last) with whether their initializer has been read,
/// whether it is inside a function body, and whether it is inside a loop body.
pub struct AnalyzerState {
    pub scopes: Seq<Map<Seq<char>, bool>>,
    pub in_function: bool,
    pub in_loop: bool,
}

/// The result of checking a piece of a program: the state afterwards and the
/// first error found, if any.
pub type Checked = (AnalyzerState, Option<ErrorView>);

pub open spec fn semantic_error(tok: TokenView, message: Seq<char>) -> ErrorView {
    ErrorView::Semantic { line: tok.line, column: tok.column, message }
}

pub open spec fn with_scopes(st: AnalyzerState, scopes: Seq<Map<Seq<char>, bool>>) -> AnalyzerState {
    AnalyzerState { scopes, ..st }
}

pub open spec fn begin_scope(st: AnalyzerState) -> AnalyzerState {
    with_scopes(st, st.scopes.push(Map::empty()))
}

pub open spec fn end_scope(st: AnalyzerState) -> AnalyzerState {
    if st.scopes.len() == 0 {
        st
    } else {
        with_scopes(st, st.scopes.drop_last())
    }
}

/// Records `name` in the innermost block as not yet ready; outside any block names
/// are not tracked.
pub open spec fn declare(st: AnalyzerState, name: TokenView) -> Checked {
    if st.scopes.len() == 0 {
        (st, None)
    } else if st.scopes.last().dom().contains(name.lexeme) {
        (
            st,
            Some(
                semantic_error(
                    name,
                    "Variabel '"@ + name.lexeme + "' parantos didamel dina blok ieu."@,
                ),
            ),
        )
    } else {
        (with_scopes(st, st.scopes.update(st.scopes.len() - 1, st.scopes.last().insert(name.lexeme, false))), None)
    }
}

/// Marks `name` in the innermost block as ready.
pub open spec fn define(st: AnalyzerState, name: TokenView) -> AnalyzerState {
    if st.scopes.len() == 0 {
        st
    } else {
        with_scopes(st, st.scopes.update(st.scopes.len() - 1, st.scopes.last().insert(name.lexeme, true)))
    }
}

/// Reading `name` is refused when the innermost block that declares it has not
/// finished its initializer.
pub open spec fn resolve(scopes: Seq<Map<Seq<char>, bool>>, name: TokenView) -> Option<ErrorView>
    decreases scopes.len(),
{
    if scopes.len() == 0 {
        None
    } else if scopes.last().dom().contains(name.lexeme) {
        if !scopes.last()[name.lexeme] {
            Some(
                semantic_error(
                    name,
                    "Teu tiasa maca variabel '"@ + name.lexeme + "' dina inisialisasina nyalira."@,
                ),
            )
        } else {
            None
        }
    } else {
        resolve(scopes.drop_last(), name)
    }
}

pub open spec fn check_stmts(st: AnalyzerState, ss: Seq<StmtV>) -> Checked
    decreases ss, 0nat,
{
    if ss.len() == 0 {
        (st, None)
    } else {
        let (st1, e) = check_stmt(st, ss[0]);
        if e is Some {
            (st1, e)
        } else {
            check_stmts(st1, ss.drop_first())
        }
    }
}

pub open spec fn check_exprs(st: AnalyzerState, es: Seq<ExprV>) -> Checked
    decreases es, 0nat,
{
    if es.len() == 0 {
        (st, None)
    } else {
        let (st1, e) = check_expr(st, es[0]);
        if e is Some {
            (st1, e)
        } else {
            check_exprs(st1, es.drop_first())
        }
    }
}

pub open spec fn check_props(st: AnalyzerState, ps: Seq<(TokenView, ExprV)>) -> Checked
    decreases ps, 0nat,
{
    if ps.len() == 0 {
        (st, None)
    } else {
        proof {
            assert(decreases_to!(ps => ps[0]));
            assert(decreases_to!(ps[0] => ps[0].1));
        }
        let (st1, e) = check_expr(st, ps[0].1);
        if e is Some {
            (st1, e)
        } else {
            check_props(st1, ps.drop_first())
        }
    }
}

/// Declares and defines each parameter in turn.
pub open spec fn check_params(st: AnalyzerState, ps: Seq<TokenView>) -> Checked
    decreases ps.len(),
{
    if ps.len() == 0 {
        (st, None)
    } else {
        let (st1, e) = declare(st, ps[0]);
        if e is Some {
            (st1, e)
        } else {
            check_params(define(st1, ps[0]), ps.drop_first())
        }
    }
}

/// Checks a function body in a block of its own, where `return` is allowed and
/// `break` and `continue` are not, then restores the enclosing context.
pub open spec fn check_function(st: AnalyzerState, ps: Seq<TokenView>, body: Seq<StmtV>) -> Checked
    decreases body, 1nat,
{
    let inner = begin_scope(AnalyzerState { in_function: true, in_loop: false, ..st });
    let (st1, e1) = check_params(inner, ps);
    if e1 is Some {
        (st1, e1)
    } else {
        let (st2, e2) = check_stmts(st1, body);
        if e2 is Some {
            (st2, e2)
        } else {
            let st3 = end_scope(st2);
            (AnalyzerState { in_function: st.in_function, in_loop: st.in_loop, ..st3 }, None)
        }
    }
}

pub open spec fn check_stmt(st: AnalyzerState, s: StmtV) -> Checked
    decreases s, 0nat,
{
    match s {
        StmtV::Expression(e) => check_expr(st, e),
        StmtV::Print(e) => check_expr(st, e),
        StmtV::Block(ss) => {
            let (st1, e) = check_stmts(begin_scope(st), ss);
            if e is Some {
                (st1, e)
            } else {
                (end_scope(st1), None)
            }
        },
        StmtV::Variable { name, initializer } => {
            let (st1, e1) = declare(st, name);
            if e1 is Some {
                (st1, e1)
            } else {
                let (st2, e2) = check_expr(st1, initializer);
                if e2 is Some {
                    (st2, e2)
                } else {
                    (define(st2, name), None)
                }
            }
        },
        StmtV::Function { name, params, body } => {
            let (st1, e1) = declare(st, name);
            if e1 is Some {
                (st1, e1)
            } else {
                check_function(define(st1, name), params, body)
            }
        },
        StmtV::If { condition, then_branch, else_branch } => {
            let (st1, e1) = check_expr(st, condition);
            if e1 is Some {
                (st1, e1)
            } else {
                let (st2, e2) = check_stmt(st1, *then_branch);
                if e2 is Some {
                    (st2, e2)
                } else {
                    match else_branch {
                        Some(b) => check_stmt(st2, *b),
                        None => (st2, None),
                    }
                }
            }
        },
        StmtV::While { condition, body, increment } => {
            let (st1, e1) = check_expr(st, condition);
            if e1 is Some {
                (st1, e1)
            } else {
                let (st2, e2) = check_stmt(AnalyzerState { in_loop: true, ..st1 }, *body);
                if e2 is Some {
                    (st2, e2)
                } else {
                    let (st3, e3) = match increment {
                        Some(inc) => check_expr(st2, inc),
                        None => (st2, None),
                    };
                    if e3 is Some {
                        (st3, e3)
                    } else {
                        (AnalyzerState { in_loop: st1.in_loop, ..st3 }, None)
                    }
                }
            }
        },
        StmtV::Break { keyword } => if !st.in_loop {
            (st, Some(semantic_error(keyword, "Teu tiasa nganggo 'liren' di luar ngulang."@)))
        } else {
            (st, None)
        },
        StmtV::Continue { keyword } => if !st.in_loop {
            (st, Some(semantic_error(keyword, "Teu tiasa nganggo 'lajeungkeun' di luar ngulang."@)))
        } else {
            (st, None)
        },
        StmtV::Return { keyword, value } => if !st.in_function {
            (st, Some(semantic_error(keyword, "Teu tiasa nganggo 'wangsul' di luar pancen."@)))
        } else {
            match value {
                Some(v) => check_expr(st, v),
                None => (st, None),
            }
        },
    }
}

pub open spec fn check_expr(st: AnalyzerState, e: ExprV) -> Checked
    decreases e, 0nat,
{
    match e {
        ExprV::Integer(_) | ExprV::Float(_) | ExprV::Str(_) | ExprV::Boolean(_) | ExprV::Null => (st, None),
        ExprV::Function { params, body } => check_function(st, params, body),
        ExprV::Variable { name } => (st, resolve(st.scopes, name)),
        ExprV::Assign { name, value } => {
            let (st1, e1) = check_expr(st, *value);
            if e1 is Some {
                (st1, e1)
            } else {
                (st1, resolve(st1.scopes, name))
            }
        },
        ExprV::Unary { right, .. } => check_expr(st, *right),
        ExprV::Binary { left, right, .. } => {
            let (st1, e1) = check_expr(st, *left);
            if e1 is Some {
                (st1, e1)
            } else {
                check_expr(st1, *right)
            }
        },
        ExprV::Logical { left, right, .. } => {
            let (st1, e1) = check_expr(st, *left);
            if e1 is Some {
                (st1, e1)
            } else {
                check_expr(st1, *right)
            }
        },
        ExprV::Call { callee, arguments, .. } => {
            let (st1, e1) = check_expr(st, *callee);
            if e1 is Some {
                (st1, e1)
            } else {
                check_exprs(st1, arguments)
            }
        },
        ExprV::Array { elements } => check_exprs(st, elements),
        ExprV::Index { array, index, .. } => {
            let (st1, e1) = check_expr(st, *array);
            if e1 is Some {
                (st1, e1)
            } else {
                check_expr(st1, *index)
            }
        },
        ExprV::AssignIndex { array, index, value } => {
            let (st1, e1) = check_expr(st, *array);
            if e1 is Some {
                (st1, e1)
            } else {
                let (st2, e2) = check_expr(st1, *index);
                if e2 is Some {
                    (st2, e2)
                } else {
                    check_expr(st2, *value)
                }
            }
        },
        ExprV::Object { properties } => check_props(st, properties),
        ExprV::GetProperty { object, .. } => check_expr(st, *object),
        ExprV::SetProperty { object, value, .. } => {
            let (st1, e1) = check_expr(st, *object);
            if e1 is Some {
                (st1, e1)
            } else {
                check_expr(st1, *value)
            }
        },
    }
}

} // verus!

verus! {

// ---------------------------------------------------------------------------
// Blocks held as lists of entries
// ---------------------------------------------------------------------------

/// The names of a block and their readiness; a later entry for a name overrides
/// an earlier one.
pub open spec fn scope_map(v: Seq<(String, bool)>) -> Map<Seq<char>, bool>
    decreases v.len(),
{
    if v.len() == 0 {
        Map::empty()
    } else {
        scope_map(v.drop_last()).insert(v.last().0@, v.last().1)
    }
}

/// No entry after `i` is for the same name as entry `i`.
pub open spec fn last_entry(v: Seq<(String, bool)>, i: int) -> bool {
    &&& 0 <= i < v.len()
    &&& forall|m: int| i < m < v.len() ==> (#[trigger] v[m]).0@ != v[i].0@
}

proof fn lemma_scope_absent(v: Seq<(String, bool)>, k: Seq<char>)
    requires
        forall|m: int| 0 <= m < v.len() ==> (#[trigger] v[m]).0@ != k,
    ensures
        !scope_map(v).dom().contains(k),
    decreases v.len(),
{
    if v.len() > 0 {
        lemma_scope_absent(v.drop_last(), k);
    }
}

proof fn lemma_scope_entry(v: Seq<(String, bool)>, i: int)
    requires
        last_entry(v, i),
    ensures
        scope_map(v).dom().contains(v[i].0@),
        scope_map(v)[v[i].0@] == v[i].1,
    decreases v.len(),
{
    if i < v.len() - 1 {
        lemma_scope_entry(v.drop_last(), i);
    }
}

proof fn lemma_scope_update(v: Seq<(String, bool)>, i: int, b: bool)
    requires
        last_entry(v, i),
    ensures
        scope_map(v.update(i, (v[i].0, b))) == scope_map(v).insert(v[i].0@, b),
    decreases v.len(),
{
    let w = v.update(i, (v[i].0, b));
    if i == v.len() - 1 {
        assert(w.drop_last() =~= v.drop_last());
        assert(scope_map(w) =~= scope_map(v).insert(v[i].0@, b));
    } else {
        lemma_scope_update(v.drop_last(), i, b);
        assert(w.drop_last() =~= v.drop_last().update(i, (v[i].0, b)));
        assert(scope_map(w) =~= scope_map(v).insert(v[i].0@, b));
    }
}

/// The last entry of `scope` for `name`, if there is one.
fn find_last(scope: &Vec<(String, bool)>, name: &String) -> (r: Option<usize>)
    ensures
        match r {
            Some(i) => last_entry(scope@, i as int) && scope@[i as int].0@ == name@,
            None => forall|m: int| 0 <= m < scope@.len() ==> (#[trigger] scope@[m]).0@ != name@,
        },
{
    let mut j = scope.len();
    while j > 0
        invariant
            j <= scope@.len(),
            forall|m: int| j <= m < scope@.len() ==> (#[trigger] scope@[m]).0@ != name@,
        decreases j,
    {
        if scope[j - 1].0 == *name {
            return Some(j - 1);
        }
        j -= 1;
    }
    None
}

// ---------------------------------------------------------------------------
// The analyzer
// ---------------------------------------------------------------------------

/// Checks the scoping rules of a program before it is compiled: a variable is not
/// declared twice in one block nor read in its own initializer, `break` and
/// `continue` stand inside loops, and `return` inside functions.
pub struct Analyzer {
    scopes: Vec<Vec<(String, bool)>>,
    in_function: bool,
    in_loop: bool,
}

pub open spec fn err_opt(r: Result<(), ScriptError>) -> Option<ErrorView> {
    match r {
        Ok(()) => None,
        Err(e) => Some(e@),
    }
}

impl Analyzer {
    /// What this analyzer knows.
    pub closed spec fn state(&self) -> AnalyzerState {
        AnalyzerState {
            scopes: Seq::new(self.scopes@.len(), |i: int| scope_map(self.scopes@[i]@)),
            in_function: self.in_function,
            in_loop: self.in_loop,
        }
    }

    pub fn new() -> (r: Self)
        ensures
            r.state() == (AnalyzerState { scopes: seq![], in_function: false, in_loop: false }),
    {
        let r = Analyzer { scopes: Vec::new(), in_function: false, in_loop: false };
        assert(r.state().scopes =~= Seq::<Map<Seq<char>, bool>>::empty());
        r
    }

    /// Checks the statements of a program in order, stopping at the first error.
    pub fn analyze(&mut self, statements: &[Stmt]) -> (r: Result<(), ScriptError>)
        ensures
            (final(self).state(), err_opt(r)) == check_stmts(old(self).state(), crate::ast::stmts_model(statements@)),
    {
        let ghost ss = crate::ast::stmts_model(statements@);
        let ghost st0 = self.state();
        let mut i: usize = 0;
        assert(ss.skip(0) =~= ss);
        while i < statements.len()
            invariant
                ss == crate::ast::stmts_model(statements@),
                st0 == old(self).state(),
                i <= statements@.len(),
                check_stmts(st0, ss) == check_stmts(self.state(), ss.skip(i as int)),
            decreases statements@.len() - i,
        {
            let ghost before = self.state();
            let r = self.analyze_stmt(&statements[i]);
            assert(ss.skip(i as int)[0] == statements@[i as int]@);
            assert(ss.skip(i as int).drop_first() =~= ss.skip(i + 1));
            if r.is_err() {
                return r;
            }
            i += 1;
        }
        assert(ss.skip(i as int) =~= Seq::<StmtV>::empty());
        Ok(())
    }

    fn analyze_block(&mut self, statements: &Vec<Stmt>) -> (r: Result<(), ScriptError>)
        ensures
            (final(self).state(), err_opt(r)) == check_stmts(old(self).state(), crate::ast::stmts_model(statements@)),
        decreases statements, 0nat,
    {
        let ghost ss = crate::ast::stmts_model(statements@);
        let ghost st0 = self.state();
        let mut i: usize = 0;
        assert(ss.skip(0) =~= ss);
        while i < statements.len()
            invariant
                ss == crate::ast::stmts_model(statements@),
                st0 == old(self).state(),
                i <= statements@.len(),
                check_stmts(st0, ss) == check_stmts(self.state(), ss.skip(i as int)),
            decreases statements@.len() - i,
        {
            let r = self.analyze_stmt(&statements[i]);
            assert(ss.skip(i as int)[0] == statements@[i as int]@);
            assert(ss.skip(i as int).drop_first() =~= ss.skip(i + 1));
            if r.is_err() {
                return r;
            }
            i += 1;
        }
        assert(ss.skip(i as int) =~= Seq::<StmtV>::empty());
        Ok(())
    }

    pub fn begin_scope(&mut self)
        ensures
            final(self).state() == begin_scope(old(self).state()),
    {
        self.scopes.push(Vec::new());
        assert(scope_map(Seq::<(String, bool)>::empty()) == Map::<Seq<char>, bool>::empty());
        assert(self.state().scopes =~= old(self).state().scopes.push(Map::empty()));
    }

    pub fn end_scope(&mut self)
        ensures
            final(self).state() == end_scope(old(self).state()),
    {
        if self.scopes.len() > 0 {
            self.scopes.pop();
            assert(self.state().scopes =~= old(self).state().scopes.drop_last());
        } else {
            assert(self.state() == old(self).state());
        }
    }

    /// Sets the readiness of `name` in the innermost block.
    fn mark(&mut self, name: &Token, ready: bool)
        requires
            old(self).scopes@.len() > 0,
        ensures
            final(self).state() == with_scopes(
                old(self).state(),
                old(self).state().scopes.update(
                    old(self).state().scopes.len() - 1,
                    old(self).state().scopes.last().insert(name.lexeme@, ready),
                ),
            ),
    {
        let ghost st = self.state();
        let mut top = self.scopes.pop().unwrap();
        let ghost old_top = top@;
        match find_last(&top, &name.lexeme) {
            Some(i) => {
                let entry = (top[i].0.clone(), ready);
                top.set(i, entry);
                proof {
                    lemma_scope_update(old_top, i as int, ready);
                    assert(top@ == old_top.update(i as int, (old_top[i as int].0, ready)));
                }
            },
            None => {
                top.push((name.lexeme.clone(), ready));
                assert(top@.drop_last() =~= old_top);
            },
        }
        self.scopes.push(top);
        assert(self.state().scopes =~= st.scopes.update(st.scopes.len() - 1, st.scopes.last().insert(name.lexeme@, ready)));
    }

    fn declare(&mut self, name: &Token) -> (r: Result<(), ScriptError>)
        ensures
            (final(self).state(), err_opt(r)) == declare(old(self).state(), name@),
    {
        let n = self.scopes.len();
        if n == 0 {
            return Ok(());
        }
        match find_last(&self.scopes[n - 1], &name.lexeme) {
            Some(i) => {
                proof {
                    lemma_scope_entry(self.scopes@[n - 1]@, i as int);
                }
                let mut m = text("Variabel '");
                m.append(name.lexeme.as_str());
                m.append("' parantos didamel dina blok ieu.");
                Err(self.error(name, m))
            },
            None => {
                proof {
                    lemma_scope_absent(self.scopes@[n - 1]@, name.lexeme@);
                }
                self.mark(name, false);
                Ok(())
            },
        }
    }

    fn define(&mut self, name: &Token)
        ensures
            final(self).state() == define(old(self).state(), name@),
    {
        if self.scopes.len() > 0 {
            self.mark(name, true);
        }
    }

    fn resolve_local(&self, name: &Token) -> (r: Result<(), ScriptError>)
        ensures
            err_opt(r) == resolve(self.state().scopes, name@),
    {
        let ghost all = self.state().scopes;
        let mut j = self.scopes.len();
        assert(all.subrange(0, j as int) =~= all);
        while j > 0
            invariant
                j <= self.scopes@.len(),
                all == self.state().scopes,
                resolve(all, name@) == resolve(all.subrange(0, j as int), name@),
            decreases j,
        {
            let ghost sub = all.subrange(0, j as int);
            assert(sub.last() == scope_map(self.scopes@[j - 1]@));
            assert(sub.drop_last() =~= all.subrange(0, j - 1));
            match find_last(&self.scopes[j - 1], &name.lexeme) {
                Some(i) => {
                    proof {
                        lemma_scope_entry(self.scopes@[j - 1]@, i as int);
                    }
                    if !self.scopes[j - 1][i].1 {
                        let mut m = text("Teu tiasa maca variabel '");
                        m.append(name.lexeme.as_str());
                        m.append("' dina inisialisasina nyalira.");
                        return Err(self.error(name, m));
                    }
                    return Ok(());
                },
                None => {
                    proof {
                        lemma_scope_absent(self.scopes@[j - 1]@, name.lexeme@);
                    }
                },
            }
            j -= 1;
        }
        Ok(())
    }

    fn error(&self, token: &Token, message: String) -> (r: ScriptError)
        ensures
            r@ == semantic_error(token@, message@),
    {
        ScriptError::SemanticError { line: token.line, column: token.column, message }
    }
}


impl Analyzer {
    fn analyze_stmt(&mut self, stmt: &Stmt) -> (r: Result<(), ScriptError>)
        ensures
            (final(self).state(), err_opt(r)) == check_stmt(old(self).state(), stmt@),
        decreases stmt, 0nat,
    {
        match stmt {
            Stmt::Expression(expr) => self.analyze_expr(expr),
            Stmt::Print(expr) => self.analyze_expr(expr),
            Stmt::Block(statements) => {
                self.begin_scope();
                let r = self.analyze_block(statements);
                if r.is_err() {
                    return r;
                }
                self.end_scope();
                Ok(())
            },
            Stmt::Variable { name, initializer } => {
                let r = self.declare(name);
                if r.is_err() {
                    return r;
                }
                let r = self.analyze_expr(initializer);
                if r.is_err() {
                    return r;
                }
                self.define(name);
                Ok(())
            },
            Stmt::Function { name, params, body } => {
                let r = self.declare(name);
                if r.is_err() {
                    return r;
                }
                self.define(name);
                self.analyze_function(params, body)
            },
            Stmt::If { condition, then_branch, else_branch } => {
                let r = self.analyze_expr(condition);
                if r.is_err() {
                    return r;
                }
                let r = self.analyze_stmt(then_branch);
                if r.is_err() {
                    return r;
                }
                match else_branch {
                    Some(b) => self.analyze_stmt(b),
                    None => Ok(()),
                }
            },
            Stmt::While { condition, body, increment } => {
                let r = self.analyze_expr(condition);
                if r.is_err() {
                    return r;
                }
                let enclosing_loop = self.in_loop;
                self.in_loop = true;
                let r = self.analyze_stmt(body);
                if r.is_err() {
                    return r;
                }
                match increment {
                    Some(inc) => {
                        let r = self.analyze_expr(inc);
                        if r.is_err() {
                            return r;
                        }
                    },
                    None => {},
                }
                self.in_loop = enclosing_loop;
                Ok(())
            },
            Stmt::Break { keyword } => {
                if !self.in_loop {
                    return Err(self.error(keyword, text("Teu tiasa nganggo 'liren' di luar ngulang.")));
                }
                Ok(())
            },
            Stmt::Continue { keyword } => {
                if !self.in_loop {
                    return Err(self.error(keyword, text("Teu tiasa nganggo 'lajeungkeun' di luar ngulang.")));
                }
                Ok(())
            },
            Stmt::Return { keyword, value } => {
                if !self.in_function {
                    return Err(self.error(keyword, text("Teu tiasa nganggo 'wangsul' di luar pancen.")));
                }
                match value {
                    Some(v) => self.analyze_expr(v),
                    None => Ok(()),
                }
            },
        }
    }

    fn analyze_exprs(&mut self, exprs: &Vec<Expr>) -> (r: Result<(), ScriptError>)
        ensures
            (final(self).state(), err_opt(r)) == check_exprs(old(self).state(), crate::ast::exprs_model(exprs@)),
        decreases exprs, 0nat,
    {
        let ghost es = crate::ast::exprs_model(exprs@);
        let ghost st0 = self.state();
        let mut i: usize = 0;
        assert(es.skip(0) =~= es);
        while i < exprs.len()
            invariant
                es == crate::ast::exprs_model(exprs@),
                st0 == old(self).state(),
                i <= exprs@.len(),
                check_exprs(st0, es) == check_exprs(self.state(), es.skip(i as int)),
            decreases exprs@.len() - i,
        {
            let r = self.analyze_expr(&exprs[i]);
            assert(es.skip(i as int)[0] == exprs@[i as int]@);
            assert(es.skip(i as int).drop_first() =~= es.skip(i + 1));
            if r.is_err() {
                return r;
            }
            i += 1;
        }
        assert(es.skip(i as int) =~= Seq::<ExprV>::empty());
        Ok(())
    }

    fn analyze_props(&mut self, props: &Vec<(Token, Expr)>) -> (r: Result<(), ScriptError>)
        ensures
            (final(self).state(), err_opt(r)) == check_props(old(self).state(), crate::ast::props_model(props@)),
        decreases props, 0nat,
    {
        let ghost ps = crate::ast::props_model(props@);
        let ghost st0 = self.state();
        let mut i: usize = 0;
        assert(ps.skip(0) =~= ps);
        while i < props.len()
            invariant
                ps == crate::ast::props_model(props@),
                st0 == old(self).state(),
                i <= props@.len(),
                check_props(st0, ps) == check_props(self.state(), ps.skip(i as int)),
            decreases props@.len() - i,
        {
            proof {
                assert(decreases_to!(props => props@[i as int]));
                assert(decreases_to!(props@[i as int] => props@[i as int].1));
            }
            let r = self.analyze_expr(&props[i].1);
            assert(ps.skip(i as int)[0].1 == props@[i as int].1@);
            assert(ps.skip(i as int).drop_first() =~= ps.skip(i + 1));
            if r.is_err() {
                return r;
            }
            i += 1;
        }
        assert(ps.skip(i as int) =~= Seq::<(TokenView, ExprV)>::empty());
        Ok(())
    }

    fn analyze_function(&mut self, params: &Vec<Token>, body: &Vec<Stmt>) -> (r: Result<(), ScriptError>)
        ensures
            (final(self).state(), err_opt(r)) == check_function(
                old(self).state(),
                tokens_view(params@),
                crate::ast::stmts_model(body@),
            ),
        decreases body, 1nat,
    {
        let enclosing_function = self.in_function;
        let enclosing_loop = self.in_loop;
        self.in_function = true;
        self.in_loop = false;
        self.begin_scope();
        let ghost ps = tokens_view(params@);
        let ghost inner = self.state();
        assert(inner == begin_scope(AnalyzerState { in_function: true, in_loop: false, ..old(self).state() }));
        let mut i: usize = 0;
        assert(ps.skip(0) =~= ps);
        while i < params.len()
            invariant
                ps == tokens_view(params@),
                i <= params@.len(),
                inner == begin_scope(AnalyzerState { in_function: true, in_loop: false, ..old(self).state() }),
                enclosing_function == old(self).state().in_function,
                enclosing_loop == old(self).state().in_loop,
                check_params(inner, ps) == check_params(self.state(), ps.skip(i as int)),
            decreases params@.len() - i,
        {
            assert(ps.skip(i as int)[0] == params@[i as int]@);
            assert(ps.skip(i as int).drop_first() =~= ps.skip(i + 1));
            let r = self.declare(&params[i]);
            if r.is_err() {
                return r;
            }
            self.define(&params[i]);
            i += 1;
        }
        assert(ps.skip(i as int) =~= Seq::<TokenView>::empty());
        let r = self.analyze_block(body);
        if r.is_err() {
            return r;
        }
        self.end_scope();
        self.in_function = enclosing_function;
        self.in_loop = enclosing_loop;
        Ok(())
    }

    fn analyze_expr(&mut self, expr: &Expr) -> (r: Result<(), ScriptError>)
        ensures
            (final(self).state(), err_opt(r)) == check_expr(old(self).state(), expr@),
        decreases expr, 0nat,
    {
        match expr {
            Expr::Integer(_) | Expr::Float(_) | Expr::String(_) | Expr::Boolean(_) | Expr::Null => Ok(()),
            Expr::Function { params, body } => self.analyze_function(params, body),
            Expr::Variable { name } => self.resolve_local(name),
            Expr::Assign { name, value } => {
                let r = self.analyze_expr(value);
                if r.is_err() {
                    return r;
                }
                self.resolve_local(name)
            },
            Expr::Unary { right, .. } => self.analyze_expr(right),
            Expr::Binary { left, right, .. } => {
                let r = self.analyze_expr(left);
                if r.is_err() {
                    return r;
                }
                self.analyze_expr(right)
            },
            Expr::Logical { left, right, .. } => {
                let r = self.analyze_expr(left);
                if r.is_err() {
                    return r;
                }
                self.analyze_expr(right)
            },
            Expr::Call { callee, arguments, .. } => {
                let r = self.analyze_expr(callee);
                if r.is_err() {
                    return r;
                }
                self.analyze_exprs(arguments)
            },
            Expr::Array { elements } => self.analyze_exprs(elements),
            Expr::Index { array, index, .. } => {
                let r = self.analyze_expr(array);
                if r.is_err() {
                    return r;
                }
                self.analyze_expr(index)
            },
            Expr::AssignIndex { array, index, value } => {
                let r = self.analyze_expr(array);
                if r.is_err() {
                    return r;
                }
                let r = self.analyze_expr(index);
                if r.is_err() {
                    return r;
                }
                self.analyze_expr(value)
            },
            Expr::Object { properties } => self.analyze_props(properties),
            Expr::GetProperty { object, .. } => self.analyze_expr(object),
            Expr::SetProperty { object, value, .. } => {
                let r = self.analyze_expr(object);
                if r.is_err() {
                    return r;
                }
                self.analyze_expr(value)
            },
        }
    }
}

} // verus!

verus! {

// ---------------------------------------------------------------------------
// What a successful check leaves unchanged
// ---------------------------------------------------------------------------

/// `b` has the context of `a`: the same function and loop flags, as many blocks,
/// and the same blocks but for the innermost one.
pub open spec fn same_frame(a: AnalyzerState, b: AnalyzerState) -> bool {
    &&& a.in_function == b.in_function
    &&& a.in_loop == b.in_loop
    &&& a.scopes.len() == b.scopes.len()
    &&& a.scopes.drop_last() == b.scopes.drop_last()
}

proof fn lemma_declare_frame(st: AnalyzerState, name: TokenView)
    ensures
        declare(st, name).1 is None ==> same_frame(st, declare(st, name).0),
{
    if st.scopes.len() > 0 {
        let s2 = st.scopes.update(st.scopes.len() - 1, st.scopes.last().insert(name.lexeme, false));
        assert(s2.drop_last() =~= st.scopes.drop_last());
    }
}

proof fn lemma_define_frame(st: AnalyzerState, name: TokenView)
    ensures
        same_frame(st, define(st, name)),
{
    if st.scopes.len() > 0 {
        let s2 = st.scopes.update(st.scopes.len() - 1, st.scopes.last().insert(name.lexeme, true));
        assert(s2.drop_last() =~= st.scopes.drop_last());
    }
}

proof fn lemma_params_frame(st: AnalyzerState, ps: Seq<TokenView>)
    ensures
        check_params(st, ps).1 is None ==> same_frame(st, check_params(st, ps).0),
    decreases ps.len(),
{
    if ps.len() > 0 {
        lemma_declare_frame(st, ps[0]);
        let (st1, e) = declare(st, ps[0]);
        if e is None {
            lemma_define_frame(st1, ps[0]);
            lemma_params_frame(define(st1, ps[0]), ps.drop_first());
        }
    }
}

proof fn lemma_block_restores(st: AnalyzerState, inner: AnalyzerState)
    requires
        same_frame(begin_scope(st), inner),
    ensures
        end_scope(inner).scopes == st.scopes,
{
    assert(begin_scope(st).scopes.drop_last() =~= st.scopes);
}

proof fn lemma_stmts_frame(st: AnalyzerState, ss: Seq<StmtV>)
    ensures
        check_stmts(st, ss).1 is None ==> same_frame(st, check_stmts(st, ss).0),
    decreases ss, 0nat,
{
    if ss.len() > 0 {
        lemma_stmt_frame(st, ss[0]);
        let (st1, e) = check_stmt(st, ss[0]);
        if e is None {
            lemma_stmts_frame(st1, ss.drop_first());
        }
    }
}

proof fn lemma_exprs_frame(st: AnalyzerState, es: Seq<ExprV>)
    ensures
        check_exprs(st, es).1 is None ==> same_frame(st, check_exprs(st, es).0),
    decreases es, 0nat,
{
    if es.len() > 0 {
        lemma_expr_frame(st, es[0]);
        let (st1, e) = check_expr(st, es[0]);
        if e is None {
            lemma_exprs_frame(st1, es.drop_first());
        }
    }
}

proof fn lemma_props_frame(st: AnalyzerState, ps: Seq<(TokenView, ExprV)>)
    ensures
        check_props(st, ps).1 is None ==> same_frame(st, check_props(st, ps).0),
    decreases ps, 0nat,
{
    if ps.len() > 0 {
        assert(decreases_to!(ps => ps[0]));
        assert(decreases_to!(ps[0] => ps[0].1));
        lemma_expr_frame(st, ps[0].1);
        let (st1, e) = check_expr(st, ps[0].1);
        if e is None {
            lemma_props_frame(st1, ps.drop_first());
        }
    }
}

proof fn lemma_function_frame(st: AnalyzerState, ps: Seq<TokenView>, body: Seq<StmtV>)
    ensures
        check_function(st, ps, body).1 is None ==> check_function(st, ps, body).0 == st,
    decreases body, 1nat,
{
    let entered = AnalyzerState { in_function: true, in_loop: false, ..st };
    let inner = begin_scope(entered);
    lemma_params_frame(inner, ps);
    let (st1, e1) = check_params(inner, ps);
    if e1 is None {
        lemma_stmts_frame(st1, body);
        let (st2, e2) = check_stmts(st1, body);
        if e2 is None {
            lemma_block_restores(entered, st2);
        }
    }
}

proof fn lemma_stmt_frame(st: AnalyzerState, s: StmtV)
    ensures
        check_stmt(st, s).1 is None ==> same_frame(st, check_stmt(st, s).0),
    decreases s, 0nat,
{
    match s {
        StmtV::Expression(e) => lemma_expr_frame(st, e),
        StmtV::Print(e) => lemma_expr_frame(st, e),
        StmtV::Block(ss) => {
            lemma_stmts_frame(begin_scope(st), ss);
            let (st1, e) = check_stmts(begin_scope(st), ss);
            if e is None {
                lemma_block_restores(st, st1);
            }
        },
        StmtV::Variable { name, initializer } => {
            lemma_declare_frame(st, name);
            let (st1, e1) = declare(st, name);
            if e1 is None {
                lemma_expr_frame(st1, initializer);
                let (st2, e2) = check_expr(st1, initializer);
                if e2 is None {
                    lemma_define_frame(st2, name);
                }
            }
        },
        StmtV::Function { name, params, body } => {
            lemma_declare_frame(st, name);
            let (st1, e1) = declare(st, name);
            if e1 is None {
                lemma_define_frame(st1, name);
                lemma_function_frame(define(st1, name), params, body);
            }
        },
        StmtV::If { condition, then_branch, else_branch } => {
            lemma_expr_frame(st, condition);
            let (st1, e1) = check_expr(st, condition);
            if e1 is None {
                lemma_stmt_frame(st1, *then_branch);
                let (st2, e2) = check_stmt(st1, *then_branch);
                if e2 is None {
                    match else_branch {
                        Some(b) => lemma_stmt_frame(st2, *b),
                        None => {},
                    }
                }
            }
        },
        StmtV::While { condition, body, increment } => {
            lemma_expr_frame(st, condition);
            let (st1, e1) = check_expr(st, condition);
            if e1 is None {
                let looping = AnalyzerState { in_loop: true, ..st1 };
                lemma_stmt_frame(looping, *body);
                let (st2, e2) = check_stmt(looping, *body);
                if e2 is None {
                    match increment {
                        Some(inc) => lemma_expr_frame(st2, inc),
                        None => {},
                    }
                }
            }
        },
        StmtV::Break { .. } => {},
        StmtV::Continue { .. } => {},
        StmtV::Return { value, .. } => match value {
            Some(v) => lemma_expr_frame(st, v),
            None => {},
        },
    }
}

proof fn lemma_expr_frame(st: AnalyzerState, e: ExprV)
    ensures
        check_expr(st, e).1 is None ==> same_frame(st, check_expr(st, e).0),
    decreases e, 0nat,
{
    match e {
        ExprV::Function { params, body } => lemma_function_frame(st, params, body),
        ExprV::Assign { value, .. } => lemma_expr_frame(st, *value),
        ExprV::Unary { right, .. } => lemma_expr_frame(st, *right),
        ExprV::Binary { left, right, .. } => {
            lemma_expr_frame(st, *left);
            let (st1, e1) = check_expr(st, *left);
            if e1 is None {
                lemma_expr_frame(st1, *right);
            }
        },
        ExprV::Logical { left, right, .. } => {
            lemma_expr_frame(st, *left);
            let (st1, e1) = check_expr(st, *left);
            if e1 is None {
                lemma_expr_frame(st1, *right);
            }
        },
        ExprV::Call { callee, arguments, .. } => {
            lemma_expr_frame(st, *callee);
            let (st1, e1) = check_expr(st, *callee);
            if e1 is None {
                lemma_exprs_frame(st1, arguments);
            }
        },
        ExprV::Array { elements } => lemma_exprs_frame(st, elements),
        ExprV::Index { array, index, .. } => {
            lemma_expr_frame(st, *array);
            let (st1, e1) = check_expr(st, *array);
            if e1 is None {
                lemma_expr_frame(st1, *index);
            }
        },
        ExprV::AssignIndex { array, index, value } => {
            lemma_expr_frame(st, *array);
            let (st1, e1) = check_expr(st, *array);
            if e1 is None {
                lemma_expr_frame(st1, *index);
                let (st2, e2) = check_expr(st1, *index);
                if e2 is None {
                    lemma_expr_frame(st2, *value);
                }
            }
        },
        ExprV::Object { properties } => lemma_props_frame(st, properties),
        ExprV::GetProperty { object, .. } => lemma_expr_frame(st, *object),
        ExprV::SetProperty { object, value, .. } => {
            lemma_expr_frame(st, *object);
            let (st1, e1) = check_expr(st, *object);
            if e1 is None {
                lemma_expr_frame(st1, *value);
            }
        },
        _ => {},
    }
}

/// Checking a program from the state of a new analyzer, when it finds no error,
/// leaves that state as it was: every block, function and loop that the program
/// opens is closed again, and names outside any block are not recorded. So one
/// analyzer can check several programs in turn, each as if it were the first.
pub proof fn lemma_accepted_program_leaves_analyzer_fresh(ss: Seq<StmtV>)
    ensures
        ({
            let fresh = AnalyzerState { scopes: seq![], in_function: false, in_loop: false };
            check_stmts(fresh, ss).1 is None ==> check_stmts(fresh, ss).0 == fresh
        }),
{
    let fresh = AnalyzerState { scopes: seq![], in_function: false, in_loop: false };
    lemma_stmts_frame(fresh, ss);
    if check_stmts(fresh, ss).1 is None {
        assert(check_stmts(fresh, ss).0.scopes =~= fresh.scopes);
    }
}

/// Both branches of a conditional are checked: once the condition and the
/// `then` branch pass, checking the conditional is checking the `else` branch
/// in the state the `then` branch left, so every error of the `else` branch is
/// reported.
pub proof fn lemma_else_branch_is_checked(st: AnalyzerState, condition: ExprV, then_branch: StmtV, else_branch: StmtV)
    ensures
        ({
            let (st1, e1) = check_expr(st, condition);
            let (st2, e2) = check_stmt(st1, then_branch);
            e1 is None && e2 is None ==> check_stmt(
                st,
                StmtV::If {
                    condition,
                    then_branch: Box::new(then_branch),
                    else_branch: Some(Box::new(else_branch)),
                },
            ) == check_stmt(st2, else_branch)
        }),
{
}

/// A `liren` outside any loop is refused wherever it stands in a conditional:
/// as the `then` branch, or as the `else` branch after a `then` branch and a
/// condition that pass; the error points at the keyword.
pub proof fn lemma_break_outside_loop_in_a_branch(st: AnalyzerState, condition: ExprV, other: StmtV, keyword: TokenView)
    requires
        !st.in_loop,
    ensures
        ({
            let refused = Some(
                ErrorView::Semantic {
                    line: keyword.line,
                    column: keyword.column,
                    message: "Teu tiasa nganggo 'liren' di luar ngulang."@,
                },
            );
            let (st1, e1) = check_expr(st, condition);
            let (st2, e2) = check_stmt(st1, other);
            &&& e1 is None ==> check_stmt(
                st,
                StmtV::If {
                    condition,
                    then_branch: Box::new(StmtV::Break { keyword }),
                    else_branch: Some(Box::new(other)),
                },
            ).1 == refused
            &&& e1 is None && e2 is None ==> check_stmt(
                st,
                StmtV::If {
                    condition,
                    then_branch: Box::new(other),
                    else_branch: Some(Box::new(StmtV::Break { keyword })),
                },
            ).1 == refused
        }),
{
    lemma_expr_frame(st, condition);
    let (st1, e1) = check_expr(st, condition);
    lemma_stmt_frame(st1, other);
    let (st2, e2) = check_stmt(st1, other);
    let brk = StmtV::Break { keyword };
    if e1 is None {
        assert(!st1.in_loop);
        assert(check_stmt(st1, brk).1 == Some(
            semantic_error(keyword, "Teu tiasa nganggo 'liren' di luar ngulang."@),
        ));
        if e2 is None {
            assert(!st2.in_loop);
            assert(check_stmt(st2, brk).1 == Some(
                semantic_error(keyword, "Teu tiasa nganggo 'liren' di luar ngulang."@),
            ));
        }
    }
}

/// `liren` and `lajeungkeun` directly in a loop body are accepted; outside any
/// loop they are refused with an error at the keyword; `wangsul` outside any
/// function is refused likewise.
pub proof fn lemma_jump_statements_placement(st: AnalyzerState, condition: ExprV, keyword: TokenView, value: Option<ExprV>)
    ensures
        check_expr(st, condition).1 is None ==> check_stmt(
            st,
            StmtV::While { condition, body: Box::new(StmtV::Break { keyword }), increment: None },
        ).1 is None,
        check_expr(st, condition).1 is None ==> check_stmt(
            st,
            StmtV::While { condition, body: Box::new(StmtV::Continue { keyword }), increment: None },
        ).1 is None,
        !st.in_loop ==> check_stmt(st, StmtV::Break { keyword }).1 == Some(
            ErrorView::Semantic {
                line: keyword.line,
                column: keyword.column,
                message: "Teu tiasa nganggo 'liren' di luar ngulang."@,
            },
        ),
        !st.in_loop ==> check_stmt(st, StmtV::Continue { keyword }).1 == Some(
            ErrorView::Semantic {
                line: keyword.line,
                column: keyword.column,
                message: "Teu tiasa nganggo 'lajeungkeun' di luar ngulang."@,
            },
        ),
        !st.in_function ==> check_stmt(st, StmtV::Return { keyword, value }).1 == Some(
            ErrorView::Semantic {
                line: keyword.line,
                column: keyword.column,
                message: "Teu tiasa nganggo 'wangsul' di luar pancen."@,
            },
        ),
{
    let st1 = check_expr(st, condition).0;
    let looping = AnalyzerState { in_loop: true, ..st1 };
    assert(check_stmt(looping, StmtV::Break { keyword }) == (looping, None::<ErrorView>));
    assert(check_stmt(looping, StmtV::Continue { keyword }) == (looping, None::<ErrorView>));
}

/// A function body is its own context: `wangsul` is accepted in it, and a
/// `liren` in it is refused even when the function stands inside a loop.
pub proof fn lemma_function_body_context(st: AnalyzerState, keyword: TokenView)
    ensures
        check_function(st, seq![], seq![StmtV::Return { keyword, value: None }]).1 is None,
        check_function(st, seq![], seq![StmtV::Break { keyword }]).1 == Some(
            ErrorView::Semantic {
                line: keyword.line,
                column: keyword.column,
                message: "Teu tiasa nganggo 'liren' di luar ngulang."@,
            },
        ),
{
    let inner = begin_scope(AnalyzerState { in_function: true, in_loop: false, ..st });
    assert(check_params(inner, seq![]) == (inner, None::<ErrorView>));
    let r = seq![StmtV::Return { keyword, value: None }];
    assert(r.drop_first() =~= Seq::<StmtV>::empty());
    let b = seq![StmtV::Break { keyword }];
    assert(b.drop_first() =~= Seq::<StmtV>::empty());
}

/// Inside a block, declaring a name a second time is refused at the second
/// name, and reading a name in its own initializer is refused at the reading.
pub proof fn lemma_block_declarations(st: AnalyzerState, first: TokenView, second: TokenView, use_: TokenView)
    requires
        first.lexeme == second.lexeme,
        use_.lexeme == first.lexeme,
    ensures
        check_stmts(
            begin_scope(st),
            seq![
                StmtV::Variable { name: first, initializer: ExprV::Null },
                StmtV::Variable { name: second, initializer: ExprV::Null },
            ],
        ).1 == Some(
            ErrorView::Semantic {
                line: second.line,
                column: second.column,
                message: "Variabel '"@ + second.lexeme + "' parantos didamel dina blok ieu."@,
            },
        ),
        check_stmt(
            begin_scope(st),
            StmtV::Variable { name: first, initializer: ExprV::Variable { name: use_ } },
        ).1 == Some(
            ErrorView::Semantic {
                line: use_.line,
                column: use_.column,
                message: "Teu tiasa maca variabel '"@ + use_.lexeme + "' dina inisialisasina nyalira."@,
            },
        ),
{
    let s0 = begin_scope(st);
    let ss = seq![
        StmtV::Variable { name: first, initializer: ExprV::Null },
        StmtV::Variable { name: second, initializer: ExprV::Null },
    ];
    assert(s0.scopes.last() == Map::<Seq<char>, bool>::empty());
    assert(!s0.scopes.last().dom().contains(first.lexeme));
    let (d0, f0) = declare(s0, first);
    assert(f0 is None);
    assert(check_expr(d0, ExprV::Null) == (d0, None::<ErrorView>));
    let s1 = define(d0, first);
    assert(check_stmt(s0, ss[0]) == (s1, None::<ErrorView>));
    assert(s1.scopes.last() == d0.scopes.last().insert(first.lexeme, true));
    assert(s1.scopes.last().dom().contains(second.lexeme));
    assert(ss.drop_first() =~= seq![StmtV::Variable { name: second, initializer: ExprV::Null }]);
    assert(ss.drop_first().drop_first() =~= Seq::<StmtV>::empty());
    let dup = Some(semantic_error(second, "Variabel '"@ + second.lexeme + "' parantos didamel dina blok ieu."@));
    assert(declare(s1, second).1 == dup);
    assert(check_stmt(s1, ss.drop_first()[0]).1 == dup);
    assert(check_stmts(s1, ss.drop_first()).1 == dup);
    assert(d0.scopes.last().dom().contains(use_.lexeme));
    assert(!d0.scopes.last()[use_.lexeme]);
    let own = Some(semantic_error(use_, "Teu tiasa maca variabel '"@ + use_.lexeme + "' dina inisialisasina nyalira."@));
    assert(resolve(d0.scopes, use_) == own);
    assert(check_expr(d0, ExprV::Variable { name: use_ }).1 == own);
}

} // verus!
