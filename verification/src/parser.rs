use vstd::prelude::*;

use crate::ast::{exprs_model, props_model, stmts_model, Expr, ExprV, Stmt, StmtV};
use crate::error::{text, ErrorView, ScriptError};
use crate::grammar::{
    advance_pos, at, at_end, block_items, check, consume, consume_ident, declaration, else_part,
    desugar_for, expression, expression_statement, for_clauses, for_condition, for_increment, for_init, for_statement,
    function_declaration, if_statement, infix_loop, kept, lemma_params, list_items, moved, next_prec,
    param_items, params, parse_error, parse_infix, parse_precedence, parse_prefix, prec_of,
    print_statement, program, property_items, rereads_forever, return_statement, spec_parse,
    statement, variable_declaration, while_statement,
};
use crate::token::{kind_tag, tokens_view, Token, TokenKind, TokenType, TokenView};

verus! {

/// Binding strength of operators, from weakest to strongest.
#[derive(Clone, Copy)]
enum Precedence {
    Lowest,
    Assignment,
    Or,
    And,
    Equality,
    Comparison,
    Term,
    Factor,
    Unary,
    Call,
    Primary,
}

impl Precedence {
    spec fn level(self) -> nat {
        match self {
            Precedence::Lowest => 0,
            Precedence::Assignment => 1,
            Precedence::Or => 2,
            Precedence::And => 3,
            Precedence::Equality => 4,
            Precedence::Comparison => 5,
            Precedence::Term => 6,
            Precedence::Factor => 7,
            Precedence::Unary => 8,
            Precedence::Call => 9,
            Precedence::Primary => 10,
        }
    }

    fn rank(&self) -> (r: u8)
        ensures
            r as nat == self.level(),
    {
        match self {
            Precedence::Lowest => 0,
            Precedence::Assignment => 1,
            Precedence::Or => 2,
            Precedence::And => 3,
            Precedence::Equality => 4,
            Precedence::Comparison => 5,
            Precedence::Term => 6,
            Precedence::Factor => 7,
            Precedence::Unary => 8,
            Precedence::Call => 9,
            Precedence::Primary => 10,
        }
    }

    /// The next stronger level; the strongest level is its own successor.
    fn next(&self) -> (r: Precedence)
        ensures
            r.level() == next_prec(self.level()),
    {
        match self {
            Precedence::Lowest => Precedence::Assignment,
            Precedence::Assignment => Precedence::Or,
            Precedence::Or => Precedence::And,
            Precedence::And => Precedence::Equality,
            Precedence::Equality => Precedence::Comparison,
            Precedence::Comparison => Precedence::Term,
            Precedence::Term => Precedence::Factor,
            Precedence::Factor => Precedence::Unary,
            Precedence::Unary => Precedence::Call,
            Precedence::Call => Precedence::Primary,
            Precedence::Primary => Precedence::Primary,
        }
    }
}

fn get_precedence(kind: &TokenType) -> (r: Precedence)
    ensures
        r.level() == prec_of(kind@),
{
    match kind {
        TokenType::Assign => Precedence::Assignment,
        TokenType::Or => Precedence::Or,
        TokenType::And => Precedence::And,
        TokenType::Equal | TokenType::BangEqual => Precedence::Equality,
        TokenType::LessThan | TokenType::LessEqual | TokenType::GreaterThan | TokenType::GreaterEqual => {
            Precedence::Comparison
        },
        TokenType::Plus | TokenType::Minus => Precedence::Term,
        TokenType::Star | TokenType::Slash | TokenType::Percent => Precedence::Factor,
        TokenType::LParen | TokenType::LBracket | TokenType::Dot => Precedence::Call,
        _ => Precedence::Lowest,
    }
}

// ---------------------------------------------------------------------------
// Models of results
// ---------------------------------------------------------------------------

pub open spec fn pos_res(r: Result<usize, ScriptError>) -> Result<nat, ErrorView> {
    match r {
        Ok(q) => Ok(q as nat),
        Err(e) => Err(e@),
    }
}

pub open spec fn tok_res(r: Result<(Token, usize), ScriptError>) -> Result<(TokenView, nat), ErrorView> {
    match r {
        Ok((t, q)) => Ok((t@, q as nat)),
        Err(e) => Err(e@),
    }
}

pub open spec fn expr_res(r: Result<(Expr, usize), ScriptError>) -> Result<(ExprV, nat), ErrorView> {
    match r {
        Ok((x, q)) => Ok((x@, q as nat)),
        Err(e) => Err(e@),
    }
}

pub open spec fn stmt_res(r: Result<(Stmt, usize), ScriptError>) -> Result<(StmtV, nat), ErrorView> {
    match r {
        Ok((x, q)) => Ok((x@, q as nat)),
        Err(e) => Err(e@),
    }
}

pub open spec fn stmts_res(r: Result<(Vec<Stmt>, usize), ScriptError>) -> Result<(Seq<StmtV>, nat), ErrorView> {
    match r {
        Ok((x, q)) => Ok((stmts_model(x@), q as nat)),
        Err(e) => Err(e@),
    }
}

pub open spec fn exprs_res(r: Result<(Vec<Expr>, usize), ScriptError>) -> Result<(Seq<ExprV>, nat), ErrorView> {
    match r {
        Ok((x, q)) => Ok((exprs_model(x@), q as nat)),
        Err(e) => Err(e@),
    }
}

pub open spec fn props_res(r: Result<(Vec<(Token, Expr)>, usize), ScriptError>) -> Result<
    (Seq<(TokenView, ExprV)>, nat),
    ErrorView,
> {
    match r {
        Ok((x, q)) => Ok((props_model(x@), q as nat)),
        Err(e) => Err(e@),
    }
}

pub open spec fn params_res(r: Result<(Vec<Token>, usize), ScriptError>) -> Result<(Seq<TokenView>, nat), ErrorView> {
    match r {
        Ok((x, q)) => Ok((tokens_view(x@), q as nat)),
        Err(e) => Err(e@),
    }
}

pub open spec fn opt_stmt_res(r: Result<(Option<Stmt>, usize), ScriptError>) -> Result<(Option<StmtV>, nat), ErrorView> {
    match r {
        Ok((Some(x), q)) => Ok((Some(x@), q as nat)),
        Ok((None, q)) => Ok((None, q as nat)),
        Err(e) => Err(e@),
    }
}

pub open spec fn opt_box_res(r: Result<(Option<Box<Stmt>>, usize), ScriptError>) -> Result<
    (Option<Box<StmtV>>, nat),
    ErrorView,
> {
    match r {
        Ok((Some(x), q)) => Ok((Some(Box::new(x@)), q as nat)),
        Ok((None, q)) => Ok((None, q as nat)),
        Err(e) => Err(e@),
    }
}

pub open spec fn opt_expr_res(r: Result<(Option<Expr>, usize), ScriptError>) -> Result<(Option<ExprV>, nat), ErrorView> {
    match r {
        Ok((Some(x), q)) => Ok((Some(x@), q as nat)),
        Ok((None, q)) => Ok((None, q as nat)),
        Err(e) => Err(e@),
    }
}

/// The position a successful result ends at.
pub open spec fn end_of<A>(r: Result<(A, usize), ScriptError>) -> nat {
    match r {
        Ok((_, q)) => q as nat,
        Err(_) => 0,
    }
}

// ---------------------------------------------------------------------------
// The parser
// ---------------------------------------------------------------------------

/// Reads a sequence of tokens, which ends with an end-of-file token, into statements.
pub struct Parser {
    tokens: Vec<Token>,
    current: usize,
}

/// Builds the loop that a `for` statement stands for.
fn build_for(init: Option<Stmt>, c: Expr, inc: Option<Expr>, body: Stmt) -> (r: Stmt)
    ensures
        r@ == desugar_for(
            match init {
                Some(s) => Some(s@),
                None => None,
            },
            c@,
            match inc {
                Some(e) => Some(e@),
                None => None,
            },
            body@,
        ),
{
    let loop_stmt = Stmt::While { condition: c, body: Box::new(body), increment: inc };
    match init {
        Some(s) => {
            let ghost sv = s@;
            let ghost lv = loop_stmt@;
            let items = vec![s, loop_stmt];
            assert(stmts_model(items@) =~= seq![sv, lv]);
            Stmt::Block(items)
        },
        None => loop_stmt,
    }
}

impl Parser {
    #[verifier::type_invariant]
    spec fn well_formed(self) -> bool {
        &&& self.wf()
        &&& self.current < self.tokens@.len()
    }

    /// The tokens end with an end-of-file token.
    pub closed spec fn wf(self) -> bool {
        &&& 0 < self.tokens@.len() <= usize::MAX
        &&& self.tokens@.last().kind is Eof
    }

    /// The models of the tokens this parser reads.
    pub closed spec fn tv(self) -> Seq<TokenView> {
        tokens_view(self.tokens@)
    }

    /// The position of the next token to read.
    pub closed spec fn position(self) -> nat {
        self.current as nat
    }

    /// A position the parsing functions may start at: inside the tokens, and
    /// after at least one token unless a token other than end-of-file is there.
    spec fn valid(self, p: nat) -> bool {
        p < self.tokens@.len() && (p > 0 || !at_end(self.tv(), p))
    }

    pub fn new(tokens: Vec<Token>) -> (r: Self)
        requires
            tokens@.len() > 0,
            tokens@.last().kind is Eof,
        ensures
            r.tv() == tokens_view(tokens@),
            r.position() == 0,
    {
        let n = tokens.len();
        assert(n == tokens@.len());
        Parser { tokens, current: 0 }
    }

    /// The statements of the whole token sequence from the current position on,
    /// or the first syntax error.
    pub fn parse(&mut self) -> (r: Result<Vec<Stmt>, ScriptError>)
        ensures
            final(self).tv() == old(self).tv(),
            match r {
                Ok(v) => program(old(self).tv(), old(self).position(), seq![]) == Ok::<
                    (Seq<StmtV>, nat),
                    ErrorView,
                >((stmts_model(v@), final(self).position())),
                Err(e) => program(old(self).tv(), old(self).position(), seq![]) == Err::<
                    (Seq<StmtV>, nat),
                    ErrorView,
                >(e@),
            },
    {
        proof {
            use_type_invariant(&*self);
        }
        let ghost t = self.tv();
        let ghost p0 = self.current as nat;
        let mut statements: Vec<Stmt> = Vec::new();
        assert(stmts_model(statements@) =~= Seq::<StmtV>::empty());
        while !self.at_end(self.current)
            invariant
                self.wf(),
                self.current < self.tokens@.len(),
                self.tv() == t,
                t == old(self).tv(),
                p0 == old(self).position(),
                program(t, p0, seq![]) == program(t, self.current as nat, stmts_model(statements@)),
            decreases self.tokens@.len() - self.current,
        {
            let p = self.current;
            match self.declaration(p) {
                Ok((s, q)) => {
                    let ghost before = statements@;
                    statements.push(s);
                    assert(stmts_model(statements@) =~= stmts_model(before).push(s@));
                    self.current = q;
                },
                Err(e) => {
                    assert(program(t, p as nat, stmts_model(statements@)) == Err::<(Seq<StmtV>, nat), ErrorView>(e@));
                    return Err(e);
                },
            }
        }
        Ok(statements)
    }

    // -- reading tokens -----------------------------------------------------

    fn at_end(&self, p: usize) -> (r: bool)
        requires
            p < self.tokens@.len(),
        ensures
            r == at_end(self.tv(), p as nat),
    {
        match self.tokens[p].kind {
            TokenType::Eof => true,
            _ => false,
        }
    }

    fn check(&self, p: usize, kind: TokenType) -> (r: bool)
        requires
            p < self.tokens@.len(),
        ensures
            r == check(self.tv(), p as nat, kind@),
    {
        !self.at_end(p) && self.tokens[p].kind.tag() == kind.tag()
    }

    fn error(&self, token: &Token, message: &str) -> (r: ScriptError)
        ensures
            r@ == parse_error(token@, message@),
    {
        ScriptError::ParseError { line: token.line, column: token.column, message: text(message) }
    }

    fn consume(&self, p: usize, kind: TokenType, message: &str) -> (r: Result<usize, ScriptError>)
        requires
            self.wf(),
            p < self.tokens@.len(),
        ensures
            pos_res(r) == consume(self.tv(), p as nat, kind@, message@),
            r matches Ok(q) ==> q == p + 1 && q < self.tokens@.len(),
    {
        if self.check(p, kind) {
            Ok(p + 1)
        } else {
            Err(self.error(&self.tokens[p], message))
        }
    }

    fn consume_identifier(&self, p: usize, message: &str) -> (r: Result<(Token, usize), ScriptError>)
        requires
            self.wf(),
            p < self.tokens@.len(),
        ensures
            tok_res(r) == consume_ident(self.tv(), p as nat, message@),
            r matches Ok((_, q)) ==> q == p + 1 && q < self.tokens@.len(),
    {
        match self.tokens[p].kind {
            TokenType::Identifier => Ok((self.tokens[p].duplicate(), p + 1)),
            _ => Err(self.error(&self.tokens[p], message)),
        }
    }
}


impl Parser {
    // -- statements ---------------------------------------------------------

    fn block_items(&self, p0: usize) -> (r: Result<(Vec<Stmt>, usize), ScriptError>)
        requires
            self.wf(),
            self.valid(p0 as nat),
        ensures
            stmts_res(r) == block_items(self.tv(), p0 as nat, seq![]),
            r is Ok ==> p0 < end_of(r) < self.tokens@.len(),
        decreases self.tokens@.len() - p0, 11nat,
    {
        let ghost t = self.tv();
        let mut stmts: Vec<Stmt> = Vec::new();
        let mut p = p0;
        assert(stmts_model(stmts@) =~= Seq::<StmtV>::empty());
        while !self.check(p, TokenType::RBrace) && !self.at_end(p)
            invariant
                self.wf(),
                t == self.tv(),
                p0 <= p,
                self.valid(p as nat),
                block_items(t, p0 as nat, seq![]) == block_items(t, p as nat, stmts_model(stmts@)),
            decreases self.tokens@.len() - p,
        {
            match self.declaration(p) {
                Ok((s, q)) => {
                    let ghost before = stmts@;
                    stmts.push(s);
                    assert(stmts_model(stmts@) =~= stmts_model(before).push(s@));
                    p = q;
                },
                Err(e) => {
                    return Err(e);
                },
            }
        }
        match self.consume(p, TokenType::RBrace, "Diperyogikeun '}' saatos blok kode.") {
            Ok(q) => Ok((stmts, q)),
            Err(e) => Err(e),
        }
    }

    fn declaration(&self, p: usize) -> (r: Result<(Stmt, usize), ScriptError>)
        requires
            self.wf(),
            self.valid(p as nat),
        ensures
            stmt_res(r) == declaration(self.tv(), p as nat),
            r is Ok ==> p < end_of(r) < self.tokens@.len(),
        decreases self.tokens@.len() - p, 10nat,
    {
        if self.check(p, TokenType::Variable) {
            self.variable_declaration(p + 1)
        } else if self.check(p, TokenType::Function) {
            self.function_declaration(p + 1)
        } else {
            self.statement(p)
        }
    }

    fn statement(&self, p: usize) -> (r: Result<(Stmt, usize), ScriptError>)
        requires
            self.wf(),
            self.valid(p as nat),
        ensures
            stmt_res(r) == statement(self.tv(), p as nat),
            r is Ok ==> p < end_of(r) < self.tokens@.len(),
        decreases self.tokens@.len() - p, 9nat,
    {
        if self.check(p, TokenType::For) {
            self.for_statement(p + 1)
        } else if self.check(p, TokenType::Print) {
            self.print_statement(p + 1)
        } else if self.check(p, TokenType::If) {
            self.if_statement(p + 1)
        } else if self.check(p, TokenType::While) {
            self.while_statement(p + 1)
        } else if self.check(p, TokenType::Break) {
            let keyword = self.tokens[p].duplicate();
            match self.consume(p + 1, TokenType::Semicolon, "Diperyogikeun ';' saatos 'liren'.") {
                Ok(q) => Ok((Stmt::Break { keyword }, q)),
                Err(e) => Err(e),
            }
        } else if self.check(p, TokenType::Continue) {
            let keyword = self.tokens[p].duplicate();
            match self.consume(p + 1, TokenType::Semicolon, "Diperyogikeun ';' saatos 'lajeungkeun'.") {
                Ok(q) => Ok((Stmt::Continue { keyword }, q)),
                Err(e) => Err(e),
            }
        } else if self.check(p, TokenType::Return) {
            let keyword = self.tokens[p].duplicate();
            self.return_statement(p + 1, keyword)
        } else if self.check(p, TokenType::LBrace) {
            match self.block_items(p + 1) {
                Ok((ss, q)) => Ok((Stmt::Block(ss), q)),
                Err(e) => Err(e),
            }
        } else {
            self.expression_statement(p)
        }
    }

    fn expression_statement(&self, p: usize) -> (r: Result<(Stmt, usize), ScriptError>)
        requires
            self.wf(),
            self.valid(p as nat),
        ensures
            stmt_res(r) == expression_statement(self.tv(), p as nat),
            r is Ok ==> p < end_of(r) < self.tokens@.len(),
        decreases self.tokens@.len() - p, 8nat,
    {
        match self.expression(p) {
            Ok((e, q)) => match self.consume(q, TokenType::Semicolon, "Diperyogikeun ';' saatos ekspresi.") {
                Ok(r) => Ok((Stmt::Expression(e), r)),
                Err(x) => Err(x),
            },
            Err(x) => Err(x),
        }
    }

    fn print_statement(&self, p: usize) -> (r: Result<(Stmt, usize), ScriptError>)
        requires
            self.wf(),
            self.valid(p as nat),
        ensures
            stmt_res(r) == print_statement(self.tv(), p as nat),
            r is Ok ==> p < end_of(r) < self.tokens@.len(),
        decreases self.tokens@.len() - p, 8nat,
    {
        match self.consume(p, TokenType::LParen, "Diperyogikeun '(' saatos 'citak'.") {
            Ok(p1) => match self.expression(p1) {
                Ok((e, q)) => match self.consume(q, TokenType::RParen, "Diperyogikeun ')' saatos nilai 'citak'.") {
                    Ok(q1) => match self.consume(
                        q1,
                        TokenType::Semicolon,
                        "Diperyogikeun ';' saatos parentah 'citak'.",
                    ) {
                        Ok(q2) => Ok((Stmt::Print(e), q2)),
                        Err(x) => Err(x),
                    },
                    Err(x) => Err(x),
                },
                Err(x) => Err(x),
            },
            Err(x) => Err(x),
        }
    }

    fn variable_declaration(&self, p: usize) -> (r: Result<(Stmt, usize), ScriptError>)
        requires
            self.wf(),
            self.valid(p as nat),
        ensures
            stmt_res(r) == variable_declaration(self.tv(), p as nat),
            r is Ok ==> p < end_of(r) < self.tokens@.len(),
        decreases self.tokens@.len() - p, 8nat,
    {
        match self.consume_identifier(p, "Diperyogikeun nami variabel saatos 'simpen'.") {
            Ok((name, p1)) => match self.consume(p1, TokenType::Assign, "Diperyogikeun '=' saatos nami variabel.") {
                Ok(p2) => match self.expression(p2) {
                    Ok((init, q)) => match self.consume(
                        q,
                        TokenType::Semicolon,
                        "Diperyogikeun ';' saatos deklarasi variabel.",
                    ) {
                        Ok(r) => Ok((Stmt::Variable { name, initializer: init }, r)),
                        Err(x) => Err(x),
                    },
                    Err(x) => Err(x),
                },
                Err(x) => Err(x),
            },
            Err(x) => Err(x),
        }
    }

    /// A parameter list, possibly empty, up to its closing parenthesis.
    fn params(&self, p0: usize) -> (r: Result<(Vec<Token>, usize), ScriptError>)
        requires
            self.wf(),
            p0 < self.tokens@.len(),
        ensures
            params_res(r) == params(self.tv(), p0 as nat),
            r is Ok ==> p0 <= end_of(r) < self.tokens@.len(),
    {
        let ghost t = self.tv();
        let mut names: Vec<Token> = Vec::new();
        if self.check(p0, TokenType::RParen) {
            assert(tokens_view(names@) =~= Seq::<TokenView>::empty());
            return Ok((names, p0));
        }
        let mut p = p0;
        assert(tokens_view(names@) =~= Seq::<TokenView>::empty());
        loop
            invariant
                self.wf(),
                t == self.tv(),
                p0 <= p < self.tokens@.len(),
                params(t, p0 as nat) == param_items(t, p as nat, tokens_view(names@)),
            decreases self.tokens@.len() - p,
        {
            match self.consume_identifier(p, "Diperyogikeun parameter pancen.") {
                Ok((name, q)) => {
                    let ghost before = names@;
                    let ghost nv = name@;
                    names.push(name);
                    assert(tokens_view(names@) =~= tokens_view(before).push(nv));
                    if self.check(q, TokenType::Comma) {
                        p = q + 1;
                    } else {
                        return Ok((names, q));
                    }
                },
                Err(e) => {
                    return Err(e);
                },
            }
        }
    }

    fn function_declaration(&self, p: usize) -> (r: Result<(Stmt, usize), ScriptError>)
        requires
            self.wf(),
            self.valid(p as nat),
        ensures
            stmt_res(r) == function_declaration(self.tv(), p as nat),
            r is Ok ==> p < end_of(r) < self.tokens@.len(),
        decreases self.tokens@.len() - p, 8nat,
    {
        match self.consume_identifier(p, "Diperyogikeun nami pancen saatos 'pancen'.") {
            Ok((name, p1)) => match self.consume(p1, TokenType::LParen, "Diperyogikeun '(' saatos nami pancen.") {
                Ok(p2) => match self.params(p2) {
                    Ok((ps, p3)) => match self.consume(p3, TokenType::RParen, "Diperyogikeun ')' saatos parameter.") {
                        Ok(p4) => match self.consume(
                            p4,
                            TokenType::LBrace,
                            "Diperyogikeun '{' sateuacan eusi pancen.",
                        ) {
                            Ok(p5) => match self.block_items(p5) {
                                Ok((body, q)) => Ok((Stmt::Function { name, params: ps, body }, q)),
                                Err(x) => Err(x),
                            },
                            Err(x) => Err(x),
                        },
                        Err(x) => Err(x),
                    },
                    Err(x) => Err(x),
                },
                Err(x) => Err(x),
            },
            Err(x) => Err(x),
        }
    }

    fn else_part(&self, p: usize, q: usize) -> (r: Result<(Option<Box<Stmt>>, usize), ScriptError>)
        requires
            self.wf(),
            p < q,
            self.valid(q as nat),
        ensures
            opt_box_res(r) == else_part(self.tv(), p as nat, q as nat),
            r is Ok ==> q <= end_of(r) < self.tokens@.len(),
        decreases self.tokens@.len() - p, 7nat,
    {
        if self.check(q, TokenType::Else) {
            if self.check(q + 1, TokenType::If) {
                match self.if_statement(q + 2) {
                    Ok((s, r)) => Ok((Some(Box::new(s)), r)),
                    Err(x) => Err(x),
                }
            } else {
                match self.consume(q + 1, TokenType::LBrace, "Diperyogikeun '{' saatos 'sanes'.") {
                    Ok(q1) => match self.block_items(q1) {
                        Ok((ss, r)) => {
                            let block = Stmt::Block(ss);
                            assert(block@ == StmtV::Block(stmts_model(ss@)));
                            Ok((Some(Box::new(block)), r))
                        },
                        Err(x) => Err(x),
                    },
                    Err(x) => Err(x),
                }
            }
        } else {
            Ok((None, q))
        }
    }

    fn if_statement(&self, p: usize) -> (r: Result<(Stmt, usize), ScriptError>)
        requires
            self.wf(),
            self.valid(p as nat),
        ensures
            stmt_res(r) == if_statement(self.tv(), p as nat),
            r is Ok ==> p < end_of(r) < self.tokens@.len(),
        decreases self.tokens@.len() - p, 8nat,
    {
        match self.consume(p, TokenType::LParen, "Diperyogikeun '(' saatos 'upami'.") {
            Ok(p1) => match self.expression(p1) {
                Ok((c, q1)) => match self.consume(q1, TokenType::RParen, "Diperyogikeun ')' saatos kondisi 'upami'.") {
                    Ok(q2) => match self.consume(
                        q2,
                        TokenType::LBrace,
                        "Diperyogikeun '{' sateuacan blok 'upami'.",
                    ) {
                        Ok(q3) => match self.block_items(q3) {
                            Ok((then_items, q4)) => match self.else_part(p, q4) {
                                Ok((else_branch, r)) => {
                                    let block = Stmt::Block(then_items);
                                    assert(block@ == StmtV::Block(stmts_model(then_items@)));
                                    Ok(
                                        (
                                            Stmt::If {
                                                condition: c,
                                                then_branch: Box::new(block),
                                                else_branch,
                                            },
                                            r,
                                        ),
                                    )
                                },
                                Err(x) => Err(x),
                            },
                            Err(x) => Err(x),
                        },
                        Err(x) => Err(x),
                    },
                    Err(x) => Err(x),
                },
                Err(x) => Err(x),
            },
            Err(x) => Err(x),
        }
    }

    fn while_statement(&self, p: usize) -> (r: Result<(Stmt, usize), ScriptError>)
        requires
            self.wf(),
            self.valid(p as nat),
        ensures
            stmt_res(r) == while_statement(self.tv(), p as nat),
            r is Ok ==> p < end_of(r) < self.tokens@.len(),
        decreases self.tokens@.len() - p, 8nat,
    {
        match self.consume(p, TokenType::LParen, "Diperyogikeun '(' saatos 'ngulang'.") {
            Ok(p1) => match self.expression(p1) {
                Ok((c, q1)) => match self.consume(
                    q1,
                    TokenType::RParen,
                    "Diperyogikeun ')' saatos kondisi 'ngulang'.",
                ) {
                    Ok(q2) => match self.consume(
                        q2,
                        TokenType::LBrace,
                        "Diperyogikeun '{' sateuacan blok 'ngulang'.",
                    ) {
                        Ok(q3) => match self.block_items(q3) {
                            Ok((body, r)) => {
                                let block = Stmt::Block(body);
                                assert(block@ == StmtV::Block(stmts_model(body@)));
                                Ok(
                                    (
                                        Stmt::While {
                                            condition: c,
                                            body: Box::new(block),
                                            increment: None,
                                        },
                                        r,
                                    ),
                                )
                            },
                            Err(x) => Err(x),
                        },
                        Err(x) => Err(x),
                    },
                    Err(x) => Err(x),
                },
                Err(x) => Err(x),
            },
            Err(x) => Err(x),
        }
    }

    fn for_init(&self, p: usize) -> (r: Result<(Option<Stmt>, usize), ScriptError>)
        requires
            self.wf(),
            self.valid(p as nat),
        ensures
            opt_stmt_res(r) == for_init(self.tv(), p as nat),
            r is Ok ==> p < end_of(r) < self.tokens@.len(),
        decreases self.tokens@.len() - p, 9nat,
    {
        if self.check(p, TokenType::Semicolon) {
            Ok((None, p + 1))
        } else if self.check(p, TokenType::Variable) {
            match self.variable_declaration(p + 1) {
                Ok((s, q)) => Ok((Some(s), q)),
                Err(x) => Err(x),
            }
        } else {
            match self.expression_statement(p) {
                Ok((s, q)) => Ok((Some(s), q)),
                Err(x) => Err(x),
            }
        }
    }

    fn for_condition(&self, p: usize) -> (r: Result<(Expr, usize), ScriptError>)
        requires
            self.wf(),
            self.valid(p as nat),
        ensures
            expr_res(r) == for_condition(self.tv(), p as nat),
            r is Ok ==> p <= end_of(r) < self.tokens@.len(),
        decreases self.tokens@.len() - p, 8nat,
    {
        if !self.check(p, TokenType::Semicolon) {
            self.expression(p)
        } else {
            Ok((Expr::Boolean(true), p))
        }
    }

    fn for_increment(&self, p: usize) -> (r: Result<(Option<Expr>, usize), ScriptError>)
        requires
            self.wf(),
            self.valid(p as nat),
        ensures
            opt_expr_res(r) == for_increment(self.tv(), p as nat),
            r is Ok ==> p <= end_of(r) < self.tokens@.len(),
        decreases self.tokens@.len() - p, 8nat,
    {
        if !self.check(p, TokenType::RParen) {
            match self.expression(p) {
                Ok((e, q)) => Ok((Some(e), q)),
                Err(x) => Err(x),
            }
        } else {
            Ok((None, p))
        }
    }

    #[verifier::rlimit(100)]
    fn for_clauses(&self, p: usize, init: Option<Stmt>) -> (r: Result<(Stmt, usize), ScriptError>)
        requires
            self.wf(),
            self.valid(p as nat),
        ensures
            stmt_res(r) == for_clauses(
                self.tv(),
                p as nat,
                match init {
                    Some(s) => Some(s@),
                    None => None,
                },
            ),
            r is Ok ==> p < end_of(r) < self.tokens@.len(),
        decreases self.tokens@.len() - p, 9nat,
    {
        match self.for_condition(p) {
            Ok((c, p3)) => match self.consume(
                p3,
                TokenType::Semicolon,
                "Diperyogikeun ';' saatos kondisi 'pikeun'.",
            ) {
                Ok(p4) => match self.for_increment(p4) {
                    Ok((inc, p5)) => match self.consume(
                        p5,
                        TokenType::RParen,
                        "Diperyogikeun ')' saatos klausul 'pikeun'.",
                    ) {
                        Ok(p6) => match self.statement(p6) {
                            Ok((body, q)) => Ok((build_for(init, c, inc, body), q)),
                            Err(x) => Err(x),
                        },
                        Err(x) => Err(x),
                    },
                    Err(x) => Err(x),
                },
                Err(x) => Err(x),
            },
            Err(x) => Err(x),
        }
    }

    fn for_statement(&self, p: usize) -> (r: Result<(Stmt, usize), ScriptError>)
        requires
            self.wf(),
            self.valid(p as nat),
        ensures
            stmt_res(r) == for_statement(self.tv(), p as nat),
            r is Ok ==> p < end_of(r) < self.tokens@.len(),
        decreases self.tokens@.len() - p, 10nat,
    {
        match self.consume(p, TokenType::LParen, "Diperyogikeun '(' saatos 'pikeun'.") {
            Ok(p1) => match self.for_init(p1) {
                Ok((init, p2)) => self.for_clauses(p2, init),
                Err(x) => Err(x),
            },
            Err(x) => Err(x),
        }
    }

    fn return_statement(&self, p: usize, keyword: Token) -> (r: Result<(Stmt, usize), ScriptError>)
        requires
            self.wf(),
            self.valid(p as nat),
        ensures
            stmt_res(r) == return_statement(self.tv(), p as nat, keyword@),
            r is Ok ==> p < end_of(r) < self.tokens@.len(),
        decreases self.tokens@.len() - p, 8nat,
    {
        if !self.check(p, TokenType::Semicolon) {
            match self.expression(p) {
                Ok((v, q)) => match self.consume(
                    q,
                    TokenType::Semicolon,
                    "Diperyogikeun ';' saatos parentah 'wangsul'.",
                ) {
                    Ok(r) => Ok((Stmt::Return { keyword, value: Some(v) }, r)),
                    Err(x) => Err(x),
                },
                Err(x) => Err(x),
            }
        } else {
            match self.consume(p, TokenType::Semicolon, "Diperyogikeun ';' saatos parentah 'wangsul'.") {
                Ok(r) => Ok((Stmt::Return { keyword, value: None }, r)),
                Err(x) => Err(x),
            }
        }
    }
}


impl Parser {
    // -- expressions --------------------------------------------------------

    fn expression(&self, p: usize) -> (r: Result<(Expr, usize), ScriptError>)
        requires
            self.wf(),
            self.valid(p as nat),
        ensures
            expr_res(r) == expression(self.tv(), p as nat),
            r is Ok ==> p <= end_of(r) < self.tokens@.len(),
            r is Ok && !at_end(self.tv(), p as nat) ==> p < end_of(r),
        decreases self.tokens@.len() - p, 7nat,
    {
        self.parse_precedence(p, Precedence::Assignment)
    }

    fn parse_precedence(&self, p: usize, level: Precedence) -> (r: Result<(Expr, usize), ScriptError>)
        requires
            self.wf(),
            self.valid(p as nat),
            level.level() >= 1,
        ensures
            expr_res(r) == parse_precedence(self.tv(), p as nat, level.level()),
            r is Ok ==> p <= end_of(r) < self.tokens@.len(),
            r is Ok && !at_end(self.tv(), p as nat) ==> p < end_of(r),
        decreases self.tokens@.len() - p, 6nat,
    {
        let ghost t = self.tv();
        match self.parse_prefix(p) {
            Ok((first, q0)) => {
                let mut left = first;
                let mut q = q0;
                while level.rank() <= get_precedence(&self.tokens[q].kind).rank()
                    invariant
                        self.wf(),
                        t == self.tv(),
                        level.level() >= 1,
                        p <= q0 <= q < self.tokens@.len(),
                        !at_end(t, p as nat) ==> p < q0,
                        self.valid(q as nat),
                        parse_precedence(t, p as nat, level.level()) == infix_loop(
                            t,
                            left@,
                            q as nat,
                            level.level(),
                        ),
                    decreases self.tokens@.len() - q,
                {
                    match self.parse_infix(left, q) {
                        Ok((e, r)) => {
                            left = e;
                            q = r;
                        },
                        Err(x) => {
                            return Err(x);
                        },
                    }
                }
                Ok((left, q))
            },
            Err(x) => Err(x),
        }
    }

    /// Expressions separated by commas.
    fn list_items(&self, p0: usize) -> (r: Result<(Vec<Expr>, usize), ScriptError>)
        requires
            self.wf(),
            self.valid(p0 as nat),
        ensures
            exprs_res(r) == list_items(self.tv(), p0 as nat, seq![]),
            r is Ok ==> p0 <= end_of(r) < self.tokens@.len(),
        decreases self.tokens@.len() - p0, 8nat,
    {
        let ghost t = self.tv();
        let mut items: Vec<Expr> = Vec::new();
        let mut p = p0;
        assert(exprs_model(items@) =~= Seq::<ExprV>::empty());
        loop
            invariant
                self.wf(),
                t == self.tv(),
                p0 <= p,
                self.valid(p as nat),
                list_items(t, p0 as nat, seq![]) == list_items(t, p as nat, exprs_model(items@)),
            decreases self.tokens@.len() - p,
        {
            match self.expression(p) {
                Ok((e, q)) => {
                    let ghost before = items@;
                    let ghost ev = e@;
                    items.push(e);
                    assert(exprs_model(items@) =~= exprs_model(before).push(ev));
                    if self.check(q, TokenType::Comma) {
                        p = q + 1;
                    } else {
                        return Ok((items, q));
                    }
                },
                Err(x) => {
                    return Err(x);
                },
            }
        }
    }

    /// Object properties `name: value` separated by commas.
    fn property_items(&self, p0: usize) -> (r: Result<(Vec<(Token, Expr)>, usize), ScriptError>)
        requires
            self.wf(),
            self.valid(p0 as nat),
        ensures
            props_res(r) == property_items(self.tv(), p0 as nat, seq![]),
            r is Ok ==> p0 < end_of(r) < self.tokens@.len(),
        decreases self.tokens@.len() - p0, 8nat,
    {
        let ghost t = self.tv();
        let mut items: Vec<(Token, Expr)> = Vec::new();
        let mut p = p0;
        assert(props_model(items@) =~= Seq::<(TokenView, ExprV)>::empty());
        loop
            invariant
                self.wf(),
                t == self.tv(),
                p0 <= p,
                self.valid(p as nat),
                property_items(t, p0 as nat, seq![]) == property_items(t, p as nat, props_model(items@)),
            decreases self.tokens@.len() - p,
        {
            match self.consume_identifier(p, "Diperyogikeun nami properti objek.") {
                Ok((name, p1)) => match self.consume(p1, TokenType::Colon, "Diperyogikeun ':' saatos nami properti.") {
                    Ok(p2) => match self.expression(p2) {
                        Ok((v, q)) => {
                            let ghost before = items@;
                            let ghost item = (name@, v@);
                            items.push((name, v));
                            assert(props_model(items@) =~= props_model(before).push(item));
                            if self.check(q, TokenType::Comma) {
                                p = q + 1;
                            } else {
                                return Ok((items, q));
                            }
                        },
                        Err(x) => {
                            return Err(x);
                        },
                    },
                    Err(x) => {
                        return Err(x);
                    },
                },
                Err(x) => {
                    return Err(x);
                },
            }
        }
    }

    fn parse_prefix(&self, p: usize) -> (r: Result<(Expr, usize), ScriptError>)
        requires
            self.wf(),
            self.valid(p as nat),
        ensures
            expr_res(r) == parse_prefix(self.tv(), p as nat),
            r is Ok ==> p <= end_of(r) < self.tokens@.len(),
            r is Ok && !at_end(self.tv(), p as nat) ==> p < end_of(r),
        decreases self.tokens@.len() - p, 3nat,
    {
        let ghost t = self.tv();
        let end = self.at_end(p);
        let p1 = if end {
            p
        } else {
            p + 1
        };
        let tok = self.tokens[p1 - 1].duplicate();
        assert(tok@ == at(t, (p1 - 1) as nat));
        if end {
            match tok.kind {
                TokenType::LParen | TokenType::LBracket | TokenType::Minus | TokenType::Bang => {
                    return Err(self.error(&tok, "Ekspresi teu sah atanapi teu dipikawanoh."));
                },
                _ => {},
            }
        }
        match &tok.kind {
            TokenType::Integer(v) => Ok((Expr::Integer(*v), p1)),
            TokenType::Float(x) => Ok((Expr::Float(x.clone()), p1)),
            TokenType::String(x) => Ok((Expr::String(x.clone()), p1)),
            TokenType::True => Ok((Expr::Boolean(true), p1)),
            TokenType::False => Ok((Expr::Boolean(false), p1)),
            TokenType::Null => Ok((Expr::Null, p1)),
            TokenType::Identifier => Ok((Expr::Variable { name: tok.duplicate() }, p1)),
            TokenType::Function => match self.consume(p1, TokenType::LParen, "Diperyogikeun '(' saatos 'pancen'.") {
                Ok(a) => match self.params(a) {
                    Ok((ps, b)) => match self.consume(b, TokenType::RParen, "Diperyogikeun ')' saatos parameter.") {
                        Ok(c) => match self.consume(
                            c,
                            TokenType::LBrace,
                            "Diperyogikeun '{' sateuacan eusi pancen.",
                        ) {
                            Ok(d) => match self.block_items(d) {
                                Ok((body, q)) => Ok((Expr::Function { params: ps, body }, q)),
                                Err(x) => Err(x),
                            },
                            Err(x) => Err(x),
                        },
                        Err(x) => Err(x),
                    },
                    Err(x) => Err(x),
                },
                Err(x) => Err(x),
            },
            TokenType::LParen => match self.expression(p1) {
                Ok((e, q)) => match self.consume(q, TokenType::RParen, "Diperyogikeun ')' saatos ekspresi.") {
                    Ok(r) => Ok((e, r)),
                    Err(x) => Err(x),
                },
                Err(x) => Err(x),
            },
            TokenType::LBracket => {
                let listed = if !self.check(p1, TokenType::RBracket) {
                    self.list_items(p1)
                } else {
                    let empty: Vec<Expr> = Vec::new();
                    assert(exprs_model(empty@) =~= Seq::<ExprV>::empty());
                    Ok((empty, p1))
                };
                match listed {
                    Ok((elements, q)) => match self.consume(
                        q,
                        TokenType::RBracket,
                        "Diperyogikeun ']' saatos elemen daptar.",
                    ) {
                        Ok(r) => Ok((Expr::Array { elements }, r)),
                        Err(x) => Err(x),
                    },
                    Err(x) => Err(x),
                }
            },
            TokenType::LBrace => {
                if p1 == p {
                    return Err(self.error(&self.tokens[p], "Diperyogikeun nami properti objek."));
                }
                let listed = if !self.check(p1, TokenType::RBrace) {
                    self.property_items(p1)
                } else {
                    let empty: Vec<(Token, Expr)> = Vec::new();
                    assert(props_model(empty@) =~= Seq::<(TokenView, ExprV)>::empty());
                    Ok((empty, p1))
                };
                match listed {
                    Ok((properties, q)) => match self.consume(
                        q,
                        TokenType::RBrace,
                        "Diperyogikeun '}' saatos properti objek.",
                    ) {
                        Ok(r) => Ok((Expr::Object { properties }, r)),
                        Err(x) => Err(x),
                    },
                    Err(x) => Err(x),
                }
            },
            TokenType::Minus | TokenType::Bang => match self.parse_precedence(p1, Precedence::Unary) {
                Ok((right, q)) => Ok((Expr::Unary { operator: tok.duplicate(), right: Box::new(right) }, q)),
                Err(x) => Err(x),
            },
            _ => Err(self.error(&tok, "Ekspresi teu sah atanapi teu dipikawanoh.")),
        }
    }

    /// The operator at `q` applied to `left`, with what follows it.
    fn parse_infix(&self, left: Expr, q: usize) -> (r: Result<(Expr, usize), ScriptError>)
        requires
            self.wf(),
            q < self.tokens@.len(),
            prec_of(at(self.tv(), q as nat).kind) >= 1,
        ensures
            expr_res(r) == parse_infix(self.tv(), left@, q as nat),
            r is Ok ==> q < end_of(r) < self.tokens@.len(),
        decreases self.tokens@.len() - q, 4nat,
    {
        let ghost t = self.tv();
        let op = self.tokens[q].duplicate();
        assert(op@ == at(t, q as nat));
        let p = q + 1;
        match &op.kind {
            TokenType::Plus
            | TokenType::Minus
            | TokenType::Star
            | TokenType::Slash
            | TokenType::Percent
            | TokenType::Equal
            | TokenType::BangEqual
            | TokenType::LessThan
            | TokenType::LessEqual
            | TokenType::GreaterThan
            | TokenType::GreaterEqual => {
                let level = get_precedence(&op.kind).next();
                match self.parse_precedence(p, level) {
                    Ok((right, r)) => Ok(
                        (Expr::Binary { left: Box::new(left), operator: op.duplicate(), right: Box::new(right) }, r),
                    ),
                    Err(x) => Err(x),
                }
            },
            TokenType::Or | TokenType::And => {
                let level = get_precedence(&op.kind).next();
                match self.parse_precedence(p, level) {
                    Ok((right, r)) => Ok(
                        (Expr::Logical { left: Box::new(left), operator: op.duplicate(), right: Box::new(right) }, r),
                    ),
                    Err(x) => Err(x),
                }
            },
            TokenType::Assign => match self.parse_precedence(p, Precedence::Assignment) {
                Ok((value, r)) => match left {
                    Expr::Variable { name } => Ok((Expr::Assign { name, value: Box::new(value) }, r)),
                    Expr::Index { array, index, .. } => Ok(
                        (Expr::AssignIndex { array, index, value: Box::new(value) }, r),
                    ),
                    Expr::GetProperty { object, name } => Ok(
                        (Expr::SetProperty { object, name, value: Box::new(value) }, r),
                    ),
                    _ => Err(self.error(&op, "Target panugasan teu sah.")),
                },
                Err(x) => Err(x),
            },
            TokenType::LParen => {
                let listed = if !self.check(p, TokenType::RParen) {
                    self.list_items(p)
                } else {
                    let empty: Vec<Expr> = Vec::new();
                    assert(exprs_model(empty@) =~= Seq::<ExprV>::empty());
                    Ok((empty, p))
                };
                match listed {
                    Ok((arguments, r)) => match self.consume(
                        r,
                        TokenType::RParen,
                        "Diperyogikeun ')' saatos argumen pancen.",
                    ) {
                        Ok(r1) => Ok(
                            (
                                Expr::Call {
                                    callee: Box::new(left),
                                    arguments,
                                    paren_line: self.tokens[r].line,
                                },
                                r1,
                            ),
                        ),
                        Err(x) => Err(x),
                    },
                    Err(x) => Err(x),
                }
            },
            TokenType::LBracket => match self.expression(p) {
                Ok((index, r)) => match self.consume(
                    r,
                    TokenType::RBracket,
                    "Diperyogikeun ']' saatos indeks daptar.",
                ) {
                    Ok(r1) => Ok(
                        (
                            Expr::Index {
                                array: Box::new(left),
                                index: Box::new(index),
                                bracket_line: self.tokens[r].line,
                            },
                            r1,
                        ),
                    ),
                    Err(x) => Err(x),
                },
                Err(x) => Err(x),
            },
            TokenType::Dot => match self.consume_identifier(p, "Diperyogikeun nami properti saatos '.'.") {
                Ok((name, r)) => Ok((Expr::GetProperty { object: Box::new(left), name }, r)),
                Err(x) => Err(x),
            },
            _ => Ok((left, q)),
        }
    }
}

} // verus!
