use vstd::prelude::*;

use crate::ast::{ExprV, StmtV};
use crate::error::ErrorView;
use crate::token::{kind_tag, TokenKind, TokenView};

verus! {

// ---------------------------------------------------------------------------
// Reading the token sequence
// ---------------------------------------------------------------------------

/// The token at `p`; positions past the end read as an end-of-file token.
pub open spec fn at(t: Seq<TokenView>, p: nat) -> TokenView {
    if p < t.len() {
        t[p as int]
    } else {
        TokenView { kind: TokenKind::Eof, lexeme: seq![], line: 0, column: 0 }
    }
}

pub open spec fn at_end(t: Seq<TokenView>, p: nat) -> bool {
    at(t, p).kind is Eof
}

/// Whether the token at `p` is of the variant of `k`, before the end of input.
pub open spec fn check(t: Seq<TokenView>, p: nat, k: TokenKind) -> bool {
    !at_end(t, p) && kind_tag(at(t, p).kind) == kind_tag(k)
}

/// The position after `advance`: it does not move past the end of input.
pub open spec fn advance_pos(t: Seq<TokenView>, p: nat) -> nat {
    if at_end(t, p) {
        p
    } else {
        p + 1
    }
}

pub open spec fn parse_error(tok: TokenView, message: Seq<char>) -> ErrorView {
    ErrorView::Parse { line: tok.line, column: tok.column, message }
}

/// Takes a token of the variant of `k`, or reports `message` at the token found.
pub open spec fn consume(t: Seq<TokenView>, p: nat, k: TokenKind, message: Seq<char>) -> Result<
    nat,
    ErrorView,
> {
    if check(t, p, k) {
        Ok(p + 1)
    } else {
        Err(parse_error(at(t, p), message))
    }
}

/// Takes an identifier, or reports `message` at the token found.
pub open spec fn consume_ident(t: Seq<TokenView>, p: nat, message: Seq<char>) -> Result<
    (TokenView, nat),
    ErrorView,
> {
    if at(t, p).kind is Identifier {
        Ok((at(t, p), p + 1))
    } else {
        Err(parse_error(at(t, p), message))
    }
}

/// Binding strength of an operator token; 0 for tokens that are not operators.
/// The levels are: 1 assignment, 2 or, 3 and, 4 equality, 5 comparison, 6 term,
/// 7 factor, 8 unary, 9 call, 10 primary.
pub open spec fn prec_of(k: TokenKind) -> nat {
    match k {
        TokenKind::Assign => 1,
        TokenKind::Or => 2,
        TokenKind::And => 3,
        TokenKind::Equal | TokenKind::BangEqual => 4,
        TokenKind::LessThan | TokenKind::LessEqual | TokenKind::GreaterThan | TokenKind::GreaterEqual => 5,
        TokenKind::Plus | TokenKind::Minus => 6,
        TokenKind::Star | TokenKind::Slash | TokenKind::Percent => 7,
        TokenKind::LParen | TokenKind::LBracket | TokenKind::Dot => 9,
        _ => 0,
    }
}

/// The next stronger binding level.
pub open spec fn next_prec(level: nat) -> nat {
    if level < 10 {
        level + 1
    } else {
        10
    }
}

/// Whether a step from `p` to `q` stays within the tokens and does not go back.
pub open spec fn kept(t: Seq<TokenView>, p: nat, q: nat) -> bool {
    p <= q <= t.len()
}

/// Whether a step from `p` to `q` moves forward and stays within the tokens.
pub open spec fn moved(t: Seq<TokenView>, p: nat, q: nat) -> bool {
    p < q <= t.len()
}

/// The error a step would give that should move forward and does not. These
/// guards keep the definitions well-founded; the executable parser, which has
/// no such checks, is proved equal to them, so on the inputs it reaches each
/// guarded step does move forward.
pub open spec fn stalled() -> ErrorView {
    ErrorView::Parse { line: 0, column: 0, message: seq![] }
}

/// Parameter names separated by commas, from `p` on, after `acc`.
pub open spec fn param_items(t: Seq<TokenView>, p: nat, acc: Seq<TokenView>) -> Result<
    (Seq<TokenView>, nat),
    ErrorView,
>
    decreases t.len() - p,
{
    match consume_ident(t, p, "Diperyogikeun parameter pancen."@) {
        Ok((name, q)) => if check(t, q, TokenKind::Comma) {
            param_items(t, q + 1, acc.push(name))
        } else {
            Ok((acc.push(name), q))
        },
        Err(e) => Err(e),
    }
}

/// The parameter list of a function, possibly empty, up to the closing parenthesis.
pub open spec fn params(t: Seq<TokenView>, p: nat) -> Result<(Seq<TokenView>, nat), ErrorView> {
    if check(t, p, TokenKind::RParen) {
        Ok((seq![], p))
    } else {
        param_items(t, p, seq![])
    }
}

pub proof fn lemma_param_items(t: Seq<TokenView>, p: nat, acc: Seq<TokenView>)
    ensures
        param_items(t, p, acc) matches Ok((_, q)) ==> p < q <= t.len(),
    decreases t.len() - p,
{
    if let Ok((name, q)) = consume_ident(t, p, "Diperyogikeun parameter pancen."@) {
        if check(t, q, TokenKind::Comma) {
            lemma_param_items(t, q + 1, acc.push(name));
        }
    }
}

pub proof fn lemma_params(t: Seq<TokenView>, p: nat)
    ensures
        params(t, p) matches Ok((_, q)) ==> p <= q <= t.len(),
{
    lemma_param_items(t, p, seq![]);
}

// ---------------------------------------------------------------------------
// The grammar
// ---------------------------------------------------------------------------

/// The statements from `p` up to the end of input, after `acc`.
pub open spec fn program(t: Seq<TokenView>, p: nat, acc: Seq<StmtV>) -> Result<(Seq<StmtV>, nat), ErrorView>
    decreases t.len() - p, 12nat,
{
    if at_end(t, p) {
        Ok((acc, p))
    } else {
        match declaration(t, p) {
            Ok((s, q)) => if moved(t, p, q) {
                program(t, q, acc.push(s))
            } else {
                Err(stalled())
            },
            Err(e) => Err(e),
        }
    }
}

/// The statements up to a closing brace, and the brace itself.
pub open spec fn block_items(t: Seq<TokenView>, p: nat, acc: Seq<StmtV>) -> Result<(Seq<StmtV>, nat), ErrorView>
    decreases t.len() - p, 11nat,
{
    if check(t, p, TokenKind::RBrace) || at_end(t, p) {
        match consume(t, p, TokenKind::RBrace, "Diperyogikeun '}' saatos blok kode."@) {
            Ok(q) => Ok((acc, q)),
            Err(e) => Err(e),
        }
    } else {
        match declaration(t, p) {
            Ok((s, q)) => if moved(t, p, q) {
                block_items(t, q, acc.push(s))
            } else {
                Err(stalled())
            },
            Err(e) => Err(e),
        }
    }
}

pub open spec fn declaration(t: Seq<TokenView>, p: nat) -> Result<(StmtV, nat), ErrorView>
    decreases t.len() - p, 10nat,
{
    if check(t, p, TokenKind::Variable) {
        variable_declaration(t, p + 1)
    } else if check(t, p, TokenKind::Function) {
        function_declaration(t, p + 1)
    } else {
        statement(t, p)
    }
}

pub open spec fn statement(t: Seq<TokenView>, p: nat) -> Result<(StmtV, nat), ErrorView>
    decreases t.len() - p, 9nat,
{
    if check(t, p, TokenKind::For) {
        for_statement(t, p + 1)
    } else if check(t, p, TokenKind::Print) {
        print_statement(t, p + 1)
    } else if check(t, p, TokenKind::If) {
        if_statement(t, p + 1)
    } else if check(t, p, TokenKind::While) {
        while_statement(t, p + 1)
    } else if check(t, p, TokenKind::Break) {
        match consume(t, p + 1, TokenKind::Semicolon, "Diperyogikeun ';' saatos 'liren'."@) {
            Ok(q) => Ok((StmtV::Break { keyword: at(t, p) }, q)),
            Err(e) => Err(e),
        }
    } else if check(t, p, TokenKind::Continue) {
        match consume(t, p + 1, TokenKind::Semicolon, "Diperyogikeun ';' saatos 'lajeungkeun'."@) {
            Ok(q) => Ok((StmtV::Continue { keyword: at(t, p) }, q)),
            Err(e) => Err(e),
        }
    } else if check(t, p, TokenKind::Return) {
        return_statement(t, p + 1, at(t, p))
    } else if check(t, p, TokenKind::LBrace) {
        match block_items(t, p + 1, seq![]) {
            Ok((ss, q)) => Ok((StmtV::Block(ss), q)),
            Err(e) => Err(e),
        }
    } else {
        expression_statement(t, p)
    }
}

pub open spec fn expression_statement(t: Seq<TokenView>, p: nat) -> Result<(StmtV, nat), ErrorView>
    decreases t.len() - p, 8nat,
{
    match expression(t, p) {
        Ok((e, q)) => match consume(t, q, TokenKind::Semicolon, "Diperyogikeun ';' saatos ekspresi."@) {
            Ok(r) => Ok((StmtV::Expression(e), r)),
            Err(x) => Err(x),
        },
        Err(x) => Err(x),
    }
}

pub open spec fn print_statement(t: Seq<TokenView>, p: nat) -> Result<(StmtV, nat), ErrorView>
    decreases t.len() - p, 8nat,
{
    match consume(t, p, TokenKind::LParen, "Diperyogikeun '(' saatos 'citak'."@) {
        Ok(p1) => match expression(t, p1) {
            Ok((e, q)) => match consume(t, q, TokenKind::RParen, "Diperyogikeun ')' saatos nilai 'citak'."@) {
                Ok(q1) => match consume(
                    t,
                    q1,
                    TokenKind::Semicolon,
                    "Diperyogikeun ';' saatos parentah 'citak'."@,
                ) {
                    Ok(q2) => Ok((StmtV::Print(e), q2)),
                    Err(x) => Err(x),
                },
                Err(x) => Err(x),
            },
            Err(x) => Err(x),
        },
        Err(x) => Err(x),
    }
}

pub open spec fn variable_declaration(t: Seq<TokenView>, p: nat) -> Result<(StmtV, nat), ErrorView>
    decreases t.len() - p, 8nat,
{
    match consume_ident(t, p, "Diperyogikeun nami variabel saatos 'simpen'."@) {
        Ok((name, p1)) => match consume(t, p1, TokenKind::Assign, "Diperyogikeun '=' saatos nami variabel."@) {
            Ok(p2) => match expression(t, p2) {
                Ok((init, q)) => match consume(
                    t,
                    q,
                    TokenKind::Semicolon,
                    "Diperyogikeun ';' saatos deklarasi variabel."@,
                ) {
                    Ok(r) => Ok((StmtV::Variable { name, initializer: init }, r)),
                    Err(x) => Err(x),
                },
                Err(x) => Err(x),
            },
            Err(x) => Err(x),
        },
        Err(x) => Err(x),
    }
}

pub open spec fn function_declaration(t: Seq<TokenView>, p: nat) -> Result<(StmtV, nat), ErrorView>
    decreases t.len() - p, 8nat,
{
    match consume_ident(t, p, "Diperyogikeun nami pancen saatos 'pancen'."@) {
        Ok((name, p1)) => match consume(t, p1, TokenKind::LParen, "Diperyogikeun '(' saatos nami pancen."@) {
            Ok(p2) => match params(t, p2) {
                Ok((ps, p3)) => match consume(t, p3, TokenKind::RParen, "Diperyogikeun ')' saatos parameter."@) {
                    Ok(p4) => match consume(
                        t,
                        p4,
                        TokenKind::LBrace,
                        "Diperyogikeun '{' sateuacan eusi pancen."@,
                    ) {
                        Ok(p5) => {
                            proof {
                                lemma_params(t, p2);
                            }
                            match block_items(t, p5, seq![]) {
                                Ok((body, q)) => Ok((StmtV::Function { name, params: ps, body }, q)),
                                Err(x) => Err(x),
                            }
                        },
                        Err(x) => Err(x),
                    },
                    Err(x) => Err(x),
                },
                Err(x) => Err(x),
            },
            Err(x) => Err(x),
        },
        Err(x) => Err(x),
    }
}

/// The rest of a conditional after its `then` block ends at `q`.
pub open spec fn else_part(t: Seq<TokenView>, p: nat, q: nat) -> Result<(Option<Box<StmtV>>, nat), ErrorView>
    decreases t.len() - p, 7nat,
{
    if check(t, q, TokenKind::Else) {
        if !moved(t, p, q) {
            Err(stalled())
        } else if check(t, q + 1, TokenKind::If) {
            match if_statement(t, q + 2) {
                Ok((s, r)) => Ok((Some(Box::new(s)), r)),
                Err(x) => Err(x),
            }
        } else {
            match consume(t, q + 1, TokenKind::LBrace, "Diperyogikeun '{' saatos 'sanes'."@) {
                Ok(q1) => match block_items(t, q1, seq![]) {
                    Ok((ss, r)) => Ok((Some(Box::new(StmtV::Block(ss))), r)),
                    Err(x) => Err(x),
                },
                Err(x) => Err(x),
            }
        }
    } else {
        Ok((None, q))
    }
}

pub open spec fn if_statement(t: Seq<TokenView>, p: nat) -> Result<(StmtV, nat), ErrorView>
    decreases t.len() - p, 8nat,
{
    match consume(t, p, TokenKind::LParen, "Diperyogikeun '(' saatos 'upami'."@) {
        Ok(p1) => match expression(t, p1) {
            Ok((c, q1)) => match consume(t, q1, TokenKind::RParen, "Diperyogikeun ')' saatos kondisi 'upami'."@) {
                Ok(q2) => match consume(
                    t,
                    q2,
                    TokenKind::LBrace,
                    "Diperyogikeun '{' sateuacan blok 'upami'."@,
                ) {
                    Ok(q3) => if !moved(t, p, q3) {
                        Err(stalled())
                    } else {
                        match block_items(t, q3, seq![]) {
                            Ok((then_items, q4)) => match else_part(t, p, q4) {
                                Ok((else_branch, r)) => Ok(
                                    (
                                        StmtV::If {
                                            condition: c,
                                            then_branch: Box::new(StmtV::Block(then_items)),
                                            else_branch,
                                        },
                                        r,
                                    ),
                                ),
                                Err(x) => Err(x),
                            },
                            Err(x) => Err(x),
                        }
                    },
                    Err(x) => Err(x),
                },
                Err(x) => Err(x),
            },
            Err(x) => Err(x),
        },
        Err(x) => Err(x),
    }
}

pub open spec fn while_statement(t: Seq<TokenView>, p: nat) -> Result<(StmtV, nat), ErrorView>
    decreases t.len() - p, 8nat,
{
    match consume(t, p, TokenKind::LParen, "Diperyogikeun '(' saatos 'ngulang'."@) {
        Ok(p1) => match expression(t, p1) {
            Ok((c, q1)) => match consume(
                t,
                q1,
                TokenKind::RParen,
                "Diperyogikeun ')' saatos kondisi 'ngulang'."@,
            ) {
                Ok(q2) => match consume(
                    t,
                    q2,
                    TokenKind::LBrace,
                    "Diperyogikeun '{' sateuacan blok 'ngulang'."@,
                ) {
                    Ok(q3) => if !moved(t, p, q3) {
                        Err(stalled())
                    } else {
                        match block_items(t, q3, seq![]) {
                            Ok((body, r)) => Ok(
                                (
                                    StmtV::While {
                                        condition: c,
                                        body: Box::new(StmtV::Block(body)),
                                        increment: None,
                                    },
                                    r,
                                ),
                            ),
                            Err(x) => Err(x),
                        }
                    },
                    Err(x) => Err(x),
                },
                Err(x) => Err(x),
            },
            Err(x) => Err(x),
        },
        Err(x) => Err(x),
    }
}

/// The initializer clause of a `for` loop, starting right after its parenthesis.
pub open spec fn for_init(t: Seq<TokenView>, p: nat) -> Result<(Option<StmtV>, nat), ErrorView>
    decreases t.len() - p, 9nat,
{
    if check(t, p, TokenKind::Semicolon) {
        Ok((None, p + 1))
    } else if check(t, p, TokenKind::Variable) {
        match variable_declaration(t, p + 1) {
            Ok((s, q)) => Ok((Some(s), q)),
            Err(x) => Err(x),
        }
    } else {
        match expression_statement(t, p) {
            Ok((s, q)) => Ok((Some(s), q)),
            Err(x) => Err(x),
        }
    }
}

/// The condition clause of a `for` loop; an absent condition is `true`.
pub open spec fn for_condition(t: Seq<TokenView>, p: nat) -> Result<(ExprV, nat), ErrorView>
    decreases t.len() - p, 8nat,
{
    if !check(t, p, TokenKind::Semicolon) {
        expression(t, p)
    } else {
        Ok((ExprV::Boolean(true), p))
    }
}

/// The increment clause of a `for` loop, which may be absent.
pub open spec fn for_increment(t: Seq<TokenView>, p: nat) -> Result<(Option<ExprV>, nat), ErrorView>
    decreases t.len() - p, 8nat,
{
    if !check(t, p, TokenKind::RParen) {
        match expression(t, p) {
            Ok((e, q)) => Ok((Some(e), q)),
            Err(x) => Err(x),
        }
    } else {
        Ok((None, p))
    }
}

/// The rest of a `for` loop after its initializer: condition, increment and body,
/// written as a `while` loop inside a block that holds the initializer.
/// The loop that a `for` statement stands for: a `while` loop with the
/// increment attached, inside a block with the initializer when there is one.
pub open spec fn desugar_for(init: Option<StmtV>, c: ExprV, inc: Option<ExprV>, body: StmtV) -> StmtV {
    let loop_stmt = StmtV::While { condition: c, body: Box::new(body), increment: inc };
    match init {
        Some(s) => StmtV::Block(seq![s, loop_stmt]),
        None => loop_stmt,
    }
}

pub open spec fn for_clauses(t: Seq<TokenView>, p: nat, init: Option<StmtV>) -> Result<(StmtV, nat), ErrorView>
    decreases t.len() - p, 9nat,
{
    match for_condition(t, p) {
        Ok((c, p3)) => match consume(t, p3, TokenKind::Semicolon, "Diperyogikeun ';' saatos kondisi 'pikeun'."@) {
            Ok(p4) => if !moved(t, p, p4) {
                Err(stalled())
            } else {
                match for_increment(t, p4) {
                    Ok((inc, p5)) => match consume(
                        t,
                        p5,
                        TokenKind::RParen,
                        "Diperyogikeun ')' saatos klausul 'pikeun'."@,
                    ) {
                        Ok(p6) => if !moved(t, p, p6) {
                            Err(stalled())
                        } else {
                            match statement(t, p6) {
                                Ok((body, q)) => Ok((desugar_for(init, c, inc, body), q)),
                                Err(x) => Err(x),
                            }
                        },
                        Err(x) => Err(x),
                    },
                    Err(x) => Err(x),
                }
            },
            Err(x) => Err(x),
        },
        Err(x) => Err(x),
    }
}

/// A `for` loop.
pub open spec fn for_statement(t: Seq<TokenView>, p: nat) -> Result<(StmtV, nat), ErrorView>
    decreases t.len() - p, 10nat,
{
    match consume(t, p, TokenKind::LParen, "Diperyogikeun '(' saatos 'pikeun'."@) {
        Ok(p1) => match for_init(t, p1) {
            Ok((init, p2)) => if !moved(t, p, p2) {
                Err(stalled())
            } else {
                for_clauses(t, p2, init)
            },
            Err(x) => Err(x),
        },
        Err(x) => Err(x),
    }
}

pub open spec fn return_statement(t: Seq<TokenView>, p: nat, keyword: TokenView) -> Result<(StmtV, nat), ErrorView>
    decreases t.len() - p, 8nat,
{
    if !check(t, p, TokenKind::Semicolon) {
        match expression(t, p) {
            Ok((v, q)) => match consume(
                t,
                q,
                TokenKind::Semicolon,
                "Diperyogikeun ';' saatos parentah 'wangsul'."@,
            ) {
                Ok(r) => Ok((StmtV::Return { keyword, value: Some(v) }, r)),
                Err(x) => Err(x),
            },
            Err(x) => Err(x),
        }
    } else {
        match consume(t, p, TokenKind::Semicolon, "Diperyogikeun ';' saatos parentah 'wangsul'."@) {
            Ok(r) => Ok((StmtV::Return { keyword, value: None }, r)),
            Err(x) => Err(x),
        }
    }
}

pub open spec fn expression(t: Seq<TokenView>, p: nat) -> Result<(ExprV, nat), ErrorView>
    decreases t.len() - p, 7nat,
{
    parse_precedence(t, p, 1)
}

/// An expression whose operators bind at least as strongly as `level`.
pub open spec fn parse_precedence(t: Seq<TokenView>, p: nat, level: nat) -> Result<(ExprV, nat), ErrorView>
    decreases t.len() - p, 6nat,
{
    match parse_prefix(t, p) {
        Ok((left, q)) => if !kept(t, p, q) {
            Err(stalled())
        } else {
            infix_loop(t, left, q, level)
        },
        Err(x) => Err(x),
    }
}

/// Extends `left` with the operators from `q` on that bind at least as strongly as `level`.
pub open spec fn infix_loop(t: Seq<TokenView>, left: ExprV, q: nat, level: nat) -> Result<(ExprV, nat), ErrorView>
    decreases t.len() - q, 5nat,
{
    if level <= prec_of(at(t, q).kind) {
        match parse_infix(t, left, q) {
            Ok((e, r)) => if !moved(t, q, r) {
                Err(stalled())
            } else {
                infix_loop(t, e, r, level)
            },
            Err(x) => Err(x),
        }
    } else {
        Ok((left, q))
    }
}

/// Whether the token before the end of input, read at the end of input, would make
/// the prefix rules read the same token again without end.
pub open spec fn rereads_forever(k: TokenKind) -> bool {
    k is LParen || k is LBracket || k is Minus || k is Bang
}

/// The expression that starts at `p`, before any infix operator.
pub open spec fn parse_prefix(t: Seq<TokenView>, p: nat) -> Result<(ExprV, nat), ErrorView>
    decreases t.len() - p, 3nat,
{
    let p1 = advance_pos(t, p);
    let tok = at(t, (p1 - 1) as nat);
    if at_end(t, p) && rereads_forever(tok.kind) {
        Err(parse_error(tok, "Ekspresi teu sah atanapi teu dipikawanoh."@))
    } else {
        match tok.kind {
            TokenKind::Integer(v) => Ok((ExprV::Integer(v), p1)),
            TokenKind::Float(x) => Ok((ExprV::Float(x), p1)),
            TokenKind::Str(x) => Ok((ExprV::Str(x), p1)),
            TokenKind::True => Ok((ExprV::Boolean(true), p1)),
            TokenKind::False => Ok((ExprV::Boolean(false), p1)),
            TokenKind::Null => Ok((ExprV::Null, p1)),
            TokenKind::Identifier => Ok((ExprV::Variable { name: tok }, p1)),
            TokenKind::Function => match consume(t, p1, TokenKind::LParen, "Diperyogikeun '(' saatos 'pancen'."@) {
                Ok(a) => match params(t, a) {
                    Ok((ps, b)) => match consume(t, b, TokenKind::RParen, "Diperyogikeun ')' saatos parameter."@) {
                        Ok(c) => match consume(
                            t,
                            c,
                            TokenKind::LBrace,
                            "Diperyogikeun '{' sateuacan eusi pancen."@,
                        ) {
                            Ok(d) => {
                                proof {
                                    lemma_params(t, a);
                                }
                                match block_items(t, d, seq![]) {
                                    Ok((body, q)) => Ok((ExprV::Function { params: ps, body }, q)),
                                    Err(x) => Err(x),
                                }
                            },
                            Err(x) => Err(x),
                        },
                        Err(x) => Err(x),
                    },
                    Err(x) => Err(x),
                },
                Err(x) => Err(x),
            },
            TokenKind::LParen => match expression(t, p1) {
                Ok((e, q)) => match consume(t, q, TokenKind::RParen, "Diperyogikeun ')' saatos ekspresi."@) {
                    Ok(r) => Ok((e, r)),
                    Err(x) => Err(x),
                },
                Err(x) => Err(x),
            },
            TokenKind::LBracket => match (if !check(t, p1, TokenKind::RBracket) {
                list_items(t, p1, seq![])
            } else {
                Ok((seq![], p1))
            }) {
                Ok((elements, q)) => match consume(
                    t,
                    q,
                    TokenKind::RBracket,
                    "Diperyogikeun ']' saatos elemen daptar."@,
                ) {
                    Ok(r) => Ok((ExprV::Array { elements }, r)),
                    Err(x) => Err(x),
                },
                Err(x) => Err(x),
            },
            TokenKind::LBrace => if p1 == p {
                Err(parse_error(at(t, p), "Diperyogikeun nami properti objek."@))
            } else {
                match (if !check(t, p1, TokenKind::RBrace) {
                    property_items(t, p1, seq![])
                } else {
                    Ok((seq![], p1))
                }) {
                    Ok((properties, q)) => match consume(
                        t,
                        q,
                        TokenKind::RBrace,
                        "Diperyogikeun '}' saatos properti objek."@,
                    ) {
                        Ok(r) => Ok((ExprV::Object { properties }, r)),
                        Err(x) => Err(x),
                    },
                    Err(x) => Err(x),
                }
            },
            TokenKind::Minus | TokenKind::Bang => match parse_precedence(t, p1, 8) {
                Ok((right, q)) => Ok((ExprV::Unary { operator: tok, right: Box::new(right) }, q)),
                Err(x) => Err(x),
            },
            _ => Err(parse_error(tok, "Ekspresi teu sah atanapi teu dipikawanoh."@)),
        }
    }
}

/// Expressions separated by commas, from `p` on, after `acc`.
pub open spec fn list_items(t: Seq<TokenView>, p: nat, acc: Seq<ExprV>) -> Result<(Seq<ExprV>, nat), ErrorView>
    decreases t.len() - p, 8nat,
{
    match expression(t, p) {
        Ok((e, q)) => if check(t, q, TokenKind::Comma) {
            if !kept(t, p, q) {
                Err(stalled())
            } else {
                list_items(t, q + 1, acc.push(e))
            }
        } else {
            Ok((acc.push(e), q))
        },
        Err(x) => Err(x),
    }
}

/// Object properties `name: value` separated by commas, from `p` on, after `acc`.
pub open spec fn property_items(t: Seq<TokenView>, p: nat, acc: Seq<(TokenView, ExprV)>) -> Result<
    (Seq<(TokenView, ExprV)>, nat),
    ErrorView,
>
    decreases t.len() - p, 8nat,
{
    match consume_ident(t, p, "Diperyogikeun nami properti objek."@) {
        Ok((name, p1)) => match consume(t, p1, TokenKind::Colon, "Diperyogikeun ':' saatos nami properti."@) {
            Ok(p2) => match expression(t, p2) {
                Ok((v, q)) => if check(t, q, TokenKind::Comma) {
                    if !kept(t, p, q) {
                        Err(stalled())
                    } else {
                        property_items(t, q + 1, acc.push((name, v)))
                    }
                } else {
                    Ok((acc.push((name, v)), q))
                },
                Err(x) => Err(x),
            },
            Err(x) => Err(x),
        },
        Err(x) => Err(x),
    }
}

/// The operator at `q` applied to `left`, with what follows it.
pub open spec fn parse_infix(t: Seq<TokenView>, left: ExprV, q: nat) -> Result<(ExprV, nat), ErrorView>
    decreases t.len() - q, 4nat,
{
    let op = at(t, q);
    let p = q + 1;
    match op.kind {
        TokenKind::Plus
        | TokenKind::Minus
        | TokenKind::Star
        | TokenKind::Slash
        | TokenKind::Percent
        | TokenKind::Equal
        | TokenKind::BangEqual
        | TokenKind::LessThan
        | TokenKind::LessEqual
        | TokenKind::GreaterThan
        | TokenKind::GreaterEqual => match parse_precedence(t, p, next_prec(prec_of(op.kind))) {
            Ok((right, r)) => Ok((ExprV::Binary { left: Box::new(left), operator: op, right: Box::new(right) }, r)),
            Err(x) => Err(x),
        },
        TokenKind::Or | TokenKind::And => match parse_precedence(t, p, next_prec(prec_of(op.kind))) {
            Ok((right, r)) => Ok((ExprV::Logical { left: Box::new(left), operator: op, right: Box::new(right) }, r)),
            Err(x) => Err(x),
        },
        TokenKind::Assign => match parse_precedence(t, p, 1) {
            Ok((value, r)) => match left {
                ExprV::Variable { name } => Ok((ExprV::Assign { name, value: Box::new(value) }, r)),
                ExprV::Index { array, index, .. } => Ok(
                    (ExprV::AssignIndex { array, index, value: Box::new(value) }, r),
                ),
                ExprV::GetProperty { object, name } => Ok(
                    (ExprV::SetProperty { object, name, value: Box::new(value) }, r),
                ),
                _ => Err(parse_error(op, "Target panugasan teu sah."@)),
            },
            Err(x) => Err(x),
        },
        TokenKind::LParen => match (if !check(t, p, TokenKind::RParen) {
            list_items(t, p, seq![])
        } else {
            Ok((seq![], p))
        }) {
            Ok((arguments, r)) => match consume(
                t,
                r,
                TokenKind::RParen,
                "Diperyogikeun ')' saatos argumen pancen."@,
            ) {
                Ok(r1) => Ok(
                    (ExprV::Call { callee: Box::new(left), arguments, paren_line: at(t, r).line }, r1),
                ),
                Err(x) => Err(x),
            },
            Err(x) => Err(x),
        },
        TokenKind::LBracket => match expression(t, p) {
            Ok((index, r)) => match consume(
                t,
                r,
                TokenKind::RBracket,
                "Diperyogikeun ']' saatos indeks daptar."@,
            ) {
                Ok(r1) => Ok(
                    (
                        ExprV::Index {
                            array: Box::new(left),
                            index: Box::new(index),
                            bracket_line: at(t, r).line,
                        },
                        r1,
                    ),
                ),
                Err(x) => Err(x),
            },
            Err(x) => Err(x),
        },
        TokenKind::Dot => match consume_ident(t, p, "Diperyogikeun nami properti saatos '.'."@) {
            Ok((name, r)) => Ok((ExprV::GetProperty { object: Box::new(left), name }, r)),
            Err(x) => Err(x),
        },
        _ => Ok((left, q)),
    }
}

/// The statements of a whole token sequence, or the first syntax error.
pub open spec fn spec_parse(t: Seq<TokenView>) -> Result<Seq<StmtV>, ErrorView> {
    match program(t, 0, seq![]) {
        Ok((stmts, _)) => Ok(stmts),
        Err(e) => Err(e),
    }
}

} // verus!

verus! {

// ---------------------------------------------------------------------------
// Associativity of binary operators
// ---------------------------------------------------------------------------

/// How strongly a binary operator binds, from loosest to tightest: `== !=`,
/// then `< <= > >=`, then `+ -`, then `* / %`; 0 for other tokens.
pub open spec fn binary_rank(k: TokenKind) -> nat {
    if k is Equal || k is BangEqual {
        1
    } else if k is LessThan || k is LessEqual || k is GreaterThan || k is GreaterEqual {
        2
    } else if k is Plus || k is Minus {
        3
    } else if k is Star || k is Slash || k is Percent {
        4
    } else {
        0
    }
}

/// An integer literal followed by a token that binds less strongly than `level`
/// is read on its own.
proof fn lemma_lone_integer(t: Seq<TokenView>, i: nat, level: nat, v: i64)
    requires
        i + 1 < t.len(),
        t[i as int].kind == TokenKind::Integer(v),
        prec_of(t[i + 1int].kind) < level,
    ensures
        parse_precedence(t, i, level) == Ok::<(ExprV, nat), ErrorView>((ExprV::Integer(v), i + 1)),
{
    assert(at(t, i) == t[i as int]);
    assert(parse_prefix(t, i) == Ok::<(ExprV, nat), ErrorView>((ExprV::Integer(v), i + 1)));
    assert(at(t, i + 1) == t[i + 1int]);
    assert(infix_loop(t, ExprV::Integer(v), i + 1, level) == Ok::<(ExprV, nat), ErrorView>(
        (ExprV::Integer(v), i + 1),
    ));
}

/// Binary operators group to the left unless the second binds more strongly:
/// the tokens `a op1 b op2 c ;`, with `a`, `b`, `c` integer literals and `op2`
/// binding no more strongly than `op1` (in particular of the same level), are
/// read as `(a op1 b) op2 c`. The right operand of a binary operator takes only
/// operators that bind more strongly than it.
pub proof fn lemma_binary_operators_group_left(t: Seq<TokenView>, p: nat, a: i64, b: i64, c: i64)
    requires
        p + 6 <= t.len(),
        t[p as int].kind == TokenKind::Integer(a),
        t[p + 2int].kind == TokenKind::Integer(b),
        t[p + 4int].kind == TokenKind::Integer(c),
        0 < binary_rank(t[p + 3int].kind) <= binary_rank(t[p + 1int].kind),
        t[p + 5int].kind is Semicolon,
    ensures
        expression(t, p) == Ok::<(ExprV, nat), ErrorView>(
            (
                ExprV::Binary {
                    left: Box::new(
                        ExprV::Binary {
                            left: Box::new(ExprV::Integer(a)),
                            operator: t[p + 1int],
                            right: Box::new(ExprV::Integer(b)),
                        },
                    ),
                    operator: t[p + 3int],
                    right: Box::new(ExprV::Integer(c)),
                },
                (p + 5) as nat,
            ),
        ),
{
    let op1 = t[p + 1int];
    let op2 = t[p + 3int];
    let level = prec_of(op1.kind);
    assert(4 <= prec_of(op2.kind) <= level <= 7);
    let e0 = ExprV::Integer(a);
    let e1 = ExprV::Binary { left: Box::new(e0), operator: op1, right: Box::new(ExprV::Integer(b)) };
    let e2 = ExprV::Binary { left: Box::new(e1), operator: op2, right: Box::new(ExprV::Integer(c)) };
    assert(at(t, p) == t[p as int]);
    assert(at(t, p + 1) == op1);
    assert(at(t, p + 3) == op2);
    assert(at(t, p + 5) == t[p + 5int]);
    assert(parse_prefix(t, p) == Ok::<(ExprV, nat), ErrorView>((e0, p + 1)));
    lemma_lone_integer(t, p + 2, next_prec(level), b);
    assert(parse_infix(t, e0, p + 1) == Ok::<(ExprV, nat), ErrorView>((e1, (p + 3) as nat)));
    lemma_lone_integer(t, p + 4, next_prec(level), c);
    assert(parse_infix(t, e1, (p + 3) as nat) == Ok::<(ExprV, nat), ErrorView>((e2, (p + 5) as nat)));
    assert(infix_loop(t, e2, (p + 5) as nat, 1) == Ok::<(ExprV, nat), ErrorView>((e2, (p + 5) as nat)));
    assert(infix_loop(t, e1, (p + 3) as nat, 1) == Ok::<(ExprV, nat), ErrorView>((e2, (p + 5) as nat)));
    assert(infix_loop(t, e0, p + 1, 1) == Ok::<(ExprV, nat), ErrorView>((e2, (p + 5) as nat)));
    assert(parse_precedence(t, p, 1) == Ok::<(ExprV, nat), ErrorView>((e2, (p + 5) as nat)));
}

/// A second operator that binds more strongly takes the middle operand: the
/// tokens `a op1 b op2 c ;`, with integer literals and `op2` binding more
/// strongly than `op1` (as `*` than `+`), are read as `a op1 (b op2 c)`.
pub proof fn lemma_tighter_operator_groups_right(t: Seq<TokenView>, p: nat, a: i64, b: i64, c: i64)
    requires
        p + 6 <= t.len(),
        t[p as int].kind == TokenKind::Integer(a),
        t[p + 2int].kind == TokenKind::Integer(b),
        t[p + 4int].kind == TokenKind::Integer(c),
        0 < binary_rank(t[p + 1int].kind) < binary_rank(t[p + 3int].kind),
        t[p + 5int].kind is Semicolon,
    ensures
        expression(t, p) == Ok::<(ExprV, nat), ErrorView>(
            (
                ExprV::Binary {
                    left: Box::new(ExprV::Integer(a)),
                    operator: t[p + 1int],
                    right: Box::new(
                        ExprV::Binary {
                            left: Box::new(ExprV::Integer(b)),
                            operator: t[p + 3int],
                            right: Box::new(ExprV::Integer(c)),
                        },
                    ),
                },
                (p + 5) as nat,
            ),
        ),
{
    let op1 = t[p + 1int];
    let op2 = t[p + 3int];
    let level = prec_of(op1.kind);
    assert(4 <= level < prec_of(op2.kind) <= 7);
    let e0 = ExprV::Integer(a);
    let eb = ExprV::Integer(b);
    let inner = ExprV::Binary { left: Box::new(eb), operator: op2, right: Box::new(ExprV::Integer(c)) };
    let whole = ExprV::Binary { left: Box::new(e0), operator: op1, right: Box::new(inner) };
    assert(at(t, p) == t[p as int]);
    assert(at(t, p + 1) == op1);
    assert(at(t, (p + 2) as nat) == t[p + 2int]);
    assert(at(t, (p + 3) as nat) == op2);
    assert(at(t, (p + 5) as nat) == t[p + 5int]);
    assert(parse_prefix(t, p) == Ok::<(ExprV, nat), ErrorView>((e0, p + 1)));
    lemma_lone_integer(t, (p + 4) as nat, next_prec(prec_of(op2.kind)), c);
    assert(parse_infix(t, eb, (p + 3) as nat) == Ok::<(ExprV, nat), ErrorView>((inner, (p + 5) as nat)));
    assert(infix_loop(t, inner, (p + 5) as nat, next_prec(level)) == Ok::<(ExprV, nat), ErrorView>(
        (inner, (p + 5) as nat),
    ));
    assert(infix_loop(t, eb, (p + 3) as nat, next_prec(level)) == Ok::<(ExprV, nat), ErrorView>(
        (inner, (p + 5) as nat),
    ));
    assert(parse_prefix(t, (p + 2) as nat) == Ok::<(ExprV, nat), ErrorView>((eb, (p + 3) as nat)));
    assert(parse_precedence(t, (p + 2) as nat, next_prec(level)) == Ok::<(ExprV, nat), ErrorView>(
        (inner, (p + 5) as nat),
    ));
    assert(parse_infix(t, e0, p + 1) == Ok::<(ExprV, nat), ErrorView>((whole, (p + 5) as nat)));
    assert(infix_loop(t, whole, (p + 5) as nat, 1) == Ok::<(ExprV, nat), ErrorView>((whole, (p + 5) as nat)));
    assert(infix_loop(t, e0, p + 1, 1) == Ok::<(ExprV, nat), ErrorView>((whole, (p + 5) as nat)));
}

/// The simple statements read as what their first word says: `liren ;` is a
/// break, `lajeungkeun ;` a continue, `wangsul ;` a return of nothing, each
/// carrying its keyword; `citak ( a ) ;` prints the integer `a`; and
/// `simpen x = a ;` declares `x` with the integer `a`.
pub proof fn lemma_simple_statements(t: Seq<TokenView>, p: nat, a: i64)
    ensures
        p + 2 <= t.len() && t[p as int].kind is Break && t[p + 1int].kind is Semicolon ==> declaration(t, p) == Ok::<
            (StmtV, nat),
            ErrorView,
        >((StmtV::Break { keyword: t[p as int] }, p + 2)),
        p + 2 <= t.len() && t[p as int].kind is Continue && t[p + 1int].kind is Semicolon ==> declaration(t, p)
            == Ok::<(StmtV, nat), ErrorView>((StmtV::Continue { keyword: t[p as int] }, p + 2)),
        p + 2 <= t.len() && t[p as int].kind is Return && t[p + 1int].kind is Semicolon ==> declaration(t, p)
            == Ok::<(StmtV, nat), ErrorView>((StmtV::Return { keyword: t[p as int], value: None }, p + 2)),
        p + 5 <= t.len() && t[p as int].kind is Print && t[p + 1int].kind is LParen && t[p + 2int].kind
            == TokenKind::Integer(a) && t[p + 3int].kind is RParen && t[p + 4int].kind is Semicolon ==> declaration(
            t,
            p,
        ) == Ok::<(StmtV, nat), ErrorView>((StmtV::Print(ExprV::Integer(a)), p + 5)),
        p + 5 <= t.len() && t[p as int].kind is Variable && t[p + 1int].kind is Identifier && t[p + 2int].kind
            is Assign && t[p + 3int].kind == TokenKind::Integer(a) && t[p + 4int].kind is Semicolon ==> declaration(
            t,
            p,
        ) == Ok::<(StmtV, nat), ErrorView>(
            (StmtV::Variable { name: t[p + 1int], initializer: ExprV::Integer(a) }, p + 5),
        ),
{
    if p + 2 <= t.len() {
        assert(at(t, p) == t[p as int]);
        assert(at(t, p + 1) == t[p + 1int]);
    }
    if p + 5 <= t.len() {
        assert(at(t, (p + 2) as nat) == t[p + 2int]);
        assert(at(t, (p + 3) as nat) == t[p + 3int]);
        assert(at(t, (p + 4) as nat) == t[p + 4int]);
        if t[p as int].kind is Print && t[p + 1int].kind is LParen && t[p + 2int].kind == TokenKind::Integer(a)
            && t[p + 3int].kind is RParen {
            lemma_lone_integer(t, (p + 2) as nat, 1, a);
            assert(expression(t, (p + 2) as nat) == Ok::<(ExprV, nat), ErrorView>(
                (ExprV::Integer(a), (p + 3) as nat),
            ));
            if t[p + 4int].kind is Semicolon {
                assert(print_statement(t, p + 1) == Ok::<(StmtV, nat), ErrorView>(
                    (StmtV::Print(ExprV::Integer(a)), p + 5),
                ));
                assert(statement(t, p) == Ok::<(StmtV, nat), ErrorView>((StmtV::Print(ExprV::Integer(a)), p + 5)));
            }
        }
        if t[p as int].kind is Variable && t[p + 1int].kind is Identifier && t[p + 2int].kind is Assign && t[p
            + 3int].kind == TokenKind::Integer(a) && t[p + 4int].kind is Semicolon {
            lemma_lone_integer(t, (p + 3) as nat, 1, a);
        }
    }
}

} // verus!
