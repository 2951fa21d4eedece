use vstd::prelude::*;

use crate::token::{tokens_view, Token, TokenView};

verus! {

/// Expressions of the language.
///
/// A floating-point literal is carried as the decimal text it was written with.
#[derive(Debug, PartialEq)]
pub enum Expr {
    Integer(i64),
    Float(String),
    String(String),
    Boolean(bool),
    Null,
    Function { params: Vec<Token>, body: Vec<Stmt> },
    Variable { name: Token },
    Assign { name: Token, value: Box<Expr> },
    Unary { operator: Token, right: Box<Expr> },
    Binary { left: Box<Expr>, operator: Token, right: Box<Expr> },
    Logical { left: Box<Expr>, operator: Token, right: Box<Expr> },
    Call { callee: Box<Expr>, arguments: Vec<Expr>, paren_line: usize },
    Array { elements: Vec<Expr> },
    Index { array: Box<Expr>, index: Box<Expr>, bracket_line: usize },
    AssignIndex { array: Box<Expr>, index: Box<Expr>, value: Box<Expr> },
    Object { properties: Vec<(Token, Expr)> },
    GetProperty { object: Box<Expr>, name: Token },
    SetProperty { object: Box<Expr>, name: Token, value: Box<Expr> },
}

/// Statements of the language.
#[allow(inconsistent_fields)]
#[derive(Debug, PartialEq)]
pub enum Stmt {
    Expression(Expr),
    Print(Expr),
    Block(Vec<Stmt>),
    Variable { name: Token, initializer: Expr },
    Function { name: Token, params: Vec<Token>, body: Vec<Stmt> },
    If { condition: Expr, then_branch: Box<Stmt>, else_branch: Option<Box<Stmt>> },
    While { condition: Expr, body: Box<Stmt>, increment: Option<Expr> },
    Break { keyword: Token },
    Continue { keyword: Token },
    Return { keyword: Token, value: Option<Expr> },
}

/// The mathematical model of an [`Expr`].
pub enum ExprV {
    Integer(i64),
    Float(Seq<char>),
    Str(Seq<char>),
    Boolean(bool),
    Null,
    Function { params: Seq<TokenView>, body: Seq<StmtV> },
    Variable { name: TokenView },
    Assign { name: TokenView, value: Box<ExprV> },
    Unary { operator: TokenView, right: Box<ExprV> },
    Binary { left: Box<ExprV>, operator: TokenView, right: Box<ExprV> },
    Logical { left: Box<ExprV>, operator: TokenView, right: Box<ExprV> },
    Call { callee: Box<ExprV>, arguments: Seq<ExprV>, paren_line: nat },
    Array { elements: Seq<ExprV> },
    Index { array: Box<ExprV>, index: Box<ExprV>, bracket_line: nat },
    AssignIndex { array: Box<ExprV>, index: Box<ExprV>, value: Box<ExprV> },
    Object { properties: Seq<(TokenView, ExprV)> },
    GetProperty { object: Box<ExprV>, name: TokenView },
    SetProperty { object: Box<ExprV>, name: TokenView, value: Box<ExprV> },
}

/// The mathematical model of a [`Stmt`].
#[allow(inconsistent_fields)]
pub enum StmtV {
    Expression(ExprV),
    Print(ExprV),
    Block(Seq<StmtV>),
    Variable { name: TokenView, initializer: ExprV },
    Function { name: TokenView, params: Seq<TokenView>, body: Seq<StmtV> },
    If { condition: ExprV, then_branch: Box<StmtV>, else_branch: Option<Box<StmtV>> },
    While { condition: ExprV, body: Box<StmtV>, increment: Option<ExprV> },
    Break { keyword: TokenView },
    Continue { keyword: TokenView },
    Return { keyword: TokenView, value: Option<ExprV> },
}

/// The models of a sequence of statements.
pub open spec fn stmts_model(v: Seq<Stmt>) -> Seq<StmtV>
    decreases v,
{
    Seq::new(v.len(), |i: int| if 0 <= i < v.len() { v[i].model() } else { StmtV::Block(seq![]) })
}

/// The models of a sequence of expressions.
pub open spec fn exprs_model(v: Seq<Expr>) -> Seq<ExprV>
    decreases v,
{
    Seq::new(v.len(), |i: int| if 0 <= i < v.len() { v[i].model() } else { ExprV::Null })
}

/// The models of the properties of an object literal.
pub open spec fn props_model(v: Seq<(Token, Expr)>) -> Seq<(TokenView, ExprV)>
    decreases v,
{
    Seq::new(
        v.len(),
        |i: int| if 0 <= i < v.len() { (v[i].0@, v[i].1.model()) } else { (v[i].0@, ExprV::Null) },
    )
}

impl Expr {
    /// The model of this expression.
    pub open spec fn model(&self) -> ExprV
        decreases self,
    {
        match self {
            Expr::Integer(v) => ExprV::Integer(*v),
            Expr::Float(t) => ExprV::Float(t@),
            Expr::String(t) => ExprV::Str(t@),
            Expr::Boolean(b) => ExprV::Boolean(*b),
            Expr::Null => ExprV::Null,
            Expr::Function { params, body } => ExprV::Function {
                params: tokens_view(params@),
                body: stmts_model(body@),
            },
            Expr::Variable { name } => ExprV::Variable { name: name@ },
            Expr::Assign { name, value } => ExprV::Assign { name: name@, value: Box::new(value.model()) },
            Expr::Unary { operator, right } => ExprV::Unary {
                operator: operator@,
                right: Box::new(right.model()),
            },
            Expr::Binary { left, operator, right } => ExprV::Binary {
                left: Box::new(left.model()),
                operator: operator@,
                right: Box::new(right.model()),
            },
            Expr::Logical { left, operator, right } => ExprV::Logical {
                left: Box::new(left.model()),
                operator: operator@,
                right: Box::new(right.model()),
            },
            Expr::Call { callee, arguments, paren_line } => ExprV::Call {
                callee: Box::new(callee.model()),
                arguments: exprs_model(arguments@),
                paren_line: *paren_line as nat,
            },
            Expr::Array { elements } => ExprV::Array {
                elements: exprs_model(elements@),
            },
            Expr::Index { array, index, bracket_line } => ExprV::Index {
                array: Box::new(array.model()),
                index: Box::new(index.model()),
                bracket_line: *bracket_line as nat,
            },
            Expr::AssignIndex { array, index, value } => ExprV::AssignIndex {
                array: Box::new(array.model()),
                index: Box::new(index.model()),
                value: Box::new(value.model()),
            },
            Expr::Object { properties } => ExprV::Object {
                properties: props_model(properties@),
            },
            Expr::GetProperty { object, name } => ExprV::GetProperty {
                object: Box::new(object.model()),
                name: name@,
            },
            Expr::SetProperty { object, name, value } => ExprV::SetProperty {
                object: Box::new(object.model()),
                name: name@,
                value: Box::new(value.model()),
            },
        }
    }
}

impl Stmt {
    /// The model of this statement.
    pub open spec fn model(&self) -> StmtV
        decreases self,
    {
        match self {
            Stmt::Expression(e) => StmtV::Expression(e.model()),
            Stmt::Print(e) => StmtV::Print(e.model()),
            Stmt::Block(stmts) => StmtV::Block(stmts_model(stmts@)),
            Stmt::Variable { name, initializer } => StmtV::Variable {
                name: name@,
                initializer: initializer.model(),
            },
            Stmt::Function { name, params, body } => StmtV::Function {
                name: name@,
                params: tokens_view(params@),
                body: stmts_model(body@),
            },
            Stmt::If { condition, then_branch, else_branch } => StmtV::If {
                condition: condition.model(),
                then_branch: Box::new(then_branch.model()),
                else_branch: match else_branch {
                    Some(b) => Some(Box::new(b.model())),
                    None => None,
                },
            },
            Stmt::While { condition, body, increment } => StmtV::While {
                condition: condition.model(),
                body: Box::new(body.model()),
                increment: match increment {
                    Some(e) => Some(e.model()),
                    None => None,
                },
            },
            Stmt::Break { keyword } => StmtV::Break { keyword: keyword@ },
            Stmt::Continue { keyword } => StmtV::Continue { keyword: keyword@ },
            Stmt::Return { keyword, value } => StmtV::Return {
                keyword: keyword@,
                value: match value {
                    Some(e) => Some(e.model()),
                    None => None,
                },
            },
        }
    }
}

impl View for Expr {
    type V = ExprV;

    open spec fn view(&self) -> ExprV {
        self.model()
    }
}

impl View for Stmt {
    type V = StmtV;

    open spec fn view(&self) -> StmtV {
        self.model()
    }
}

} // verus!
