use vstd::prelude::*;

verus! {

/// The kinds of tokens of the language.
///
/// A floating-point literal is carried as the decimal text that was read
/// from the source; turning it into a machine number is left to the runtime.
#[derive(Debug, Clone, PartialEq)]
pub enum TokenType {
    Break,
    Continue,
    Else,
    False,
    For,
    Function,
    If,
    Null,
    Print,
    Return,
    True,
    Variable,
    While,
    Identifier,
    Integer(i64),
    Float(String),
    String(String),
    Assign,
    Equal,
    Bang,
    BangEqual,
    And,
    Or,
    LessThan,
    LessEqual,
    GreaterThan,
    GreaterEqual,
    Plus,
    Minus,
    Star,
    Slash,
    Percent,
    LParen,
    RParen,
    LBrace,
    RBrace,
    LBracket,
    RBracket,
    Comma,
    Semicolon,
    Colon,
    Dot,
    Eof,
}

/// The mathematical model of a [`TokenType`]: text payloads are sequences of characters.
pub enum TokenKind {
    Break,
    Continue,
    Else,
    False,
    For,
    Function,
    If,
    Null,
    Print,
    Return,
    True,
    Variable,
    While,
    Identifier,
    Integer(i64),
    Float(Seq<char>),
    Str(Seq<char>),
    Assign,
    Equal,
    Bang,
    BangEqual,
    And,
    Or,
    LessThan,
    LessEqual,
    GreaterThan,
    GreaterEqual,
    Plus,
    Minus,
    Star,
    Slash,
    Percent,
    LParen,
    RParen,
    LBrace,
    RBrace,
    LBracket,
    RBracket,
    Comma,
    Semicolon,
    Colon,
    Dot,
    Eof,
}

impl View for TokenType {
    type V = TokenKind;

    open spec fn view(&self) -> TokenKind {
        match self {
            TokenType::Break => TokenKind::Break,
            TokenType::Continue => TokenKind::Continue,
            TokenType::Else => TokenKind::Else,
            TokenType::False => TokenKind::False,
            TokenType::For => TokenKind::For,
            TokenType::Function => TokenKind::Function,
            TokenType::If => TokenKind::If,
            TokenType::Null => TokenKind::Null,
            TokenType::Print => TokenKind::Print,
            TokenType::Return => TokenKind::Return,
            TokenType::True => TokenKind::True,
            TokenType::Variable => TokenKind::Variable,
            TokenType::While => TokenKind::While,
            TokenType::Identifier => TokenKind::Identifier,
            TokenType::Integer(v) => TokenKind::Integer(*v),
            TokenType::Float(t) => TokenKind::Float(t@),
            TokenType::String(t) => TokenKind::Str(t@),
            TokenType::Assign => TokenKind::Assign,
            TokenType::Equal => TokenKind::Equal,
            TokenType::Bang => TokenKind::Bang,
            TokenType::BangEqual => TokenKind::BangEqual,
            TokenType::And => TokenKind::And,
            TokenType::Or => TokenKind::Or,
            TokenType::LessThan => TokenKind::LessThan,
            TokenType::LessEqual => TokenKind::LessEqual,
            TokenType::GreaterThan => TokenKind::GreaterThan,
            TokenType::GreaterEqual => TokenKind::GreaterEqual,
            TokenType::Plus => TokenKind::Plus,
            TokenType::Minus => TokenKind::Minus,
            TokenType::Star => TokenKind::Star,
            TokenType::Slash => TokenKind::Slash,
            TokenType::Percent => TokenKind::Percent,
            TokenType::LParen => TokenKind::LParen,
            TokenType::RParen => TokenKind::RParen,
            TokenType::LBrace => TokenKind::LBrace,
            TokenType::RBrace => TokenKind::RBrace,
            TokenType::LBracket => TokenKind::LBracket,
            TokenType::RBracket => TokenKind::RBracket,
            TokenType::Comma => TokenKind::Comma,
            TokenType::Semicolon => TokenKind::Semicolon,
            TokenType::Colon => TokenKind::Colon,
            TokenType::Dot => TokenKind::Dot,
            TokenType::Eof => TokenKind::Eof,
        }
    }
}

/// A number that identifies the variant of a token kind, ignoring its payload.
pub open spec fn kind_tag(k: TokenKind) -> nat {
    match k {
        TokenKind::Break => 0,
        TokenKind::Continue => 1,
        TokenKind::Else => 2,
        TokenKind::False => 3,
        TokenKind::For => 4,
        TokenKind::Function => 5,
        TokenKind::If => 6,
        TokenKind::Null => 7,
        TokenKind::Print => 8,
        TokenKind::Return => 9,
        TokenKind::True => 10,
        TokenKind::Variable => 11,
        TokenKind::While => 12,
        TokenKind::Identifier => 13,
        TokenKind::Integer(_) => 14,
        TokenKind::Float(_) => 15,
        TokenKind::Str(_) => 16,
        TokenKind::Assign => 17,
        TokenKind::Equal => 18,
        TokenKind::Bang => 19,
        TokenKind::BangEqual => 20,
        TokenKind::And => 21,
        TokenKind::Or => 22,
        TokenKind::LessThan => 23,
        TokenKind::LessEqual => 24,
        TokenKind::GreaterThan => 25,
        TokenKind::GreaterEqual => 26,
        TokenKind::Plus => 27,
        TokenKind::Minus => 28,
        TokenKind::Star => 29,
        TokenKind::Slash => 30,
        TokenKind::Percent => 31,
        TokenKind::LParen => 32,
        TokenKind::RParen => 33,
        TokenKind::LBrace => 34,
        TokenKind::RBrace => 35,
        TokenKind::LBracket => 36,
        TokenKind::RBracket => 37,
        TokenKind::Comma => 38,
        TokenKind::Semicolon => 39,
        TokenKind::Colon => 40,
        TokenKind::Dot => 41,
        TokenKind::Eof => 42,
    }
}

impl TokenType {
    /// The variant number of this kind (see [`kind_tag`]).
    pub fn tag(&self) -> (r: u8)
        ensures
            r as nat == kind_tag(self@),
    {
        match self {
            TokenType::Break => 0,
            TokenType::Continue => 1,
            TokenType::Else => 2,
            TokenType::False => 3,
            TokenType::For => 4,
            TokenType::Function => 5,
            TokenType::If => 6,
            TokenType::Null => 7,
            TokenType::Print => 8,
            TokenType::Return => 9,
            TokenType::True => 10,
            TokenType::Variable => 11,
            TokenType::While => 12,
            TokenType::Identifier => 13,
            TokenType::Integer(_) => 14,
            TokenType::Float(_) => 15,
            TokenType::String(_) => 16,
            TokenType::Assign => 17,
            TokenType::Equal => 18,
            TokenType::Bang => 19,
            TokenType::BangEqual => 20,
            TokenType::And => 21,
            TokenType::Or => 22,
            TokenType::LessThan => 23,
            TokenType::LessEqual => 24,
            TokenType::GreaterThan => 25,
            TokenType::GreaterEqual => 26,
            TokenType::Plus => 27,
            TokenType::Minus => 28,
            TokenType::Star => 29,
            TokenType::Slash => 30,
            TokenType::Percent => 31,
            TokenType::LParen => 32,
            TokenType::RParen => 33,
            TokenType::LBrace => 34,
            TokenType::RBrace => 35,
            TokenType::LBracket => 36,
            TokenType::RBracket => 37,
            TokenType::Comma => 38,
            TokenType::Semicolon => 39,
            TokenType::Colon => 40,
            TokenType::Dot => 41,
            TokenType::Eof => 42,
        }
    }

    /// A copy of this kind that is equal to it.
    pub fn duplicate(&self) -> (r: TokenType)
        ensures
            r == *self,
    {
        match self {
            TokenType::Integer(v) => TokenType::Integer(*v),
            TokenType::Float(t) => TokenType::Float(t.clone()),
            TokenType::String(t) => TokenType::String(t.clone()),
            TokenType::Break => TokenType::Break,
            TokenType::Continue => TokenType::Continue,
            TokenType::Else => TokenType::Else,
            TokenType::False => TokenType::False,
            TokenType::For => TokenType::For,
            TokenType::Function => TokenType::Function,
            TokenType::If => TokenType::If,
            TokenType::Null => TokenType::Null,
            TokenType::Print => TokenType::Print,
            TokenType::Return => TokenType::Return,
            TokenType::True => TokenType::True,
            TokenType::Variable => TokenType::Variable,
            TokenType::While => TokenType::While,
            TokenType::Identifier => TokenType::Identifier,
            TokenType::Assign => TokenType::Assign,
            TokenType::Equal => TokenType::Equal,
            TokenType::Bang => TokenType::Bang,
            TokenType::BangEqual => TokenType::BangEqual,
            TokenType::And => TokenType::And,
            TokenType::Or => TokenType::Or,
            TokenType::LessThan => TokenType::LessThan,
            TokenType::LessEqual => TokenType::LessEqual,
            TokenType::GreaterThan => TokenType::GreaterThan,
            TokenType::GreaterEqual => TokenType::GreaterEqual,
            TokenType::Plus => TokenType::Plus,
            TokenType::Minus => TokenType::Minus,
            TokenType::Star => TokenType::Star,
            TokenType::Slash => TokenType::Slash,
            TokenType::Percent => TokenType::Percent,
            TokenType::LParen => TokenType::LParen,
            TokenType::RParen => TokenType::RParen,
            TokenType::LBrace => TokenType::LBrace,
            TokenType::RBrace => TokenType::RBrace,
            TokenType::LBracket => TokenType::LBracket,
            TokenType::RBracket => TokenType::RBracket,
            TokenType::Comma => TokenType::Comma,
            TokenType::Semicolon => TokenType::Semicolon,
            TokenType::Colon => TokenType::Colon,
            TokenType::Dot => TokenType::Dot,
            TokenType::Eof => TokenType::Eof,
        }
    }
}

/// A token together with the text it was read from and where that text starts.
#[derive(Debug, Clone, PartialEq)]
pub struct Token {
    pub kind: TokenType,
    pub lexeme: String,
    pub line: usize,
    pub column: usize,
}

/// The mathematical model of a [`Token`].
pub struct TokenView {
    pub kind: TokenKind,
    pub lexeme: Seq<char>,
    pub line: nat,
    pub column: nat,
}

impl View for Token {
    type V = TokenView;

    open spec fn view(&self) -> TokenView {
        TokenView {
            kind: self.kind@,
            lexeme: self.lexeme@,
            line: self.line as nat,
            column: self.column as nat,
        }
    }
}

impl Token {
    pub fn new(kind: TokenType, lexeme: String, line: usize, column: usize) -> (r: Self)
        ensures
            r.kind == kind,
            r.lexeme == lexeme,
            r.line == line,
            r.column == column,
    {
        Token { kind, lexeme, line, column }
    }

    /// A copy of this token that is equal to it.
    pub fn duplicate(&self) -> (r: Token)
        ensures
            r == *self,
    {
        Token {
            kind: self.kind.duplicate(),
            lexeme: self.lexeme.clone(),
            line: self.line,
            column: self.column,
        }
    }
}

/// The models of a sequence of tokens.
pub open spec fn tokens_view(ts: Seq<Token>) -> Seq<TokenView> {
    ts.map_values(|t: Token| t@)
}

} // verus!
