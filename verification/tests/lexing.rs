use sundascript::error::ScriptError;
use sundascript::lexer::Lexer;
use sundascript::token::{Token, TokenType};

fn kinds(source: &str) -> Vec<TokenType> {
    Lexer::new(source).tokenize().unwrap().into_iter().map(|t| t.kind).collect()
}

#[test]
fn empty_source_gives_only_end_of_file() {
    let tokens = Lexer::new("").tokenize().unwrap();
    assert_eq!(tokens, vec![Token::new(TokenType::Eof, String::new(), 1, 1)]);
}

#[test]
fn keywords_and_identifiers() {
    assert_eq!(
        kinds("simpen x = leres; citak kosong;"),
        vec![
            TokenType::Variable,
            TokenType::Identifier,
            TokenType::Assign,
            TokenType::True,
            TokenType::Semicolon,
            TokenType::Print,
            TokenType::Null,
            TokenType::Semicolon,
            TokenType::Eof,
        ]
    );
}

#[test]
fn numbers_keep_their_text() {
    assert_eq!(
        kinds("42 3.25"),
        vec![TokenType::Integer(42), TokenType::Float("3.25".to_string()), TokenType::Eof]
    );
}

#[test]
fn two_character_operators() {
    assert_eq!(
        kinds("== != <= >= && || !"),
        vec![
            TokenType::Equal,
            TokenType::BangEqual,
            TokenType::LessEqual,
            TokenType::GreaterEqual,
            TokenType::And,
            TokenType::Or,
            TokenType::Bang,
            TokenType::Eof,
        ]
    );
}

#[test]
fn strings_with_escapes() {
    assert_eq!(
        kinds("\"a\\nb\\\"c\""),
        vec![TokenType::String("a\nb\"c".to_string()), TokenType::Eof]
    );
}

#[test]
fn comments_and_lines_are_tracked() {
    let tokens = Lexer::new("// catetan\n  x").tokenize().unwrap();
    assert_eq!(tokens[0], Token::new(TokenType::Identifier, "x".to_string(), 2, 3));
    assert_eq!(tokens[1].kind, TokenType::Eof);
    assert_eq!((tokens[1].line, tokens[1].column), (2, 4));
}

#[test]
fn unknown_character_is_a_lexer_error() {
    let err = Lexer::new("simpen x = @;").tokenize().unwrap_err();
    assert_eq!(
        err,
        ScriptError::LexerError { line: 1, column: 12, message: "Karakter teu dipikawanoh: '@'.".to_string() }
    );
}

#[test]
fn lone_ampersand_is_a_lexer_error() {
    let err = Lexer::new("a & b").tokenize().unwrap_err();
    assert_eq!(
        err,
        ScriptError::LexerError { line: 1, column: 3, message: "Diperyogikeun '&' saatos '&'.".to_string() }
    );
}

#[test]
fn unterminated_string_is_a_lexer_error() {
    let err = Lexer::new("\"abc").tokenize().unwrap_err();
    match err {
        ScriptError::LexerError { message, .. } => assert_eq!(message, "Kutipan teks teu ditutup ku '\"'."),
        other => panic!("unexpected error {:?}", other),
    }
}

#[test]
fn integer_too_large_is_a_lexer_error() {
    let err = Lexer::new("99999999999999999999").tokenize().unwrap_err();
    match err {
        ScriptError::LexerError { message, .. } => {
            assert_eq!(message, "Gagal maca angka buleud: 99999999999999999999.")
        }
        other => panic!("unexpected error {:?}", other),
    }
}

#[test]
fn tokens_end_with_exactly_one_end_of_file() {
    let tokens = Lexer::new("pancen f(a, b) { wangsul a + b; }").tokenize().unwrap();
    assert_eq!(tokens.last().unwrap().kind, TokenType::Eof);
    assert_eq!(tokens.iter().filter(|t| t.kind == TokenType::Eof).count(), 1);
}

#[test]
fn identifiers_take_letters_digits_and_underscores() {
    let tokens = Lexer::new("nilai_2 ñame x9y 7up").tokenize().unwrap();
    let lexemes: Vec<&str> = tokens.iter().map(|t| t.lexeme.as_str()).collect();
    assert_eq!(lexemes, vec!["nilai_2", "ñame", "x9y", "7", "up", ""]);
    assert_eq!(tokens[3].kind, TokenType::Integer(7));
    assert_eq!(tokens[4].kind, TokenType::Identifier);
}

#[test]
fn lexemes_are_pieces_of_the_source() {
    let source = "simpen teks = \"a\\tb\";\n// catetan\nupami (x >= 10) { citak(teks); }";
    let tokens = Lexer::new(source).tokenize().unwrap();
    for token in &tokens {
        assert!(source.contains(token.lexeme.as_str()), "{:?}", token);
    }
    assert_eq!(tokens[3].lexeme, "\"a\\tb\"");
    assert_eq!(tokens[3].kind, TokenType::String("a\tb".to_string()));
}

#[test]
fn token_lines_never_go_down() {
    let source = "simpen a = \"dua\nbaris\";\ncitak(a);\n\n  a = a + 1;";
    let tokens = Lexer::new(source).tokenize().unwrap();
    for pair in tokens.windows(2) {
        assert!(pair[0].line <= pair[1].line);
    }
    assert_eq!(tokens.last().unwrap().line, 5);
}
