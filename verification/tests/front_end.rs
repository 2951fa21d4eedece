use sundascript::analyzer::Analyzer;
use sundascript::ast::{Expr, Stmt};
use sundascript::error::ScriptError;
use sundascript::lexer::Lexer;
use sundascript::parser::Parser;
use sundascript::token::{Token, TokenType};

fn parse(source: &str) -> Result<Vec<Stmt>, ScriptError> {
    let tokens = Lexer::new(source).tokenize().unwrap();
    Parser::new(tokens).parse()
}

fn tok(kind: TokenType, lexeme: &str, line: usize, column: usize) -> Token {
    Token::new(kind, lexeme.to_string(), line, column)
}

fn analyze(source: &str) -> Result<(), ScriptError> {
    let ast = parse(source).unwrap();
    Analyzer::new().analyze(&ast)
}

#[test]
fn variable_declaration_with_precedence() {
    let ast = parse("simpen x = 1 + 2 * 3;").unwrap();
    let expected = vec![Stmt::Variable {
        name: tok(TokenType::Identifier, "x", 1, 8),
        initializer: Expr::Binary {
            left: Box::new(Expr::Integer(1)),
            operator: tok(TokenType::Plus, "+", 1, 14),
            right: Box::new(Expr::Binary {
                left: Box::new(Expr::Integer(2)),
                operator: tok(TokenType::Star, "*", 1, 18),
                right: Box::new(Expr::Integer(3)),
            }),
        },
    }];
    assert_eq!(ast, expected);
}

#[test]
fn print_statement() {
    let ast = parse("citak(\"halo\");").unwrap();
    assert_eq!(ast, vec![Stmt::Print(Expr::String("halo".to_string()))]);
}

#[test]
fn for_loop_becomes_block_with_while() {
    let ast = parse("pikeun (simpen i = 0; i < 3; i = i + 1) { citak(i); }").unwrap();
    assert_eq!(ast.len(), 1);
    match &ast[0] {
        Stmt::Block(items) => {
            assert_eq!(items.len(), 2);
            assert!(matches!(items[0], Stmt::Variable { .. }));
            match &items[1] {
                Stmt::While { increment, .. } => assert!(increment.is_some()),
                other => panic!("expected a loop, found {:?}", other),
            }
        }
        other => panic!("expected a block, found {:?}", other),
    }
}

#[test]
fn for_loop_without_initializer_is_a_plain_loop() {
    let ast = parse("pikeun (; lepat;) { }").unwrap();
    match &ast[0] {
        Stmt::While { condition, increment, .. } => {
            assert_eq!(*condition, Expr::Boolean(false));
            assert!(increment.is_none());
        }
        other => panic!("expected a loop, found {:?}", other),
    }
}

#[test]
fn missing_semicolon_is_a_parse_error() {
    let err = parse("simpen x = 1").unwrap_err();
    assert_eq!(
        err,
        ScriptError::ParseError {
            line: 1,
            column: 13,
            message: "Diperyogikeun ';' saatos deklarasi variabel.".to_string(),
        }
    );
}

#[test]
fn missing_variable_name_is_a_parse_error() {
    let err = parse("simpen = 1;").unwrap_err();
    assert_eq!(
        err,
        ScriptError::ParseError {
            line: 1,
            column: 8,
            message: "Diperyogikeun nami variabel saatos 'simpen'.".to_string(),
        }
    );
}

#[test]
fn invalid_assignment_target_is_a_parse_error() {
    let err = parse("1 = 2;").unwrap_err();
    match err {
        ScriptError::ParseError { message, .. } => assert_eq!(message, "Target panugasan teu sah."),
        other => panic!("unexpected error {:?}", other),
    }
}

#[test]
fn unknown_expression_is_a_parse_error() {
    let err = parse("citak();").unwrap_err();
    match err {
        ScriptError::ParseError { message, .. } => {
            assert_eq!(message, "Ekspresi teu sah atanapi teu dipikawanoh.")
        }
        other => panic!("unexpected error {:?}", other),
    }
}

#[test]
fn valid_program_passes_analysis() {
    assert_eq!(
        analyze("simpen x = 1; pancen f(a) { wangsul a + x; } ngulang (leres) { liren; }"),
        Ok(())
    );
}

#[test]
fn break_outside_loop_is_rejected() {
    assert_eq!(
        analyze("liren;"),
        Err(ScriptError::SemanticError {
            line: 1,
            column: 1,
            message: "Teu tiasa nganggo 'liren' di luar ngulang.".to_string(),
        })
    );
}

#[test]
fn continue_outside_loop_is_rejected() {
    let err = analyze("{ lajeungkeun; }").unwrap_err();
    assert_eq!(
        err,
        ScriptError::SemanticError {
            line: 1,
            column: 3,
            message: "Teu tiasa nganggo 'lajeungkeun' di luar ngulang.".to_string(),
        }
    );
}

#[test]
fn return_outside_function_is_rejected() {
    let err = analyze("wangsul 1;").unwrap_err();
    match err {
        ScriptError::SemanticError { message, .. } => {
            assert_eq!(message, "Teu tiasa nganggo 'wangsul' di luar pancen.")
        }
        other => panic!("unexpected error {:?}", other),
    }
}

#[test]
fn break_inside_function_inside_loop_is_rejected() {
    let err = analyze("ngulang (leres) { pancen f() { liren; } }").unwrap_err();
    assert!(matches!(err, ScriptError::SemanticError { .. }));
}

#[test]
fn redeclaration_in_one_block_is_rejected() {
    let err = analyze("{ simpen a = 1; simpen a = 2; }").unwrap_err();
    assert_eq!(
        err,
        ScriptError::SemanticError {
            line: 1,
            column: 24,
            message: "Variabel 'a' parantos didamel dina blok ieu.".to_string(),
        }
    );
}

#[test]
fn global_redeclaration_is_allowed() {
    assert_eq!(analyze("simpen a = 1; simpen a = 2;"), Ok(()));
}

#[test]
fn reading_variable_in_its_own_initializer_is_rejected() {
    let err = analyze("{ simpen a = a; }").unwrap_err();
    assert_eq!(
        err,
        ScriptError::SemanticError {
            line: 1,
            column: 14,
            message: "Teu tiasa maca variabel 'a' dina inisialisasina nyalira.".to_string(),
        }
    );
}

#[test]
fn one_analyzer_checks_programs_in_turn() {
    let mut analyzer = Analyzer::new();
    let first = parse("{ simpen a = 1; } ngulang (lepat) { } pancen f() { wangsul; }").unwrap();
    assert_eq!(analyzer.analyze(&first), Ok(()));
    let second = parse("{ simpen a = 2; }").unwrap();
    assert_eq!(analyzer.analyze(&second), Ok(()));
    let third = parse("liren;").unwrap();
    assert!(analyzer.analyze(&third).is_err());
}
