use sundascript::bytecode::{Function, OperationCode, Value};
use sundascript::error::ScriptError;
use sundascript::pipeline::compile_source;

fn int_constant(v: &Value) -> Option<i64> {
    match v {
        Value::Integer(i) => Some(*i),
        _ => None,
    }
}

fn text_constant(v: &Value) -> Option<String> {
    match v {
        Value::String(s) => Some(s.to_string()),
        _ => None,
    }
}

#[test]
fn print_of_a_sum() {
    let chunk = compile_source("citak(1 + 2);").unwrap();
    assert_eq!(
        chunk.code,
        vec![OperationCode::Constant(0), OperationCode::Constant(1), OperationCode::Add, OperationCode::Print]
    );
    assert_eq!(chunk.lines, vec![0, 0, 1, 0]);
    assert_eq!(int_constant(&chunk.constants[0]), Some(1));
    assert_eq!(int_constant(&chunk.constants[1]), Some(2));
}

#[test]
fn global_variable_is_stored_by_name() {
    let chunk = compile_source("simpen x = 5;").unwrap();
    assert_eq!(
        chunk.code,
        vec![OperationCode::Constant(0), OperationCode::SetGlobal(1), OperationCode::Pop]
    );
    assert_eq!(chunk.lines, vec![0, 1, 1]);
    assert_eq!(int_constant(&chunk.constants[0]), Some(5));
    assert_eq!(text_constant(&chunk.constants[1]), Some("x".to_string()));
}

#[test]
fn names_share_one_constant() {
    let chunk = compile_source("simpen x = 1; x = x + 1;").unwrap();
    let names: Vec<String> = chunk.constants.iter().filter_map(text_constant).collect();
    assert_eq!(names, vec!["x".to_string()]);
}

#[test]
fn local_variables_live_on_the_stack() {
    let chunk = compile_source("{ simpen a = 1; citak(a); }").unwrap();
    assert_eq!(
        chunk.code,
        vec![
            OperationCode::Constant(0),
            OperationCode::GetLocal(0),
            OperationCode::Print,
            OperationCode::Pop,
        ]
    );
}

#[test]
fn function_declaration_is_jumped_over() {
    let chunk = compile_source("pancen f(a) { wangsul a; }").unwrap();
    assert_eq!(chunk.code[0], OperationCode::Jump(5));
    assert_eq!(chunk.code[1], OperationCode::GetLocal(0));
    assert_eq!(chunk.code[2], OperationCode::Return);
    assert_eq!(chunk.code[4], OperationCode::Return);
    let function = chunk.constants.iter().find_map(|v| match v {
        Value::Function(f) => Some((**f).clone()),
        _ => None,
    });
    assert_eq!(function, Some(Function { name: "f".to_string(), address: 1, arity: 1 }));
}

#[test]
fn while_loop_jumps_back_to_its_condition() {
    let chunk = compile_source("ngulang (lepat) { }").unwrap();
    assert_eq!(
        chunk.code,
        vec![
            OperationCode::Constant(0),
            OperationCode::JumpIfFalse(4),
            OperationCode::Pop,
            OperationCode::Jump(0),
            OperationCode::Pop,
        ]
    );
}

#[test]
fn every_jump_lands_inside_the_code() {
    let chunk = compile_source(
        "pikeun (simpen i = 0; i < 10; i = i + 1) { upami (i == 3) { lajeungkeun; } sanes { liren; } } \
         simpen g = pancen(x) { wangsul x * 2; };",
    )
    .unwrap();
    assert_eq!(chunk.code.len(), chunk.lines.len());
    for constant in &chunk.constants {
        if let Value::Function(f) = constant {
            assert!(f.address < chunk.code.len());
        }
    }
    for op in &chunk.code {
        match op {
            OperationCode::Jump(t) | OperationCode::JumpIfFalse(t) => assert!(*t <= chunk.code.len()),
            OperationCode::Constant(i) => assert!(*i < chunk.constants.len()),
            _ => {}
        }
    }
}

#[test]
fn each_stage_reports_its_own_error() {
    assert!(matches!(compile_source("simpen x = #;"), Err(ScriptError::LexerError { .. })));
    assert!(matches!(compile_source("simpen x = ;"), Err(ScriptError::ParseError { .. })));
    assert!(matches!(compile_source("liren;"), Err(ScriptError::SemanticError { .. })));
}

#[test]
fn error_reports_read_as_the_interpreter_prints_them() {
    let err = ScriptError::LexerError { line: 3, column: 14, message: "x".to_string() };
    assert_eq!(err.to_string(), "[\x1b[31mLepat Maca\x1b[0m | Baris 3, Kolom 14] Hapunten: x");
    let err = ScriptError::ParseError { line: 0, column: 105, message: "y".to_string() };
    assert_eq!(err.to_string(), "[\x1b[31mLepat Sintaks\x1b[0m | Baris 0, Kolom 105] Hapunten: y");
    let err = ScriptError::SemanticError { line: 10, column: 1, message: String::new() };
    assert_eq!(err.to_string(), "[\x1b[31mLepat Semantik\x1b[0m | Baris 10, Kolom 1] Hapunten: ");
    let err = ScriptError::RuntimeError { line: 7, message: "z".to_string() };
    assert_eq!(err.to_string(), "[\x1b[31mLepat Eksekusi\x1b[0m | Baris 7] Hapunten: z");
}
