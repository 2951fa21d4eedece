use sundascript::operations::{
    arity_check, callback_check, verdict_check,
    binary_operands, condition_operand, element_slot, unary_operand, BinaryOp, Kind, Operands,
    UnaryOp,
};

#[test]
fn numbers_combine_with_numbers() {
    assert_eq!(binary_operands(BinaryOp::Add, Kind::Integer, Kind::Integer), Ok(Operands::Integers));
    assert_eq!(binary_operands(BinaryOp::Divide, Kind::Integer, Kind::Float), Ok(Operands::Numbers));
    assert_eq!(binary_operands(BinaryOp::LessThan, Kind::Float, Kind::Float), Ok(Operands::Numbers));
}

#[test]
fn only_addition_joins_texts() {
    assert_eq!(binary_operands(BinaryOp::Add, Kind::Text, Kind::Null), Ok(Operands::Texts));
    assert_eq!(binary_operands(BinaryOp::Add, Kind::Array, Kind::Text), Ok(Operands::Texts));
    assert_eq!(
        binary_operands(BinaryOp::Multiply, Kind::Text, Kind::Integer),
        Err("Operasi pangalian mung kanggo angka.".to_string())
    );
}

#[test]
fn each_operator_has_its_refusal() {
    let cases = [
        (BinaryOp::Add, "Operasi panambihan mung kanggo angka sareng teks."),
        (BinaryOp::Subtract, "Operasi pangurangan mung kanggo angka."),
        (BinaryOp::Multiply, "Operasi pangalian mung kanggo angka."),
        (BinaryOp::Divide, "Operasi ngabagi mung kanggo angka."),
        (BinaryOp::Modulo, "Operasi sesa ngabagi mung kanggo angka."),
        (BinaryOp::GreaterThan, "Babandingan mung kanggo angka."),
        (BinaryOp::LessThan, "Babandingan mung kanggo angka."),
    ];
    for (op, message) in cases {
        assert_eq!(binary_operands(op, Kind::Boolean, Kind::Integer), Err(message.to_string()));
    }
}

#[test]
fn unary_operators_and_conditions() {
    assert_eq!(unary_operand(UnaryOp::Negate, Kind::Float), Ok(()));
    assert_eq!(
        unary_operand(UnaryOp::Negate, Kind::Text),
        Err("Tanda minus mung tiasa kanggo angka.".to_string())
    );
    assert_eq!(unary_operand(UnaryOp::Not, Kind::Boolean), Ok(()));
    assert_eq!(
        unary_operand(UnaryOp::Not, Kind::Integer),
        Err("Tanda seru mung tiasa kanggo nilai leres atanapi lepat.".to_string())
    );
    assert_eq!(condition_operand(Kind::Boolean), Ok(()));
    assert_eq!(
        condition_operand(Kind::Null),
        Err("Kondisi kedah mangrupa 'leres' atanapi 'lepat'.".to_string())
    );
}

#[test]
fn list_slots() {
    assert_eq!(element_slot(false, Some(3), Some(2)), Ok(2));
    assert_eq!(
        element_slot(false, Some(3), Some(3)),
        Err("Indeks daptar di luar wates.".to_string())
    );
    assert_eq!(
        element_slot(true, Some(3), Some(-1)),
        Err("Indeks daptar di luar wates.".to_string())
    );
    assert_eq!(
        element_slot(false, Some(3), None),
        Err("Indeks daptar kedah mangrupa angka buleud.".to_string())
    );
    assert_eq!(
        element_slot(false, None, Some(0)),
        Err("Mung daptar anu tiasa dicandak indeksna ku [].".to_string())
    );
    assert_eq!(
        element_slot(true, None, None),
        Err("Mung daptar anu tiasa dirobih indeksna ku [].".to_string())
    );
}

#[test]
fn calls_need_the_right_number_of_arguments() {
    assert_eq!(arity_check("tambah", 2, 2), Ok(()));
    assert_eq!(
        arity_check("tambah", 2, 13),
        Err("Pancen 'tambah' peryogi 2 argumen, tapi dipasihan 13.".to_string())
    );
}

#[test]
fn list_methods_take_one_function_of_one_parameter() {
    assert_eq!(callback_check("saring", 1, Some(1)), Ok(()));
    assert_eq!(callback_check("saring", 2, Some(1)), Err("Metode 'saring' peryogi 1 argumen pancen.".to_string()));
    assert_eq!(callback_check("unggal", 1, None), Err("Argumen 'unggal' kedah mangrupa pancen.".to_string()));
    assert_eq!(
        callback_check("petakeun", 1, Some(3)),
        Err("Pancen keur 'petakeun' peryogi 1 parameter, tapi dipasihan 3.".to_string())
    );
    assert_eq!(verdict_check("milari", Kind::Boolean), Ok(()));
    assert_eq!(
        verdict_check("milari", Kind::Integer),
        Err("Pancen keur 'milari' kedah mulangkeun nilai 'leres' atanapi 'lepat'.".to_string())
    );
}
