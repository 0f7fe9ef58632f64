use frisbee::ast::{BinaryOp, Type as T, UnaryOp};
use frisbee::semantic_checker::operators::{
    are_types_same_or_maybe, calculate_binaryop_type, calculate_unaryop_type,
};

#[test]
fn check_binary_plus() {
    let t = T::List(Box::new(T::Bool));
    assert_eq!(calculate_binaryop_type(&BinaryOp::Plus, &t, &t).unwrap(), t);

    assert!(calculate_binaryop_type(&BinaryOp::Plus, &t, &T::List(Box::new(T::Int))).is_err());
}

#[test]
fn check_binary_equal() {
    assert_eq!(
        calculate_binaryop_type(&BinaryOp::IsEqual, &T::Maybe(Box::new(T::Bool)), &T::Nil).unwrap(),
        T::Bool
    );

    assert_eq!(
        calculate_binaryop_type(&BinaryOp::IsEqual, &T::Bool, &T::Maybe(Box::new(T::Bool))).unwrap(),
        T::Bool
    );

    assert!(calculate_binaryop_type(&BinaryOp::IsEqual, &T::Bool, &T::Maybe(Box::new(T::String)))
        .is_err());
}

#[test]
fn binary_error_messages_name_operator_and_types() {
    let err = calculate_binaryop_type(&BinaryOp::Plus, &T::Bool, &T::Int).unwrap_err();
    assert_eq!(err, "Cant apply Plus to Bool and Int");
    let err = calculate_binaryop_type(
        &BinaryOp::And,
        &T::Tuple(vec![T::Int, T::Ident("Foo".into())]),
        &T::Bool,
    )
    .unwrap_err();
    assert_eq!(err, "Cant apply And to Tuple([Int, Ident(\"Foo\")]) and Bool");
    assert_eq!(
        format!("{:?}", T::Tuple(vec![T::Int, T::Ident("Foo".into())])),
        "Tuple([Int, Ident(\"Foo\")])"
    );
}

#[test]
fn comparison_keeps_operand_type() {
    assert_eq!(calculate_binaryop_type(&BinaryOp::Less, &T::Float, &T::Float).unwrap(), T::Float);
    assert!(calculate_binaryop_type(&BinaryOp::Less, &T::String, &T::String).is_err());
    assert_eq!(calculate_binaryop_type(&BinaryOp::Or, &T::Bool, &T::Bool).unwrap(), T::Bool);
}

#[test]
fn unary_operators() {
    assert_eq!(calculate_unaryop_type(&UnaryOp::Negate, &T::Int).unwrap(), T::Int);
    assert_eq!(calculate_unaryop_type(&UnaryOp::Not, &T::Bool).unwrap(), T::Bool);
    assert_eq!(
        calculate_unaryop_type(&UnaryOp::Not, &T::Int).unwrap_err(),
        "Cant apply NOT to Int type"
    );
    assert_eq!(
        calculate_unaryop_type(&UnaryOp::Negate, &T::Maybe(Box::new(T::Float))).unwrap_err(),
        "Cant apply Negate to Maybe(Float) type"
    );
}

#[test]
fn maybe_comparisons() {
    let mi = T::Maybe(Box::new(T::Int));
    assert!(are_types_same_or_maybe(&mi, &T::Int));
    assert!(are_types_same_or_maybe(&T::Nil, &mi));
    assert!(!are_types_same_or_maybe(&mi, &mi));
    assert!(are_types_same_or_maybe(&T::String, &T::String));
}
