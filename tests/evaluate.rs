use geo_calc::env::Environment;
use geo_calc::eval::{
    apply_binary, calculate_ast_expression, evaluate, AstNodeWithValueType, EvalError,
};
use geo_calc::expr::{find_ast_identifiers, ASTNode, ASTNodeType, TokenKind};
use geo_calc::multivector::R300;

fn ident(name: &str, at: usize) -> ASTNode {
    ASTNode { start: at, end: at, kind: ASTNodeType::Identifier { name: name.to_string() } }
}

fn literal(value: i64, at: usize) -> ASTNode {
    ASTNode { start: at, end: at, kind: ASTNodeType::Int { value } }
}

fn binary(op: TokenKind, left: ASTNode, right: ASTNode) -> ASTNode {
    ASTNode {
        start: left.start,
        end: right.end,
        kind: ASTNodeType::BinaryOpNode { op, left: Box::new(left), right: Box::new(right) },
    }
}

fn unary(op: TokenKind, operand: ASTNode) -> ASTNode {
    ASTNode {
        start: operand.start,
        end: operand.end,
        kind: ASTNodeType::UnaryOpNode { op, operand: Box::new(operand) },
    }
}

fn env_of(bindings: &[(&str, R300)]) -> Environment {
    let mut env = Environment::new();
    for (name, value) in bindings {
        env.insert(name.to_string(), *value);
    }
    env
}

#[test]
fn test_calculate_ast_expression() {
    let ast = ASTNode {
        start: 0,
        end: 4,
        kind: ASTNodeType::BinaryOpNode {
            op: TokenKind::Plus,
            left: Box::new(ASTNode {
                start: 0,
                end: 0,
                kind: ASTNodeType::Identifier { name: "a".to_string() },
            }),
            right: Box::new(ASTNode {
                start: 4,
                end: 4,
                kind: ASTNodeType::Identifier { name: "b".to_string() },
            }),
        },
    };
    let vars = env_of(&[("a", R300::vector(1, 0, 0)), ("b", R300::vector(2, 0, 0))]);
    let result = calculate_ast_expression(&ast, &vars).unwrap();
    assert_eq!(result.start, 0);
    assert_eq!(result.end, 4);
    assert_eq!(result.value, R300::vector(3, 0, 0));
    match result.kind {
        AstNodeWithValueType::BinaryOpNode { op, left, right } => {
            assert_eq!(op, TokenKind::Plus);
            assert_eq!((left.start, left.end), (0, 0));
            assert_eq!((right.start, right.end), (4, 4));
            assert_eq!(left.value, R300::vector(1, 0, 0));
            assert_eq!(right.value, R300::vector(2, 0, 0));
            assert!(matches!(left.kind, AstNodeWithValueType::Identifier { ref name } if name == "a"));
            assert!(matches!(right.kind, AstNodeWithValueType::Identifier { ref name } if name == "b"));
        }
        other => panic!("unexpected node {:?}", other),
    }
}

#[test]
fn sum_of_two_vectors() {
    let ast = binary(TokenKind::Plus, ident("a", 0), ident("b", 4));
    let vars = env_of(&[("a", R300::vector(1, 0, 0)), ("b", R300::vector(2, 0, 0))]);
    let v = evaluate(&ast, &vars).unwrap();
    assert_eq!(v.mvec, [0, 3, 0, 0, 0, 0, 0, 0]);
}

#[test]
fn wedge_of_two_vectors() {
    let ast = binary(TokenKind::Wedge, ident("a", 0), ident("b", 4));
    let vars = env_of(&[("a", R300::vector(1, 0, 0)), ("b", R300::vector(0, 1, 0))]);
    let v = evaluate(&ast, &vars).unwrap();
    assert_eq!(v.mvec, [0, 0, 0, 0, 1, 0, 0, 0]);
}

#[test]
fn undefined_variable() {
    let ast = binary(TokenKind::Plus, ident("a", 0), ident("c", 4));
    let vars = env_of(&[("a", R300::vector(1, 0, 0))]);
    assert_eq!(evaluate(&ast, &vars), Err(EvalError::UndefinedVariable("c".to_string())));
    assert!(matches!(
        calculate_ast_expression(&ast, &vars),
        Err(EvalError::UndefinedVariable(ref n)) if n == "c"
    ));
}

#[test]
fn unary_minus() {
    let ast = unary(TokenKind::Minus, ident("a", 1));
    let vars = env_of(&[("a", R300::vector(1, 2, 3))]);
    assert_eq!(evaluate(&ast, &vars).unwrap(), R300::vector(-1, -2, -3));
}

#[test]
fn unary_plus_keeps_value() {
    let ast = unary(TokenKind::Plus, ident("a", 1));
    let vars = env_of(&[("a", R300::bivector(4, 5, 6))]);
    assert_eq!(evaluate(&ast, &vars).unwrap(), R300::bivector(4, 5, 6));
}

#[test]
fn evaluation_is_repeatable() {
    let ast = binary(
        TokenKind::Multiply,
        binary(TokenKind::Minus, ident("a", 0), literal(2, 2)),
        binary(TokenKind::Dot, ident("b", 4), ident("a", 6)),
    );
    let vars = env_of(&[("a", R300::vector(1, 2, 3)), ("b", R300::bivector(1, -1, 2))]);
    let first = evaluate(&ast, &vars);
    let second = evaluate(&ast, &vars);
    assert_eq!(first, second);
    assert_eq!(calculate_ast_expression(&ast, &vars).unwrap().value, first.unwrap());
}

#[test]
fn integer_literal_is_a_scalar() {
    let ast = binary(TokenKind::Multiply, literal(3, 0), ident("a", 2));
    let vars = env_of(&[("a", R300::vector(1, 2, 3))]);
    assert_eq!(evaluate(&ast, &vars).unwrap(), R300::vector(3, 6, 9));
}

#[test]
fn unsupported_binary_operator() {
    let ast = binary(TokenKind::Caret, ident("a", 0), ident("a", 2));
    let vars = env_of(&[("a", R300::vector(1, 2, 3))]);
    assert_eq!(evaluate(&ast, &vars), Err(EvalError::UnsupportedOperator(TokenKind::Caret)));
}

#[test]
fn division_is_not_exact() {
    let ast = binary(TokenKind::Frac, ident("a", 0), ident("a", 2));
    let vars = env_of(&[("a", R300::vector(1, 2, 3))]);
    assert_eq!(evaluate(&ast, &vars), Err(EvalError::UnsupportedOperator(TokenKind::Frac)));
}

#[test]
fn unsupported_unary_operator() {
    let ast = unary(TokenKind::Wedge, ident("a", 0));
    let vars = env_of(&[("a", R300::vector(1, 2, 3))]);
    assert_eq!(evaluate(&ast, &vars), Err(EvalError::UnsupportedOperator(TokenKind::Wedge)));
}

#[test]
fn left_error_comes_first() {
    let ast = binary(TokenKind::Caret, ident("x", 0), ident("y", 2));
    let vars = Environment::new();
    assert_eq!(evaluate(&ast, &vars), Err(EvalError::UndefinedVariable("x".to_string())));
}

#[test]
fn large_operands_are_out_of_range() {
    let big = R300::scalar(1 << 40);
    let ast = binary(TokenKind::Multiply, ident("a", 0), ident("a", 2));
    let vars = env_of(&[("a", big)]);
    assert_eq!(evaluate(&ast, &vars), Err(EvalError::OutOfRange));
    let sum = binary(TokenKind::Plus, ident("m", 0), ident("m", 2));
    let vars = env_of(&[("m", R300::scalar(i64::MAX))]);
    assert_eq!(evaluate(&sum, &vars), Err(EvalError::OutOfRange));
    let neg = unary(TokenKind::Minus, ident("m", 0));
    let vars = env_of(&[("m", R300::scalar(i64::MIN))]);
    assert_eq!(evaluate(&neg, &vars), Err(EvalError::OutOfRange));
}

#[test]
fn apply_binary_subtracts() {
    let r = apply_binary(TokenKind::Minus, R300::vector(5, 5, 5), R300::vector(1, 2, 3));
    assert_eq!(r, Ok(R300::vector(4, 3, 2)));
}

#[test]
fn later_binding_replaces_earlier() {
    let vars = env_of(&[("a", R300::scalar(1)), ("a", R300::scalar(2))]);
    assert_eq!(vars.get(&"a".to_string()), Some(R300::scalar(2)));
    assert_eq!(vars.get(&"b".to_string()), None);
}

#[test]
fn identifiers_left_to_right() {
    let ast = binary(
        TokenKind::Plus,
        unary(TokenKind::Minus, ident("x", 0)),
        binary(TokenKind::Wedge, literal(1, 2), binary(TokenKind::Dot, ident("y", 4), ident("x", 6))),
    );
    let mut found = vec!["start".to_string()];
    find_ast_identifiers(&ast, &mut found);
    assert_eq!(found, vec!["start", "x", "y", "x"]);
}
