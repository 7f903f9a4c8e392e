//! Evaluation of expression trees against an environment.
use vstd::prelude::*;
use crate::blade::Product;
use crate::env::Environment;
use crate::expr::{ASTNode, ASTNodeType, TokenKind};
use crate::multivector::{
    COEFFICIENT_BOUND, R300, fits, negatable, spec_add, spec_neg, spec_product, spec_sub,
    spec_zero, within,
};

verus! {

/// Why an expression has no value.
#[derive(Clone, PartialEq, Eq, Debug)]
pub enum EvalError {
    /// The identifier has no binding in the environment.
    UndefinedVariable(String),
    /// The operator has no meaning in the position it stands in.
    UnsupportedOperator(TokenKind),
    /// An operand holds a coefficient too large for exact integer arithmetic.
    OutOfRange,
}

/// The value of a binary operation on two values. Sums and differences need
/// results that fit in `i64`; products need operands within
/// `COEFFICIENT_BOUND`. Division (`Frac`) scales by the inverse of a norm, a
/// square root, which has no exact integer form: it is reported as unsupported.
pub open spec fn spec_binary(op: TokenKind, l: Seq<int>, r: Seq<int>) -> Result<
    Seq<int>,
    EvalError,
> {
    let bounded = within(l, COEFFICIENT_BOUND as int) && within(r, COEFFICIENT_BOUND as int);
    match op {
        TokenKind::Plus => if fits(spec_add(l, r)) {
            Ok(spec_add(l, r))
        } else {
            Err(EvalError::OutOfRange)
        },
        TokenKind::Minus => if fits(spec_sub(l, r)) {
            Ok(spec_sub(l, r))
        } else {
            Err(EvalError::OutOfRange)
        },
        TokenKind::Multiply => if bounded {
            Ok(spec_product(Product::Geometric, l, r))
        } else {
            Err(EvalError::OutOfRange)
        },
        TokenKind::Dot => if bounded {
            Ok(spec_product(Product::Inner, l, r))
        } else {
            Err(EvalError::OutOfRange)
        },
        TokenKind::Wedge => if bounded {
            Ok(spec_product(Product::Outer, l, r))
        } else {
            Err(EvalError::OutOfRange)
        },
        _ => Err(EvalError::UnsupportedOperator(op)),
    }
}

/// The value of a unary operation on a value.
pub open spec fn spec_unary(op: TokenKind, v: Seq<int>) -> Result<Seq<int>, EvalError> {
    match op {
        TokenKind::Plus => Ok(v),
        TokenKind::Minus => if negatable(v) {
            Ok(spec_neg(v))
        } else {
            Err(EvalError::OutOfRange)
        },
        _ => Err(EvalError::UnsupportedOperator(op)),
    }
}

/// The value of `ast` under the bindings `env`. Operands are evaluated left to
/// right, and the first error met is the result.
pub open spec fn spec_eval(ast: ASTNode, env: Map<Seq<char>, R300>) -> Result<Seq<int>, EvalError>
    decreases ast,
{
    match ast.kind {
        ASTNodeType::Int { value } => Ok(spec_zero().update(0, value as int)),
        ASTNodeType::Identifier { name } => if env.contains_key(name@) {
            Ok(env[name@]@)
        } else {
            Err(EvalError::UndefinedVariable(name))
        },
        ASTNodeType::BinaryOpNode { op, left, right } => match spec_eval(*left, env) {
            Err(e) => Err(e),
            Ok(l) => match spec_eval(*right, env) {
                Err(e) => Err(e),
                Ok(r) => spec_binary(op, l, r),
            },
        },
        ASTNodeType::UnaryOpNode { op, operand } => match spec_eval(*operand, env) {
            Err(e) => Err(e),
            Ok(v) => spec_unary(op, v),
        },
    }
}

/// A result with the multivector replaced by its coefficients.
pub open spec fn result_view(r: Result<R300, EvalError>) -> Result<Seq<int>, EvalError> {
    match r {
        Ok(v) => Ok(v@),
        Err(e) => Err(e),
    }
}

/// Applies the binary operator `op` to two values.
pub fn apply_binary(op: TokenKind, l: R300, r: R300) -> (res: Result<R300, EvalError>)
    ensures
        result_view(res) == spec_binary(op, l@, r@),
{
    match op {
        TokenKind::Plus => if l.sum_fits(r) {
            Ok(l.add(r))
        } else {
            Err(EvalError::OutOfRange)
        },
        TokenKind::Minus => if l.difference_fits(r) {
            Ok(l.sub(r))
        } else {
            Err(EvalError::OutOfRange)
        },
        TokenKind::Multiply => if l.is_bounded() && r.is_bounded() {
            Ok(l.geometric_product(r))
        } else {
            Err(EvalError::OutOfRange)
        },
        TokenKind::Dot => if l.is_bounded() && r.is_bounded() {
            Ok(l.dot(r))
        } else {
            Err(EvalError::OutOfRange)
        },
        TokenKind::Wedge => if l.is_bounded() && r.is_bounded() {
            Ok(l.wedge(r))
        } else {
            Err(EvalError::OutOfRange)
        },
        _ => Err(EvalError::UnsupportedOperator(op)),
    }
}

/// Applies the unary operator `op` to a value.
pub fn apply_unary(op: TokenKind, v: R300) -> (res: Result<R300, EvalError>)
    ensures
        result_view(res) == spec_unary(op, v@),
{
    match op {
        TokenKind::Plus => Ok(v),
        TokenKind::Minus => if v.is_negatable() {
            Ok(v.neg())
        } else {
            Err(EvalError::OutOfRange)
        },
        _ => Err(EvalError::UnsupportedOperator(op)),
    }
}

/// The value of `ast` under the bindings `vars`.
pub fn evaluate(ast: &ASTNode, vars: &Environment) -> (r: Result<R300, EvalError>)
    ensures
        result_view(r) == spec_eval(*ast, vars@),
    decreases ast,
{
    match &ast.kind {
        ASTNodeType::Int { value } => {
            let v = R300::scalar(*value);
            Ok(v)
        },
        ASTNodeType::Identifier { name } => match vars.get(name) {
            Some(v) => Ok(v),
            None => Err(EvalError::UndefinedVariable(name.clone())),
        },
        ASTNodeType::BinaryOpNode { op, left, right } => {
            let l = match evaluate(left, vars) {
                Ok(l) => l,
                Err(e) => return Err(e),
            };
            let r = match evaluate(right, vars) {
                Ok(r) => r,
                Err(e) => return Err(e),
            };
            apply_binary(*op, l, r)
        },
        ASTNodeType::UnaryOpNode { op, operand } => {
            let v = match evaluate(operand, vars) {
                Ok(v) => v,
                Err(e) => return Err(e),
            };
            apply_unary(*op, v)
        },
    }
}

/// An expression node with the value computed for it.
#[derive(Debug)]
pub struct AstNodeWithValue {
    pub start: usize,
    pub end: usize,
    pub value: R300,
    pub kind: AstNodeWithValueType,
}

/// What an annotated node is, with its annotated children.
#[derive(Debug)]
pub enum AstNodeWithValueType {
    Identifier { name: String },
    Int,
    BinaryOpNode { op: TokenKind, left: Box<AstNodeWithValue>, right: Box<AstNodeWithValue> },
    UnaryOpNode { op: TokenKind, operand: Box<AstNodeWithValue> },
}

/// `a` has the shape and spans of `ast`, and every node of `a` holds the value
/// of the matching subtree of `ast` under `env`.
pub open spec fn annotates(a: AstNodeWithValue, ast: ASTNode, env: Map<Seq<char>, R300>) -> bool
    decreases ast,
{
    &&& a.start == ast.start
    &&& a.end == ast.end
    &&& spec_eval(ast, env) == Ok::<Seq<int>, EvalError>(a.value@)
    &&& match ast.kind {
        ASTNodeType::Int { .. } => a.kind is Int,
        ASTNodeType::Identifier { name } => a.kind == AstNodeWithValueType::Identifier { name },
        ASTNodeType::BinaryOpNode { op, left, right } => match a.kind {
            AstNodeWithValueType::BinaryOpNode { op: aop, left: al, right: ar } => aop == op
                && annotates(*al, *left, env) && annotates(*ar, *right, env),
            _ => false,
        },
        ASTNodeType::UnaryOpNode { op, operand } => match a.kind {
            AstNodeWithValueType::UnaryOpNode { op: aop, operand: ao } => aop == op && annotates(
                *ao,
                *operand,
                env,
            ),
            _ => false,
        },
    }
}

/// Evaluates `ast` under the bindings `vars`, and returns the tree with the
/// value of every node beside it.
pub fn calculate_ast_expression(ast: &ASTNode, vars: &Environment) -> (r: Result<
    AstNodeWithValue,
    EvalError,
>)
    ensures
        r is Ok <==> spec_eval(*ast, vars@) is Ok,
        r matches Err(e) ==> spec_eval(*ast, vars@) == Err::<Seq<int>, EvalError>(e),
        r matches Ok(a) ==> annotates(a, *ast, vars@),
    decreases ast,
{
    match &ast.kind {
        ASTNodeType::Int { value } => Ok(
            AstNodeWithValue {
                start: ast.start,
                end: ast.end,
                value: R300::scalar(*value),
                kind: AstNodeWithValueType::Int,
            },
        ),
        ASTNodeType::Identifier { name } => match vars.get(name) {
            Some(v) => Ok(
                AstNodeWithValue {
                    start: ast.start,
                    end: ast.end,
                    value: v,
                    kind: AstNodeWithValueType::Identifier { name: name.clone() },
                },
            ),
            None => Err(EvalError::UndefinedVariable(name.clone())),
        },
        ASTNodeType::BinaryOpNode { op, left, right } => {
            let l = match calculate_ast_expression(left, vars) {
                Ok(l) => l,
                Err(e) => return Err(e),
            };
            let r = match calculate_ast_expression(right, vars) {
                Ok(r) => r,
                Err(e) => return Err(e),
            };
            let value = match apply_binary(*op, l.value, r.value) {
                Ok(v) => v,
                Err(e) => return Err(e),
            };
            Ok(
                AstNodeWithValue {
                    start: ast.start,
                    end: ast.end,
                    value,
                    kind: AstNodeWithValueType::BinaryOpNode {
                        op: *op,
                        left: Box::new(l),
                        right: Box::new(r),
                    },
                },
            )
        },
        ASTNodeType::UnaryOpNode { op, operand } => {
            let o = match calculate_ast_expression(operand, vars) {
                Ok(o) => o,
                Err(e) => return Err(e),
            };
            let value = match apply_unary(*op, o.value) {
                Ok(v) => v,
                Err(e) => return Err(e),
            };
            Ok(
                AstNodeWithValue {
                    start: ast.start,
                    end: ast.end,
                    value,
                    kind: AstNodeWithValueType::UnaryOpNode { op: *op, operand: Box::new(o) },
                },
            )
        },
    }
}

} // verus!
