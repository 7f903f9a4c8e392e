//! Expression trees, as handed over by a parser.
use vstd::prelude::*;

verus! {

/// Operator tags that a parser attaches to operation nodes.
#[derive(Clone, Copy, PartialEq, Eq, Debug, Structural)]
pub enum TokenKind {
    Plus,
    Minus,
    Multiply,
    Dot,
    Wedge,
    Frac,
    Caret,
}

/// What an expression node is, with its children.
#[derive(Debug)]
pub enum ASTNodeType {
    Int { value: i64 },
    Identifier { name: String },
    BinaryOpNode { op: TokenKind, left: Box<ASTNode>, right: Box<ASTNode> },
    UnaryOpNode { op: TokenKind, operand: Box<ASTNode> },
}

/// An expression node with the span of source text it came from.
#[derive(Debug)]
pub struct ASTNode {
    pub start: usize,
    pub end: usize,
    pub kind: ASTNodeType,
}

/// The identifiers of a tree, from left to right, repeats included.
pub open spec fn spec_identifiers(ast: ASTNode) -> Seq<String>
    decreases ast,
{
    match ast.kind {
        ASTNodeType::Identifier { name } => seq![name],
        ASTNodeType::BinaryOpNode { left, right, .. } => spec_identifiers(*left) + spec_identifiers(
            *right,
        ),
        ASTNodeType::UnaryOpNode { operand, .. } => spec_identifiers(*operand),
        ASTNodeType::Int { .. } => Seq::empty(),
    }
}

/// Appends the identifiers of `ast`, from left to right, to `identifiers`.
pub fn find_ast_identifiers(ast: &ASTNode, identifiers: &mut Vec<String>)
    ensures
        final(identifiers)@ == old(identifiers)@ + spec_identifiers(*ast),
    decreases ast,
{
    match &ast.kind {
        ASTNodeType::Identifier { name } => {
            identifiers.push(name.clone());
            assert(final(identifiers)@ =~= old(identifiers)@ + spec_identifiers(*ast));
        },
        ASTNodeType::BinaryOpNode { left, right, op: _ } => {
            find_ast_identifiers(left, identifiers);
            find_ast_identifiers(right, identifiers);
            assert(final(identifiers)@ =~= old(identifiers)@ + spec_identifiers(*ast));
        },
        ASTNodeType::UnaryOpNode { operand, op: _ } => {
            find_ast_identifiers(operand, identifiers);
        },
        ASTNodeType::Int { .. } => {
            assert(final(identifiers)@ =~= old(identifiers)@ + spec_identifiers(*ast));
        },
    }
}

} // verus!
