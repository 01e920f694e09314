//! Expression trees built from a textual filter, and their ghost model.

use vstd::prelude::*;

verus! {

/// Operator of an expression node: the unary negation, the six
/// comparisons, and the two boolean combinators.
#[derive(Clone, Copy, Debug, PartialEq, Eq, Structural)]
pub enum Operator {
    Not,
    Equal,
    NotEqual,
    And,
    Or,
    GreaterThan,
    GreaterOrEqual,
    LessThan,
    LessOrEqual,
}

/// Error for a filter string that does not follow the grammar:
/// a missing `(`, a missing closing `)`, unbalanced parentheses, or a
/// binary call without exactly one depth-zero comma followed by a space.
///
/// An unknown operator keyword is deliberately *not* an error; it
/// resolves to [`ExpressionNode::Unsupported`].
#[derive(Clone, Copy, Debug, PartialEq, Eq, Structural)]
pub enum FilterError {
    MalformedFilter,
}

/// One node of the expression tree handed to the query engine.
///
/// Comparison nodes always hold a [`ExpressionNode::ColumnRef`] on the
/// left and a [`ExpressionNode::Literal`] on the right; `And`/`Or`
/// nodes hold two arbitrary sub-trees and `Not` holds one.
/// [`ExpressionNode::Unsupported`] is a wildcard "match everything"
/// marker for operator keywords this engine does not understand.
#[derive(Debug, PartialEq, Eq)]
pub enum ExpressionNode {
    ColumnRef(String),
    Literal(String),
    UnaryOp(Operator, Box<ExpressionNode>),
    BinaryOp(Operator, Box<ExpressionNode>, Box<ExpressionNode>),
    Unsupported,
}

/// Ghost mirror of [`ExpressionNode`], with text as sequences of
/// characters; the contracts of the parser speak of this model.
pub enum ExprModel {
    ColumnRef(Seq<char>),
    Literal(Seq<char>),
    UnaryOp(Operator, Box<ExprModel>),
    BinaryOp(Operator, Box<ExprModel>, Box<ExprModel>),
    Unsupported,
}

impl ExpressionNode {
    /// The ghost model of this tree.
    pub open spec fn model(&self) -> ExprModel
        decreases self,
    {
        match self {
            ExpressionNode::ColumnRef(path) => ExprModel::ColumnRef(path@),
            ExpressionNode::Literal(text) => ExprModel::Literal(text@),
            ExpressionNode::UnaryOp(op, operand) => ExprModel::UnaryOp(
                *op,
                Box::new(operand.model()),
            ),
            ExpressionNode::BinaryOp(op, left, right) => ExprModel::BinaryOp(
                *op,
                Box::new(left.model()),
                Box::new(right.model()),
            ),
            ExpressionNode::Unsupported => ExprModel::Unsupported,
        }
    }
}

impl View for ExpressionNode {
    type V = ExprModel;

    open spec fn view(&self) -> ExprModel {
        self.model()
    }
}

} // verus!
