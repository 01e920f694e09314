//! Expression builder: recursively turns a filter string into an
//! expression tree, driven by the operator registry.

use vstd::prelude::*;
use crate::expr::{ExprModel, ExpressionNode, FilterError, Operator};
use crate::splitter::{op_not, spec_locate_call, spec_split, locate_call, split_top_level};

verus! {

/// Stateless parser for the textual filter encoding.
pub struct Parser {}

/// What the operator registry knows of a keyword: its arity and the
/// operator it denotes, or that the keyword is unknown.
#[derive(Clone, Copy, Debug, PartialEq, Eq, Structural)]
pub enum OpEntry {
    Unary(Operator),
    Binary(Operator),
    Unknown,
}

/// The operator registry: the map from keyword to arity and operator.
/// Keywords not in the table are `Unknown`, never an error.
pub open spec fn spec_registry(name: Seq<char>) -> OpEntry {
    if name == op_not() {
        OpEntry::Unary(Operator::Not)
    } else if name == seq!['e', 'q'] {
        OpEntry::Binary(Operator::Equal)
    } else if name == seq!['n', 'o', 't', 'e', 'q'] {
        OpEntry::Binary(Operator::NotEqual)
    } else if name == seq!['g', 't'] {
        OpEntry::Binary(Operator::GreaterThan)
    } else if name == seq!['g', 't', 'e', 'q'] {
        OpEntry::Binary(Operator::GreaterOrEqual)
    } else if name == seq!['l', 't'] {
        OpEntry::Binary(Operator::LessThan)
    } else if name == seq!['l', 't', 'e', 'q'] {
        OpEntry::Binary(Operator::LessOrEqual)
    } else if name == seq!['a', 'n', 'd'] {
        OpEntry::Binary(Operator::And)
    } else if name == seq!['o', 'r'] {
        OpEntry::Binary(Operator::Or)
    } else {
        OpEntry::Unknown
    }
}

/// Whether a binary operator combines two sub-expressions; the six
/// comparisons instead take a column and a literal.
pub open spec fn is_combinator(op: Operator) -> bool {
    op == Operator::And || op == Operator::Or
}

/// Look a keyword up in the operator registry.
fn op_lookup(name: &str) -> (r: OpEntry)
    ensures
        r == spec_registry(name@),
{
    let n = name.unicode_len();
    if n == 2 {
        let c0 = name.get_char(0);
        let c1 = name.get_char(1);
        if c0 == 'e' && c1 == 'q' {
            proof {
                assert(name@ =~= seq!['e', 'q']);
            }
            OpEntry::Binary(Operator::Equal)
        } else if c0 == 'g' && c1 == 't' {
            proof {
                assert(name@ =~= seq!['g', 't']);
            }
            OpEntry::Binary(Operator::GreaterThan)
        } else if c0 == 'l' && c1 == 't' {
            proof {
                assert(name@ =~= seq!['l', 't']);
            }
            OpEntry::Binary(Operator::LessThan)
        } else if c0 == 'o' && c1 == 'r' {
            proof {
                assert(name@ =~= seq!['o', 'r']);
            }
            OpEntry::Binary(Operator::Or)
        } else {
            OpEntry::Unknown
        }
    } else if n == 3 {
        let c0 = name.get_char(0);
        let c1 = name.get_char(1);
        let c2 = name.get_char(2);
        if c0 == 'n' && c1 == 'o' && c2 == 't' {
            proof {
                assert(name@ =~= op_not());
            }
            OpEntry::Unary(Operator::Not)
        } else if c0 == 'a' && c1 == 'n' && c2 == 'd' {
            proof {
                assert(name@ =~= seq!['a', 'n', 'd']);
            }
            OpEntry::Binary(Operator::And)
        } else {
            OpEntry::Unknown
        }
    } else if n == 4 {
        let c0 = name.get_char(0);
        let c1 = name.get_char(1);
        let c2 = name.get_char(2);
        let c3 = name.get_char(3);
        if c0 == 'g' && c1 == 't' && c2 == 'e' && c3 == 'q' {
            proof {
                assert(name@ =~= seq!['g', 't', 'e', 'q']);
            }
            OpEntry::Binary(Operator::GreaterOrEqual)
        } else if c0 == 'l' && c1 == 't' && c2 == 'e' && c3 == 'q' {
            proof {
                assert(name@ =~= seq!['l', 't', 'e', 'q']);
            }
            OpEntry::Binary(Operator::LessOrEqual)
        } else {
            OpEntry::Unknown
        }
    } else if n == 5 {
        let c0 = name.get_char(0);
        let c1 = name.get_char(1);
        let c2 = name.get_char(2);
        let c3 = name.get_char(3);
        let c4 = name.get_char(4);
        if c0 == 'n' && c1 == 'o' && c2 == 't' && c3 == 'e' && c4 == 'q' {
            proof {
                assert(name@ =~= seq!['n', 'o', 't', 'e', 'q']);
            }
            OpEntry::Binary(Operator::NotEqual)
        } else {
            OpEntry::Unknown
        }
    } else {
        OpEntry::Unknown
    }
}

/// The meaning of a filter string: `None` for text the grammar
/// rejects, otherwise the model of the expression tree it encodes.
pub open spec fn spec_parse(s: Seq<char>) -> Option<ExprModel>
    decreases s.len(),
{
    match spec_parse_filter(s) {
        None => None,
        Some((name, l, r)) => match spec_registry(name) {
            OpEntry::Unary(op) => match spec_parse(r) {
                None => None,
                Some(operand) => Some(ExprModel::UnaryOp(op, Box::new(operand))),
            },
            OpEntry::Binary(op) => if is_combinator(op) {
                match (spec_parse(l), spec_parse(r)) {
                    (Some(le), Some(re)) => Some(
                        ExprModel::BinaryOp(op, Box::new(le), Box::new(re)),
                    ),
                    _ => None,
                }
            } else {
                Some(
                    ExprModel::BinaryOp(
                        op,
                        Box::new(ExprModel::ColumnRef(l)),
                        Box::new(ExprModel::Literal(r)),
                    ),
                )
            },
            OpEntry::Unknown => Some(ExprModel::Unsupported),
        },
    }
}

/// Operator name, left argument and right argument of a call, as the
/// splitter yields them.
pub open spec fn spec_parse_filter(s: Seq<char>) -> Option<(Seq<char>, Seq<char>, Seq<char>)> {
    match spec_locate_call(s) {
        None => None,
        Some((name, inner)) => match spec_split(name, inner) {
            None => None,
            Some((l, r)) => Some((name, l, r)),
        },
    }
}

impl Parser {
    /// Split `filter` into operator name, left argument and right
    /// argument, without building a tree.
    pub fn parse_filter_str(filter: String) -> (r: Result<
        (String, String, String),
        FilterError,
    >)
        ensures
            match r {
                Ok(t) => spec_parse_filter(filter@) == Some((t.0@, t.1@, t.2@)),
                Err(err) => spec_parse_filter(filter@) is None && err
                    == FilterError::MalformedFilter,
            },
    {
        let f = filter.as_str();
        let (name, inner) = match locate_call(f) {
            Ok(t) => t,
            Err(e) => {
                return Err(e);
            },
        };
        let (left, right) = match split_top_level(name, inner) {
            Ok(t) => t,
            Err(e) => {
                return Err(e);
            },
        };
        Ok((String::from_str(name), String::from_str(left), String::from_str(right)))
    }

    /// Parse a filter string into an expression tree.
    ///
    /// Returns `Ok` exactly on the strings whose meaning under
    /// [`spec_parse`] is defined, and then returns the tree with that
    /// model; every other string yields `MalformedFilter`.
    pub fn parse(filter: String) -> (r: Result<ExpressionNode, FilterError>)
        ensures
            match r {
                Ok(tree) => spec_parse(filter@) == Some(tree@),
                Err(err) => spec_parse(filter@) is None && err == FilterError::MalformedFilter,
            },
        decreases filter@.len(),
    {
        let ghost s = filter@;
        let (name, left, right) = match Self::parse_filter_str(filter) {
            Ok(t) => t,
            Err(e) => {
                return Err(e);
            },
        };
        proof {
            lemma_parts_shorter(s);
        }
        match op_lookup(name.as_str()) {
            OpEntry::Unary(op) => match Self::parse(right) {
                Ok(operand) => Ok(ExpressionNode::UnaryOp(op, Box::new(operand))),
                Err(e) => Err(e),
            },
            OpEntry::Binary(op) => {
                if op == Operator::And || op == Operator::Or {
                    let left_tree = match Self::parse(left) {
                        Ok(t) => t,
                        Err(e) => {
                            return Err(e);
                        },
                    };
                    let right_tree = match Self::parse(right) {
                        Ok(t) => t,
                        Err(e) => {
                            return Err(e);
                        },
                    };
                    Ok(ExpressionNode::BinaryOp(op, Box::new(left_tree), Box::new(right_tree)))
                } else {
                    let ghost lv = left@;
                    let ghost rv = right@;
                    let column = ExpressionNode::ColumnRef(left);
                    let literal = ExpressionNode::Literal(right);
                    proof {
                        assert(column.model() == ExprModel::ColumnRef(lv));
                        assert(literal.model() == ExprModel::Literal(rv));
                    }
                    Ok(ExpressionNode::BinaryOp(op, Box::new(column), Box::new(literal)))
                }
            },
            OpEntry::Unknown => Ok(ExpressionNode::Unsupported),
        }
    }
}

/// Parsing has no hidden state: the meaning of a filter string is a
/// function of its characters alone, so any two results that satisfy
/// [`Parser::parse`]'s contract on the same input — in particular the
/// results of two calls on equal strings — are the same tree model.
pub proof fn lemma_parse_deterministic(
    s: Seq<char>,
    r1: Option<ExprModel>,
    r2: Option<ExprModel>,
)
    requires
        r1 == spec_parse(s),
        r2 == spec_parse(s),
    ensures
        r1 == r2,
{
}

/// The splitter only ever returns pieces of the text between the
/// outermost parentheses, so both arguments of a call are strictly
/// shorter than the call itself.
pub proof fn lemma_parts_shorter(s: Seq<char>)
    requires
        spec_parse_filter(s) is Some,
    ensures
        ({
            let (name, l, r) = spec_parse_filter(s)->Some_0;
            &&& name.len() < s.len()
            &&& l.len() < s.len()
            &&& r.len() < s.len()
        }),
{
}

} // verus!
