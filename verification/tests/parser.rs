use lakesoul_filter::{ExpressionNode, FilterError, Operator, Parser};

fn col(path: &str) -> ExpressionNode {
    ExpressionNode::ColumnRef(path.to_string())
}

fn lit(text: &str) -> ExpressionNode {
    ExpressionNode::Literal(text.to_string())
}

fn cmp(op: Operator, path: &str, text: &str) -> ExpressionNode {
    ExpressionNode::BinaryOp(op, Box::new(col(path)), Box::new(lit(text)))
}

#[test]
fn test_filter_parser() {
    let s = String::from("or(lt(a.b.c, 2.0), gt(a.b.c, 3.0))");
    assert!(Parser::parse(s).is_ok());
}

#[test]
fn test_filter_parser_not() {
    let s = String::from("not(eq(a.c, 2.9))");
    assert!(Parser::parse(s).is_ok());
}

#[test]
fn parses_simple_comparison() {
    let r = Parser::parse("eq(a.b, 2)".to_string());
    assert_eq!(r, Ok(cmp(Operator::Equal, "a.b", "2")));
}

#[test]
fn parses_negation() {
    let r = Parser::parse("not(eq(a.c, 2.9))".to_string());
    let expected = ExpressionNode::UnaryOp(
        Operator::Not,
        Box::new(cmp(Operator::Equal, "a.c", "2.9")),
    );
    assert_eq!(r, Ok(expected));
}

#[test]
fn parses_disjunction_of_comparisons() {
    let r = Parser::parse("or(lt(a.b.c, 2.0), gt(a.b.c, 3.0))".to_string());
    let expected = ExpressionNode::BinaryOp(
        Operator::Or,
        Box::new(cmp(Operator::LessThan, "a.b.c", "2.0")),
        Box::new(cmp(Operator::GreaterThan, "a.b.c", "3.0")),
    );
    assert_eq!(r, Ok(expected));
}

#[test]
fn splits_outside_nested_groups_only() {
    // The commas inside `eq(a,1)` and `eq(b,2)` sit at nesting depth
    // one; the conjunction must be split only at the depth-zero comma
    // between the two calls, keeping column `a` on the left and `b` on
    // the right. (Without a space after their inner commas, the two
    // comparisons keep an empty literal: an argument starts two
    // characters after the comma that separates it.)
    let r = Parser::parse("and(eq(a,1), eq(b,2))".to_string());
    let expected = ExpressionNode::BinaryOp(
        Operator::And,
        Box::new(cmp(Operator::Equal, "a", "")),
        Box::new(cmp(Operator::Equal, "b", "")),
    );
    assert_eq!(r, Ok(expected));
}

#[test]
fn unknown_operator_is_unsupported_not_an_error() {
    let r = Parser::parse("foo(a, 1)".to_string());
    assert_eq!(r, Ok(ExpressionNode::Unsupported));
}

#[test]
fn unknown_operators_nest_inside_known_ones() {
    let r = Parser::parse("or(foo(x, 1), bar(y, 2))".to_string());
    let expected = ExpressionNode::BinaryOp(
        Operator::Or,
        Box::new(ExpressionNode::Unsupported),
        Box::new(ExpressionNode::Unsupported),
    );
    assert_eq!(r, Ok(expected));
}

#[test]
fn missing_closing_paren_is_malformed() {
    let r = Parser::parse("eq(a, 1".to_string());
    assert_eq!(r, Err(FilterError::MalformedFilter));
}

#[test]
fn missing_opening_paren_is_malformed() {
    let r = Parser::parse("plain".to_string());
    assert_eq!(r, Err(FilterError::MalformedFilter));
}

#[test]
fn empty_string_is_malformed() {
    let r = Parser::parse(String::new());
    assert_eq!(r, Err(FilterError::MalformedFilter));
}

#[test]
fn unbalanced_nesting_is_malformed() {
    let r = Parser::parse("eq(a(, 1)".to_string());
    assert_eq!(r, Err(FilterError::MalformedFilter));
}

#[test]
fn two_top_level_commas_are_malformed() {
    let r = Parser::parse("eq(a, 1, 2)".to_string());
    assert_eq!(r, Err(FilterError::MalformedFilter));
}

#[test]
fn binary_call_without_comma_is_malformed() {
    let r = Parser::parse("eq(ab)".to_string());
    assert_eq!(r, Err(FilterError::MalformedFilter));
}

#[test]
fn negation_of_nothing_is_malformed() {
    let r = Parser::parse("not()".to_string());
    assert_eq!(r, Err(FilterError::MalformedFilter));
}

#[test]
fn parsing_twice_gives_equal_trees() {
    let s = "or(lt(a.b.c, 2.0), not(eq(d, 7)))";
    let first = Parser::parse(s.to_string());
    let second = Parser::parse(s.to_string());
    assert_eq!(first, second);
}

#[test]
fn splitter_separates_binary_call() {
    let r = Parser::parse_filter_str("eq(a.b, 2)".to_string());
    assert_eq!(
        r,
        Ok(("eq".to_string(), "a.b".to_string(), "2".to_string()))
    );
}

#[test]
fn splitter_keeps_whole_span_for_not() {
    let r = Parser::parse_filter_str("not(eq(a.c, 2.9))".to_string());
    assert_eq!(
        r,
        Ok(("not".to_string(), String::new(), "eq(a.c, 2.9)".to_string()))
    );
}

#[test]
fn all_comparison_keywords_resolve() {
    let cases = [
        ("eq", Operator::Equal),
        ("noteq", Operator::NotEqual),
        ("gt", Operator::GreaterThan),
        ("gteq", Operator::GreaterOrEqual),
        ("lt", Operator::LessThan),
        ("lteq", Operator::LessOrEqual),
    ];
    for (keyword, op) in cases {
        let r = Parser::parse(format!("{}(c, 5)", keyword));
        assert_eq!(r, Ok(cmp(op, "c", "5")));
    }
}

#[test]
fn nested_negations_build_nested_nodes() {
    let r = Parser::parse("not(not(eq(a, 1)))".to_string());
    let expected = ExpressionNode::UnaryOp(
        Operator::Not,
        Box::new(ExpressionNode::UnaryOp(
            Operator::Not,
            Box::new(cmp(Operator::Equal, "a", "1")),
        )),
    );
    assert_eq!(r, Ok(expected));
}
