use git_ref_select::query::{validate, Builtin, Query, QueryNode, SemanticError};
use git_ref_select::span::Span;
use git_ref_select::syntax::{build_syntax, Call, SyntaxNode};
use git_ref_select::token::{tokenize, Ident, Ref};
use git_ref_select::{ParsingContext, QueryStringParseErrorKind};

fn span(start: usize, end: usize) -> Span {
    Span { start, end }
}

fn reference(value: &str, start: usize, end: usize) -> QueryNode {
    QueryNode::Ref(Ref { value: value.to_string(), span: span(start, end) })
}

fn query_of(text: &str) -> Result<Query, SemanticError> {
    Query::from_syntax(&build_syntax(&tokenize(text).unwrap()).unwrap())
}

#[test]
fn references_stay_what_they_are() {
    assert_eq!(
        query_of("main \"dev\" x/y"),
        Ok(Query {
            nodes: vec![reference("main", 0, 4), reference("dev", 5, 10), reference("x/y", 11, 14)]
        })
    );
}

#[test]
fn locals_call_becomes_a_locals_node() {
    assert_eq!(query_of("locals()"), Ok(Query { nodes: vec![QueryNode::Locals { span: span(0, 6) }] }));
}

#[test]
fn empty_tree_is_an_empty_query() {
    assert_eq!(Query::from_syntax(&vec![]), Ok(Query { nodes: vec![] }));
}

#[test]
fn locals_with_an_argument_is_an_incorrect_arg_count() {
    assert_eq!(
        query_of("locals(x)"),
        Err(SemanticError::IncorrectArgCount {
            call: Call {
                identifier: Ident { name: "locals".to_string(), span: span(0, 6) },
                args: vec![SyntaxNode::Ref(Ref { value: "x".to_string(), span: span(7, 8) })],
                span: span(0, 9),
            }
        })
    );
}

#[test]
fn locals_with_a_call_as_argument_is_an_incorrect_arg_count() {
    match query_of("locals(locals())") {
        Err(SemanticError::IncorrectArgCount { call }) => {
            assert_eq!(call.identifier.span, span(0, 6));
            assert_eq!(call.args.len(), 1);
        }
        other => panic!("{:?}", other),
    }
}

#[test]
fn unknown_call_is_an_invalid_call() {
    assert_eq!(
        query_of("upstream()"),
        Err(SemanticError::InvalidCall {
            identifier: Ident { name: "upstream".to_string(), span: span(0, 8) }
        })
    );
}

#[test]
fn unknown_call_with_arguments_is_an_invalid_call() {
    assert_eq!(
        query_of("push(main) "),
        Err(SemanticError::InvalidCall {
            identifier: Ident { name: "push".to_string(), span: span(0, 4) }
        })
    );
}

#[test]
fn call_names_are_case_sensitive() {
    assert_eq!(
        query_of("Locals()"),
        Err(SemanticError::InvalidCall {
            identifier: Ident { name: "Locals".to_string(), span: span(0, 6) }
        })
    );
}

#[test]
fn first_invalid_node_gives_the_error() {
    assert_eq!(
        query_of("main upstream() locals(x)"),
        Err(SemanticError::InvalidCall {
            identifier: Ident { name: "upstream".to_string(), span: span(5, 13) }
        })
    );
}

#[test]
fn validate_reads_one_node() {
    let nodes = build_syntax(&tokenize("locals() a ").unwrap()).unwrap();
    assert_eq!(validate(&nodes[0]), Ok(QueryNode::Locals { span: span(0, 6) }));
    assert_eq!(validate(&nodes[1]), Ok(reference("a", 9, 10)));
}

#[test]
fn lookup_knows_locals_only() {
    assert_eq!(Builtin::lookup(&"locals".to_string()), Some(Builtin::Locals));
    assert_eq!(Builtin::lookup(&"local".to_string()), None);
    assert_eq!(Builtin::lookup(&"".to_string()), None);
    assert!(Builtin::Locals.takes(0));
    assert!(!Builtin::Locals.takes(1));
}

#[test]
fn parse_keeps_every_stage_in_the_context() {
    let mut cx = ParsingContext::new();
    let query = Query::parse("\"main\" locals()", &mut cx).unwrap();
    assert_eq!(
        query,
        &Query { nodes: vec![reference("main", 0, 6), QueryNode::Locals { span: span(7, 13) }] }
    );
    assert_eq!(cx.token_stream, Some(tokenize("\"main\" locals()").unwrap()));
    assert_eq!(cx.ast, Some(build_syntax(&tokenize("\"main\" locals()").unwrap()).unwrap()));
    assert_eq!(cx.query, query_of("\"main\" locals()").ok());
}

#[test]
fn parse_orders_nodes_as_the_text_does() {
    let mut cx = ParsingContext::new();
    let query = Query::parse("b locals() a \"c\" locals() d/e", &mut cx).unwrap();
    assert_eq!(
        query.nodes,
        vec![
            reference("b", 0, 1),
            QueryNode::Locals { span: span(2, 8) },
            reference("a", 11, 12),
            reference("c", 13, 16),
            QueryNode::Locals { span: span(17, 23) },
            reference("d/e", 26, 29),
        ]
    );
}

#[test]
fn parse_twice_gives_equal_queries() {
    let mut first = ParsingContext::new();
    let mut second = ParsingContext::new();
    let a = Query::parse("x locals() \"y\"", &mut first).unwrap();
    let b = Query::parse("x locals() \"y\"", &mut second).unwrap();
    assert_eq!(a, b);
    assert_eq!(first.token_stream, second.token_stream);
    assert_eq!(first.ast, second.ast);
}

#[test]
fn parse_empties_a_context_that_was_used() {
    let mut cx = ParsingContext::new();
    assert!(Query::parse("main locals()", &mut cx).is_ok());
    let err = Query::parse("#", &mut cx).unwrap_err();
    assert!(matches!(err.source, QueryStringParseErrorKind::TokenizeString(_)));
    assert_eq!(cx.token_stream, None);
    assert_eq!(cx.ast, None);
    assert_eq!(cx.query, None);
    let query = Query::parse("dev ", &mut cx).unwrap();
    assert_eq!(query.nodes, vec![reference("dev", 0, 3)]);
}

#[test]
fn unbalanced_parentheses_fail_in_the_syntax_stage() {
    let mut cx = ParsingContext::new();
    let err = Query::parse("foo(", &mut cx).unwrap_err();
    match err.source {
        QueryStringParseErrorKind::ParseAstFromTokens(e) => {
            assert_eq!(e.found, None);
            assert_eq!(e.at, 2);
        }
        other => panic!("{:?}", other),
    }
    assert!(cx.token_stream.is_some());
    assert_eq!(cx.ast, None);
    assert_eq!(cx.query, None);
}

#[test]
fn wrong_argument_count_fails_in_the_query_stage() {
    let mut cx = ParsingContext::new();
    let err = Query::parse("locals(x)", &mut cx).unwrap_err();
    assert!(matches!(
        err.source,
        QueryStringParseErrorKind::ParseQueryFromAst(SemanticError::IncorrectArgCount { .. })
    ));
    assert!(cx.ast.is_some());
    assert_eq!(cx.query, None);
}

#[test]
fn unknown_call_fails_in_the_query_stage() {
    let mut cx = ParsingContext::new();
    let err = Query::parse("upstream()", &mut cx).unwrap_err();
    match err.source {
        QueryStringParseErrorKind::ParseQueryFromAst(SemanticError::InvalidCall { identifier }) => {
            assert_eq!(identifier.name, "upstream");
        }
        other => panic!("{:?}", other),
    }
}

#[test]
fn error_kind_becomes_an_error() {
    let kind = QueryStringParseErrorKind::TokenizeString(tokenize("#").unwrap_err());
    let err = git_ref_select::QueryStringParseError::from(kind);
    assert_eq!(
        err.source,
        QueryStringParseErrorKind::TokenizeString(tokenize("#").unwrap_err())
    );
}

#[test]
fn default_context_holds_nothing() {
    let cx = ParsingContext::default();
    assert_eq!(cx.token_stream, None);
    assert_eq!(cx.ast, None);
    assert_eq!(cx.query, None);
}
