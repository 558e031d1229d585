use git_ref_select::span::Span;
use git_ref_select::syntax::{build_syntax, Call, KindSet, SyntaxError, SyntaxNode};
use git_ref_select::token::{tokenize, Ident, Ref, Token, TokenKind};

fn span(start: usize, end: usize) -> Span {
    Span { start, end }
}

fn reference(value: &str, start: usize, end: usize) -> SyntaxNode {
    SyntaxNode::Ref(Ref { value: value.to_string(), span: span(start, end) })
}

fn call(name: &str, start: usize, args: Vec<SyntaxNode>, end: usize) -> SyntaxNode {
    SyntaxNode::Call(Call {
        identifier: Ident { name: name.to_string(), span: span(start, start + name.len()) },
        args,
        span: span(start, end),
    })
}

fn tree(text: &str) -> Result<Vec<SyntaxNode>, SyntaxError> {
    build_syntax(&tokenize(text).unwrap())
}

#[test]
fn no_tokens_give_no_nodes() {
    assert_eq!(build_syntax(&vec![]), Ok(vec![]));
}

#[test]
fn literal_token_is_a_reference() {
    assert_eq!(tree("\"main\""), Ok(vec![reference("main", 0, 6)]));
}

#[test]
fn bare_identifier_is_a_reference() {
    assert_eq!(tree("main dev "), Ok(vec![reference("main", 0, 4), reference("dev", 5, 8)]));
}

#[test]
fn identifier_with_parentheses_is_a_call() {
    assert_eq!(tree("locals()"), Ok(vec![call("locals", 0, vec![], 8)]));
}

#[test]
fn identifier_and_parentheses_may_be_apart() {
    assert_eq!(tree("locals ( )"), Ok(vec![call("locals", 0, vec![], 10)]));
}

#[test]
fn arguments_are_nodes() {
    assert_eq!(
        tree("f(a \"b\" g(c/d) h())"),
        Ok(vec![call(
            "f",
            0,
            vec![
                reference("a", 2, 3),
                reference("b", 4, 7),
                call("g", 8, vec![reference("c/d", 10, 13)], 14),
                call("h", 15, vec![], 18),
            ],
            19
        )])
    );
}

#[test]
fn top_level_nodes_keep_their_order() {
    assert_eq!(
        tree("\"main\" locals() x/y"),
        Ok(vec![reference("main", 0, 6), call("locals", 7, vec![], 15), reference("x/y", 16, 19)])
    );
}

#[test]
fn deep_nesting_is_read() {
    let mut text = String::new();
    for _ in 0..2000 {
        text.push_str("f(");
    }
    for _ in 0..2000 {
        text.push(')');
    }
    let nodes = tree(&text).unwrap();
    assert_eq!(nodes.len(), 1);
    let mut depth = 0;
    let mut node = &nodes[0];
    while let SyntaxNode::Call(c) = node {
        depth += 1;
        assert_eq!(c.span, span(2 * (depth - 1), 6000 - (depth - 1)));
        if c.args.is_empty() {
            break;
        }
        assert_eq!(c.args.len(), 1);
        node = &c.args[0];
    }
    assert_eq!(depth, 2000);
}

#[test]
fn unclosed_parenthesis_is_an_error_at_the_end_of_the_input() {
    assert_eq!(
        tree("foo("),
        Err(SyntaxError {
            at: 2,
            found: None,
            span: span(4, 4),
            expected: KindSet {
                identifier: true,
                literal_ref: true,
                l_paren: false,
                r_paren: true,
                end_of_input: false,
            },
        })
    );
}

#[test]
fn unclosed_parenthesis_after_a_name_may_still_open_a_call() {
    assert_eq!(
        tree("foo(bar "),
        Err(SyntaxError {
            at: 3,
            found: None,
            span: span(7, 7),
            expected: KindSet {
                identifier: true,
                literal_ref: true,
                l_paren: true,
                r_paren: true,
                end_of_input: false,
            },
        })
    );
}

#[test]
fn closing_parenthesis_without_an_open_one_is_an_error() {
    assert_eq!(
        tree("a )"),
        Err(SyntaxError {
            at: 1,
            found: Some(TokenKind::RParen),
            span: span(2, 3),
            expected: KindSet {
                identifier: true,
                literal_ref: true,
                l_paren: true,
                r_paren: false,
                end_of_input: true,
            },
        })
    );
}

#[test]
fn second_closing_parenthesis_is_an_error() {
    assert_eq!(
        tree("f())"),
        Err(SyntaxError {
            at: 3,
            found: Some(TokenKind::RParen),
            span: span(3, 4),
            expected: KindSet {
                identifier: true,
                literal_ref: true,
                l_paren: false,
                r_paren: false,
                end_of_input: true,
            },
        })
    );
}

#[test]
fn opening_parenthesis_without_a_name_is_an_error() {
    assert_eq!(
        tree("(a)"),
        Err(SyntaxError {
            at: 0,
            found: Some(TokenKind::LParen),
            span: span(0, 1),
            expected: KindSet {
                identifier: true,
                literal_ref: true,
                l_paren: false,
                r_paren: false,
                end_of_input: true,
            },
        })
    );
}

#[test]
fn opening_parenthesis_after_a_literal_is_an_error() {
    assert_eq!(
        tree("f(\"a\"(b))"),
        Err(SyntaxError {
            at: 3,
            found: Some(TokenKind::LParen),
            span: span(5, 6),
            expected: KindSet {
                identifier: true,
                literal_ref: true,
                l_paren: false,
                r_paren: true,
                end_of_input: false,
            },
        })
    );
}

#[test]
fn tokens_built_by_hand_are_read_too() {
    let tokens = vec![
        Token::Identifier(Ident { name: "f".to_string(), span: span(0, 1) }),
        Token::LParen(span(1, 2)),
        Token::LiteralRef(Ref { value: "x".to_string(), span: span(2, 3) }),
        Token::RParen(span(3, 4)),
    ];
    assert_eq!(build_syntax(&tokens), Ok(vec![call("f", 0, vec![reference("x", 2, 3)], 4)]));
}

#[test]
fn copy_of_a_node_equals_the_node() {
    let nodes = tree("f(a g(b) \"c\") d ").unwrap();
    for node in &nodes {
        assert_eq!(&node.clone(), node);
    }
}

#[test]
fn sibling_spans_ascend_on_every_level() {
    fn check(nodes: &[SyntaxNode]) {
        let mut end = 0;
        for node in nodes {
            assert!(end <= node.span().start);
            assert!(node.span().start < node.span().end);
            end = node.span().end;
            if let SyntaxNode::Call(call) = node {
                assert!(call.identifier.span.end <= call.span.end);
                check(&call.args);
                if let Some(last) = call.args.last() {
                    assert!(last.span().end < call.span.end);
                }
            }
        }
    }
    check(&tree("a f(b g(c \"d\") e) h() i/j").unwrap());
}
