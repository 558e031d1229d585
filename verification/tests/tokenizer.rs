use git_ref_select::span::Span;
use git_ref_select::token::{tokenize, Ident, Ref, RuleSet, Token, TokenizeError};

fn span(start: usize, end: usize) -> Span {
    Span { start, end }
}

fn ident(name: &str, start: usize, end: usize) -> Token {
    Token::Identifier(Ident { name: name.to_string(), span: span(start, end) })
}

fn literal(value: &str, start: usize, end: usize) -> Token {
    Token::LiteralRef(Ref { value: value.to_string(), span: span(start, end) })
}

const ALL_RULES: RuleSet = RuleSet {
    l_paren: true,
    r_paren: true,
    quoted_literal: true,
    identifier: true,
    path_literal: true,
};

const QUOTED_ONLY: RuleSet = RuleSet {
    l_paren: false,
    r_paren: false,
    quoted_literal: true,
    identifier: false,
    path_literal: false,
};

#[test]
fn rule_sets_hold_what_their_names_say() {
    assert_eq!(RuleSet::all(), ALL_RULES);
    assert_eq!(RuleSet::quoted_only(), QUOTED_ONLY);
}

#[test]
fn bare_name_becomes_a_reference() {
    let name = Ident { name: "main".to_string(), span: span(3, 7) };
    assert_eq!(Ref::from(name), Ref { value: "main".to_string(), span: span(3, 7) });
}

#[test]
fn path_like_token_is_one_literal() {
    assert_eq!(tokenize("feature/my-branch"), Ok(vec![literal("feature/my-branch", 0, 17)]));
}

#[test]
fn empty_input_has_no_tokens() {
    assert_eq!(tokenize(""), Ok(vec![]));
}

#[test]
fn blank_input_has_no_tokens() {
    assert_eq!(tokenize(" \t  "), Ok(vec![]));
}

#[test]
fn call_is_three_tokens() {
    assert_eq!(
        tokenize("locals()"),
        Ok(vec![ident("locals", 0, 6), Token::LParen(span(6, 7)), Token::RParen(span(7, 8))])
    );
}

#[test]
fn quoted_literal_loses_its_quotes_and_keeps_them_in_its_span() {
    assert_eq!(tokenize("\"main\""), Ok(vec![literal("main", 0, 6)]));
}

#[test]
fn quoted_literal_may_hold_punctuation() {
    assert_eq!(tokenize("\"a.b(c)~^\""), Ok(vec![literal("a.b(c)~^", 0, 10)]));
}

#[test]
fn quoted_literal_then_call() {
    assert_eq!(
        tokenize("\"main\" locals()"),
        Ok(vec![
            literal("main", 0, 6),
            ident("locals", 7, 13),
            Token::LParen(span(13, 14)),
            Token::RParen(span(14, 15)),
        ])
    );
}

#[test]
fn name_before_a_space_is_an_identifier() {
    assert_eq!(tokenize("main dev "), Ok(vec![ident("main", 0, 4), ident("dev", 5, 8)]));
}

#[test]
fn name_at_the_end_of_the_input_is_an_identifier() {
    assert_eq!(tokenize("main"), Ok(vec![ident("main", 0, 4)]));
    assert_eq!(tokenize("a b"), Ok(vec![ident("a", 0, 1), ident("b", 2, 3)]));
}

#[test]
fn name_before_a_parenthesis_or_a_quote_is_an_identifier() {
    assert_eq!(tokenize("a)"), Ok(vec![ident("a", 0, 1), Token::RParen(span(1, 2))]));
    assert_eq!(tokenize("a\"b\""), Ok(vec![ident("a", 0, 1), literal("b", 1, 4)]));
}

#[test]
fn name_before_an_unexpected_character_is_read_first() {
    assert_eq!(
        tokenize("ab#"),
        Err(TokenizeError { span: span(2, 3), found: Some('#'), tried: ALL_RULES })
    );
}

#[test]
fn name_before_a_dash_or_a_slash_is_part_of_a_literal() {
    assert_eq!(
        tokenize("my-branch x/y "),
        Ok(vec![literal("my-branch", 0, 9), literal("x/y", 10, 13)])
    );
}

#[test]
fn underscores_belong_to_identifiers() {
    assert_eq!(tokenize("_a_1_ ("), Ok(vec![ident("_a_1_", 0, 5), Token::LParen(span(6, 7))]));
}

#[test]
fn digits_begin_a_literal() {
    assert_eq!(tokenize("1abc "), Ok(vec![literal("1abc", 0, 4)]));
    assert_eq!(tokenize("1abc"), Ok(vec![literal("1abc", 0, 4)]));
}

#[test]
fn slashes_may_stand_anywhere_in_a_literal() {
    assert_eq!(tokenize("/a//b/ "), Ok(vec![literal("/a//b/", 0, 6)]));
    assert_eq!(tokenize("a/"), Ok(vec![literal("a/", 0, 2)]));
    assert_eq!(tokenize("-"), Ok(vec![literal("-", 0, 1)]));
}

#[test]
fn tokens_need_no_space_between_them() {
    assert_eq!(
        tokenize("a(b\"c\")"),
        Ok(vec![
            ident("a", 0, 1),
            Token::LParen(span(1, 2)),
            ident("b", 2, 3),
            literal("c", 3, 6),
            Token::RParen(span(6, 7)),
        ])
    );
}

#[test]
fn tabs_separate_tokens() {
    assert_eq!(
        tokenize("\t(\t)\t"),
        Ok(vec![Token::LParen(span(1, 2)), Token::RParen(span(3, 4))])
    );
}

#[test]
fn unexpected_character_is_reported_where_it_stands() {
    assert_eq!(
        tokenize("main #"),
        Err(TokenizeError { span: span(5, 6), found: Some('#'), tried: ALL_RULES })
    );
}

#[test]
fn newline_is_no_separator() {
    assert_eq!(
        tokenize("a\nb"),
        Err(TokenizeError { span: span(1, 2), found: Some('\n'), tried: ALL_RULES })
    );
}

#[test]
fn non_ascii_letter_is_unexpected() {
    assert_eq!(
        tokenize("a \u{e9}"),
        Err(TokenizeError { span: span(2, 3), found: Some('\u{e9}'), tried: ALL_RULES })
    );
}

#[test]
fn unterminated_literal_is_reported_at_the_end_of_the_input() {
    assert_eq!(
        tokenize("\"main"),
        Err(TokenizeError { span: span(5, 5), found: None, tried: QUOTED_ONLY })
    );
}

#[test]
fn space_inside_quotes_is_unexpected() {
    assert_eq!(
        tokenize("\"a b\""),
        Err(TokenizeError { span: span(2, 3), found: Some(' '), tried: QUOTED_ONLY })
    );
}

#[test]
fn empty_quotes_are_no_literal() {
    assert_eq!(
        tokenize("\"\""),
        Err(TokenizeError { span: span(1, 2), found: Some('"'), tried: QUOTED_ONLY })
    );
}

#[test]
fn first_error_wins() {
    assert_eq!(
        tokenize("# \"x"),
        Err(TokenizeError { span: span(0, 1), found: Some('#'), tried: ALL_RULES })
    );
}

#[test]
fn token_spans_ascend() {
    let tokens = tokenize("a(b c/d \"e\") f").unwrap();
    let mut end = 0;
    for token in &tokens {
        assert!(end <= token.span().start);
        assert!(token.span().start < token.span().end);
        end = token.span().end;
    }
    assert!(end <= 15);
}

#[test]
fn tokenizing_twice_gives_equal_tokens() {
    assert_eq!(tokenize("a(b) \"c\" d/e"), tokenize("a(b) \"c\" d/e"));
}
