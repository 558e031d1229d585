//! A small query language for selecting version-control references.
//!
//! A query string is tokenized, built into a syntax tree, validated into a
//! [`Query`], and finally expanded against a reference provider into the
//! names it selects.

pub mod span;
pub mod text;
pub mod token;
pub mod syntax;
pub mod query;
pub mod git;
pub mod expand;
pub mod laws;

use vstd::prelude::*;
use crate::query::{is_query_of, is_semantic_error, QueryNodeView, SemanticError, SemanticErrorView};
use crate::syntax::{
    build_syntax, is_syntax_error, is_syntax_of, node_views, well_formed, SyntaxError, SyntaxNode,
    SyntaxNodeView,
};
use crate::token::{token_views, tokenize, tokens_of, Token, TokenizeError, TokenView};

pub use crate::expand::GitQueryIter;
pub use crate::query::Query;

verus! {

/// The stage at which a query string was refused, with that stage's error.
#[derive(Debug, PartialEq, Eq)]
pub enum QueryStringParseErrorKind {
    /// The string is no sequence of tokens.
    TokenizeString(TokenizeError),
    /// The tokens are no syntax tree.
    ParseAstFromTokens(SyntaxError),
    /// The syntax tree is no query.
    ParseQueryFromAst(SemanticError),
}

/// Why a string is no query.
#[derive(Debug, PartialEq, Eq)]
pub struct QueryStringParseError {
    pub source: QueryStringParseErrorKind,
}

/// An error of a parse as a contract sees it.
pub enum QueryStringParseErrorView {
    TokenizeString(TokenizeError),
    ParseAstFromTokens(SyntaxError),
    ParseQueryFromAst(SemanticErrorView),
}

impl View for QueryStringParseErrorKind {
    type V = QueryStringParseErrorView;

    open spec fn view(&self) -> QueryStringParseErrorView {
        match *self {
            QueryStringParseErrorKind::TokenizeString(e) => QueryStringParseErrorView::TokenizeString(
                e,
            ),
            QueryStringParseErrorKind::ParseAstFromTokens(e) =>
                QueryStringParseErrorView::ParseAstFromTokens(e),
            QueryStringParseErrorKind::ParseQueryFromAst(e) =>
                QueryStringParseErrorView::ParseQueryFromAst(e@),
        }
    }
}

impl View for QueryStringParseError {
    type V = QueryStringParseErrorView;

    open spec fn view(&self) -> QueryStringParseErrorView {
        self.source@
    }
}

impl From<QueryStringParseErrorKind> for QueryStringParseError {
    fn from(source: QueryStringParseErrorKind) -> (e: QueryStringParseError) {
        QueryStringParseError { source }
    }
}

impl vstd::std_specs::convert::FromSpecImpl<QueryStringParseErrorKind> for QueryStringParseError {
    open spec fn obeys_from_spec() -> bool {
        true
    }

    open spec fn from_spec(source: QueryStringParseErrorKind) -> QueryStringParseError {
        QueryStringParseError { source }
    }
}

/// What the stages of one parse produced, as far as the parse got.
#[derive(Debug)]
pub struct ParsingContext {
    pub token_stream: Option<Vec<Token>>,
    pub ast: Option<Vec<SyntaxNode>>,
    pub query: Option<Query>,
}

/// A context as a contract sees it: what each stage produced, by its view.
pub struct ParsingContextView {
    pub token_stream: Option<Seq<TokenView>>,
    pub ast: Option<Seq<SyntaxNodeView>>,
    pub query: Option<Seq<QueryNodeView>>,
}

impl View for ParsingContext {
    type V = ParsingContextView;

    open spec fn view(&self) -> ParsingContextView {
        ParsingContextView {
            token_stream: match self.token_stream {
                Some(tokens) => Some(token_views(tokens@)),
                None => None,
            },
            ast: match self.ast {
                Some(nodes) => Some(node_views(nodes@)),
                None => None,
            },
            query: match self.query {
                Some(query) => Some(query@),
                None => None,
            },
        }
    }
}

impl Default for ParsingContext {
    fn default() -> (cx: ParsingContext)
        ensures
            cx.token_stream is None,
            cx.ast is None,
            cx.query is None,
    {
        ParsingContext { token_stream: None, ast: None, query: None }
    }
}

impl ParsingContext {
    /// A context that holds nothing yet.
    pub fn new() -> (cx: ParsingContext)
        ensures
            cx.token_stream is None,
            cx.ast is None,
            cx.query is None,
    {
        ParsingContext::default()
    }
}

/// What a parse of `text` leaves in the context `cx` and returns as `res`.
///
/// The stages run in their order, each on what the one before it produced,
/// and the context keeps what each produced. The first stage that fails
/// gives the error, and the stages after it leave nothing.
pub open spec fn parsed(
    text: Seq<char>,
    cx: ParsingContext,
    res: Result<&Query, QueryStringParseError>,
) -> bool {
    match tokens_of(text) {
        Err(e) => {
            &&& res matches Err(err)
            &&& err.source == QueryStringParseErrorKind::TokenizeString(e)
            &&& cx.token_stream is None
            &&& cx.ast is None
            &&& cx.query is None
        },
        Ok(tokens) => {
            &&& cx.token_stream matches Some(stream)
            &&& token_views(stream@) == tokens
            &&& if !well_formed(tokens) {
                &&& res matches Err(err)
                &&& err.source matches QueryStringParseErrorKind::ParseAstFromTokens(e)
                &&& is_syntax_error(tokens, e)
                &&& cx.ast is None
                &&& cx.query is None
            } else {
                &&& cx.ast matches Some(nodes)
                &&& is_syntax_of(node_views(nodes@), tokens)
                &&& match res {
                    Ok(query) => {
                        &&& cx.query == Some(*query)
                        &&& is_query_of(query@, node_views(nodes@))
                    },
                    Err(err) => {
                        &&& cx.query is None
                        &&& err.source matches QueryStringParseErrorKind::ParseQueryFromAst(e)
                        &&& is_semantic_error(node_views(nodes@), e@)
                    },
                }
            }
        },
    }
}

impl Query {
    /// Reads a query string: tokenizes it, builds the syntax tree, and
    /// validates the tree. The context is emptied first and then keeps what
    /// the stages produce; the query that is returned is the one it keeps.
    pub fn parse<'a>(query: &str, cx: &'a mut ParsingContext) -> (res: Result<
        &'a Query,
        QueryStringParseError,
    >)
        ensures
            parsed(query@, *final(cx), res),
    {
        *cx = ParsingContext::new();
        let tokens = match tokenize(query) {
            Ok(tokens) => tokens,
            Err(e) => {
                return Err(QueryStringParseError::from(QueryStringParseErrorKind::TokenizeString(e)));
            },
        };
        let built = build_syntax(&tokens);
        cx.token_stream = Some(tokens);
        let nodes = match built {
            Ok(nodes) => nodes,
            Err(e) => {
                return Err(
                    QueryStringParseError::from(QueryStringParseErrorKind::ParseAstFromTokens(e)),
                );
            },
        };
        let validated = Query::from_syntax(&nodes);
        cx.ast = Some(nodes);
        match validated {
            Ok(q) => {
                cx.query = Some(q);
                Ok(cx.query.as_ref().unwrap())
            },
            Err(e) => Err(
                QueryStringParseError::from(QueryStringParseErrorKind::ParseQueryFromAst(e)),
            ),
        }
    }
}

} // verus!
