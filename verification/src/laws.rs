//! What holds of the stages of a parse taken together.

use vstd::prelude::*;
use crate::query::{
    is_query_of, lemma_query_unique, lemma_semantic_error_has_no_query,
    lemma_semantic_error_unique, validated, Query, QueryNodeView,
};
use crate::syntax::{
    depth, is_syntax_of, lemma_node_place, lemma_node_width_positive, lemma_syntax_error_unique,
    lemma_syntax_unique, lemma_width_grows, node_views, nodes_width, well_formed, SyntaxNodeView,
};
use crate::token::{lemma_tokens_read, token_reads, tokens_of, IdentView, TokenView};
use crate::{parsed, ParsingContext, QueryStringParseError};

verus! {

/// Two parses of one text leave the same in their contexts and return the
/// same: the same tokens, the same syntax tree, and the same query or the
/// same error.
pub proof fn lemma_parse_is_deterministic(
    text: Seq<char>,
    first_cx: ParsingContext,
    first: Result<&Query, QueryStringParseError>,
    second_cx: ParsingContext,
    second: Result<&Query, QueryStringParseError>,
)
    requires
        parsed(text, first_cx, first),
        parsed(text, second_cx, second),
    ensures
        first_cx@ == second_cx@,
        first is Ok <==> second is Ok,
        first matches Ok(a) ==> second matches Ok(b) && a@ == b@,
        first matches Err(a) ==> second matches Err(b) && a@ == b@,
{
    match tokens_of(text) {
        Err(_) => {},
        Ok(tokens) => {
            if well_formed(tokens) {
                let a = node_views(first_cx.ast->Some_0@);
                let b = node_views(second_cx.ast->Some_0@);
                lemma_syntax_unique(a, b, tokens);
                match (first, second) {
                    (Ok(p), Ok(q)) => {
                        lemma_query_unique(p@, q@, a);
                    },
                    (Err(p), Err(q)) => {
                        let e = p.source->ParseQueryFromAst_0;
                        let f = q.source->ParseQueryFromAst_0;
                        lemma_semantic_error_unique(a, e@, f@);
                    },
                    (Ok(p), Err(q)) => {
                        let f = q.source->ParseQueryFromAst_0;
                        lemma_semantic_error_has_no_query(a, f@, p@);
                    },
                    (Err(p), Ok(q)) => {
                        let e = p.source->ParseQueryFromAst_0;
                        lemma_semantic_error_has_no_query(a, e@, q@);
                    },
                }
            } else {
                let e = first->Err_0.source->ParseAstFromTokens_0;
                let f = second->Err_0.source->ParseAstFromTokens_0;
                lemma_syntax_error_unique(tokens, e, f);
            }
        },
    }
}

/// The query node `node` is what `text` holds under the node's span: the
/// name of a reference, with or without quotes around it, or the name
/// `locals`.
pub open spec fn query_node_reads(text: Seq<char>, node: QueryNodeView) -> bool {
    match node {
        QueryNodeView::Ref(r) => {
            ||| token_reads(text, TokenView::LiteralRef(r))
            ||| token_reads(
                text,
                TokenView::Identifier(IdentView { name: r.value, span: r.span }),
            )
        },
        QueryNodeView::Locals { span } => {
            &&& span.start <= span.end <= text.len()
            &&& text.subrange(span.start as int, span.end as int) == "locals"@
        },
    }
}

/// The nodes of a query stand in `text` in their order: each reads what is
/// under its span, and none begins before the one before it has ended.
pub open spec fn query_follows_text(query: Seq<QueryNodeView>, text: Seq<char>) -> bool {
    &&& forall|k: int| 0 <= k < query.len() ==> query_node_reads(text, #[trigger] query[k])
    &&& forall|j: int, k: int|
        0 <= j < k < query.len() ==> (#[trigger] query[j]).span().end
            <= (#[trigger] query[k]).span().start
}

/// The query that a parse returns has one node for each expression on the
/// top level of the text, in the order in which the text holds them: the
/// nodes are the validated nodes of the syntax tree, one for one, and they
/// stand in the text from left to right.
pub proof fn lemma_query_follows_text(
    text: Seq<char>,
    cx: ParsingContext,
    res: Result<&Query, QueryStringParseError>,
)
    requires
        text.len() <= usize::MAX,
        parsed(text, cx, res),
        res is Ok,
    ensures
        cx.ast is Some,
        is_query_of(res->Ok_0@, node_views(cx.ast->Some_0@)),
        query_follows_text(res->Ok_0@, text),
{
    let tokens = tokens_of(text)->Ok_0;
    let nodes = node_views(cx.ast->Some_0@);
    let query = res->Ok_0@;
    lemma_tokens_read(text, 0);
    assert forall|k: int| 0 <= k < query.len() implies query_node_reads(
        text,
        #[trigger] query[k],
    ) by {
        lemma_anchor(nodes, tokens, query, k);
    }
    assert forall|j: int, k: int| 0 <= j < k < query.len() implies (#[trigger] query[j]).span().end
        <= (#[trigger] query[k]).span().start by {
        lemma_anchor(nodes, tokens, query, j);
        lemma_anchor(nodes, tokens, query, k);
        lemma_width_grows(nodes, j, k);
        lemma_node_width_positive(nodes[j]);
    }
}

/// The `k`-th node of a query was read from the first token of the `k`-th
/// node of the syntax tree.
proof fn lemma_anchor(
    nodes: Seq<SyntaxNodeView>,
    tokens: Seq<TokenView>,
    query: Seq<QueryNodeView>,
    k: int,
)
    requires
        is_syntax_of(nodes, tokens),
        is_query_of(query, nodes),
        0 <= k < query.len(),
    ensures
        0 <= nodes_width(nodes.take(k)) < tokens.len(),
        query[k].span() == tokens[nodes_width(nodes.take(k)) as int].span(),
        forall|text: Seq<char>|
            token_reads(text, tokens[nodes_width(nodes.take(k)) as int]) ==> query_node_reads(
                text,
                query[k],
            ),
{
    lemma_node_place(nodes, tokens, 0, k);
}

/// A text with a call on its top level that is no query node is refused
/// when its syntax tree is validated: the parse returns that stage's error
/// and leaves no query, so that nothing is there to expand.
pub proof fn lemma_invalid_call_is_refused(
    text: Seq<char>,
    cx: ParsingContext,
    res: Result<&Query, QueryStringParseError>,
    at: int,
)
    requires
        parsed(text, cx, res),
        cx@.ast matches Some(nodes) && 0 <= at < nodes.len() && validated(nodes[at]) is Err,
    ensures
        res matches Err(e) && e.source is ParseQueryFromAst,
        cx.query is None,
{
}

/// A text whose parentheses are not balanced is refused when its syntax
/// tree is built: the parse leaves no tree and no query.
pub proof fn lemma_unbalanced_is_refused(
    text: Seq<char>,
    cx: ParsingContext,
    res: Result<&Query, QueryStringParseError>,
)
    requires
        parsed(text, cx, res),
        tokens_of(text) matches Ok(tokens) && depth(tokens, tokens.len() as int) != 0,
    ensures
        res matches Err(e) && e.source is ParseAstFromTokens,
        cx.ast is None,
        cx.query is None,
{
}

} // verus!
