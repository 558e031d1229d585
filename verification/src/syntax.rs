//! The syntax tree, and the builder that reads it from a token sequence.

use vstd::prelude::*;
use crate::span::Span;
use crate::token::{Ident, IdentView, Ref, RefView, Token, TokenKind, TokenView, token_views};

verus! {

/// A call: a name, and the nodes between the parentheses that follow it.
#[derive(Debug, PartialEq, Eq)]
pub struct Call {
    pub identifier: Ident,
    pub args: Vec<SyntaxNode>,
    /// From the first character of the name to the closing parenthesis.
    pub span: Span,
}

/// One expression of a query.
#[derive(Debug, PartialEq, Eq)]
pub enum SyntaxNode {
    /// A bare reference, written as a name or as a literal.
    Ref(Ref),
    Call(Call),
}

/// A call as a contract sees it.
pub struct CallView {
    pub identifier: IdentView,
    pub args: Seq<SyntaxNodeView>,
    pub span: Span,
}

/// A syntax node as a contract sees it.
pub enum SyntaxNodeView {
    Ref(RefView),
    Call(CallView),
}

impl View for SyntaxNode {
    type V = SyntaxNodeView;

    open spec fn view(&self) -> SyntaxNodeView
        decreases self,
    {
        match self {
            SyntaxNode::Ref(r) => SyntaxNodeView::Ref(r@),
            SyntaxNode::Call(call) => SyntaxNodeView::Call(call@),
        }
    }
}

impl View for Call {
    type V = CallView;

    open spec fn view(&self) -> CallView
        decreases self,
    {
        CallView {
            identifier: self.identifier@,
            args: node_views(self.args@),
            span: self.span,
        }
    }
}

impl SyntaxNodeView {
    /// The part of the source that the node was read from.
    pub open spec fn span(self) -> Span {
        match self {
            SyntaxNodeView::Ref(r) => r.span,
            SyntaxNodeView::Call(call) => call.span,
        }
    }
}

impl SyntaxNode {
    /// The part of the source that the node was read from.
    pub fn span(&self) -> (span: Span)
        ensures
            span == self@.span(),
    {
        match self {
            SyntaxNode::Ref(r) => r.span,
            SyntaxNode::Call(call) => call.span,
        }
    }
}

/// The views of a sequence of syntax nodes, in their order.
pub open spec fn node_views(nodes: Seq<SyntaxNode>) -> Seq<SyntaxNodeView>
    decreases nodes,
{
    if nodes.len() == 0 {
        Seq::empty()
    } else {
        node_views(nodes.drop_last()).push(nodes.last()@)
    }
}

/// The views of a sequence of nodes are as many as the nodes, and each is
/// the view of the node in its place.
pub proof fn lemma_node_views(nodes: Seq<SyntaxNode>)
    ensures
        node_views(nodes).len() == nodes.len(),
        forall|i: int| 0 <= i < nodes.len() ==> (#[trigger] node_views(nodes)[i]) == nodes[i]@,
    decreases nodes.len(),
{
    if nodes.len() > 0 {
        lemma_node_views(nodes.drop_last());
        assert(node_views(nodes) == node_views(nodes.drop_last()).push(nodes.last()@));
    } else {
    }
}

/// How many tokens a node is written with.
pub open spec fn node_width(node: SyntaxNodeView) -> nat
    decreases node,
{
    match node {
        SyntaxNodeView::Ref(_) => 1,
        SyntaxNodeView::Call(call) => 3 + nodes_width(call.args),
    }
}

/// How many tokens a sequence of nodes is written with.
pub open spec fn nodes_width(nodes: Seq<SyntaxNodeView>) -> nat
    decreases nodes,
{
    if nodes.len() == 0 {
        0
    } else {
        nodes_width(nodes.drop_last()) + node_width(nodes.last())
    }
}

/// The node `node` is what the tokens from position `at` on say: a
/// reference is one literal, or one name that no parenthesis follows; a call
/// is its name, an opening parenthesis, its arguments one after another, and
/// a closing parenthesis.
pub open spec fn node_spells(node: SyntaxNodeView, tokens: Seq<TokenView>, at: int) -> bool
    decreases node,
{
    match node {
        SyntaxNodeView::Ref(r) => {
            &&& 0 <= at < tokens.len()
            &&& {
                ||| tokens[at] == TokenView::LiteralRef(r)
                ||| {
                    &&& tokens[at] == TokenView::Identifier(
                        IdentView { name: r.value, span: r.span },
                    )
                    &&& !(at + 1 < tokens.len() && tokens[at + 1] is LParen)
                }
            }
        },
        SyntaxNodeView::Call(call) => {
            let close = at + 2 + nodes_width(call.args);
            &&& 0 <= at
            &&& close < tokens.len()
            &&& tokens[at] == TokenView::Identifier(call.identifier)
            &&& tokens[at + 1] is LParen
            &&& nodes_spell(call.args, tokens, at + 2)
            &&& tokens[close] is RParen
            &&& call.span == Span {
                start: call.identifier.span.start,
                end: tokens[close].span().end,
            }
        },
    }
}

/// The nodes `nodes`, one after another, are what the tokens from position
/// `at` on say.
pub open spec fn nodes_spell(nodes: Seq<SyntaxNodeView>, tokens: Seq<TokenView>, at: int) -> bool
    decreases nodes,
{
    nodes.len() == 0 || {
        &&& nodes_spell(nodes.drop_last(), tokens, at)
        &&& node_spells(nodes.last(), tokens, at + nodes_width(nodes.drop_last()))
    }
}

/// The nodes `nodes` are the syntax tree of the whole token sequence.
pub open spec fn is_syntax_of(nodes: Seq<SyntaxNodeView>, tokens: Seq<TokenView>) -> bool {
    nodes_spell(nodes, tokens, 0) && nodes_width(nodes) == tokens.len()
}

/// A sequence of nodes can be read from its first node on as well as from
/// its last.
pub proof fn lemma_spell_from_front(nodes: Seq<SyntaxNodeView>, tokens: Seq<TokenView>, at: int)
    requires
        nodes.len() > 0,
    ensures
        nodes_spell(nodes, tokens, at) == (node_spells(nodes.first(), tokens, at) && nodes_spell(
            nodes.drop_first(),
            tokens,
            at + node_width(nodes.first()),
        )),
        nodes_width(nodes) == node_width(nodes.first()) + nodes_width(nodes.drop_first()),
    decreases nodes.len(),
{
    let init = nodes.drop_last();
    let tail = nodes.drop_first();
    if nodes.len() == 1 {
        assert(nodes_spell(init, tokens, at));
    } else {
        lemma_spell_from_front(init, tokens, at);
        assert(tail.drop_last() =~= init.drop_first());
    }
}

/// Every node is written with one token at least.
pub proof fn lemma_node_width_positive(node: SyntaxNodeView)
    ensures
        node_width(node) >= 1,
{
    match node {
        SyntaxNodeView::Ref(_) => {},
        SyntaxNodeView::Call(call) => {
        },
    }
}

/// The first `upto` nodes of a sequence take up as many tokens as the
/// first `k` of them and the node that follows those, or more.
pub proof fn lemma_width_grows(nodes: Seq<SyntaxNodeView>, k: int, upto: int)
    requires
        0 <= k < upto <= nodes.len(),
    ensures
        nodes_width(nodes.take(k)) + node_width(nodes[k]) <= nodes_width(nodes.take(upto)),
    decreases upto,
{
    assert(nodes.take(upto).drop_last() =~= nodes.take(upto - 1));
    if k < upto - 1 {
        lemma_width_grows(nodes, k, upto - 1);
    }
}

/// Each node of a sequence that the tokens say is said where the nodes
/// before it end.
pub proof fn lemma_node_place(
    nodes: Seq<SyntaxNodeView>,
    tokens: Seq<TokenView>,
    at: int,
    k: int,
)
    requires
        nodes_spell(nodes, tokens, at),
        0 <= k < nodes.len(),
    ensures
        node_spells(nodes[k], tokens, at + nodes_width(nodes.take(k))),
    decreases nodes.len(),
{
    if k == nodes.len() - 1 {
    } else {
        lemma_node_place(nodes.drop_last(), tokens, at, k);
        assert(nodes.drop_last().take(k) =~= nodes.take(k));
    }
}

/// The span of a node begins where its first token begins and ends where
/// its last token ends.
pub proof fn lemma_node_span(node: SyntaxNodeView, tokens: Seq<TokenView>, at: int)
    requires
        node_spells(node, tokens, at),
    ensures
        0 <= at,
        at + node_width(node) <= tokens.len(),
        node.span().start == tokens[at].span().start,
        node.span().end == tokens[at + node_width(node) - 1].span().end,
{
    match node {
        SyntaxNodeView::Ref(_) => {},
        SyntaxNodeView::Call(call) => {
        },
    }
}

/// Where the spans of the tokens ascend, so do the spans of the nodes that
/// stand side by side, on the top level as among the arguments of a call:
/// none begins before the one before it has ended.
pub proof fn lemma_sibling_spans_ascend(
    nodes: Seq<SyntaxNodeView>,
    tokens: Seq<TokenView>,
    at: int,
)
    requires
        nodes_spell(nodes, tokens, at),
        forall|i: int, j: int|
            0 <= i < j < tokens.len() ==> (#[trigger] tokens[i]).span().end
                <= (#[trigger] tokens[j]).span().start,
    ensures
        forall|j: int, k: int|
            0 <= j < k < nodes.len() ==> (#[trigger] nodes[j]).span().end
                <= (#[trigger] nodes[k]).span().start,
{
    assert forall|j: int, k: int| 0 <= j < k < nodes.len() implies (#[trigger] nodes[j]).span().end
        <= (#[trigger] nodes[k]).span().start by {
        lemma_node_place(nodes, tokens, at, j);
        lemma_node_place(nodes, tokens, at, k);
        lemma_node_span(nodes[j], tokens, at + nodes_width(nodes.take(j)));
        lemma_node_span(nodes[k], tokens, at + nodes_width(nodes.take(k)));
        lemma_width_grows(nodes, j, k);
        lemma_node_width_positive(nodes[j]);
    }
}

/// No node begins at position `at`: the tokens end there, or a closing
/// parenthesis stands there.
pub open spec fn stops(tokens: Seq<TokenView>, at: int) -> bool {
    at >= tokens.len() || tokens[at] is RParen
}

/// The tokens from one position on say at most one node.
pub proof fn lemma_node_unique(
    a: SyntaxNodeView,
    b: SyntaxNodeView,
    tokens: Seq<TokenView>,
    at: int,
)
    requires
        node_spells(a, tokens, at),
        node_spells(b, tokens, at),
    ensures
        a == b,
    decreases a,
{
    match a {
        SyntaxNodeView::Ref(_) => {},
        SyntaxNodeView::Call(call_a) => {
            let call_b = b->Call_0;
            lemma_nodes_unique(call_a.args, call_b.args, tokens, at + 2);
        },
    }
}

/// The tokens from one position on, up to where no node begins, say at
/// most one sequence of nodes.
pub proof fn lemma_nodes_unique(
    a: Seq<SyntaxNodeView>,
    b: Seq<SyntaxNodeView>,
    tokens: Seq<TokenView>,
    at: int,
)
    requires
        nodes_spell(a, tokens, at),
        nodes_spell(b, tokens, at),
        stops(tokens, at + nodes_width(a)),
        stops(tokens, at + nodes_width(b)),
    ensures
        a == b,
    decreases a,
{
    if a.len() == 0 || b.len() == 0 {
        if a.len() > 0 {
            lemma_spell_from_front(a, tokens, at);
        }
        if b.len() > 0 {
            lemma_spell_from_front(b, tokens, at);
        }
    } else {
        lemma_spell_from_front(a, tokens, at);
        lemma_spell_from_front(b, tokens, at);
        lemma_node_unique(a.first(), b.first(), tokens, at);
        lemma_nodes_unique(a.drop_first(), b.drop_first(), tokens, at + node_width(a.first()));
        assert(a =~= seq![a.first()] + a.drop_first());
    }
}

/// A token sequence has at most one syntax tree.
pub proof fn lemma_syntax_unique(
    a: Seq<SyntaxNodeView>,
    b: Seq<SyntaxNodeView>,
    tokens: Seq<TokenView>,
)
    requires
        is_syntax_of(a, tokens),
        is_syntax_of(b, tokens),
    ensures
        a == b,
{
    lemma_nodes_unique(a, b, tokens, 0);
}

/// How many parentheses are open after the first `upto` tokens.
pub open spec fn depth(tokens: Seq<TokenView>, upto: int) -> int
    decreases upto,
{
    if upto <= 0 {
        0
    } else {
        depth(tokens, upto - 1) + match tokens[upto - 1] {
            TokenView::LParen(_) => 1int,
            TokenView::RParen(_) => -1int,
            _ => 0int,
        }
    }
}

/// The token at position `at` may stand there: an opening parenthesis
/// follows a name, and a closing parenthesis closes one that is open.
pub open spec fn fits(tokens: Seq<TokenView>, at: int) -> bool {
    match tokens[at] {
        TokenView::LParen(_) => at > 0 && tokens[at - 1] is Identifier,
        TokenView::RParen(_) => depth(tokens, at) > 0,
        _ => true,
    }
}

/// The token sequence is a query: every token may stand where it does, and
/// no parenthesis is left open.
pub open spec fn well_formed(tokens: Seq<TokenView>) -> bool {
    &&& forall|at: int| 0 <= at < tokens.len() ==> fits(tokens, at)
    &&& depth(tokens, tokens.len() as int) == 0
}

/// The token at position `at` may stand there inside a part of the
/// sequence before which `base` parentheses are open: it fits, and it
/// closes none of those.
pub open spec fn fits_above(tokens: Seq<TokenView>, at: int, base: int) -> bool {
    &&& depth(tokens, at) >= base
    &&& match tokens[at] {
        TokenView::LParen(_) => at > 0 && tokens[at - 1] is Identifier,
        TokenView::RParen(_) => depth(tokens, at) > base,
        _ => true,
    }
}

/// The tokens of a node fit where they stand, and leave as many
/// parentheses open as were open before them.
pub proof fn lemma_node_balanced(node: SyntaxNodeView, tokens: Seq<TokenView>, at: int)
    requires
        node_spells(node, tokens, at),
    ensures
        depth(tokens, at + node_width(node)) == depth(tokens, at),
        forall|p: int|
            at <= p < at + node_width(node) ==> #[trigger] fits_above(
                tokens,
                p,
                depth(tokens, at),
            ),
    decreases node,
{
    let base = depth(tokens, at);
    assert(depth(tokens, at + 1) == base);
    match node {
        SyntaxNodeView::Ref(_) => {},
        SyntaxNodeView::Call(call) => {
            let close = at + 2 + nodes_width(call.args);
            lemma_nodes_balanced(call.args, tokens, at + 2);
            assert forall|p: int| at <= p < at + node_width(node) implies #[trigger] fits_above(
                tokens,
                p,
                base,
            ) by {
                if at + 2 <= p < close {
                    assert(fits_above(tokens, p, base + 1));
                }
            }
        },
    }
}

/// The tokens of a sequence of nodes fit where they stand, and leave as
/// many parentheses open as were open before them.
pub proof fn lemma_nodes_balanced(nodes: Seq<SyntaxNodeView>, tokens: Seq<TokenView>, at: int)
    requires
        nodes_spell(nodes, tokens, at),
    ensures
        depth(tokens, at + nodes_width(nodes)) == depth(tokens, at),
        forall|p: int|
            at <= p < at + nodes_width(nodes) ==> #[trigger] fits_above(
                tokens,
                p,
                depth(tokens, at),
            ),
    decreases nodes,
{
    if nodes.len() == 0 {
    } else {
        let init = nodes.drop_last();
        let mid = at + nodes_width(init);
        lemma_nodes_balanced(init, tokens, at);
        lemma_node_balanced(nodes.last(), tokens, mid);
    }
}

/// A token sequence that has a syntax tree is well formed. With what
/// [`build_syntax`] ensures, the well-formed token sequences are those that
/// have a syntax tree.
pub proof fn lemma_syntax_is_well_formed(nodes: Seq<SyntaxNodeView>, tokens: Seq<TokenView>)
    requires
        is_syntax_of(nodes, tokens),
    ensures
        well_formed(tokens),
{
    lemma_nodes_balanced(nodes, tokens, 0);
    assert forall|at: int| 0 <= at < tokens.len() implies fits(tokens, at) by {
        assert(fits_above(tokens, at, 0));
    }
}

/// A set of token kinds, with the end of the input as one more.
#[derive(Clone, Copy, Debug, PartialEq, Eq, Structural)]
pub struct KindSet {
    pub identifier: bool,
    pub literal_ref: bool,
    pub l_paren: bool,
    pub r_paren: bool,
    pub end_of_input: bool,
}

/// What may stand at position `at` after the tokens before it.
pub open spec fn expected_at(tokens: Seq<TokenView>, at: int) -> KindSet {
    KindSet {
        identifier: true,
        literal_ref: true,
        l_paren: at > 0 && tokens[at - 1] is Identifier,
        r_paren: depth(tokens, at) > 0,
        end_of_input: depth(tokens, at) == 0,
    }
}

/// Why a token sequence is not a query.
#[derive(Clone, Copy, Debug, PartialEq, Eq)]
pub struct SyntaxError {
    /// The position, in the token sequence, of the token that may not stand
    /// where it does; the length of the sequence where the input ends too
    /// early.
    pub at: usize,
    /// The kind of that token; `None` for the end of the input.
    pub found: Option<TokenKind>,
    /// The span of that token; at the end of the input, the empty span
    /// behind the last token.
    pub span: Span,
    /// The kinds that would have been accepted there.
    pub expected: KindSet,
}

/// The error `e` is the one that the token sequence gives: it names the
/// first position that does not fit.
pub open spec fn is_syntax_error(tokens: Seq<TokenView>, e: SyntaxError) -> bool {
    &&& e.at <= tokens.len()
    &&& forall|at: int| 0 <= at < e.at ==> fits(tokens, at)
    &&& e.expected == expected_at(tokens, e.at as int)
    &&& if e.at < tokens.len() {
        &&& !fits(tokens, e.at as int)
        &&& e.found == Some(tokens[e.at as int].kind())
        &&& e.span == tokens[e.at as int].span()
    } else {
        &&& depth(tokens, tokens.len() as int) > 0
        &&& e.found is None
        &&& e.span == Span {
            start: tokens[tokens.len() - 1].span().end,
            end: tokens[tokens.len() - 1].span().end,
        }
    }
}

/// A token sequence gives at most one error.
pub proof fn lemma_syntax_error_unique(tokens: Seq<TokenView>, a: SyntaxError, b: SyntaxError)
    requires
        is_syntax_error(tokens, a),
        is_syntax_error(tokens, b),
    ensures
        a == b,
{
}

/// A call whose closing parenthesis has not been read yet.
struct Frame {
    identifier: Ident,
    /// The nodes read before the call, on the level that the call stands on.
    outer: Vec<SyntaxNode>,
}

/// Where the nodes on level `level` begin, given where each open call
/// begins.
spec fn level_start(opens: Seq<int>, level: int) -> int {
    if level == 0 {
        0
    } else {
        opens[level - 1] + 2
    }
}

spec fn frame_ok(frame: Frame, opens: Seq<int>, level: int, tokens: Seq<TokenView>) -> bool {
    let start = level_start(opens, level);
    &&& nodes_spell(node_views(frame.outer@), tokens, start)
    &&& start + nodes_width(node_views(frame.outer@)) == opens[level]
    &&& 0 <= opens[level]
    &&& opens[level] + 1 < tokens.len()
    &&& tokens[opens[level]] == TokenView::Identifier(frame.identifier@)
    &&& tokens[opens[level] + 1] is LParen
}

/// A node that the tokens say right behind those of `nodes` extends them.
proof fn lemma_push_node(
    nodes: Seq<SyntaxNode>,
    node: SyntaxNode,
    tokens: Seq<TokenView>,
    at: int,
)
    requires
        nodes_spell(node_views(nodes), tokens, at),
        node_spells(node@, tokens, at + nodes_width(node_views(nodes))),
    ensures
        nodes_spell(node_views(nodes.push(node)), tokens, at),
        nodes_width(node_views(nodes.push(node))) == nodes_width(node_views(nodes)) + node_width(
            node@,
        ),
{
    let pushed = node_views(nodes.push(node));
    assert(nodes.push(node).drop_last() =~= nodes);
    assert(pushed.drop_last() =~= node_views(nodes));
}

impl Clone for Call {
    /// A copy of the call, arguments included.
    fn clone(&self) -> (copy: Call)
        ensures
            copy@ == self@,
        decreases self,
    {
        let mut args: Vec<SyntaxNode> = Vec::new();
        let mut i: usize = 0;
        while i < self.args.len()
            invariant
                i <= self.args.len(),
                node_views(args@) == node_views(self.args@.take(i as int)),
            decreases self.args.len() - i,
        {
            let arg = self.args[i].clone();
            proof {
                assert(self.args@.take(i + 1).drop_last() =~= self.args@.take(i as int));
                assert(args@.push(arg).drop_last() =~= args@);
            }
            args.push(arg);
            i += 1;
        }
        assert(self.args@.take(i as int) =~= self.args@);
        Call { identifier: self.identifier.clone(), args, span: self.span }
    }
}

impl Clone for SyntaxNode {
    /// A copy of the node and of all that stands under it.
    fn clone(&self) -> (copy: SyntaxNode)
        ensures
            copy@ == self@,
        decreases self,
    {
        match self {
            SyntaxNode::Ref(r) => SyntaxNode::Ref(r.clone()),
            SyntaxNode::Call(call) => SyntaxNode::Call(call.clone()),
        }
    }
}

/// Builds the syntax tree of a token sequence, or says which token may not
/// stand where it does.
pub fn build_syntax(tokens: &Vec<Token>) -> (res: Result<Vec<SyntaxNode>, SyntaxError>)
    ensures
        res is Ok <==> well_formed(token_views(tokens@)),
        res matches Ok(nodes) ==> is_syntax_of(node_views(nodes@), token_views(tokens@)),
        res matches Err(e) ==> is_syntax_error(token_views(tokens@), e),
{
    let ghost tv = token_views(tokens@);
    let n = tokens.len();
    let mut stack: Vec<Frame> = Vec::new();
    let mut current: Vec<SyntaxNode> = Vec::new();
    let ghost mut opens: Seq<int> = Seq::empty();
    let mut i: usize = 0;
    while i < n
        invariant
            n == tokens.len(),
            tv == token_views(tokens@),
            i <= n,
            opens.len() == stack.len(),
            stack.len() == depth(tv, i as int),
            forall|k: int| 0 <= k < stack.len() ==> frame_ok(#[trigger] stack[k], opens, k, tv),
            nodes_spell(node_views(current@), tv, level_start(opens, stack.len() as int)),
            level_start(opens, stack.len() as int) + nodes_width(node_views(current@)) == i,
            forall|at: int| 0 <= at < i ==> fits(tv, at),
            i < n && tv[i as int] is LParen ==> i == 0 || !(tv[i - 1] is Identifier),
        decreases n - i,
    {
        match &tokens[i] {
            Token::Identifier(ident) => {
                if i + 1 < n && tokens[i + 1].kind() == TokenKind::LParen {
                    let outer = current;
                    current = Vec::new();
                    stack.push(Frame { identifier: ident.clone(), outer });
                    proof {
                        opens = opens.push(i as int);
                        assert(depth(tv, i + 2) == depth(tv, i + 1) + 1);
                    }
                    i += 2;
                } else {
                    let node = SyntaxNode::Ref(Ref::from(ident.clone()));
                    proof {
                        lemma_push_node(current@, node, tv, level_start(opens, stack.len() as int));
                    }
                    current.push(node);
                    i += 1;
                }
            },
            Token::LiteralRef(r) => {
                let node = SyntaxNode::Ref(r.clone());
                proof {
                    lemma_push_node(current@, node, tv, level_start(opens, stack.len() as int));
                }
                current.push(node);
                i += 1;
            },
            Token::RParen(span) => {
                match stack.pop() {
                    None => {
                        assert(!fits(tv, i as int));
                        return Err(
                            SyntaxError {
                                at: i,
                                found: Some(TokenKind::RParen),
                                span: *span,
                                expected: KindSet {
                                    identifier: true,
                                    literal_ref: true,
                                    l_paren: i > 0 && tokens[i - 1].kind() == TokenKind::Identifier,
                                    r_paren: false,
                                    end_of_input: true,
                                },
                            },
                        );
                    },
                    Some(frame) => {
                        let ghost level = stack.len() as int;
                        let Frame { identifier, outer } = frame;
                        let args = current;
                        let call_span = Span { start: identifier.span.start, end: span.end };
                        let node = SyntaxNode::Call(Call { identifier, args, span: call_span });
                        current = outer;
                        proof {
                            lemma_push_node(current@, node, tv, level_start(opens, level));
                            opens = opens.drop_last();
                        }
                        current.push(node);
                        i += 1;
                    },
                }
            },
            Token::LParen(span) => {
                assert(!fits(tv, i as int));
                return Err(
                    SyntaxError {
                        at: i,
                        found: Some(TokenKind::LParen),
                        span: *span,
                        expected: KindSet {
                            identifier: true,
                            literal_ref: true,
                            l_paren: false,
                            r_paren: stack.len() > 0,
                            end_of_input: stack.len() == 0,
                        },
                    },
                );
            },
        }
    }
    if stack.len() > 0 {
        let end = tokens[n - 1].span().end;
        return Err(
            SyntaxError {
                at: n,
                found: None,
                span: Span { start: end, end },
                expected: KindSet {
                    identifier: true,
                    literal_ref: true,
                    l_paren: tokens[n - 1].kind() == TokenKind::Identifier,
                    r_paren: true,
                    end_of_input: false,
                },
            },
        );
    }
    Ok(current)
}

} // verus!
