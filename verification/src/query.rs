//! The validated query, and the builder that checks a syntax tree against
//! the calls that the language knows.

use vstd::prelude::*;
use vstd::string::StringExecFns;
use crate::span::Span;
use crate::syntax::{lemma_node_views, node_views, Call, CallView, SyntaxNode, SyntaxNodeView};
use crate::token::{Ident, IdentView, Ref, RefView};

verus! {

/// One expression of a validated query.
#[derive(Debug, PartialEq, Eq)]
pub enum QueryNode {
    /// A reference, named as it stands.
    Ref(Ref),
    /// Every local reference: the call `locals()`. The span is that of the
    /// call's name.
    Locals { span: Span },
}

/// A query node as a contract sees it.
pub enum QueryNodeView {
    Ref(RefView),
    Locals { span: Span },
}

impl QueryNodeView {
    /// The part of the source that the node was read from: a reference's
    /// own span, and the span of the name of a call.
    pub open spec fn span(self) -> Span {
        match self {
            QueryNodeView::Ref(r) => r.span,
            QueryNodeView::Locals { span } => span,
        }
    }
}

impl View for QueryNode {
    type V = QueryNodeView;

    open spec fn view(&self) -> QueryNodeView {
        match *self {
            QueryNode::Ref(r) => QueryNodeView::Ref(r@),
            QueryNode::Locals { span } => QueryNodeView::Locals { span },
        }
    }
}

impl Clone for QueryNode {
    fn clone(&self) -> (copy: QueryNode)
        ensures
            copy == *self,
    {
        match self {
            QueryNode::Ref(r) => QueryNode::Ref(r.clone()),
            QueryNode::Locals { span } => QueryNode::Locals { span: *span },
        }
    }
}

/// A validated query: its expressions, in the order in which they were
/// written, which is the order in which they are expanded.
#[derive(Debug, PartialEq, Eq)]
pub struct Query {
    pub nodes: Vec<QueryNode>,
}

impl View for Query {
    type V = Seq<QueryNodeView>;

    open spec fn view(&self) -> Seq<QueryNodeView> {
        Seq::new(self.nodes@.len(), |i: int| self.nodes@[i]@)
    }
}

/// The calls that the language knows.
#[derive(Clone, Copy, Debug, PartialEq, Eq, Structural)]
pub enum Builtin {
    /// `locals()`: every local reference.
    Locals,
}

impl Builtin {
    /// The name that the call is written with.
    pub open spec fn name(self) -> Seq<char> {
        match self {
            Builtin::Locals => "locals"@,
        }
    }

    /// How many arguments the call takes.
    pub open spec fn arity(self) -> nat {
        match self {
            Builtin::Locals => 0,
        }
    }

    /// The call of that name, if the language knows one.
    pub open spec fn named(name: Seq<char>) -> Option<Builtin> {
        if name == Builtin::Locals.name() {
            Some(Builtin::Locals)
        } else {
            None
        }
    }

    /// The query node that a call of this kind becomes.
    pub open spec fn node(self, identifier: IdentView) -> QueryNodeView {
        match self {
            Builtin::Locals => QueryNodeView::Locals { span: identifier.span },
        }
    }

    /// Looks a call up by its name.
    pub fn lookup(name: &String) -> (found: Option<Builtin>)
        ensures
            found == Builtin::named(name@),
    {
        let locals = String::from_str("locals");
        if *name == locals {
            Some(Builtin::Locals)
        } else {
            None
        }
    }

    pub fn takes(self, count: usize) -> (b: bool)
        ensures
            b == (count == self.arity()),
    {
        match self {
            Builtin::Locals => count == 0,
        }
    }
}

/// Why a syntax tree is not a query.
#[derive(Debug, PartialEq, Eq)]
pub enum SemanticError {
    /// The call's name is known, but it was given the wrong number of
    /// arguments.
    IncorrectArgCount { call: Call },
    /// The language knows no call of that name.
    InvalidCall { identifier: Ident },
}

/// A semantic error as a contract sees it.
pub enum SemanticErrorView {
    IncorrectArgCount { call: CallView },
    InvalidCall { identifier: IdentView },
}

impl View for SemanticError {
    type V = SemanticErrorView;

    open spec fn view(&self) -> SemanticErrorView {
        match *self {
            SemanticError::IncorrectArgCount { call } => SemanticErrorView::IncorrectArgCount {
                call: call@,
            },
            SemanticError::InvalidCall { identifier } => SemanticErrorView::InvalidCall {
                identifier: identifier@,
            },
        }
    }
}

/// What one syntax node is in a query: a reference stays what it is, a call
/// of a known name with the right number of arguments becomes the node of
/// that call, and any other call is an error.
pub open spec fn validated(node: SyntaxNodeView) -> Result<QueryNodeView, SemanticErrorView> {
    match node {
        SyntaxNodeView::Ref(r) => Ok(QueryNodeView::Ref(r)),
        SyntaxNodeView::Call(call) => match Builtin::named(call.identifier.name) {
            None => Err(SemanticErrorView::InvalidCall { identifier: call.identifier }),
            Some(builtin) => if call.args.len() == builtin.arity() {
                Ok(builtin.node(call.identifier))
            } else {
                Err(SemanticErrorView::IncorrectArgCount { call })
            },
        },
    }
}

/// The nodes `query` are the syntax nodes `nodes`, each validated, in the
/// same order.
pub open spec fn is_query_of(query: Seq<QueryNodeView>, nodes: Seq<SyntaxNodeView>) -> bool {
    &&& query.len() == nodes.len()
    &&& forall|i: int| 0 <= i < nodes.len() ==> validated(#[trigger] nodes[i]) == Ok::<
        QueryNodeView,
        SemanticErrorView,
    >(query[i])
}

/// The error `e` is that of the first syntax node that is no query node.
pub open spec fn is_semantic_error(nodes: Seq<SyntaxNodeView>, e: SemanticErrorView) -> bool {
    exists|at: int|
        {
            &&& 0 <= at < nodes.len()
            &&& forall|i: int| 0 <= i < at ==> validated(#[trigger] nodes[i]) is Ok
            &&& #[trigger] validated(nodes[at]) == Err::<QueryNodeView, SemanticErrorView>(e)
        }
}

/// A syntax tree is at most one query.
pub proof fn lemma_query_unique(
    a: Seq<QueryNodeView>,
    b: Seq<QueryNodeView>,
    nodes: Seq<SyntaxNodeView>,
)
    requires
        is_query_of(a, nodes),
        is_query_of(b, nodes),
    ensures
        a == b,
{
    assert forall|i: int| 0 <= i < a.len() implies a[i] == b[i] by {
        assert(validated(nodes[i]) == Ok::<QueryNodeView, SemanticErrorView>(a[i]));
    }
}

/// A syntax tree gives at most one error.
pub proof fn lemma_semantic_error_unique(
    nodes: Seq<SyntaxNodeView>,
    a: SemanticErrorView,
    b: SemanticErrorView,
)
    requires
        is_semantic_error(nodes, a),
        is_semantic_error(nodes, b),
    ensures
        a == b,
{
}

/// A syntax tree with a node that is no query node is no query.
pub proof fn lemma_invalid_node_has_no_query(
    nodes: Seq<SyntaxNodeView>,
    at: int,
    query: Seq<QueryNodeView>,
)
    requires
        0 <= at < nodes.len(),
        validated(nodes[at]) is Err,
    ensures
        !is_query_of(query, nodes),
{
}

/// A syntax tree that gives an error is no query.
pub proof fn lemma_semantic_error_has_no_query(
    nodes: Seq<SyntaxNodeView>,
    e: SemanticErrorView,
    query: Seq<QueryNodeView>,
)
    requires
        is_semantic_error(nodes, e),
    ensures
        !is_query_of(query, nodes),
{
    let at = choose|at: int|
        {
            &&& 0 <= at < nodes.len()
            &&& forall|i: int| 0 <= i < at ==> validated(#[trigger] nodes[i]) is Ok
            &&& #[trigger] validated(nodes[at]) == Err::<QueryNodeView, SemanticErrorView>(e)
        };
    lemma_invalid_node_has_no_query(nodes, at, query);
}

/// A call of `locals` with one argument or more is refused for its number
/// of arguments.
pub proof fn lemma_locals_takes_no_arguments(call: CallView)
    requires
        call.identifier.name == "locals"@,
        call.args.len() > 0,
    ensures
        validated(SyntaxNodeView::Call(call)) == Err::<QueryNodeView, SemanticErrorView>(
            SemanticErrorView::IncorrectArgCount { call },
        ),
{
}

/// A call of any other name than `locals` is refused for its name.
pub proof fn lemma_unknown_call_is_invalid(call: CallView)
    requires
        call.identifier.name != "locals"@,
    ensures
        validated(SyntaxNodeView::Call(call)) == Err::<QueryNodeView, SemanticErrorView>(
            SemanticErrorView::InvalidCall { identifier: call.identifier },
        ),
{
}

/// Validates one syntax node.
pub fn validate(node: &SyntaxNode) -> (res: Result<QueryNode, SemanticError>)
    ensures
        res matches Ok(q) ==> validated(node@) == Ok::<QueryNodeView, SemanticErrorView>(q@),
        res matches Err(e) ==> validated(node@) == Err::<QueryNodeView, SemanticErrorView>(e@),
{
    match node {
        SyntaxNode::Ref(r) => Ok(QueryNode::Ref(r.clone())),
        SyntaxNode::Call(call) => {
            proof {
                lemma_node_views(call.args@);
            }
            match Builtin::lookup(&call.identifier.name) {
                None => Err(SemanticError::InvalidCall { identifier: call.identifier.clone() }),
                Some(builtin) => {
                    if builtin.takes(call.args.len()) {
                        match builtin {
                            Builtin::Locals => Ok(
                                QueryNode::Locals { span: call.identifier.span },
                            ),
                        }
                    } else {
                        Err(SemanticError::IncorrectArgCount { call: call.clone() })
                    }
                },
            }
        },
    }
}

impl Query {
    /// Validates a syntax tree, node by node and in order. The first node
    /// that is no query node gives the error.
    pub fn from_syntax(nodes: &Vec<SyntaxNode>) -> (res: Result<Query, SemanticError>)
        ensures
            res matches Ok(query) ==> is_query_of(query@, node_views(nodes@)),
            res matches Err(e) ==> is_semantic_error(node_views(nodes@), e@),
    {
        let ghost views = node_views(nodes@);
        proof {
            lemma_node_views(nodes@);
        }
        let mut out: Vec<QueryNode> = Vec::new();
        let mut i: usize = 0;
        while i < nodes.len()
            invariant
                i <= nodes.len(),
                views == node_views(nodes@),
                views.len() == nodes.len(),
                forall|k: int| 0 <= k < nodes.len() ==> (#[trigger] views[k]) == nodes[k]@,
                out.len() == i,
                forall|k: int|
                    0 <= k < i ==> validated(#[trigger] views[k]) == Ok::<
                        QueryNodeView,
                        SemanticErrorView,
                    >(out[k]@),
            decreases nodes.len() - i,
        {
            match validate(&nodes[i]) {
                Ok(node) => {
                    out.push(node);
                },
                Err(e) => {
                    assert(validated(views[i as int]) == Err::<QueryNodeView, SemanticErrorView>(
                        e@,
                    ));
                    return Err(e);
                },
            }
            i += 1;
        }
        Ok(Query { nodes: out })
    }
}

} // verus!
