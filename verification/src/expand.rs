//! The expansion of a query into the names it selects.

use vstd::prelude::*;
use crate::git::{Git, RefResult};
use crate::query::{Query, QueryNode, QueryNodeView};

verus! {

/// An item of an expansion as a contract sees it: a name by its characters.
pub type ItemView<E> = Result<Seq<char>, E>;

/// The view of one item.
pub open spec fn item_view<E>(item: RefResult<E>) -> ItemView<E> {
    match item {
        Ok(name) => Ok(name@),
        Err(e) => Err(e),
    }
}

/// The views of a sequence of items.
pub open spec fn item_views<E>(items: Seq<RefResult<E>>) -> Seq<ItemView<E>> {
    Seq::new(items.len(), |i: int| item_view(items[i]))
}

/// The views of a sequence of listings.
pub open spec fn listing_views<E>(listings: Seq<Vec<RefResult<E>>>) -> Seq<Seq<ItemView<E>>> {
    Seq::new(listings.len(), |i: int| item_views(listings[i]@))
}

/// How many of the nodes ask the provider for a listing.
pub open spec fn listing_count(nodes: Seq<QueryNodeView>) -> nat
    decreases nodes.len(),
{
    if nodes.len() == 0 {
        0
    } else {
        listing_count(nodes.drop_last()) + if nodes.last() is Locals {
            1nat
        } else {
            0nat
        }
    }
}

/// What a query expands to, given the listings that the provider returned
/// for its `locals()` nodes, one for each and in their order: each node
/// contributes in its turn, a reference its own name and a `locals()` node
/// its listing.
pub open spec fn expansion<E>(nodes: Seq<QueryNodeView>, listings: Seq<Seq<ItemView<E>>>) -> Seq<
    ItemView<E>,
>
    decreases nodes.len(),
{
    if nodes.len() == 0 {
        Seq::empty()
    } else {
        match nodes.first() {
            QueryNodeView::Ref(r) => seq![Ok(r.value)] + expansion(nodes.drop_first(), listings),
            QueryNodeView::Locals { .. } => listings.first() + expansion(
                nodes.drop_first(),
                listings.drop_first(),
            ),
        }
    }
}

/// What is left of the listings `pending`, of which the last is the next
/// to be emitted.
pub open spec fn pending_items<E>(pending: Seq<Vec<RefResult<E>>>) -> Seq<ItemView<E>>
    decreases pending.len(),
{
    if pending.len() == 0 {
        Seq::empty()
    } else {
        item_views(pending.last()@) + pending_items(pending.drop_last())
    }
}

/// The names that a query selects, handed out one at a time.
pub struct GitQueryIter<G: Git> {
    /// What is left of the listing that is being emitted, the next item
    /// last.
    refs: Vec<RefResult<G::QueryResultIterError>>,
    /// The listings that are still to be emitted, the next one last.
    queries: Vec<Vec<RefResult<G::QueryResultIterError>>>,
}

/// The items of `items` in the opposite order.
fn reversed<T>(items: Vec<T>) -> (out: Vec<T>)
    ensures
        out@ == items@.reverse(),
{
    let mut items = items;
    let mut out: Vec<T> = Vec::new();
    let ghost all = items@;
    while items.len() > 0
        invariant
            items@ == all.take(items.len() as int),
            out.len() + items.len() == all.len(),
            forall|i: int| 0 <= i < out.len() ==> out[i] == all[all.len() - 1 - i],
        decreases items.len(),
    {
        let last = items.pop().unwrap();
        out.push(last);
    }
    out
}

impl<G: Git> GitQueryIter<G> {
    /// What is still to come, in the order in which `next` hands it out.
    pub closed spec fn remaining(&self) -> Seq<ItemView<G::QueryResultIterError>> {
        item_views(self.refs@.reverse()) + pending_items(self.queries@)
    }

    /// The expansion of `query`, given the listings that the provider
    /// returned for its `locals()` nodes, one for each and in their order;
    /// `None` where the listings are more or fewer than those nodes.
    pub fn new(query: &Query, listings: Vec<Vec<RefResult<G::QueryResultIterError>>>) -> (res:
        Option<GitQueryIter<G>>)
        ensures
            res is Some <==> listings.len() == listing_count(query@),
            res matches Some(iter) ==> iter.remaining() == expansion(
                query@,
                listing_views(listings@),
            ),
    {
        if listings.len() == query.listing_count() {
            Some(GitQueryIter::assemble(query, listings))
        } else {
            None
        }
    }

    /// Lays the listings and the references of the query out for `next`,
    /// the last node's contribution first and the first node's last.
    fn assemble(query: &Query, listings: Vec<Vec<RefResult<G::QueryResultIterError>>>) -> (iter:
        GitQueryIter<G>)
        requires
            listings.len() == listing_count(query@),
        ensures
            iter.remaining() == expansion(query@, listing_views(listings@)),
    {
        let mut listings = listings;
        let ghost all = listing_views(listings@);
        let mut queries: Vec<Vec<RefResult<G::QueryResultIterError>>> = Vec::new();
        let mut i: usize = query.nodes.len();
        assert(query@.take(i as int) =~= query@);
        assert(all.take(listings.len() as int) =~= all);
        while i > 0
            invariant
                i <= query.nodes.len(),
                listings.len() <= all.len(),
                listings.len() == listing_count(query@.take(i as int)),
                listing_views(listings@) == all.take(listings.len() as int),
                pending_items(queries@) == expansion(
                    query@.skip(i as int),
                    all.skip(listings.len() as int),
                ),
            decreases i,
        {
            i -= 1;
            let ghost rest = query@.skip(i + 1);
            let ghost left = all.skip(listings.len() as int);
            let ghost before = queries@;
            let ghost held = listings@;
            proof {
                assert(query@.take(i + 1).drop_last() =~= query@.take(i as int));
                assert(query@.skip(i as int).drop_first() =~= rest);
            }
            match &query.nodes[i] {
                QueryNode::Ref(r) => {
                    let mut listing: Vec<RefResult<G::QueryResultIterError>> = Vec::new();
                    listing.push(Ok(r.value.clone()));
                    queries.push(listing);
                },
                QueryNode::Locals { .. } => {
                    let listing = listings.pop().unwrap();
                    queries.push(listing);
                    proof {
                        let m = listings.len() as int;
                        assert(all.skip(m).first() == item_views(listing@)) by {
                            assert(listing_views(held)[m] == item_views(held[m]@));
                        }
                        assert(all.skip(m).drop_first() =~= left);
                    }
                },
            }
            proof {
                assert(queries@.drop_last() =~= before);
            }
        }
        let iter = GitQueryIter { refs: Vec::new(), queries };
        iter
    }

    /// Hands out the next name, or `None` once all have been handed out.
    pub fn next(&mut self) -> (item: Option<RefResult<G::QueryResultIterError>>)
        ensures
            old(self).remaining().len() == 0 ==> item is None && final(self).remaining() == old(
                self,
            ).remaining(),
            old(self).remaining().len() > 0 ==> {
                &&& item matches Some(x)
                &&& item_view(x) == old(self).remaining().first()
                &&& final(self).remaining() == old(self).remaining().drop_first()
            },
    {
        loop
            invariant
                self.remaining() == old(self).remaining(),
            decreases self.queries.len(),
        {
            let ghost refs = self.refs@;
            let ghost queries = self.queries@;
            if let Some(item) = self.refs.pop() {
                return Some(item);
            }
            match self.queries.pop() {
                Some(listing) => {
                    self.refs = reversed(listing);
                },
                None => {
                    return None;
                },
            }
        }
    }
}

/// What the provider answers where it is asked for a listing.
pub type Answer<G> = Result<
    Vec<RefResult<<G as Git>::QueryResultIterError>>,
    <G as Git>::QueryInitError,
>;

/// The answer at `at` is a failure, and no answer before it is one.
pub open spec fn is_first_failure<T, E>(answers: Seq<Result<T, E>>, at: int, e: E) -> bool {
    &&& 0 <= at < answers.len()
    &&& answers[at] == Err::<T, E>(e)
    &&& forall|k: int| 0 <= k < at ==> (#[trigger] answers[k]) is Ok
}

/// Settles what the provider answered: the listings, if every answer is
/// one; else the error of the first answer that is a failure, whatever the
/// other answers are.
pub fn settle<T, E>(answers: Vec<Result<T, E>>) -> (res: Result<Vec<T>, E>)
    ensures
        res matches Ok(listings) ==> {
            &&& listings.len() == answers.len()
            &&& forall|k: int|
                0 <= k < answers.len() ==> (#[trigger] answers[k]) == Ok::<T, E>(listings[k])
        },
        res matches Err(e) ==> exists|at: int| is_first_failure(answers@, at, e),
{
    let mut answers = answers;
    let ghost all = answers@;
    let mut state: Result<Vec<T>, E> = Ok(Vec::new());
    let ghost mut failed_at: int = all.len() as int;
    while answers.len() > 0
        invariant
            answers@ == all.take(answers.len() as int),
            answers.len() <= all.len(),
            state matches Ok(found) ==> {
                &&& found.len() + answers.len() == all.len()
                &&& forall|k: int|
                    0 <= k < found.len() ==> (#[trigger] all[all.len() - 1 - k]) == Ok::<T, E>(
                        found[k],
                    )
            },
            state matches Err(e) ==> {
                &&& answers.len() <= failed_at < all.len()
                &&& all[failed_at] == Err::<T, E>(e)
                &&& forall|k: int| answers.len() <= k < failed_at ==> (#[trigger] all[k]) is Ok
            },
        decreases answers.len(),
    {
        let answer = answers.pop().unwrap();
        match answer {
            Err(e) => {
                state = Err(e);
                proof {
                    failed_at = answers.len() as int;
                }
            },
            Ok(listing) => {
                match state {
                    Ok(found) => {
                        let mut found = found;
                        found.push(listing);
                        state = Ok(found);
                    },
                    Err(e) => {
                        state = Err(e);
                    },
                }
            },
        }
    }
    match state {
        Ok(found) => {
            let listings = reversed(found);
            assert forall|k: int| 0 <= k < all.len() implies (#[trigger] all[k]) == Ok::<T, E>(
                listings[k],
            ) by {
                assert(all[all.len() - 1 - (all.len() - 1 - k)] == Ok::<T, E>(
                    found[all.len() - 1 - k],
                ));
            }
            Ok(listings)
        },
        Err(e) => {
            assert(is_first_failure(all, failed_at, e));
            Err(e)
        },
    }
}

/// Asks the provider for one listing for each `locals()` node of the query,
/// in the order of the nodes, and asks no more once an answer is a failure.
fn ask<G: Git>(query: &Query, git: &G) -> (answers: Vec<Answer<G>>)
    ensures
        answers.len() <= listing_count(query@),
        answers.len() < listing_count(query@) ==> answers.len() > 0 && answers@.last() is Err,
{
    let mut answers: Vec<Answer<G>> = Vec::new();
    let mut i: usize = 0;
    while i < query.nodes.len()
        invariant
            i <= query.nodes.len(),
            answers.len() == listing_count(query@.take(i as int)),
        decreases query.nodes.len() - i,
    {
        proof {
            assert(query@.take(i + 1).drop_last() =~= query@.take(i as int));
            lemma_listing_count_grows(query@, i + 1);
        }
        match &query.nodes[i] {
            QueryNode::Ref(_) => {
            },
            QueryNode::Locals { .. } => {
                let answer = git.locals();
                let failed = answer.is_err();
                answers.push(answer);
                if failed {
                    return answers;
                }
            },
        }
        i += 1;
    }
    assert(query@.take(i as int) =~= query@);
    answers
}

/// A longer part of a query holds at least as many `locals()` nodes.
pub proof fn lemma_listing_count_grows(nodes: Seq<QueryNodeView>, upto: int)
    requires
        0 <= upto <= nodes.len(),
    ensures
        listing_count(nodes.take(upto)) <= listing_count(nodes),
    decreases nodes.len() - upto,
{
    if upto < nodes.len() {
        lemma_listing_count_grows(nodes, upto + 1);
        assert(nodes.take(upto + 1).drop_last() =~= nodes.take(upto));
    } else {
        assert(nodes.take(upto) =~= nodes);
    }
}

impl Query {
    /// How many of the query's nodes ask the provider for a listing.
    pub fn listing_count(&self) -> (count: usize)
        ensures
            count == listing_count(self@),
    {
        let mut count: usize = 0;
        let mut i: usize = 0;
        while i < self.nodes.len()
            invariant
                i <= self.nodes.len(),
                count <= i,
                count == listing_count(self@.take(i as int)),
            decreases self.nodes.len() - i,
        {
            proof {
                assert(self@.take(i + 1).drop_last() =~= self@.take(i as int));
            }
            match &self.nodes[i] {
                QueryNode::Ref(_) => {
                },
                QueryNode::Locals { .. } => {
                    count += 1;
                },
            }
            i += 1;
        }
        assert(self@.take(i as int) =~= self@);
        count
    }

    /// Expands the query against a provider.
    ///
    /// The provider is asked at once, before anything is handed out: one
    /// listing for each `locals()` node, in the order of the nodes. The
    /// first listing that fails ends the expansion with its error, whatever
    /// else the query holds. Otherwise the result hands out what the nodes
    /// contribute, node by node.
    pub fn expand_refs<G: Git>(&self, git: &G) -> (res: Result<GitQueryIter<G>, G::QueryInitError>)
        ensures
            listing_count(self@) == 0 ==> res is Ok,
            res matches Ok(iter) ==> exists|listings: Seq<Seq<ItemView<G::QueryResultIterError>>>|
                listings.len() == listing_count(self@) && iter.remaining() == #[trigger] expansion(
                    self@,
                    listings,
                ),
    {
        let answers = ask(self, git);
        match settle(answers) {
            Err(e) => Err(e),
            Ok(listings) => {
                let iter = GitQueryIter::assemble(self, listings);
                Ok(iter)
            },
        }
    }
}

} // verus!
