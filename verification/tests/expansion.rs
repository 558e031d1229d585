use git_ref_select::expand::settle;
use git_ref_select::git::Git;
use git_ref_select::{GitQueryIter, ParsingContext, Query};
use std::cell::Cell;

/// A provider that hands out canned listings and counts how often it is
/// asked.
struct Canned {
    listing: Result<Vec<Result<String, String>>, String>,
    asked: Cell<usize>,
}

impl Canned {
    fn names(names: &[&str]) -> Canned {
        Canned {
            listing: Ok(names.iter().map(|n| Ok(n.to_string())).collect()),
            asked: Cell::new(0),
        }
    }

    fn failing(why: &str) -> Canned {
        Canned { listing: Err(why.to_string()), asked: Cell::new(0) }
    }
}

impl Git for Canned {
    type QueryInitError = String;
    type QueryResultIterError = String;

    fn locals(&self) -> Result<Vec<Result<String, String>>, String> {
        self.asked.set(self.asked.get() + 1);
        self.listing.clone()
    }
}

fn drain<G: Git>(mut iter: GitQueryIter<G>) -> Vec<Result<String, G::QueryResultIterError>> {
    let mut out = Vec::new();
    while let Some(item) = iter.next() {
        out.push(item);
    }
    assert!(iter.next().is_none());
    out
}

fn expand(text: &str, git: &Canned) -> Result<Vec<Result<String, String>>, String> {
    let mut cx = ParsingContext::new();
    let query = Query::parse(text, &mut cx).unwrap();
    query.expand_refs(git).map(drain)
}

fn names(names: &[&str]) -> Vec<Result<String, String>> {
    names.iter().map(|n| Ok(n.to_string())).collect()
}

#[test]
fn literal_then_locals() {
    let git = Canned::names(&["dev", "feature/x"]);
    assert_eq!(expand("\"main\" locals()", &git), Ok(names(&["main", "dev", "feature/x"])));
    assert_eq!(git.asked.get(), 1);
}

#[test]
fn failing_provider_fails_the_whole_expansion() {
    let git = Canned::failing("exit code 128");
    assert_eq!(expand("\"main\" locals() dev ", &git), Err("exit code 128".to_string()));
}

#[test]
fn failing_provider_is_asked_no_second_time() {
    let git = Canned::failing("exit code 128");
    assert_eq!(expand("locals() locals() locals()", &git), Err("exit code 128".to_string()));
    assert_eq!(git.asked.get(), 1);
}

#[test]
fn literals_alone_ask_no_provider() {
    let git = Canned::failing("never asked");
    assert_eq!(expand("a b/c \"d\"", &git), Ok(names(&["a", "b/c", "d"])));
    assert_eq!(git.asked.get(), 0);
}

#[test]
fn empty_query_expands_to_nothing() {
    let git = Canned::names(&["dev"]);
    assert_eq!(expand("", &git), Ok(vec![]));
    assert_eq!(git.asked.get(), 0);
}

#[test]
fn nodes_contribute_in_their_order() {
    let git = Canned::names(&["dev", "feature/x"]);
    assert_eq!(
        expand("a locals() b locals() c ", &git),
        Ok(names(&["a", "dev", "feature/x", "b", "dev", "feature/x", "c"]))
    );
    assert_eq!(git.asked.get(), 2);
}

#[test]
fn locals_before_a_literal_comes_first() {
    let git = Canned::names(&["dev"]);
    assert_eq!(expand("locals() main ", &git), Ok(names(&["dev", "main"])));
}

#[test]
fn empty_listing_contributes_nothing() {
    let git = Canned::names(&[]);
    assert_eq!(expand("a locals() b ", &git), Ok(names(&["a", "b"])));
}

#[test]
fn provider_is_asked_before_anything_is_handed_out() {
    let git = Canned::names(&["dev"]);
    let mut cx = ParsingContext::new();
    let query = Query::parse("a locals() locals()", &mut cx).unwrap();
    let iter = query.expand_refs(&git).unwrap();
    assert_eq!(git.asked.get(), 2);
    assert_eq!(drain(iter), names(&["a", "dev", "dev"]));
    assert_eq!(git.asked.get(), 2);
}

#[test]
fn item_errors_are_handed_out_in_their_place() {
    let git = Canned {
        listing: Ok(vec![Ok("dev".to_string()), Err("not text".to_string()), Ok("x".to_string())]),
        asked: Cell::new(0),
    };
    assert_eq!(
        expand("main locals()", &git),
        Ok(vec![
            Ok("main".to_string()),
            Ok("dev".to_string()),
            Err("not text".to_string()),
            Ok("x".to_string()),
        ])
    );
}

#[test]
fn iterator_from_listings_given_by_hand() {
    let mut cx = ParsingContext::new();
    let query = Query::parse("locals() mid locals()", &mut cx).unwrap();
    let listings: Vec<Vec<Result<String, String>>> = vec![names(&["a", "b"]), names(&["c"])];
    let iter = GitQueryIter::<Canned>::new(query, listings).unwrap();
    assert_eq!(drain(iter), names(&["a", "b", "mid", "c"]));
}

#[test]
fn iterator_wants_one_listing_for_each_locals_node() {
    let mut cx = ParsingContext::new();
    let query = Query::parse("locals() mid locals()", &mut cx).unwrap();
    assert_eq!(query.listing_count(), 2);
    assert!(GitQueryIter::<Canned>::new(query, vec![names(&["a"])]).is_none());
    assert!(GitQueryIter::<Canned>::new(query, vec![vec![], vec![], vec![]]).is_none());
    assert!(GitQueryIter::<Canned>::new(query, vec![vec![], vec![]]).is_some());
}

#[test]
fn answers_without_a_failure_are_the_listings() {
    let answers: Vec<Result<Vec<u8>, String>> = vec![Ok(vec![1, 2]), Ok(vec![]), Ok(vec![3])];
    assert_eq!(settle(answers), Ok(vec![vec![1, 2], vec![], vec![3]]));
    assert_eq!(settle(Vec::<Result<u8, u8>>::new()), Ok(vec![]));
}

#[test]
fn first_failure_among_the_answers_is_the_error() {
    let answers: Vec<Result<u8, &str>> = vec![Ok(1), Err("first"), Ok(2), Err("second")];
    assert_eq!(settle(answers), Err("first"));
    assert_eq!(settle(vec![Err::<u8, &str>("only")]), Err("only"));
    assert_eq!(settle(vec![Ok(1), Ok(2), Err("last")]), Err("last"));
}
