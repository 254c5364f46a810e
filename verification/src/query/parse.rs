//! From the text of a search to a query.
use vstd::prelude::*;

use crate::clock::{clock_reads_micros, micros_now};
use crate::query::ast::{
    lemma_query_views_push, query_views, Query, QueryTree, QueryView, TreeView,
};
use crate::query::compile::{compile, compiled, opt_query};
use crate::query::grammar::{parse_tree, query_tree};
use crate::query::reltime::{recent, reltime_query_at};

verus! {

/// Why there is no query for a search.
#[derive(Clone, Copy, Debug, PartialEq, Eq)]
pub enum QueryError {
    /// The text is not of the query language.
    Unreadable,
    /// The clock stands before the epoch, or so near it that the time asked for
    /// reaches beyond it.
    Clock,
}

/// Whether a search is for recent messages only: it is when a number of minutes
/// is given, and not zero.
pub open spec fn is_timed(reltime: Option<u32>) -> bool {
    reltime matches Some(minutes) && minutes > 0
}

/// The query that a tree becomes for a search at the time `now`.
pub open spec fn query_at(t: TreeView, reltime: Option<u32>, now: u128) -> Option<QueryView> {
    if is_timed(reltime) {
        match recent(now, reltime->0) {
            Some(c) => Some(compiled(t, Some(c))),
            None => None,
        }
    } else {
        Some(compiled(t, None))
    }
}

/// Turns a tree into the query for a search at the time `now`. `None` where the
/// time asked for reaches back beyond the epoch.
pub fn q_tree_to_query_at(q_tree: QueryTree, reltime: Option<u32>, now: u128) -> (res: Option<
    Query,
>)
    ensures
        opt_query(res) == query_at(q_tree@, reltime, now),
{
    match reltime {
        Some(minutes) => if minutes > 0 {
            match reltime_query_at(now, minutes) {
                Some(c) => Some(compile(q_tree, Some(c))),
                None => None,
            }
        } else {
            Some(compile(q_tree, None))
        },
        None => Some(compile(q_tree, None)),
    }
}

/// The query that a tree becomes for a search where the clock reads `now`; `None` where
/// it stands before the epoch, or the time asked for reaches back beyond it.
pub open spec fn query_by_clock(t: TreeView, reltime: Option<u32>, now: Option<u128>) -> Option<
    QueryView,
> {
    match now {
        Some(n) => query_at(t, reltime, n),
        None => None,
    }
}

/// Turns a tree into the query for a search now. The clock is read where the search is
/// for recent messages only.
pub fn q_tree_to_query(q_tree: QueryTree, reltime: Option<u32>) -> (res: Option<Query>)
    ensures
        !is_timed(reltime) ==> opt_query(res) == Some(compiled(q_tree@, None)),
        is_timed(reltime) ==> exists|now: Option<u128>| #[trigger]
            clock_reads_micros(now) && opt_query(res) == query_by_clock(q_tree@, reltime, now),
{
    match reltime {
        Some(minutes) => if minutes > 0 {
            let now = micros_now();
            assert(clock_reads_micros(now));
            match now {
                Some(now) => q_tree_to_query_at(q_tree, reltime, now),
                None => None,
            }
        } else {
            q_tree_to_query_at(q_tree, reltime, 0)
        },
        None => q_tree_to_query_at(q_tree, reltime, 0),
    }
}

/// What a search for the text comes to at the time `now`.
pub open spec fn search_at(s: Seq<char>, reltime: Option<u32>, now: u128) -> Result<
    QueryView,
    QueryError,
> {
    match query_tree(s) {
        Some(t) => match query_at(t, reltime, now) {
            Some(q) => Ok(q),
            None => Err(QueryError::Clock),
        },
        None => Err(QueryError::Unreadable),
    }
}

/// What a search for the text comes to where the clock reads `now`.
pub open spec fn search_by_clock(s: Seq<char>, reltime: Option<u32>, now: Option<u128>) -> Result<
    QueryView,
    QueryError,
> {
    match query_tree(s) {
        Some(t) => match query_by_clock(t, reltime, now) {
            Some(q) => Ok(q),
            None => Err(QueryError::Clock),
        },
        None => Err(QueryError::Unreadable),
    }
}

/// Reads the text of a search at the time `now`.
pub fn parse_query_at(input: &str, reltime: Option<u32>, now: u128) -> (res: Result<
    Query,
    QueryError,
>)
    ensures
        match (res, search_at(input@, reltime, now)) {
            (Ok(q), Ok(v)) => q@ == v,
            (Err(e), Err(f)) => e == f,
            _ => false,
        },
{
    match parse_tree(input) {
        Ok(t) => match q_tree_to_query_at(t, reltime, now) {
            Some(q) => Ok(q),
            None => Err(QueryError::Clock),
        },
        Err(_) => Err(QueryError::Unreadable),
    }
}

/// Reads the text of a search now. What is left of the text is always empty. The clock is
/// read where the text is a query and the search is for recent messages only.
pub fn parse_query(input: &str, reltime: Option<u32>) -> (res: Result<(String, Query), QueryError>)
    ensures
        query_tree(input@) is None <==> (res matches Err(QueryError::Unreadable)),
        query_tree(input@) matches Some(t) ==> !is_timed(reltime) ==> (res matches Ok((rest, q))
            && q@ == compiled(t, None)),
        res matches Ok((rest, q)) ==> rest@.len() == 0,
        query_tree(input@) is Some && is_timed(reltime) ==> exists|now: Option<u128>| #[trigger]
            clock_reads_micros(now) && match (res, search_by_clock(input@, reltime, now)) {
                (Ok((rest, q)), Ok(v)) => q@ == v,
                (Err(e), Err(f)) => e == f,
                _ => false,
            },
{
    match parse_tree(input) {
        Ok(t) => match q_tree_to_query(t, reltime) {
            Some(q) => Ok((String::new(), q)),
            None => Err(QueryError::Clock),
        },
        Err(_) => Err(QueryError::Unreadable),
    }
}

/// A query restricted to what a time clause admits.
pub open spec fn restricted(q: QueryView, time: QueryView) -> QueryView {
    match q {
        QueryView::All => time,
        _ => QueryView::Bool {
            must: seq![time, q],
            must_not: seq![],
            should: seq![],
            minimum_should_match: None,
        },
    }
}

/// Restricts a query to what a time clause admits.
fn restrict(q: Query, time: Query) -> (res: Query)
    ensures
        res@ == restricted(q@, time@),
{
    match q {
        Query::All => time,
        q => {
            let mut must: Vec<Query> = Vec::new();
            proof {
                lemma_query_views_push(must@, time);
                lemma_query_views_push(must@.push(time), q);
                assert(query_views(must@.push(time).push(q)) =~= seq![time@, q@]);
            }
            must.push(time);
            must.push(q);
            Query::Bool {
                must,
                must_not: Vec::new(),
                should: Vec::new(),
                minimum_should_match: None,
            }
        },
    }
}

/// What the query for the last `reltime` minutes comes to at the time `now`; a
/// negative number of minutes sets no limit.
pub open spec fn restricted_at(q: QueryView, reltime: i32, now: u128) -> Option<QueryView> {
    if reltime < 0 {
        Some(q)
    } else {
        match recent(now, reltime as u32) {
            Some(time) => Some(restricted(q, time)),
            None => None,
        }
    }
}

/// Restricts a query to the last `reltime` minutes before `now`. `None` where
/// they reach back beyond the epoch.
pub fn add_reltime_to_query_at(q: Query, reltime: i32, now: u128) -> (res: Option<Query>)
    ensures
        opt_query(res) == restricted_at(q@, reltime, now),
{
    if reltime < 0 {
        return Some(q);
    }
    match reltime_query_at(now, reltime as u32) {
        Some(time) => Some(restrict(q, time)),
        None => None,
    }
}

/// What the query for the last `reltime` minutes comes to where the clock reads `now`.
pub open spec fn restricted_by_clock(q: QueryView, reltime: i32, now: Option<u128>) -> Option<
    QueryView,
> {
    match now {
        Some(n) => restricted_at(q, reltime, n),
        None => None,
    }
}

/// Restricts a query to the last `reltime` minutes. The clock is read where that sets a
/// limit.
pub fn add_reltime_to_query(q: Query, reltime: i32) -> (res: Option<Query>)
    ensures
        reltime < 0 ==> res == Some(q),
        reltime >= 0 ==> exists|now: Option<u128>| #[trigger]
            clock_reads_micros(now) && opt_query(res) == restricted_by_clock(q@, reltime, now),
{
    if reltime < 0 {
        return Some(q);
    }
    let now = micros_now();
    assert(clock_reads_micros(now));
    match now {
        Some(now) => add_reltime_to_query_at(q, reltime, now),
        None => None,
    }
}

/// The query for the documents that have a term in a field; for all of them where the
/// term is empty.
pub open spec fn term_or_all(field: Seq<char>, q: Seq<char>) -> QueryView {
    if q.len() == 0 {
        QueryView::All
    } else {
        QueryView::Exact { field, term: q }
    }
}

/// The query for the documents whose message has a term.
pub fn message_query(q: &str) -> (res: Query)
    ensures
        res@ == term_or_all("message"@, q@),
{
    if crate::text::chars_of(q).len() == 0 {
        Query::All
    } else {
        Query::Exact { field: "message".to_owned(), term: q.to_owned() }
    }
}

/// The query for the documents of a host.
pub fn host_query(q: &str) -> (res: Query)
    ensures
        res@ == (QueryView::Exact { field: "hostname"@, term: q@ }),
{
    Query::Exact { field: "hostname".to_owned(), term: q.to_owned() }
}

} // verus!
