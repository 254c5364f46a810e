//! Searches for what happened lately.
use vstd::prelude::*;

use crate::query::ast::{QueryView, RangeView, ScalarView};
use crate::query::grammar::query_tree;
use crate::query::meaning::{compile_keeps_meaning, meets, restrict_keeps_meaning, satisfies};
use crate::query::parse::{restricted_at, search_at, QueryError};
use crate::query::reltime::recent;
use crate::web::search::start_of;

verus! {

/// The bound of the time clause lies as many minutes before now as are asked for, and there
/// is one where they do not reach back beyond the epoch.
pub proof fn time_clause_reaches_back(now: u128, minutes: u32)
    ensures
        minutes * 60_000_000 > now ==> recent(now, minutes) is None,
        minutes * 60_000_000 <= now ==> (recent(now, minutes) matches Some(
            QueryView::Range { field, bounds },
        ) && field == "source_timestamp"@ && bounds.gt is None && bounds.lte is None
            && bounds.lt is None && (bounds.gte matches Some(ScalarView::Micros(b)) && b + minutes
            * 60_000_000 == now)),
{
}

/// The query for what happened from a point in time on, and nothing else.
pub open spec fn from_on(b: u128) -> QueryView {
    QueryView::Range {
        field: "source_timestamp"@,
        bounds: RangeView { gte: Some(ScalarView::Micros(b)), gt: None, lte: None, lt: None },
    }
}

/// A way to tell which queries without clauses a document of the time `t` meets: those for
/// what happened from some point on it meets where that point is not later.
pub open spec fn dated(leaf: spec_fn(QueryView) -> bool, t: int) -> bool {
    forall|b: u128| #[trigger] leaf(from_on(b)) <==> t >= b
}

/// A search for the last minutes finds exactly what the text asks for and what happened no
/// longer ago than that; a search for no minutes finds all that the text asks for.
pub proof fn search_finds_the_last_minutes(
    leaf: spec_fn(QueryView) -> bool,
    t: int,
    s: Seq<char>,
    minutes: u32,
    now: u128,
)
    requires
        dated(leaf, t),
        minutes * 60_000_000 <= now,
    ensures
        query_tree(s) matches Some(tree) ==> {
            &&& search_at(s, None, now) matches Ok(q) && (meets(leaf, q) <==> satisfies(leaf, tree))
            &&& search_at(s, Some(0), now) matches Ok(q) && (meets(leaf, q) <==> satisfies(
                leaf,
                tree,
            ))
            &&& minutes > 0 ==> (search_at(s, Some(minutes), now) matches Ok(q) && (meets(leaf, q)
                <==> satisfies(leaf, tree) && t + minutes * 60_000_000 >= now))
        },
        query_tree(s) is None ==> search_at(s, Some(minutes), now) == Err::<QueryView, QueryError>(
            QueryError::Unreadable,
        ),
{
    match query_tree(s) {
        Some(tree) => {
            compile_keeps_meaning(leaf, tree, None);
            compile_keeps_meaning(leaf, tree, recent(now, minutes));
            let b = (now - minutes * 60_000_000) as u128;
            assert(leaf(from_on(b)) <==> t >= b);
        },
        None => {},
    }
}

/// Minutes that reach back beyond the epoch make no search.
pub proof fn search_does_not_reach_beyond_the_epoch(s: Seq<char>, minutes: u32, now: u128)
    requires
        minutes * 60_000_000 > now,
    ensures
        query_tree(s) is Some ==> search_at(s, Some(minutes), now) == Err::<QueryView, QueryError>(
            QueryError::Clock,
        ),
{
}

/// A query that is restricted to the last minutes finds exactly what it found before and
/// what happened no longer ago than that; a negative number of minutes restricts nothing.
pub proof fn restriction_finds_the_last_minutes(
    leaf: spec_fn(QueryView) -> bool,
    t: int,
    q: QueryView,
    minutes: i32,
    now: u128,
)
    requires
        dated(leaf, t),
    ensures
        minutes < 0 ==> restricted_at(q, minutes, now) == Some(q),
        0 <= minutes && minutes * 60_000_000 <= now ==> (restricted_at(
            q,
            minutes,
            now,
        ) matches Some(r) && (meets(leaf, r) <==> meets(leaf, q) && t + minutes * 60_000_000
            >= now)),
        0 <= minutes && minutes * 60_000_000 > now ==> restricted_at(q, minutes, now) is None,
{
    if 0 <= minutes && minutes * 60_000_000 <= now {
        let b = (now - minutes * 60_000_000) as u128;
        assert(leaf(from_on(b)) <==> t >= b);
        let time = recent(now, minutes as u32)->0;
        restrict_keeps_meaning(leaf, q, time);
    }
}

/// A search of the page looks back as many minutes as are asked for, and at all times where
/// none are or they reach back beyond the epoch.
pub proof fn page_search_reaches_back(minutes: u32, now: u64)
    ensures
        minutes > 0 && minutes * 60 <= now ==> (start_of(minutes, now) matches Some(start) && start
            + minutes * 60 == now),
        minutes == 0 || minutes * 60 > now ==> start_of(minutes, now) is None,
{
}

} // verus!
