//! Queries for what happened lately.
use vstd::prelude::*;

use crate::clock::{clock_reads_micros, micros_now};
use crate::query::ast::{Query, QueryView, RangeBounds, RangeView, Scalar, ScalarView};
use crate::query::compile::opt_query;

verus! {

/// The field that holds the time of a message.
pub open spec fn time_field() -> Seq<char> {
    "source_timestamp"@
}

/// The query for the messages since a point in time.
pub open spec fn since(micros: u128) -> QueryView {
    QueryView::Range {
        field: time_field(),
        bounds: RangeView {
            gte: Some(ScalarView::Micros(micros)),
            gt: None,
            lte: None,
            lt: None,
        },
    }
}

/// The query for the messages of the last `reltime` minutes before `now`, in
/// microseconds since the epoch. `None` where that reaches back beyond the epoch.
pub open spec fn recent(now: u128, reltime: u32) -> Option<QueryView> {
    if now >= reltime * 60_000_000 {
        Some(since((now - reltime * 60_000_000) as u128))
    } else {
        None
    }
}

/// The query for the messages of the last `reltime` minutes, where the clock reads `now`;
/// `None` where it stands before the epoch.
pub open spec fn recent_by_clock(now: Option<u128>, reltime: u32) -> Option<QueryView> {
    match now {
        Some(n) => recent(n, reltime),
        None => None,
    }
}

/// The query for the messages of the last `reltime` minutes before `now`.
pub fn reltime_query_at(now: u128, reltime: u32) -> (res: Option<Query>)
    ensures
        match (res, recent(now, reltime)) {
            (Some(q), Some(v)) => q@ == v,
            (None, None) => true,
            _ => false,
        },
{
    let span: u128 = reltime as u128 * 60_000_000;
    if now < span {
        return None;
    }
    Some(
        Query::Range {
            field: "source_timestamp".to_owned(),
            bounds: RangeBounds {
                gte: Some(Scalar::Micros(now - span)),
                gt: None,
                lte: None,
                lt: None,
            },
        },
    )
}

/// The query for the messages of the last `reltime` minutes. `None` where the
/// clock stands before the epoch or so near it that the minutes reach beyond it.
pub fn reltime_query(reltime: u32) -> (res: Option<Query>)
    ensures
        exists|now: Option<u128>| #[trigger]
            clock_reads_micros(now) && opt_query(res) == recent_by_clock(now, reltime),
{
    let now = micros_now();
    assert(clock_reads_micros(now));
    match now {
        Some(now) => reltime_query_at(now, reltime),
        None => None,
    }
}

} // verus!
