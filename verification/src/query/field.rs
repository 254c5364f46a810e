//! Queries for a single field: every term has a field name, and the bounds of a
//! range are texts.
use vstd::prelude::*;

use crate::query::ast::Query;
use crate::query::terms::{
    exact_reading, exact_term_q_at, field_dialect, fuzzy_query_reading, fuzzy_term_q_at,
    phrase_q_at, phrase_reading, query_of_text, range_of_kind_at, range_of_kind_reading,
    reads_query, regex_q_at, regex_query_reading, single_field, BoundKind, Unreadable,
};
use crate::text::chars_of;

verus! {

/// Reads a fuzzy term.
pub fn fuzzy_term_q(input: &str) -> (res: Result<(String, Query), Unreadable>)
    ensures
        reads_query(res, input@, fuzzy_query_reading(input@, 0, field_dialect())),
{
    let chars = chars_of(input);
    let read = fuzzy_term_q_at(&chars, 0, &single_field());
    query_of_text(&chars, read)
}

/// Reads an exact term.
pub fn exact_term_q(input: &str) -> (res: Result<(String, Query), Unreadable>)
    ensures
        reads_query(res, input@, exact_reading(input@, 0, field_dialect())),
{
    let chars = chars_of(input);
    let read = exact_term_q_at(&chars, 0, &single_field());
    query_of_text(&chars, read)
}

/// Reads a phrase.
pub fn phrase_q(input: &str) -> (res: Result<(String, Query), Unreadable>)
    ensures
        reads_query(res, input@, phrase_reading(input@, 0, field_dialect())),
{
    let chars = chars_of(input);
    let read = phrase_q_at(&chars, 0, &single_field());
    query_of_text(&chars, read)
}

/// Reads a regular expression.
pub fn regex_q(input: &str) -> (res: Result<(String, Query), Unreadable>)
    ensures
        reads_query(res, input@, regex_query_reading(input@, 0, field_dialect())),
{
    let chars = chars_of(input);
    let read = regex_q_at(&chars, 0, &single_field());
    query_of_text(&chars, read)
}

/// Reads a range between texts.
pub fn range_q(input: &str) -> (res: Result<(String, Query), Unreadable>)
    ensures
        reads_query(
            res,
            input@,
            range_of_kind_reading(input@, 0, BoundKind::Text { reserved: false }),
        ),
{
    let chars = chars_of(input);
    let read = range_of_kind_at(&chars, 0, BoundKind::Text { reserved: false });
    query_of_text(&chars, read)
}

} // verus!
