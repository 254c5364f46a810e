//! Search-engine queries and the trees that the query language denotes.
use vstd::prelude::*;

use crate::text::texts;

verus! {

/// A value that a range is bounded by.
#[derive(Debug, PartialEq, Eq)]
pub enum Scalar {
    /// A number.
    Int(i32),
    /// A text.
    Text(String),
    /// A point in time, in microseconds since the epoch.
    Micros(u128),
}

/// What a [`Scalar`] stands for.
pub enum ScalarView {
    Int(i32),
    Text(Seq<char>),
    Micros(u128),
}

impl View for Scalar {
    type V = ScalarView;

    open spec fn view(&self) -> ScalarView {
        match *self {
            Scalar::Int(n) => ScalarView::Int(n),
            Scalar::Text(s) => ScalarView::Text(s@),
            Scalar::Micros(n) => ScalarView::Micros(n),
        }
    }
}

/// The optional value, seen through its view.
pub open spec fn opt_scalar(v: Option<Scalar>) -> Option<ScalarView> {
    match v {
        Some(s) => Some(s@),
        None => None,
    }
}

/// The four bounds that a range query can have.
#[derive(Debug, PartialEq, Eq)]
pub struct RangeBounds {
    pub gte: Option<Scalar>,
    pub gt: Option<Scalar>,
    pub lte: Option<Scalar>,
    pub lt: Option<Scalar>,
}

/// What [`RangeBounds`] stand for.
pub struct RangeView {
    pub gte: Option<ScalarView>,
    pub gt: Option<ScalarView>,
    pub lte: Option<ScalarView>,
    pub lt: Option<ScalarView>,
}

impl View for RangeBounds {
    type V = RangeView;

    open spec fn view(&self) -> RangeView {
        RangeView {
            gte: opt_scalar(self.gte),
            gt: opt_scalar(self.gt),
            lte: opt_scalar(self.lte),
            lt: opt_scalar(self.lt),
        }
    }
}

/// What a range adds to the score of a document: nothing.
pub const RANGE_BOOST: u8 = 0;

/// A query as the search engine takes it.
#[derive(Debug, PartialEq, Eq)]
pub enum Query {
    /// Every document.
    All,
    /// Documents with this term in the field.
    Exact { field: String, term: String },
    /// Documents with a term within an edit distance of the value.
    Fuzzy { field: String, value: String, distance: u8, transposition: bool },
    /// Documents with these words in a row.
    Phrase { field: String, terms: Vec<String> },
    /// Documents with a term that matches the expression.
    Regex { field: String, pattern: String },
    /// Documents whose field lies within the bounds.
    Range { field: String, bounds: RangeBounds },
    /// Documents that meet every clause of `must`, none of `must_not` and, where
    /// a minimum is set, at least that many of `should`.
    Bool {
        must: Vec<Query>,
        must_not: Vec<Query>,
        should: Vec<Query>,
        minimum_should_match: Option<u64>,
    },
}

/// What a [`Query`] stands for.
pub enum QueryView {
    All,
    Exact { field: Seq<char>, term: Seq<char> },
    Fuzzy { field: Seq<char>, value: Seq<char>, distance: u8, transposition: bool },
    Phrase { field: Seq<char>, terms: Seq<Seq<char>> },
    Regex { field: Seq<char>, pattern: Seq<char> },
    Range { field: Seq<char>, bounds: RangeView },
    Bool {
        must: Seq<QueryView>,
        must_not: Seq<QueryView>,
        should: Seq<QueryView>,
        minimum_should_match: Option<u64>,
    },
}

/// The view of a query.
pub open spec fn query_view(q: Query) -> QueryView
    decreases q,
{
    match q {
        Query::All => QueryView::All,
        Query::Exact { field, term } => QueryView::Exact { field: field@, term: term@ },
        Query::Fuzzy { field, value, distance, transposition } => QueryView::Fuzzy {
            field: field@,
            value: value@,
            distance,
            transposition,
        },
        Query::Phrase { field, terms } => QueryView::Phrase {
            field: field@,
            terms: texts(terms@),
        },
        Query::Regex { field, pattern } => QueryView::Regex { field: field@, pattern: pattern@ },
        Query::Range { field, bounds } => QueryView::Range { field: field@, bounds: bounds@ },
        Query::Bool { must, must_not, should, minimum_should_match } => QueryView::Bool {
            must: query_views(must@),
            must_not: query_views(must_not@),
            should: query_views(should@),
            minimum_should_match,
        },
    }
}

/// The views of a list of queries.
pub open spec fn query_views(qs: Seq<Query>) -> Seq<QueryView>
    decreases qs,
{
    if qs.len() == 0 {
        Seq::empty()
    } else {
        query_views(qs.drop_last()).push(query_view(qs.last()))
    }
}

impl View for Query {
    type V = QueryView;

    open spec fn view(&self) -> QueryView {
        query_view(*self)
    }
}

/// Pushing a query pushes its view.
pub proof fn lemma_query_views_push(qs: Seq<Query>, q: Query)
    ensures
        query_views(qs.push(q)) == query_views(qs).push(q@),
{
    assert(qs.push(q).drop_last() =~= qs);
}

/// A query of the language before it is put into clauses.
#[derive(Debug, PartialEq, Eq)]
pub enum QueryTree {
    Simple(Query),
    Not(Box<QueryTree>),
    And(Vec<QueryTree>),
    Or(Vec<QueryTree>),
}

/// What a [`QueryTree`] stands for.
pub enum TreeView {
    Simple(QueryView),
    Not(Box<TreeView>),
    And(Seq<TreeView>),
    Or(Seq<TreeView>),
}

/// The view of a tree.
pub open spec fn tree_view(t: QueryTree) -> TreeView
    decreases t,
{
    match t {
        QueryTree::Simple(q) => TreeView::Simple(q@),
        QueryTree::Not(sub) => TreeView::Not(Box::new(tree_view(*sub))),
        QueryTree::And(subs) => TreeView::And(tree_views(subs@)),
        QueryTree::Or(subs) => TreeView::Or(tree_views(subs@)),
    }
}

/// The views of a list of trees.
pub open spec fn tree_views(ts: Seq<QueryTree>) -> Seq<TreeView>
    decreases ts,
{
    if ts.len() == 0 {
        Seq::empty()
    } else {
        tree_views(ts.drop_last()).push(tree_view(ts.last()))
    }
}

impl View for QueryTree {
    type V = TreeView;

    open spec fn view(&self) -> TreeView {
        tree_view(*self)
    }
}

/// Pushing a tree pushes its view.
pub proof fn lemma_tree_views_push(ts: Seq<QueryTree>, t: QueryTree)
    ensures
        tree_views(ts.push(t)) == tree_views(ts).push(t@),
{
    assert(ts.push(t).drop_last() =~= ts);
}

} // verus!
