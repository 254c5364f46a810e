//! From trees to queries: how conjunctions, disjunctions and negations become the
//! clauses of one query.
use vstd::prelude::*;

use crate::query::ast::{
    lemma_query_views_push, query_views, tree_views, Query, QueryTree, QueryView, TreeView,
};

verus! {

/// The clauses that the parts of a conjunction become.
pub struct Clauses {
    pub must: Seq<QueryView>,
    pub must_not: Seq<QueryView>,
    pub should: Seq<QueryView>,
    /// Whether a disjunction has been lifted into `should`.
    pub lifted: bool,
}

/// The clauses of a query, with the time clause last.
pub open spec fn with_time(must: Seq<QueryView>, time: Option<QueryView>) -> Seq<QueryView> {
    match time {
        Some(q) => must.push(q),
        None => must,
    }
}

/// The minimum that goes with the `should` clauses.
pub open spec fn minimum(lifted: bool) -> Option<u64> {
    if lifted {
        Some(1u64)
    } else {
        None
    }
}

/// The query that a tree becomes, restricted by a time clause where there is one.
pub open spec fn compiled(t: TreeView, time: Option<QueryView>) -> QueryView
    decreases t,
{
    match t {
        TreeView::Simple(q) => match time {
            Some(c) => QueryView::Bool {
                must: seq![q, c],
                must_not: seq![],
                should: seq![],
                minimum_should_match: None,
            },
            None => q,
        },
        TreeView::Not(sub) => QueryView::Bool {
            must: with_time(seq![], time),
            must_not: seq![compiled(*sub, None)],
            should: seq![],
            minimum_should_match: None,
        },
        TreeView::And(subs) => {
            let c = clauses_of(subs);
            QueryView::Bool {
                must: with_time(c.must, time),
                must_not: c.must_not,
                should: c.should,
                minimum_should_match: minimum(c.lifted),
            }
        },
        TreeView::Or(subs) => QueryView::Bool {
            must: with_time(seq![], time),
            must_not: seq![],
            should: compiled_all(subs),
            minimum_should_match: Some(1),
        },
    }
}

/// The queries that the trees of a list become.
pub open spec fn compiled_all(ts: Seq<TreeView>) -> Seq<QueryView>
    decreases ts,
{
    if ts.len() == 0 {
        Seq::empty()
    } else {
        compiled_all(ts.drop_last()).push(compiled(ts.last(), None))
    }
}

/// The clauses that the parts of a conjunction become: the choices of its first
/// disjunction are lifted into `should`, what a negation denies goes to
/// `must_not`, everything else to `must`.
pub open spec fn clauses_of(ts: Seq<TreeView>) -> Clauses
    decreases ts,
{
    if ts.len() == 0 {
        Clauses { must: seq![], must_not: seq![], should: seq![], lifted: false }
    } else {
        let c = clauses_of(ts.drop_last());
        let t = ts.last();
        if t is Or && !c.lifted {
            Clauses { should: compiled_all(t->Or_0), lifted: true, ..c }
        } else if t is Not {
            Clauses { must_not: c.must_not.push(compiled(*t->Not_0, None)), ..c }
        } else {
            Clauses { must: c.must.push(compiled(t, None)), ..c }
        }
    }
}

/// The optional query, seen through its view.
pub open spec fn opt_query(q: Option<Query>) -> Option<QueryView> {
    match q {
        Some(q) => Some(q@),
        None => None,
    }
}

/// Adds the time clause to the clauses.
fn add_time(must: Vec<Query>, time: Option<Query>) -> (res: Vec<Query>)
    ensures
        query_views(res@) == with_time(query_views(must@), opt_query(time)),
{
    let mut must = must;
    match time {
        Some(q) => {
            proof {
                lemma_query_views_push(must@, q);
            }
            must.push(q);
        },
        None => {},
    }
    must
}

/// Turns the trees of a list into queries.
fn compile_all(ts: Vec<QueryTree>) -> (res: Vec<Query>)
    ensures
        query_views(res@) == compiled_all(tree_views(ts@)),
    decreases ts,
{
    let ghost all = ts@;
    assert(forall|i: int| 0 <= i < all.len() ==> decreases_to!(ts => #[trigger] all[i]));
    let mut res: Vec<Query> = Vec::new();
    assert(all.take(0) =~= Seq::<QueryTree>::empty());
    for t in it: ts
        invariant
            it.seq() == all,
            forall|i: int| 0 <= i < all.len() ==> decreases_to!(ts => #[trigger] all[i]),
            query_views(res@) == compiled_all(tree_views(all.take(it.index()))),
    {
        proof {
            let k = it.index();
            assert(t == all[k]);
            assert(all.take(k + 1).drop_last() =~= all.take(k));
            assert(tree_views(all.take(k + 1)).drop_last() =~= tree_views(all.take(k)));
        }
        let q = compile(t, None);
        proof {
            lemma_query_views_push(res@, q);
        }
        res.push(q);
    }
    assert(all.take(all.len() as int) =~= all);
    res
}

/// Turns a tree into a query, restricted by a time clause where there is one.
pub fn compile(t: QueryTree, time: Option<Query>) -> (res: Query)
    ensures
        res@ == compiled(t@, opt_query(time)),
    decreases t,
{
    match t {
        QueryTree::Simple(q) => match time {
            Some(c) => {
                let mut must: Vec<Query> = Vec::new();
                proof {
                    lemma_query_views_push(must@, q);
                    lemma_query_views_push(must@.push(q), c);
                    assert(query_views(must@.push(q).push(c)) =~= seq![q@, c@]);
                }
                must.push(q);
                must.push(c);
                Query::Bool {
                    must,
                    must_not: Vec::new(),
                    should: Vec::new(),
                    minimum_should_match: None,
                }
            },
            None => q,
        },
        QueryTree::Not(sub) => {
            let mut must_not: Vec<Query> = Vec::new();
            let denied = compile(*sub, None);
            proof {
                lemma_query_views_push(must_not@, denied);
                assert(query_views(must_not@.push(denied)) =~= seq![denied@]);
            }
            must_not.push(denied);
            Query::Bool {
                must: add_time(Vec::new(), time),
                must_not,
                should: Vec::new(),
                minimum_should_match: None,
            }
        },
        QueryTree::And(subs) => {
            let ghost all = subs@;
            assert(forall|i: int| 0 <= i < all.len() ==> decreases_to!(t => #[trigger] all[i]));
            let mut must: Vec<Query> = Vec::new();
            let mut must_not: Vec<Query> = Vec::new();
            let mut should: Vec<Query> = Vec::new();
            let mut lifted = false;
            assert(all.take(0) =~= Seq::<QueryTree>::empty());
            for sub in it: subs
                invariant
                    it.seq() == all,
                    forall|i: int| 0 <= i < all.len() ==> decreases_to!(t => #[trigger] all[i]),
                    clauses_of(tree_views(all.take(it.index()))) == (Clauses {
                        must: query_views(must@),
                        must_not: query_views(must_not@),
                        should: query_views(should@),
                        lifted,
                    }),
            {
                proof {
                    let k = it.index();
                    assert(sub == all[k]);
                    assert(all.take(k + 1).drop_last() =~= all.take(k));
                    assert(tree_views(all.take(k + 1)).drop_last() =~= tree_views(all.take(k)));
                    assert(tree_views(all.take(k + 1)).last() == sub@);
                }
                match sub {
                    QueryTree::Or(choices) => if !lifted {
                        should = compile_all(choices);
                        lifted = true;
                    } else {
                        let q = compile(QueryTree::Or(choices), None);
                        proof {
                            lemma_query_views_push(must@, q);
                        }
                        must.push(q);
                    },
                    QueryTree::Not(denied) => {
                        let q = compile(*denied, None);
                        proof {
                            lemma_query_views_push(must_not@, q);
                        }
                        must_not.push(q);
                    },
                    other => {
                        let q = compile(other, None);
                        proof {
                            lemma_query_views_push(must@, q);
                        }
                        must.push(q);
                    },
                }
            }
            assert(all.take(all.len() as int) =~= all);
            Query::Bool {
                must: add_time(must, time),
                must_not,
                should,
                minimum_should_match: if lifted {
                    Some(1)
                } else {
                    None
                },
            }
        },
        QueryTree::Or(subs) => Query::Bool {
            must: add_time(Vec::new(), time),
            must_not: Vec::new(),
            should: compile_all(subs),
            minimum_should_match: Some(1),
        },
    }
}

} // verus!
