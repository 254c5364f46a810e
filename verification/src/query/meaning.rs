//! What queries and trees mean, and that turning one into the other keeps it.
use vstd::prelude::*;

use crate::query::ast::{QueryView, TreeView};
use crate::query::compile::{clauses_of, compiled, compiled_all, with_time, Clauses};
use crate::query::parse::restricted;

verus! {

/// Whether a document meets a query, given which of the queries without clauses
/// it meets.
pub open spec fn meets(leaf: spec_fn(QueryView) -> bool, q: QueryView) -> bool
    decreases q,
{
    match q {
        QueryView::All => true,
        QueryView::Bool { must, must_not, should, minimum_should_match } => {
            &&& meets_all(leaf, must)
            &&& meets_count(leaf, must_not) == 0
            &&& match minimum_should_match {
                Some(n) => meets_count(leaf, should) >= n,
                None => true,
            }
        },
        _ => leaf(q),
    }
}

/// Whether a document meets every query of a list.
pub open spec fn meets_all(leaf: spec_fn(QueryView) -> bool, qs: Seq<QueryView>) -> bool
    decreases qs,
{
    qs.len() == 0 || (meets_all(leaf, qs.drop_last()) && meets(leaf, qs.last()))
}

/// How many queries of a list a document meets.
pub open spec fn meets_count(leaf: spec_fn(QueryView) -> bool, qs: Seq<QueryView>) -> nat
    decreases qs,
{
    if qs.len() == 0 {
        0
    } else {
        meets_count(leaf, qs.drop_last()) + (if meets(leaf, qs.last()) {
            1nat
        } else {
            0nat
        })
    }
}

/// Whether a document meets what a tree says.
pub open spec fn satisfies(leaf: spec_fn(QueryView) -> bool, t: TreeView) -> bool
    decreases t,
{
    match t {
        TreeView::Simple(q) => meets(leaf, q),
        TreeView::Not(sub) => !satisfies(leaf, *sub),
        TreeView::And(subs) => forall|i: int|
            0 <= i < subs.len() ==> satisfies(leaf, #[trigger] subs[i]),
        TreeView::Or(subs) => exists|i: int|
            0 <= i < subs.len() && satisfies(leaf, #[trigger] subs[i]),
    }
}

/// A clause more, and a document must meet it too.
proof fn lemma_meets_all_push(leaf: spec_fn(QueryView) -> bool, qs: Seq<QueryView>, q: QueryView)
    ensures
        meets_all(leaf, qs.push(q)) == (meets_all(leaf, qs) && meets(leaf, q)),
{
    assert(qs.push(q).drop_last() =~= qs);
}

/// A clause more, and a document meets one more where it meets it.
proof fn lemma_meets_count_push(leaf: spec_fn(QueryView) -> bool, qs: Seq<QueryView>, q: QueryView)
    ensures
        meets_count(leaf, qs.push(q)) == meets_count(leaf, qs) + (if meets(leaf, q) {
            1nat
        } else {
            0nat
        }),
{
    assert(qs.push(q).drop_last() =~= qs);
}

/// The time clause is one more clause.
proof fn lemma_with_time(
    leaf: spec_fn(QueryView) -> bool,
    must: Seq<QueryView>,
    time: Option<QueryView>,
)
    ensures
        meets_all(leaf, with_time(must, time)) == (meets_all(leaf, must) && (match time {
            Some(c) => meets(leaf, c),
            None => true,
        })),
{
    match time {
        Some(c) => lemma_meets_all_push(leaf, must, c),
        None => {},
    }
}

/// Some query of the list is met where some tree is.
proof fn lemma_compiled_all(leaf: spec_fn(QueryView) -> bool, ts: Seq<TreeView>)
    ensures
        meets_count(leaf, compiled_all(ts)) >= 1 <==> exists|i: int|
            0 <= i < ts.len() && satisfies(leaf, #[trigger] ts[i]),
    decreases ts,
{
    if ts.len() > 0 {
        let front = ts.drop_last();
        lemma_compiled_all(leaf, front);
        compile_keeps_meaning(leaf, ts.last(), None);
        lemma_meets_count_push(leaf, compiled_all(front), compiled(ts.last(), None));
        if exists|i: int| 0 <= i < front.len() && satisfies(leaf, #[trigger] front[i]) {
            let i = choose|i: int| 0 <= i < front.len() && satisfies(leaf, #[trigger] front[i]);
            assert(ts[i] == front[i]);
        }
        if exists|i: int| 0 <= i < ts.len() && satisfies(leaf, #[trigger] ts[i]) {
            let i = choose|i: int| 0 <= i < ts.len() && satisfies(leaf, #[trigger] ts[i]);
            if i < front.len() {
                assert(front[i] == ts[i]);
            } else {
                assert(ts[i] == ts.last());
            }
        }
        if satisfies(leaf, ts.last()) {
            assert(satisfies(leaf, ts[ts.len() - 1]));
        }
    }
}

/// Whether a document meets the clauses of a conjunction.
spec fn meets_clauses(leaf: spec_fn(QueryView) -> bool, c: Clauses) -> bool {
    &&& meets_all(leaf, c.must)
    &&& meets_count(leaf, c.must_not) == 0
    &&& c.lifted ==> meets_count(leaf, c.should) >= 1
}

/// The clauses of a conjunction are met where each of its parts is.
proof fn lemma_clauses_of(leaf: spec_fn(QueryView) -> bool, ts: Seq<TreeView>)
    ensures
        meets_clauses(leaf, clauses_of(ts)) <==> forall|i: int|
            0 <= i < ts.len() ==> satisfies(leaf, #[trigger] ts[i]),
        !clauses_of(ts).lifted ==> clauses_of(ts).should.len() == 0,
    decreases ts,
{
    if ts.len() > 0 {
        let front = ts.drop_last();
        let t = ts.last();
        let c = clauses_of(front);
        lemma_clauses_of(leaf, front);
        if t is Or && !c.lifted {
            lemma_compiled_all(leaf, t->Or_0);
        } else if t is Not {
            compile_keeps_meaning(leaf, *t->Not_0, None);
            lemma_meets_count_push(leaf, c.must_not, compiled(*t->Not_0, None));
        } else {
            compile_keeps_meaning(leaf, t, None);
            lemma_meets_all_push(leaf, c.must, compiled(t, None));
        }
        assert(meets_clauses(leaf, clauses_of(ts)) <==> meets_clauses(leaf, c) && satisfies(leaf, t));
        if forall|i: int| 0 <= i < ts.len() ==> satisfies(leaf, #[trigger] ts[i]) {
            assert forall|i: int| 0 <= i < front.len() implies satisfies(
                leaf,
                #[trigger] front[i],
            ) by {
                assert(ts[i] == front[i]);
            }
            assert(satisfies(leaf, ts[ts.len() - 1]));
        }
        if (forall|i: int| 0 <= i < front.len() ==> satisfies(leaf, #[trigger] front[i]))
            && satisfies(leaf, t) {
            assert forall|i: int| 0 <= i < ts.len() implies satisfies(leaf, #[trigger] ts[i]) by {
                if i < front.len() {
                    assert(ts[i] == front[i]);
                }
            }
        }
    }
}

/// Compiling keeps the meaning: a document meets the query that a tree becomes
/// where it meets what the tree says and, if there is a time clause, that clause.
pub proof fn compile_keeps_meaning(
    leaf: spec_fn(QueryView) -> bool,
    t: TreeView,
    time: Option<QueryView>,
)
    ensures
        meets(leaf, compiled(t, time)) <==> satisfies(leaf, t) && (match time {
            Some(c) => meets(leaf, c),
            None => true,
        }),
    decreases t,
{
    let none = Seq::<QueryView>::empty();
    assert(meets_all(leaf, none));
    assert(meets_count(leaf, none) == 0);
    match t {
        TreeView::Simple(q) => match time {
            Some(c) => {
                assert(seq![q, c] =~= none.push(q).push(c));
                lemma_meets_all_push(leaf, none, q);
                lemma_meets_all_push(leaf, none.push(q), c);
            },
            None => {},
        },
        TreeView::Not(sub) => {
            lemma_with_time(leaf, none, time);
            compile_keeps_meaning(leaf, *sub, None);
            let denied = compiled(*sub, None);
            assert(seq![denied] =~= none.push(denied));
            lemma_meets_count_push(leaf, none, denied);
        },
        TreeView::And(subs) => {
            lemma_clauses_of(leaf, subs);
            lemma_with_time(leaf, clauses_of(subs).must, time);
        },
        TreeView::Or(subs) => {
            lemma_with_time(leaf, none, time);
            lemma_compiled_all(leaf, subs);
        },
    }
}

/// Restricting keeps the meaning: a document meets the restricted query where it
/// meets both the query and the time clause.
pub proof fn restrict_keeps_meaning(
    leaf: spec_fn(QueryView) -> bool,
    q: QueryView,
    time: QueryView,
)
    ensures
        meets(leaf, restricted(q, time)) <==> meets(leaf, q) && meets(leaf, time),
{
    let none = Seq::<QueryView>::empty();
    assert(seq![time, q] =~= none.push(time).push(q));
    lemma_meets_all_push(leaf, none, time);
    lemma_meets_all_push(leaf, none.push(time), q);
}

} // verus!
