//! The characters that searches are made of, and the queries that they become.
use vstd::prelude::*;

use crate::laws::query::of_words;
use crate::query::ast::{QueryView, ScalarView, TreeView};
use crate::query::compile::{clauses_of, compiled, compiled_all};
use crate::query::grammar::{
    and_join, and_tail, disjunction_reading, expr_reading, leaf_reading, negation_end, not_reading,
    operator_end, or_join, or_tail, parens_reading, query_tree, simple_reading,
};
use crate::query::lexer::{at, in_class, lemma_run_end, run_end, word_at, Class};
use crate::query::parse::{restricted, term_or_all};
use crate::query::terms::{
    bound_reading, exact_reading, field_end, full_dialect, fuzzy_query_reading, fuzzy_reading,
    more_bounds, phrase_reading, quoted_reading, range_of_kind_reading, regex_query_reading,
    regex_reading, symbol_end, term_end, Bound, BoundKind,
};
use crate::text::{join_text, split_text};

verus! {

// ---------------------------------------------------------------------------
// Characters
// ---------------------------------------------------------------------------

/// Whether a character can stand outside phrases and expressions.
pub open spec fn of_searches(c: char) -> bool {
    ||| of_words(c)
    ||| c == ' '
    ||| c == '\t'
    ||| c == '('
    ||| c == ')'
    ||| c == '~'
    ||| c == ':'
    ||| c == '<'
    ||| c == '>'
    ||| c == '='
    ||| c == ','
}

/// Whether a text has neither phrases nor expressions.
pub open spec fn unquoted(s: Seq<char>) -> bool {
    forall|i: int| 0 <= i < s.len() ==> #[trigger] s[i] != '"' && s[i] != '/'
}

/// Whether a part of a text has only characters of searches.
spec fn clean(s: Seq<char>, i: int, j: int) -> bool {
    &&& 0 <= i <= j <= s.len()
    &&& forall|q: int| i <= q < j ==> of_searches(#[trigger] s[q])
}

/// A run of characters of searches.
proof fn lemma_run(s: Seq<char>, i: int, class: Class)
    requires
        0 <= i <= s.len(),
        class is Identifier || class is Term || class is Digit || class is Blank,
    ensures
        clean(s, i, run_end(s, i, class)),
{
    lemma_run_end(s, i, class);
    assert forall|q: int| i <= q < run_end(s, i, class) implies of_searches(#[trigger] s[q]) by {
        assert(in_class(class, s[q]));
    }
}

/// A word of the language stands in its letters.
proof fn lemma_word(s: Seq<char>, i: int, w: Seq<char>)
    requires
        word_at(s, i, w),
        forall|k: int| 0 <= k < w.len() ==> of_searches(#[trigger] w[k]),
    ensures
        clean(s, i, i + w.len()),
{
    assert forall|q: int| i <= q < i + w.len() implies of_searches(#[trigger] s[q]) by {
        assert(s.subrange(i, i + w.len())[q - i] == w[q - i]);
    }
}

/// What is read of a term.
proof fn lemma_term(s: Seq<char>, i: int, reserved: bool)
    requires
        0 <= i <= s.len(),
    ensures
        term_end(s, i, reserved) matches Some(j) ==> clean(s, i, j) && i < j,
{
    lemma_run(s, i, Class::Term);
}

/// What is read of a field.
proof fn lemma_field(s: Seq<char>, i: int)
    requires
        0 <= i <= s.len(),
    ensures
        field_end(s, i) matches Some(k) ==> clean(s, i, k) && i < k,
{
    lemma_run(s, i, Class::Identifier);
}

/// What is read of a fuzzy term.
proof fn lemma_fuzzy(s: Seq<char>, i: int)
    requires
        0 <= i <= s.len(),
    ensures
        fuzzy_reading(s, i, true) matches Some((j, _, _)) ==> clean(s, i, j) && i < j,
{
    if at(s, i, '~') {
        lemma_run(s, i + 1, Class::Digit);
        let d = run_end(s, i + 1, Class::Digit);
        if d < s.len() {
            lemma_term(s, d + 1, true);
        }
        lemma_term(s, i + 1, true);
    }
}

/// What is read of a bound.
proof fn lemma_bound(s: Seq<char>, i: int, kind: BoundKind)
    requires
        0 <= i <= s.len(),
    ensures
        bound_reading(s, i, kind) matches Some((j, _)) ==> clean(s, i, j) && i < j,
{
    let ge = seq!['>', '='];
    let le = seq!['<', '='];
    assert(ge[0] == '>' && ge[1] == '=' && le[0] == '<' && le[1] == '=');
    match symbol_end(s, i) {
        Some(k) => {
            if word_at(s, i, ge) {
                lemma_word(s, i, ge);
            } else if at(s, i, '>') {
            } else if word_at(s, i, le) {
                lemma_word(s, i, le);
            }
            assert(clean(s, i, k));
            lemma_run(s, k, Class::Digit);
            lemma_term(s, k, true);
            lemma_term(s, k, false);
        },
        None => {},
    }
}

/// What is read of further bounds.
proof fn lemma_bounds(s: Seq<char>, i: int, kind: BoundKind, acc: Seq<Bound<ScalarView>>)
    requires
        0 <= i <= s.len(),
    ensures
        clean(s, i, more_bounds(s, i, kind, acc).0),
    decreases s.len() - i,
{
    if at(s, i, ',') {
        lemma_bound(s, i + 1, kind);
        match bound_reading(s, i + 1, kind) {
            Some((j, b)) => {
                lemma_bounds(s, j, kind, acc.push(b));
            },
            None => {},
        }
    }
}

/// What is read of a range.
proof fn lemma_range(s: Seq<char>, i: int, kind: BoundKind)
    requires
        0 <= i <= s.len(),
    ensures
        range_of_kind_reading(s, i, kind) matches Some((j, _)) ==> clean(s, i, j),
{
    lemma_field(s, i);
    match field_end(s, i) {
        Some(k) => {
            lemma_bound(s, k, kind);
            match bound_reading(s, k, kind) {
                Some((j, b)) => {
                    lemma_bounds(s, j, kind, seq![b]);
                },
                None => {},
            }
        },
        None => {},
    }
}

/// What is read of a leaf outside quotes and slashes.
#[verifier::rlimit(60)]
#[verifier::spinoff_prover]
proof fn lemma_leaf(s: Seq<char>, i: int)
    requires
        unquoted(s),
        0 <= i <= s.len(),
    ensures
        leaf_reading(s, i) matches Some((j, _)) ==> clean(s, i, j),
{
    let d = full_dialect();
    lemma_field(s, i);
    lemma_term(s, i, true);
    lemma_fuzzy(s, i);
    match field_end(s, i) {
        Some(k) => {
            lemma_term(s, k, true);
            lemma_fuzzy(s, k);
            assert(quoted_reading(s, k) is None);
            assert(regex_reading(s, k) is None);
        },
        None => {},
    }
    assert(quoted_reading(s, i) is None);
    assert(regex_reading(s, i) is None);
    assert(phrase_reading(s, i, d) is None);
    assert(regex_query_reading(s, i, d) is None);
    assert(fuzzy_query_reading(s, i, d) matches Some((j, _)) ==> clean(s, i, j));
    assert(exact_reading(s, i, d) matches Some((j, _)) ==> clean(s, i, j));
    lemma_range(s, i, BoundKind::Number);
    lemma_range(s, i, BoundKind::Text { reserved: true });
}

/// What is read of an operator.
proof fn lemma_operator(s: Seq<char>, i: int, w: Seq<char>)
    requires
        0 <= i <= s.len(),
        w == seq!['O', 'R'] || w == seq!['A', 'N', 'D'],
    ensures
        operator_end(s, i, w) matches Some(k) ==> clean(s, i, k) && i < k,
{
    lemma_run(s, i, Class::Blank);
    let a = run_end(s, i, Class::Blank);
    if word_at(s, a, w) {
        assert forall|k: int| 0 <= k < w.len() implies of_searches(#[trigger] w[k]) by {}
        lemma_word(s, a, w);
        lemma_run(s, a + w.len(), Class::Blank);
    }
}

/// What is read of a denial.
proof fn lemma_negation(s: Seq<char>, i: int)
    requires
        0 <= i <= s.len(),
    ensures
        negation_end(s, i) matches Some(k) ==> clean(s, i, k) && i < k,
{
    let w = seq!['N', 'O', 'T'];
    if word_at(s, i, w) {
        assert forall|k: int| 0 <= k < w.len() implies of_searches(#[trigger] w[k]) by {}
        lemma_word(s, i, w);
        lemma_run(s, i + 3, Class::Blank);
    }
}

/// What is read without an operator outside it.
#[verifier::rlimit(60)]
#[verifier::spinoff_prover]
proof fn lemma_simple(s: Seq<char>, i: int)
    requires
        unquoted(s),
        0 <= i <= s.len(),
    ensures
        simple_reading(s, i) matches Some((j, _)) ==> clean(s, i, j),
    decreases s.len() - i, 1int,
{
    lemma_leaf(s, i);
    if leaf_reading(s, i) is None {
        if at(s, i, '(') {
            lemma_expr(s, i + 1);
        }
        lemma_negation(s, i);
        match negation_end(s, i) {
            Some(k) => {
                lemma_expr(s, k);
            },
            None => {},
        }
        assert(parens_reading(s, i) matches Some((j, _)) ==> clean(s, i, j));
        assert(not_reading(s, i) matches Some((j, _)) ==> clean(s, i, j));
    }
}

/// What is read behind a part, after each `OR`.
proof fn lemma_or_tail(s: Seq<char>, i: int, left: TreeView)
    requires
        unquoted(s),
        0 <= i <= s.len(),
    ensures
        clean(s, i, or_tail(s, i, left).0),
    decreases s.len() - i, 2int,
{
    lemma_operator(s, i, seq!['O', 'R']);
    match operator_end(s, i, seq!['O', 'R']) {
        Some(k) => {
            lemma_simple(s, k);
            match simple_reading(s, k) {
                Some((j, right)) => if k < j {
                    lemma_or_tail(s, j, or_join(left, right));
                },
                None => {},
            }
        },
        None => {},
    }
}

/// What is read of a disjunction.
proof fn lemma_disjunction(s: Seq<char>, i: int)
    requires
        unquoted(s),
        0 <= i <= s.len(),
    ensures
        disjunction_reading(s, i) matches Some((j, _)) ==> clean(s, i, j),
    decreases s.len() - i, 3int,
{
    lemma_simple(s, i);
    match simple_reading(s, i) {
        Some((j, t)) => if i < j {
            lemma_or_tail(s, j, t);
        },
        None => {},
    }
}

/// What is read behind a disjunction, after each `AND`.
proof fn lemma_and_tail(s: Seq<char>, i: int, left: TreeView)
    requires
        unquoted(s),
        0 <= i <= s.len(),
    ensures
        clean(s, i, and_tail(s, i, left).0),
    decreases s.len() - i, 4int,
{
    lemma_operator(s, i, seq!['A', 'N', 'D']);
    match operator_end(s, i, seq!['A', 'N', 'D']) {
        Some(k) => {
            lemma_disjunction(s, k);
            match disjunction_reading(s, k) {
                Some((j, right)) => if k < j {
                    lemma_and_tail(s, j, and_join(left, right));
                },
                None => {},
            }
        },
        None => {},
    }
}

/// What is read of a search.
proof fn lemma_expr(s: Seq<char>, i: int)
    requires
        unquoted(s),
        0 <= i <= s.len(),
    ensures
        expr_reading(s, i) matches Some((j, _)) ==> clean(s, i, j),
    decreases s.len() - i, 5int,
{
    lemma_disjunction(s, i);
    match disjunction_reading(s, i) {
        Some((j, t)) => if i < j {
            lemma_and_tail(s, j, t);
        },
        None => {},
    }
}

/// A text without phrases and expressions in which a character stands that searches are
/// not made of is no query: not with a line break, a hyphen, a dot or a star in it.
pub proof fn odd_characters_are_no_query(s: Seq<char>, i: int)
    ensures
        unquoted(s) && 0 <= i < s.len() && !of_searches(s[i]) ==> query_tree(s) is None,
{
    if unquoted(s) && 0 <= i < s.len() && !of_searches(s[i]) {
        lemma_expr(s, 0);
    }
}

/// No text is no query.
pub proof fn nothing_is_no_query()
    ensures
        query_tree(Seq::empty()) is None,
{
    let s = Seq::<char>::empty();
    assert(leaf_reading(s, 0) is None);
    assert(simple_reading(s, 0) is None);
}

// ---------------------------------------------------------------------------
// Queries
// ---------------------------------------------------------------------------

/// A search for one thing is that query, and with a time both must be met.
pub proof fn one_thing_is_asked(q: QueryView, time: QueryView)
    ensures
        compiled(TreeView::Simple(q), None) == q,
        compiled(TreeView::Simple(q), Some(time)) == (QueryView::Bool {
            must: seq![q, time],
            must_not: seq![],
            should: seq![],
            minimum_should_match: None,
        }),
{
}

/// The queries of several trees, one for each, in their order.
pub proof fn queries_of_trees(ts: Seq<TreeView>, i: int)
    requires
        0 <= i < ts.len(),
    ensures
        compiled_all(ts).len() == ts.len(),
        compiled_all(ts)[i] == compiled(ts[i], None),
    decreases ts.len(),
{
    reveal_with_fuel(compiled_all, 2);
    let front = ts.drop_last();
    if i < front.len() {
        queries_of_trees(front, i);
    } else if front.len() > 0 {
        queries_of_trees(front, 0);
    }
}

/// Of alternatives at least one is to be met; a denial is a query that must not be.
pub proof fn alternatives_and_denials(ts: Seq<TreeView>, t: TreeView, time: QueryView)
    ensures
        compiled(TreeView::Or(ts), None) == (QueryView::Bool {
            must: seq![],
            must_not: seq![],
            should: compiled_all(ts),
            minimum_should_match: Some(1),
        }),
        compiled(TreeView::Or(ts), Some(time)) == (QueryView::Bool {
            must: seq![time],
            must_not: seq![],
            should: compiled_all(ts),
            minimum_should_match: Some(1),
        }),
        compiled(TreeView::Not(Box::new(t)), None) == (QueryView::Bool {
            must: seq![],
            must_not: seq![compiled(t, None)],
            should: seq![],
            minimum_should_match: None,
        }),
        compiled(TreeView::Not(Box::new(t)), Some(time)) == (QueryView::Bool {
            must: seq![time],
            must_not: seq![compiled(t, None)],
            should: seq![],
            minimum_should_match: None,
        }),
{
    assert(Seq::<QueryView>::empty().push(time) =~= seq![time]);
}

/// One more part of a conjunction: the first that has alternatives gives them to the whole,
/// a denial is what must not be met, and any other part must be.
#[verifier::rlimit(60)]
#[verifier::spinoff_prover]
pub proof fn one_more_part(ts: Seq<TreeView>, t: TreeView)
    ensures
        compiled(TreeView::And(Seq::empty()), None) == (QueryView::Bool {
            must: seq![],
            must_not: seq![],
            should: seq![],
            minimum_should_match: None,
        }),
        compiled(TreeView::And(ts), None) matches QueryView::Bool {
            must,
            must_not,
            should,
            minimum_should_match,
        } && compiled(TreeView::And(ts.push(t)), None) == (match t {
            TreeView::Not(sub) => QueryView::Bool {
                must,
                must_not: must_not.push(compiled(*sub, None)),
                should,
                minimum_should_match,
            },
            TreeView::Or(xs) => if minimum_should_match is None {
                QueryView::Bool {
                    must,
                    must_not,
                    should: compiled_all(xs),
                    minimum_should_match: Some(1),
                }
            } else {
                QueryView::Bool {
                    must: must.push(compiled(t, None)),
                    must_not,
                    should,
                    minimum_should_match,
                }
            },
            _ => QueryView::Bool {
                must: must.push(compiled(t, None)),
                must_not,
                should,
                minimum_should_match,
            },
        }),
{
    reveal_with_fuel(compiled, 2);
    reveal_with_fuel(clauses_of, 2);
    let more = ts.push(t);
    assert(more.drop_last() =~= ts);
    assert(more.last() == t);
    assert(clauses_of(Seq::<TreeView>::empty()).must =~= Seq::<QueryView>::empty());
    lemma_lifted(ts);
}

/// Alternatives are given to a whole where there is a minimum of them.
proof fn lemma_lifted(ts: Seq<TreeView>)
    ensures
        compiled(TreeView::And(ts), None) matches QueryView::Bool { minimum_should_match, .. }
            && minimum_should_match == (if clauses_of(ts).lifted {
            Some(1u64)
        } else {
            None
        }),
{
}

/// The time of a conjunction is one more thing that must be met.
pub proof fn time_must_be_met(ts: Seq<TreeView>, time: QueryView)
    ensures
        compiled(TreeView::And(ts), None) matches QueryView::Bool {
            must,
            must_not,
            should,
            minimum_should_match,
        } && compiled(TreeView::And(ts), Some(time)) == (QueryView::Bool {
            must: must.push(time),
            must_not,
            should,
            minimum_should_match,
        }),
{
}

/// A query that is restricted to a time is that time and the query, or the time alone where
/// it was for everything.
pub proof fn restriction_is_one_more_clause(q: QueryView, time: QueryView)
    ensures
        restricted(QueryView::All, time) == time,
        !(q is All) ==> restricted(q, time) == (QueryView::Bool {
            must: seq![time, q],
            must_not: seq![],
            should: seq![],
            minimum_should_match: None,
        }),
{
}

/// A search for a term in a field is that; for nothing, one for everything.
pub proof fn nothing_asks_for_everything(field: Seq<char>, q: Seq<char>)
    ensures
        q.len() > 0 ==> term_or_all(field, q) == (QueryView::Exact { field, term: q }),
        term_or_all(field, Seq::empty()) == QueryView::All,
{
}

// ---------------------------------------------------------------------------
// Lists in texts
// ---------------------------------------------------------------------------

/// Texts are joined with the separator between them, and nowhere else.
pub proof fn texts_are_joined(xs: Seq<Seq<char>>, x: Seq<char>, sep: Seq<char>)
    ensures
        join_text(Seq::empty(), sep).len() == 0,
        join_text(seq![x], sep) == x,
        xs.len() > 0 ==> join_text(xs.push(x), sep) == join_text(xs, sep) + sep + x,
{
    assert(xs.push(x).drop_last() =~= xs);
    assert(seq![x].drop_last() =~= Seq::<Seq<char>>::empty());
    reveal_with_fuel(join_text, 2);
    assert(Seq::<char>::empty() + x =~= x);
}

/// A text is cut at each separator, and each part kept as it is, empty ones too.
pub proof fn texts_are_cut(xs: Seq<Seq<char>>, sep: char)
    requires
        xs.len() > 0,
        forall|i: int, j: int|
            0 <= i < xs.len() && 0 <= j < xs[i].len() ==> #[trigger] xs[i][j] != sep,
    ensures
        split_text(join_text(xs, seq![sep]), sep) == xs,
{
    crate::text::split_undoes_join(xs, sep);
}

} // verus!
