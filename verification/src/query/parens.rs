//! Parentheses around a whole query.
use vstd::prelude::*;

use crate::query::ast::{ScalarView, TreeView};
use crate::query::grammar::{
    and_join, and_tail, disjunction_reading, expr_reading, leaf_reading, negation_end, not_reading,
    operator_end, or_join, or_tail, parens_reading, query_tree, simple_reading,
};
use crate::query::lexer::{at, in_class, run_end, word_at, Class};
use crate::query::parse::search_by_clock;
use crate::query::terms::{
    bare_term, bound_reading, bound_value_reading, closing_slash, exact_reading, field_end, fielded,
    full_dialect, fuzzy_query_reading, fuzzy_reading, fuzzy_text_reading, more_bounds,
    phrase_reading, quoted_reading, range_of_kind_reading, range_reading, regex_query_reading,
    regex_reading, symbol_end, term_end, term_reading, Bound, BoundKind, Dialect, Reading,
};

verus! {

/// A text in parentheses.
pub open spec fn in_parens(s: Seq<char>) -> Seq<char> {
    seq!['('] + s + seq![')']
}

/// A reading of a text, as it stands behind an opening parenthesis.
spec fn moved<T>(r: Reading<T>) -> Reading<T> {
    match r {
        Some((j, t)) => Some((j + 1, t)),
        None => None,
    }
}

/// The end of a word, as it stands behind an opening parenthesis.
spec fn moved_end(r: Option<int>) -> Option<int> {
    match r {
        Some(j) => Some(j + 1),
        None => None,
    }
}

/// Whether a reading ends behind its start, within the text.
spec fn ends_within<T>(s: Seq<char>, i: int, r: Reading<T>) -> bool {
    r matches Some((j, t)) ==> i < j <= s.len()
}

// ---------------------------------------------------------------------------
// Words
// ---------------------------------------------------------------------------

/// Whether a class has no closing parenthesis.
spec fn unclosing(class: Class) -> bool {
    !(class is Solid)
}

/// The characters of a text, as they stand in parentheses.
proof fn lemma_inside(s: Seq<char>)
    ensures
        in_parens(s).len() == s.len() + 2,
        in_parens(s)[0] == '(',
        in_parens(s)[s.len() as int + 1] == ')',
        forall|i: int| 0 <= i < s.len() ==> #[trigger] in_parens(s)[i + 1] == s[i],
{
}

/// Parts of a text are the same in parentheses.
proof fn lemma_part(s: Seq<char>, i: int, j: int)
    requires
        0 <= i <= j <= s.len(),
    ensures
        in_parens(s).subrange(i + 1, j + 1) == s.subrange(i, j),
{
    assert(in_parens(s).subrange(i + 1, j + 1) =~= s.subrange(i, j));
}

/// A run ends in the same place in parentheses.
proof fn lemma_run_inside(s: Seq<char>, i: int, class: Class)
    requires
        0 <= i <= s.len() + 1,
        unclosing(class),
    ensures
        run_end(in_parens(s), i + 1, class) == run_end(s, i, class) + 1,
        i <= run_end(s, i, class),
        i <= s.len() ==> run_end(s, i, class) <= s.len(),
    decreases s.len() - i,
{
    lemma_inside(s);
    if i < s.len() {
        if in_class(class, s[i]) {
            lemma_run_inside(s, i + 1, class);
        }
        assert(in_parens(s)[i + 1] == s[i]);
    } else if i == s.len() {
        assert(!in_class(class, ')'));
    }
}

/// A character other than a closing parenthesis stands in the same place in parentheses.
proof fn lemma_at_inside(s: Seq<char>, i: int, c: char)
    requires
        0 <= i,
        c != ')',
    ensures
        at(in_parens(s), i + 1, c) == at(s, i, c),
{
    lemma_inside(s);
    if i < s.len() {
        assert(in_parens(s)[i + 1] == s[i]);
    }
}

/// A word without a closing parenthesis stands in the same place in parentheses.
proof fn lemma_word_inside(s: Seq<char>, i: int, word: Seq<char>)
    requires
        0 <= i,
        word.len() > 0,
        forall|k: int| 0 <= k < word.len() ==> #[trigger] word[k] != ')',
    ensures
        word_at(in_parens(s), i + 1, word) == word_at(s, i, word),
{
    lemma_inside(s);
    let p = in_parens(s);
    if i + word.len() <= s.len() {
        lemma_part(s, i, i + word.len());
    } else if i + 1 + word.len() <= p.len() {
        let part = p.subrange(i + 1, i + 1 + word.len());
        assert(part[word.len() - 1] == ')');
        assert(word[word.len() - 1] != ')');
    }
}

/// The words of the language stand in the same places in parentheses.
proof fn lemma_words_inside(s: Seq<char>, i: int)
    requires
        0 <= i,
    ensures
        word_at(in_parens(s), i + 1, seq!['N', 'O', 'T']) == word_at(s, i, seq!['N', 'O', 'T']),
        word_at(in_parens(s), i + 1, seq!['A', 'N', 'D']) == word_at(s, i, seq!['A', 'N', 'D']),
        word_at(in_parens(s), i + 1, seq!['O', 'R']) == word_at(s, i, seq!['O', 'R']),
        word_at(in_parens(s), i + 1, seq!['>', '=']) == word_at(s, i, seq!['>', '=']),
        word_at(in_parens(s), i + 1, seq!['<', '=']) == word_at(s, i, seq!['<', '=']),
{
    lemma_word_inside(s, i, seq!['N', 'O', 'T']);
    lemma_word_inside(s, i, seq!['A', 'N', 'D']);
    lemma_word_inside(s, i, seq!['O', 'R']);
    lemma_word_inside(s, i, seq!['>', '=']);
    lemma_word_inside(s, i, seq!['<', '=']);
}

/// A term ends in the same place in parentheses.
proof fn lemma_term_inside(s: Seq<char>, i: int, reserved: bool)
    requires
        0 <= i <= s.len() + 1,
    ensures
        term_end(in_parens(s), i + 1, reserved) == moved_end(term_end(s, i, reserved)),
        i <= s.len() ==> (term_end(s, i, reserved) matches Some(j) ==> i < j <= s.len()),
{
    lemma_run_inside(s, i, Class::Term);
    lemma_words_inside(s, i);
}

/// A field name ends in the same place in parentheses.
proof fn lemma_field_inside(s: Seq<char>, i: int)
    requires
        0 <= i <= s.len(),
    ensures
        field_end(in_parens(s), i + 1) == moved_end(field_end(s, i)),
        field_end(s, i) matches Some(k) ==> i + 1 < k <= s.len(),
{
    lemma_run_inside(s, i, Class::Identifier);
    let j = run_end(s, i, Class::Identifier);
    lemma_at_inside(s, j, ':');
}

/// The first slash that is not escaped stands in the same place in parentheses.
proof fn lemma_slash_inside(s: Seq<char>, i: int)
    requires
        0 <= i,
    ensures
        closing_slash(in_parens(s), i + 1) == moved_end(closing_slash(s, i)),
        closing_slash(s, i) matches Some(j) ==> i <= j < s.len(),
    decreases s.len() + 2 - i,
{
    lemma_inside(s);
    let p = in_parens(s);
    if i < s.len() {
        assert(p[i + 1] == s[i]);
        if s[i] == '\\' {
            lemma_slash_inside(s, i + 2);
        } else if s[i] != '/' {
            lemma_slash_inside(s, i + 1);
        }
        if s[i] == '\\' && i + 2 > s.len() {
            assert(closing_slash(s, i + 2) is None);
        }
    } else if i == s.len() {
        assert(closing_slash(p, i + 2) is None);
    }
}

// ---------------------------------------------------------------------------
// Leaves
// ---------------------------------------------------------------------------

/// A term with or without a field name is the same in parentheses where what stands
/// behind the field name is.
proof fn lemma_fielded_inside<T>(
    s: Seq<char>,
    i: int,
    d: Dialect,
    inner: spec_fn(int) -> Reading<T>,
    outer: spec_fn(int) -> Reading<T>,
)
    requires
        0 <= i <= s.len(),
        forall|k: int|
            0 <= k <= s.len() ==> #[trigger] outer(k + 1) == moved(inner(k)) && ends_within(
                s,
                k,
                inner(k),
            ),
    ensures
        fielded(in_parens(s), i + 1, d, outer) == moved(fielded(s, i, d, inner)),
        ends_within(s, i, fielded(s, i, d, inner)),
{
    lemma_field_inside(s, i);
    assert(outer(i + 1) == moved(inner(i)));
    assert(bare_term(i + 1, d, outer) == moved(bare_term(i, d, inner)));
    match field_end(s, i) {
        Some(k) => {
            assert(outer(k + 1) == moved(inner(k)));
            lemma_part(s, i, k - 1);
        },
        None => {},
    }
}

/// An exact term is the same in parentheses.
proof fn lemma_exact_inside(s: Seq<char>, i: int, d: Dialect)
    requires
        0 <= i <= s.len(),
    ensures
        exact_reading(in_parens(s), i + 1, d) == moved(exact_reading(s, i, d)),
        ends_within(s, i, exact_reading(s, i, d)),
{
    let p = in_parens(s);
    let inner = |k: int| term_reading(s, k, d);
    let outer = |k: int| term_reading(p, k, d);
    assert forall|k: int| 0 <= k <= s.len() implies #[trigger] outer(k + 1) == moved(inner(k))
        && ends_within(s, k, inner(k)) by {
        lemma_term_inside(s, k, d.reserved);
        match term_end(s, k, d.reserved) {
            Some(j) => {
                lemma_part(s, k, j);
            },
            None => {},
        }
    }
    lemma_fielded_inside(s, i, d, inner, outer);
}

/// A phrase is the same in parentheses.
proof fn lemma_phrase_inside(s: Seq<char>, i: int, d: Dialect)
    requires
        0 <= i <= s.len(),
    ensures
        phrase_reading(in_parens(s), i + 1, d) == moved(phrase_reading(s, i, d)),
        ends_within(s, i, phrase_reading(s, i, d)),
{
    let p = in_parens(s);
    let inner = |k: int| quoted_reading(s, k);
    let outer = |k: int| quoted_reading(p, k);
    assert forall|k: int| 0 <= k <= s.len() implies #[trigger] outer(k + 1) == moved(inner(k))
        && ends_within(s, k, inner(k)) by {
        lemma_run_inside(s, k + 1, Class::Phrase);
        let j = run_end(s, k + 1, Class::Phrase);
        lemma_at_inside(s, k, '"');
        lemma_at_inside(s, j, '"');
        if at(s, k, '"') && at(s, j, '"') {
            lemma_part(s, k + 1, j);
        }
    }
    lemma_fielded_inside(s, i, d, inner, outer);
}

/// A regular expression is the same in parentheses.
proof fn lemma_regex_inside(s: Seq<char>, i: int, d: Dialect)
    requires
        0 <= i <= s.len(),
    ensures
        regex_query_reading(in_parens(s), i + 1, d) == moved(regex_query_reading(s, i, d)),
        ends_within(s, i, regex_query_reading(s, i, d)),
{
    let p = in_parens(s);
    let inner = |k: int| regex_reading(s, k);
    let outer = |k: int| regex_reading(p, k);
    assert forall|k: int| 0 <= k <= s.len() implies #[trigger] outer(k + 1) == moved(inner(k))
        && ends_within(s, k, inner(k)) by {
        lemma_slash_inside(s, k + 1);
        lemma_at_inside(s, k, '/');
        match closing_slash(s, k + 1) {
            Some(j) => {
                lemma_part(s, k + 1, j);
            },
            None => {},
        }
    }
    lemma_fielded_inside(s, i, d, inner, outer);
}

/// A fuzzy term is the same in parentheses.
proof fn lemma_fuzzy_inside(s: Seq<char>, i: int, d: Dialect)
    requires
        0 <= i <= s.len(),
    ensures
        fuzzy_query_reading(in_parens(s), i + 1, d) == moved(fuzzy_query_reading(s, i, d)),
        ends_within(s, i, fuzzy_query_reading(s, i, d)),
{
    let p = in_parens(s);
    let inner = |k: int| fuzzy_text_reading(s, k, d);
    let outer = |k: int| fuzzy_text_reading(p, k, d);
    assert forall|k: int| 0 <= k <= s.len() implies #[trigger] outer(k + 1) == moved(inner(k))
        && ends_within(s, k, inner(k)) by {
        lemma_run_inside(s, k + 1, Class::Digit);
        let e = run_end(s, k + 1, Class::Digit);
        lemma_at_inside(s, k, '~');
        lemma_at_inside(s, e, '~');
        lemma_term_inside(s, k + 1, d.reserved);
        if at(s, k, '~') {
            if e > k + 1 && at(s, e, '~') {
                lemma_term_inside(s, e + 1, d.reserved);
                lemma_part(s, k + 1, e);
                match term_end(s, e + 1, d.reserved) {
                    Some(j) => {
                        lemma_part(s, e + 1, j);
                    },
                    None => {},
                }
            } else {
                match term_end(s, k + 1, d.reserved) {
                    Some(j) => {
                        lemma_part(s, k + 1, j);
                    },
                    None => {},
                }
            }
        }
    }
    lemma_fielded_inside(s, i, d, inner, outer);
}

/// A bound is the same in parentheses.
proof fn lemma_bound_inside(s: Seq<char>, i: int, kind: BoundKind)
    requires
        0 <= i <= s.len(),
    ensures
        bound_reading(in_parens(s), i + 1, kind) == moved(bound_reading(s, i, kind)),
        ends_within(s, i, bound_reading(s, i, kind)),
{
    lemma_words_inside(s, i);
    lemma_at_inside(s, i, '>');
    lemma_at_inside(s, i, '<');
    match symbol_end(s, i) {
        Some(k) => {
            assert(i < k <= s.len());
            lemma_part(s, i, k);
            lemma_run_inside(s, k, Class::Digit);
            lemma_part(s, k, run_end(s, k, Class::Digit));
            match kind {
                BoundKind::Number => {},
                BoundKind::Text { reserved } => {
                    lemma_term_inside(s, k, reserved);
                    match term_end(s, k, reserved) {
                        Some(j) => {
                            lemma_part(s, k, j);
                        },
                        None => {},
                    }
                },
            }
            assert(bound_value_reading(in_parens(s), k + 1, kind) == moved(
                bound_value_reading(s, k, kind),
            ));
        },
        None => {},
    }
}

/// The bounds that follow are the same in parentheses.
proof fn lemma_more_bounds_inside(
    s: Seq<char>,
    i: int,
    kind: BoundKind,
    acc: Seq<Bound<ScalarView>>,
)
    requires
        0 <= i <= s.len(),
    ensures
        more_bounds(in_parens(s), i + 1, kind, acc) == (
            more_bounds(s, i, kind, acc).0 + 1,
            more_bounds(s, i, kind, acc).1,
        ),
        i <= more_bounds(s, i, kind, acc).0 <= s.len(),
    decreases s.len() - i,
{
    lemma_inside(s);
    lemma_at_inside(s, i, ',');
    if at(s, i, ',') {
        lemma_bound_inside(s, i + 1, kind);
        match bound_reading(s, i + 1, kind) {
            Some((j, b)) => {
                lemma_more_bounds_inside(s, j, kind, acc.push(b));
            },
            None => {},
        }
    }
}

/// A range of one kind is the same in parentheses.
proof fn lemma_range_inside(s: Seq<char>, i: int, kind: BoundKind)
    requires
        0 <= i <= s.len(),
    ensures
        range_of_kind_reading(in_parens(s), i + 1, kind) == moved(
            range_of_kind_reading(s, i, kind),
        ),
        ends_within(s, i, range_of_kind_reading(s, i, kind)),
{
    lemma_field_inside(s, i);
    match field_end(s, i) {
        Some(k) => {
            lemma_bound_inside(s, k, kind);
            lemma_part(s, i, k - 1);
            match bound_reading(s, k, kind) {
                Some((j, b)) => {
                    lemma_more_bounds_inside(s, j, kind, seq![b]);
                },
                None => {},
            }
        },
        None => {},
    }
}

/// A leaf is the same in parentheses.
proof fn lemma_leaf_inside(s: Seq<char>, i: int)
    requires
        0 <= i <= s.len(),
    ensures
        leaf_reading(in_parens(s), i + 1) == moved(leaf_reading(s, i)),
        ends_within(s, i, leaf_reading(s, i)),
{
    let d = full_dialect();
    lemma_fuzzy_inside(s, i, d);
    lemma_exact_inside(s, i, d);
    lemma_phrase_inside(s, i, d);
    lemma_regex_inside(s, i, d);
    lemma_range_inside(s, i, BoundKind::Number);
    lemma_range_inside(s, i, BoundKind::Text { reserved: true });
}

/// An operator ends in the same place in parentheses.
proof fn lemma_operator_inside(s: Seq<char>, i: int, word: Seq<char>)
    requires
        0 <= i <= s.len(),
        word == seq!['O', 'R'] || word == seq!['A', 'N', 'D'],
    ensures
        operator_end(in_parens(s), i + 1, word) == moved_end(operator_end(s, i, word)),
        operator_end(s, i, word) matches Some(k) ==> i < k <= s.len() && in_class(
            Class::Blank,
            s[i],
        ),
{
    lemma_run_inside(s, i, Class::Blank);
    let a = run_end(s, i, Class::Blank);
    lemma_words_inside(s, a);
    if word_at(s, a, word) {
        lemma_run_inside(s, a + word.len(), Class::Blank);
    }
}

/// A negation begins in the same place in parentheses.
proof fn lemma_negation_inside(s: Seq<char>, i: int)
    requires
        0 <= i <= s.len(),
    ensures
        negation_end(in_parens(s), i + 1) == moved_end(negation_end(s, i)),
        negation_end(s, i) matches Some(k) ==> i < k <= s.len(),
{
    lemma_words_inside(s, i);
    if word_at(s, i, seq!['N', 'O', 'T']) {
        lemma_run_inside(s, i + 3, Class::Blank);
    }
}

// ---------------------------------------------------------------------------
// Trees
// ---------------------------------------------------------------------------

/// Whether no tail goes on at `i`, though an operator seems to stand there.
spec fn stuck(s: Seq<char>, i: int) -> bool {
    &&& 0 <= i < s.len()
    &&& in_class(Class::Blank, s[i])
    &&& match operator_end(s, i, seq!['O', 'R']) {
        Some(k) => simple_reading(s, k) is None,
        None => true,
    }
    &&& match operator_end(s, i, seq!['A', 'N', 'D']) {
        Some(k) => disjunction_reading(s, k) is None,
        None => true,
    }
}

/// What reading a text comes to at a place in it, held against what it comes to in
/// parentheses: the same; or else, in parentheses, a tree that takes the closing
/// parenthesis, where without it there is none or one that is stuck before it.
spec fn alike(s: Seq<char>, i: int, inner: Reading<TreeView>, outer: Reading<TreeView>) -> bool {
    &&& ends_within(s, i, inner)
    &&& {
        ||| outer == moved(inner)
        ||| {
            &&& outer matches Some((j, t)) && j == s.len() + 2
            &&& inner matches Some((j, t)) ==> stuck(s, j)
        }
    }
}

/// Tails end where they are stuck.
proof fn lemma_stuck(s: Seq<char>, i: int, left: TreeView)
    requires
        stuck(s, i),
    ensures
        or_tail(s, i, left) == (i, left),
        and_tail(s, i, left) == (i, left),
{
}

/// Tails end with the text.
proof fn lemma_tails_end(p: Seq<char>, left: TreeView)
    ensures
        or_tail(p, p.len() as int, left) == (p.len() as int, left),
        and_tail(p, p.len() as int, left) == (p.len() as int, left),
{
    let n = p.len() as int;
    assert(run_end(p, n, Class::Blank) == n);
    assert(operator_end(p, n, seq!['O', 'R']) is None);
    assert(operator_end(p, n, seq!['A', 'N', 'D']) is None);
}

/// At most one of the operators stands in a place.
proof fn lemma_one_operator(s: Seq<char>, i: int)
    ensures
        operator_end(s, i, seq!['O', 'R']) is None || operator_end(s, i, seq!['A', 'N', 'D'])
            is None,
{
    let a = run_end(s, i, Class::Blank);
    let or = seq!['O', 'R'];
    let and = seq!['A', 'N', 'D'];
    if word_at(s, a, or) && word_at(s, a, and) {
        assert(s.subrange(a, a + 2)[0] == s[a]);
        assert(s.subrange(a, a + 3)[0] == s[a]);
        assert(or[0] == 'O' && and[0] == 'A');
    }
}

/// A tree that no operator divides is read alike in parentheses.
proof fn lemma_simple_inside(s: Seq<char>, i: int)
    requires
        0 <= i <= s.len(),
    ensures
        alike(s, i, simple_reading(s, i), simple_reading(in_parens(s), i + 1)),
    decreases s.len() - i, 1int,
{
    lemma_leaf_inside(s, i);
    if leaf_reading(s, i) is None {
        lemma_parens_inside(s, i);
        lemma_not_inside(s, i);
        if at(s, i, '(') {
            assert(!word_at(s, i, seq!['N', 'O', 'T'])) by {
                if word_at(s, i, seq!['N', 'O', 'T']) {
                    assert(s.subrange(i, i + 3)[0] == s[i]);
                    assert(seq!['N', 'O', 'T'][0] == 'N');
                }
            }
            assert(not_reading(s, i) is None);
            lemma_words_inside(s, i);
            assert(not_reading(in_parens(s), i + 1) is None);
        } else {
            lemma_at_inside(s, i, '(');
            assert(parens_reading(s, i) is None);
            assert(parens_reading(in_parens(s), i + 1) is None);
        }
    }
}

/// A tree in parentheses is read alike in further parentheses.
proof fn lemma_parens_inside(s: Seq<char>, i: int)
    requires
        0 <= i <= s.len(),
    ensures
        alike(s, i, parens_reading(s, i), parens_reading(in_parens(s), i + 1)),
    decreases s.len() - i, 0int,
{
    lemma_at_inside(s, i, '(');
    lemma_inside(s);
    let p = in_parens(s);
    if at(s, i, '(') {
        lemma_expr_inside(s, i + 1);
        match expr_reading(s, i + 1) {
            Some((j, t)) => {
                if j < s.len() {
                    assert(p[j + 1] == s[j]);
                }
                if expr_reading(p, i + 2) != moved(expr_reading(s, i + 1)) {
                    assert(s[j] != ')');
                    assert(parens_reading(s, i) is None);
                    assert(parens_reading(p, i + 1) is None);
                }
            },
            None => {},
        }
    }
}

/// A negation is read alike in parentheses.
proof fn lemma_not_inside(s: Seq<char>, i: int)
    requires
        0 <= i <= s.len(),
    ensures
        alike(s, i, not_reading(s, i), not_reading(in_parens(s), i + 1)),
    decreases s.len() - i, 0int,
{
    lemma_negation_inside(s, i);
    match negation_end(s, i) {
        Some(k) => {
            lemma_expr_inside(s, k);
        },
        None => {},
    }
}

/// The trees that follow after an `OR` are read alike in parentheses.
proof fn lemma_or_tail_inside(s: Seq<char>, i: int, left: TreeView)
    requires
        0 <= i <= s.len(),
    ensures
        i <= or_tail(s, i, left).0 <= s.len(),
        or_tail(in_parens(s), i + 1, left) == (or_tail(s, i, left).0 + 1, or_tail(s, i, left).1) || (
        or_tail(in_parens(s), i + 1, left).0 == s.len() + 2 && stuck(s, or_tail(s, i, left).0)),
    decreases s.len() - i, 2int,
{
    let or = seq!['O', 'R'];
    let p = in_parens(s);
    lemma_inside(s);
    lemma_operator_inside(s, i, or);
    lemma_one_operator(s, i);
    match operator_end(s, i, or) {
        Some(k) => {
            lemma_simple_inside(s, k);
            if simple_reading(p, k + 1) == moved(simple_reading(s, k)) {
                match simple_reading(s, k) {
                    Some((j, right)) => {
                        lemma_or_tail_inside(s, j, or_join(left, right));
                    },
                    None => {},
                }
            } else {
                let (e, t) = simple_reading(p, k + 1)->0;
                lemma_tails_end(p, or_join(left, t));
                assert(or_tail(p, i + 1, left).0 == s.len() + 2);
                match simple_reading(s, k) {
                    Some((j, right)) => {
                        lemma_stuck(s, j, or_join(left, right));
                    },
                    None => {
                        assert(or_tail(s, i, left) == (i, left));
                        assert(stuck(s, i));
                    },
                }
            }
        },
        None => {},
    }
}

/// A disjunction is read alike in parentheses.
proof fn lemma_disjunction_inside(s: Seq<char>, i: int)
    requires
        0 <= i <= s.len(),
    ensures
        alike(s, i, disjunction_reading(s, i), disjunction_reading(in_parens(s), i + 1)),
    decreases s.len() - i, 3int,
{
    let p = in_parens(s);
    lemma_inside(s);
    lemma_simple_inside(s, i);
    if simple_reading(p, i + 1) == moved(simple_reading(s, i)) {
        match simple_reading(s, i) {
            Some((j, t)) => {
                lemma_or_tail_inside(s, j, t);
            },
            None => {},
        }
    } else {
        let (e, u) = simple_reading(p, i + 1)->0;
        lemma_tails_end(p, u);
        match simple_reading(s, i) {
            Some((j, t)) => {
                lemma_stuck(s, j, t);
            },
            None => {},
        }
    }
}

/// The disjunctions that follow after an `AND` are read alike in parentheses.
proof fn lemma_and_tail_inside(s: Seq<char>, i: int, left: TreeView)
    requires
        0 <= i <= s.len(),
    ensures
        i <= and_tail(s, i, left).0 <= s.len(),
        and_tail(in_parens(s), i + 1, left) == (and_tail(s, i, left).0 + 1, and_tail(s, i, left).1)
            || (and_tail(in_parens(s), i + 1, left).0 == s.len() + 2 && stuck(
            s,
            and_tail(s, i, left).0,
        )),
    decreases s.len() - i, 4int,
{
    let and = seq!['A', 'N', 'D'];
    let p = in_parens(s);
    lemma_inside(s);
    lemma_operator_inside(s, i, and);
    lemma_one_operator(s, i);
    match operator_end(s, i, and) {
        Some(k) => {
            lemma_disjunction_inside(s, k);
            if disjunction_reading(p, k + 1) == moved(disjunction_reading(s, k)) {
                match disjunction_reading(s, k) {
                    Some((j, right)) => {
                        lemma_and_tail_inside(s, j, and_join(left, right));
                    },
                    None => {},
                }
            } else {
                let (e, t) = disjunction_reading(p, k + 1)->0;
                lemma_tails_end(p, and_join(left, t));
                assert(and_tail(p, i + 1, left).0 == s.len() + 2);
                match disjunction_reading(s, k) {
                    Some((j, right)) => {
                        lemma_stuck(s, j, and_join(left, right));
                    },
                    None => {
                        assert(and_tail(s, i, left) == (i, left));
                        assert(stuck(s, i));
                    },
                }
            }
        },
        None => {},
    }
}

/// A whole query is read alike in parentheses.
proof fn lemma_expr_inside(s: Seq<char>, i: int)
    requires
        0 <= i <= s.len(),
    ensures
        alike(s, i, expr_reading(s, i), expr_reading(in_parens(s), i + 1)),
    decreases s.len() - i, 5int,
{
    let p = in_parens(s);
    lemma_inside(s);
    lemma_disjunction_inside(s, i);
    if disjunction_reading(p, i + 1) == moved(disjunction_reading(s, i)) {
        match disjunction_reading(s, i) {
            Some((j, t)) => {
                lemma_and_tail_inside(s, j, t);
            },
            None => {},
        }
    } else {
        let (e, u) = disjunction_reading(p, i + 1)->0;
        lemma_tails_end(p, u);
        match disjunction_reading(s, i) {
            Some((j, t)) => {
                lemma_stuck(s, j, t);
            },
            None => {},
        }
    }
}

/// No leaf begins with a parenthesis.
proof fn lemma_no_leaf(p: Seq<char>)
    requires
        at(p, 0, '('),
    ensures
        leaf_reading(p, 0) is None,
{
    let d = full_dialect();
    assert(run_end(p, 0, Class::Identifier) == 0);
    assert(run_end(p, 0, Class::Term) == 0);
    assert(field_end(p, 0) is None);
    assert(fuzzy_reading(p, 0, d.reserved) is None);
    assert(fuzzy_query_reading(p, 0, d) is None);
    assert(exact_reading(p, 0, d) is None);
    assert(quoted_reading(p, 0) is None);
    assert(phrase_reading(p, 0, d) is None);
    assert(regex_reading(p, 0) is None);
    assert(regex_query_reading(p, 0, d) is None);
    assert(range_reading(p, 0) is None);
}

/// Parentheses around a whole query change nothing.
pub proof fn parens_change_nothing(s: Seq<char>)
    ensures
        query_tree(s) matches Some(t) ==> query_tree(in_parens(s)) == Some(t),
{
    match query_tree(s) {
        Some(t) => {
            let n = s.len() as int;
            let p = in_parens(s);
            lemma_inside(s);
            lemma_expr_inside(s, 0);
            assert(expr_reading(p, 1) == Some((n + 1, t)));
            assert(parens_reading(p, 0) == Some((n + 2, t)));
            lemma_no_leaf(p);
            assert(simple_reading(p, 0) == Some((n + 2, t)));
            lemma_tails_end(p, t);
        },
        None => {},
    }
}

/// A search comes to the same with parentheses around its whole text, where that is a
/// query.
pub proof fn parens_keep_the_search(s: Seq<char>, reltime: Option<u32>, now: Option<u128>)
    ensures
        query_tree(s) is Some ==> search_by_clock(in_parens(s), reltime, now) == search_by_clock(
            s,
            reltime,
            now,
        ),
{
    parens_change_nothing(s);
}

} // verus!
