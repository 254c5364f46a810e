//! Conjunctions, disjunctions and negations: the trees of the query language.
use vstd::prelude::*;

use crate::query::ast::{
    lemma_tree_views_push, tree_views, Query, QueryTree, QueryView, TreeView,
};
use crate::query::lexer::{
    at, in_class, is_at, is_word2, is_word3, lemma_run_end, run_end, scan, word_at, words, Class,
};
use crate::query::terms::{
    default_field, exact_reading, exact_term_q_at, field_end, full, full_dialect,
    fuzzy_query_reading, fuzzy_term_q_at, phrase_q_at, phrase_reading, range_q_at, range_reading,
    regex_q_at, regex_query_reading, same_query, Reading, Unreadable,
};
use crate::text::{chars_of, string_of};

verus! {

/// The first of two readings that succeeds.
pub open spec fn either<T>(a: Reading<T>, b: Reading<T>) -> Reading<T> {
    match a {
        Some(r) => Some(r),
        None => b,
    }
}

/// The query without operators at `i`: a fuzzy term, an exact term, a phrase, an
/// expression or a range, the first of these that can be read.
pub open spec fn leaf_reading(s: Seq<char>, i: int) -> Reading<QueryView> {
    let d = full_dialect();
    either(
        fuzzy_query_reading(s, i, d),
        either(
            exact_reading(s, i, d),
            either(
                phrase_reading(s, i, d),
                either(regex_query_reading(s, i, d), range_reading(s, i)),
            ),
        ),
    )
}

/// The end of the operator at `i`: blanks, the word and blanks.
pub open spec fn operator_end(s: Seq<char>, i: int, word: Seq<char>) -> Option<int> {
    let a = run_end(s, i, Class::Blank);
    let b = run_end(s, a + word.len(), Class::Blank);
    if a > i && word_at(s, a, word) && b > a + word.len() {
        Some(b)
    } else {
        None
    }
}

/// The end of the word `NOT` and the blanks behind it at `i`.
pub open spec fn negation_end(s: Seq<char>, i: int) -> Option<int> {
    let b = run_end(s, i + 3, Class::Blank);
    if word_at(s, i, seq!['N', 'O', 'T']) && b > i + 3 {
        Some(b)
    } else {
        None
    }
}

/// The disjunction of two trees: a left-hand disjunction takes the right-hand
/// tree as one more choice.
pub open spec fn or_join(left: TreeView, right: TreeView) -> TreeView {
    match left {
        TreeView::Or(xs) => TreeView::Or(xs.push(right)),
        _ => TreeView::Or(seq![left, right]),
    }
}

/// The conjunction of two trees: a left-hand conjunction takes the right-hand
/// tree as one more part.
pub open spec fn and_join(left: TreeView, right: TreeView) -> TreeView {
    match left {
        TreeView::And(xs) => TreeView::And(xs.push(right)),
        _ => TreeView::And(seq![left, right]),
    }
}

/// The tree at `i` that no operator divides: a leaf, a tree in parentheses or a
/// negation.
pub open spec fn simple_reading(s: Seq<char>, i: int) -> Reading<TreeView>
    decreases s.len() - i, 1int,
{
    match leaf_reading(s, i) {
        Some((j, q)) => Some((j, TreeView::Simple(q))),
        None => either(parens_reading(s, i), not_reading(s, i)),
    }
}

/// The tree in parentheses at `i`.
pub open spec fn parens_reading(s: Seq<char>, i: int) -> Reading<TreeView>
    decreases s.len() - i, 0int,
{
    if at(s, i, '(') {
        match expr_reading(s, i + 1) {
            Some((j, t)) => if at(s, j, ')') {
                Some((j + 1, t))
            } else {
                None
            },
            None => None,
        }
    } else {
        None
    }
}

/// The negation at `i`, which reaches as far as a tree can be read.
pub open spec fn not_reading(s: Seq<char>, i: int) -> Reading<TreeView>
    decreases s.len() - i, 0int,
{
    match negation_end(s, i) {
        Some(k) => {
            proof {
                lemma_run_end(s, i + 3, Class::Blank);
            }
            match expr_reading(s, k) {
                Some((j, t)) => Some((j, TreeView::Not(Box::new(t)))),
                None => None,
            }
        },
        None => None,
    }
}

/// The trees that follow `left` from `i` on, each after an `OR`.
pub open spec fn or_tail(s: Seq<char>, i: int, left: TreeView) -> (int, TreeView)
    decreases s.len() - i, 2int,
{
    match operator_end(s, i, seq!['O', 'R']) {
        Some(k) => if i < k <= s.len() {
            match simple_reading(s, k) {
                Some((j, right)) => if k < j <= s.len() {
                    or_tail(s, j, or_join(left, right))
                } else {
                    (i, left)
                },
                None => (i, left),
            }
        } else {
            (i, left)
        },
        None => (i, left),
    }
}

/// The disjunction at `i`.
pub open spec fn disjunction_reading(s: Seq<char>, i: int) -> Reading<TreeView>
    decreases s.len() - i, 3int,
{
    match simple_reading(s, i) {
        Some((j, t)) => if i < j <= s.len() {
            Some(or_tail(s, j, t))
        } else {
            None
        },
        None => None,
    }
}

/// The disjunctions that follow `left` from `i` on, each after an `AND`.
pub open spec fn and_tail(s: Seq<char>, i: int, left: TreeView) -> (int, TreeView)
    decreases s.len() - i, 4int,
{
    match operator_end(s, i, seq!['A', 'N', 'D']) {
        Some(k) => if i < k <= s.len() {
            match disjunction_reading(s, k) {
                Some((j, right)) => if k < j <= s.len() {
                    and_tail(s, j, and_join(left, right))
                } else {
                    (i, left)
                },
                None => (i, left),
            }
        } else {
            (i, left)
        },
        None => (i, left),
    }
}

/// The whole query at `i`: disjunctions joined by `AND`, which binds less
/// tightly than `OR`.
pub open spec fn expr_reading(s: Seq<char>, i: int) -> Reading<TreeView>
    decreases s.len() - i, 5int,
{
    match disjunction_reading(s, i) {
        Some((j, t)) => if i < j <= s.len() {
            Some(and_tail(s, j, t))
        } else {
            None
        },
        None => None,
    }
}

// ---------------------------------------------------------------------------
// Readers
// ---------------------------------------------------------------------------

/// What a reader gave, held against a reading: the same tree and the same end,
/// past the start.
pub open spec fn same_tree(
    res: Option<(usize, QueryTree)>,
    want: Reading<TreeView>,
    i: int,
    len: int,
) -> bool {
    match (res, want) {
        (Some((j, t)), Some((k, v))) => j == k && t@ == v && i < j <= len,
        (None, None) => true,
        _ => false,
    }
}

/// Reads a query without operators at `i`.
fn leaf_at(chars: &Vec<char>, i: usize) -> (res: Option<(usize, Query)>)
    requires
        i <= chars@.len(),
    ensures
        same_query(res, leaf_reading(chars@, i as int), i as int, chars@.len() as int),
{
    let d = full();
    match fuzzy_term_q_at(chars, i, &d) {
        Some(r) => {
            return Some(r);
        },
        None => {},
    }
    match exact_term_q_at(chars, i, &d) {
        Some(r) => {
            return Some(r);
        },
        None => {},
    }
    match phrase_q_at(chars, i, &d) {
        Some(r) => {
            return Some(r);
        },
        None => {},
    }
    match regex_q_at(chars, i, &d) {
        Some(r) => {
            return Some(r);
        },
        None => {},
    }
    range_q_at(chars, i)
}

/// Reads the operator `OR` or `AND` at `i`.
fn operator_at(chars: &Vec<char>, i: usize, conjunction: bool) -> (res: Option<usize>)
    requires
        i <= chars@.len(),
    ensures
        match (
            res,
            operator_end(
                chars@,
                i as int,
                if conjunction {
                    seq!['A', 'N', 'D']
                } else {
                    seq!['O', 'R']
                },
            ),
        ) {
            (Some(k), Some(k2)) => k == k2 && i < k <= chars@.len(),
            (None, None) => true,
            _ => false,
        },
{
    let a = scan(chars, i, Class::Blank);
    if a == i {
        return None;
    }
    let word_end: usize = if conjunction {
        if !is_word3(chars, a, 'A', 'N', 'D') {
            return None;
        }
        a + 3
    } else {
        if !is_word2(chars, a, 'O', 'R') {
            return None;
        }
        a + 2
    };
    let b = scan(chars, word_end, Class::Blank);
    if b > word_end {
        Some(b)
    } else {
        None
    }
}

/// Joins two trees by `OR`.
fn join_or(left: QueryTree, right: QueryTree) -> (res: QueryTree)
    ensures
        res@ == or_join(left@, right@),
{
    match left {
        QueryTree::Or(xs) => {
            proof {
                lemma_tree_views_push(xs@, right);
            }
            let mut xs = xs;
            xs.push(right);
            QueryTree::Or(xs)
        },
        left => QueryTree::Or(pair_of(left, right)),
    }
}

/// Joins two trees by `AND`.
fn join_and(left: QueryTree, right: QueryTree) -> (res: QueryTree)
    ensures
        res@ == and_join(left@, right@),
{
    match left {
        QueryTree::And(xs) => {
            proof {
                lemma_tree_views_push(xs@, right);
            }
            let mut xs = xs;
            xs.push(right);
            QueryTree::And(xs)
        },
        left => QueryTree::And(pair_of(left, right)),
    }
}

/// A list of two trees.
fn pair_of(left: QueryTree, right: QueryTree) -> (res: Vec<QueryTree>)
    ensures
        tree_views(res@) == seq![left@, right@],
{
    let mut xs: Vec<QueryTree> = Vec::new();
    proof {
        lemma_tree_views_push(xs@, left);
        lemma_tree_views_push(xs@.push(left), right);
        assert(tree_views(xs@.push(left).push(right)) =~= seq![left@, right@]);
    }
    xs.push(left);
    xs.push(right);
    xs
}

/// Reads a tree that no operator divides at `i`.
pub fn simple_at(chars: &Vec<char>, i: usize) -> (res: Option<(usize, QueryTree)>)
    requires
        i <= chars@.len(),
    ensures
        same_tree(res, simple_reading(chars@, i as int), i as int, chars@.len() as int),
    decreases chars@.len() - i, 1int,
{
    match leaf_at(chars, i) {
        Some((j, q)) => {
            return Some((j, QueryTree::Simple(q)));
        },
        None => {},
    }
    match parens_at(chars, i) {
        Some(r) => Some(r),
        None => not_at(chars, i),
    }
}

/// Reads a tree in parentheses at `i`.
pub fn parens_at(chars: &Vec<char>, i: usize) -> (res: Option<(usize, QueryTree)>)
    requires
        i <= chars@.len(),
    ensures
        same_tree(res, parens_reading(chars@, i as int), i as int, chars@.len() as int),
    decreases chars@.len() - i, 0int,
{
    if !is_at(chars, i, '(') {
        return None;
    }
    match expr_at(chars, i + 1) {
        Some((j, t)) => if is_at(chars, j, ')') {
            Some((j + 1, t))
        } else {
            None
        },
        None => None,
    }
}

/// Reads a negation at `i`.
pub fn not_at(chars: &Vec<char>, i: usize) -> (res: Option<(usize, QueryTree)>)
    requires
        i <= chars@.len(),
    ensures
        same_tree(res, not_reading(chars@, i as int), i as int, chars@.len() as int),
    decreases chars@.len() - i, 0int,
{
    if !is_word3(chars, i, 'N', 'O', 'T') {
        return None;
    }
    let k = scan(chars, i + 3, Class::Blank);
    if k == i + 3 {
        return None;
    }
    match expr_at(chars, k) {
        Some((j, t)) => Some((j, QueryTree::Not(Box::new(t)))),
        None => None,
    }
}

/// Reads a disjunction at `i`.
pub fn disjunction_at(chars: &Vec<char>, i: usize) -> (res: Option<(usize, QueryTree)>)
    requires
        i <= chars@.len(),
    ensures
        same_tree(res, disjunction_reading(chars@, i as int), i as int, chars@.len() as int),
    decreases chars@.len() - i, 3int,
{
    let (mut j, mut left): (usize, QueryTree) = match simple_at(chars, i) {
        Some(r) => r,
        None => {
            return None;
        },
    };
    let ghost start = or_tail(chars@, j as int, left@);
    loop
        invariant
            i < j <= chars@.len(),
            start == or_tail(chars@, j as int, left@),
            disjunction_reading(chars@, i as int) == Some(start),
        decreases chars@.len() - j,
    {
        match operator_at(chars, j, false) {
            Some(k) => match simple_at(chars, k) {
                Some((next, right)) => {
                    left = join_or(left, right);
                    j = next;
                },
                None => {
                    return Some((j, left));
                },
            },
            None => {
                return Some((j, left));
            },
        }
    }
}

/// Reads a whole query at `i`.
pub fn expr_at(chars: &Vec<char>, i: usize) -> (res: Option<(usize, QueryTree)>)
    requires
        i <= chars@.len(),
    ensures
        same_tree(res, expr_reading(chars@, i as int), i as int, chars@.len() as int),
    decreases chars@.len() - i, 5int,
{
    let (mut j, mut left): (usize, QueryTree) = match disjunction_at(chars, i) {
        Some(r) => r,
        None => {
            return None;
        },
    };
    let ghost start = and_tail(chars@, j as int, left@);
    loop
        invariant
            i < j <= chars@.len(),
            start == and_tail(chars@, j as int, left@),
            expr_reading(chars@, i as int) == Some(start),
        decreases chars@.len() - j,
    {
        match operator_at(chars, j, true) {
            Some(k) => match disjunction_at(chars, k) {
                Some((next, right)) => {
                    left = join_and(left, right);
                    j = next;
                },
                None => {
                    return Some((j, left));
                },
            },
            None => {
                return Some((j, left));
            },
        }
    }
}

/// What a reader of texts gave, held against the reading at the start of the
/// text: what was read, and the text behind it.
pub open spec fn reads_tree(
    res: Result<(String, QueryTree), Unreadable>,
    s: Seq<char>,
    want: Reading<TreeView>,
) -> bool {
    match (res, want) {
        (Ok((rest, t)), Some((j, v))) => rest@ == s.skip(j) && t@ == v && 0 <= j <= s.len(),
        (Err(_), None) => true,
        _ => false,
    }
}

/// Reads a query as far as one can be read.
pub fn expr(input: &str) -> (res: Result<(String, QueryTree), Unreadable>)
    ensures
        reads_tree(res, input@, expr_reading(input@, 0)),
{
    let chars = chars_of(input);
    match expr_at(&chars, 0) {
        Some((j, t)) => Ok((string_of(&chars, j, chars.len()), t)),
        None => Err(Unreadable),
    }
}

/// The tree that the whole text denotes. `None` where the text is no query.
pub open spec fn query_tree(s: Seq<char>) -> Option<TreeView> {
    match expr_reading(s, 0) {
        Some((j, t)) => if j == s.len() {
            Some(t)
        } else {
            None
        },
        None => None,
    }
}

/// Reads a text that is a query from end to end.
pub fn parse_tree(input: &str) -> (res: Result<QueryTree, Unreadable>)
    ensures
        match (res, query_tree(input@)) {
            (Ok(t), Some(v)) => t@ == v,
            (Err(_), None) => true,
            _ => false,
        },
{
    let chars = chars_of(input);
    match expr_at(&chars, 0) {
        Some((j, t)) => if j == chars.len() {
            Ok(t)
        } else {
            Err(Unreadable)
        },
        None => Err(Unreadable),
    }
}

// ---------------------------------------------------------------------------
// Laws
// ---------------------------------------------------------------------------

/// A tail ends at or behind its start, within the text.
proof fn lemma_and_tail(s: Seq<char>, i: int, left: TreeView)
    requires
        0 <= i <= s.len(),
    ensures
        i <= and_tail(s, i, left).0 <= s.len(),
    decreases s.len() - i,
{
    match operator_end(s, i, seq!['A', 'N', 'D']) {
        Some(k) => if i < k <= s.len() {
            match disjunction_reading(s, k) {
                Some((j, right)) => if k < j <= s.len() {
                    lemma_and_tail(s, j, and_join(left, right));
                },
                None => {},
            }
        },
        None => {},
    }
}

/// A query takes at least one character, and ends within the text.
pub proof fn query_ends_within(s: Seq<char>, i: int)
    requires
        0 <= i <= s.len(),
    ensures
        expr_reading(s, i) matches Some((j, t)) ==> i < j <= s.len(),
{
    match disjunction_reading(s, i) {
        Some((j, t)) => if i < j <= s.len() {
            lemma_and_tail(s, j, t);
        },
        None => {},
    }
}

/// A run ends where its class does.
proof fn lemma_run_to(s: Seq<char>, i: int, to: int, class: Class)
    requires
        0 <= i <= to <= s.len(),
        forall|j: int| i <= j < to ==> in_class(class, #[trigger] s[j]),
        to < s.len() ==> !in_class(class, s[to]),
    ensures
        run_end(s, i, class) == to,
    decreases to - i,
{
    if i < to {
        lemma_run_to(s, i + 1, to, class);
    }
}

/// A text that is one leaf from end to end is read as that leaf.
proof fn lemma_only_leaf(s: Seq<char>, q: QueryView)
    requires
        s.len() > 0,
        leaf_reading(s, 0) == Some((s.len() as int, q)),
    ensures
        query_tree(s) == Some(TreeView::Simple(q)),
{
    let n = s.len() as int;
    assert(run_end(s, n, Class::Blank) == n);
    let t = TreeView::Simple(q);
    assert(simple_reading(s, 0) == Some((n, t)));
    assert(operator_end(s, n, seq!['O', 'R']) is None);
    assert(operator_end(s, n, seq!['A', 'N', 'D']) is None);
    assert(or_tail(s, n, t) == (n, t));
    assert(and_tail(s, n, t) == (n, t));
}

/// Whether a text is a term: letters, digits and underscores, not beginning with
/// `NOT`.
pub open spec fn is_term(t: Seq<char>) -> bool {
    &&& t.len() > 0
    &&& forall|j: int| 0 <= j < t.len() ==> in_class(Class::Term, #[trigger] t[j])
    &&& !word_at(t, 0, seq!['N', 'O', 'T'])
}

/// A term alone is a search for that term in the default field.
pub proof fn term_alone(t: Seq<char>)
    ensures
        is_term(t) ==> query_tree(t) == Some(
            TreeView::Simple(QueryView::Exact { field: default_field(), term: t }),
        ),
{
    if is_term(t) {
        let n = t.len() as int;
        let d = full_dialect();
        lemma_run_end(t, 0, Class::Identifier);
        lemma_run_to(t, 0, n, Class::Term);
        let j = run_end(t, 0, Class::Identifier);
        assert(!at(t, j, ':')) by {
            if j < n {
                assert(in_class(Class::Term, t[j]));
            }
        }
        assert(field_end(t, 0) is None);
        assert(!at(t, 0, '~')) by {
            assert(in_class(Class::Term, t[0]));
        }
        assert(fuzzy_query_reading(t, 0, d) is None);
        assert(t.subrange(0, n) =~= t);
        lemma_only_leaf(t, QueryView::Exact { field: default_field(), term: t });
    }
}

/// A field name, a colon and a term are a search for that term in that field.
pub proof fn field_and_term(f: Seq<char>, t: Seq<char>)
    requires
        f.len() > 0,
        forall|j: int| 0 <= j < f.len() ==> ('a' <= #[trigger] f[j] && f[j] <= 'z') || f[j] == '_',
    ensures
        is_term(t) ==> query_tree(f + seq![':'] + t) == Some(
            TreeView::Simple(QueryView::Exact { field: f, term: t }),
        ),
{
    if is_term(t) {
        let s = f + seq![':'] + t;
        let k = f.len() as int;
        let n = s.len() as int;
        let d = full_dialect();
        assert forall|j: int| 0 <= j < k implies in_class(Class::Identifier, #[trigger] s[j]) by {
            assert(s[j] == f[j]);
        }
        lemma_run_to(s, 0, k, Class::Identifier);
        assert(field_end(s, 0) == Some(k + 1));
        assert forall|j: int| k + 1 <= j < n implies in_class(Class::Term, #[trigger] s[j]) by {
            assert(s[j] == t[j - k - 1]);
        }
        lemma_run_to(s, k + 1, n, Class::Term);
        assert(s.subrange(k + 1, n) =~= t);
        assert(s.subrange(0, k) =~= f);
        assert(!word_at(s, k + 1, seq!['N', 'O', 'T'])) by {
            if word_at(s, k + 1, seq!['N', 'O', 'T']) {
                assert(t.subrange(0, 3) =~= s.subrange(k + 1, k + 4));
            }
        }
        assert(!at(s, k + 1, '~')) by {
            assert(in_class(Class::Term, s[k + 1]));
        }
        assert(!at(s, 0, '~')) by {
            assert(s[0] == f[0]);
        }
        assert(fuzzy_query_reading(s, 0, d) is None);
        lemma_only_leaf(s, QueryView::Exact { field: f, term: t });
    }
}

/// Whether a text can stand between quotes: letters, digits and white space.
pub open spec fn is_phrase(p: Seq<char>) -> bool {
    &&& p.len() > 0
    &&& forall|j: int| 0 <= j < p.len() ==> in_class(Class::Phrase, #[trigger] p[j])
}

/// A phrase in quotes alone is a search for its words, in a row, in the default
/// field.
pub proof fn phrase_alone(p: Seq<char>)
    ensures
        is_phrase(p) ==> query_tree(seq!['"'] + p + seq!['"']) == Some(
            TreeView::Simple(QueryView::Phrase { field: default_field(), terms: words(p) }),
        ),
{
    if is_phrase(p) {
        let s = seq!['"'] + p + seq!['"'];
        let n = s.len() as int;
        let d = full_dialect();
        assert(s[0] == '"' && s[n - 1] == '"');
        assert(run_end(s, 0, Class::Identifier) == 0);
        assert(field_end(s, 0) is None);
        assert(fuzzy_query_reading(s, 0, d) is None);
        assert(run_end(s, 0, Class::Term) == 0);
        assert(exact_reading(s, 0, d) is None);
        assert forall|j: int| 1 <= j < n - 1 implies in_class(Class::Phrase, #[trigger] s[j]) by {
            assert(s[j] == p[j - 1]);
        }
        lemma_run_to(s, 1, n - 1, Class::Phrase);
        assert(s.subrange(1, n - 1) =~= p);
        lemma_only_leaf(s, QueryView::Phrase { field: default_field(), terms: words(p) });
    }
}

} // verus!
