//! Phrases, ranges and searches of single fields.
use vstd::prelude::*;

use crate::laws::query::{
    is_name, is_pattern, is_word, lemma_field, lemma_nothing_left_out, lemma_run_to, of_words,
};
use crate::number::{decimal, digits_read_back};
use crate::query::ast::{QueryView, RangeView, ScalarView, TreeView};
use crate::query::grammar::{query_tree, simple_reading};
use crate::query::lexer::{
    at, in_class, lemma_run_end, run_end, unicode_whitespace, word_at, words, words_from, Class,
};
use crate::query::terms::{
    bound_reading, bound_value_reading, bounds_range, closing_slash, exact_reading, field_dialect,
    field_end, full_dialect, fuzzy_query_reading, fuzzy_reading, more_bounds, phrase_reading,
    quoted_reading, range_of_kind_reading, range_reading, regex_query_reading, regex_reading,
    symbol_end, term_end, Bound, BoundKind,
};

verus! {

// ---------------------------------------------------------------------------
// Words of phrases
// ---------------------------------------------------------------------------

/// Whether a character is white space: a space, a tab, a line feed, a vertical tab, a form
/// feed or a carriage return, or one of those beyond ASCII.
pub open spec fn is_white(c: char) -> bool {
    ||| c == ' '
    ||| c == '\t'
    ||| c == '\n'
    ||| c == '\x0b'
    ||| c == '\x0c'
    ||| c == '\r'
    ||| c > '\x7f' && unicode_whitespace(c)
}

/// What stands behind a text has the same words there as alone.
proof fn lemma_words_behind(a: Seq<char>, b: Seq<char>, i: int)
    requires
        0 <= i <= b.len(),
    ensures
        words_from(a + b, a.len() + i) == words_from(b, i),
    decreases b.len() - i,
{
    let s = a + b;
    let n = a.len() as int;
    lemma_run_behind(a, b, i, Class::White);
    lemma_run_end(b, i, Class::White);
    let start = run_end(b, i, Class::White);
    lemma_run_behind(a, b, start, Class::Solid);
    lemma_run_end(b, start, Class::Solid);
    let end = run_end(b, start, Class::Solid);
    if start < end {
        lemma_words_behind(a, b, end);
        assert(s.subrange(n + start, n + end) =~= b.subrange(start, end));
    }
}

/// What stands behind a text has the same runs there as alone.
proof fn lemma_run_behind(a: Seq<char>, b: Seq<char>, i: int, class: Class)
    requires
        0 <= i <= b.len(),
    ensures
        run_end(a + b, a.len() + i, class) == a.len() + run_end(b, i, class),
    decreases b.len() - i,
{
    if i < b.len() {
        assert((a + b)[a.len() + i] == b[i]);
        lemma_run_behind(a, b, i + 1, class);
    }
}

/// White space before a text adds no words.
proof fn lemma_white_skipped(s: Seq<char>, i: int, k: int)
    requires
        0 <= i <= k <= s.len(),
        forall|j: int| i <= j < k ==> in_class(Class::White, #[trigger] s[j]),
    ensures
        words_from(s, i) == words_from(s, k),
    decreases k - i,
{
    if i < k {
        lemma_white_skipped(s, i + 1, k);
        assert(run_end(s, i, Class::White) == run_end(s, i + 1, Class::White));
        lemma_run_end(s, i + 1, Class::White);
    }
}

/// The words of a text are what stands between its white space, in their order, however
/// much of it there is.
#[verifier::rlimit(60)]
#[verifier::spinoff_prover]
pub proof fn white_space_divides_words(a: Seq<char>, gap: Seq<char>, b: Seq<char>)
    ensures
        (forall|i: int| 0 <= i < gap.len() ==> is_white(#[trigger] gap[i])) ==> words(gap + b)
            == words(b),
        a.len() > 0 && (forall|i: int| 0 <= i < a.len() ==> !is_white(#[trigger] a[i])) ==> words(a)
            == seq![a],
        a.len() > 0 && gap.len() > 0 && (forall|i: int|
            0 <= i < a.len() ==> !is_white(#[trigger] a[i])) && (forall|i: int|
            0 <= i < gap.len() ==> is_white(#[trigger] gap[i])) ==> words(a + gap + b) == seq![a]
            + words(b),
        words(Seq::empty()).len() == 0,
{
    if forall|i: int| 0 <= i < gap.len() ==> is_white(#[trigger] gap[i]) {
        let s = gap + b;
        assert forall|j: int| 0 <= j < gap.len() implies in_class(Class::White, #[trigger] s[j]) by {
            assert(s[j] == gap[j]);
        }
        lemma_white_skipped(s, 0, gap.len() as int);
        lemma_words_behind(gap, b, 0);
    }
    if a.len() > 0 && (forall|i: int| 0 <= i < a.len() ==> !is_white(#[trigger] a[i])) {
        let n = a.len() as int;
        assert(!is_white(a[0]));
        assert(run_end(a, 0, Class::White) == 0);
        assert forall|j: int| 0 <= j < n implies in_class(Class::Solid, #[trigger] a[j]) by {
            assert(!is_white(a[j]));
        }
        lemma_run_to(a, 0, n, Class::Solid);
        assert(a.subrange(0, n) =~= a);
        assert(run_end(a, n, Class::White) == n);
        assert(run_end(a, n, Class::Solid) == n);
        assert(words_from(a, n) =~= Seq::<Seq<char>>::empty());
        assert(seq![a] + Seq::<Seq<char>>::empty() =~= seq![a]);
        if gap.len() > 0 && (forall|i: int| 0 <= i < gap.len() ==> is_white(#[trigger] gap[i])) {
            let s = a + gap + b;
            assert(s[0] == a[0]);
            assert(run_end(s, 0, Class::White) == 0);
            assert forall|j: int| 0 <= j < n implies in_class(Class::Solid, #[trigger] s[j]) by {
                assert(s[j] == a[j]);
                assert(!is_white(a[j]));
            }
            assert(s[n] == gap[0] && is_white(gap[0]));
            lemma_run_to(s, 0, n, Class::Solid);
            assert(s.subrange(0, n) =~= a);
            assert(s =~= a + (gap + b));
            lemma_words_behind(a, gap + b, 0);
        }
    }
}

/// Whether a character can stand in a phrase: a letter, a digit or white space.
pub open spec fn of_phrases(c: char) -> bool {
    c != '_' && of_words(c) || is_white(c)
}

/// Letters, digits and white space between quotes are a search for the words among them.
pub proof fn phrase_is_searched_in_messages(p: Seq<char>)
    ensures
        p.len() > 0 && (forall|i: int| 0 <= i < p.len() ==> of_phrases(#[trigger] p[i]))
            ==> query_tree(seq!['"'] + p + seq!['"']) == Some(
            TreeView::Simple(QueryView::Phrase { field: "message"@, terms: words(p) }),
        ),
{
    if p.len() > 0 && (forall|i: int| 0 <= i < p.len() ==> of_phrases(#[trigger] p[i])) {
        assert forall|j: int| 0 <= j < p.len() implies in_class(Class::Phrase, #[trigger] p[j]) by {
            assert(of_phrases(p[j]));
        }
        crate::query::grammar::phrase_alone(p);
    }
}

/// Nothing else can stand between quotes: not even nothing.
pub proof fn odd_phrase_is_no_query(p: Seq<char>, c: char, rest: Seq<char>)
    ensures
        !of_phrases(c) && c != '"' && (forall|i: int|
            0 <= i < p.len() ==> of_phrases(#[trigger] p[i])) ==> query_tree(
            seq!['"'] + p + seq![c] + rest,
        ) is None,
        query_tree(seq!['"', '"'] + rest) is None,
{
    if !of_phrases(c) && c != '"' && (forall|i: int|
        0 <= i < p.len() ==> of_phrases(#[trigger] p[i])) {
        let s = seq!['"'] + p + seq![c] + rest;
        let n = p.len() as int + 1;
        assert(s[0] == '"' && s[n] == c);
        assert forall|j: int| 1 <= j < n implies in_class(Class::Phrase, #[trigger] s[j]) by {
            assert(s[j] == p[j - 1]);
            assert(of_phrases(p[j - 1]));
        }
        lemma_run_to(s, 1, n, Class::Phrase);
        lemma_no_quote(s);
    }
    let s = seq!['"', '"'] + rest;
    assert(s[0] == '"' && s[1] == '"');
    assert(run_end(s, 1, Class::Phrase) == 1);
    lemma_no_quote(s);
}

/// A quote that nothing can be read behind.
proof fn lemma_no_quote(s: Seq<char>)
    requires
        s.len() > 0,
        s[0] == '"',
        quoted_reading(s, 0) is None,
    ensures
        query_tree(s) is None,
{
    let d = full_dialect();
    assert(run_end(s, 0, Class::Identifier) == 0);
    assert(field_end(s, 0) is None);
    assert(run_end(s, 0, Class::Term) == 0);
    assert(fuzzy_query_reading(s, 0, d) is None);
    assert(exact_reading(s, 0, d) is None);
    assert(phrase_reading(s, 0, d) is None);
    assert(regex_reading(s, 0) is None);
    assert(regex_query_reading(s, 0, d) is None);
    assert(range_reading(s, 0) is None);
    if word_at(s, 0, seq!['N', 'O', 'T']) {
        assert(s.subrange(0, 3)[0] == seq!['N', 'O', 'T'][0]);
    }
    assert(simple_reading(s, 0) is None);
}

// ---------------------------------------------------------------------------
// Searches of single fields
// ---------------------------------------------------------------------------

/// Whether a text is a term: letters, digits and underscores.
pub open spec fn is_term(t: Seq<char>) -> bool {
    &&& t.len() > 0
    &&& forall|i: int| 0 <= i < t.len() ==> of_words(#[trigger] t[i])
}

/// Whether a part of a text stands at a place.
spec fn holds(s: Seq<char>, i: int, part: Seq<char>) -> bool {
    &&& 0 <= i && i + part.len() <= s.len()
    &&& forall|k: int| 0 <= k < part.len() ==> #[trigger] s[i + k] == part[k]
}

/// A term ends where something else follows it.
proof fn lemma_term(s: Seq<char>, i: int, t: Seq<char>, reserved: bool)
    requires
        is_term(t),
        reserved ==> is_word(t),
        holds(s, i, t),
        i + t.len() < s.len() ==> !of_words(s[i + t.len()]),
    ensures
        term_end(s, i, reserved) == Some(i + t.len() as int),
        s.subrange(i, i + t.len()) == t,
{
    let e = i + t.len();
    assert forall|j: int| i <= j < e implies in_class(Class::Term, #[trigger] s[j]) by {
        assert(s[i + (j - i)] == t[j - i]);
        assert(of_words(t[j - i]));
    }
    lemma_run_to(s, i, e, Class::Term);
    assert forall|k: int| 0 <= k < t.len() implies s.subrange(i, e)[k] == t[k] by {
        assert(s[i + k] == t[k]);
    }
    assert(s.subrange(i, e) =~= t);
    let w = seq!['N', 'O', 'T'];
    if reserved && word_at(s, i, w) {
        let part = s.subrange(i, i + 3);
        assert(part[0] == w[0] && part[1] == w[1] && part[2] == w[2]);
        assert(s[i] == 'N' && s[i + 1] == 'O' && s[i + 2] == 'T');
        if t.len() >= 3 {
            assert(s[i + 0] == t[0] && s[i + 1] == t[1] && s[i + 2] == t[2]);
        } else {
            assert(of_words(s[e]));
        }
    }
}

/// A field and a term are a search for the term in the field, whatever the term begins
/// with; a term without a field is none.
pub proof fn term_of_a_field(f: Seq<char>, t: Seq<char>)
    ensures
        is_name(f) && is_term(t) ==> exact_reading(f + seq![':'] + t, 0, field_dialect()) == Some(
            ((f.len() + 1 + t.len()) as int, QueryView::Exact { field: f, term: t }),
        ),
        is_term(t) ==> exact_reading(t, 0, field_dialect()) is None,
{
    let d = field_dialect();
    if is_name(f) && is_term(t) {
        let s = f + seq![':'] + t;
        lemma_field(f, t);
        lemma_term(s, f.len() as int + 1, t, false);
    }
    if is_term(t) {
        lemma_run_end(t, 0, Class::Identifier);
        let j = run_end(t, 0, Class::Identifier);
        if j < t.len() {
            assert(of_words(t[j]));
        }
        assert(field_end(t, 0) is None);
    }
}

/// A field, a tilde and a term are a search for what differs from the term in up to three
/// letters.
pub proof fn fuzzy_term_of_a_field(f: Seq<char>, t: Seq<char>)
    ensures
        is_name(f) && is_term(t) ==> fuzzy_query_reading(
            f + seq![':', '~'] + t,
            0,
            field_dialect(),
        ) == Some(
            (
                (f.len() + 2 + t.len()) as int,
                QueryView::Fuzzy { field: f, value: t, distance: 3, transposition: true },
            ),
        ),
{
    if is_name(f) && is_term(t) {
        let rest = seq!['~'] + t;
        let s = f + seq![':', '~'] + t;
        let k = f.len() as int + 1;
        assert(s =~= f + seq![':'] + rest);
        lemma_field(f, rest);
        assert(s[k + 0] == rest[0]);
        assert forall|j: int| 0 <= j < t.len() implies #[trigger] s[k + 1 + j] == t[j] by {
            assert(s[k + (1 + j)] == rest[1 + j]);
        }
        lemma_term(s, k + 1, t, false);
        lemma_run_end(s, k + 1, Class::Digit);
        let e = run_end(s, k + 1, Class::Digit);
        assert(!at(s, e, '~')) by {
            if e < s.len() {
                assert(s[k + 1 + (e - k - 1)] == t[e - k - 1]);
                assert(of_words(t[e - k - 1]));
            }
        }
        assert(fuzzy_reading(s, k, false) == Some((s.len() as int, None::<(int, int)>, k + 1)));
    }
}

/// A field and a phrase are a search for the words of the phrase in the field.
#[verifier::rlimit(60)]
#[verifier::spinoff_prover]
pub proof fn phrase_of_a_field(f: Seq<char>, p: Seq<char>)
    ensures
        is_name(f) && p.len() > 0 && (forall|i: int| 0 <= i < p.len() ==> of_phrases(#[trigger] p[i]))
            ==> phrase_reading(f + seq![':'] + (seq!['"'] + p + seq!['"']), 0, field_dialect())
            == Some(
            (
                (f.len() + 3 + p.len()) as int,
                QueryView::Phrase { field: f, terms: words(p) },
            ),
        ),
{
    if is_name(f) && p.len() > 0 && (forall|i: int|
        0 <= i < p.len() ==> of_phrases(#[trigger] p[i])) {
        let rest = seq!['"'] + p + seq!['"'];
        let s = f + seq![':'] + rest;
        let k = f.len() as int + 1;
        let e = k + 1 + p.len();
        lemma_field(f, rest);
        assert(s[k + 0] == rest[0]);
        assert(s[k + (1 + p.len())] == rest[1 + p.len() as int]);
        assert forall|j: int| k + 1 <= j < e implies in_class(Class::Phrase, #[trigger] s[j]) by {
            assert(s[k + (j - k)] == rest[j - k]);
            assert(rest[j - k] == p[j - k - 1]);
            assert(of_phrases(p[j - k - 1]));
        }
        lemma_run_to(s, k + 1, e, Class::Phrase);
        assert forall|j: int| 0 <= j < p.len() implies s.subrange(k + 1, e)[j] == p[j] by {
            assert(s[k + (1 + j)] == rest[1 + j]);
        }
        assert(s.subrange(k + 1, e) =~= p);
    }
}

/// A field, a number between tildes and a term are a search for what differs from the term
/// in up to so many letters; there is none where the number exceeds 255.
#[verifier::rlimit(60)]
#[verifier::spinoff_prover]
pub proof fn fuzzy_distance_of_a_field(f: Seq<char>, n: nat, t: Seq<char>)
    ensures
        is_name(f) && is_term(t) ==> fuzzy_query_reading(
            f + seq![':'] + (seq!['~'] + decimal(n) + seq!['~'] + t),
            0,
            field_dialect(),
        ) == (if n <= 255 {
            Some(
                (
                    (f.len() + 3 + decimal(n).len() + t.len()) as int,
                    QueryView::Fuzzy {
                        field: f,
                        value: t,
                        distance: n as u8,
                        transposition: true,
                    },
                ),
            )
        } else {
            None
        }),
{
    if is_name(f) && is_term(t) {
        let g = decimal(n);
        let rest = seq!['~'] + g + seq!['~'] + t;
        let s = f + seq![':'] + rest;
        let k = f.len() as int + 1;
        let e = k + 1 + g.len();
        lemma_field(f, rest);
        lemma_decimal(n);
        digits_read_back(n, 10);
        assert(s[k + 0] == rest[0]);
        assert(s[k + (1 + g.len())] == rest[1 + g.len() as int]);
        assert forall|j: int| k + 1 <= j < e implies in_class(Class::Digit, #[trigger] s[j]) by {
            assert(s[k + (j - k)] == rest[j - k]);
            assert(rest[j - k] == g[j - k - 1]);
        }
        lemma_run_to(s, k + 1, e, Class::Digit);
        assert forall|j: int| 0 <= j < g.len() implies s.subrange(k + 1, e)[j] == g[j] by {
            assert(s[k + (1 + j)] == rest[1 + j]);
        }
        assert(s.subrange(k + 1, e) =~= g);
        assert forall|j: int| 0 <= j < t.len() implies #[trigger] s[e + 1 + j] == t[j] by {
            assert(s[k + (2 + g.len() + j)] == rest[2 + g.len() + j]);
        }
        lemma_term(s, e + 1, t, false);
        assert(fuzzy_reading(s, k, false) == Some((s.len() as int, Some((k + 1, e)), e + 1)));
    }
}

/// The slash behind a pattern closes it, wherever it stands.
proof fn lemma_closed(s: Seq<char>, k: int, p: Seq<char>, i: int)
    requires
        0 <= i <= p.len(),
        is_pattern(p.skip(i)),
        holds(s, k, p),
        k + p.len() < s.len(),
        s[k + p.len()] == '/',
    ensures
        closing_slash(s, k + i) == Some(k + p.len() as int),
    decreases p.len() - i,
{
    let rest = p.skip(i);
    if i < p.len() {
        assert(s[k + i] == p[i] && rest[0] == p[i]);
        if p[i] == '\\' {
            assert(rest.skip(2) =~= p.skip(i + 2));
            lemma_closed(s, k, p, i + 2);
        } else {
            assert(rest.skip(1) =~= p.skip(i + 1));
            lemma_closed(s, k, p, i + 1);
        }
    }
}

/// An expression between slashes is read as it is, whatever follows it, where no slash
/// stands in it.
pub proof fn expression_ends_with_its_slash(p: Seq<char>, rest: Seq<char>)
    requires
        p.len() > 0,
        is_pattern(p),
        forall|j: int| 0 <= j < p.len() ==> #[trigger] p[j] != '/',
    ensures
        regex_reading(seq!['/'] + p + seq!['/'] + rest, 0) == Some((p.len() as int + 2, p)),
{
    let s = seq!['/'] + p + seq!['/'] + rest;
    assert(s[0] == '/' && s[1 + p.len() as int] == '/');
    assert(p.skip(0) =~= p);
    assert(holds(s, 1, p));
    lemma_closed(s, 1, p, 0);
    lemma_nothing_left_out(p, 0);
    assert(s.subrange(1, 1 + p.len() as int) =~= p);
}

/// A field and an expression are a search of the field for the expression.
pub proof fn expression_of_a_field(f: Seq<char>, p: Seq<char>)
    requires
        is_name(f),
        p.len() > 0,
        is_pattern(p),
        forall|j: int| 0 <= j < p.len() ==> #[trigger] p[j] != '/',
    ensures
        regex_query_reading(f + seq![':'] + (seq!['/'] + p + seq!['/']), 0, field_dialect())
            == Some(
            ((f.len() + 3 + p.len()) as int, QueryView::Regex { field: f, pattern: p }),
        ),
{
    let rest = seq!['/'] + p + seq!['/'];
    let s = f + seq![':'] + rest;
    let k = f.len() as int + 1;
    lemma_field(f, rest);
    assert(s[k + 0] == rest[0]);
    assert(s[k + (1 + p.len())] == rest[1 + p.len() as int]);
    assert forall|j: int| 0 <= j < p.len() implies #[trigger] s[k + 1 + j] == p[j] by {
        assert(s[k + (1 + j)] == rest[1 + j]);
    }
    assert(p.skip(0) =~= p);
    lemma_closed(s, k + 1, p, 0);
    lemma_nothing_left_out(p, 0);
    assert(p.skip(0) =~= p);
    assert forall|j: int| 0 <= j < p.len() implies s.subrange(k + 1, k + 1 + p.len())[j] == p[j] by {
        assert(s[k + 1 + j] == p[j]);
    }
    assert(s.subrange(k + 1, k + 1 + p.len()) =~= p);
}

// ---------------------------------------------------------------------------
// Ranges
// ---------------------------------------------------------------------------

/// A limit of a range: more or less than a value, or the value itself too.
pub struct Limit {
    pub greater: bool,
    pub or_equal: bool,
    pub text: Seq<char>,
    pub value: ScalarView,
}

/// Whether the limit is one of words or, where they are asked for, of numbers that fit in
/// 32 bits with a sign.
pub open spec fn is_limit(l: Limit, numbers: bool) -> bool {
    if numbers {
        l.value matches ScalarView::Int(n) && n >= 0 && l.text == decimal(n as nat)
    } else {
        is_term(l.text) && l.value == ScalarView::Text(l.text)
    }
}

/// The comparison sign of a limit.
pub open spec fn sign(l: Limit) -> Seq<char> {
    (if l.greater {
        seq!['>']
    } else {
        seq!['<']
    }) + (if l.or_equal {
        seq!['=']
    } else {
        Seq::empty()
    })
}

/// Limits from the `k`th on as they are written, with commas between them.
pub open spec fn limits_text(ls: Seq<Limit>, k: int) -> Seq<char>
    decreases ls.len() - k,
{
    if 0 <= k < ls.len() {
        (if k > 0 {
            seq![',']
        } else {
            Seq::empty()
        }) + (sign(ls[k]) + ls[k].text) + limits_text(ls, k + 1)
    } else {
        Seq::empty()
    }
}

/// The value of the last limit of the sort.
pub open spec fn last_of(ls: Seq<Limit>, greater: bool, or_equal: bool) -> Option<ScalarView>
    decreases ls.len(),
{
    if ls.len() == 0 {
        None
    } else if ls.last().greater == greater && ls.last().or_equal == or_equal {
        Some(ls.last().value)
    } else {
        last_of(ls.drop_last(), greater, or_equal)
    }
}

/// The bound that a limit is.
spec fn bound_of(l: Limit) -> Bound<ScalarView> {
    if l.greater {
        Bound::Greater { than: l.value, or_equal: l.or_equal }
    } else {
        Bound::Less { than: l.value, or_equal: l.or_equal }
    }
}

/// The bounds that limits are.
spec fn bounds_of(ls: Seq<Limit>) -> Seq<Bound<ScalarView>> {
    Seq::new(ls.len(), |i: int| bound_of(ls[i]))
}

/// What bounds of a range come to.
proof fn lemma_range(ls: Seq<Limit>)
    ensures
        bounds_range(bounds_of(ls)) == (RangeView {
            gte: last_of(ls, true, true),
            gt: last_of(ls, true, false),
            lte: last_of(ls, false, true),
            lt: last_of(ls, false, false),
        }),
    decreases ls.len(),
{
    if ls.len() > 0 {
        lemma_range(ls.drop_last());
        assert(bounds_of(ls).drop_last() =~= bounds_of(ls.drop_last()));
        assert(bounds_of(ls).last() == bound_of(ls.last()));
    }
}

/// Two parts in a row stand where the whole does.
proof fn lemma_parts(s: Seq<char>, i: int, a: Seq<char>, b: Seq<char>)
    requires
        holds(s, i, a + b),
    ensures
        holds(s, i, a),
        holds(s, i + a.len(), b),
{
    assert forall|k: int| 0 <= k < a.len() implies #[trigger] s[i + k] == a[k] by {
        assert((a + b)[k] == a[k]);
    }
    assert forall|k: int| 0 <= k < b.len() implies #[trigger] s[i + a.len() + k] == b[k] by {
        assert((a + b)[a.len() + k] == b[k]);
        assert(s[i + (a.len() + k)] == b[k]);
    }
}

/// The kind of bounds that limits are.
spec fn kind(numbers: bool, reserved: bool) -> BoundKind {
    if numbers {
        BoundKind::Number
    } else {
        BoundKind::Text { reserved }
    }
}

/// A number in decimal notation has a digit, and nothing else.
proof fn lemma_decimal(n: nat)
    ensures
        decimal(n).len() > 0,
        forall|i: int| 0 <= i < decimal(n).len() ==> '0' <= #[trigger] decimal(n)[i] && decimal(
            n,
        )[i] <= '9',
{
    digits_read_back(n, 10);
    assert forall|i: int| 0 <= i < decimal(n).len() implies '0' <= #[trigger] decimal(n)[i]
        && decimal(n)[i] <= '9' by {
        assert(crate::number::digit_value(decimal(n)[i], 10) is Some);
    }
}

/// The value of a limit ends where a comma follows it, or nothing.
proof fn lemma_value(s: Seq<char>, k: int, l: Limit, numbers: bool, reserved: bool)
    requires
        is_limit(l, numbers),
        !numbers && reserved ==> is_word(l.text),
        holds(s, k, l.text),
        k + l.text.len() < s.len() ==> s[k + l.text.len()] == ',',
    ensures
        bound_value_reading(s, k, kind(numbers, reserved)) == Some(
            (k + l.text.len() as int, l.value),
        ),
        l.text.len() > 0,
        s[k] != '=',
{
    assert(!of_words(','));
    if numbers {
        let n = l.value->Int_0 as nat;
        let e = k + l.text.len();
        lemma_decimal(n);
        assert forall|j: int| k <= j < e implies in_class(Class::Digit, #[trigger] s[j]) by {
            assert(s[k + (j - k)] == l.text[j - k]);
        }
        lemma_run_to(s, k, e, Class::Digit);
        assert forall|j: int| 0 <= j < l.text.len() implies s.subrange(k, e)[j] == l.text[j] by {
            assert(s[k + j] == l.text[j]);
        }
        assert(s.subrange(k, e) =~= l.text);
        digits_read_back(n, 10);
        assert(s[k + 0] == l.text[0]);
    } else {
        lemma_term(s, k, l.text, reserved);
        assert(s[k + 0] == l.text[0]);
        assert(of_words(l.text[0]));
    }
}

/// A limit is read as its bound.
#[verifier::rlimit(60)]
#[verifier::spinoff_prover]
proof fn lemma_bound(s: Seq<char>, i: int, l: Limit, numbers: bool, reserved: bool)
    requires
        is_limit(l, numbers),
        !numbers && reserved ==> is_word(l.text),
        holds(s, i, sign(l) + l.text),
        ({
            let e = i + sign(l).len() + l.text.len();
            e < s.len() ==> s[e] == ','
        }),
    ensures
        bound_reading(s, i, kind(numbers, reserved)) == Some(
            (i + sign(l).len() + l.text.len() as int, bound_of(l)),
        ),
{
    let g = sign(l);
    let k = i + g.len();
    lemma_parts(s, i, g, l.text);
    lemma_value(s, k, l, numbers, reserved);
    assert(s[i + 0] == g[0]);
    let ge = seq!['>', '='];
    let le = seq!['<', '='];
    if l.or_equal {
        assert(s[i + 1] == g[1]);
        assert(s.subrange(i, i + 2) =~= g);
        if l.greater {
            assert(g =~= ge);
        } else {
            assert(g =~= le);
            assert(s.subrange(i, i + 2)[0] != ge[0]);
            assert(le[0] != ge[0]);
            assert(le.len() == 2 && seq!['>'].len() == 1);
        }
    } else {
        assert(s.subrange(i, i + 1) =~= g);
        assert(!word_at(s, i, ge)) by {
            if i + 2 <= s.len() {
                assert(s.subrange(i, i + 2)[1] == s[i + 1]);
                assert(ge[1] == '=');
            }
        }
        assert(!word_at(s, i, le)) by {
            if i + 2 <= s.len() {
                assert(s.subrange(i, i + 2)[1] == s[i + 1]);
                assert(le[1] == '=');
            }
        }
        assert(g.len() == 1 && ge.len() == 2 && le.len() == 2);
        if l.greater {
            assert(g =~= seq!['>']);
        } else {
            assert(g =~= seq!['<']);
            assert(seq!['<'][0] != seq!['>'][0]);
        }
    }
    assert(symbol_end(s, i) == Some(k));
}

/// The limits from the `k`th on are read as further bounds.
#[verifier::rlimit(60)]
#[verifier::spinoff_prover]
proof fn lemma_more(
    s: Seq<char>,
    i: int,
    ls: Seq<Limit>,
    k: int,
    numbers: bool,
    reserved: bool,
)
    requires
        1 <= k <= ls.len(),
        forall|j: int| 0 <= j < ls.len() ==> is_limit(#[trigger] ls[j], numbers),
        forall|j: int|
            0 <= j < ls.len() && !numbers && reserved ==> is_word((#[trigger] ls[j]).text),
        holds(s, i, limits_text(ls, k)),
        i + limits_text(ls, k).len() == s.len(),
    ensures
        more_bounds(s, i, kind(numbers, reserved), bounds_of(ls.take(k))) == (
            s.len() as int,
            bounds_of(ls),
        ),
    decreases ls.len() - k,
{
    if k < ls.len() {
        let l = ls[k];
        let part = sign(l) + l.text;
        let rest = limits_text(ls, k + 1);
        lemma_parts(s, i, seq![','] + part, rest);
        lemma_parts(s, i, seq![','], part);
        assert(s[i + 0] == ',');
        let j = i + 1 + part.len();
        lemma_comma(s, j, ls, k + 1);
        lemma_bound(s, i + 1, l, numbers, reserved);
        lemma_more(s, j, ls, k + 1, numbers, reserved);
        assert(bounds_of(ls.take(k)).push(bound_of(l)) =~= bounds_of(ls.take(k + 1)));
    } else {
        assert(limits_text(ls, k) =~= Seq::<char>::empty());
        assert(ls.take(k) =~= ls);
    }
}

/// Behind a limit the text ends, or a comma follows.
proof fn lemma_comma(s: Seq<char>, i: int, ls: Seq<Limit>, k: int)
    requires
        1 <= k <= ls.len(),
        holds(s, i, limits_text(ls, k)),
        i + limits_text(ls, k).len() == s.len(),
    ensures
        i < s.len() ==> s[i] == ',',
{
    if k < ls.len() {
        let part = sign(ls[k]) + ls[k].text;
        lemma_parts(s, i, seq![','] + part, limits_text(ls, k + 1));
        lemma_parts(s, i, seq![','], part);
        assert(s[i + 0] == ',');
    }
}

/// A field and limits are read as a range.
#[verifier::rlimit(60)]
#[verifier::spinoff_prover]
proof fn lemma_limits(f: Seq<char>, ls: Seq<Limit>, numbers: bool, reserved: bool)
    requires
        is_name(f),
        ls.len() > 0,
        forall|j: int| 0 <= j < ls.len() ==> is_limit(#[trigger] ls[j], numbers),
        forall|j: int|
            0 <= j < ls.len() && !numbers && reserved ==> is_word((#[trigger] ls[j]).text),
    ensures
        ({
            let s = f + seq![':'] + limits_text(ls, 0);
            range_of_kind_reading(s, 0, kind(numbers, reserved)) == Some(
                (
                    s.len() as int,
                    QueryView::Range {
                        field: f,
                        bounds: RangeView {
                            gte: last_of(ls, true, true),
                            gt: last_of(ls, true, false),
                            lte: last_of(ls, false, true),
                            lt: last_of(ls, false, false),
                        },
                    },
                ),
            )
        }),
{
    let all = limits_text(ls, 0);
    let s = f + seq![':'] + all;
    let k = f.len() as int + 1;
    let part = sign(ls[0]) + ls[0].text;
    lemma_field(f, all);
    assert(holds(s, k, all));
    assert(all =~= part + limits_text(ls, 1));
    lemma_parts(s, k, part, limits_text(ls, 1));
    let j = k + part.len();
    lemma_comma(s, j, ls, 1);
    lemma_bound(s, k, ls[0], numbers, reserved);
    lemma_more(s, j, ls, 1, numbers, reserved);
    assert(bounds_of(ls.take(1)) =~= seq![bound_of(ls[0])]);
    lemma_range(ls);
}

/// A field and limits are a search for what lies within them, between texts; of two
/// limits of one sort the last counts.
pub proof fn limits_of_a_field(f: Seq<char>, ls: Seq<Limit>)
    ensures
        is_name(f) && ls.len() > 0 && (forall|j: int|
            0 <= j < ls.len() ==> is_limit(#[trigger] ls[j], false)) ==> range_of_kind_reading(
            f + seq![':'] + limits_text(ls, 0),
            0,
            BoundKind::Text { reserved: false },
        ) == Some(
            (
                (f + seq![':'] + limits_text(ls, 0)).len() as int,
                QueryView::Range {
                    field: f,
                    bounds: RangeView {
                        gte: last_of(ls, true, true),
                        gt: last_of(ls, true, false),
                        lte: last_of(ls, false, true),
                        lt: last_of(ls, false, false),
                    },
                },
            ),
        ),
{
    if is_name(f) && ls.len() > 0 && (forall|j: int|
        0 <= j < ls.len() ==> is_limit(#[trigger] ls[j], false)) {
        lemma_limits(f, ls, false, false);
    }
}

/// A range between numbers is one between numbers.
pub proof fn numbers_are_limits(f: Seq<char>, ls: Seq<Limit>)
    requires
        is_name(f),
        ls.len() > 0,
        forall|j: int|
            0 <= j < ls.len() ==> (#[trigger] ls[j]).value is Int && ls[j].value->Int_0 >= 0
                && ls[j].text == decimal(ls[j].value->Int_0 as nat),
    ensures
        range_reading(f + seq![':'] + limits_text(ls, 0), 0) == Some(
            (
                (f + seq![':'] + limits_text(ls, 0)).len() as int,
                QueryView::Range {
                    field: f,
                    bounds: RangeView {
                        gte: last_of(ls, true, true),
                        gt: last_of(ls, true, false),
                        lte: last_of(ls, false, true),
                        lt: last_of(ls, false, false),
                    },
                },
            ),
        ),
{
    assert forall|j: int| 0 <= j < ls.len() implies is_limit(#[trigger] ls[j], true) by {}
    lemma_limits(f, ls, true, true);
}

/// A range whose first limit begins with something else than a digit is one between texts.
#[verifier::rlimit(60)]
#[verifier::spinoff_prover]
pub proof fn words_are_limits(f: Seq<char>, ls: Seq<Limit>)
    ensures
        is_name(f) && ls.len() > 0 && (forall|j: int|
            0 <= j < ls.len() ==> is_limit(#[trigger] ls[j], false) && is_word(ls[j].text))
            && !('0' <= ls[0].text[0] && ls[0].text[0] <= '9') ==> range_reading(
            f + seq![':'] + limits_text(ls, 0),
            0,
        ) == Some(
            (
                (f + seq![':'] + limits_text(ls, 0)).len() as int,
                QueryView::Range {
                    field: f,
                    bounds: RangeView {
                        gte: last_of(ls, true, true),
                        gt: last_of(ls, true, false),
                        lte: last_of(ls, false, true),
                        lt: last_of(ls, false, false),
                    },
                },
            ),
        ),
{
    if is_name(f) && ls.len() > 0 && (forall|j: int|
        0 <= j < ls.len() ==> is_limit(#[trigger] ls[j], false) && is_word(ls[j].text)) && !('0'
        <= ls[0].text[0] && ls[0].text[0] <= '9') {
        lemma_limits(f, ls, false, true);
        let all = limits_text(ls, 0);
        let s = f + seq![':'] + all;
        let k = f.len() as int + 1;
        let part = sign(ls[0]) + ls[0].text;
        lemma_field(f, all);
        assert(holds(s, k, all));
        assert(all =~= part + limits_text(ls, 1));
        lemma_parts(s, k, part, limits_text(ls, 1));
        lemma_comma(s, k + part.len(), ls, 1);
        lemma_bound(s, k, ls[0], false, true);
        lemma_parts(s, k, sign(ls[0]), ls[0].text);
        let v = k + sign(ls[0]).len();
        assert(s[v + 0] == ls[0].text[0]);
        assert(is_limit(ls[0], false));
        lemma_symbol(s, k, ls[0]);
        assert(run_end(s, v, Class::Digit) == v);
        assert(bound_reading(s, k, BoundKind::Number) is None);
    }
}

/// The sign of a limit ends before its text.
proof fn lemma_symbol(s: Seq<char>, i: int, l: Limit)
    requires
        holds(s, i, sign(l) + l.text),
        is_term(l.text),
    ensures
        symbol_end(s, i) == Some(i + sign(l).len() as int),
{
    let g = sign(l);
    let ge = seq!['>', '='];
    let le = seq!['<', '='];
    lemma_parts(s, i, g, l.text);
    assert(of_words(l.text[0]));
    assert(s[i + 0] == g[0]);
    assert(s[i + g.len() + 0] == l.text[0]);
    assert(s.subrange(i, i + 2)[0] == s[i] && s.subrange(i, i + 2)[1] == s[i + 1]);
    assert(ge[0] == '>' && ge[1] == '=' && le[0] == '<' && le[1] == '=');
    if l.or_equal {
        assert(s[i + 1] == g[1]);
        if l.greater {
            assert(s.subrange(i, i + 2) =~= ge);
        } else {
            assert(s.subrange(i, i + 2) =~= le);
        }
    }
}

} // verus!
