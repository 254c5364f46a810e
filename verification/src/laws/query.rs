//! What the texts of searches are read as.
use vstd::prelude::*;

use crate::number::{decimal, digits_read_back, read_digits};
use crate::query::ast::{QueryView, TreeView};
use crate::query::grammar::{
    and_tail, leaf_reading, operator_end, or_tail, query_tree, simple_reading,
};
use crate::query::lexer::{
    at, in_class, lemma_run_end, run_end, unicode_alphanumeric, word_at, Class,
};
use crate::query::terms::{
    closing_slash, exact_reading, field_end, full_dialect, fuzzy_distance, fuzzy_query_reading,
    fuzzy_text_reading, phrase_reading, quoted_reading, range_reading, regex_query_reading,
    regex_reading, term_end, unescaped_from,
};

verus! {

// ---------------------------------------------------------------------------
// The characters of the language
// ---------------------------------------------------------------------------

/// Whether a character is one of words: a letter, a digit or an underscore.
pub open spec fn of_words(c: char) -> bool {
    ||| '0' <= c && c <= '9'
    ||| 'A' <= c && c <= 'Z'
    ||| 'a' <= c && c <= 'z'
    ||| c == '_'
    ||| c > '\x7f' && unicode_alphanumeric(c)
}

/// Whether a text is a word that can be searched for: it does not begin with `NOT`.
pub open spec fn is_word(t: Seq<char>) -> bool {
    &&& t.len() > 0
    &&& forall|i: int| 0 <= i < t.len() ==> of_words(#[trigger] t[i])
    &&& !(t.len() >= 3 && t[0] == 'N' && t[1] == 'O' && t[2] == 'T')
}

/// Whether a text is the name of a field: lower-case letters and underscores.
pub open spec fn is_name(f: Seq<char>) -> bool {
    &&& f.len() > 0
    &&& forall|i: int| 0 <= i < f.len() ==> ('a' <= #[trigger] f[i] && f[i] <= 'z') || f[i] == '_'
}

/// Whether a text is made of spaces and tabs, and is not empty.
pub open spec fn is_gap(b: Seq<char>) -> bool {
    &&& b.len() > 0
    &&& forall|i: int| 0 <= i < b.len() ==> #[trigger] b[i] == ' ' || b[i] == '\t'
}

/// Whether the text `t` stands at `i`, and nothing that could go on with it behind it.
spec fn stands(s: Seq<char>, i: int, t: Seq<char>) -> bool {
    &&& 0 <= i && i + t.len() <= s.len()
    &&& forall|k: int| 0 <= k < t.len() ==> #[trigger] s[i + k] == t[k]
    &&& i + t.len() < s.len() ==> {
        let c = s[i + t.len()];
        c == ' ' || c == '\t' || c == ')'
    }
}

/// A run ends where its class does.
pub(crate) proof fn lemma_run_to(s: Seq<char>, i: int, to: int, class: Class)
    requires
        0 <= i <= to <= s.len(),
        forall|j: int| i <= j < to ==> in_class(class, #[trigger] s[j]),
        to < s.len() ==> !in_class(class, s[to]),
    ensures
        run_end(s, i, class) == to,
    decreases to - i,
{
    if i < to {
        lemma_run_to(s, i + 1, to, class);
    }
}

/// The letters of `NOT` stand at a place where the word does.
proof fn lemma_not_at(s: Seq<char>, i: int)
    requires
        0 <= i,
    ensures
        word_at(s, i, seq!['N', 'O', 'T']) == (i + 3 <= s.len() && s[i] == 'N' && s[i + 1] == 'O'
            && s[i + 2] == 'T'),
{
    let w = seq!['N', 'O', 'T'];
    if i + 3 <= s.len() {
        let part = s.subrange(i, i + 3);
        assert(part[0] == s[i] && part[1] == s[i + 1] && part[2] == s[i + 2]);
        assert(w[0] == 'N' && w[1] == 'O' && w[2] == 'T');
        if s[i] == 'N' && s[i + 1] == 'O' && s[i + 2] == 'T' {
            assert(part =~= w);
        }
    }
}

/// A word ends where it stands.
proof fn lemma_word_end(s: Seq<char>, i: int, t: Seq<char>)
    requires
        is_word(t),
        stands(s, i, t),
    ensures
        term_end(s, i, true) == Some(i + t.len() as int),
        s.subrange(i, i + t.len()) == t,
{
    let e = i + t.len();
    assert forall|j: int| i <= j < e implies in_class(Class::Term, #[trigger] s[j]) by {
        assert(s[i + (j - i)] == t[j - i]);
    }
    lemma_run_to(s, i, e, Class::Term);
    lemma_not_at(s, i);
    assert(s[i + 0] == t[0]);
    if t.len() >= 3 {
        assert(s[i + 1] == t[1] && s[i + 2] == t[2]);
    } else if i + 3 <= s.len() {
        // What follows a short word is no letter.
        assert(!of_words(s[e]));
        if t.len() == 2 {
            assert(s[i + 1] == t[1]);
        }
    }
    assert forall|k: int| 0 <= k < t.len() implies s.subrange(i, e)[k] == t[k] by {
        assert(s[i + k] == t[k]);
    }
    assert(s.subrange(i, e) =~= t);
}

/// A word that stands alone is a search for it in the messages.
proof fn lemma_word_simple(s: Seq<char>, i: int, t: Seq<char>)
    requires
        is_word(t),
        stands(s, i, t),
    ensures
        simple_reading(s, i) == Some(
            (
                i + t.len() as int,
                TreeView::Simple(QueryView::Exact { field: "message"@, term: t }),
            ),
        ),
{
    let d = full_dialect();
    let e = i + t.len();
    lemma_word_end(s, i, t);
    lemma_run_end(s, i, Class::Identifier);
    let j = run_end(s, i, Class::Identifier);
    assert(s[i + 0] == t[0]);
    assert(j <= e) by {
        if j > e {
            assert(in_class(Class::Identifier, s[e]));
        }
    }
    assert(!at(s, j, ':')) by {
        if j < e {
            assert(s[i + (j - i)] == t[j - i]);
        }
    }
    assert(field_end(s, i) is None);
    assert(fuzzy_query_reading(s, i, d) is None);
}

/// A word is a search for it in the messages wherever it stands before a gap, a closing
/// parenthesis or the end.
pub proof fn word_is_read(s: Seq<char>, i: int, t: Seq<char>)
    ensures
        is_word(t) && 0 <= i && i + t.len() <= s.len() && (forall|k: int|
            0 <= k < t.len() ==> #[trigger] s[i + k] == t[k]) && (i + t.len() < s.len() ==> s[i
            + t.len()] == ' ' || s[i + t.len()] == '\t' || s[i + t.len()] == ')')
            ==> simple_reading(s, i) == Some(
            (
                i + t.len() as int,
                TreeView::Simple(QueryView::Exact { field: "message"@, term: t }),
            ),
        ),
{
    if is_word(t) && stands(s, i, t) {
        lemma_word_simple(s, i, t);
    }
}

/// A word alone is a search for it in the messages.
pub proof fn word_is_searched_in_messages(t: Seq<char>)
    ensures
        is_word(t) ==> query_tree(t) == Some(
            TreeView::Simple(QueryView::Exact { field: "message"@, term: t }),
        ),
{
    if is_word(t) {
        assert(stands(t, 0, t));
        lemma_word_simple(t, 0, t);
        lemma_tails(t, TreeView::Simple(QueryView::Exact { field: "message"@, term: t }));
    }
}

/// Tails end with the text.
proof fn lemma_tails(s: Seq<char>, left: TreeView)
    ensures
        or_tail(s, s.len() as int, left) == (s.len() as int, left),
        and_tail(s, s.len() as int, left) == (s.len() as int, left),
{
    let n = s.len() as int;
    assert(run_end(s, n, Class::Blank) == n);
    assert(operator_end(s, n, seq!['O', 'R']) is None);
    assert(operator_end(s, n, seq!['A', 'N', 'D']) is None);
}

/// A text that is one leaf from end to end is read as that leaf.
proof fn lemma_whole_leaf(s: Seq<char>, q: QueryView)
    requires
        s.len() > 0,
        leaf_reading(s, 0) == Some((s.len() as int, q)),
    ensures
        query_tree(s) == Some(TreeView::Simple(q)),
{
    lemma_tails(s, TreeView::Simple(q));
}

/// A field name and a colon stand before the rest.
pub(crate) proof fn lemma_field(f: Seq<char>, rest: Seq<char>)
    requires
        is_name(f),
    ensures
        ({
            let s = f + seq![':'] + rest;
            let k = f.len() as int + 1;
            &&& field_end(s, 0) == Some(k)
            &&& s.subrange(0, k - 1) == f
            &&& s[0] == f[0]
            &&& forall|i: int| 0 <= i < rest.len() ==> #[trigger] s[k + i] == rest[i]
        }),
{
    let s = f + seq![':'] + rest;
    let n = f.len() as int;
    assert forall|j: int| 0 <= j < n implies in_class(Class::Identifier, #[trigger] s[j]) by {
        assert(s[j] == f[j]);
    }
    assert(s[n] == ':');
    lemma_run_to(s, 0, n, Class::Identifier);
    assert(s.subrange(0, n) =~= f);
}

/// A field name, a colon and a word are a search for that word in that field.
pub proof fn word_is_searched_in_its_field(f: Seq<char>, t: Seq<char>)
    ensures
        is_name(f) && is_word(t) ==> query_tree(f + seq![':'] + t) == Some(
            TreeView::Simple(QueryView::Exact { field: f, term: t }),
        ),
{
    if is_name(f) && is_word(t) {
        let s = f + seq![':'] + t;
        let k = f.len() as int + 1;
        let d = full_dialect();
        lemma_field(f, t);
        assert(stands(s, k, t));
        lemma_word_end(s, k, t);
        assert(s[k + 0] == t[0]);
        assert(fuzzy_query_reading(s, 0, d) is None);
        lemma_whole_leaf(s, QueryView::Exact { field: f, term: t });
    }
}

/// What stands before a colon and is not the name of a field makes no query.
#[verifier::rlimit(60)]
#[verifier::spinoff_prover]
pub proof fn odd_field_is_no_query(f: Seq<char>, rest: Seq<char>)
    ensures
        f.len() > 0 && (forall|i: int| 0 <= i < f.len() ==> of_words(#[trigger] f[i])) && !is_name(
            f,
        ) ==> query_tree(f + seq![':'] + rest) is None,
{
    if f.len() > 0 && (forall|i: int| 0 <= i < f.len() ==> of_words(#[trigger] f[i])) && !is_name(
        f,
    ) {
        let s = f + seq![':'] + rest;
        let n = f.len() as int;
        let d = full_dialect();
        assert(s[n] == ':' && s[0] == f[0]);
        lemma_run_end(s, 0, Class::Identifier);
        let j = run_end(s, 0, Class::Identifier);
        let odd = choose|i: int|
            0 <= i < n && !(('a' <= #[trigger] f[i] && f[i] <= 'z') || f[i] == '_');
        assert(j <= odd) by {
            if j > odd {
                assert(in_class(Class::Identifier, s[odd]));
                assert(s[odd] == f[odd]);
            }
        }
        assert(!at(s, j, ':')) by {
            assert(s[j] == f[j]);
        }
        assert(field_end(s, 0) is None);
        assert forall|i: int| 0 <= i < n implies in_class(Class::Term, #[trigger] s[i]) by {
            assert(s[i] == f[i]);
        }
        lemma_run_to(s, 0, n, Class::Term);
        assert(fuzzy_query_reading(s, 0, d) is None);
        assert(quoted_reading(s, 0) is None);
        assert(phrase_reading(s, 0, d) is None);
        assert(regex_reading(s, 0) is None);
        assert(regex_query_reading(s, 0, d) is None);
        assert(range_reading(s, 0) is None);
        lemma_not_at(s, 0);
        assert(run_end(s, n, Class::Blank) == n);
        assert(operator_end(s, n, seq!['O', 'R']) is None);
        assert(operator_end(s, n, seq!['A', 'N', 'D']) is None);
        if word_at(s, 0, seq!['N', 'O', 'T']) {
            // No gap follows.
            assert(run_end(s, 3, Class::Blank) == 3) by {
                if n > 3 {
                    assert(in_class(Class::Term, s[3]));
                }
            }
            assert(simple_reading(s, 0) is None);
        } else {
            let t = TreeView::Simple(
                QueryView::Exact { field: "message"@, term: s.subrange(0, n) },
            );
            assert(simple_reading(s, 0) == Some((n, t)));
            assert(or_tail(s, n, t) == (n, t));
            assert(and_tail(s, n, t) == (n, t));
        }
    }
}

/// Where the name of a field is not followed by a word or a tilde, there is no query.
#[verifier::rlimit(60)]
#[verifier::spinoff_prover]
pub proof fn only_words_follow_a_field(f: Seq<char>, rest: Seq<char>)
    ensures
        is_name(f) && (rest.len() == 0 || !of_words(rest[0]) && rest[0] != '~') ==> query_tree(
            f + seq![':'] + rest,
        ) is None,
{
    if is_name(f) && (rest.len() == 0 || !of_words(rest[0]) && rest[0] != '~') {
        let s = f + seq![':'] + rest;
        let n = f.len() as int;
        let k = n + 1;
        let d = full_dialect();
        lemma_field(f, rest);
        assert(s[n] == ':');
        if rest.len() > 0 {
            assert(s[k + 0] == rest[0]);
        }
        assert(run_end(s, k, Class::Term) == k);
        lemma_not_at(s, k);
        assert(term_end(s, k, true) is None);
        assert forall|i: int| 0 <= i < n implies in_class(Class::Term, #[trigger] s[i]) by {
            assert(s[i] == f[i]);
        }
        lemma_run_to(s, 0, n, Class::Term);
        lemma_not_at(s, 0);
        assert(fuzzy_query_reading(s, 0, d) is None);
        let t = TreeView::Simple(QueryView::Exact { field: "message"@, term: s.subrange(0, n) });
        assert(simple_reading(s, 0) == Some((n, t)));
        assert(run_end(s, n, Class::Blank) == n);
        assert(operator_end(s, n, seq!['O', 'R']) is None);
        assert(operator_end(s, n, seq!['A', 'N', 'D']) is None);
        assert(or_tail(s, n, t) == (n, t));
        assert(and_tail(s, n, t) == (n, t));
    }
}

// ---------------------------------------------------------------------------
// Fuzzy words
// ---------------------------------------------------------------------------

/// A tilde and a word, where they stand last.
proof fn lemma_fuzzy(s: Seq<char>, k: int, t: Seq<char>)
    requires
        is_word(t),
        0 <= k,
        s.len() == k + 1 + t.len(),
        s[k] == '~',
        forall|i: int| 0 <= i < t.len() ==> #[trigger] s[k + 1 + i] == t[i],
    ensures
        fuzzy_text_reading(s, k, full_dialect()) == Some(
            (s.len() as int, (None::<Seq<char>>, t)),
        ),
{
    assert(stands(s, k + 1, t)) by {
        assert forall|i: int| 0 <= i < t.len() implies #[trigger] s[(k + 1) + i] == t[i] by {
            assert(s[k + 1 + i] == t[i]);
        }
    }
    lemma_word_end(s, k + 1, t);
    lemma_run_end(s, k + 1, Class::Digit);
    let d = run_end(s, k + 1, Class::Digit);
    assert(!at(s, d, '~')) by {
        if d < s.len() {
            assert(s[k + 1 + (d - k - 1)] == t[d - k - 1]);
        }
    }
}

/// A tilde, digits, a tilde and a word, where they stand last.
proof fn lemma_fuzzy_far(s: Seq<char>, k: int, g: Seq<char>, t: Seq<char>)
    requires
        is_word(t),
        0 <= k,
        g.len() > 0,
        forall|i: int| 0 <= i < g.len() ==> '0' <= #[trigger] g[i] && g[i] <= '9',
        s.len() == k + 2 + g.len() + t.len(),
        s[k] == '~',
        forall|i: int| 0 <= i < g.len() ==> #[trigger] s[k + 1 + i] == g[i],
        s[k + 1 + g.len()] == '~',
        forall|i: int| 0 <= i < t.len() ==> #[trigger] s[k + 2 + g.len() + i] == t[i],
    ensures
        fuzzy_text_reading(s, k, full_dialect()) == Some((s.len() as int, (Some(g), t))),
{
    let d = k + 1 + g.len();
    assert forall|j: int| k + 1 <= j < d implies in_class(Class::Digit, #[trigger] s[j]) by {
        assert(s[k + 1 + (j - k - 1)] == g[j - k - 1]);
    }
    lemma_run_to(s, k + 1, d, Class::Digit);
    assert(stands(s, d + 1, t)) by {
        assert forall|i: int| 0 <= i < t.len() implies #[trigger] s[(d + 1) + i] == t[i] by {
            assert(s[k + 2 + g.len() + i] == t[i]);
        }
    }
    lemma_word_end(s, d + 1, t);
    assert(s.subrange(k + 1, d) =~= g) by {
        assert forall|i: int| 0 <= i < g.len() implies s.subrange(k + 1, d)[i] == g[i] by {
            assert(s[k + 1 + i] == g[i]);
        }
    }
}

/// A tilde before a word finds what differs from it by up to two letters.
pub proof fn fuzzy_word_is_within_two(t: Seq<char>)
    ensures
        is_word(t) ==> query_tree(seq!['~'] + t) == Some(
            TreeView::Simple(
                QueryView::Fuzzy { field: "message"@, value: t, distance: 2, transposition: true },
            ),
        ),
{
    if is_word(t) {
        let s = seq!['~'] + t;
        lemma_fuzzy(s, 0, t);
        assert(field_end(s, 0) is None);
        lemma_whole_leaf(
            s,
            QueryView::Fuzzy { field: "message"@, value: t, distance: 2, transposition: true },
        );
    }
}

/// A tilde before a word of a field finds what differs from it by up to two letters.
#[verifier::rlimit(60)]
#[verifier::spinoff_prover]
pub proof fn fuzzy_word_is_searched_in_its_field(f: Seq<char>, t: Seq<char>)
    ensures
        is_name(f) && is_word(t) ==> query_tree(f + seq![':'] + (seq!['~'] + t)) == Some(
            TreeView::Simple(
                QueryView::Fuzzy { field: f, value: t, distance: 2, transposition: true },
            ),
        ),
{
    if is_name(f) && is_word(t) {
        let rest = seq!['~'] + t;
        let s = f + seq![':'] + rest;
        let k = f.len() as int + 1;
        lemma_field(f, rest);
        assert(s[k + 0] == rest[0]);
        assert forall|i: int| 0 <= i < t.len() implies #[trigger] s[k + 1 + i] == t[i] by {
            assert(s[k + (1 + i)] == rest[1 + i]);
        }
        lemma_fuzzy(s, k, t);
        lemma_whole_leaf(
            s,
            QueryView::Fuzzy { field: f, value: t, distance: 2, transposition: true },
        );
    }
}

/// A number between tildes before a word is the number of letters by which what is found
/// may differ from it; there is no query where it exceeds 255.
#[verifier::rlimit(60)]
#[verifier::spinoff_prover]
pub proof fn fuzzy_distance_is_stated(n: nat, t: Seq<char>)
    ensures
        is_word(t) && n <= 255 ==> query_tree(seq!['~'] + decimal(n) + seq!['~'] + t) == Some(
            TreeView::Simple(
                QueryView::Fuzzy {
                    field: "message"@,
                    value: t,
                    distance: n as u8,
                    transposition: true,
                },
            ),
        ),
        is_word(t) && n > 255 ==> query_tree(seq!['~'] + decimal(n) + seq!['~'] + t) is None,
{
    if is_word(t) {
        let g = decimal(n);
        let s = seq!['~'] + g + seq!['~'] + t;
        let d = full_dialect();
        digits_read_back(n, 10);
        assert forall|i: int| 0 <= i < g.len() implies '0' <= #[trigger] g[i] && g[i] <= '9' by {
            assert(crate::number::digit_value(g[i], 10) is Some);
        }
        lemma_fuzzy_far(s, 0, g, t);
        assert(field_end(s, 0) is None);
        assert(run_end(s, 0, Class::Term) == 0);
        if n <= 255 {
            lemma_whole_leaf(
                s,
                QueryView::Fuzzy {
                    field: "message"@,
                    value: t,
                    distance: n as u8,
                    transposition: true,
                },
            );
        } else {
            assert(read_digits(g, 10, 255) is None);
            assert(fuzzy_distance(Some(g), d) is None);
            assert(fuzzy_query_reading(s, 0, d) is None);
            assert(exact_reading(s, 0, d) is None);
            assert(quoted_reading(s, 0) is None);
            assert(phrase_reading(s, 0, d) is None);
            assert(regex_reading(s, 0) is None);
            assert(regex_query_reading(s, 0, d) is None);
            assert(range_reading(s, 0) is None);
            lemma_not_at(s, 0);
            assert(simple_reading(s, 0) is None);
        }
    }
}

// ---------------------------------------------------------------------------
// Regular expressions
// ---------------------------------------------------------------------------

/// Whether a text can stand between slashes: every backslash in it has a character to
/// escape, and no slash stands in it that is not escaped.
pub open spec fn is_pattern(p: Seq<char>) -> bool
    decreases p.len(),
{
    if p.len() == 0 {
        true
    } else if p[0] == '\\' {
        p.len() >= 2 && is_pattern(p.skip(2))
    } else {
        p[0] != '/' && is_pattern(p.skip(1))
    }
}

/// Whether a text between slashes is a search of the messages for this expression.
pub open spec fn finds(p: Seq<char>, pattern: Seq<char>) -> bool {
    query_tree(seq!['/'] + p + seq!['/']) == Some(
        TreeView::Simple(QueryView::Regex { field: "message"@, pattern }),
    )
}

/// The slash behind a pattern closes it.
proof fn lemma_closed(s: Seq<char>, p: Seq<char>, i: int)
    requires
        s == seq!['/'] + p + seq!['/'],
        0 <= i <= p.len(),
        is_pattern(p.skip(i)),
    ensures
        closing_slash(s, 1 + i) == Some(1 + p.len() as int),
    decreases p.len() - i,
{
    let rest = p.skip(i);
    if i < p.len() {
        assert(s[1 + i] == p[i] && rest[0] == p[i]);
        if p[i] == '\\' {
            assert(rest.skip(2) =~= p.skip(i + 2));
            lemma_closed(s, p, i + 2);
        } else {
            assert(rest.skip(1) =~= p.skip(i + 1));
            lemma_closed(s, p, i + 1);
        }
    } else {
        assert(s[1 + i] == '/');
    }
}

/// A pattern between slashes is a search for what is left of it without the escapes.
#[verifier::rlimit(60)]
#[verifier::spinoff_prover]
proof fn lemma_regex(p: Seq<char>)
    requires
        p.len() > 0,
        is_pattern(p),
    ensures
        finds(p, unescaped_from(p, 0)),
{
    let s = seq!['/'] + p + seq!['/'];
    let d = full_dialect();
    assert(p.skip(0) =~= p);
    lemma_closed(s, p, 0);
    assert(s[0] == '/');
    assert(s.subrange(1, 1 + p.len() as int) =~= p);
    assert(run_end(s, 0, Class::Identifier) == 0);
    assert(run_end(s, 0, Class::Term) == 0);
    assert(field_end(s, 0) is None);
    assert(fuzzy_query_reading(s, 0, d) is None);
    assert(exact_reading(s, 0, d) is None);
    assert(quoted_reading(s, 0) is None);
    assert(phrase_reading(s, 0, d) is None);
    lemma_whole_leaf(
        s,
        QueryView::Regex { field: "message"@, pattern: unescaped_from(p, 0) },
    );
}

/// What stands behind a text is unescaped as it is alone.
proof fn lemma_unescaped_behind(a: Seq<char>, b: Seq<char>, i: int)
    requires
        0 <= i <= b.len(),
    ensures
        unescaped_from(a + b, a.len() + i) == unescaped_from(b, i),
    decreases b.len() - i,
{
    let s = a + b;
    let n = a.len() as int;
    if i < b.len() {
        assert(s[n + i] == b[i]);
        if i + 1 < b.len() {
            assert(s[n + i + 1] == b[i + 1]);
        }
        if b[i] == '\\' && at(b, i + 1, '/') {
            lemma_unescaped_behind(a, b, i + 2);
        } else {
            lemma_unescaped_behind(a, b, i + 1);
        }
    }
}

/// A pattern does not begin with a slash.
proof fn lemma_head(p: Seq<char>)
    requires
        is_pattern(p),
        p.len() > 0,
    ensures
        p[0] != '/',
{
}

/// A pattern is unescaped by itself, whatever stands behind it.
#[verifier::rlimit(60)]
#[verifier::spinoff_prover]
proof fn lemma_unescaped_before(a: Seq<char>, b: Seq<char>, i: int)
    requires
        0 <= i <= a.len(),
        is_pattern(a.skip(i)),
        is_pattern(b),
    ensures
        unescaped_from(a + b, i) == unescaped_from(a, i) + unescaped_from(b, 0),
    decreases a.len() - i,
{
    let s = a + b;
    let rest = a.skip(i);
    if i < a.len() {
        assert(s[i] == a[i] && rest[0] == a[i]);
        if a[i] == '\\' {
            assert(i + 1 < a.len());
            assert(s[i + 1] == a[i + 1]);
            assert(rest.skip(2) =~= a.skip(i + 2));
            if a[i + 1] == '/' {
                lemma_unescaped_before(a, b, i + 2);
                assert(seq!['/'] + (unescaped_from(a, i + 2) + unescaped_from(b, 0)) =~= seq!['/']
                    + unescaped_from(a, i + 2) + unescaped_from(b, 0));
            } else {
                if i + 2 < a.len() {
                    lemma_head(a.skip(i + 2));
                    assert(s[i + 2] == a[i + 2] && a.skip(i + 2)[0] == a[i + 2]);
                } else if i + 2 < s.len() {
                    lemma_head(b);
                    assert(s[i + 2] == b[0]);
                }
                lemma_kept_pair(a, i);
                lemma_kept_pair(s, i);
                lemma_unescaped_before(a, b, i + 2);
                assert(seq![a[i], a[i + 1]] + (unescaped_from(a, i + 2) + unescaped_from(b, 0))
                    =~= seq![a[i], a[i + 1]] + unescaped_from(a, i + 2) + unescaped_from(b, 0));
            }
        } else {
            assert(rest.skip(1) =~= a.skip(i + 1));
            lemma_unescaped_before(a, b, i + 1);
            assert(seq![a[i]] + (unescaped_from(a, i + 1) + unescaped_from(b, 0)) =~= seq![a[i]]
                + unescaped_from(a, i + 1) + unescaped_from(b, 0));
        }
    } else {
        lemma_unescaped_behind(a, b, 0);
        assert(unescaped_from(a, i) + unescaped_from(b, 0) =~= unescaped_from(b, 0));
    }
}

/// Another escape than that of a slash is kept. Where it escapes a backslash that a slash
/// follows, that slash is taken for an escaped one.
proof fn lemma_kept_pair(a: Seq<char>, i: int)
    requires
        0 <= i,
        i + 1 < a.len(),
        a[i] == '\\',
        a[i + 1] != '/',
        a[i + 1] != '\\' || !at(a, i + 2, '/'),
    ensures
        unescaped_from(a, i) == seq![a[i], a[i + 1]] + unescaped_from(a, i + 2),
{
    reveal_with_fuel(unescaped_from, 3);
    assert(seq![a[i]] + (seq![a[i + 1]] + unescaped_from(a, i + 2)) =~= seq![a[i], a[i + 1]]
        + unescaped_from(a, i + 2));
}

/// Whether a pattern goes on to be one with another behind it.
proof fn lemma_patterns(a: Seq<char>, b: Seq<char>)
    requires
        is_pattern(a),
        is_pattern(b),
    ensures
        is_pattern(a + b),
    decreases a.len(),
{
    let s = a + b;
    if a.len() == 0 {
        assert(s =~= b);
    } else {
        assert(s[0] == a[0]);
        if a[0] == '\\' {
            assert(s.skip(2) =~= a.skip(2) + b);
            lemma_patterns(a.skip(2), b);
        } else {
            assert(s.skip(1) =~= a.skip(1) + b);
            lemma_patterns(a.skip(1), b);
        }
    }
}

/// Two patterns in a row find what the expressions that they stand for find in a row.
#[verifier::rlimit(60)]
#[verifier::spinoff_prover]
pub proof fn patterns_are_read_in_a_row(
    a: Seq<char>,
    b: Seq<char>,
    x: Seq<char>,
    y: Seq<char>,
)
    requires
        a.len() > 0,
        b.len() > 0,
        is_pattern(a),
        is_pattern(b),
    ensures
        finds(a, x) && finds(b, y) ==> finds(a + b, x + y),
{
    lemma_regex(a);
    lemma_regex(b);
    lemma_patterns(a, b);
    lemma_regex(a + b);
    assert(a.skip(0) =~= a);
    lemma_unescaped_before(a, b, 0);
}

/// A character of a pattern stands for itself, an escaped slash for a slash, and any other
/// escape for itself, with its backslash.
#[verifier::rlimit(60)]
#[verifier::spinoff_prover]
pub proof fn each_part_of_a_pattern(c: char)
    ensures
        c != '/' && c != '\\' ==> finds(seq![c], seq![c]),
        finds(seq!['\\', '/'], seq!['/']),
        c != '/' ==> finds(seq!['\\', c], seq!['\\', c]),
{
    reveal_with_fuel(is_pattern, 3);
    reveal_with_fuel(unescaped_from, 4);
    let one = seq![c];
    let slash = seq!['\\', '/'];
    let two = seq!['\\', c];
    assert(one.skip(1) =~= Seq::<char>::empty());
    assert(slash.skip(2) =~= Seq::<char>::empty());
    assert(two.skip(2) =~= Seq::<char>::empty());
    if c != '/' && c != '\\' {
        lemma_regex(one);
        assert(unescaped_from(one, 0) =~= one);
    }
    lemma_regex(slash);
    assert(unescaped_from(slash, 0) =~= seq!['/']);
    if c != '/' {
        lemma_regex(two);
        assert(unescaped_from(two, 0) =~= two);
    }
}

/// Where no slash stands in a pattern, nothing is left out.
pub(crate) proof fn lemma_nothing_left_out(p: Seq<char>, i: int)
    requires
        0 <= i <= p.len(),
        forall|j: int| 0 <= j < p.len() ==> #[trigger] p[j] != '/',
    ensures
        unescaped_from(p, i) == p.skip(i),
    decreases p.len() - i,
{
    if i < p.len() {
        lemma_nothing_left_out(p, i + 1);
        assert(seq![p[i]] + p.skip(i + 1) =~= p.skip(i));
    } else {
        assert(p.skip(i) =~= Seq::<char>::empty());
    }
}

/// A pattern without slashes stands for itself, every backslash in it included.
pub proof fn escapes_are_kept(p: Seq<char>)
    requires
        p.len() > 0,
        is_pattern(p),
        forall|j: int| 0 <= j < p.len() ==> #[trigger] p[j] != '/',
    ensures
        query_tree(seq!['/'] + p + seq!['/']) == Some(
            TreeView::Simple(QueryView::Regex { field: "message"@, pattern: p }),
        ),
{
    lemma_regex(p);
    lemma_nothing_left_out(p, 0);
    assert(p.skip(0) =~= p);
}

/// A text with a backslash before each slash.
pub open spec fn slashes_escaped(p: Seq<char>) -> Seq<char>
    decreases p.len(),
{
    if p.len() == 0 {
        Seq::empty()
    } else if p[0] == '/' {
        seq!['\\', '/'] + slashes_escaped(p.skip(1))
    } else {
        seq![p[0]] + slashes_escaped(p.skip(1))
    }
}

/// A text with its slashes escaped is a pattern, and stands for the text.
#[verifier::rlimit(60)]
#[verifier::spinoff_prover]
proof fn lemma_slashes(p: Seq<char>)
    requires
        forall|j: int| 0 <= j < p.len() ==> #[trigger] p[j] != '\\',
    ensures
        slashes_escaped(p).len() >= p.len(),
        is_pattern(slashes_escaped(p)),
        unescaped_from(slashes_escaped(p), 0) == p,
    decreases p.len(),
{
    if p.len() == 0 {
        assert(p =~= Seq::<char>::empty());
    } else {
        let rest = p.skip(1);
        let tail = slashes_escaped(rest);
        let first = if p[0] == '/' {
            seq!['\\', '/']
        } else {
            seq![p[0]]
        };
        assert forall|j: int| 0 <= j < rest.len() implies #[trigger] rest[j] != '\\' by {
            assert(rest[j] == p[j + 1]);
        }
        lemma_slashes(rest);
        assert(is_pattern(Seq::<char>::empty()));
        assert(first.skip(first.len() as int) =~= Seq::<char>::empty());
        assert(is_pattern(first));
        assert(first.skip(0) =~= first);
        lemma_patterns(first, tail);
        lemma_unescaped_before(first, tail, 0);
        assert(unescaped_from(first, 0) =~= seq![p[0]]) by {
            reveal_with_fuel(unescaped_from, 3);
        }
        assert(seq![p[0]] + rest =~= p);
    }
}

/// A text without backslashes is searched for as an expression when its slashes are
/// escaped.
pub proof fn escaped_slashes_are_slashes(p: Seq<char>)
    requires
        p.len() > 0,
        forall|j: int| 0 <= j < p.len() ==> #[trigger] p[j] != '\\',
    ensures
        query_tree(seq!['/'] + slashes_escaped(p) + seq!['/']) == Some(
            TreeView::Simple(QueryView::Regex { field: "message"@, pattern: p }),
        ),
{
    lemma_slashes(p);
    lemma_regex(slashes_escaped(p));
}

} // verus!
