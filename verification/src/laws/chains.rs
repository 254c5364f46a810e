//! Searches made of words, `AND`, `OR`, `NOT` and parentheses.
use vstd::prelude::*;

use crate::laws::query::{is_gap, is_word, of_words};
use crate::query::ast::{QueryView, TreeView};
use crate::query::grammar::{
    and_join, and_tail, disjunction_reading, expr_reading, leaf_reading, negation_end, operator_end,
    or_join, or_tail, parens_reading, query_tree, simple_reading,
};
use crate::query::lexer::{run_end, word_at, Class};
use crate::query::meaning::{compile_keeps_meaning, meets, satisfies};
use crate::query::parse::search_at;

verus! {

/// A part of a search: a word, or in parentheses choices of which each must be met, or
/// the denial of such choices.
pub enum Formula {
    Word(Seq<char>),
    Group(Seq<Seq<Formula>>),
    Denied(Seq<Seq<Formula>>),
}

/// Whether a part can be written: its words are words, and there are no empty choices.
pub open spec fn sound(f: Formula) -> bool
    decreases f, 0int,
{
    match f {
        Formula::Word(t) => is_word(t),
        Formula::Group(cs) => cs.len() > 0 && sound_choices(cs, 0),
        Formula::Denied(cs) => cs.len() > 0 && sound_choices(cs, 0),
    }
}

/// Whether choices can be written, from the `k`th on.
pub open spec fn sound_choices(cs: Seq<Seq<Formula>>, k: int) -> bool
    decreases cs, cs.len() - k,
{
    0 <= k < cs.len() ==> cs[k].len() > 0 && sound_parts(cs[k], 0) && sound_choices(cs, k + 1)
}

/// Whether parts can be written, from the `k`th on.
pub open spec fn sound_parts(fs: Seq<Formula>, k: int) -> bool
    decreases fs, fs.len() - k,
{
    0 <= k < fs.len() ==> sound(fs[k]) && sound_parts(fs, k + 1)
}

/// A part as it is written, with these gaps before and behind operators.
pub open spec fn text(f: Formula, g: Seq<char>, h: Seq<char>) -> Seq<char>
    decreases f, 0int,
{
    match f {
        Formula::Word(t) => t,
        Formula::Group(cs) => if cs.len() > 0 && cs[0].len() > 0 {
            seq!['('] + (text_from(cs[0], 0, g, h) + choices_from(cs, 1, g, h)) + seq![')']
        } else {
            Seq::empty()
        },
        Formula::Denied(cs) => if cs.len() > 0 && cs[0].len() > 0 {
            seq!['('] + (seq!['N', 'O', 'T'] + h) + (text_from(cs[0], 0, g, h) + choices_from(
                cs,
                1,
                g,
                h,
            )) + seq![')']
        } else {
            Seq::empty()
        },
    }
}

/// The parts from the `k`th on as they are written, with `OR` between them, and before
/// them where they are not the first.
pub open spec fn text_from(fs: Seq<Formula>, k: int, g: Seq<char>, h: Seq<char>) -> Seq<char>
    decreases fs, fs.len() - k,
{
    if 0 <= k < fs.len() {
        (if k > 0 {
            g + seq!['O', 'R'] + h
        } else {
            Seq::empty()
        }) + text(fs[k], g, h) + text_from(fs, k + 1, g, h)
    } else {
        Seq::empty()
    }
}

/// The choices from the `k`th on as they are written, each behind an `AND`.
pub open spec fn choices_from(cs: Seq<Seq<Formula>>, k: int, g: Seq<char>, h: Seq<char>) -> Seq<
    char,
>
    decreases cs, cs.len() - k,
{
    if 0 <= k < cs.len() {
        (g + seq!['A', 'N', 'D'] + h) + text_from(cs[k], 0, g, h) + choices_from(cs, k + 1, g, h)
    } else {
        Seq::empty()
    }
}

/// Choices as they are written: `OR` between the parts of a choice, and `AND` between
/// choices.
pub open spec fn choices_text(cs: Seq<Seq<Formula>>, g: Seq<char>, h: Seq<char>) -> Seq<char> {
    text_from(cs[0], 0, g, h) + choices_from(cs, 1, g, h)
}

/// The tree of a part.
pub open spec fn tree(f: Formula) -> TreeView
    decreases f, 0int,
{
    match f {
        Formula::Word(t) => TreeView::Simple(QueryView::Exact { field: "message"@, term: t }),
        Formula::Group(cs) => if cs.len() > 0 && cs[0].len() > 0 {
            all_of(any_tree(cs[0]), choice_trees(cs, 1))
        } else {
            TreeView::And(seq![])
        },
        Formula::Denied(cs) => if cs.len() > 0 && cs[0].len() > 0 {
            TreeView::Not(Box::new(all_of(any_tree(cs[0]), choice_trees(cs, 1))))
        } else {
            TreeView::And(seq![])
        },
    }
}

/// The tree of a choice: one of its parts.
pub open spec fn any_tree(fs: Seq<Formula>) -> TreeView
    decreases fs, fs.len() + 1,
{
    if fs.len() > 0 {
        any_of(tree(fs[0]), part_trees(fs, 1))
    } else {
        TreeView::Or(seq![])
    }
}

/// The trees of parts from the `k`th on.
pub open spec fn part_trees(fs: Seq<Formula>, k: int) -> Seq<TreeView>
    decreases fs, fs.len() - k,
{
    if 0 <= k < fs.len() {
        seq![tree(fs[k])] + part_trees(fs, k + 1)
    } else {
        Seq::empty()
    }
}

/// The trees of choices from the `k`th on.
pub open spec fn choice_trees(cs: Seq<Seq<Formula>>, k: int) -> Seq<TreeView>
    decreases cs, cs.len() - k,
{
    if 0 <= k < cs.len() {
        seq![any_tree(cs[k])] + choice_trees(cs, k + 1)
    } else {
        Seq::empty()
    }
}

/// The tree that one of several is to be met: the first where there is no other. Where
/// the first is such a tree itself, the others join it.
pub open spec fn any_of(first: TreeView, others: Seq<TreeView>) -> TreeView {
    if others.len() == 0 {
        first
    } else {
        match first {
            TreeView::Or(xs) => TreeView::Or(xs + others),
            _ => TreeView::Or(seq![first] + others),
        }
    }
}

/// The tree that each of several is to be met: the first where there is no other. Where
/// the first is such a tree itself, the others join it.
pub open spec fn all_of(first: TreeView, others: Seq<TreeView>) -> TreeView {
    if others.len() == 0 {
        first
    } else {
        match first {
            TreeView::And(xs) => TreeView::And(xs + others),
            _ => TreeView::And(seq![first] + others),
        }
    }
}

/// Whether a part of a text stands at a place.
spec fn holds(s: Seq<char>, i: int, part: Seq<char>) -> bool {
    &&& 0 <= i && i + part.len() <= s.len()
    &&& forall|k: int| 0 <= k < part.len() ==> #[trigger] s[i + k] == part[k]
}

/// Two parts in a row stand where the whole does.
proof fn lemma_parts(s: Seq<char>, i: int, a: Seq<char>, b: Seq<char>)
    requires
        holds(s, i, a + b),
    ensures
        holds(s, i, a),
        holds(s, i + a.len(), b),
{
    assert forall|k: int| 0 <= k < a.len() implies #[trigger] s[i + k] == a[k] by {
        assert((a + b)[k] == a[k]);
    }
    assert forall|k: int| 0 <= k < b.len() implies #[trigger] s[i + a.len() + k] == b[k] by {
        assert((a + b)[a.len() + k] == b[k]);
        assert(s[i + (a.len() + k)] == b[k]);
    }
}

/// Whether a part can end at a place.
spec fn ended(s: Seq<char>, e: int) -> bool {
    e < s.len() ==> s[e] == ' ' || s[e] == '\t' || s[e] == ')'
}

/// A gap ends where something else follows it.
proof fn lemma_gap(s: Seq<char>, i: int, g: Seq<char>)
    requires
        is_gap(g) || g.len() == 0,
        holds(s, i, g),
        i + g.len() < s.len() ==> s[i + g.len()] != ' ' && s[i + g.len()] != '\t',
    ensures
        run_end(s, i, Class::Blank) == i + g.len(),
    decreases g.len(),
{
    if g.len() > 0 {
        assert(s[i + 0] == g[0]);
        let rest = g.skip(1);
        assert forall|k: int| 0 <= k < rest.len() implies #[trigger] s[i + 1 + k] == rest[k] by {
            assert(s[i + (k + 1)] == g[k + 1]);
        }
        lemma_gap(s, i + 1, rest);
    }
}

/// An operator between gaps, with something behind it that is no gap.
proof fn lemma_operator(s: Seq<char>, i: int, g: Seq<char>, word: Seq<char>, h: Seq<char>)
    requires
        is_gap(g),
        is_gap(h),
        word == seq!['O', 'R'] || word == seq!['A', 'N', 'D'],
        holds(s, i, g + word + h),
        i + (g + word + h).len() < s.len() ==> s[i + (g + word + h).len()] != ' ' && s[i + (g
            + word + h).len()] != '\t',
    ensures
        operator_end(s, i, word) == Some(i + (g + word + h).len() as int),
        word == seq!['A', 'N', 'D'] ==> operator_end(s, i, seq!['O', 'R']) is None,
        s[i] == ' ' || s[i] == '\t',
        i < s.len(),
{
    lemma_parts(s, i, g + word, h);
    lemma_parts(s, i, g, word);
    let a = i + g.len();
    assert(s[i + 0] == g[0]);
    assert(s[a + 0] == word[0]);
    assert(s[a + 1] == word[1]);
    lemma_gap(s, i, g);
    assert(s.subrange(a, a + word.len()) =~= word) by {
        assert forall|k: int| 0 <= k < word.len() implies s.subrange(a, a + word.len())[k]
            == word[k] by {
            assert(s[a + k] == word[k]);
        }
    }
    lemma_gap(s, a + word.len(), h);
    if word == seq!['A', 'N', 'D'] {
        let o = seq!['O', 'R'];
        if word_at(s, a, o) {
            assert(s.subrange(a, a + 2)[0] == o[0]);
            assert(false);
        }
    }
}

/// There is no operator where a text ends, nor before a closing parenthesis.
proof fn lemma_no_operator(s: Seq<char>, e: int, word: Seq<char>)
    requires
        0 <= e <= s.len(),
        e < s.len() ==> s[e] == ')',
    ensures
        operator_end(s, e, word) is None,
{
    assert(run_end(s, e, Class::Blank) == e);
}

/// A part begins with no gap.
proof fn lemma_first(f: Formula, g: Seq<char>, h: Seq<char>)
    requires
        sound(f),
    ensures
        text(f, g, h).len() > 0,
        text(f, g, h)[0] != ' ',
        text(f, g, h)[0] != '\t',
{
    match f {
        Formula::Word(t) => {
            assert(of_words(t[0]));
        },
        Formula::Group(cs) => {
            assert(sound_choices(cs, 0));
        },
        Formula::Denied(cs) => {
            assert(sound_choices(cs, 0));
        },
    }
}

/// A denial is no leaf.
proof fn lemma_no_leaf(s: Seq<char>, i: int)
    requires
        0 <= i,
        i + 3 < s.len(),
        s[i] == 'N',
        s[i + 1] == 'O',
        s[i + 2] == 'T',
    ensures
        leaf_reading(s, i) is None,
        parens_reading(s, i) is None,
        word_at(s, i, seq!['N', 'O', 'T']),
{
    assert(s.subrange(i, i + 3) =~= seq!['N', 'O', 'T']);
    assert(run_end(s, i, Class::Identifier) == i);
}

/// A parenthesis is no leaf.
proof fn lemma_paren_no_leaf(s: Seq<char>, i: int)
    requires
        0 <= i < s.len(),
        s[i] == '(',
    ensures
        leaf_reading(s, i) is None,
{
    assert(run_end(s, i, Class::Identifier) == i);
    assert(run_end(s, i, Class::Term) == i);
}

/// What stands in parentheses is read as it is without them.
proof fn lemma_in_parens(s: Seq<char>, i: int, e: int, t: TreeView)
    requires
        0 <= i < e < s.len(),
        s[i] == '(',
        s[e] == ')',
        expr_reading(s, i + 1) == Some((e, t)),
    ensures
        simple_reading(s, i) == Some((e + 1, t)),
{
    lemma_paren_no_leaf(s, i);
}

/// What no operator follows is read alone.
proof fn lemma_sole(s: Seq<char>, i: int, e: int, t: TreeView)
    requires
        0 <= i < e <= s.len(),
        e < s.len() ==> s[e] == ')',
        simple_reading(s, i) == Some((e, t)),
    ensures
        expr_reading(s, i) == Some((e, t)),
{
    lemma_no_operator(s, e, seq!['O', 'R']);
    lemma_no_operator(s, e, seq!['A', 'N', 'D']);
    assert(or_tail(s, e, t) == (e, t));
    assert(and_tail(s, e, t) == (e, t));
}

/// A part is read as its tree.
#[verifier::rlimit(60)]
#[verifier::spinoff_prover]
proof fn lemma_part(s: Seq<char>, i: int, f: Formula, g: Seq<char>, h: Seq<char>)
    requires
        sound(f),
        is_gap(g),
        is_gap(h),
        holds(s, i, text(f, g, h)),
        ended(s, i + text(f, g, h).len()),
    ensures
        simple_reading(s, i) == Some((i + text(f, g, h).len() as int, tree(f))),
    decreases f, 0int, 0int,
{
    match f {
        Formula::Word(t) => {
            crate::laws::query::word_is_read(s, i, t);
        },
        Formula::Group(cs) => {
            let inner = choices_text(cs, g, h);
            lemma_parts(s, i, seq!['('] + inner, seq![')']);
            lemma_parts(s, i, seq!['('], inner);
            assert(s[i + 0] == '(');
            let e = i + 1 + inner.len();
            assert(s[e + 0] == ')');
            lemma_choices(s, i + 1, cs, g, h);
            lemma_in_parens(s, i, e, tree(f));
        },
        Formula::Denied(cs) => {
            let inner = choices_text(cs, g, h);
            let head = seq!['N', 'O', 'T'] + h;
            lemma_parts(s, i, seq!['('] + head + inner, seq![')']);
            lemma_parts(s, i, seq!['('] + head, inner);
            lemma_parts(s, i, seq!['('], head);
            assert(s[i + 0] == '(');
            let e = i + 1 + head.len() + inner.len();
            assert(s[e + 0] == ')');
            lemma_denied(s, i + 1, cs, g, h);
            lemma_sole(s, i + 1, e, tree(f));
            lemma_in_parens(s, i, e, tree(f));
        },
    }
}

/// A denial is read as the denial of what follows it.
#[verifier::rlimit(60)]
#[verifier::spinoff_prover]
proof fn lemma_denied(s: Seq<char>, i: int, cs: Seq<Seq<Formula>>, g: Seq<char>, h: Seq<char>)
    requires
        cs.len() > 0,
        sound_choices(cs, 0),
        is_gap(g),
        is_gap(h),
        holds(s, i, seq!['N', 'O', 'T'] + h),
        holds(s, i + 3 + h.len(), choices_text(cs, g, h)),
        ({
            let e = i + 3 + h.len() + choices_text(cs, g, h).len();
            e < s.len() ==> s[e] == ')'
        }),
    ensures
        simple_reading(s, i) == Some(
            (
                i + 3 + h.len() + choices_text(cs, g, h).len() as int,
                TreeView::Not(Box::new(all_of(any_tree(cs[0]), choice_trees(cs, 1)))),
            ),
        ),
    decreases cs, 4int, 0int,
{
    let k = i + 3 + h.len();
    let w = seq!['N', 'O', 'T'];
    lemma_parts(s, i, w, h);
    assert(s[i + 0] == w[0] && s[i + 1] == w[1] && s[i + 2] == w[2]);
    lemma_choices(s, k, cs, g, h);
    assert(s[i + 3 + 0] == h[0]);
    lemma_no_leaf(s, i);
    assert(s[k] != ' ' && s[k] != '\t') by {
        assert(sound_parts(cs[0], 0));
        lemma_first(cs[0][0], g, h);
        lemma_head(cs[0], g, h);
        let c = choices_text(cs, g, h);
        assert(s[k + 0] == c[0]);
    }
    lemma_gap(s, i + 3, h);
    assert(negation_end(s, i) == Some(k));
}

/// The first part of a choice stands first.
proof fn lemma_head(fs: Seq<Formula>, g: Seq<char>, h: Seq<char>)
    requires
        fs.len() > 0,
        sound_parts(fs, 0),
    ensures
        text_from(fs, 0, g, h) == text(fs[0], g, h) + text_from(fs, 1, g, h),
        text_from(fs, 0, g, h).len() > 0,
        text_from(fs, 0, g, h)[0] == text(fs[0], g, h)[0],
{
    lemma_first(fs[0], g, h);
    assert(Seq::<char>::empty() + text(fs[0], g, h) =~= text(fs[0], g, h));
}

/// The parts of a choice from the `k`th on are read as further ones.
#[verifier::rlimit(60)]
#[verifier::spinoff_prover]
proof fn lemma_parts_behind(
    s: Seq<char>,
    i: int,
    fs: Seq<Formula>,
    k: int,
    left: TreeView,
    g: Seq<char>,
    h: Seq<char>,
)
    requires
        1 <= k,
        sound_parts(fs, k),
        is_gap(g),
        is_gap(h),
        holds(s, i, text_from(fs, k, g, h)),
        ended(s, i + text_from(fs, k, g, h).len()),
        operator_end(s, i + text_from(fs, k, g, h).len() as int, seq!['O', 'R']) is None,
    ensures
        or_tail(s, i, left) == (
            i + text_from(fs, k, g, h).len() as int,
            any_of(left, part_trees(fs, k)),
        ),
    decreases fs, 1int, fs.len() - k,
{
    let all = text_from(fs, k, g, h);
    if k < fs.len() {
        let op = g + seq!['O', 'R'] + h;
        let t = text(fs[k], g, h);
        let rest = text_from(fs, k + 1, g, h);
        lemma_parts(s, i, op + t, rest);
        lemma_parts(s, i, op, t);
        lemma_first(fs[k], g, h);
        let b = i + op.len();
        let j = b + t.len();
        assert(s[b + 0] == t[0]);
        lemma_operator(s, i, g, seq!['O', 'R'], h);
        assert(ended(s, j)) by {
            if k + 1 < fs.len() {
                lemma_parts(s, j, op + text(fs[k + 1], g, h), text_from(fs, k + 2, g, h));
                lemma_parts(s, j, op, text(fs[k + 1], g, h));
                lemma_parts(s, j, g + seq!['O', 'R'], h);
                lemma_parts(s, j, g, seq!['O', 'R']);
                assert(s[j + 0] == g[0]);
            }
        }
        lemma_part(s, b, fs[k], g, h);
        let next = or_join(left, tree(fs[k]));
        lemma_parts_behind(s, j, fs, k + 1, next, g, h);
        assert(or_tail(s, i, left) == or_tail(s, j, next));
        let others = part_trees(fs, k + 1);
        assert(part_trees(fs, k) == seq![tree(fs[k])] + others);
        lemma_one_more_any(left, tree(fs[k]), others);
    } else {
        assert(all =~= Seq::<char>::empty());
    }
}

/// One more of several of which one is to be met.
proof fn lemma_one_more_any(left: TreeView, t: TreeView, others: Seq<TreeView>)
    ensures
        any_of(or_join(left, t), others) == any_of(left, seq![t] + others),
{
    match left {
        TreeView::Or(xs) => {
            assert(xs.push(t) + others =~= xs + (seq![t] + others));
            assert(xs.push(t) =~= xs + (seq![t] + Seq::empty()));
            if others.len() == 0 {
                assert(seq![t] + others =~= seq![t]);
                assert(xs + seq![t] =~= xs.push(t));
            }
        },
        _ => {
            assert(seq![left, t] + others =~= seq![left] + (seq![t] + others));
            if others.len() == 0 {
                assert(seq![left] + (seq![t] + others) =~= seq![left, t]);
            }
        },
    }
}

/// One more of several of which each is to be met.
proof fn lemma_one_more_all(left: TreeView, t: TreeView, others: Seq<TreeView>)
    ensures
        all_of(and_join(left, t), others) == all_of(left, seq![t] + others),
{
    match left {
        TreeView::And(xs) => {
            assert(xs.push(t) + others =~= xs + (seq![t] + others));
            if others.len() == 0 {
                assert(seq![t] + others =~= seq![t]);
                assert(xs + seq![t] =~= xs.push(t));
            }
        },
        _ => {
            assert(seq![left, t] + others =~= seq![left] + (seq![t] + others));
            if others.len() == 0 {
                assert(seq![left] + (seq![t] + others) =~= seq![left, t]);
            }
        },
    }
}

/// A choice is read as its tree.
#[verifier::rlimit(60)]
#[verifier::spinoff_prover]
proof fn lemma_choice(s: Seq<char>, i: int, fs: Seq<Formula>, g: Seq<char>, h: Seq<char>)
    requires
        fs.len() > 0,
        sound_parts(fs, 0),
        is_gap(g),
        is_gap(h),
        holds(s, i, text_from(fs, 0, g, h)),
        ended(s, i + text_from(fs, 0, g, h).len()),
        operator_end(s, i + text_from(fs, 0, g, h).len() as int, seq!['O', 'R']) is None,
    ensures
        disjunction_reading(s, i) == Some((i + text_from(fs, 0, g, h).len() as int, any_tree(fs))),
    decreases fs, 2int, 0int,
{
    let t = text(fs[0], g, h);
    let rest = text_from(fs, 1, g, h);
    lemma_head(fs, g, h);
    lemma_first(fs[0], g, h);
    lemma_parts(s, i, t, rest);
    let j = i + t.len();
    assert(ended(s, j)) by {
        if 1 < fs.len() {
            let op = g + seq!['O', 'R'] + h;
            lemma_parts(s, j, op + text(fs[1], g, h), text_from(fs, 2, g, h));
            lemma_parts(s, j, op, text(fs[1], g, h));
            lemma_parts(s, j, g + seq!['O', 'R'], h);
            lemma_parts(s, j, g, seq!['O', 'R']);
            assert(s[j + 0] == g[0]);
        } else {
            assert(rest =~= Seq::<char>::empty());
        }
    }
    lemma_part(s, i, fs[0], g, h);
    lemma_parts_behind(s, j, fs, 1, tree(fs[0]), g, h);
}

/// What stands behind a choice: the text ends there, or a closing parenthesis or an `AND`
/// follows.
proof fn lemma_behind_choice(
    s: Seq<char>,
    i: int,
    cs: Seq<Seq<Formula>>,
    k: int,
    g: Seq<char>,
    h: Seq<char>,
)
    requires
        1 <= k <= cs.len(),
        sound_choices(cs, k),
        is_gap(g),
        is_gap(h),
        holds(s, i, choices_from(cs, k, g, h)),
        ({
            let e = i + choices_from(cs, k, g, h).len();
            e < s.len() ==> s[e] == ')'
        }),
    ensures
        ended(s, i),
        operator_end(s, i, seq!['O', 'R']) is None,
        k < cs.len() ==> operator_end(s, i, seq!['A', 'N', 'D']) == Some(
            i + (g + seq!['A', 'N', 'D'] + h).len() as int,
        ),
        k == cs.len() ==> operator_end(s, i, seq!['A', 'N', 'D']) is None,
{
    if k < cs.len() {
        let op = g + seq!['A', 'N', 'D'] + h;
        let t = text_from(cs[k], 0, g, h);
        lemma_parts(s, i, op + t, choices_from(cs, k + 1, g, h));
        lemma_parts(s, i, op, t);
        lemma_head(cs[k], g, h);
        assert(sound_parts(cs[k], 0));
        lemma_first(cs[k][0], g, h);
        assert(s[i + op.len() + 0] == t[0]);
        lemma_operator(s, i, g, seq!['A', 'N', 'D'], h);
    } else {
        assert(choices_from(cs, k, g, h) =~= Seq::<char>::empty());
        lemma_no_operator(s, i, seq!['O', 'R']);
        lemma_no_operator(s, i, seq!['A', 'N', 'D']);
    }
}

/// The choices from the `k`th on are read as further ones.
#[verifier::rlimit(60)]
#[verifier::spinoff_prover]
proof fn lemma_choices_behind(
    s: Seq<char>,
    i: int,
    cs: Seq<Seq<Formula>>,
    k: int,
    left: TreeView,
    g: Seq<char>,
    h: Seq<char>,
)
    requires
        1 <= k <= cs.len(),
        sound_choices(cs, k),
        is_gap(g),
        is_gap(h),
        holds(s, i, choices_from(cs, k, g, h)),
        ({
            let e = i + choices_from(cs, k, g, h).len();
            e < s.len() ==> s[e] == ')'
        }),
    ensures
        and_tail(s, i, left) == (
            i + choices_from(cs, k, g, h).len() as int,
            all_of(left, choice_trees(cs, k)),
        ),
    decreases cs, 1int, cs.len() - k,
{
    lemma_behind_choice(s, i, cs, k, g, h);
    if k < cs.len() {
        let op = g + seq!['A', 'N', 'D'] + h;
        let t = text_from(cs[k], 0, g, h);
        let rest = choices_from(cs, k + 1, g, h);
        lemma_parts(s, i, op + t, rest);
        lemma_parts(s, i, op, t);
        lemma_head(cs[k], g, h);
        let b = i + op.len();
        let j = b + t.len();
        lemma_behind_choice(s, j, cs, k + 1, g, h);
        lemma_choice(s, b, cs[k], g, h);
        let next = and_join(left, any_tree(cs[k]));
        lemma_choices_behind(s, j, cs, k + 1, next, g, h);
        assert(and_tail(s, i, left) == and_tail(s, j, next));
        let others = choice_trees(cs, k + 1);
        assert(choice_trees(cs, k) == seq![any_tree(cs[k])] + others);
        lemma_one_more_all(left, any_tree(cs[k]), others);
    } else {
        assert(choices_from(cs, k, g, h) =~= Seq::<char>::empty());
    }
}

/// Choices are read as their tree.
#[verifier::rlimit(60)]
#[verifier::spinoff_prover]
proof fn lemma_choices(s: Seq<char>, i: int, cs: Seq<Seq<Formula>>, g: Seq<char>, h: Seq<char>)
    requires
        cs.len() > 0,
        sound_choices(cs, 0),
        is_gap(g),
        is_gap(h),
        holds(s, i, choices_text(cs, g, h)),
        ({
            let e = i + choices_text(cs, g, h).len();
            e < s.len() ==> s[e] == ')'
        }),
    ensures
        expr_reading(s, i) == Some(
            (
                i + choices_text(cs, g, h).len() as int,
                all_of(any_tree(cs[0]), choice_trees(cs, 1)),
            ),
        ),
        choices_text(cs, g, h).len() > 0,
    decreases cs, 3int, 0int,
{
    let t = text_from(cs[0], 0, g, h);
    let rest = choices_from(cs, 1, g, h);
    lemma_parts(s, i, t, rest);
    lemma_head(cs[0], g, h);
    let j = i + t.len();
    lemma_behind_choice(s, j, cs, 1, g, h);
    lemma_choice(s, i, cs[0], g, h);
    lemma_choices_behind(s, j, cs, 1, any_tree(cs[0]), g, h);
}

/// A search made of words, `OR` between the parts of a choice, `AND` between choices, and
/// parentheses is read as that: `OR` binds more tightly than `AND`.
#[verifier::rlimit(60)]
#[verifier::spinoff_prover]
pub proof fn chains_are_read(cs: Seq<Seq<Formula>>, g: Seq<char>, h: Seq<char>)
    requires
        is_gap(g),
        is_gap(h),
    ensures
        cs.len() > 0 && sound_choices(cs, 0) ==> query_tree(choices_text(cs, g, h)) == Some(
            all_of(any_tree(cs[0]), choice_trees(cs, 1)),
        ),
{
    if cs.len() > 0 && sound_choices(cs, 0) {
        let s = choices_text(cs, g, h);
        assert(holds(s, 0, s));
        lemma_choices(s, 0, cs, g, h);
    }
}

/// A text that is read to its end without an operator outside it.
proof fn lemma_whole(s: Seq<char>, t: TreeView)
    requires
        s.len() > 0,
        simple_reading(s, 0) == Some((s.len() as int, t)),
    ensures
        query_tree(s) == Some(t),
{
    lemma_sole(s, 0, s.len() as int, t);
}

/// `NOT` before a search denies all of it.
#[verifier::rlimit(60)]
#[verifier::spinoff_prover]
pub proof fn denials_are_read(cs: Seq<Seq<Formula>>, g: Seq<char>, h: Seq<char>)
    requires
        is_gap(g),
        is_gap(h),
    ensures
        cs.len() > 0 && sound_choices(cs, 0) ==> query_tree(
            seq!['N', 'O', 'T'] + h + choices_text(cs, g, h),
        ) == Some(TreeView::Not(Box::new(all_of(any_tree(cs[0]), choice_trees(cs, 1))))),
{
    if cs.len() > 0 && sound_choices(cs, 0) {
        let head = seq!['N', 'O', 'T'] + h;
        let inner = choices_text(cs, g, h);
        let s = head + inner;
        assert(holds(s, 0, s));
        lemma_parts(s, 0, head, inner);
        lemma_denied(s, 0, cs, g, h);
        lemma_whole(s, TreeView::Not(Box::new(all_of(any_tree(cs[0]), choice_trees(cs, 1)))));
    }
}

/// Whether a document meets what a part says, given which searches for words it meets.
pub open spec fn means(leaf: spec_fn(QueryView) -> bool, f: Formula) -> bool
    decreases f, 0int,
{
    match f {
        Formula::Word(t) => leaf(QueryView::Exact { field: "message"@, term: t }),
        Formula::Group(cs) => means_each(leaf, cs),
        Formula::Denied(cs) => !means_each(leaf, cs),
    }
}

/// Whether a document meets a part of a choice.
pub open spec fn means_one(leaf: spec_fn(QueryView) -> bool, fs: Seq<Formula>) -> bool
    decreases fs, 1int,
{
    exists|j: int| 0 <= j < fs.len() && means(leaf, #[trigger] fs[j])
}

/// Whether a document meets a part of each choice.
pub open spec fn means_each(leaf: spec_fn(QueryView) -> bool, cs: Seq<Seq<Formula>>) -> bool
    decreases cs, 2int,
{
    forall|i: int| 0 <= i < cs.len() ==> means_one(leaf, #[trigger] cs[i])
}

/// A tree of which one part is to be met.
proof fn lemma_or(leaf: spec_fn(QueryView) -> bool, xs: Seq<TreeView>)
    ensures
        satisfies(leaf, TreeView::Or(xs)) <==> one_met(leaf, xs),
{
    let t = TreeView::Or(xs);
    if satisfies(leaf, t) {
        match t {
            TreeView::Or(subs) => {
                let i = choose|i: int| 0 <= i < subs.len() && satisfies(leaf, #[trigger] subs[i]);
                assert(satisfies(leaf, xs[i]));
            },
            _ => {},
        }
    }
    if one_met(leaf, xs) {
        match t {
            TreeView::Or(subs) => {
                let i = choose|i: int| 0 <= i < xs.len() && satisfies(leaf, #[trigger] xs[i]);
                assert(satisfies(leaf, subs[i]));
            },
            _ => {},
        }
    }
}

/// A tree of which each part is to be met.
proof fn lemma_and(leaf: spec_fn(QueryView) -> bool, xs: Seq<TreeView>)
    ensures
        satisfies(leaf, TreeView::And(xs)) <==> each_met(leaf, xs),
{
    let t = TreeView::And(xs);
    if satisfies(leaf, t) {
        assert forall|i: int| 0 <= i < xs.len() implies satisfies(leaf, #[trigger] xs[i]) by {
            match t {
                TreeView::And(subs) => {
                    assert(satisfies(leaf, subs[i]));
                },
                _ => {},
            }
        }
    }
}

/// The trees of parts, one by one.
proof fn lemma_part_trees(fs: Seq<Formula>, k: int, j: int)
    requires
        0 <= k <= j < fs.len(),
    ensures
        part_trees(fs, k).len() == fs.len() - k,
        part_trees(fs, k)[j - k] == tree(fs[j]),
    decreases fs.len() - k,
{
    if k < j {
        lemma_part_trees(fs, k + 1, j);
    } else if k + 1 < fs.len() {
        lemma_part_trees(fs, k + 1, k + 1);
    }
}

/// The trees of choices, one by one.
proof fn lemma_choice_trees(cs: Seq<Seq<Formula>>, k: int, j: int)
    requires
        0 <= k <= j < cs.len(),
    ensures
        choice_trees(cs, k).len() == cs.len() - k,
        choice_trees(cs, k)[j - k] == any_tree(cs[j]),
    decreases cs.len() - k,
{
    if k < j {
        lemma_choice_trees(cs, k + 1, j);
    } else if k + 1 < cs.len() {
        lemma_choice_trees(cs, k + 1, k + 1);
    }
}

/// Whether one of several trees is met.
spec fn one_met(leaf: spec_fn(QueryView) -> bool, xs: Seq<TreeView>) -> bool {
    exists|i: int| 0 <= i < xs.len() && satisfies(leaf, #[trigger] xs[i])
}

/// Whether each of several trees is met.
spec fn each_met(leaf: spec_fn(QueryView) -> bool, xs: Seq<TreeView>) -> bool {
    forall|i: int| 0 <= i < xs.len() ==> satisfies(leaf, #[trigger] xs[i])
}

/// Of two lists one tree is met where it is of one of them.
proof fn lemma_met_in_a_row(leaf: spec_fn(QueryView) -> bool, xs: Seq<TreeView>, ys: Seq<TreeView>)
    ensures
        one_met(leaf, xs + ys) <==> one_met(leaf, xs) || one_met(leaf, ys),
        each_met(leaf, xs + ys) <==> each_met(leaf, xs) && each_met(leaf, ys),
{
    let all = xs + ys;
    assert forall|i: int| 0 <= i < xs.len() implies all[i] == #[trigger] xs[i] by {}
    assert forall|i: int| 0 <= i < ys.len() implies all[xs.len() + i] == #[trigger] ys[i] by {}
    if one_met(leaf, xs) {
        let i = choose|i: int| 0 <= i < xs.len() && satisfies(leaf, #[trigger] xs[i]);
        assert(satisfies(leaf, all[i]));
    }
    if one_met(leaf, ys) {
        let i = choose|i: int| 0 <= i < ys.len() && satisfies(leaf, #[trigger] ys[i]);
        assert(satisfies(leaf, all[xs.len() + i]));
    }
    if one_met(leaf, all) {
        let i = choose|i: int| 0 <= i < all.len() && satisfies(leaf, #[trigger] all[i]);
        if i < xs.len() {
            assert(satisfies(leaf, xs[i]));
        } else {
            assert(satisfies(leaf, ys[i - xs.len()]));
        }
    }
    if each_met(leaf, all) {
        assert forall|i: int| 0 <= i < xs.len() implies satisfies(leaf, #[trigger] xs[i]) by {
            assert(satisfies(leaf, all[i]));
        }
        assert forall|i: int| 0 <= i < ys.len() implies satisfies(leaf, #[trigger] ys[i]) by {
            assert(satisfies(leaf, all[xs.len() + i]));
        }
    }
    if each_met(leaf, xs) && each_met(leaf, ys) {
        assert forall|i: int| 0 <= i < all.len() implies satisfies(leaf, #[trigger] all[i]) by {
            if i < xs.len() {
                assert(satisfies(leaf, xs[i]));
            } else {
                assert(satisfies(leaf, ys[i - xs.len()]));
            }
        }
    }
}

/// Which trees of which one is to be met are met.
proof fn lemma_any_of(leaf: spec_fn(QueryView) -> bool, first: TreeView, others: Seq<TreeView>)
    ensures
        satisfies(leaf, any_of(first, others)) <==> satisfies(leaf, first) || one_met(
            leaf,
            others,
        ),
{
    if others.len() > 0 {
        let xs = match first {
            TreeView::Or(xs) => xs,
            _ => seq![first],
        };
        assert(satisfies(leaf, first) <==> one_met(leaf, xs)) by {
            if first is Or {
                lemma_or(leaf, xs);
            } else if satisfies(leaf, first) {
                assert(satisfies(leaf, xs[0]));
            }
        }
        lemma_met_in_a_row(leaf, xs, others);
        lemma_or(leaf, xs + others);
    }
}

/// Which trees of which each is to be met are met.
proof fn lemma_all_of(leaf: spec_fn(QueryView) -> bool, first: TreeView, others: Seq<TreeView>)
    ensures
        satisfies(leaf, all_of(first, others)) <==> satisfies(leaf, first) && each_met(
            leaf,
            others,
        ),
{
    if others.len() > 0 {
        let xs = match first {
            TreeView::And(xs) => xs,
            _ => seq![first],
        };
        assert(satisfies(leaf, first) <==> each_met(leaf, xs)) by {
            if first is And {
                lemma_and(leaf, xs);
            } else if each_met(leaf, xs) {
                assert(satisfies(leaf, xs[0]));
            }
        }
        lemma_met_in_a_row(leaf, xs, others);
        lemma_and(leaf, xs + others);
    }
}

/// The tree of a choice is met where one of its parts is.
#[verifier::rlimit(60)]
#[verifier::spinoff_prover]
proof fn lemma_choice_met(leaf: spec_fn(QueryView) -> bool, fs: Seq<Formula>)
    requires
        fs.len() > 0,
        sound_parts(fs, 0),
    ensures
        satisfies(leaf, any_tree(fs)) <==> means_one(leaf, fs),
    decreases fs, 1int,
{
    let others = part_trees(fs, 1);
    lemma_any_of(leaf, tree(fs[0]), others);
    assert(others.len() == fs.len() - 1) by {
        if fs.len() > 1 {
            lemma_part_trees(fs, 1, 1);
        }
    }
    assert forall|j: int| 0 <= j < fs.len() implies satisfies(leaf, tree(#[trigger] fs[j]))
        == means(leaf, fs[j]) by {
        lemma_sound_part(fs, 0, j);
        lemma_part_met(leaf, fs[j]);
    }
    assert forall|j: int| 1 <= j < fs.len() implies others[j - 1] == tree(#[trigger] fs[j]) by {
        lemma_part_trees(fs, 1, j);
    }
    if satisfies(leaf, any_tree(fs)) {
        if satisfies(leaf, tree(fs[0])) {
            assert(means(leaf, fs[0]));
        } else {
            let i = choose|i: int| 0 <= i < others.len() && satisfies(leaf, #[trigger] others[i]);
            assert(others[(i + 1) - 1] == tree(fs[i + 1]));
            assert(means(leaf, fs[i + 1]));
        }
    }
    if means_one(leaf, fs) {
        let j = choose|j: int| 0 <= j < fs.len() && means(leaf, #[trigger] fs[j]);
        if j > 0 {
            assert(satisfies(leaf, others[j - 1]));
        }
    }
}

/// Each part can be written where all of them can.
proof fn lemma_sound_part(fs: Seq<Formula>, k: int, j: int)
    requires
        0 <= k <= j < fs.len(),
        sound_parts(fs, k),
    ensures
        sound(fs[j]),
    decreases j - k,
{
    if k < j {
        lemma_sound_part(fs, k + 1, j);
    }
}

/// Each choice can be written where all of them can.
proof fn lemma_sound_choice(cs: Seq<Seq<Formula>>, k: int, j: int)
    requires
        0 <= k <= j < cs.len(),
        sound_choices(cs, k),
    ensures
        cs[j].len() > 0,
        sound_parts(cs[j], 0),
    decreases j - k,
{
    if k < j {
        lemma_sound_choice(cs, k + 1, j);
    }
}

/// The tree of choices is met where of each a part is.
#[verifier::rlimit(60)]
#[verifier::spinoff_prover]
proof fn lemma_choices_met(leaf: spec_fn(QueryView) -> bool, cs: Seq<Seq<Formula>>)
    requires
        cs.len() > 0,
        sound_choices(cs, 0),
    ensures
        satisfies(leaf, all_of(any_tree(cs[0]), choice_trees(cs, 1))) <==> means_each(leaf, cs),
    decreases cs, 2int,
{
    let others = choice_trees(cs, 1);
    lemma_all_of(leaf, any_tree(cs[0]), others);
    assert(others.len() == cs.len() - 1) by {
        if cs.len() > 1 {
            lemma_choice_trees(cs, 1, 1);
        }
    }
    assert forall|i: int| 0 <= i < cs.len() implies satisfies(leaf, any_tree(#[trigger] cs[i]))
        == means_one(leaf, cs[i]) by {
        lemma_sound_choice(cs, 0, i);
        lemma_choice_met(leaf, cs[i]);
    }
    assert forall|i: int| 1 <= i < cs.len() implies others[i - 1] == any_tree(#[trigger] cs[i]) by {
        lemma_choice_trees(cs, 1, i);
    }
    if satisfies(leaf, any_tree(cs[0])) && each_met(leaf, others) {
        assert forall|i: int| 0 <= i < cs.len() implies means_one(leaf, #[trigger] cs[i]) by {
            if i > 0 {
                assert(satisfies(leaf, others[i - 1]));
            }
        }
    }
    if means_each(leaf, cs) {
        assert(means_one(leaf, cs[0]));
        assert forall|i: int| 0 <= i < others.len() implies satisfies(
            leaf,
            #[trigger] others[i],
        ) by {
            assert(means_one(leaf, cs[i + 1]));
            assert(others[(i + 1) - 1] == any_tree(cs[i + 1]));
        }
    }
}

/// The tree of a part is met where the part is.
proof fn lemma_part_met(leaf: spec_fn(QueryView) -> bool, f: Formula)
    requires
        sound(f),
    ensures
        satisfies(leaf, tree(f)) == means(leaf, f),
    decreases f, 0int,
{
    match f {
        Formula::Word(t) => {
            let q = QueryView::Exact { field: "message"@, term: t };
            assert(meets(leaf, q) == leaf(q));
        },
        Formula::Group(cs) => {
            assert(cs[0].len() > 0);
            lemma_choices_met(leaf, cs);
        },
        Formula::Denied(cs) => {
            assert(cs[0].len() > 0);
            lemma_choices_met(leaf, cs);
        },
    }
}

/// A search that is read as a tree finds what meets the tree.
proof fn lemma_search(s: Seq<char>, t: TreeView, leaf: spec_fn(QueryView) -> bool, now: u128)
    requires
        query_tree(s) == Some(t),
    ensures
        search_at(s, None, now) matches Ok(q) && (meets(leaf, q) <==> satisfies(leaf, t)),
{
    compile_keeps_meaning(leaf, t, None);
}

/// What a search finds: the documents that of each choice meet a part.
#[verifier::rlimit(60)]
#[verifier::spinoff_prover]
pub proof fn search_finds_what_it_says(
    cs: Seq<Seq<Formula>>,
    g: Seq<char>,
    h: Seq<char>,
    leaf: spec_fn(QueryView) -> bool,
    now: u128,
)
    requires
        is_gap(g),
        is_gap(h),
    ensures
        cs.len() > 0 && sound_choices(cs, 0) ==> {
            &&& search_at(choices_text(cs, g, h), None, now) matches Ok(q) && (meets(leaf, q)
                <==> means_each(leaf, cs))
            &&& search_at(seq!['N', 'O', 'T'] + h + choices_text(cs, g, h), None, now) matches Ok(q)
                && (meets(leaf, q) <==> !means_each(leaf, cs))
        },
{
    if cs.len() > 0 && sound_choices(cs, 0) {
        let t = all_of(any_tree(cs[0]), choice_trees(cs, 1));
        chains_are_read(cs, g, h);
        denials_are_read(cs, g, h);
        lemma_choices_met(leaf, cs);
        lemma_search(choices_text(cs, g, h), t, leaf, now);
        lemma_search(
            seq!['N', 'O', 'T'] + h + choices_text(cs, g, h),
            TreeView::Not(Box::new(t)),
            leaf,
            now,
        );
        assert(satisfies(leaf, TreeView::Not(Box::new(t))) == !satisfies(leaf, t));
    }
}

} // verus!
