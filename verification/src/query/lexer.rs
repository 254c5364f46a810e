//! Runs of characters: the vocabulary of the query language.
use vstd::prelude::*;

use crate::text::{chars_of, lemma_texts_push, string_of, texts};

verus! {

/// The letters and digits of ASCII.
pub open spec fn ascii_alphanumeric(c: char) -> bool {
    ('0' <= c && c <= '9') || ('A' <= c && c <= 'Z') || ('a' <= c && c <= 'z')
}

/// The white space of ASCII: tab, line feed, vertical tab, form feed, carriage
/// return and the space.
pub open spec fn ascii_whitespace(c: char) -> bool {
    c == ' ' || ('\t' <= c && c <= '\r')
}

/// The letters and digits beyond ASCII: those that `char::is_alphanumeric` holds
/// of, by the Unicode tables.
pub uninterp spec fn unicode_alphanumeric(c: char) -> bool;

/// The white space beyond ASCII: that which `char::is_whitespace` holds of, by
/// the Unicode tables.
pub uninterp spec fn unicode_whitespace(c: char) -> bool;

/// The letters and digits.
pub open spec fn alphanumeric(c: char) -> bool {
    if c <= '\x7f' {
        ascii_alphanumeric(c)
    } else {
        unicode_alphanumeric(c)
    }
}

/// The white space.
pub open spec fn whitespace(c: char) -> bool {
    if c <= '\x7f' {
        ascii_whitespace(c)
    } else {
        unicode_whitespace(c)
    }
}

/// `char::is_alphanumeric` is fixed by the character alone: the letters and
/// digits of ASCII, and beyond it what the Unicode tables say.
pub assume_specification[ char::is_alphanumeric ](c: char) -> (res: bool)
    ensures
        c <= '\x7f' ==> res == ascii_alphanumeric(c),
        c > '\x7f' ==> res == unicode_alphanumeric(c),
;

/// `char::is_whitespace` is fixed by the character alone: the white space of
/// ASCII, and beyond it what the Unicode tables say.
pub assume_specification[ char::is_whitespace ](c: char) -> (res: bool)
    ensures
        c <= '\x7f' ==> res == ascii_whitespace(c),
        c > '\x7f' ==> res == unicode_whitespace(c),
;

/// The classes of characters that the language tells apart.
#[derive(Clone, Copy)]
pub enum Class {
    /// A lower-case ASCII letter or an underscore.
    Identifier,
    /// A letter, a digit or an underscore.
    Term,
    /// A letter, a digit or white space.
    Phrase,
    /// A decimal digit.
    Digit,
    /// A space or a tab.
    Blank,
    /// White space.
    White,
    /// Anything but white space.
    Solid,
}

/// Whether a character belongs to a class.
pub open spec fn in_class(class: Class, c: char) -> bool {
    match class {
        Class::Identifier => ('a' <= c && c <= 'z') || c == '_',
        Class::Term => alphanumeric(c) || c == '_',
        Class::Phrase => alphanumeric(c) || whitespace(c),
        Class::Digit => '0' <= c && c <= '9',
        Class::Blank => c == ' ' || c == '\t',
        Class::White => whitespace(c),
        Class::Solid => !whitespace(c),
    }
}

/// The end of the longest run of the class that starts at `i`.
pub open spec fn run_end(s: Seq<char>, i: int, class: Class) -> int
    decreases s.len() - i,
{
    if 0 <= i < s.len() && in_class(class, s[i]) {
        run_end(s, i + 1, class)
    } else {
        i
    }
}

/// Whether the character `c` stands at `i`.
pub open spec fn at(s: Seq<char>, i: int, c: char) -> bool {
    0 <= i < s.len() && s[i] == c
}

/// Whether the word stands at `i`.
pub open spec fn word_at(s: Seq<char>, i: int, word: Seq<char>) -> bool {
    0 <= i && i + word.len() <= s.len() && s.subrange(i, i + word.len()) == word
}

/// A run lies within the text and ends where its class does.
pub proof fn lemma_run_end(s: Seq<char>, i: int, class: Class)
    requires
        0 <= i <= s.len(),
    ensures
        i <= run_end(s, i, class) <= s.len(),
        forall|j: int| i <= j < run_end(s, i, class) ==> in_class(class, #[trigger] s[j]),
        run_end(s, i, class) < s.len() ==> !in_class(class, s[run_end(s, i, class)]),
    decreases s.len() - i,
{
    if i < s.len() && in_class(class, s[i]) {
        lemma_run_end(s, i + 1, class);
    }
}

/// Whether a character belongs to a class.
pub fn is_in_class(class: Class, c: char) -> (res: bool)
    ensures
        res == in_class(class, c),
{
    match class {
        Class::Identifier => ('a' <= c && c <= 'z') || c == '_',
        Class::Term => c.is_alphanumeric() || c == '_',
        Class::Phrase => c.is_alphanumeric() || c.is_whitespace(),
        Class::Digit => '0' <= c && c <= '9',
        Class::Blank => c == ' ' || c == '\t',
        Class::White => c.is_whitespace(),
        Class::Solid => !c.is_whitespace(),
    }
}

/// Finds the end of the longest run of the class that starts at `i`.
pub fn scan(chars: &Vec<char>, i: usize, class: Class) -> (res: usize)
    requires
        i <= chars@.len(),
    ensures
        res == run_end(chars@, i as int, class),
        i <= res <= chars@.len(),
{
    let mut j: usize = i;
    while j < chars.len() && is_in_class(class, chars[j])
        invariant
            i <= j <= chars@.len(),
            run_end(chars@, i as int, class) == run_end(chars@, j as int, class),
        decreases chars@.len() - j,
    {
        j = j + 1;
    }
    j
}

/// Whether the character `c` stands at `i`.
pub fn is_at(chars: &Vec<char>, i: usize, c: char) -> (res: bool)
    ensures
        res == at(chars@, i as int, c),
        res ==> i < usize::MAX,
{
    i < chars.len() && chars[i] == c
}

/// Whether the three letters stand at `i`.
pub fn is_word3(chars: &Vec<char>, i: usize, a: char, b: char, c: char) -> (res: bool)
    requires
        i <= chars@.len(),
    ensures
        res == word_at(chars@, i as int, seq![a, b, c]),
        res ==> i + 3 <= usize::MAX,
{
    let ghost word = seq![a, b, c];
    if chars.len() - i < 3 {
        return false;
    }
    let res = chars[i] == a && chars[i + 1] == b && chars[i + 2] == c;
    proof {
        let part = chars@.subrange(i as int, i + 3);
        if res {
            assert(part =~= word);
        } else {
            assert(part[0] == chars@[i as int] && part[1] == chars@[i + 1] && part[2] == chars@[i
                + 2]);
        }
    }
    res
}

/// Whether the two letters stand at `i`.
pub fn is_word2(chars: &Vec<char>, i: usize, a: char, b: char) -> (res: bool)
    requires
        i <= chars@.len(),
    ensures
        res == word_at(chars@, i as int, seq![a, b]),
        res ==> i + 2 <= usize::MAX,
{
    let ghost word = seq![a, b];
    if chars.len() - i < 2 {
        return false;
    }
    let res = chars[i] == a && chars[i + 1] == b;
    proof {
        let part = chars@.subrange(i as int, i + 2);
        if res {
            assert(part =~= word);
        } else {
            assert(part[0] == chars@[i as int] && part[1] == chars@[i + 1]);
        }
    }
    res
}

/// The words of `s[i..]`: what stands between its white space.
pub open spec fn words_from(s: Seq<char>, i: int) -> Seq<Seq<char>>
    decreases s.len() - i,
{
    let start = run_end(s, i, Class::White);
    let end = run_end(s, start, Class::Solid);
    if 0 <= i <= start < end <= s.len() {
        seq![s.subrange(start, end)] + words_from(s, end)
    } else {
        Seq::empty()
    }
}

/// The words of a text.
pub open spec fn words(s: Seq<char>) -> Seq<Seq<char>> {
    words_from(s, 0)
}

/// Cuts a text at its white space, as `str::split_whitespace` does.
pub fn split_words(s: &str) -> (res: Vec<String>)
    ensures
        texts(res@) == words(s@),
{
    let chars = chars_of(s);
    let mut res: Vec<String> = Vec::new();
    let mut i: usize = 0;
    assert(texts(res@) + words_from(s@, 0) =~= words(s@));
    loop
        invariant
            chars@ == s@,
            i <= chars@.len(),
            texts(res@) + words_from(s@, i as int) == words(s@),
        decreases chars@.len() - i,
    {
        let start = scan(&chars, i, Class::White);
        let end = scan(&chars, start, Class::Solid);
        if start >= end {
            assert(texts(res@) + words_from(s@, i as int) =~= texts(res@));
            return res;
        }
        let word = string_of(&chars, start, end);
        proof {
            lemma_texts_push(res@, word);
            assert(texts(res@) + (seq![word@] + words_from(s@, end as int)) =~= texts(res@).push(
                word@,
            ) + words_from(s@, end as int));
        }
        res.push(word);
        i = end;
    }
}

} // verus!
