//! Strings as sequences of characters: equality, order, splitting and joining.
use vstd::prelude::*;

verus! {

/// `String::push` appends one character at the end.
pub assume_specification[ std::string::String::push ](s: &mut std::string::String, c: char)
    ensures
        final(s)@ == old(s)@.push(c),
;

/// The texts held by a sequence of strings.
pub open spec fn texts(v: Seq<String>) -> Seq<Seq<char>> {
    Seq::new(v.len(), |i: int| v[i]@)
}

/// The optional text, seen through its view.
pub open spec fn opt_text(s: Option<String>) -> Option<Seq<char>> {
    match s {
        Some(t) => Some(t@),
        None => None,
    }
}

/// Pushing a string pushes its text.
pub proof fn lemma_texts_push(v: Seq<String>, s: String)
    ensures
        texts(v.push(s)) == texts(v).push(s@),
{
    assert(texts(v.push(s)) =~= texts(v).push(s@));
}

/// The characters of a string, in order.
pub fn chars_of(s: &str) -> (res: Vec<char>)
    ensures
        res@ == s@,
{
    let mut res: Vec<char> = Vec::new();
    for c in it: s.chars()
        invariant
            it.seq() == s@,
            res@ == s@.take(it.index() as int),
    {
        assert(s@.take(it.index() as int).push(s@[it.index() as int]) =~= s@.take(
            it.index() as int + 1,
        ));
        res.push(c);
    }
    assert(s@.take(s@.len() as int) =~= s@);
    res
}

/// The string made of the characters in `chars[from..to]`.
pub fn string_of(chars: &Vec<char>, from: usize, to: usize) -> (res: String)
    requires
        from <= to <= chars@.len(),
    ensures
        res@ == chars@.subrange(from as int, to as int),
{
    let mut res = String::new();
    let mut i: usize = from;
    assert(res@ =~= chars@.subrange(from as int, from as int));
    while i < to
        invariant
            from <= i <= to <= chars@.len(),
            res@ == chars@.subrange(from as int, i as int),
        decreases to - i,
    {
        res.push(chars[i]);
        i = i + 1;
        assert(res@ =~= chars@.subrange(from as int, i as int));
    }
    res
}

/// Whether two strings hold the same characters.
pub fn str_eq(a: &str, b: &str) -> (res: bool)
    ensures
        res == (a@ == b@),
{
    a.to_owned() == b.to_owned()
}

/// Whether some string of the list holds the text `s`.
pub fn list_contains(v: &Vec<String>, s: &str) -> (res: bool)
    ensures
        res == texts(v@).contains(s@),
{
    let mut i: usize = 0;
    while i < v.len()
        invariant
            i <= v@.len(),
            forall|j: int| 0 <= j < i ==> (#[trigger] v@[j])@ != s@,
        decreases v@.len() - i,
    {
        if str_eq(v[i].as_str(), s) {
            assert(texts(v@)[i as int] == s@);
            return true;
        }
        i = i + 1;
    }
    assert forall|j: int| 0 <= j < texts(v@).len() implies texts(v@)[j] != s@ by {
        assert(v@[j]@ != s@);
    }
    false
}

/// A number made of four characters of a text: texts with different numbers differ.
pub open spec fn text_key(s: Seq<char>) -> int {
    let n = s.len() as int;
    ((s[0] as int * 256 + s[n - 2] as int) * 256 + s[n - 3] as int) * 256 + s[n / 3] as int
}

// ---------------------------------------------------------------------------
// Order
// ---------------------------------------------------------------------------

/// Lexicographic order by code point: `a` comes strictly before `b`.
pub open spec fn text_lt(a: Seq<char>, b: Seq<char>) -> bool
    decreases a.len(),
{
    if b.len() == 0 {
        false
    } else if a.len() == 0 {
        true
    } else if a[0] != b[0] {
        a[0] < b[0]
    } else {
        text_lt(a.drop_first(), b.drop_first())
    }
}

/// No text comes before itself.
pub proof fn text_lt_irreflexive(a: Seq<char>)
    ensures
        !text_lt(a, a),
    decreases a.len(),
{
    if a.len() > 0 {
        text_lt_irreflexive(a.drop_first());
    }
}

/// The order is transitive.
pub proof fn text_lt_transitive(a: Seq<char>, b: Seq<char>, c: Seq<char>)
    requires
        text_lt(a, b),
        text_lt(b, c),
    ensures
        text_lt(a, c),
    decreases a.len(),
{
    if a.len() > 0 && a[0] == b[0] && b[0] == c[0] {
        text_lt_transitive(a.drop_first(), b.drop_first(), c.drop_first());
    }
}

/// Of two different texts one comes before the other.
pub proof fn text_lt_total(a: Seq<char>, b: Seq<char>)
    requires
        a != b,
    ensures
        text_lt(a, b) || text_lt(b, a),
    decreases a.len(),
{
    if a.len() > 0 && b.len() > 0 && a[0] == b[0] {
        if a.drop_first() == b.drop_first() {
            assert(a =~= seq![a[0]] + a.drop_first());
            assert(b =~= seq![b[0]] + b.drop_first());
        }
        text_lt_total(a.drop_first(), b.drop_first());
    } else if a.len() == 0 && b.len() == 0 {
        assert(a =~= b);
    }
}

/// Whether `a` comes strictly before `b`, by code point.
pub fn str_less(a: &str, b: &str) -> (res: bool)
    ensures
        res == text_lt(a@, b@),
{
    let x = chars_of(a);
    let y = chars_of(b);
    let mut i: usize = 0;
    assert(x@.skip(0) =~= x@);
    assert(y@.skip(0) =~= y@);
    while i < x.len() && i < y.len()
        invariant
            x@ == a@,
            y@ == b@,
            i <= x@.len(),
            i <= y@.len(),
            text_lt(a@, b@) == text_lt(x@.skip(i as int), y@.skip(i as int)),
        decreases x@.len() - i,
    {
        if x[i] != y[i] {
            return x[i] < y[i];
        }
        assert(x@.skip(i as int).drop_first() =~= x@.skip(i as int + 1));
        assert(y@.skip(i as int).drop_first() =~= y@.skip(i as int + 1));
        i = i + 1;
    }
    i < y.len()
}

// ---------------------------------------------------------------------------
// Splitting and joining
// ---------------------------------------------------------------------------

/// The first position at or after `i` that holds `sep`, or the length.
pub open spec fn find_char(s: Seq<char>, sep: char, i: int) -> int
    decreases s.len() - i,
{
    if i < 0 || i >= s.len() {
        s.len() as int
    } else if s[i] == sep {
        i
    } else {
        find_char(s, sep, i + 1)
    }
}

proof fn lemma_find_char(s: Seq<char>, sep: char, i: int)
    requires
        0 <= i <= s.len(),
    ensures
        i <= find_char(s, sep, i) <= s.len(),
        find_char(s, sep, i) < s.len() ==> s[find_char(s, sep, i)] == sep,
        forall|j: int| i <= j < find_char(s, sep, i) ==> s[j] != sep,
    decreases s.len() - i,
{
    if i < s.len() && s[i] != sep {
        lemma_find_char(s, sep, i + 1);
    }
}

/// The pieces between the separators of `s[from..]`: one more than separators.
pub open spec fn split_from(s: Seq<char>, sep: char, from: int) -> Seq<Seq<char>>
    decreases s.len() - from,
{
    let k = find_char(s, sep, from);
    if from < 0 || from > s.len() || k < from || k >= s.len() {
        seq![s.subrange(from, s.len() as int)]
    } else {
        seq![s.subrange(from, k)] + split_from(s, sep, k + 1)
    }
}

/// The pieces of `s` between its separators.
pub open spec fn split_text(s: Seq<char>, sep: char) -> Seq<Seq<char>> {
    split_from(s, sep, 0)
}

/// `xs` written one after the other with `sep` between them.
pub open spec fn join_text(xs: Seq<Seq<char>>, sep: Seq<char>) -> Seq<char>
    decreases xs.len(),
{
    if xs.len() == 0 {
        Seq::empty()
    } else if xs.len() == 1 {
        xs[0]
    } else {
        join_text(xs.drop_last(), sep) + sep + xs.last()
    }
}

/// Cuts a string at every `sep`, as `str::split` does with a character.
pub fn split_on(s: &str, sep: char) -> (res: Vec<String>)
    ensures
        texts(res@) == split_text(s@, sep),
        res@.len() >= 1,
{
    let chars = chars_of(s);
    let mut res: Vec<String> = Vec::new();
    let mut from: usize = 0;
    let mut i: usize = 0;
    assert(texts(res@) + split_from(s@, sep, 0) =~= split_text(s@, sep));
    while i < chars.len()
        invariant
            chars@ == s@,
            from <= i <= chars@.len(),
            find_char(s@, sep, from as int) == find_char(s@, sep, i as int),
            texts(res@) + split_from(s@, sep, from as int) == split_text(s@, sep),
        decreases chars@.len() - i,
    {
        if chars[i] == sep {
            let piece = string_of(&chars, from, i);
            let ghost before = res@;
            proof {
                lemma_texts_push(before, piece);
                assert(texts(before) + (seq![piece@] + split_from(s@, sep, i as int + 1))
                    =~= texts(before).push(piece@) + split_from(s@, sep, i as int + 1));
            }
            res.push(piece);
            from = i + 1;
        }
        i = i + 1;
    }
    let piece = string_of(&chars, from, chars.len());
    let ghost before = res@;
    proof {
        lemma_texts_push(before, piece);
        assert(texts(before) + seq![piece@] =~= texts(before).push(piece@));
    }
    res.push(piece);
    res
}

/// Writes the strings one after the other with `sep` between them.
pub fn join_strings(v: &Vec<String>, sep: &str) -> (res: String)
    ensures
        res@ == join_text(texts(v@), sep@),
{
    let mut res = String::new();
    let mut i: usize = 0;
    assert(texts(v@).take(0) =~= Seq::<Seq<char>>::empty());
    while i < v.len()
        invariant
            i <= v@.len(),
            res@ == join_text(texts(v@).take(i as int), sep@),
        decreases v@.len() - i,
    {
        let ghost shorter = texts(v@).take(i as int);
        let ghost longer = texts(v@).take(i as int + 1);
        assert(longer.drop_last() =~= shorter);
        assert(longer.last() == v@[i as int]@);
        if i > 0 {
            res.append(sep);
            res.append(v[i].as_str());
        } else {
            assert(res@ =~= Seq::<char>::empty());
            res.append(v[i].as_str());
            assert(res@ =~= v@[0]@);
        }
        i = i + 1;
    }
    assert(texts(v@).take(v@.len() as int) =~= texts(v@));
    res
}

/// The first separator of a text is where the text before it ends.
proof fn lemma_find_char_at(s: Seq<char>, sep: char, i: int, k: int)
    requires
        0 <= i <= k <= s.len(),
        forall|j: int| i <= j < k ==> s[j] != sep,
        k < s.len() ==> s[k] == sep,
    ensures
        find_char(s, sep, i) == k,
    decreases k - i,
{
    if i < k {
        lemma_find_char_at(s, sep, i + 1, k);
    }
}

/// A text that is cut at a separator behind another is cut as that one, and then
/// there.
proof fn lemma_split_append(a: Seq<char>, b: Seq<char>, sep: char, from: int)
    requires
        0 <= from <= a.len(),
        forall|j: int| 0 <= j < b.len() ==> b[j] != sep,
    ensures
        split_from(a + seq![sep] + b, sep, from) == split_from(a, sep, from).push(b),
    decreases a.len() - from,
{
    let s = a + seq![sep] + b;
    let n = a.len() as int;
    let k = find_char(a, sep, from);
    lemma_find_char(a, sep, from);
    assert forall|j: int| from <= j < k implies s[j] != sep by {
        assert(s[j] == a[j]);
    }
    assert(s[k] == sep);
    lemma_find_char_at(s, sep, from, k);
    assert(s.subrange(from, k) =~= a.subrange(from, k));
    if k < n {
        lemma_split_append(a, b, sep, k + 1);
        assert(seq![a.subrange(from, k)] + split_from(a, sep, k + 1).push(b) =~= (seq![
            a.subrange(from, k),
        ] + split_from(a, sep, k + 1)).push(b));
    } else {
        let end = s.len() as int;
        assert forall|j: int| n + 1 <= j < end implies s[j] != sep by {
            assert(s[j] == b[j - n - 1]);
        }
        lemma_find_char_at(s, sep, n + 1, end);
        assert(s.subrange(n + 1, end) =~= b);
        assert(split_from(s, sep, n + 1) =~= seq![b]);
        assert(seq![a.subrange(from, n)] + seq![b] =~= seq![a.subrange(from, n)].push(b));
    }
}

/// What was joined with a separator that none of the parts holds is cut into the same
/// parts again.
pub proof fn split_undoes_join(xs: Seq<Seq<char>>, sep: char)
    requires
        xs.len() > 0,
        forall|i: int, j: int|
            0 <= i < xs.len() && 0 <= j < xs[i].len() ==> (#[trigger] xs[i][j]) != sep,
    ensures
        split_text(join_text(xs, seq![sep]), sep) == xs,
    decreases xs.len(),
{
    if xs.len() == 1 {
        let x = xs[0];
        lemma_find_char_at(x, sep, 0, x.len() as int);
        assert(x.subrange(0, x.len() as int) =~= x);
        assert(split_text(x, sep) =~= xs);
    } else {
        let front = xs.drop_last();
        let last = xs.last();
        assert forall|i: int, j: int|
            0 <= i < front.len() && 0 <= j < front[i].len() implies (#[trigger] front[i][j])
            != sep by {
            assert(xs[i][j] != sep);
        }
        assert forall|j: int| 0 <= j < last.len() implies last[j] != sep by {
            assert(xs[xs.len() - 1][j] != sep);
        }
        split_undoes_join(front, sep);
        lemma_split_append(join_text(front, seq![sep]), last, sep, 0);
        assert(front.push(last) =~= xs);
    }
}

/// A text without the separator is not cut.
pub proof fn split_keeps_whole(s: Seq<char>, sep: char)
    requires
        forall|j: int| 0 <= j < s.len() ==> s[j] != sep,
    ensures
        split_text(s, sep) == seq![s],
{
    lemma_find_char_at(s, sep, 0, s.len() as int);
    assert(s.subrange(0, s.len() as int) =~= s);
    assert(split_text(s, sep) =~= seq![s]);
}

/// The place of the separator that follows a text without one.
pub proof fn find_char_after(a: Seq<char>, b: Seq<char>, sep: char)
    requires
        forall|j: int| 0 <= j < a.len() ==> a[j] != sep,
    ensures
        find_char(a + seq![sep] + b, sep, 0) == a.len(),
{
    let s = a + seq![sep] + b;
    assert forall|j: int| 0 <= j < a.len() implies s[j] != sep by {
        assert(s[j] == a[j]);
    }
    lemma_find_char_at(s, sep, 0, a.len() as int);
}

} // verus!
