//! Terms, phrases, expressions and ranges: the leaves of the query language.
use vstd::prelude::*;

use crate::number::{parse_digits, read_digits};
use crate::query::ast::{Query, QueryView, RangeBounds, RangeView, Scalar, ScalarView};
use crate::query::lexer::{
    at, is_at, is_word2, is_word3, run_end, scan, split_words, word_at, words, Class,
};
use crate::text::{chars_of, string_of};

verus! {

/// Where a reading ends, and what was read. `None` where nothing can be read.
pub type Reading<T> = Option<(int, T)>;

/// The field that a term without a field name is looked for in.
pub open spec fn default_field() -> Seq<char> {
    "message"@
}

// ---------------------------------------------------------------------------
// Words of the language
// ---------------------------------------------------------------------------

/// The end of the field name at `i`: lower-case letters and underscores.
pub open spec fn identifier_end(s: Seq<char>, i: int) -> Option<int> {
    let j = run_end(s, i, Class::Identifier);
    if j > i {
        Some(j)
    } else {
        None
    }
}

/// The end of the term at `i`: letters, digits and underscores. A term does not
/// begin with `NOT` where that word is `reserved`.
pub open spec fn term_end(s: Seq<char>, i: int, reserved: bool) -> Option<int> {
    let j = run_end(s, i, Class::Term);
    if reserved && word_at(s, i, seq!['N', 'O', 'T']) {
        None
    } else if j > i {
        Some(j)
    } else {
        None
    }
}

/// The end of the field name and the colon at `i`.
pub open spec fn field_end(s: Seq<char>, i: int) -> Option<int> {
    match identifier_end(s, i) {
        Some(j) => if at(s, j, ':') {
            Some(j + 1)
        } else {
            None
        },
        None => None,
    }
}

/// The phrase at `i`: letters, digits and white space between two quotes.
pub open spec fn quoted_reading(s: Seq<char>, i: int) -> Reading<Seq<char>> {
    let j = run_end(s, i + 1, Class::Phrase);
    if at(s, i, '"') && j > i + 1 && at(s, j, '"') {
        Some((j + 1, s.subrange(i + 1, j)))
    } else {
        None
    }
}

/// The first slash at or after `i` that no backslash escapes. `None` where
/// there is no such slash.
pub open spec fn closing_slash(s: Seq<char>, i: int) -> Option<int>
    decreases s.len() - i,
{
    if i < 0 || i >= s.len() {
        None
    } else if s[i] == '/' {
        Some(i)
    } else if s[i] == '\\' && i + 2 > s.len() {
        None
    } else if s[i] == '\\' {
        closing_slash(s, i + 2)
    } else {
        closing_slash(s, i + 1)
    }
}

/// `s[i..]` with a slash in place of each backslash and slash.
pub open spec fn unescaped_from(s: Seq<char>, i: int) -> Seq<char>
    decreases s.len() - i,
{
    if i < 0 || i >= s.len() {
        Seq::empty()
    } else if s[i] == '\\' && at(s, i + 1, '/') {
        seq!['/'] + unescaped_from(s, i + 2)
    } else {
        seq![s[i]] + unescaped_from(s, i + 1)
    }
}

/// The expression at `i`: at least one character between slashes, in which a
/// backslash keeps the next character, a slash among them, inside.
pub open spec fn regex_reading(s: Seq<char>, i: int) -> Reading<Seq<char>> {
    match closing_slash(s, i + 1) {
        Some(j) => if at(s, i, '/') && j > i + 1 {
            Some((j + 1, unescaped_from(s.subrange(i + 1, j), 0)))
        } else {
            None
        },
        None => None,
    }
}

/// The fuzzy term at `i`: a tilde, perhaps a distance and a tilde, and a term.
/// What is read is the distance's digits and the term, by their places.
pub open spec fn fuzzy_reading(s: Seq<char>, i: int, reserved: bool) -> Option<
    (int, Option<(int, int)>, int),
> {
    let d = run_end(s, i + 1, Class::Digit);
    if !at(s, i, '~') {
        None
    } else if d > i + 1 && at(s, d, '~') {
        match term_end(s, d + 1, reserved) {
            Some(j) => Some((j, Some((i + 1, d)), d + 1)),
            None => None,
        }
    } else {
        match term_end(s, i + 1, reserved) {
            Some(j) => Some((j, None, i + 1)),
            None => None,
        }
    }
}

// ---------------------------------------------------------------------------
// Queries for one field
// ---------------------------------------------------------------------------

/// How terms are read.
pub struct Dialect {
    /// Whether a term may stand without a field name.
    pub bare: bool,
    /// Whether no term begins with `NOT`.
    pub reserved: bool,
    /// The distance of a fuzzy term that states none.
    pub distance: u8,
}

/// The dialect of full queries.
pub open spec fn full_dialect() -> Dialect {
    Dialect { bare: true, reserved: true, distance: 2 }
}

/// The dialect of queries for a single field.
pub open spec fn field_dialect() -> Dialect {
    Dialect { bare: false, reserved: false, distance: 3 }
}

/// The dialect of full queries.
pub fn full() -> (res: Dialect)
    ensures
        res == full_dialect(),
{
    Dialect { bare: true, reserved: true, distance: 2 }
}

/// The dialect of queries for a single field.
pub fn single_field() -> (res: Dialect)
    ensures
        res == field_dialect(),
{
    Dialect { bare: false, reserved: false, distance: 3 }
}

/// What stands before the term at `i`: a field name and a colon where the
/// reading that follows them succeeds, else nothing.
pub open spec fn fielded<T>(
    s: Seq<char>,
    i: int,
    d: Dialect,
    read: spec_fn(int) -> Reading<T>,
) -> Reading<(Seq<char>, T)> {
    match field_end(s, i) {
        Some(k) => match read(k) {
            Some((j, t)) => Some((j, (s.subrange(i, k - 1), t))),
            None => bare_term(i, d, read),
        },
        None => bare_term(i, d, read),
    }
}

/// A term without a field name, where the dialect has such terms.
pub open spec fn bare_term<T>(i: int, d: Dialect, read: spec_fn(int) -> Reading<T>) -> Reading<
    (Seq<char>, T),
> {
    match read(i) {
        Some((j, t)) => if d.bare {
            Some((j, (default_field(), t)))
        } else {
            None
        },
        None => None,
    }
}

/// The term at `i`.
pub open spec fn term_reading(s: Seq<char>, i: int, d: Dialect) -> Reading<Seq<char>> {
    match term_end(s, i, d.reserved) {
        Some(j) => Some((j, s.subrange(i, j))),
        None => None,
    }
}

/// The query for an exact term at `i`.
pub open spec fn exact_reading(s: Seq<char>, i: int, d: Dialect) -> Reading<QueryView> {
    match fielded(s, i, d, |k: int| term_reading(s, k, d)) {
        Some((j, (field, term))) => Some((j, QueryView::Exact { field, term })),
        None => None,
    }
}

/// The query for a phrase at `i`.
pub open spec fn phrase_reading(s: Seq<char>, i: int, d: Dialect) -> Reading<QueryView> {
    match fielded(s, i, d, |k: int| quoted_reading(s, k)) {
        Some((j, (field, phrase))) => Some(
            (j, QueryView::Phrase { field, terms: words(phrase) }),
        ),
        None => None,
    }
}

/// The query for a regular expression at `i`.
pub open spec fn regex_query_reading(s: Seq<char>, i: int, d: Dialect) -> Reading<QueryView> {
    match fielded(s, i, d, |k: int| regex_reading(s, k)) {
        Some((j, (field, pattern))) => Some((j, QueryView::Regex { field, pattern })),
        None => None,
    }
}

/// A fuzzy term at `i`, with its distance's digits and the term as texts.
pub open spec fn fuzzy_text_reading(s: Seq<char>, i: int, d: Dialect) -> Reading<
    (Option<Seq<char>>, Seq<char>),
> {
    match fuzzy_reading(s, i, d.reserved) {
        Some((j, Some((a, b)), t)) => Some((j, (Some(s.subrange(a, b)), s.subrange(t, j)))),
        Some((j, None, t)) => Some((j, (None, s.subrange(t, j)))),
        None => None,
    }
}

/// The query for a fuzzy term at `i`. There is none where the distance does not
/// fit a byte.
pub open spec fn fuzzy_query_reading(s: Seq<char>, i: int, d: Dialect) -> Reading<QueryView> {
    match fielded(s, i, d, |k: int| fuzzy_text_reading(s, k, d)) {
        Some((j, (field, (digits, value)))) => match fuzzy_distance(digits, d) {
            Some(distance) => Some(
                (j, QueryView::Fuzzy { field, value, distance, transposition: true }),
            ),
            None => None,
        },
        None => None,
    }
}

/// The distance that the digits state, or the dialect's own.
pub open spec fn fuzzy_distance(digits: Option<Seq<char>>, d: Dialect) -> Option<u8> {
    match digits {
        Some(t) => match read_digits(t, 10, 255) {
            Some(n) => Some(n as u8),
            None => None,
        },
        None => Some(d.distance),
    }
}

// ---------------------------------------------------------------------------
// Ranges
// ---------------------------------------------------------------------------

/// One end of a range.
#[derive(Debug, PartialEq, Eq)]
pub enum Bound<T> {
    Greater { than: T, or_equal: bool },
    Less { than: T, or_equal: bool },
}

impl<T> Bound<T> {
    /// The bound that a comparison sign denotes.
    pub open spec fn of_symbol(symbol: Seq<char>, than: T) -> Option<Self> {
        if symbol == seq!['>', '='] {
            Some(Bound::Greater { than, or_equal: true })
        } else if symbol == seq!['>'] {
            Some(Bound::Greater { than, or_equal: false })
        } else if symbol == seq!['<', '='] {
            Some(Bound::Less { than, or_equal: true })
        } else if symbol == seq!['<'] {
            Some(Bound::Less { than, or_equal: false })
        } else {
            None
        }
    }

    /// The bound that a comparison sign denotes, or `None` for any other text.
    pub fn from_symbol(symbol: &str, than: T) -> (res: Option<Self>)
        ensures
            res == Self::of_symbol(symbol@, than),
    {
        let c = chars_of(symbol);
        let ghost s = symbol@;
        if c.len() == 2 && c[1] == '=' {
            assert(s =~= seq![s[0], '=']);
            assert(s != seq!['>'] && s != seq!['<']);
            if c[0] == '>' {
                return Some(Bound::Greater { than, or_equal: true });
            }
            if c[0] == '<' {
                assert(s[0] != seq!['>', '='][0]);
                return Some(Bound::Less { than, or_equal: true });
            }
            assert(s[0] != seq!['>', '='][0] && s[0] != seq!['<', '='][0]);
            return None;
        }
        if c.len() == 1 {
            assert(s =~= seq![s[0]]);
            assert(s != seq!['>', '='] && s != seq!['<', '=']);
            if c[0] == '>' {
                return Some(Bound::Greater { than, or_equal: false });
            }
            if c[0] == '<' {
                assert(s[0] != seq!['>'][0]);
                return Some(Bound::Less { than, or_equal: false });
            }
            assert(s[0] != seq!['>'][0] && s[0] != seq!['<'][0]);
            return None;
        }
        assert(s != seq!['>', '=']) by {
            assert(seq!['>', '='][1] == '=');
        }
        assert(s != seq!['<', '=']) by {
            assert(seq!['<', '='][1] == '=');
        }
        assert(seq!['>'].len() == 1 && seq!['<'].len() == 1);
        None
    }
}

/// The bound, seen through the view of its value.
pub open spec fn bound_view(b: Bound<Scalar>) -> Bound<ScalarView> {
    match b {
        Bound::Greater { than, or_equal } => Bound::Greater { than: than@, or_equal },
        Bound::Less { than, or_equal } => Bound::Less { than: than@, or_equal },
    }
}

/// The bounds of a list, seen through their views.
pub open spec fn bound_views(v: Seq<Bound<Scalar>>) -> Seq<Bound<ScalarView>> {
    Seq::new(v.len(), |i: int| bound_view(v[i]))
}

/// The end of the comparison sign at `i`.
pub open spec fn symbol_end(s: Seq<char>, i: int) -> Option<int> {
    if word_at(s, i, seq!['>', '=']) {
        Some(i + 2)
    } else if at(s, i, '>') {
        Some(i + 1)
    } else if word_at(s, i, seq!['<', '=']) {
        Some(i + 2)
    } else if at(s, i, '<') {
        Some(i + 1)
    } else {
        None
    }
}

/// What the bounds of a range are.
#[derive(Clone, Copy)]
pub enum BoundKind {
    /// Decimal numbers of 32 bits.
    Number,
    /// Terms, which do not begin with `NOT` where that word is reserved.
    Text { reserved: bool },
}

/// The value of a bound at `k`.
pub open spec fn bound_value_reading(s: Seq<char>, k: int, kind: BoundKind) -> Reading<ScalarView> {
    match kind {
        BoundKind::Number => {
            let j = run_end(s, k, Class::Digit);
            if j > k {
                match read_digits(s.subrange(k, j), 10, 0x7fff_ffff) {
                    Some(n) => Some((j, ScalarView::Int(n as i32))),
                    None => None,
                }
            } else {
                None
            }
        },
        BoundKind::Text { reserved } => match term_end(s, k, reserved) {
            Some(j) => Some((j, ScalarView::Text(s.subrange(k, j)))),
            None => None,
        },
    }
}

/// The bound at `i`: a comparison sign and a value.
pub open spec fn bound_reading(s: Seq<char>, i: int, kind: BoundKind) -> Reading<
    Bound<ScalarView>,
> {
    match symbol_end(s, i) {
        Some(k) => match bound_value_reading(s, k, kind) {
            Some((j, v)) => match Bound::of_symbol(s.subrange(i, k), v) {
                Some(b) => Some((j, b)),
                None => None,
            },
            None => None,
        },
        None => None,
    }
}

/// The bounds that follow `acc` from `i` on, each after a comma.
pub open spec fn more_bounds(
    s: Seq<char>,
    i: int,
    kind: BoundKind,
    acc: Seq<Bound<ScalarView>>,
) -> (int, Seq<Bound<ScalarView>>)
    decreases s.len() - i,
{
    if at(s, i, ',') {
        match bound_reading(s, i + 1, kind) {
            Some((j, b)) => if i < j <= s.len() {
                more_bounds(s, j, kind, acc.push(b))
            } else {
                (i, acc)
            },
            None => (i, acc),
        }
    } else {
        (i, acc)
    }
}

/// The range that the bounds set, of two bounds of one sort the last.
pub open spec fn bounds_range(bounds: Seq<Bound<ScalarView>>) -> RangeView
    decreases bounds.len(),
{
    if bounds.len() == 0 {
        RangeView { gte: None, gt: None, lte: None, lt: None }
    } else {
        let r = bounds_range(bounds.drop_last());
        match bounds.last() {
            Bound::Greater { than, or_equal: true } => RangeView { gte: Some(than), ..r },
            Bound::Greater { than, or_equal: false } => RangeView { gt: Some(than), ..r },
            Bound::Less { than, or_equal: true } => RangeView { lte: Some(than), ..r },
            Bound::Less { than, or_equal: false } => RangeView { lt: Some(than), ..r },
        }
    }
}

/// The range query at `i` with bounds of one kind.
pub open spec fn range_of_kind_reading(s: Seq<char>, i: int, kind: BoundKind) -> Reading<
    QueryView,
> {
    match field_end(s, i) {
        Some(k) => match bound_reading(s, k, kind) {
            Some((j, b)) => {
                let (end, bounds) = more_bounds(s, j, kind, seq![b]);
                Some(
                    (
                        end,
                        QueryView::Range {
                            field: s.subrange(i, k - 1),
                            bounds: bounds_range(bounds),
                        },
                    ),
                )
            },
            None => None,
        },
        None => None,
    }
}

/// The range query at `i`: numbers where the first bound is one, else texts.
pub open spec fn range_reading(s: Seq<char>, i: int) -> Reading<QueryView> {
    match range_of_kind_reading(s, i, BoundKind::Number) {
        Some(r) => Some(r),
        None => range_of_kind_reading(s, i, BoundKind::Text { reserved: true }),
    }
}

// ---------------------------------------------------------------------------
// Readers
// ---------------------------------------------------------------------------

/// What a reader gave, held against a reading: the same end, past the start.
pub open spec fn same_end(res: Option<usize>, want: Option<int>, i: int, len: int) -> bool {
    match (res, want) {
        (Some(j), Some(k)) => j == k && i < j <= len,
        (None, None) => true,
        _ => false,
    }
}

/// Reads a field name at `i`.
pub fn identifier_at(chars: &Vec<char>, i: usize) -> (res: Option<usize>)
    requires
        i <= chars@.len(),
    ensures
        same_end(res, identifier_end(chars@, i as int), i as int, chars@.len() as int),
{
    let j = scan(chars, i, Class::Identifier);
    if j > i {
        Some(j)
    } else {
        None
    }
}

/// Reads a term at `i`.
pub fn basic_term_at(chars: &Vec<char>, i: usize, reserved: bool) -> (res: Option<usize>)
    requires
        i <= chars@.len(),
    ensures
        same_end(res, term_end(chars@, i as int, reserved), i as int, chars@.len() as int),
{
    if reserved && is_word3(chars, i, 'N', 'O', 'T') {
        return None;
    }
    let j = scan(chars, i, Class::Term);
    if j > i {
        Some(j)
    } else {
        None
    }
}

/// Reads a field name and a colon at `i`.
pub fn field_at(chars: &Vec<char>, i: usize) -> (res: Option<usize>)
    requires
        i <= chars@.len(),
    ensures
        same_end(res, field_end(chars@, i as int), i as int + 1, chars@.len() as int),
{
    match identifier_at(chars, i) {
        Some(j) => if is_at(chars, j, ':') {
            Some(j + 1)
        } else {
            None
        },
        None => None,
    }
}

/// What a reader gave, held against a reading: the same text and the same end,
/// past the start.
pub open spec fn same_text(
    res: Option<(usize, String)>,
    want: Reading<Seq<char>>,
    i: int,
    len: int,
) -> bool {
    match (res, want) {
        (Some((j, t)), Some((k, u))) => j == k && t@ == u && i < j <= len,
        (None, None) => true,
        _ => false,
    }
}

/// Reads a phrase at `i`.
pub fn quoted_at(chars: &Vec<char>, i: usize) -> (res: Option<(usize, String)>)
    requires
        i <= chars@.len(),
    ensures
        same_text(res, quoted_reading(chars@, i as int), i as int, chars@.len() as int),
{
    if !is_at(chars, i, '"') {
        return None;
    }
    let j = scan(chars, i + 1, Class::Phrase);
    if j > i + 1 && is_at(chars, j, '"') {
        Some((j + 1, string_of(chars, i + 1, j)))
    } else {
        None
    }
}

/// Puts a slash in place of each backslash and slash of `chars[from..to]`.
fn unescape(chars: &Vec<char>, from: usize, to: usize) -> (res: String)
    requires
        from <= to <= chars@.len(),
    ensures
        res@ == unescaped_from(chars@.subrange(from as int, to as int), 0),
{
    let ghost t = chars@.subrange(from as int, to as int);
    let mut res = String::new();
    let mut i: usize = from;
    assert(res@ + unescaped_from(t, 0) =~= unescaped_from(t, 0));
    while i < to
        invariant
            from <= i <= to <= chars@.len(),
            t == chars@.subrange(from as int, to as int),
            res@ + unescaped_from(t, i - from) == unescaped_from(t, 0),
        decreases to - i,
    {
        let c: char = chars[i];
        assert(t[i - from] == c);
        if c == '\\' && i + 1 < to && chars[i + 1] == '/' {
            assert(at(t, i - from + 1, '/'));
            assert(res@ + (seq!['/'] + unescaped_from(t, i - from + 2)) =~= res@.push('/')
                + unescaped_from(t, i - from + 2));
            res.push('/');
            i = i + 2;
        } else {
            assert(!(c == '\\' && at(t, i - from + 1, '/')));
            assert(res@ + (seq![c] + unescaped_from(t, i - from + 1)) =~= res@.push(c)
                + unescaped_from(t, i - from + 1));
            res.push(c);
            i = i + 1;
        }
    }
    assert(res@ + unescaped_from(t, to - from) =~= res@);
    res
}

/// Reads a regular expression at `i`.
pub fn regex_at(chars: &Vec<char>, i: usize) -> (res: Option<(usize, String)>)
    requires
        i <= chars@.len(),
    ensures
        same_text(res, regex_reading(chars@, i as int), i as int, chars@.len() as int),
{
    if !is_at(chars, i, '/') {
        return None;
    }
    let mut j: usize = i + 1;
    while j < chars.len() && chars[j] != '/'
        invariant
            i < j <= chars@.len(),
            closing_slash(chars@, i as int + 1) == closing_slash(chars@, j as int),
        decreases chars@.len() - j,
    {
        if chars[j] == '\\' {
            if chars.len() - j < 2 {
                return None;
            }
            j = j + 2;
        } else {
            j = j + 1;
        }
    }
    if j < chars.len() && j > i + 1 {
        Some((j + 1, unescape(chars, i + 1, j)))
    } else {
        None
    }
}

/// Reads a fuzzy term at `i`: where it ends, the place of its distance and the
/// start of its term.
fn fuzzy_basic_term_at(chars: &Vec<char>, i: usize, reserved: bool) -> (res: Option<
    (usize, Option<(usize, usize)>, usize),
>)
    requires
        i <= chars@.len(),
    ensures
        match (res, fuzzy_reading(chars@, i as int, reserved)) {
            (Some((j, p, t)), Some((j2, p2, t2))) => {
                &&& j == j2 && t == t2 && i < t < j <= chars@.len()
                &&& match (p, p2) {
                    (Some((a, b)), Some((a2, b2))) => a == a2 && b == b2 && a < b <= chars@.len(),
                    (None, None) => true,
                    _ => false,
                }
            },
            (None, None) => true,
            _ => false,
        },
{
    if !is_at(chars, i, '~') {
        return None;
    }
    let d = scan(chars, i + 1, Class::Digit);
    if d > i + 1 && is_at(chars, d, '~') {
        match basic_term_at(chars, d + 1, reserved) {
            Some(j) => Some((j, Some((i + 1, d)), d + 1)),
            None => None,
        }
    } else {
        match basic_term_at(chars, i + 1, reserved) {
            Some(j) => Some((j, None, i + 1)),
            None => None,
        }
    }
}

/// What a reader gave, held against a reading: the same query and the same end,
/// past the start.
pub open spec fn same_query(
    res: Option<(usize, Query)>,
    want: Reading<QueryView>,
    i: int,
    len: int,
) -> bool {
    match (res, want) {
        (Some((j, q)), Some((k, v))) => j == k && q@ == v && i < j <= len,
        (None, None) => true,
        _ => false,
    }
}

/// The name of the default field.
fn default_field_name() -> (res: String)
    ensures
        res@ == default_field(),
{
    "message".to_owned()
}

/// Reads the query for a fuzzy term at `i`.
pub fn fuzzy_term_q_at(chars: &Vec<char>, i: usize, d: &Dialect) -> (res: Option<(usize, Query)>)
    requires
        i <= chars@.len(),
    ensures
        same_query(res, fuzzy_query_reading(chars@, i as int, *d), i as int, chars@.len() as int),
{
    let mut found: Option<(usize, Option<(usize, usize)>, usize)> = None;
    let mut field: Option<usize> = None;
    match field_at(chars, i) {
        Some(k) => {
            found = fuzzy_basic_term_at(chars, k, d.reserved);
            if found.is_some() {
                field = Some(k);
            }
        },
        None => {},
    }
    if found.is_none() && d.bare {
        found = fuzzy_basic_term_at(chars, i, d.reserved);
    }
    match found {
        Some((j, place, t)) => {
            let distance: u8 = match place {
                Some((a, b)) => match parse_digits(chars, a, b, 10, 255) {
                    Some(n) => n as u8,
                    None => {
                        return None;
                    },
                },
                None => d.distance,
            };
            let name = match field {
                Some(k) => string_of(chars, i, k - 1),
                None => default_field_name(),
            };
            Some(
                (
                    j,
                    Query::Fuzzy {
                        field: name,
                        value: string_of(chars, t, j),
                        distance,
                        transposition: true,
                    },
                ),
            )
        },
        None => None,
    }
}

/// Reads the query for an exact term at `i`.
pub fn exact_term_q_at(chars: &Vec<char>, i: usize, d: &Dialect) -> (res: Option<(usize, Query)>)
    requires
        i <= chars@.len(),
    ensures
        same_query(res, exact_reading(chars@, i as int, *d), i as int, chars@.len() as int),
{
    match field_at(chars, i) {
        Some(k) => match basic_term_at(chars, k, d.reserved) {
            Some(j) => {
                return Some(
                    (
                        j,
                        Query::Exact {
                            field: string_of(chars, i, k - 1),
                            term: string_of(chars, k, j),
                        },
                    ),
                );
            },
            None => {},
        },
        None => {},
    }
    if !d.bare {
        return None;
    }
    match basic_term_at(chars, i, d.reserved) {
        Some(j) => Some(
            (j, Query::Exact { field: default_field_name(), term: string_of(chars, i, j) }),
        ),
        None => None,
    }
}

/// Reads the query for a phrase at `i`.
pub fn phrase_q_at(chars: &Vec<char>, i: usize, d: &Dialect) -> (res: Option<(usize, Query)>)
    requires
        i <= chars@.len(),
    ensures
        same_query(res, phrase_reading(chars@, i as int, *d), i as int, chars@.len() as int),
{
    match field_at(chars, i) {
        Some(k) => match quoted_at(chars, k) {
            Some((j, phrase)) => {
                return Some(
                    (
                        j,
                        Query::Phrase {
                            field: string_of(chars, i, k - 1),
                            terms: split_words(phrase.as_str()),
                        },
                    ),
                );
            },
            None => {},
        },
        None => {},
    }
    if !d.bare {
        return None;
    }
    match quoted_at(chars, i) {
        Some((j, phrase)) => Some(
            (j, Query::Phrase { field: default_field_name(), terms: split_words(phrase.as_str()) }),
        ),
        None => None,
    }
}

/// Reads the query for a regular expression at `i`.
pub fn regex_q_at(chars: &Vec<char>, i: usize, d: &Dialect) -> (res: Option<(usize, Query)>)
    requires
        i <= chars@.len(),
    ensures
        same_query(res, regex_query_reading(chars@, i as int, *d), i as int, chars@.len() as int),
{
    match field_at(chars, i) {
        Some(k) => match regex_at(chars, k) {
            Some((j, pattern)) => {
                return Some((j, Query::Regex { field: string_of(chars, i, k - 1), pattern }));
            },
            None => {},
        },
        None => {},
    }
    if !d.bare {
        return None;
    }
    match regex_at(chars, i) {
        Some((j, pattern)) => Some((j, Query::Regex { field: default_field_name(), pattern })),
        None => None,
    }
}

/// Reads a bound at `i`.
fn range_bound_at(chars: &Vec<char>, i: usize, kind: BoundKind) -> (res: Option<
    (usize, Bound<Scalar>),
>)
    requires
        i <= chars@.len(),
    ensures
        match (res, bound_reading(chars@, i as int, kind)) {
            (Some((j, b)), Some((j2, b2))) => j == j2 && bound_view(b) == b2 && i < j
                <= chars@.len(),
            (None, None) => true,
            _ => false,
        },
{
    let k: usize = if is_word2(chars, i, '>', '=') {
        i + 2
    } else if is_at(chars, i, '>') {
        i + 1
    } else if is_word2(chars, i, '<', '=') {
        i + 2
    } else if is_at(chars, i, '<') {
        i + 1
    } else {
        return None;
    };
    let symbol = string_of(chars, i, k);
    proof {
        let sign = chars@.subrange(i as int, k as int);
        if k == i + 1 {
            assert(sign =~= seq![chars@[i as int]]);
        }
        assert(Bound::<ScalarView>::of_symbol(sign, arbitrary()) is Some);
    }
    match kind {
        BoundKind::Number => {
            let j = scan(chars, k, Class::Digit);
            if j == k {
                return None;
            }
            match parse_digits(chars, k, j, 10, 0x7fff_ffff) {
                Some(n) => match Bound::from_symbol(symbol.as_str(), Scalar::Int(n as i32)) {
                    Some(b) => Some((j, b)),
                    None => None,
                },
                None => None,
            }
        },
        BoundKind::Text { reserved } => match basic_term_at(chars, k, reserved) {
            Some(j) => match Bound::from_symbol(
                symbol.as_str(),
                Scalar::Text(string_of(chars, k, j)),
            ) {
                Some(b) => Some((j, b)),
                None => None,
            },
            None => None,
        },
    }
}

/// The range query that the bounds set, of two bounds of one sort the last.
pub fn bounds_to_range_query(field: String, bounds: Vec<Bound<Scalar>>) -> (res: Query)
    ensures
        res@ == (QueryView::Range { field: field@, bounds: bounds_range(bound_views(bounds@)) }),
{
    let ghost views = bound_views(bounds@);
    let mut range = RangeBounds { gte: None, gt: None, lte: None, lt: None };
    let ghost n = views.len() as int;
    assert(views.take(0) =~= Seq::<Bound<ScalarView>>::empty());
    for b in it: bounds
        invariant
            it.seq() == bounds@,
            views == bound_views(bounds@),
            n == views.len(),
            range@ == bounds_range(views.take(it.index())),
    {
        proof {
            let k = it.index() + 1;
            assert(views.take(k).drop_last() =~= views.take(k - 1));
            assert(views.take(k).last() == bound_view(b));
        }
        match b {
            Bound::Greater { than, or_equal } => if or_equal {
                range.gte = Some(than);
            } else {
                range.gt = Some(than);
            },
            Bound::Less { than, or_equal } => if or_equal {
                range.lte = Some(than);
            } else {
                range.lt = Some(than);
            },
        }
    }
    assert(views.take(n) =~= views);
    Query::Range { field, bounds: range }
}

/// Appending a bound appends its view.
proof fn lemma_bound_views_push(v: Seq<Bound<Scalar>>, b: Bound<Scalar>)
    ensures
        bound_views(v.push(b)) == bound_views(v).push(bound_view(b)),
{
    assert(bound_views(v.push(b)) =~= bound_views(v).push(bound_view(b)));
}

/// Reads a range query with bounds of one kind at `i`.
pub fn range_of_kind_at(chars: &Vec<char>, i: usize, kind: BoundKind) -> (res: Option<
    (usize, Query),
>)
    requires
        i <= chars@.len(),
    ensures
        same_query(
            res,
            range_of_kind_reading(chars@, i as int, kind),
            i as int,
            chars@.len() as int,
        ),
{
    let k: usize = match field_at(chars, i) {
        Some(k) => k,
        None => {
            return None;
        },
    };
    let mut bounds: Vec<Bound<Scalar>> = Vec::new();
    let mut j: usize = match range_bound_at(chars, k, kind) {
        Some((j, b)) => {
            proof {
                lemma_bound_views_push(bounds@, b);
                assert(bound_views(bounds@).push(bound_view(b)) =~= seq![bound_view(b)]);
            }
            bounds.push(b);
            j
        },
        None => {
            return None;
        },
    };
    let ghost first = j as int;
    let ghost one = bound_views(bounds@);
    while is_at(chars, j, ',')
        invariant
            i < k < j <= chars@.len(),
            more_bounds(chars@, first, kind, one) == more_bounds(
                chars@,
                j as int,
                kind,
                bound_views(bounds@),
            ),
        ensures
            more_bounds(chars@, first, kind, one) == (j as int, bound_views(bounds@)),
        decreases chars@.len() - j,
    {
        match range_bound_at(chars, j + 1, kind) {
            Some((next, b)) => {
                proof {
                    lemma_bound_views_push(bounds@, b);
                }
                bounds.push(b);
                j = next;
            },
            None => {
                break ;
            },
        }
    }
    Some((j, bounds_to_range_query(string_of(chars, i, k - 1), bounds)))
}

/// Reads a range query at `i`.
pub fn range_q_at(chars: &Vec<char>, i: usize) -> (res: Option<(usize, Query)>)
    requires
        i <= chars@.len(),
    ensures
        same_query(res, range_reading(chars@, i as int), i as int, chars@.len() as int),
{
    match range_of_kind_at(chars, i, BoundKind::Number) {
        Some(r) => Some(r),
        None => range_of_kind_at(chars, i, BoundKind::Text { reserved: true }),
    }
}

// ---------------------------------------------------------------------------
// Readers of whole texts
// ---------------------------------------------------------------------------

/// The text does not begin with what was to be read.
#[derive(Clone, Copy, Debug, PartialEq, Eq)]
pub struct Unreadable;

/// What a reader of texts gave, held against the reading at the start of the
/// text: what was read, and the text behind it.
pub open spec fn reads_text(
    res: Result<(String, String), Unreadable>,
    s: Seq<char>,
    want: Reading<Seq<char>>,
) -> bool {
    match (res, want) {
        (Ok((rest, t)), Some((j, u))) => rest@ == s.skip(j) && t@ == u && 0 <= j <= s.len(),
        (Err(_), None) => true,
        _ => false,
    }
}

/// What a reader of queries gave, held against the reading at the start of the
/// text: what was read, and the text behind it.
pub open spec fn reads_query(
    res: Result<(String, Query), Unreadable>,
    s: Seq<char>,
    want: Reading<QueryView>,
) -> bool {
    match (res, want) {
        (Ok((rest, q)), Some((j, v))) => rest@ == s.skip(j) && q@ == v && 0 <= j <= s.len(),
        (Err(_), None) => true,
        _ => false,
    }
}

/// Reads a regular expression.
pub fn regex(input: &str) -> (res: Result<(String, String), Unreadable>)
    ensures
        reads_text(res, input@, regex_reading(input@, 0)),
{
    let chars = chars_of(input);
    match regex_at(&chars, 0) {
        Some((j, pattern)) => Ok((string_of(&chars, j, chars.len()), pattern)),
        None => Err(Unreadable),
    }
}

/// Turns the result of a reader at the start of a text into that of a reader of
/// texts.
pub fn query_of_text(chars: &Vec<char>, read: Option<(usize, Query)>) -> (res: Result<
    (String, Query),
    Unreadable,
>)
    requires
        read matches Some((j, q)) ==> j <= chars@.len(),
    ensures
        match read {
            Some((j, q)) => res matches Ok((rest, q2)) && rest@ == chars@.skip(j as int) && q2 == q,
            None => res is Err,
        },
{
    match read {
        Some((j, q)) => Ok((string_of(chars, j, chars.len()), q)),
        None => Err(Unreadable),
    }
}

/// Reads a range query.
pub fn range_q(input: &str) -> (res: Result<(String, Query), Unreadable>)
    ensures
        reads_query(res, input@, range_reading(input@, 0)),
{
    let chars = chars_of(input);
    let read = range_q_at(&chars, 0);
    query_of_text(&chars, read)
}

} // verus!
