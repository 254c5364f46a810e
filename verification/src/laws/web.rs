//! Pages and what they ask for.
use vstd::prelude::*;

use crate::fieldmap::FieldMap;
use crate::query::lexer::whitespace;
use crate::text::text_lt;
use crate::web::names::{field_before, names_of_docs, NameRules};
use crate::web::page::{
    choices, list_spans, page_cells, page_columns, page_messages, search_spans, toggles, ChoiceView,
    ToggleView,
};
use crate::web::search::{
    checked_url, page_search, pairs_size, row_of, search_pairs, search_path, texts_size, url_size,
    UrlError,
};
use crate::web::state::{cols_of, default_cols, in_quotes, plain_pair, trim, trimmed, unquoted};

verus! {

// ---------------------------------------------------------------------------
// The order of names
// ---------------------------------------------------------------------------

/// Two texts that begin alike are in the order of the first characters in which they
/// differ; where one is the beginning of the other, it comes first.
pub proof fn first_difference_decides(a: Seq<char>, b: Seq<char>, k: int)
    requires
        0 <= k <= a.len(),
        k <= b.len(),
        forall|i: int| 0 <= i < k ==> #[trigger] a[i] == b[i],
    ensures
        k < a.len() && k < b.len() && a[k] != b[k] ==> (text_lt(a, b) <==> a[k] < b[k]),
        k == a.len() ==> (text_lt(a, b) <==> k < b.len()),
        k == b.len() ==> !text_lt(a, b),
    decreases k,
{
    if k > 0 {
        let x = a.drop_first();
        let y = b.drop_first();
        assert(a[0] == b[0]);
        assert forall|i: int| 0 <= i < k - 1 implies #[trigger] x[i] == y[i] by {
            assert(a[i + 1] == b[i + 1]);
        }
        first_difference_decides(x, y, k - 1);
    }
}

/// The time of the message stands before every other field, and no field before it;
/// other fields stand in the order of their names.
pub proof fn time_stands_first(a: Seq<char>, b: Seq<char>)
    ensures
        a != "source_timestamp"@ ==> field_before("source_timestamp"@, a),
        !field_before(a, "source_timestamp"@),
        a != "source_timestamp"@ && b != "source_timestamp"@ ==> (field_before(a, b) <==> text_lt(
            a,
            b,
        )),
{
    crate::text::text_lt_irreflexive(a);
}

// ---------------------------------------------------------------------------
// Choices
// ---------------------------------------------------------------------------

/// A choice of a span of time.
pub open spec fn is_choice(c: ChoiceView, minutes: int, label: Seq<char>, selected: int) -> bool {
    &&& c.minutes == minutes
    &&& c.label == label
    &&& c.selected <==> minutes == selected
}

/// The choices of time of a list page, the one that is asked for selected.
pub proof fn list_page_choices(selected: int)
    ensures
        ({
            let c = choices(list_spans(), selected);
            &&& c.len() == 14
            &&& is_choice(c[0], 1, "1m"@, selected)
            &&& is_choice(c[1], 5, "5m"@, selected)
            &&& is_choice(c[2], 15, "15m"@, selected)
            &&& is_choice(c[3], 30, "30m"@, selected)
            &&& is_choice(c[4], 60, "1h"@, selected)
            &&& is_choice(c[5], 180, "2h"@, selected)
            &&& is_choice(c[6], 720, "8h"@, selected)
            &&& is_choice(c[7], 1440, "1d"@, selected)
            &&& is_choice(c[8], 2880, "2d"@, selected)
            &&& is_choice(c[9], 7200, "5d"@, selected)
            &&& is_choice(c[10], 10080, "7d"@, selected)
            &&& is_choice(c[11], 20160, "14d"@, selected)
            &&& is_choice(c[12], 43200, "30d"@, selected)
            &&& is_choice(c[13], -1, "all"@, selected)
        }),
{
}

/// The choices of time of the search page: all times first, then the spans of the list
/// pages.
pub proof fn search_page_choices(selected: int)
    ensures
        ({
            let c = choices(search_spans(), selected);
            &&& c.len() == 14
            &&& is_choice(c[0], 0, "all"@, selected)
            &&& forall|i: int|
                0 <= i < 13 ==> #[trigger] c[i + 1] == choices(list_spans(), selected)[i]
        }),
{
}

// ---------------------------------------------------------------------------
// Columns
// ---------------------------------------------------------------------------

/// The boxes of two lists of columns are those of the first and those of the second.
pub proof fn boxes_stand_in_a_row(a: Seq<Seq<char>>, b: Seq<Seq<char>>, time_fixed: bool)
    ensures
        toggles(a + b, time_fixed) == toggles(a, time_fixed) + toggles(b, time_fixed),
    decreases b.len(),
{
    if b.len() == 0 {
        assert(a + b =~= a);
        assert(toggles(a, time_fixed) + toggles(b, time_fixed) =~= toggles(a, time_fixed));
    } else {
        boxes_stand_in_a_row(a, b.drop_last(), time_fixed);
        assert((a + b).drop_last() =~= a + b.drop_last());
        assert(toggles(a + b, time_fixed) =~= toggles(a, time_fixed) + toggles(b, time_fixed));
    }
}

/// The box of a column names it, and is checked where the column is shown at first. That
/// of the time is left out where the time is always shown.
pub proof fn box_of_a_column(name: Seq<char>, time_fixed: bool)
    ensures
        time_fixed && name == "source_timestamp"@ ==> toggles(seq![name], time_fixed).len() == 0,
        !(time_fixed && name == "source_timestamp"@) ==> toggles(seq![name], time_fixed) == seq![
            ToggleView {
                field: name,
                target: name + seq!['_', 'c', 'o', 'l'],
                id: name + seq!['_', 'c', 'h', 'e', 'c', 'k'],
                checked: name == "source_timestamp"@ || name == "comm"@ || name == "hostname"@
                    || name == "priority"@,
            },
        ],
{
    reveal_strlit("_col");
    reveal_strlit("_check");
    assert("_col"@ =~= seq!['_', 'c', 'o', 'l']);
    assert("_check"@ =~= seq!['_', 'c', 'h', 'e', 'c', 'k']);
    reveal_with_fuel(toggles, 2);
    assert(seq![name].drop_last() =~= Seq::<Seq<char>>::empty());
    if !(time_fixed && name == "source_timestamp"@) {
        let t = ToggleView {
            field: name,
            target: name + seq!['_', 'c', 'o', 'l'],
            id: name + seq!['_', 'c', 'h', 'e', 'c', 'k'],
            checked: name == "source_timestamp"@ || name == "comm"@ || name == "hostname"@ || name
                == "priority"@,
        };
        assert(Seq::<ToggleView>::empty().push(t) =~= seq![t]);
    }
}

/// The columns of the search page: those that are not messages, in their order, each
/// shown where it is enabled.
pub proof fn one_more_page_column(
    names: Seq<Seq<char>>,
    name: Seq<char>,
    enabled: Seq<Seq<char>>,
)
    ensures
        page_columns(Seq::empty(), enabled).len() == 0,
        name == "message"@ || name == "full_message"@ ==> page_columns(names.push(name), enabled)
            == page_columns(names, enabled),
        name != "message"@ && name != "full_message"@ ==> page_columns(names.push(name), enabled)
            == page_columns(names, enabled).push((name, enabled.contains(name))),
{
    assert(names.push(name).drop_last() =~= names);
    if name == "message"@ || name == "full_message"@ {
        assert(page_columns(names.push(name), enabled) =~= page_columns(names, enabled));
    } else {
        assert(page_columns(names.push(name), enabled) =~= page_columns(names, enabled).push(
            (name, enabled.contains(name)),
        ));
    }
}

/// What is left of a row of cells when its last text is another.
proof fn lemma_cells_before(
    names: Seq<Seq<char>>,
    row: Seq<Option<Seq<char>>>,
    more: Seq<Option<Seq<char>>>,
    enabled: Seq<Seq<char>>,
)
    requires
        names.len() <= row.len(),
        names.len() <= more.len(),
        forall|i: int| 0 <= i < names.len() ==> row[i] == #[trigger] more[i],
    ensures
        page_cells(names, row, enabled) == page_cells(names, more, enabled),
        page_messages(names, row) == page_messages(names, more),
    decreases names.len(),
{
    if names.len() > 0 {
        lemma_cells_before(names.drop_last(), row, more, enabled);
        assert(row[names.len() - 1] == more[names.len() - 1]);
    }
}

/// One more column of a row: a message has no cell, a hidden column an empty one, and a
/// column that is shown one with its text. Of the messages only the text of `message` is
/// shown, below the row.
pub proof fn one_more_page_cell(
    names: Seq<Seq<char>>,
    row: Seq<Option<Seq<char>>>,
    enabled: Seq<Seq<char>>,
    name: Seq<char>,
    text: Option<Seq<char>>,
)
    requires
        names.len() == row.len(),
    ensures
        ({
            let cells = page_cells(names, row, enabled);
            let more = page_cells(names.push(name), row.push(text), enabled);
            if name == "message"@ || name == "full_message"@ {
                more == cells
            } else if enabled.contains(name) {
                more == cells.push(Some(text))
            } else {
                more == cells.push(None)
            }
        }),
        page_messages(names.push(name), row.push(text)) == (if name == "message"@ && text is Some {
            page_messages(names, row).push(text->0)
        } else {
            page_messages(names, row)
        }),
{
    assert(names.push(name).drop_last() =~= names);
    assert forall|i: int| 0 <= i < names.len() implies row[i] == #[trigger] row.push(text)[i] by {}
    lemma_cells_before(names, row, row.push(text), enabled);
}

// ---------------------------------------------------------------------------
// Searches
// ---------------------------------------------------------------------------

/// What a page asks for: the minutes and the query that it is given; without them the
/// last five minutes, and everything.
pub proof fn page_asks_for_what_it_is_given(reltime: u32, q: Seq<char>)
    ensures
        page_search(Some(reltime), Some(q)).0 == reltime,
        page_search(None, Some(q)).0 == 5,
        q.len() > 0 ==> page_search(Some(reltime), Some(q)).1 == q,
        page_search(None, Some(Seq::empty())).1 == seq!['*'],
        page_search(None, None).1 == seq!['*'],
        page_search(None, None).0 == 5,
        page_search(Some(reltime), None) == (reltime, seq!['*']),
{
    reveal_strlit("*");
    assert("*"@ =~= seq!['*']);
}

/// What the search engine is asked, and where: everything for no query, and the newest
/// first.
pub proof fn search_engine_is_asked(index: Seq<char>, query: Seq<char>)
    ensures
        search_path(index) == seq!["api"@, "v1"@, index, "search"@],
        search_pairs(query).len() == 2,
        search_pairs(query)[0].0 == "query"@,
        query.len() > 0 ==> search_pairs(query)[0].1 == query,
        query.len() == 0 ==> search_pairs(query)[0].1 == seq!['*'],
        search_pairs(query)[1] == ("sort_by_field"@, "-source_timestamp"@),
{
    reveal_strlit("*");
    assert("*"@ =~= seq!['*']);
}

/// The parts of the address of a search, with what divides them, are as long as the
/// engine's address, the index and the query, and 54 characters more.
pub proof fn search_address_is_as_long_as_its_parts(
    base: Seq<char>,
    index: Seq<char>,
    query: Seq<char>,
)
    ensures
        url_size(base, search_path(index), search_pairs(query)) == base.len() + index.len() + (
        if query.len() == 0 {
            1
        } else {
            query.len()
        }) + 54,
{
    reveal_strlit("api");
    reveal_strlit("v1");
    reveal_strlit("search");
    reveal_strlit("query");
    reveal_strlit("sort_by_field");
    reveal_strlit("-source_timestamp");
    reveal_strlit("*");
    reveal_with_fuel(texts_size, 5);
    reveal_with_fuel(pairs_size, 3);
    assert(seq!["api"@, "v1"@, index, "search"@].drop_last() =~= seq!["api"@, "v1"@, index]);
    assert(seq!["api"@, "v1"@, index].drop_last() =~= seq!["api"@, "v1"@]);
    assert(seq!["api"@, "v1"@].drop_last() =~= seq!["api"@]);
    let q = if query.len() == 0 {
        "*"@
    } else {
        query
    };
    assert(search_pairs(query).drop_last() =~= seq![("query"@, q)]);
}

/// An address is what extending it gave where a request can be sent to that, and else the
/// error that says why there is none.
pub proof fn address_is_checked(u: Seq<char>, e: UrlError)
    ensures
        checked_url(Ok(u), true) == Ok::<Seq<char>, UrlError>(u),
        checked_url(Ok(u), false) == Err::<Seq<char>, UrlError>(UrlError::Unusable),
        checked_url(Err(e), true) == Err::<Seq<char>, UrlError>(e),
        checked_url(Err(e), false) == Err::<Seq<char>, UrlError>(e),
{
}

/// Whether a name can stand before another.
pub open spec fn stands_before(rules: NameRules, a: Seq<char>, b: Seq<char>) -> bool {
    if rules.time_first {
        b != "source_timestamp"@ && (a == "source_timestamp"@ || text_lt(a, b))
    } else {
        text_lt(a, b)
    }
}

/// The names on a page are those of the fields that its documents have, each once, without
/// the messages where those have rows of their own; the time stands first where it is to,
/// and all others in their order.
pub proof fn page_names_the_fields<V: View>(
    rules: NameRules,
    docs: Seq<FieldMap<V>>,
    names: Seq<Seq<char>>,
)
    requires
        names_of_docs(rules, docs, names),
    ensures
        forall|k: Seq<char>| #[trigger]
            names.contains(k) <==> (exists|i: int|
                0 <= i < docs.len() && (#[trigger] docs[i])@.contains_key(k)) && !(
            rules.without_messages && (k == "message"@ || k == "full_message"@)),
        forall|i: int, j: int|
            0 <= i < j < names.len() ==> stands_before(
                rules,
                #[trigger] names[i],
                #[trigger] names[j],
            ),
{
    assert forall|i: int, j: int| 0 <= i < j < names.len() implies stands_before(
        rules,
        #[trigger] names[i],
        #[trigger] names[j],
    ) by {
        assert(crate::web::names::name_before(rules, names[i], names[j]));
    }
}

/// A row of a table has what its document says under each name, and nothing where it says
/// nothing.
pub proof fn row_says_what_its_document_says(
    doc: Map<Seq<char>, Seq<char>>,
    names: Seq<Seq<char>>,
    j: int,
)
    requires
        0 <= j < names.len(),
    ensures
        row_of(doc, names).len() == names.len(),
        row_of(doc, names)[j] is Some <==> doc.contains_key(names[j]),
        row_of(doc, names)[j] matches Some(t) ==> t == doc[names[j]],
{
}

// ---------------------------------------------------------------------------
// Cookies
// ---------------------------------------------------------------------------

/// Where the white space before a text ends.
proof fn lemma_white_before(s: Seq<char>, i: int, a: int)
    requires
        0 <= i <= a <= s.len(),
        forall|j: int| i <= j < a ==> whitespace(#[trigger] s[j]),
        a < s.len() ==> !whitespace(s[a]),
    ensures
        crate::query::lexer::run_end(s, i, crate::query::lexer::Class::White) == a,
    decreases a - i,
{
    if i < a {
        lemma_white_before(s, i + 1, a);
    }
}

/// Where the white space behind a text begins.
proof fn lemma_white_behind(s: Seq<char>, n: int, b: int)
    requires
        0 <= b <= n <= s.len(),
        forall|j: int| b <= j < n ==> whitespace(#[trigger] s[j]),
        b > 0 ==> !whitespace(s[b - 1]),
    ensures
        crate::web::state::white_tail(s, n) == b,
    decreases n - b,
{
    if b < n {
        lemma_white_behind(s, n - 1, b);
    }
}

/// White space around a text is taken away, and nothing else.
#[verifier::rlimit(60)]
#[verifier::spinoff_prover]
pub proof fn white_space_around_is_taken_away(before: Seq<char>, s: Seq<char>, behind: Seq<char>)
    ensures
        trimmed(s) && (forall|i: int| 0 <= i < before.len() ==> whitespace(#[trigger] before[i]))
            && (forall|i: int| 0 <= i < behind.len() ==> whitespace(#[trigger] behind[i]))
            ==> trim(before + s + behind) == s,
{
    if trimmed(s) && (forall|i: int| 0 <= i < before.len() ==> whitespace(#[trigger] before[i]))
        && (forall|i: int| 0 <= i < behind.len() ==> whitespace(#[trigger] behind[i])) {
        let t = before + s + behind;
        let a = before.len() as int;
        let b = a + s.len();
        assert forall|j: int| 0 <= j < a implies whitespace(#[trigger] t[j]) by {
            assert(t[j] == before[j]);
        }
        assert forall|j: int| b <= j < t.len() implies whitespace(#[trigger] t[j]) by {
            assert(t[j] == behind[j - b]);
        }
        if s.len() > 0 {
            assert(t[a] == s[0] && t[b - 1] == s.last());
            lemma_white_before(t, 0, a);
            lemma_white_behind(t, t.len() as int, b);
            assert(t.subrange(a, b) =~= s);
        } else {
            assert forall|j: int| 0 <= j < t.len() implies whitespace(#[trigger] t[j]) by {}
            lemma_white_before(t, 0, t.len() as int);
            lemma_white_behind(t, t.len() as int, 0);
            assert(s =~= Seq::<char>::empty());
        }
    }
}

/// A text without white space around it is left as it is.
proof fn lemma_trimmed(s: Seq<char>)
    requires
        trimmed(s),
    ensures
        trim(s) == s,
{
    let none = Seq::<char>::empty();
    white_space_around_is_taken_away(none, s, none);
    assert(none + s + none =~= s);
}

/// What stands behind the first equals sign of a cookie is its value, without quotes.
proof fn lemma_pair(name: Seq<char>, value: Seq<char>)
    requires
        name.len() > 0,
        trimmed(name),
        trimmed(value),
        forall|i: int| 0 <= i < name.len() ==> #[trigger] name[i] != '=',
    ensures
        plain_pair(name + seq!['='] + value) == Some((name, trim(unquoted(value)))),
{
    let s = name + seq!['='] + value;
    let k = name.len() as int;
    crate::text::find_char_after(name, value, '=');
    assert(s.take(k) =~= name);
    assert(s.skip(k + 1) =~= value);
    lemma_trimmed(name);
    lemma_trimmed(value);
}

/// A cookie is a name and a value around its first equals sign, with or without quotes
/// around the value.
#[verifier::rlimit(60)]
#[verifier::spinoff_prover]
pub proof fn cookie_has_name_and_value(name: Seq<char>, value: Seq<char>)
    ensures
        name.len() > 0 && trimmed(name) && trimmed(value) && !in_quotes(value) && (forall|i: int|
            0 <= i < name.len() ==> #[trigger] name[i] != '=') ==> {
            &&& plain_pair(name + seq!['='] + value) == Some((name, value))
            &&& plain_pair(name + seq!['='] + (seq!['"'] + value + seq!['"'])) == Some(
                (name, value),
            )
        },
{
    if name.len() > 0 && trimmed(name) && trimmed(value) && !in_quotes(value) && (forall|i: int|
        0 <= i < name.len() ==> #[trigger] name[i] != '=') {
        let q = seq!['"'] + value + seq!['"'];
        lemma_trimmed(value);
        lemma_pair(name, value);
        assert(trimmed(q)) by {
            assert(q[0] == '"' && q.last() == '"');
        }
        lemma_pair(name, q);
        assert(unquoted(q) =~= value);
    }
}

/// A visitor without cookies sees the time, the command, the host and the priority.
pub proof fn strangers_see_four_columns()
    ensures
        cols_of(Seq::empty()) == default_cols(),
        default_cols().len() == 4,
        default_cols()[0] == "source_timestamp"@,
        default_cols()[1] == "comm"@,
        default_cols()[2] == "hostname"@,
        default_cols()[3] == "priority"@,
{
}

} // verus!
