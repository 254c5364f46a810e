//! Searches: what is asked of the search engine, and what is made of its answer.
use hyper::Uri;
use url::Url;
use vstd::prelude::*;

use crate::clock::{clock_reads_seconds, seconds_now};
use crate::fieldmap::FieldMap;
use crate::schema::document::Document;
use crate::text::texts;
use crate::web::names::{collect_names, names_of_docs, NameRules};

verus! {

/// Where the search engine is, and the index that is searched.
#[derive(Debug, PartialEq, Eq)]
pub struct Settings {
    pub quickwit_url: String,
    pub quickwit_index: String,
}

/// A search.
#[derive(Debug, PartialEq, Eq)]
pub struct SearchOptions {
    pub query: String,
    pub start_timestamp: Option<u64>,
    pub end_timestamp: Option<u64>,
}

/// What a [`SearchOptions`] asks for.
pub struct OptionsView {
    pub query: Seq<char>,
    pub start_timestamp: Option<u64>,
    pub end_timestamp: Option<u64>,
}

impl View for SearchOptions {
    type V = OptionsView;

    open spec fn view(&self) -> OptionsView {
        OptionsView {
            query: self.query@,
            start_timestamp: self.start_timestamp,
            end_timestamp: self.end_timestamp,
        }
    }
}

/// The time from which a search for the last minutes looks, in seconds since the
/// epoch; none where it looks at all times, or reaches back beyond the epoch.
pub open spec fn start_of(reltime: u32, now: u64) -> Option<u64> {
    if reltime > 0 && now >= reltime * 60 {
        Some((now - reltime * 60) as u64)
    } else {
        None
    }
}

/// The search for a query in the last minutes before `now`.
pub fn search_options_at(reltime: u32, query: String, now: u64) -> (res: SearchOptions)
    requires
        reltime * 60 <= u32::MAX,
    ensures
        res@ == (OptionsView {
            query: query@,
            start_timestamp: start_of(reltime, now),
            end_timestamp: None,
        }),
{
    let span: u64 = (reltime * 60) as u64;
    let start_timestamp: Option<u64> = if reltime > 0 && now >= span {
        Some(now - span)
    } else {
        None
    };
    SearchOptions { query, start_timestamp, end_timestamp: None }
}

/// The search for a query in the last minutes, or at all times where there are none.
/// `None` where the clock is asked and stands before the epoch.
pub fn perform_search(reltime: u32, query: String) -> (res: Option<SearchOptions>)
    requires
        reltime * 60 <= u32::MAX,
    ensures
        reltime == 0 ==> res is Some,
        res matches Some(o) ==> o@.query == query@ && o@.end_timestamp is None && (reltime == 0
            ==> o@.start_timestamp is None),
        reltime > 0 ==> exists|now: Option<u64>| #[trigger]
            clock_reads_seconds(now) && match (now, res) {
                (Some(n), Some(o)) => o@.start_timestamp == start_of(reltime, n),
                (None, None) => true,
                _ => false,
            },
{
    if reltime == 0 {
        return Some(search_options_at(0, query, 0));
    }
    let now = seconds_now();
    assert(clock_reads_seconds(now));
    match now {
        Some(n) => Some(search_options_at(reltime, query, n)),
        None => None,
    }
}

/// What a page asks for that says nothing else: the last five minutes, and everything.
pub open spec fn page_search(reltime: Option<u32>, q: Option<Seq<char>>) -> (u32, Seq<char>) {
    (
        match reltime {
            Some(r) => r,
            None => 5,
        },
        match q {
            Some(q) => if q.len() == 0 {
                "*"@
            } else {
                q
            },
            None => "*"@,
        },
    )
}

/// What a page asks for.
pub fn search_params(reltime: Option<u32>, q: Option<String>) -> (res: (u32, String))
    ensures
        (res.0, res.1@) == page_search(
            reltime,
            match q {
                Some(q) => Some(q@),
                None => None,
            },
        ),
{
    let minutes: u32 = match reltime {
        Some(r) => r,
        None => 5,
    };
    let query: String = match q {
        Some(q) => {
            if crate::text::chars_of(q.as_str()).len() == 0 {
                "*".to_owned()
            } else {
                q
            }
        },
        None => "*".to_owned(),
    };
    (minutes, query)
}

/// Why an address cannot be built.
#[derive(Clone, Copy, Debug, PartialEq, Eq)]
pub enum UrlError {
    /// The address of the search engine is not a URL.
    Invalid,
    /// The address has no path to which anything could be added.
    CannotBeBase,
    /// The address would be too long.
    TooLong,
    /// The address is none that a request can be sent to.
    Unusable,
}

/// How many characters an address is made of at most: so many that each of them can take
/// two hundred bytes and more, and the address still be measured in 32 bits.
pub const URL_LIMIT: usize = 0x100_0000;

/// An address with segments added to its path and pairs to its query, as the `url`
/// crate writes it.
pub uninterp spec fn extended_url(
    base: Seq<char>,
    segments: Seq<Seq<char>>,
    pairs: Seq<(Seq<char>, Seq<char>)>,
) -> Result<Seq<char>, UrlError>;

/// The pairs of a list, seen through their views.
pub open spec fn pair_views(v: Seq<(String, String)>) -> Seq<(Seq<char>, Seq<char>)> {
    Seq::new(v.len(), |i: int| (v[i].0@, v[i].1@))
}

/// The number of characters in texts, with one more for each.
pub open spec fn texts_size(v: Seq<Seq<char>>) -> nat
    decreases v.len(),
{
    if v.len() == 0 {
        0
    } else {
        texts_size(v.drop_last()) + v.last().len() + 1
    }
}

/// The number of characters in pairs of texts, with two more for each.
pub open spec fn pairs_size(v: Seq<(Seq<char>, Seq<char>)>) -> nat
    decreases v.len(),
{
    if v.len() == 0 {
        0
    } else {
        pairs_size(v.drop_last()) + v.last().0.len() + v.last().1.len() + 2
    }
}

/// The number of characters that an address is made of, with what divides its parts.
pub open spec fn url_size(
    base: Seq<char>,
    segments: Seq<Seq<char>>,
    pairs: Seq<(Seq<char>, Seq<char>)>,
) -> nat {
    base.len() + texts_size(segments) + pairs_size(pairs)
}

/// Adds to a number that does not exceed the limit, or gives one more than the limit.
fn add_up(total: usize, more: usize) -> (res: usize)
    requires
        total <= URL_LIMIT + 1,
    ensures
        res <= URL_LIMIT + 1,
        res <= URL_LIMIT ==> res == total + more,
        res > URL_LIMIT ==> total + more > URL_LIMIT,
{
    if total > URL_LIMIT || more > URL_LIMIT - total {
        URL_LIMIT + 1
    } else {
        total + more
    }
}

/// Whether an address of these parts is short enough.
pub fn url_fits(base: &str, segments: &Vec<String>, pairs: &Vec<(String, String)>) -> (res: bool)
    ensures
        res == (url_size(base@, texts(segments@), pair_views(pairs@)) <= URL_LIMIT),
{
    let ghost names = texts(segments@);
    let ghost values = pair_views(pairs@);
    let mut total: usize = add_up(0, base.unicode_len());
    let mut i: usize = 0;
    assert(names.take(0) =~= Seq::<Seq<char>>::empty());
    while i < segments.len()
        invariant
            i <= segments@.len(),
            names == texts(segments@),
            total <= URL_LIMIT + 1,
            total <= URL_LIMIT ==> total == base@.len() + texts_size(names.take(i as int)),
            total > URL_LIMIT ==> base@.len() + texts_size(names.take(i as int)) > URL_LIMIT,
        decreases segments@.len() - i,
    {
        assert(names.take(i + 1).drop_last() =~= names.take(i as int));
        total = add_up(add_up(total, segments[i].as_str().unicode_len()), 1);
        i = i + 1;
    }
    assert(names.take(i as int) =~= names);
    let mut k: usize = 0;
    assert(values.take(0) =~= Seq::<(Seq<char>, Seq<char>)>::empty());
    while k < pairs.len()
        invariant
            k <= pairs@.len(),
            values == pair_views(pairs@),
            total <= URL_LIMIT + 1,
            total <= URL_LIMIT ==> total == base@.len() + texts_size(names) + pairs_size(
                values.take(k as int),
            ),
            total > URL_LIMIT ==> base@.len() + texts_size(names) + pairs_size(
                values.take(k as int),
            ) > URL_LIMIT,
        decreases pairs@.len() - k,
    {
        assert(values.take(k + 1).drop_last() =~= values.take(k as int));
        total = add_up(total, pairs[k].0.as_str().unicode_len());
        total = add_up(add_up(total, pairs[k].1.as_str().unicode_len()), 2);
        k = k + 1;
    }
    assert(values.take(k as int) =~= values);
    total <= URL_LIMIT
}

/// `Url::parse`, then `path_segments_mut` extended by the segments and
/// `query_pairs_mut` by the pairs: fixed by the address, the segments and the pairs
/// alone. The parts are short enough that no length exceeds 32 bits, whatever is encoded.
#[verifier::external_body]
fn extend_url(base: &str, segments: &Vec<String>, pairs: &Vec<(String, String)>) -> (res: Result<
    String,
    UrlError,
>)
    requires
        url_size(base@, texts(segments@), pair_views(pairs@)) <= URL_LIMIT,
    ensures
        url_view(res) == extended_url(base@, texts(segments@), pair_views(pairs@)),
{
    match Url::parse(base) {
        Ok(mut url) => {
            match url.path_segments_mut() {
                Ok(mut path) => { path.extend(segments); },
                Err(()) => return Err(UrlError::CannotBeBase),
            }
            url.query_pairs_mut().extend_pairs(pairs);
            Ok(url.into())
        },
        Err(_) => Err(UrlError::Invalid),
    }
}

/// The path below the search engine's address at which an index is searched.
pub open spec fn search_path(index: Seq<char>) -> Seq<Seq<char>> {
    seq!["api"@, "v1"@, index, "search"@]
}

/// What is asked for a query: what it says, or everything, the newest first.
pub open spec fn search_pairs(query: Seq<char>) -> Seq<(Seq<char>, Seq<char>)> {
    seq![
        (
            "query"@,
            if query.len() == 0 {
                "*"@
            } else {
                query
            },
        ),
        ("sort_by_field"@, "-source_timestamp"@),
    ]
}

/// The path at which an index is searched.
pub fn make_search_path(index: &str) -> (res: Vec<String>)
    ensures
        texts(res@) == search_path(index@),
{
    let mut res: Vec<String> = Vec::new();
    res.push("api".to_owned());
    res.push("v1".to_owned());
    res.push(index.to_owned());
    res.push("search".to_owned());
    assert(texts(res@) =~= search_path(index@));
    res
}

/// What is asked for a query.
pub fn make_search_pairs(query: &str) -> (res: Vec<(String, String)>)
    ensures
        pair_views(res@) == search_pairs(query@),
{
    let asked: String = if crate::text::chars_of(query).len() == 0 {
        "*".to_owned()
    } else {
        query.to_owned()
    };
    let mut res: Vec<(String, String)> = Vec::new();
    res.push(("query".to_owned(), asked));
    res.push(("sort_by_field".to_owned(), "-source_timestamp".to_owned()));
    assert(pair_views(res@) =~= search_pairs(query@));
    res
}

/// Whether `Uri::from_str` takes a text for an address that a request can be sent to.
pub uninterp spec fn usable_uri(s: Seq<char>) -> bool;

/// `Uri::from_str` takes a text or not, which the text alone determines.
#[verifier::external_body]
fn is_usable_uri(s: &str) -> (res: bool)
    ensures
        res == usable_uri(s@),
{
    s.parse::<Uri>().is_ok()
}

/// What an address comes to, given what extending it gave and whether a request can be
/// sent to that.
pub open spec fn checked_url(extended: Result<Seq<char>, UrlError>, usable: bool) -> Result<
    Seq<char>,
    UrlError,
> {
    match extended {
        Ok(u) => if usable {
            Ok(u)
        } else {
            Err(UrlError::Unusable)
        },
        Err(e) => Err(e),
    }
}

/// What an address comes to, given what extending it gave and whether a request can be
/// sent to that.
pub fn check_url(extended: Result<String, UrlError>, usable: bool) -> (res: Result<
    String,
    UrlError,
>)
    ensures
        url_view(res) == checked_url(url_view(extended), usable),
{
    match extended {
        Ok(u) => if usable {
            Ok(u)
        } else {
            Err(UrlError::Unusable)
        },
        Err(e) => Err(e),
    }
}

/// An address or an error, seen through its view.
pub open spec fn url_view(res: Result<String, UrlError>) -> Result<Seq<char>, UrlError> {
    match res {
        Ok(u) => Ok(u@),
        Err(e) => Err(e),
    }
}

/// The address that is made of these parts.
pub open spec fn request_url(
    base: Seq<char>,
    segments: Seq<Seq<char>>,
    pairs: Seq<(Seq<char>, Seq<char>)>,
) -> Result<Seq<char>, UrlError> {
    if url_size(base, segments, pairs) <= URL_LIMIT {
        let extended = extended_url(base, segments, pairs);
        checked_url(extended, extended matches Ok(u) && usable_uri(u))
    } else {
        Err(UrlError::TooLong)
    }
}

/// The address at which the search engine answers a search.
pub fn build_search_uri(settings: &Settings, query: &str) -> (res: Result<String, UrlError>)
    ensures
        url_view(res) == request_url(
            settings.quickwit_url@,
            search_path(settings.quickwit_index@),
            search_pairs(query@),
        ),
{
    let path = make_search_path(settings.quickwit_index.as_str());
    let pairs = make_search_pairs(query);
    if !url_fits(settings.quickwit_url.as_str(), &path, &pairs) {
        return Err(UrlError::TooLong);
    }
    let extended = extend_url(settings.quickwit_url.as_str(), &path, &pairs);
    let usable = match &extended {
        Ok(u) => is_usable_uri(u.as_str()),
        Err(_) => false,
    };
    check_url(extended, usable)
}

/// What the search engine answers.
#[derive(Debug)]
pub struct SearchResults {
    pub elapsed_time_micros: u64,
    pub errors: Vec<String>,
    pub hits: Vec<Document>,
    pub num_hits: u64,
}

/// The answer that says nothing but that something went wrong.
pub fn search_result_with_error(error: String) -> (res: SearchResults)
    ensures
        res.elapsed_time_micros == 0,
        texts(res.errors@) == seq![error@],
        res.hits@.len() == 0,
        res.num_hits == 0,
{
    let mut errors: Vec<String> = Vec::new();
    errors.push(error);
    assert(texts(errors@) =~= seq![error@]);
    SearchResults { elapsed_time_micros: 0, errors, hits: Vec::new(), num_hits: 0 }
}

/// The text of a document under a name.
pub open spec fn cell(doc: Map<Seq<char>, Seq<char>>, name: Seq<char>) -> Option<Seq<char>> {
    if doc.contains_key(name) {
        Some(doc[name])
    } else {
        None
    }
}

/// The optional texts of a row, seen through their views.
pub open spec fn row_views(v: Seq<Option<String>>) -> Seq<Option<Seq<char>>> {
    Seq::new(
        v.len(),
        |i: int|
            match v[i] {
                Some(t) => Some(t@),
                None => None,
            },
    )
}

/// The row of a document: what it says under each name.
pub open spec fn row_of(doc: Map<Seq<char>, Seq<char>>, names: Seq<Seq<char>>) -> Seq<
    Option<Seq<char>>,
> {
    Seq::new(names.len(), |j: int| cell(doc, names[j]))
}

/// The row of a document.
fn make_row(doc: &FieldMap<String>, names: &Vec<String>) -> (res: Vec<Option<String>>)
    ensures
        row_views(res@) == row_of(doc@, texts(names@)),
{
    let ghost want = row_of(doc@, texts(names@));
    let mut res: Vec<Option<String>> = Vec::new();
    let mut j: usize = 0;
    while j < names.len()
        invariant
            j <= names@.len(),
            res@.len() == j,
            want == row_of(doc@, texts(names@)),
            forall|k: int| 0 <= k < j ==> row_views(res@)[k] == #[trigger] want[k],
        decreases names@.len() - j,
    {
        let ghost done = row_views(res@);
        assert(texts(names@)[j as int] == names@[j as int]@);
        let value: Option<String> = match doc.get(names[j].as_str()) {
            Some(t) => Some(t.clone()),
            None => None,
        };
        res.push(value);
        assert forall|k: int| 0 <= k < j + 1 implies row_views(res@)[k] == #[trigger] want[k] by {
            if k < j {
                assert(row_views(res@)[k] == done[k]);
            }
        }
        j = j + 1;
    }
    assert(row_views(res@) =~= want);
    res
}

/// The table of documents: the names of all their fields, the time first, and a row
/// for each document.
pub open spec fn is_table(
    docs: Seq<FieldMap<String>>,
    names: Seq<Seq<char>>,
    rows: Seq<Vec<Option<String>>>,
) -> bool {
    &&& names_of_docs((NameRules { without_messages: false, time_first: true }), docs, names)
    &&& rows.len() == docs.len()
    &&& forall|i: int|
        0 <= i < docs.len() ==> row_views((#[trigger] rows[i])@) == row_of(docs[i]@, names)
}

/// The table of documents.
pub fn search_table(docs: &Vec<FieldMap<String>>) -> (res: (Vec<String>, Vec<Vec<Option<String>>>))
    ensures
        is_table(docs@, texts(res.0@), res.1@),
{
    let names = collect_names(NameRules { without_messages: false, time_first: true }, docs);
    let mut rows: Vec<Vec<Option<String>>> = Vec::new();
    let mut i: usize = 0;
    while i < docs.len()
        invariant
            i <= docs@.len(),
            rows@.len() == i,
            forall|k: int|
                0 <= k < i ==> row_views((#[trigger] rows@[k])@) == row_of(docs@[k]@, texts(names@)),
        decreases docs@.len() - i,
    {
        rows.push(make_row(&docs[i], &names));
        i = i + 1;
    }
    (names, rows)
}

/// The texts shown of the documents found.
pub fn display_hits(hits: &Vec<Document>) -> (res: Vec<FieldMap<String>>)
    ensures
        res@.len() == hits@.len(),
        forall|i: int|
            0 <= i < hits@.len() ==> (#[trigger] res@[i])@ == crate::schema::display::shown(
                crate::schema::document::document_columns(),
                hits@[i]@,
            ),
{
    let mut res: Vec<FieldMap<String>> = Vec::new();
    let mut i: usize = 0;
    while i < hits.len()
        invariant
            i <= hits@.len(),
            res@.len() == i,
            forall|k: int|
                0 <= k < i ==> (#[trigger] res@[k])@ == crate::schema::display::shown(
                    crate::schema::document::document_columns(),
                    hits@[k]@,
                ),
        decreases hits@.len() - i,
    {
        res.push(hits[i].to_display());
        i = i + 1;
    }
    res
}

} // verus!
