//! Which columns a visitor sees, as cookies remember it.
use cookie::Cookie;
use vstd::prelude::*;

use crate::query::lexer::{in_class, lemma_run_end, run_end, whitespace, Class};
use crate::text::{
    find_char, find_char_after, join_strings, join_text, list_contains, split_keeps_whole,
    split_on, split_text, split_undoes_join, str_eq, texts,
};

verus! {

/// What is known of a visitor.
#[derive(Debug, PartialEq, Eq)]
pub struct AppState {
    /// The columns that are shown, none twice.
    cols_enabled: Vec<String>,
}

impl View for AppState {
    type V = Seq<Seq<char>>;

    closed spec fn view(&self) -> Seq<Seq<char>> {
        texts(self.cols_enabled@)
    }
}

/// Whether the columns are these, none twice.
pub open spec fn shows(state: AppState, cols: Seq<Seq<char>>) -> bool {
    &&& state@.no_duplicates()
    &&& forall|k: Seq<char>| #[trigger] state@.contains(k) <==> cols.contains(k)
}

/// The columns that are shown to a visitor of whom nothing is known.
pub open spec fn default_cols() -> Seq<Seq<char>> {
    seq!["source_timestamp"@, "comm"@, "hostname"@, "priority"@]
}

/// Adds a text where it is not there yet.
fn add_new(list: &mut Vec<String>, text: String)
    requires
        texts(old(list)@).no_duplicates(),
    ensures
        texts(final(list)@).no_duplicates(),
        forall|k: Seq<char>| #[trigger]
            texts(final(list)@).contains(k) <==> texts(old(list)@).contains(k) || k == text@,
{
    if list_contains(list, text.as_str()) {
        return;
    }
    let ghost before = texts(list@);
    let ghost new = text@;
    list.push(text);
    proof {
        let after = texts(list@);
        assert(after =~= before.push(new));
        assert forall|k: Seq<char>| #[trigger] after.contains(k) <==> before.contains(k) || k
            == new by {
            if before.contains(k) {
                let j = choose|j: int| 0 <= j < before.len() && before[j] == k;
                assert(after[j] == k);
            }
            if k == new {
                assert(after[before.len() as int] == k);
            }
        }
    }
}

/// The texts of a list, each once.
fn distinct(list: Vec<String>) -> (res: Vec<String>)
    ensures
        texts(res@).no_duplicates(),
        forall|k: Seq<char>| #[trigger] texts(res@).contains(k) <==> texts(list@).contains(k),
{
    let ghost all = texts(list@);
    let mut res: Vec<String> = Vec::new();
    for s in it: list
        invariant
            it.seq() == list@,
            all == texts(list@),
            texts(res@).no_duplicates(),
            forall|k: Seq<char>| #[trigger]
                texts(res@).contains(k) <==> all.take(it.index()).contains(k),
    {
        let ghost i = it.index();
        let ghost done = texts(res@);
        let ghost text = s@;
        add_new(&mut res, s);
        proof {
            let seen = all.take(i);
            let next = all.take(i + 1);
            assert(next =~= seen.push(text));
            assert forall|k: Seq<char>| #[trigger] texts(res@).contains(k) <==> next.contains(
                k,
            ) by {
                assert(done.contains(k) <==> seen.contains(k));
                if seen.contains(k) {
                    let j = choose|j: int| 0 <= j < seen.len() && seen[j] == k;
                    assert(next[j] == k);
                }
                if k == text {
                    assert(next[i] == k);
                }
                if next.contains(k) && k != text {
                    let j = choose|j: int| 0 <= j < next.len() && next[j] == k;
                    assert(seen[j] == k);
                }
            }
        }
    }
    assert(all.take(all.len() as int) =~= all);
    res
}

impl Clone for AppState {
    fn clone(&self) -> (res: Self)
        ensures
            res@ == self@,
    {
        proof {
            use_type_invariant(self);
        }
        let cols_enabled = self.cols_enabled.clone();
        assert(texts(cols_enabled@) =~= texts(self.cols_enabled@));
        AppState { cols_enabled }
    }
}

impl Default for AppState {
    fn default() -> (res: Self)
        ensures
            shows(res, default_cols()),
    {
        let mut cols: Vec<String> = Vec::new();
        cols.push("source_timestamp".to_owned());
        cols.push("comm".to_owned());
        cols.push("hostname".to_owned());
        cols.push("priority".to_owned());
        assert(texts(cols@) =~= default_cols());
        AppState::new(cols)
    }
}

// ---------------------------------------------------------------------------
// Cookies
// ---------------------------------------------------------------------------

/// Whether a text neither begins nor ends with white space.
pub open spec fn trimmed(s: Seq<char>) -> bool {
    s.len() == 0 || (!whitespace(s[0]) && !whitespace(s.last()))
}

/// Whether a text stands in double quotes.
pub open spec fn in_quotes(s: Seq<char>) -> bool {
    s.len() >= 2 && s[0] == '"' && s.last() == '"'
}

/// The start of the white space that the first `n` characters of a text end with.
pub open spec fn white_tail(s: Seq<char>, n: int) -> int
    decreases n,
{
    if 0 < n <= s.len() && whitespace(s[n - 1]) {
        white_tail(s, n - 1)
    } else {
        n
    }
}

/// A text without the white space that it begins and ends with.
pub open spec fn trim(s: Seq<char>) -> Seq<char> {
    let a = run_end(s, 0, Class::White);
    let b = white_tail(s, s.len() as int);
    if a < b {
        s.subrange(a, b)
    } else {
        Seq::empty()
    }
}

/// A text without the quotes that it stands in.
pub open spec fn unquoted(s: Seq<char>) -> Seq<char> {
    if in_quotes(s) {
        s.subrange(1, s.len() - 1)
    } else {
        s
    }
}

/// Whether a text has nothing to decode, and no attributes.
pub open spec fn unencoded(s: Seq<char>) -> bool {
    forall|i: int| 0 <= i < s.len() ==> s[i] != '%' && #[trigger] s[i] != ';'
}

/// The name and the value of a cookie that has nothing to decode: what stands around its
/// first equals sign, without white space on either side and without quotes around the
/// value. `None` where there is no equals sign, or no name.
pub open spec fn plain_pair(s: Seq<char>) -> Option<(Seq<char>, Seq<char>)> {
    let k = find_char(s, '=', 0);
    let name = trim(s.take(k));
    if k < s.len() && name.len() > 0 {
        Some((name, trim(unquoted(trim(s.skip(k + 1))))))
    } else {
        None
    }
}

/// The name and the value of a cookie that has something to decode or attributes, as
/// `Cookie::parse_encoded` reads it.
pub uninterp spec fn encoded_cookie(s: Seq<char>) -> Option<(Seq<char>, Seq<char>)>;

/// The name and the value of a cookie.
pub open spec fn cookie_pair(s: Seq<char>) -> Option<(Seq<char>, Seq<char>)> {
    if unencoded(s) {
        plain_pair(s)
    } else {
        encoded_cookie(s)
    }
}

/// The optional pair, seen through its views.
pub open spec fn opt_pair(p: Option<(String, String)>) -> Option<(Seq<char>, Seq<char>)> {
    match p {
        Some((a, b)) => Some((a@, b@)),
        None => None,
    }
}

/// `Cookie::parse_encoded`: the parts around the equals sign, trimmed and without the
/// quotes around the value, where there is nothing to decode and there are no attributes;
/// else what the text alone determines.
#[verifier::external_body]
fn parse_cookie(s: &str) -> (res: Option<(String, String)>)
    ensures
        unencoded(s@) ==> opt_pair(res) == plain_pair(s@),
        !unencoded(s@) ==> opt_pair(res) == encoded_cookie(s@),
{
    match Cookie::parse_encoded(s) {
        Ok(c) => Some((c.name().to_string(), c.value().to_string())),
        Err(_) => None,
    }
}

/// The value of the first cookie named `cols` among these, from the `i`th on.
pub open spec fn cols_among(cookies: Seq<Seq<char>>, i: int) -> Option<Seq<char>>
    decreases cookies.len() - i,
{
    if i < 0 || i >= cookies.len() {
        None
    } else {
        match cookie_pair(cookies[i]) {
            Some((name, value)) => if name == "cols"@ {
                Some(value)
            } else {
                cols_among(cookies, i + 1)
            },
            None => cols_among(cookies, i + 1),
        }
    }
}

/// The value of the first cookie named `cols` in the headers, from the `i`th on.
pub open spec fn cols_cookie(headers: Seq<Seq<char>>, i: int) -> Option<Seq<char>>
    decreases headers.len() - i,
{
    if i < 0 || i >= headers.len() {
        None
    } else {
        match cols_among(split_text(headers[i], ';'), 0) {
            Some(v) => Some(v),
            None => cols_cookie(headers, i + 1),
        }
    }
}

/// The columns that the headers ask for.
pub open spec fn cols_of(headers: Seq<Seq<char>>) -> Seq<Seq<char>> {
    match cols_cookie(headers, 0) {
        Some(v) => split_text(v, ','),
        None => default_cols(),
    }
}

/// The value that a cookie gives the columns, where it is the one that does.
pub fn cols_value(pair: Option<(String, String)>) -> (res: Option<String>)
    ensures
        (match res {
            Some(v) => Some(v@),
            None => None,
        }) == (match opt_pair(pair) {
            Some((name, value)) => if name == "cols"@ {
                Some(value)
            } else {
                None
            },
            None => None,
        }),
{
    match pair {
        Some((name, value)) => if str_eq(name.as_str(), "cols") {
            Some(value)
        } else {
            None
        },
        None => None,
    }
}

/// Finds the first cookie named `cols` in a header.
fn find_cols(header: &str) -> (res: Option<String>)
    ensures
        (match res {
            Some(v) => Some(v@),
            None => None,
        }) == cols_among(split_text(header@, ';'), 0),
{
    let cookies = split_on(header, ';');
    let ghost views = texts(cookies@);
    let mut i: usize = 0;
    while i < cookies.len()
        invariant
            i <= cookies@.len(),
            views == texts(cookies@),
            views == split_text(header@, ';'),
            cols_among(views, 0) == cols_among(views, i as int),
        decreases cookies@.len() - i,
    {
        assert(views[i as int] == cookies@[i as int]@);
        match cols_value(parse_cookie(cookies[i].as_str())) {
            Some(v) => {
                return Some(v);
            },
            None => {},
        }
        i = i + 1;
    }
    None
}

/// What the cookies of a request say of its visitor.
pub fn app_state_from_cookies(headers: &Vec<String>) -> (res: AppState)
    ensures
        shows(res, cols_of(texts(headers@))),
{
    let ghost views = texts(headers@);
    let mut i: usize = 0;
    while i < headers.len()
        invariant
            i <= headers@.len(),
            views == texts(headers@),
            cols_cookie(views, 0) == cols_cookie(views, i as int),
        decreases headers@.len() - i,
    {
        assert(views[i as int] == headers@[i as int]@);
        match find_cols(headers[i].as_str()) {
            Some(v) => {
                return AppState::new(split_on(v.as_str(), ','));
            },
            None => {},
        }
        i = i + 1;
    }
    AppState::default()
}

/// The cookie that remembers columns.
pub open spec fn cookie_text(cols: Seq<Seq<char>>) -> Seq<char> {
    "cols="@ + join_text(cols, ","@)
}

impl AppState {
    /// No column is shown twice.
    #[verifier::type_invariant]
    spec fn distinct_cols(self) -> bool {
        texts(self.cols_enabled@).no_duplicates()
    }

    /// A visitor who sees these columns.
    pub fn new(cols: Vec<String>) -> (res: Self)
        ensures
            shows(res, texts(cols@)),
    {
        AppState { cols_enabled: distinct(cols) }
    }

    /// The columns that are shown, none twice.
    pub fn cols_enabled(&self) -> (res: &Vec<String>)
        ensures
            texts(res@) == self@,
            self@.no_duplicates(),
    {
        proof {
            use_type_invariant(self);
        }
        &self.cols_enabled
    }

    /// Whether a column is shown.
    pub fn is_enabled(&self, col: &str) -> (res: bool)
        ensures
            res == self@.contains(col@),
    {
        list_contains(&self.cols_enabled, col)
    }

    /// Shows a column or hides it.
    pub fn set_enabled(&mut self, col: &str, checked: bool)
        ensures
            final(self)@.no_duplicates(),
            forall|k: Seq<char>| #[trigger]
                final(self)@.contains(k) <==> (if k == col@ {
                    checked
                } else {
                    old(self)@.contains(k)
                }),
    {
        proof {
            use_type_invariant(&*self);
        }
        let mut cols: Vec<String> = Vec::new();
        std::mem::swap(&mut cols, &mut self.cols_enabled);
        if checked {
            add_new(&mut cols, col.to_owned());
        } else {
            remove_text(&mut cols, col);
        }
        self.cols_enabled = cols;
    }

    /// The cookie that remembers the columns.
    pub fn cookie(&self) -> (res: String)
        ensures
            res@ == cookie_text(self@),
    {
        let mut res = "cols=".to_owned();
        res.append(join_strings(&self.cols_enabled, ",").as_str());
        res
    }
}

/// Removes a text from a list without duplicates.
fn remove_text(list: &mut Vec<String>, text: &str)
    requires
        texts(old(list)@).no_duplicates(),
    ensures
        texts(final(list)@).no_duplicates(),
        forall|k: Seq<char>| #[trigger]
            texts(final(list)@).contains(k) <==> texts(old(list)@).contains(k) && k != text@,
{
    let ghost before = texts(list@);
    let mut i: usize = 0;
    while i < list.len()
        invariant
            texts(list@) == before,
            before == texts(old(list)@),
            before.no_duplicates(),
            i <= list@.len(),
            forall|j: int| 0 <= j < i ==> (#[trigger] before[j]) != text@,
        decreases list@.len() - i,
    {
        assert(before[i as int] == list@[i as int]@);
        if str_eq(list[i].as_str(), text) {
            let _ = list.remove(i);
            proof {
                let at = i as int;
                let after = texts(list@);
                assert(after =~= before.remove(at));
                assert forall|a: int, b: int|
                    0 <= a < after.len() && 0 <= b < after.len() && a != b implies after[a]
                    != after[b] by {
                    let x = if a < at {
                        a
                    } else {
                        a + 1
                    };
                    let y = if b < at {
                        b
                    } else {
                        b + 1
                    };
                    assert(after[a] == before[x] && after[b] == before[y]);
                }
                assert forall|k: Seq<char>| #[trigger] after.contains(k) <==> before.contains(k)
                    && k != text@ by {
                    if after.contains(k) {
                        let a = choose|a: int| 0 <= a < after.len() && after[a] == k;
                        let x = if a < at {
                            a
                        } else {
                            a + 1
                        };
                        assert(before[x] == k);
                        assert(before[x] != before[at]);
                    }
                    if before.contains(k) && k != text@ {
                        let x = choose|x: int| 0 <= x < before.len() && before[x] == k;
                        if x < at {
                            assert(after[x] == k);
                        } else {
                            assert(after[x - 1] == k);
                        }
                    }
                }
            }
            return;
        }
        i = i + 1;
    }
    proof {
        assert forall|k: Seq<char>| #[trigger] before.contains(k) implies k != text@ by {
            let x = choose|x: int| 0 <= x < before.len() && before[x] == k;
            assert(before[x] != text@);
        }
    }
}

// ---------------------------------------------------------------------------
// Laws
// ---------------------------------------------------------------------------

/// Whether columns can be told from a cookie: there is at least one, none has a comma, a
/// semicolon or a percent sign, and all of them in a row neither begin nor end with white
/// space, nor stand in quotes.
pub open spec fn can_be_remembered(cols: Seq<Seq<char>>) -> bool {
    let list = join_text(cols, seq![',']);
    &&& cols.len() > 0
    &&& forall|i: int, j: int|
        0 <= i < cols.len() && 0 <= j < cols[i].len() ==> {
            let c = #[trigger] cols[i][j];
            c != ',' && c != ';' && c != '%'
        }
    &&& trimmed(list)
    &&& !in_quotes(list)
}

/// What is joined with commas holds nothing but what was joined and commas.
proof fn lemma_join_chars(cols: Seq<Seq<char>>)
    requires
        forall|i: int, j: int|
            0 <= i < cols.len() && 0 <= j < cols[i].len() ==> {
                let c = #[trigger] cols[i][j];
                c != ',' && c != ';' && c != '%'
            },
    ensures
        forall|j: int|
            0 <= j < join_text(cols, seq![',']).len() ==> {
                let c = #[trigger] join_text(cols, seq![','])[j];
                c != ';' && c != '%'
            },
    decreases cols.len(),
{
    if cols.len() == 1 {
        let s = join_text(cols, seq![',']);
        assert forall|j: int| 0 <= j < s.len() implies {
            let c = #[trigger] s[j];
            c != ';' && c != '%'
        } by {
            assert(s[j] == cols[0][j]);
        }
    } else if cols.len() > 1 {
        let front = cols.drop_last();
        assert forall|i: int, j: int| 0 <= i < front.len() && 0 <= j < front[i].len() implies {
            let c = #[trigger] front[i][j];
            c != ',' && c != ';' && c != '%'
        } by {
            assert(front[i][j] == cols[i][j]);
        }
        lemma_join_chars(front);
        let a = join_text(front, seq![',']);
        let last = cols.last();
        let s = join_text(cols, seq![',']);
        assert(s == a + seq![','] + last);
        assert forall|j: int| 0 <= j < s.len() implies {
            let c = #[trigger] s[j];
            c != ';' && c != '%'
        } by {
            if j < a.len() {
                assert(s[j] == a[j]);
            } else if j > a.len() {
                assert(s[j] == cols[cols.len() - 1][j - a.len() - 1]);
            }
        }
    }
}

/// The white space that a text ends with starts where anything else ends.
proof fn lemma_white_tail(s: Seq<char>, n: int, to: int)
    requires
        0 <= to <= n <= s.len(),
        forall|i: int| to <= i < n ==> whitespace(#[trigger] s[i]),
        to > 0 ==> !whitespace(s[to - 1]),
    ensures
        white_tail(s, n) == to,
    decreases n,
{
    if to < n {
        assert(whitespace(s[n - 1]));
        lemma_white_tail(s, n - 1, to);
    }
}

/// Where the white space that a text ends with starts.
proof fn lemma_white_tail_found(s: Seq<char>, n: int)
    requires
        0 <= n <= s.len(),
    ensures
        0 <= white_tail(s, n) <= n,
        forall|i: int| white_tail(s, n) <= i < n ==> whitespace(#[trigger] s[i]),
    decreases n,
{
    if 0 < n && whitespace(s[n - 1]) {
        lemma_white_tail_found(s, n - 1);
    }
}

/// White space around a trimmed text is trimmed away.
proof fn lemma_trim(s: Seq<char>, a: int, b: int)
    requires
        0 <= a <= b <= s.len(),
        forall|i: int| 0 <= i < a ==> whitespace(#[trigger] s[i]),
        forall|i: int| b <= i < s.len() ==> whitespace(#[trigger] s[i]),
        trimmed(s.subrange(a, b)),
    ensures
        trim(s) == s.subrange(a, b),
{
    let x = s.subrange(a, b);
    lemma_run_end(s, 0, Class::White);
    let start = run_end(s, 0, Class::White);
    let n = s.len() as int;
    if a == b {
        assert forall|i: int| 0 <= i < n implies whitespace(#[trigger] s[i]) by {}
        lemma_white_tail_found(s, n);
        assert(start == n);
        assert(trim(s) =~= x);
    } else {
        assert(x[0] == s[a] && x.last() == s[b - 1]);
        assert(start == a) by {
            if start < a {
                assert(whitespace(s[start]));
            } else if start > a {
                assert(in_class(Class::White, s[a]));
            }
        }
        lemma_white_tail(s, n, b);
    }
}

/// Whether these headers hold the cookie that remembers columns, as the `c`th cookie of
/// the `h`th header, perhaps with white space around it, and no cookie named `cols` before
/// it.
pub open spec fn holds_cookie(
    headers: Seq<Seq<char>>,
    h: int,
    c: int,
    cols: Seq<Seq<char>>,
) -> bool {
    &&& 0 <= h < headers.len()
    &&& 0 <= c < split_text(headers[h], ';').len()
    &&& trim(split_text(headers[h], ';')[c]) == cookie_text(cols)
    &&& forall|i: int|
        0 <= i < c ==> !is_cols_cookie(#[trigger] split_text(headers[h], ';')[i])
    &&& forall|g: int, i: int|
        0 <= g < h && 0 <= i < split_text(headers[g], ';').len() ==> !is_cols_cookie(
            #[trigger] split_text(headers[g], ';')[i],
        )
}

/// Whether a text is a cookie named `cols`.
pub open spec fn is_cols_cookie(s: Seq<char>) -> bool {
    cookie_pair(s) matches Some((name, _)) && name == "cols"@
}

/// The cookies before the first that is named `cols` are passed over.
proof fn lemma_cols_among(cookies: Seq<Seq<char>>, i: int, c: int)
    requires
        0 <= i <= c <= cookies.len(),
        forall|j: int| i <= j < c ==> !is_cols_cookie(#[trigger] cookies[j]),
    ensures
        cols_among(cookies, i) == cols_among(cookies, c),
    decreases c - i,
{
    if i < c {
        assert(!is_cols_cookie(cookies[i]));
        lemma_cols_among(cookies, i + 1, c);
    }
}

/// The headers before the first with a cookie that is named `cols` are passed over.
proof fn lemma_cols_cookie(headers: Seq<Seq<char>>, g: int, h: int)
    requires
        0 <= g <= h <= headers.len(),
        forall|f: int, i: int|
            0 <= f < h && 0 <= i < split_text(headers[f], ';').len() ==> !is_cols_cookie(
                #[trigger] split_text(headers[f], ';')[i],
            ),
    ensures
        cols_cookie(headers, g) == cols_cookie(headers, h),
    decreases h - g,
{
    if g < h {
        let cookies = split_text(headers[g], ';');
        lemma_cols_among(cookies, 0, cookies.len() as int);
        lemma_cols_cookie(headers, g + 1, h);
    }
}

/// The cookie that remembers columns, perhaps with white space around it, is a cookie
/// named `cols` whose value is the columns in a row.
proof fn lemma_cookie_pair(part: Seq<char>, cols: Seq<Seq<char>>)
    requires
        can_be_remembered(cols),
        trim(part) == cookie_text(cols),
    ensures
        cookie_pair(part) == Some(("cols"@, join_text(cols, seq![',']))),
{
    reveal_strlit("cols=");
    reveal_strlit("cols");
    reveal_strlit(",");
    assert(","@ =~= seq![',']);
    let name = "cols"@;
    let list = join_text(cols, seq![',']);
    let text = cookie_text(cols);
    assert("cols="@ =~= name + seq!['=']);
    assert(text =~= name + seq!['='] + list);
    lemma_join_chars(cols);
    let n = part.len() as int;
    let a = run_end(part, 0, Class::White);
    let b = white_tail(part, n);
    lemma_run_end(part, 0, Class::White);
    lemma_white_tail_found(part, n);
    assert(text.len() > 0);
    assert(a < b && part.subrange(a, b) == text);
    assert forall|i: int| 0 <= i < a implies whitespace(#[trigger] part[i]) by {
        assert(in_class(Class::White, part[i]));
    }
    assert forall|i: int| a <= i < b implies #[trigger] part[i] == text[i - a] by {
        assert(part.subrange(a, b)[i - a] == part[i]);
    }
    assert forall|i: int| 0 <= i < n implies part[i] != '%' && #[trigger] part[i] != ';' by {
        if a + 5 <= i < b {
            assert(part[i] == list[i - a - 5]);
        } else if a <= i < b {
            assert(part[i] == text[i - a]);
        }
    }
    assert(unencoded(part));
    let k = a + 4;
    assert(part[k] == text[4]);
    let front = part.take(k);
    let back = part.skip(k + 1);
    assert(part =~= front + seq!['='] + back);
    assert forall|i: int| 0 <= i < front.len() implies #[trigger] front[i] != '=' by {
        if i >= a {
            assert(front[i] == text[i - a]);
        }
    }
    find_char_after(front, back, '=');
    assert(find_char(part, '=', 0) == k);
    assert(front.subrange(a, k) =~= name);
    assert(trimmed(name));
    lemma_trim(front, a, k);
    let m = b - k - 1;
    assert(back.subrange(0, m) =~= list) by {
        assert forall|i: int| 0 <= i < m implies back[i] == list[i] by {
            assert(part[i + k + 1] == text[i + 5]);
        }
    }
    assert forall|i: int| m <= i < back.len() implies whitespace(#[trigger] back[i]) by {
        assert(back[i] == part[i + k + 1]);
    }
    lemma_trim(back, 0, m);
    assert(list.subrange(0, list.len() as int) =~= list);
    lemma_trim(list, 0, list.len() as int);
}

/// The cookie that remembers columns gives the same columns when it comes back, among
/// whatever other cookies, where they can be told from it.
pub proof fn cookie_reads_back(cols: Seq<Seq<char>>, headers: Seq<Seq<char>>, h: int, c: int)
    ensures
        can_be_remembered(cols) && holds_cookie(headers, h, c, cols) ==> cols_of(headers) == cols,
{
    if can_be_remembered(cols) && holds_cookie(headers, h, c, cols) {
        let cookies = split_text(headers[h], ';');
        lemma_cookie_pair(cookies[c], cols);
        lemma_cols_among(cookies, 0, c);
        lemma_cols_cookie(headers, 0, h);
        split_undoes_join(cols, ',');
    }
}

/// The cookie that remembers columns is held by the header that is that cookie alone.
pub proof fn cookie_alone_is_held(cols: Seq<Seq<char>>)
    ensures
        can_be_remembered(cols) ==> holds_cookie(seq![cookie_text(cols)], 0, 0, cols),
{
    if can_be_remembered(cols) {
        reveal_strlit("cols=");
        reveal_strlit(",");
        assert(","@ =~= seq![',']);
        let text = cookie_text(cols);
        let list = join_text(cols, seq![',']);
        lemma_join_chars(cols);
        assert forall|i: int| 0 <= i < text.len() implies #[trigger] text[i] != ';' by {
            if i >= 5 {
                assert(text[i] == list[i - 5]);
            }
        }
        split_keeps_whole(text, ';');
        assert(text.subrange(0, text.len() as int) =~= text);
        assert(trimmed(text)) by {
            if list.len() > 0 {
                assert(text.last() == list.last());
            }
        }
        lemma_trim(text, 0, text.len() as int);
    }
}

} // verus!
