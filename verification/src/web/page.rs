//! The parts of a page: its choices, its columns and its rows.
use vstd::prelude::*;

use crate::fieldmap::FieldMap;
use crate::json::{JsonValue, JsonView};
use crate::text::{str_eq, texts};
use crate::web::format::{format_value, formatted_field, text_result};
use crate::web::search::row_views;
use crate::web::state::AppState;

verus! {

// ---------------------------------------------------------------------------
// Choices of time
// ---------------------------------------------------------------------------

/// A span of time that can be searched.
#[derive(Debug, PartialEq, Eq)]
pub struct TimeChoice {
    /// The number of minutes; -1 stands for all times.
    pub minutes: i32,
    pub label: String,
    pub selected: bool,
}

/// What a [`TimeChoice`] stands for.
pub struct ChoiceView {
    pub minutes: int,
    pub label: Seq<char>,
    pub selected: bool,
}

impl View for TimeChoice {
    type V = ChoiceView;

    open spec fn view(&self) -> ChoiceView {
        ChoiceView { minutes: self.minutes as int, label: self.label@, selected: self.selected }
    }
}

/// The spans of time below a month that can be searched, in minutes, with their labels.
pub open spec fn spans() -> Seq<(int, Seq<char>)> {
    seq![
        (1int, "1m"@),
        (5int, "5m"@),
        (15int, "15m"@),
        (30int, "30m"@),
        (60int, "1h"@),
        (180int, "2h"@),
        (720int, "8h"@),
        (1440int, "1d"@),
        (2880int, "2d"@),
        (7200int, "5d"@),
        (10080int, "7d"@),
        (20160int, "14d"@),
        (43200int, "30d"@),
    ]
}

/// The spans of time of a list page: all times come last.
pub open spec fn list_spans() -> Seq<(int, Seq<char>)> {
    spans().push((-1int, "all"@))
}

/// The spans of time of the search page: all times come first, as no minutes.
pub open spec fn search_spans() -> Seq<(int, Seq<char>)> {
    seq![(0int, "all"@)] + spans()
}

/// The choices of time, with the one that is selected.
pub open spec fn choices(spans: Seq<(int, Seq<char>)>, selected: int) -> Seq<ChoiceView> {
    Seq::new(
        spans.len(),
        |i: int|
            ChoiceView {
                minutes: spans[i].0,
                label: spans[i].1,
                selected: spans[i].0 == selected,
            },
    )
}

/// The choices of a list, seen through their views.
pub open spec fn choice_views(v: Seq<TimeChoice>) -> Seq<ChoiceView> {
    Seq::new(v.len(), |i: int| v[i]@)
}

/// A span of time by its place.
fn nth_span(i: usize) -> (res: (i32, &'static str))
    requires
        i < 13,
    ensures
        (res.0 as int, res.1@) == spans()[i as int],
        res.0 > 0,
{
    match i {
        0 => (1, "1m"),
        1 => (5, "5m"),
        2 => (15, "15m"),
        3 => (30, "30m"),
        4 => (60, "1h"),
        5 => (180, "2h"),
        6 => (720, "8h"),
        7 => (1440, "1d"),
        8 => (2880, "2d"),
        9 => (7200, "5d"),
        10 => (10080, "7d"),
        11 => (20160, "14d"),
        _ => (43200, "30d"),
    }
}

/// A choice of time.
fn make_choice(minutes: i32, label: &str, selected: i64) -> (res: TimeChoice)
    ensures
        res@ == (ChoiceView {
            minutes: minutes as int,
            label: label@,
            selected: minutes == selected,
        }),
{
    TimeChoice { minutes, label: label.to_owned(), selected: minutes as i64 == selected }
}

/// Adds the choices of the spans below a month.
fn push_spans(list: &mut Vec<TimeChoice>, selected: i64)
    ensures
        choice_views(final(list)@) == choice_views(old(list)@) + choices(spans(), selected as int),
{
    let ghost before = choice_views(list@);
    let ghost all = choices(spans(), selected as int);
    let mut i: usize = 0;
    assert(before + all.take(0) =~= before);
    while i < 13
        invariant
            i <= 13,
            all == choices(spans(), selected as int),
            all.len() == 13,
            choice_views(list@) == before + all.take(i as int),
        decreases 13 - i,
    {
        let (minutes, label) = nth_span(i);
        let c = make_choice(minutes, label, selected);
        let ghost done = choice_views(list@);
        assert(c@ == all[i as int]);
        list.push(c);
        assert(choice_views(list@) =~= done.push(c@));
        assert(before + all.take(i + 1) =~= (before + all.take(i as int)).push(all[i as int]));
        i = i + 1;
    }
    assert(all.take(13) =~= all);
}

/// The choices of time of a list page.
pub fn list_choices(reltime: i32) -> (res: Vec<TimeChoice>)
    ensures
        choice_views(res@) == choices(list_spans(), reltime as int),
{
    let mut res: Vec<TimeChoice> = Vec::new();
    push_spans(&mut res, reltime as i64);
    let ghost done = choice_views(res@);
    let c = make_choice(-1, "all", reltime as i64);
    res.push(c);
    assert(choice_views(res@) =~= done.push(c@));
    assert(choice_views(res@) =~= choices(list_spans(), reltime as int));
    res
}

/// The choices of time of the search page.
pub fn search_choices(reltime: u32) -> (res: Vec<TimeChoice>)
    ensures
        choice_views(res@) == choices(search_spans(), reltime as int),
{
    let mut res: Vec<TimeChoice> = Vec::new();
    let c = make_choice(0, "all", reltime as i64);
    res.push(c);
    assert(choice_views(res@) =~= seq![c@]);
    push_spans(&mut res, reltime as i64);
    assert(choice_views(res@) =~= choices(search_spans(), reltime as int));
    res
}

// ---------------------------------------------------------------------------
// List pages
// ---------------------------------------------------------------------------

/// The columns that a list page shows at first.
pub open spec fn shown_at_first(name: Seq<char>) -> bool {
    name == "source_timestamp"@ || name == "comm"@ || name == "hostname"@ || name == "priority"@
}

/// Whether a list page shows a column at first.
pub fn is_default_field(name: &str) -> (res: bool)
    ensures
        res == shown_at_first(name@),
{
    str_eq(name, "source_timestamp") || str_eq(name, "comm") || str_eq(name, "hostname") || str_eq(
        name,
        "priority",
    )
}

/// The class of the cells of a column.
pub open spec fn column_class(name: Seq<char>) -> Seq<char> {
    name + "_col"@
}

/// The identifier of the box that shows or hides a column.
pub open spec fn check_id(name: Seq<char>) -> Seq<char> {
    name + "_check"@
}

/// The class of the cells of a column.
pub fn make_column_class(name: &str) -> (res: String)
    ensures
        res@ == column_class(name@),
{
    let mut res = name.to_owned();
    res.append("_col");
    res
}

/// The identifier of the box that shows or hides a column.
pub fn make_check_id(name: &str) -> (res: String)
    ensures
        res@ == check_id(name@),
{
    let mut res = name.to_owned();
    res.append("_check");
    res
}

/// A box that shows or hides a column.
#[derive(Debug, PartialEq, Eq)]
pub struct Toggle {
    pub field: String,
    pub target: String,
    pub id: String,
    pub checked: bool,
}

/// What a [`Toggle`] stands for.
pub struct ToggleView {
    pub field: Seq<char>,
    pub target: Seq<char>,
    pub id: Seq<char>,
    pub checked: bool,
}

impl View for Toggle {
    type V = ToggleView;

    open spec fn view(&self) -> ToggleView {
        ToggleView {
            field: self.field@,
            target: self.target@,
            id: self.id@,
            checked: self.checked,
        }
    }
}

/// The box of a column.
pub open spec fn toggle_of(name: Seq<char>) -> ToggleView {
    ToggleView {
        field: name,
        target: column_class(name),
        id: check_id(name),
        checked: shown_at_first(name),
    }
}

/// The boxes of the columns; that of the time of the messages is left out where the
/// page always shows it.
pub open spec fn toggles(names: Seq<Seq<char>>, time_fixed: bool) -> Seq<ToggleView>
    decreases names.len(),
{
    if names.len() == 0 {
        Seq::empty()
    } else {
        let front = toggles(names.drop_last(), time_fixed);
        if time_fixed && names.last() == "source_timestamp"@ {
            front
        } else {
            front.push(toggle_of(names.last()))
        }
    }
}

/// The boxes of a list, seen through their views.
pub open spec fn toggle_views(v: Seq<Toggle>) -> Seq<ToggleView> {
    Seq::new(v.len(), |i: int| v[i]@)
}

/// The boxes of the columns of a list page.
pub fn make_toggles(fields: &Vec<String>, time_fixed: bool) -> (res: Vec<Toggle>)
    ensures
        toggle_views(res@) == toggles(texts(fields@), time_fixed),
{
    let ghost names = texts(fields@);
    let mut res: Vec<Toggle> = Vec::new();
    let mut i: usize = 0;
    assert(names.take(0) =~= Seq::<Seq<char>>::empty());
    assert(toggle_views(res@) =~= Seq::<ToggleView>::empty());
    while i < fields.len()
        invariant
            i <= fields@.len(),
            names == texts(fields@),
            toggle_views(res@) == toggles(names.take(i as int), time_fixed),
        decreases fields@.len() - i,
    {
        let field = fields[i].as_str();
        proof {
            assert(names.take(i + 1).drop_last() =~= names.take(i as int));
            assert(names.take(i + 1).last() == field@);
        }
        if !(time_fixed && str_eq(field, "source_timestamp")) {
            let ghost done = toggle_views(res@);
            let t = Toggle {
                field: field.to_owned(),
                target: make_column_class(field),
                id: make_check_id(field),
                checked: is_default_field(field),
            };
            res.push(t);
            assert(toggle_views(res@) =~= done.push(t@));
        }
        i = i + 1;
    }
    assert(names.take(i as int) =~= names);
    res
}

/// The style of the cells of a column.
pub open spec fn cell_style(name: Seq<char>) -> Seq<char> {
    if shown_at_first(name) {
        ""@
    } else {
        "display: none"@
    }
}

/// The style of the cells of a column.
pub fn style_of(name: &str) -> (res: &'static str)
    ensures
        res@ == cell_style(name@),
{
    if is_default_field(name) {
        ""
    } else {
        "display: none"
    }
}

/// The rows of a document on a list page: its fields, its message and, where it has
/// one, its full message.
#[derive(Debug)]
pub struct DocRows {
    pub cells: Vec<Result<String, String>>,
    pub message: Result<String, String>,
    pub full_message: Option<Result<String, String>>,
}

/// The value of a document under a name.
pub open spec fn value_under(doc: Map<Seq<char>, JsonView>, name: Seq<char>) -> Option<JsonView> {
    if doc.contains_key(name) {
        Some(doc[name])
    } else {
        None
    }
}

/// The text of a document under a name.
pub open spec fn cell_text(doc: Map<Seq<char>, JsonView>, name: Seq<char>) -> Result<
    Seq<char>,
    Seq<char>,
> {
    formatted_field(value_under(doc, name), name)
}

/// Whether these are the rows of a document.
pub open spec fn are_rows(
    rows: DocRows,
    doc: Map<Seq<char>, JsonView>,
    names: Seq<Seq<char>>,
) -> bool {
    &&& rows.cells@.len() == names.len()
    &&& forall|i: int|
        0 <= i < names.len() ==> text_result(#[trigger] rows.cells@[i]) == cell_text(doc, names[i])
    &&& text_result(rows.message) == cell_text(doc, "message"@)
    &&& match rows.full_message {
        Some(t) => doc.contains_key("full_message"@) && text_result(t) == cell_text(
            doc,
            "full_message"@,
        ),
        None => !doc.contains_key("full_message"@),
    }
}

/// The rows of a document on a list page.
pub fn doc_rows(doc: &FieldMap<JsonValue>, fields: &Vec<String>) -> (res: DocRows)
    ensures
        are_rows(res, doc@, texts(fields@)),
{
    let mut cells: Vec<Result<String, String>> = Vec::new();
    let mut i: usize = 0;
    while i < fields.len()
        invariant
            i <= fields@.len(),
            cells@.len() == i,
            forall|k: int|
                0 <= k < i ==> text_result(#[trigger] cells@[k]) == cell_text(
                    doc@,
                    texts(fields@)[k],
                ),
        decreases fields@.len() - i,
    {
        let field = fields[i].as_str();
        assert(texts(fields@)[i as int] == field@);
        cells.push(format_value(doc.get(field), field));
        i = i + 1;
    }
    let message = format_value(doc.get("message"), "message");
    let full_message: Option<Result<String, String>> = match doc.get("full_message") {
        Some(v) => Some(format_value(Some(v), "full_message")),
        None => None,
    };
    DocRows { cells, message, full_message }
}

/// The text of a document under a name, and none where it has no such field.
pub open spec fn text_under(doc: Map<Seq<char>, Seq<char>>, name: Seq<char>) -> Seq<char> {
    if doc.contains_key(name) {
        doc[name]
    } else {
        Seq::empty()
    }
}

/// Whether these are the rows of a document whose fields are texts.
pub open spec fn are_text_rows(
    rows: DocRows,
    doc: Map<Seq<char>, Seq<char>>,
    names: Seq<Seq<char>>,
) -> bool {
    &&& rows.cells@.len() == names.len()
    &&& forall|i: int|
        0 <= i < names.len() ==> text_result(#[trigger] rows.cells@[i]) == Ok::<
            Seq<char>,
            Seq<char>,
        >(text_under(doc, names[i]))
    &&& text_result(rows.message) == Ok::<Seq<char>, Seq<char>>(text_under(doc, "message"@))
    &&& match rows.full_message {
        Some(t) => doc.contains_key("full_message"@) && text_result(t) == Ok::<
            Seq<char>,
            Seq<char>,
        >(doc["full_message"@]),
        None => !doc.contains_key("full_message"@),
    }
}

/// The text of a document under a name.
fn get_or_empty(doc: &FieldMap<String>, name: &str) -> (res: String)
    ensures
        res@ == text_under(doc@, name@),
{
    match doc.get(name) {
        Some(t) => t.clone(),
        None => {
            let res = String::new();
            assert(res@ =~= Seq::<char>::empty());
            res
        },
    }
}

/// The rows on a list page of a document whose fields are texts.
pub fn text_rows(doc: &FieldMap<String>, fields: &Vec<String>) -> (res: DocRows)
    ensures
        are_text_rows(res, doc@, texts(fields@)),
{
    let mut cells: Vec<Result<String, String>> = Vec::new();
    let mut i: usize = 0;
    while i < fields.len()
        invariant
            i <= fields@.len(),
            cells@.len() == i,
            forall|k: int|
                0 <= k < i ==> text_result(#[trigger] cells@[k]) == Ok::<Seq<char>, Seq<char>>(
                    text_under(doc@, texts(fields@)[k]),
                ),
        decreases fields@.len() - i,
    {
        let field = fields[i].as_str();
        assert(texts(fields@)[i as int] == field@);
        cells.push(Ok(get_or_empty(doc, field)));
        i = i + 1;
    }
    let full_message: Option<Result<String, String>> = match doc.get("full_message") {
        Some(t) => Some(Ok(t.clone())),
        None => None,
    };
    DocRows { cells, message: Ok(get_or_empty(doc, "message")), full_message }
}

// ---------------------------------------------------------------------------
// The search page
// ---------------------------------------------------------------------------

/// Whether a column is one of the messages, which have rows of their own.
pub open spec fn is_message(name: Seq<char>) -> bool {
    name == "message"@ || name == "full_message"@
}

/// Whether a column is one of the messages.
fn is_message_field(name: &str) -> (res: bool)
    ensures
        res == is_message(name@),
{
    str_eq(name, "message") || str_eq(name, "full_message")
}

/// The columns that are not messages.
pub open spec fn plain_columns(names: Seq<Seq<char>>) -> Seq<Seq<char>>
    decreases names.len(),
{
    if names.len() == 0 {
        Seq::empty()
    } else {
        let front = plain_columns(names.drop_last());
        if is_message(names.last()) {
            front
        } else {
            front.push(names.last())
        }
    }
}

/// The columns of the search page, each with whether it is shown.
pub open spec fn page_columns(names: Seq<Seq<char>>, enabled: Seq<Seq<char>>) -> Seq<
    (Seq<char>, bool),
> {
    let plain = plain_columns(names);
    Seq::new(plain.len(), |i: int| (plain[i], enabled.contains(plain[i])))
}

/// The columns of a list, seen through their views.
pub open spec fn shown_views(v: Seq<(String, bool)>) -> Seq<(Seq<char>, bool)> {
    Seq::new(v.len(), |i: int| (v[i].0@, v[i].1))
}

/// The columns of the search page, each with whether it is shown.
pub fn make_page_columns(fields: &Vec<String>, state: &AppState) -> (res: Vec<(String, bool)>)
    ensures
        shown_views(res@) == page_columns(texts(fields@), state@),
{
    let ghost names = texts(fields@);
    let ghost enabled = state@;
    let mut res: Vec<(String, bool)> = Vec::new();
    let mut i: usize = 0;
    assert(names.take(0) =~= Seq::<Seq<char>>::empty());
    assert(shown_views(res@) =~= page_columns(names.take(0), enabled));
    while i < fields.len()
        invariant
            i <= fields@.len(),
            names == texts(fields@),
            enabled == state@,
            shown_views(res@) == page_columns(names.take(i as int), enabled),
        decreases fields@.len() - i,
    {
        let field = fields[i].as_str();
        proof {
            assert(names.take(i + 1).drop_last() =~= names.take(i as int));
            assert(names.take(i + 1).last() == field@);
        }
        if !is_message_field(field) {
            let ghost done = shown_views(res@);
            let on = state.is_enabled(field);
            res.push((field.to_owned(), on));
            assert(shown_views(res@) =~= done.push((field@, on)));
            assert(page_columns(names.take(i + 1), enabled) =~= page_columns(
                names.take(i as int),
                enabled,
            ).push((field@, on)));
        } else {
            assert(page_columns(names.take(i + 1), enabled) =~= page_columns(
                names.take(i as int),
                enabled,
            ));
        }
        i = i + 1;
    }
    assert(names.take(i as int) =~= names);
    res
}

/// The text in a row at the place of a column.
pub open spec fn row_text(row: Seq<Option<Seq<char>>>, i: int) -> Option<Seq<char>> {
    if 0 <= i < row.len() {
        row[i]
    } else {
        None
    }
}

/// The cells of a row on the search page: one for each column that is not a message,
/// with its text where the column is shown.
pub open spec fn page_cells(
    names: Seq<Seq<char>>,
    row: Seq<Option<Seq<char>>>,
    enabled: Seq<Seq<char>>,
) -> Seq<Option<Option<Seq<char>>>>
    decreases names.len(),
{
    if names.len() == 0 {
        Seq::empty()
    } else {
        let front = page_cells(names.drop_last(), row, enabled);
        let i = names.len() - 1;
        if is_message(names[i]) {
            front
        } else if enabled.contains(names[i]) {
            front.push(Some(row_text(row, i)))
        } else {
            front.push(None)
        }
    }
}

/// The cells of a row, seen through their views.
pub open spec fn cell_views(v: Seq<Option<Option<String>>>) -> Seq<Option<Option<Seq<char>>>> {
    Seq::new(
        v.len(),
        |i: int|
            match v[i] {
                Some(Some(t)) => Some(Some(t@)),
                Some(None) => Some(None),
                None => None,
            },
    )
}

/// The text in a row at the place of a column.
fn get_text(row: &Vec<Option<String>>, i: usize) -> (res: Option<String>)
    ensures
        (match res {
            Some(t) => Some(t@),
            None => None,
        }) == row_text(row_views(row@), i as int),
{
    if i < row.len() {
        match &row[i] {
            Some(t) => Some(t.clone()),
            None => None,
        }
    } else {
        None
    }
}

/// The cells of a row on the search page: `None` where the column is hidden.
pub fn make_page_cells(fields: &Vec<String>, row: &Vec<Option<String>>, state: &AppState) -> (res:
    Vec<Option<Option<String>>>)
    ensures
        cell_views(res@) == page_cells(
            texts(fields@),
            row_views(row@),
            state@,
        ),
{
    let ghost names = texts(fields@);
    let ghost enabled = state@;
    let ghost texts_of_row = row_views(row@);
    let mut res: Vec<Option<Option<String>>> = Vec::new();
    let mut i: usize = 0;
    assert(names.take(0) =~= Seq::<Seq<char>>::empty());
    assert(cell_views(res@) =~= Seq::<Option<Option<Seq<char>>>>::empty());
    while i < fields.len()
        invariant
            i <= fields@.len(),
            names == texts(fields@),
            enabled == state@,
            texts_of_row == row_views(row@),
            cell_views(res@) == page_cells(names.take(i as int), texts_of_row, enabled),
        decreases fields@.len() - i,
    {
        let field = fields[i].as_str();
        proof {
            assert(names.take(i + 1).drop_last() =~= names.take(i as int));
            assert(names.take(i + 1)[i as int] == field@);
        }
        let ghost done = cell_views(res@);
        if !is_message_field(field) {
            if state.is_enabled(field) {
                let text = get_text(row, i);
                let ghost view = row_text(texts_of_row, i as int);
                res.push(Some(text));
                assert(cell_views(res@) =~= done.push(Some(view)));
            } else {
                res.push(None);
                assert(cell_views(res@) =~= done.push(None));
            }
        }
        i = i + 1;
    }
    assert(names.take(i as int) =~= names);
    res
}

/// The messages of a row on the search page.
pub open spec fn page_messages(names: Seq<Seq<char>>, row: Seq<Option<Seq<char>>>) -> Seq<Seq<char>>
    decreases names.len(),
{
    if names.len() == 0 {
        Seq::empty()
    } else {
        let front = page_messages(names.drop_last(), row);
        let i = names.len() - 1;
        match row_text(row, i) {
            Some(t) => if names[i] == "message"@ {
                front.push(t)
            } else {
                front
            },
            None => front,
        }
    }
}

/// The messages of a row on the search page.
pub fn make_page_messages(fields: &Vec<String>, row: &Vec<Option<String>>) -> (res: Vec<String>)
    ensures
        texts(res@) == page_messages(texts(fields@), row_views(row@)),
{
    let ghost names = texts(fields@);
    let ghost texts_of_row = row_views(row@);
    let mut res: Vec<String> = Vec::new();
    let mut i: usize = 0;
    assert(names.take(0) =~= Seq::<Seq<char>>::empty());
    assert(texts(res@) =~= Seq::<Seq<char>>::empty());
    while i < fields.len()
        invariant
            i <= fields@.len(),
            names == texts(fields@),
            texts_of_row == row_views(row@),
            texts(res@) == page_messages(names.take(i as int), texts_of_row),
        decreases fields@.len() - i,
    {
        let field = fields[i].as_str();
        proof {
            assert(names.take(i + 1).drop_last() =~= names.take(i as int));
            assert(names.take(i + 1)[i as int] == field@);
        }
        if str_eq(field, "message") {
            match get_text(row, i) {
                Some(t) => {
                    proof {
                        crate::text::lemma_texts_push(res@, t);
                    }
                    res.push(t);
                },
                None => {},
            }
        }
        i = i + 1;
    }
    assert(names.take(i as int) =~= names);
    res
}

} // verus!
