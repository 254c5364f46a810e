//! Taking messages in: which become documents that are kept.
use vstd::prelude::*;

use crate::gelf::{GELFMessage, GelfView};
use crate::json::FieldView;
use crate::schema::convert::ConvertError;
use crate::schema::document::{document_columns, valid_document, Document};
use crate::schema::extract::{gelf_values, syslog_values};
use crate::syslog::{SyslogMessage, SyslogView};
use crate::text::opt_text;
use crate::time::{local_year, local_year_reads, year_str, year_view};

verus! {

/// After how many seconds a batch is sent that is not full.
pub const COMMIT_EVERY_SECS: u64 = 10;

/// How many messages make a batch.
pub const BATCH_SIZE: usize = 10;

/// A message that came in.
#[derive(Debug)]
pub enum Incoming {
    Gelf(GELFMessage),
    Syslog(SyslogMessage),
}

/// What an [`Incoming`] says.
pub enum IncomingView {
    Gelf(GelfView),
    Syslog(SyslogView),
}

impl View for Incoming {
    type V = IncomingView;

    open spec fn view(&self) -> IncomingView {
        match *self {
            Incoming::Gelf(m) => IncomingView::Gelf(m@),
            Incoming::Syslog(m) => IncomingView::Syslog(m@),
        }
    }
}

/// What becomes of a message.
#[derive(Debug)]
pub enum Verdict {
    /// It is kept as this document.
    Keep(Document),
    /// Its document says nothing, or not when, and is dropped.
    Invalid(Document),
    /// It cannot be made a document.
    Failed(ConvertError),
}

/// The values that a message gives a document.
pub open spec fn values_of(m: IncomingView, year: Option<Seq<char>>) -> Result<
    Seq<Option<FieldView>>,
    ConvertError,
> {
    match m {
        IncomingView::Gelf(m) => gelf_values(document_columns(), m, year),
        IncomingView::Syslog(m) => syslog_values(document_columns(), m),
    }
}

/// Whether this is what becomes of a message.
pub open spec fn judged(v: Verdict, m: IncomingView, year: Option<Seq<char>>) -> bool {
    match (v, values_of(m, year)) {
        (Verdict::Keep(d), Ok(values)) => d@ == values && valid_document(values),
        (Verdict::Invalid(d), Ok(values)) => d@ == values && !valid_document(values),
        (Verdict::Failed(e), Err(f)) => e == f,
        _ => false,
    }
}

/// Decides what becomes of a message, with the year to take for times that have none.
pub fn judge_in(record: &Incoming, year: Option<&str>) -> (res: Verdict)
    ensures
        judged(res, record@, year_view(year)),
{
    let decoded = match record {
        Incoming::Gelf(m) => Document::from_gelf_in(m, year),
        Incoming::Syslog(m) => Document::from_syslog(m),
    };
    match decoded {
        Ok(d) => if d.is_valid() {
            Verdict::Keep(d)
        } else {
            Verdict::Invalid(d)
        },
        Err(e) => Verdict::Failed(e),
    }
}

/// Decides what becomes of a message; times that have no year are taken to be of the
/// current one.
pub fn judge(record: &Incoming) -> (res: Verdict)
    ensures
        exists|year: Option<Seq<char>>| #[trigger] local_year_reads(year) && judged(res, record@, year),
{
    let year = local_year();
    assert(local_year_reads(opt_text(year)));
    judge_in(record, year_str(&year))
}

} // verus!
