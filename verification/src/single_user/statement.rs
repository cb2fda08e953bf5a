//! Reading an uploaded statement in the single-user edition: its header row and its rows, as
//! a `csv` reader with the default settings (comma-separated, a header row, every row as
//! wide as the header row) gives them.

use crate::model::csv_file::{row_view, rows_view};
use crate::text::{owned, text_eq, texts};
use vstd::prelude::*;

verus! {

/// The header row and the rows that a `csv::ReaderBuilder` with `has_headers(true)` and
/// otherwise default settings reads from `bytes`, each row or the reader's error text.
pub uninterp spec fn csv_strict_table(bytes: Seq<u8>) -> (
    Result<Seq<Seq<char>>, Seq<char>>,
    Seq<Result<Seq<Seq<char>>, Seq<char>>>,
);

/// The header row and the rows of `bytes`: a `csv::ReaderBuilder` with `has_headers(true)`
/// read through `headers()` and then `records()`; the contract only names what it yields.
#[verifier::external_body]
pub(crate) fn read_strict_table(bytes: &[u8]) -> (t: (Result<Vec<String>, String>, Vec<Result<Vec<String>, String>>))
    ensures
        (row_view(t.0), rows_view(t.1@)) == csv_strict_table(bytes@),
{
    let mut reader = ::csv::ReaderBuilder::new().has_headers(true).from_reader(bytes);
    let headers = reader.headers().map(|h| h.iter().map(str::to_owned).collect()).map_err(|err| err.to_string());
    let rows = reader.records().map(
        |row| row.map(|fields| fields.iter().map(str::to_owned).collect()).map_err(|err| err.to_string()),
    ).collect();
    (headers, rows)
}

/// The header row and the rows of the statement `bytes` for an import, or the error that
/// the header row gives.
pub fn open_statement(bytes: &[u8]) -> (r: Result<(Vec<String>, Vec<Result<Vec<String>, String>>), String>)
    ensures
        match csv_strict_table(bytes@).0 {
            Err(e) => r matches Err(m) && m@ == e,
            Ok(h) => r matches Ok((hs, rows)) && texts(hs@) == h && rows_view(rows@) == csv_strict_table(bytes@).1,
        },
{
    let (headers, rows) = read_strict_table(bytes);
    match headers {
        Ok(h) => Ok((h, rows)),
        Err(e) => Err(e),
    }
}

/// The import goes on only for the upload in progress: the submitted file id must be the
/// session's.
pub fn check_file_id(active: &str, submitted: &str) -> (r: Result<(), String>)
    ensures
        r is Ok <==> active@ == submitted@,
        r matches Err(e) ==> e@ == "File ID mismatch"@,
{
    if text_eq(active, submitted) {
        Ok(())
    } else {
        Err(owned("File ID mismatch"))
    }
}

} // verus!
