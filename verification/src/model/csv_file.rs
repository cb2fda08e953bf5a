//! Reading a CSV bank statement: decoding its bytes, guessing its delimiter and cutting the
//! transaction table out of preambles and footers.

use crate::model::dates::result_text;
use crate::text::{chars_of, text_of, texts};
use vstd::prelude::*;
use vstd::utf8::{decode_utf8, valid_utf8};

verus! {

/// The texts that one row read by the CSV reader holds: its fields, or the reader's error.
pub open spec fn row_view(r: Result<Vec<String>, String>) -> Result<Seq<Seq<char>>, Seq<char>> {
    match r {
        Ok(fields) => Ok(texts(fields@)),
        Err(e) => Err(e@),
    }
}

/// The texts of the rows `v`.
pub open spec fn rows_view(v: Seq<Result<Vec<String>, String>>) -> Seq<
    Result<Seq<Seq<char>>, Seq<char>>,
> {
    v.map_values(|r: Result<Vec<String>, String>| row_view(r))
}

/// The texts of the rows of fields `v`.
pub open spec fn rows_texts(v: Seq<Vec<String>>) -> Seq<Seq<Seq<char>>> {
    v.map_values(|x: Vec<String>| texts(x@))
}

/// What the `csv` crate reads from `text` with `delimiter`, no header row and rows of any
/// width: each row's fields, or the error it reports for that row.
pub uninterp spec fn csv_rows(text: Seq<char>, delimiter: u8) -> Seq<
    Result<Seq<Seq<char>>, Seq<char>>,
>;

/// What the `csv` crate writes for `rows` with `delimiter`, or the error it reports.
pub uninterp spec fn csv_written(rows: Seq<Seq<Seq<char>>>, delimiter: u8) -> Result<
    Seq<char>,
    Seq<char>,
>;

/// What the `csv` crate reads from `text` with `delimiter`, a header row and rows of any
/// width: the header row (or the error reading it) and then each following row.
pub uninterp spec fn csv_table(text: Seq<char>, delimiter: u8) -> (
    Result<Seq<Seq<char>>, Seq<char>>,
    Seq<Result<Seq<Seq<char>>, Seq<char>>>,
);

/// What `encoding_rs::SHIFT_JIS.decode` gives for `bytes`, or `None` when it reports
/// malformed sequences.
pub uninterp spec fn shift_jis_decoded(bytes: Seq<u8>) -> Option<Seq<char>>;

/// Every row of `text`: a `csv::ReaderBuilder` with `delimiter`, `has_headers(false)` and
/// `flexible(true)`, read to the end; the contract only names what it yields.
#[verifier::external_body]
fn read_csv_rows(text: &str, delimiter: u8) -> (rows: Vec<Result<Vec<String>, String>>)
    ensures
        rows_view(rows@) == csv_rows(text@, delimiter),
{
    ::csv::ReaderBuilder::new().delimiter(delimiter).has_headers(false).flexible(true).from_reader(
        text.as_bytes(),
    ).records().map(
        |row| row.map(|fields| fields.iter().map(str::to_owned).collect()).map_err(|err| err.to_string()),
    ).collect()
}

/// The header row and the rows of `text`: a `csv::ReaderBuilder` with `delimiter`,
/// `has_headers(true)` and `flexible(true)`; the contract only names what it yields.
#[verifier::external_body]
fn read_csv_table(text: &str, delimiter: u8) -> (t: (
    Result<Vec<String>, String>,
    Vec<Result<Vec<String>, String>>,
))
    ensures
        (row_view(t.0), rows_view(t.1@)) == csv_table(text@, delimiter),
{
    let mut reader = ::csv::ReaderBuilder::new().delimiter(delimiter).has_headers(true).flexible(
        true,
    ).from_reader(text.as_bytes());
    let headers = reader.headers().map(|h| h.iter().map(str::to_owned).collect()).map_err(|err| err.to_string());
    let rows = reader.records().map(
        |row| row.map(|fields| fields.iter().map(str::to_owned).collect()).map_err(|err| err.to_string()),
    ).collect();
    (headers, rows)
}

/// `rows` written by a `csv::WriterBuilder` with `delimiter` into a buffer that is then read
/// as UTF-8; the contract only names the outcome.
#[verifier::external_body]
fn write_csv_rows(rows: &Vec<Vec<String>>, delimiter: u8) -> (r: Result<String, String>)
    ensures
        result_text(r) == csv_written(rows_texts(rows@), delimiter),
{
    let mut writer = ::csv::WriterBuilder::new().delimiter(delimiter).from_writer(Vec::new());
    for row in rows {
        writer.write_record(row).map_err(|err| err.to_string())?;
    }
    let bytes = writer.into_inner().map_err(|err| err.to_string())?;
    String::from_utf8(bytes).map_err(|err| err.to_string())
}

/// `bytes` read as UTF-8 (`std::str::from_utf8`): `None` exactly when they are not valid
/// UTF-8, and otherwise the characters they encode.
#[verifier::external_body]
fn utf8_text(bytes: &[u8]) -> (r: Option<String>)
    ensures
        r is Some <==> valid_utf8(bytes@),
        r matches Some(t) ==> t@ == decode_utf8(bytes@),
{
    std::str::from_utf8(bytes).ok().map(str::to_owned)
}

/// `bytes` decoded by `encoding_rs::SHIFT_JIS.decode`, or `None` when the decoder reports
/// malformed sequences; the contract only names the outcome.
#[verifier::external_body]
fn shift_jis_text(bytes: &[u8]) -> (r: Option<String>)
    ensures
        r.deep_view() == shift_jis_decoded(bytes@),
{
    let (text, _, had_errors) = encoding_rs::SHIFT_JIS.decode(bytes);
    if had_errors {
        None
    } else {
        Some(text.into_owned())
    }
}

/// `s` with every `"\r\n"` replaced by `"\n"`, scanning from the left.
pub open spec fn crlf_replaced(s: Seq<char>) -> Seq<char>
    decreases s.len(),
{
    if s.len() == 0 {
        s
    } else if s.len() >= 2 && s[0] == '\r' && s[1] == '\n' {
        seq!['\n'] + crlf_replaced(s.subrange(2, s.len() as int))
    } else {
        seq![s[0]] + crlf_replaced(s.drop_first())
    }
}

/// `s` with every `'\r'` replaced by `'\n'`.
pub open spec fn cr_replaced(s: Seq<char>) -> Seq<char> {
    s.map_values(|c: char| if c == '\r' { '\n' } else { c })
}

/// `s` with Windows and old Mac line ends turned into `'\n'`.
pub open spec fn unified_newlines(s: Seq<char>) -> Seq<char> {
    cr_replaced(crlf_replaced(s))
}

/// The text of a CSV file's bytes: UTF-8 when they are valid UTF-8, otherwise Shift_JIS,
/// with line ends unified.
pub open spec fn csv_source_text(bytes: Seq<u8>) -> Result<Seq<char>, Seq<char>> {
    let decoded = if valid_utf8(bytes) {
        Some(decode_utf8(bytes))
    } else {
        shift_jis_decoded(bytes)
    };
    match decoded {
        Some(t) => Ok(unified_newlines(t)),
        None => Err("CSV must be valid UTF-8 or Shift_JIS"@),
    }
}

fn unify_newlines(s: &[char]) -> (r: Vec<char>)
    ensures
        r@ == unified_newlines(s@),
{
    let mut r: Vec<char> = Vec::new();
    let mut i: usize = 0;
    assert(s@.subrange(0, s@.len() as int) =~= s@);
    assert(r@ + unified_newlines(s@) =~= unified_newlines(s@));
    while i < s.len()
        invariant
            i <= s@.len(),
            r@ + unified_newlines(s@.subrange(i as int, s@.len() as int)) == unified_newlines(s@),
        decreases s@.len() - i,
    {
        let ghost rest = s@.subrange(i as int, s@.len() as int);
        if s[i] == '\r' && i + 1 < s.len() && s[i + 1] == '\n' {
            let ghost tail = s@.subrange(i + 2, s@.len() as int);
            assert(rest.subrange(2, rest.len() as int) =~= tail);
            assert(crlf_replaced(rest) == seq!['\n'] + crlf_replaced(tail));
            assert(cr_replaced(seq!['\n'] + crlf_replaced(tail)) =~= seq!['\n'] + cr_replaced(
                crlf_replaced(tail),
            ));
            r.push('\n');
            i = i + 2;
        } else {
            let ghost tail = s@.subrange(i + 1, s@.len() as int);
            assert(rest.drop_first() =~= tail);
            assert(crlf_replaced(rest) == seq![s@[i as int]] + crlf_replaced(tail));
            assert(cr_replaced(seq![s@[i as int]] + crlf_replaced(tail)) =~= seq![
                if s@[i as int] == '\r' {
                    '\n'
                } else {
                    s@[i as int]
                },
            ] + cr_replaced(crlf_replaced(tail)));
            if s[i] == '\r' {
                r.push('\n');
            } else {
                r.push(s[i]);
            }
            i = i + 1;
        }
    }
    assert(s@.subrange(s@.len() as int, s@.len() as int) =~= Seq::<char>::empty());
    assert(r@ + unified_newlines(Seq::<char>::empty()) =~= r@);
    r
}

/// The text of a CSV file's bytes (see `csv_source_text`).
pub fn csv_text(bytes: &[u8]) -> (r: Result<String, String>)
    ensures
        result_text(r) == csv_source_text(bytes@),
{
    let text = match utf8_text(bytes) {
        Some(text) => text,
        None => match shift_jis_text(bytes) {
            Some(text) => text,
            None => {
                return Err(text_of(chars_of("CSV must be valid UTF-8 or Shift_JIS").as_slice()));
            },
        },
    };
    let v = chars_of(text.as_str());
    let u = unify_newlines(v.as_slice());
    Ok(text_of(u.as_slice()))
}


/// The width of the widest readable row of `rows` (0 when there is none).
pub open spec fn widest_readable(rows: Seq<Result<Seq<Seq<char>>, Seq<char>>>) -> nat
    decreases rows.len(),
{
    if rows.len() == 0 {
        0
    } else {
        let w = widest_readable(rows.drop_last());
        match rows.last() {
            Ok(fields) => if fields.len() > w {
                fields.len()
            } else {
                w
            },
            Err(_) => w,
        }
    }
}

/// `best` (a delimiter and the width it gives) replaced by `delimiter` when that one reads
/// `text` into strictly wider rows.
pub open spec fn delimiter_choice(best: (u8, nat), text: Seq<char>, delimiter: u8) -> (u8, nat) {
    let w = widest_readable(csv_rows(text, delimiter));
    if w > best.1 {
        (delimiter, w)
    } else {
        best
    }
}

/// The delimiter of `text`: of comma, semicolon, tab and bar, in that order, the first that
/// gives the widest rows; comma when none gives any.
pub open spec fn detected_delimiter(text: Seq<char>) -> u8 {
    let b0 = (44u8, 0nat);
    let b1 = delimiter_choice(b0, text, 44u8);
    let b2 = delimiter_choice(b1, text, 59u8);
    let b3 = delimiter_choice(b2, text, 9u8);
    delimiter_choice(b3, text, 124u8).0
}

fn widest_row(rows: &Vec<Result<Vec<String>, String>>) -> (w: usize)
    ensures
        w == widest_readable(rows_view(rows@)),
{
    let mut w: usize = 0;
    let mut i: usize = 0;
    while i < rows.len()
        invariant
            i <= rows@.len(),
            w == widest_readable(rows_view(rows@.subrange(0, i as int))),
        decreases rows@.len() - i,
    {
        let ghost pre = rows_view(rows@.subrange(0, i as int));
        assert(rows_view(rows@.subrange(0, i + 1)).drop_last() =~= pre);
        match &rows[i] {
            Ok(fields) => {
                if fields.len() > w {
                    w = fields.len();
                }
            },
            Err(_) => {},
        }
        i = i + 1;
    }
    assert(rows@.subrange(0, rows@.len() as int) =~= rows@);
    w
}

fn delimiter_step(text: &str, delimiter: u8, best: u8, best_width: usize) -> (r: (u8, usize))
    ensures
        (r.0, r.1 as nat) == delimiter_choice((best, best_width as nat), text@, delimiter),
{
    let rows = read_csv_rows(text, delimiter);
    let columns = widest_row(&rows);
    if columns > best_width {
        (delimiter, columns)
    } else {
        (best, best_width)
    }
}

/// Guesses the delimiter of a CSV file from its bytes (see `detected_delimiter`).
pub fn detect_delimiter(bytes: &[u8]) -> (r: Result<u8, String>)
    ensures
        match csv_source_text(bytes@) {
            Ok(text) => r == Ok::<u8, String>(detected_delimiter(text)),
            Err(e) => r matches Err(m) && m@ == e,
        },
{
    let text = csv_text(bytes)?;
    let (best, width) = (44u8, 0usize);
    let (best, width) = delimiter_step(text.as_str(), 44u8, best, width);
    let (best, width) = delimiter_step(text.as_str(), 59u8, best, width);
    let (best, width) = delimiter_step(text.as_str(), 9u8, best, width);
    let (best, _width) = delimiter_step(text.as_str(), 124u8, best, width);
    Ok(best)
}

/// The error of the first unreadable row of `rows`, if any.
pub open spec fn first_error(rows: Seq<Result<Seq<Seq<char>>, Seq<char>>>) -> Option<Seq<char>>
    decreases rows.len(),
{
    if rows.len() == 0 {
        None
    } else {
        match first_error(rows.drop_last()) {
            Some(e) => Some(e),
            None => match rows.last() {
                Err(e) => Some(e),
                Ok(_) => None,
            },
        }
    }
}

/// The fields of each row of `rows` (an unreadable row counts as no fields).
pub open spec fn readable(rows: Seq<Result<Seq<Seq<char>>, Seq<char>>>) -> Seq<Seq<Seq<char>>> {
    rows.map_values(
        |r: Result<Seq<Seq<char>>, Seq<char>>|
            match r {
                Ok(f) => f,
                Err(_) => Seq::empty(),
            },
    )
}

/// The greatest width among `rows`.
pub open spec fn max_width(rows: Seq<Seq<Seq<char>>>) -> nat
    decreases rows.len(),
{
    if rows.len() == 0 {
        0
    } else {
        let w = max_width(rows.drop_last());
        if rows.last().len() > w {
            rows.last().len()
        } else {
            w
        }
    }
}

/// The index of the first row of `rows` that has the greatest width (0 when there is none).
pub open spec fn first_widest(rows: Seq<Seq<Seq<char>>>) -> nat
    decreases rows.len(),
{
    if rows.len() == 0 {
        0
    } else if rows.last().len() > max_width(rows.drop_last()) {
        (rows.len() - 1) as nat
    } else {
        first_widest(rows.drop_last())
    }
}

/// The rows of `rows` that have width `w`, in order.
pub open spec fn rows_of_width(rows: Seq<Seq<Seq<char>>>, w: nat) -> Seq<Seq<Seq<char>>>
    decreases rows.len(),
{
    if rows.len() == 0 {
        rows
    } else {
        let init = rows_of_width(rows.drop_last(), w);
        if rows.last().len() == w {
            init.push(rows.last())
        } else {
            init
        }
    }
}

/// The transaction table of a statement's rows: from the first of the widest rows on, the
/// rows that are that wide; shorter preamble, summary and footer rows are left out.
pub open spec fn table_rows(rows: Seq<Seq<Seq<char>>>) -> Seq<Seq<Seq<char>>> {
    rows_of_width(rows.subrange(first_widest(rows) as int, rows.len() as int), max_width(rows))
}

/// The text of the transaction table of `text` read with `delimiter`, written back as CSV;
/// the first unreadable row's error when there is one.
pub open spec fn table_text(text: Seq<char>, delimiter: u8) -> Result<Seq<char>, Seq<char>> {
    let rows = csv_rows(text, delimiter);
    match first_error(rows) {
        Some(e) => Err(e),
        None => csv_written(table_rows(readable(rows)), delimiter),
    }
}

proof fn lemma_first_error_prefix(rows: Seq<Result<Seq<Seq<char>>, Seq<char>>>, k: int)
    requires
        0 <= k <= rows.len(),
        first_error(rows.subrange(0, k)) is Some,
    ensures
        first_error(rows) == first_error(rows.subrange(0, k)),
    decreases rows.len() - k,
{
    if k < rows.len() {
        assert(rows.subrange(0, k + 1).drop_last() =~= rows.subrange(0, k));
        lemma_first_error_prefix(rows, k + 1);
    } else {
        assert(rows.subrange(0, k) =~= rows);
    }
}

/// A copy of the strings of `v`.
fn copy_texts(v: &Vec<String>) -> (r: Vec<String>)
    ensures
        texts(r@) == texts(v@),
{
    let mut r: Vec<String> = Vec::new();
    let mut i: usize = 0;
    while i < v.len()
        invariant
            i <= v@.len(),
            r@.len() == i,
            forall|k: int| 0 <= k < i ==> #[trigger] r@[k]@ == v@[k]@,
        decreases v@.len() - i,
    {
        let ghost before = r@;
        let c = v[i].clone();
        assert(c@ == v@[i as int]@);
        r.push(c);
        assert(r@ == before.push(c));
        i = i + 1;
    }
    assert(texts(r@) =~= texts(v@));
    r
}

proof fn lemma_first_widest_bound(rows: Seq<Seq<Seq<char>>>)
    ensures
        first_widest(rows) <= rows.len(),
    decreases rows.len(),
{
    if rows.len() > 0 {
        lemma_first_widest_bound(rows.drop_last());
    }
}

/// Cuts the transaction table out of `text` (see `table_text`).
pub fn table_csv(text: String, delimiter: u8) -> (r: Result<String, String>)
    ensures
        result_text(r) == table_text(text@, delimiter),
{
    let source = read_csv_rows(text.as_str(), delimiter);
    let ghost all = rows_view(source@);
    let mut records: Vec<Vec<String>> = Vec::new();
    let mut first: usize = 0;
    let mut widest: usize = 0;
    let mut i: usize = 0;
    while i < source.len()
        invariant
            i <= source@.len(),
            all == rows_view(source@),
            all == csv_rows(text@, delimiter),
            first_error(all.subrange(0, i as int)) is None,
            rows_texts(records@) == readable(all.subrange(0, i as int)),
            widest == max_width(rows_texts(records@)),
            first == first_widest(rows_texts(records@)),
        decreases source@.len() - i,
    {
        let ghost pre = all.subrange(0, i as int);
        let ghost before = rows_texts(records@);
        assert(all.subrange(0, i + 1).drop_last() =~= pre);
        match &source[i] {
            Ok(fields) => {
                if fields.len() > widest {
                    widest = fields.len();
                    first = records.len();
                }
                let copy = copy_texts(fields);
                records.push(copy);
                assert(rows_texts(records@) =~= before.push(texts(fields@)));
                assert(rows_texts(records@).drop_last() =~= before);
                assert(readable(all.subrange(0, i + 1)) =~= before.push(texts(fields@)));
            },
            Err(e) => {
                assert(first_error(all.subrange(0, i + 1)) == Some(e@));
                proof {
                    lemma_first_error_prefix(all, i + 1);
                }
                let m = e.clone();
                assert(first_error(csv_rows(text@, delimiter)) == Some(m@));
                return Err(m);
            },
        }
        i = i + 1;
    }
    assert(all.subrange(0, source@.len() as int) =~= all);
    let ghost rs = rows_texts(records@);
    proof {
        lemma_first_widest_bound(rs);
    }
    let mut table: Vec<Vec<String>> = Vec::new();
    let mut j: usize = first;
    while j < records.len()
        invariant
            first <= j <= records@.len(),
            rs == rows_texts(records@),
            first == first_widest(rs),
            widest == max_width(rs),
            rows_texts(table@) == rows_of_width(rs.subrange(first as int, j as int), widest as nat),
        decreases records@.len() - j,
    {
        let ghost before = rows_texts(table@);
        assert(rs.subrange(first as int, j + 1).drop_last() =~= rs.subrange(first as int, j as int));
        if records[j].len() == widest {
            let copy = copy_texts(&records[j]);
            table.push(copy);
            assert(rows_texts(table@) =~= before.push(rs[j as int]));
        }
        j = j + 1;
    }
    write_csv_rows(&table, delimiter)
}

/// The header row and the rows of a statement's transaction table.
pub struct CsvTable {
    pub headers: Result<Vec<String>, String>,
    pub rows: Vec<Result<Vec<String>, String>>,
}

/// The header row and the rows of the transaction table in the CSV file `bytes`, read with
/// `delimiter`, or the error that stops reading it.
pub open spec fn statement_table(bytes: Seq<u8>, delimiter: u8) -> Result<
    (Result<Seq<Seq<char>>, Seq<char>>, Seq<Result<Seq<Seq<char>>, Seq<char>>>),
    Seq<char>,
> {
    match csv_source_text(bytes) {
        Err(e) => Err(e),
        Ok(text) => match table_text(text, delimiter) {
            Err(e) => Err(e),
            Ok(t) => Ok(csv_table(t, delimiter)),
        },
    }
}

/// Reads the transaction table of the CSV file `bytes` with `delimiter`.
pub fn csv_reader(bytes: &[u8], delimiter: u8) -> (r: Result<CsvTable, String>)
    ensures
        match statement_table(bytes@, delimiter) {
            Ok(t) => r matches Ok(table) && (row_view(table.headers), rows_view(table.rows@)) == t,
            Err(e) => r matches Err(m) && m@ == e,
        },
{
    let text = csv_text(bytes)?;
    let table = table_csv(text, delimiter)?;
    let (headers, rows) = read_csv_table(table.as_str(), delimiter);
    Ok(CsvTable { headers, rows })
}

/// The header row of the transaction table of the CSV file `bytes`, read with the delimiter
/// that `detected_delimiter` picks for it.
pub open spec fn statement_headers(bytes: Seq<u8>) -> Result<Seq<Seq<char>>, Seq<char>> {
    match csv_source_text(bytes) {
        Err(e) => Err(e),
        Ok(text) => match statement_table(bytes, detected_delimiter(text)) {
            Err(e) => Err(e),
            Ok(t) => t.0,
        },
    }
}

} // verus!
