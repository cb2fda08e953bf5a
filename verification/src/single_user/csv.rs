//! The statement importer with one amount column and a transaction type chosen by the user.

use crate::single_user::columns::{column_value, lookup_non_empty, lookup_value, non_empty_column_value, normalize_date, slash_date};
use crate::model::csv::opt_text;
use crate::model::csv_file::row_view;
use crate::single_user::import::ImportError;
use crate::single_user::statement::{csv_strict_table, read_strict_table};
use crate::model::dates::result_text;
use crate::text::{
    chars_of, lowercase, owned, push_signed_decimal, push_str, signed_decimal, text_eq,
    text_of, texts, to_lowercase, trim, trimmed,
};
use vstd::prelude::*;

verus! {

/// How the columns of an uploaded statement map onto transactions, with the header row of
/// the statement.
#[derive(Debug)]
pub struct ColumnMapping {
    pub file_id: String,
    pub date_column: String,
    pub amount_column: String,
    pub amount_multiplier: Option<String>,
    pub description_column: String,
    pub transaction_type: String,
    pub account_column: Option<String>,
    pub account_fixed_value: Option<String>,
    pub category_column: Option<String>,
    /// The header row; a column is found by its header, the last one of that name.
    pub headers: Vec<String>,
}

impl ColumnMapping {
    /// The trimmed, non-blank value of `col_name` in `record` (see `lookup_non_empty`).
    pub fn non_empty_value(&self, record: &Vec<String>, col_name: Option<&str>) -> (r: Result<String, String>)
        ensures
            result_text(r) == lookup_non_empty(texts(self.headers@), texts(record@), col_name.deep_view()),
    {
        non_empty_column_value(&self.headers, record, col_name)
    }

    /// The value of `col_name` in `record` (see `lookup_value`).
    pub fn value(&self, record: &Vec<String>, col_name: Option<&str>) -> (r: Result<String, String>)
        ensures
            result_text(r) == lookup_value(texts(self.headers@), texts(record@), col_name.deep_view()),
    {
        column_value(&self.headers, record, col_name)
    }

    /// The mapping with the header row `headers` of the statement it applies to.
    pub fn with_header_map(self, headers: Vec<String>) -> (r: Self)
        ensures
            r.headers == headers,
            r.file_id == self.file_id,
            r.date_column == self.date_column,
            r.amount_column == self.amount_column,
            r.amount_multiplier == self.amount_multiplier,
            r.description_column == self.description_column,
            r.transaction_type == self.transaction_type,
            r.account_column == self.account_column,
            r.account_fixed_value == self.account_fixed_value,
            r.category_column == self.category_column,
    {
        ColumnMapping { headers, ..self }
    }
}

/// The header row of an uploaded statement (see `csv_strict_table`).
pub fn read_csv_headers(bytes: &[u8]) -> (r: Result<Vec<String>, String>)
    ensures
        row_view(r) == csv_strict_table(bytes@).0,
{
    read_strict_table(bytes).0
}

/// What an import did: how many rows it read, imported, skipped and refused, and the rows it
/// refused.
#[derive(Debug)]
pub struct ImportResult {
    pub total_rows: usize,
    pub successful: usize,
    pub failed: usize,
    pub skipped: usize,
    pub errors: Vec<ImportError>,
}

impl ImportResult {
    /// Every row read was imported, skipped or refused, and the refused ones are counted.
    pub open spec fn balanced(&self) -> bool {
        &&& self.total_rows == self.successful + self.skipped + self.errors@.len()
        &&& self.failed == self.errors@.len()
    }

    /// No row read yet.
    pub fn new() -> (r: ImportResult)
        ensures
            r.total_rows == 0,
            r.successful == 0,
            r.skipped == 0,
            r.errors@.len() == 0,
            r.balanced(),
    {
        ImportResult { total_rows: 0, successful: 0, failed: 0, skipped: 0, errors: Vec::new() }
    }

    /// Counts the row at `index` among the statement's rows (row `index + 2` of the file):
    /// imported (`Ok(true)`), skipped (`Ok(false)`) or refused with the reason `Err(e)`, kept
    /// with its number and data.
    pub fn count_row(&mut self, index: usize, row_data: String, outcome: Result<bool, String>)
        requires
            old(self).balanced(),
            old(self).total_rows < usize::MAX,
            index < usize::MAX - 1,
        ensures
            final(self).balanced(),
            final(self).total_rows == old(self).total_rows + 1,
            final(self).successful == old(self).successful + (if outcome == Ok::<bool, String>(true) { 1int } else { 0 }),
            final(self).skipped == old(self).skipped + (if outcome == Ok::<bool, String>(false) { 1int } else { 0 }),
            match outcome {
                Err(e) => final(self).errors@.len() == old(self).errors@.len() + 1
                    && final(self).errors@.subrange(0, old(self).errors@.len() as int) == old(self).errors@
                    && final(self).errors@.last().row_number == index + 2
                    && final(self).errors@.last().row_data == row_data
                    && final(self).errors@.last().error == e,
                Ok(_) => final(self).errors@ == old(self).errors@,
            },
    {
        self.total_rows = self.total_rows + 1;
        match outcome {
            Ok(true) => {
                self.successful = self.successful + 1;
            },
            Ok(false) => {
                self.skipped = self.skipped + 1;
            },
            Err(error) => {
                self.errors.push(ImportError { row_number: index + 2, row_data, error });
                self.failed = self.failed + 1;
            },
        }
    }

    /// Counts the row at `index` that could not be read, with the reader's error.
    pub fn count_unreadable(&mut self, index: usize, error: String)
        requires
            old(self).balanced(),
            old(self).total_rows < usize::MAX,
            index < usize::MAX - 1,
        ensures
            final(self).balanced(),
            final(self).total_rows == old(self).total_rows + 1,
            final(self).successful == old(self).successful,
            final(self).skipped == old(self).skipped,
            final(self).errors@.len() == old(self).errors@.len() + 1,
            final(self).errors@.subrange(0, old(self).errors@.len() as int) == old(self).errors@,
            final(self).errors@.last().row_number == index + 2,
            final(self).errors@.last().row_data@ == "Failed to read row"@,
            final(self).errors@.last().error == error,
    {
        self.total_rows = self.total_rows + 1;
        self.errors.push(ImportError { row_number: index + 2, row_data: owned("Failed to read row"), error });
        self.failed = self.failed + 1;
    }
}

/// The upload's file name with `'/'` and `'.'` made `'_'`.
pub open spec fn safe_file_name(name: Seq<char>) -> Seq<char> {
    name.map_values(|c: char| if c == '/' || c == '.' { '_' } else { c })
}

/// The name under which user `user_id`'s upload named `file_name` is kept.
pub open spec fn upload_name(user_id: i64, file_name: Seq<char>) -> Seq<char> {
    "budget_upload_"@ + signed_decimal(user_id as int) + "_"@ + safe_file_name(file_name) + ".csv"@
}

/// The name under which user `user_id`'s upload named `file_name` is kept; an upload without
/// a file name is refused.
pub fn upload_file_id(user_id: i64, file_name: Option<&str>) -> (r: Result<String, String>)
    ensures
        match file_name {
            Some(n) => r matches Ok(id) && id@ == upload_name(user_id, n@),
            None => r matches Err(e) && e@ == "CSV file must have a file name"@,
        },
{
    let name = match file_name {
        Some(n) => n,
        None => {
            return Err(owned("CSV file must have a file name"));
        },
    };
    let mut out = chars_of("budget_upload_");
    push_signed_decimal(&mut out, user_id);
    push_str(&mut out, "_");
    let cs = chars_of(name);
    let ghost start = out@;
    let mut i: usize = 0;
    while i < cs.len()
        invariant
            i <= cs@.len(),
            out@ == start + safe_file_name(cs@.subrange(0, i as int)),
        decreases cs@.len() - i,
    {
        let c = cs[i];
        out.push(if c == '/' || c == '.' { '_' } else { c });
        i = i + 1;
        assert(safe_file_name(cs@.subrange(0, i as int)) =~= safe_file_name(cs@.subrange(0, i - 1)).push(
            if c == '/' || c == '.' { '_' } else { c },
        ));
    }
    assert(cs@.subrange(0, cs@.len() as int) =~= cs@);
    push_str(&mut out, ".csv");
    assert(out@ =~= upload_name(user_id, name@));
    Ok(text_of(out.as_slice()))
}

/// The type of a row's transaction: the mapping's type (lower case, trimmed) flipped for a
/// negative amount; any other combination is refused.
pub open spec fn row_kind(mapping_type: Seq<char>, negative: bool) -> Result<Seq<char>, Seq<char>> {
    let t = trimmed(lowercase(mapping_type));
    if t == "income"@ && negative {
        Ok("expense"@)
    } else if t == "expense"@ && negative {
        Ok("income"@)
    } else {
        Err("Unexpected transaction_type "@ + t)
    }
}

/// The type of a row's transaction (see `row_kind`).
pub fn transaction_kind(mapping_type: &str, negative: bool) -> (r: Result<String, String>)
    ensures
        result_text(r) == row_kind(mapping_type@, negative),
{
    let lower = to_lowercase(mapping_type);
    let t = trim(lower.as_str());
    if text_eq(t.as_str(), "income") && negative {
        Ok(owned("expense"))
    } else if text_eq(t.as_str(), "expense") && negative {
        Ok(owned("income"))
    } else {
        let mut m = chars_of("Unexpected transaction_type ");
        push_str(&mut m, t.as_str());
        Err(text_of(m.as_slice()))
    }
}

/// What a statement row gives a transaction besides its amount.
#[derive(Debug)]
pub struct RowPlan {
    pub description: String,
    pub transaction_date: String,
    pub account_name: Option<String>,
    pub category_name: Option<String>,
}

/// The description, date, account and category a row gives: the description and date
/// columns must be found (the date read by `slash_date`); the account is the row's non-blank
/// account value or else the mapping's fixed one; the category the row's non-blank value.
pub open spec fn row_plan(mapping: ColumnMapping, record: Seq<Seq<char>>) -> Result<
    (Seq<char>, Seq<char>, Option<Seq<char>>, Option<Seq<char>>),
    Seq<char>,
> {
    let h = texts(mapping.headers@);
    match lookup_value(h, record, Some(mapping.description_column@)) {
        Err(e) => Err(e),
        Ok(description) => match lookup_value(h, record, Some(mapping.date_column@)) {
            Err(e) => Err(e),
            Ok(date) => match slash_date(date) {
                Err(e) => Err(e),
                Ok(day) => Ok((
                    description,
                    day,
                    match lookup_non_empty(h, record, opt_text(mapping.account_column)) {
                        Ok(a) => Some(a),
                        Err(_) => opt_text(mapping.account_fixed_value),
                    },
                    match lookup_non_empty(h, record, opt_text(mapping.category_column)) {
                        Ok(c) => Some(c),
                        Err(_) => None,
                    },
                )),
            },
        },
    }
}

/// A plan as plain values.
pub open spec fn plan_values(p: RowPlan) -> (Seq<char>, Seq<char>, Option<Seq<char>>, Option<Seq<char>>) {
    (p.description@, p.transaction_date@, opt_text(p.account_name), opt_text(p.category_name))
}

fn copy_opt(o: &Option<String>) -> (r: Option<String>)
    ensures
        opt_text(r) == opt_text(*o),
{
    match o {
        Some(s) => Some(owned(s.as_str())),
        None => None,
    }
}

fn as_str_opt(o: &Option<String>) -> (r: Option<&str>)
    ensures
        r.deep_view() == opt_text(*o),
{
    match o {
        Some(s) => Some(s.as_str()),
        None => None,
    }
}

impl ColumnMapping {
    /// The amount text of `record`, read first.
    pub fn amount_value(&self, record: &Vec<String>) -> (r: Result<String, String>)
        ensures
            result_text(r) == lookup_value(texts(self.headers@), texts(record@), Some(self.amount_column@)),
    {
        self.value(record, Some(self.amount_column.as_str()))
    }

    /// What `record` gives a transaction besides its amount (see `row_plan`).
    pub fn plan_row(&self, record: &Vec<String>) -> (r: Result<RowPlan, String>)
        ensures
            match (r, row_plan(*self, texts(record@))) {
                (Ok(p), Ok(v)) => plan_values(p) == v,
                (Err(e), Err(f)) => e@ == f,
                _ => false,
            },
    {
        let description = self.value(record, Some(self.description_column.as_str()))?;
        let date = self.value(record, Some(self.date_column.as_str()))?;
        let transaction_date = normalize_date(date.as_str())?;
        let account_name = match self.non_empty_value(record, as_str_opt(&self.account_column)) {
            Ok(a) => Some(a),
            Err(_) => copy_opt(&self.account_fixed_value),
        };
        let category_name = match self.non_empty_value(record, as_str_opt(&self.category_column)) {
            Ok(c) => Some(c),
            Err(_) => None,
        };
        Ok(RowPlan { description, transaction_date, account_name, category_name })
    }
}

} // verus!
