//! The statement importer with separate income and expense columns.

use crate::single_user::columns::{column_value, lookup_non_empty, lookup_value, non_empty_column_value, normalize_date, slash_date};
use crate::single_user::csv::{plan_values, RowPlan};
use crate::model::csv::opt_text;
use crate::model::dates::result_text;
use crate::text::{owned, texts};
use vstd::prelude::*;

verus! {

/// How the columns of an uploaded statement map onto transactions, with the header row of
/// the statement.
#[derive(Debug)]
pub struct ColumnMapping {
    pub file_id: String,
    pub date_column: String,
    pub income_column: String,
    pub expense_column: String,
    pub description_column: String,
    pub account_column: Option<String>,
    pub account_fixed_name: Option<String>,
    pub category_column: Option<String>,
    pub currency_multiplier: Option<String>,
    /// The header row; a column is found by its header, the last one of that name.
    pub headers: Vec<String>,
}

/// A row that could not be imported: its number in the file, what it held and why.
#[derive(Debug)]
pub struct ImportError {
    pub row_number: usize,
    pub row_data: String,
    pub error: String,
}

impl ImportError {
    /// An error that belongs to no row.
    pub fn from_message(error: String) -> (r: ImportError)
        ensures
            r.row_number == 0,
            r.row_data@.len() == 0,
            r.error == error,
    {
        ImportError { row_number: 0, row_data: String::new(), error }
    }
}

/// What an import did: how many rows it read and imported, and the rows it refused.
#[derive(Debug)]
pub struct ImportResult {
    pub total_rows: usize,
    pub successful: usize,
    pub errors: Vec<ImportError>,
}

impl ImportResult {
    /// No row read yet.
    pub fn new() -> (r: ImportResult)
        ensures
            r.total_rows == 0,
            r.successful == 0,
            r.errors@.len() == 0,
    {
        ImportResult { total_rows: 0, successful: 0, errors: Vec::new() }
    }

    /// Counts the row at `index` among the statement's rows (row `index + 2` of the file):
    /// imported (`Ok(true)`), read without an amount (`Ok(false)`) or refused with the reason
    /// `Err(e)`, kept with its number and data.
    pub fn count_row(&mut self, index: usize, row_data: String, outcome: Result<bool, String>)
        requires
            old(self).successful + old(self).errors@.len() <= old(self).total_rows < usize::MAX,
            index < usize::MAX - 1,
        ensures
            final(self).successful + final(self).errors@.len() <= final(self).total_rows,
            final(self).total_rows == old(self).total_rows + 1,
            final(self).successful == old(self).successful + (if outcome == Ok::<bool, String>(true) { 1int } else { 0 }),
            match outcome {
                Err(e) => final(self).errors@.len() == old(self).errors@.len() + 1
                    && final(self).errors@.subrange(0, old(self).errors@.len() as int) == old(self).errors@
                    && final(self).errors@.last().row_number == index + 2
                    && final(self).errors@.last().row_data == row_data
                    && final(self).errors@.last().error == e,
                Ok(_) => final(self).errors@ == old(self).errors@,
            },
    {
        self.total_rows = self.total_rows + 1;
        match outcome {
            Ok(true) => {
                self.successful = self.successful + 1;
            },
            Ok(false) => {},
            Err(error) => {
                self.errors.push(ImportError { row_number: index + 2, row_data, error });
            },
        }
    }

    /// Counts the row at `index` that could not be read, with the reader's error.
    pub fn count_unreadable(&mut self, index: usize, error: String)
        requires
            old(self).successful + old(self).errors@.len() <= old(self).total_rows < usize::MAX,
            index < usize::MAX - 1,
        ensures
            final(self).successful + final(self).errors@.len() <= final(self).total_rows,
            final(self).total_rows == old(self).total_rows + 1,
            final(self).successful == old(self).successful,
            final(self).errors@.len() == old(self).errors@.len() + 1,
            final(self).errors@.subrange(0, old(self).errors@.len() as int) == old(self).errors@,
            final(self).errors@.last().row_number == index + 2,
            final(self).errors@.last().row_data@ == "Failed to read row"@,
            final(self).errors@.last().error == error,
    {
        self.total_rows = self.total_rows + 1;
        self.errors.push(ImportError { row_number: index + 2, row_data: owned("Failed to read row"), error });
    }
}

/// Which amount column a value comes from.
#[derive(Debug, Clone, Copy, PartialEq, Eq, Structural)]
pub enum AmountSide {
    Income,
    Expense,
}

/// The type of a transaction read from an amount column: the column's own type for a
/// positive amount, the other one otherwise.
pub fn amount_type(side: AmountSide, positive: bool) -> (r: &'static str)
    ensures
        r@ == (if (side == AmountSide::Income) == positive { "income"@ } else { "expense"@ }),
{
    match side {
        AmountSide::Income => if positive { "income" } else { "expense" },
        AmountSide::Expense => if positive { "expense" } else { "income" },
    }
}

/// The import rules run for a row that lacks a category or an account.
pub fn needs_rules(category_id: Option<i64>, account_id: i64) -> (b: bool)
    ensures
        b == (category_id is None || account_id == 0),
{
    category_id.is_none() || account_id == 0
}

/// The description, date, account and category a row gives, as in the importer of `csv` but
/// with the mapping's fixed account name.
pub open spec fn row_plan(mapping: ColumnMapping, record: Seq<Seq<char>>) -> Result<
    (Seq<char>, Seq<char>, Option<Seq<char>>, Option<Seq<char>>),
    Seq<char>,
> {
    let h = texts(mapping.headers@);
    match lookup_value(h, record, Some(mapping.description_column@)) {
        Err(e) => Err(e),
        Ok(description) => match lookup_value(h, record, Some(mapping.date_column@)) {
            Err(e) => Err(e),
            Ok(date) => match slash_date(date) {
                Err(e) => Err(e),
                Ok(day) => Ok((
                    description,
                    day,
                    match lookup_non_empty(h, record, opt_text(mapping.account_column)) {
                        Ok(a) => Some(a),
                        Err(_) => opt_text(mapping.account_fixed_name),
                    },
                    match lookup_non_empty(h, record, opt_text(mapping.category_column)) {
                        Ok(c) => Some(c),
                        Err(_) => None,
                    },
                )),
            },
        },
    }
}

fn copy_opt(o: &Option<String>) -> (r: Option<String>)
    ensures
        opt_text(r) == opt_text(*o),
{
    match o {
        Some(s) => Some(owned(s.as_str())),
        None => None,
    }
}

fn as_str_opt(o: &Option<String>) -> (r: Option<&str>)
    ensures
        r.deep_view() == opt_text(*o),
{
    match o {
        Some(s) => Some(s.as_str()),
        None => None,
    }
}

impl ColumnMapping {
    /// The trimmed, non-blank value of `col_name` in `record` (see `lookup_non_empty`).
    pub fn non_empty_value(&self, record: &Vec<String>, col_name: Option<&str>) -> (r: Result<String, String>)
        ensures
            result_text(r) == lookup_non_empty(texts(self.headers@), texts(record@), col_name.deep_view()),
    {
        non_empty_column_value(&self.headers, record, col_name)
    }

    /// The value of `col_name` in `record` (see `lookup_value`).
    pub fn value(&self, record: &Vec<String>, col_name: Option<&str>) -> (r: Result<String, String>)
        ensures
            result_text(r) == lookup_value(texts(self.headers@), texts(record@), col_name.deep_view()),
    {
        column_value(&self.headers, record, col_name)
    }

    /// The mapping with the header row `headers` of the statement it applies to.
    pub fn with_header_map(self, headers: Vec<String>) -> (r: Self)
        ensures
            r.headers == headers,
            r.file_id == self.file_id,
            r.date_column == self.date_column,
            r.income_column == self.income_column,
            r.expense_column == self.expense_column,
            r.description_column == self.description_column,
            r.account_column == self.account_column,
            r.account_fixed_name == self.account_fixed_name,
            r.category_column == self.category_column,
            r.currency_multiplier == self.currency_multiplier,
    {
        ColumnMapping { headers, ..self }
    }

    /// What `record` gives a transaction besides its amounts (see `row_plan`).
    pub fn plan_row(&self, record: &Vec<String>) -> (r: Result<RowPlan, String>)
        ensures
            match (r, row_plan(*self, texts(record@))) {
                (Ok(p), Ok(v)) => plan_values(p) == v,
                (Err(e), Err(f)) => e@ == f,
                _ => false,
            },
    {
        let description = self.value(record, Some(self.description_column.as_str()))?;
        let date = self.value(record, Some(self.date_column.as_str()))?;
        let transaction_date = normalize_date(date.as_str())?;
        let account_name = match self.non_empty_value(record, as_str_opt(&self.account_column)) {
            Ok(a) => Some(a),
            Err(_) => copy_opt(&self.account_fixed_name),
        };
        let category_name = match self.non_empty_value(record, as_str_opt(&self.category_column)) {
            Ok(c) => Some(c),
            Err(_) => None,
        };
        Ok(RowPlan { description, transaction_date, account_name, category_name })
    }

    /// The income and the expense texts of `record`, each where its column is found.
    pub fn amount_values(&self, record: &Vec<String>) -> (r: (Option<String>, Option<String>))
        ensures
            match lookup_value(texts(self.headers@), texts(record@), Some(self.income_column@)) {
                Ok(v) => r.0 matches Some(x) && x@ == v,
                Err(_) => r.0 is None,
            },
            match lookup_value(texts(self.headers@), texts(record@), Some(self.expense_column@)) {
                Ok(v) => r.1 matches Some(x) && x@ == v,
                Err(_) => r.1 is None,
            },
    {
        let income = match self.value(record, Some(self.income_column.as_str())) {
            Ok(v) => Some(v),
            Err(_) => None,
        };
        let expense = match self.value(record, Some(self.expense_column.as_str())) {
            Ok(v) => Some(v),
            Err(_) => None,
        };
        (income, expense)
    }
}

} // verus!
