//! The CSV statement importer: reading the header row, suggesting how the columns map onto
//! transactions, and deciding what each row of a statement imports.

use crate::model::csv_file::{
    csv_reader, detect_delimiter, detected_delimiter, rows_view, statement_headers,
    statement_table,
};
use crate::model::dates::{normalize_date, normalized_date, parse_date, result_text};
use crate::text::{
    chars_eq, chars_of, contains, contains_text, lowercase, push_all, text_of, texts, to_lowercase,
    trim_chars, trimmed,
};
use crate::model::import_rules::ImportRule;
use crate::text::owned;
use crate::text::char_runs;
use crate::model::csv_file::rows_texts;
use vstd::prelude::*;

verus! {

/// The value of the account column that tells the importer to take the account of each row
/// from the bracketed heading rows of the statement (see `account_heading_name`).
pub const ACCOUNT_HEADING: &'static str = "FROM_HEADING_ROW";

/// The header row of the transaction table in the CSV file `bytes`.
pub fn read_csv_headers(bytes: &[u8]) -> (r: Result<Vec<String>, String>)
    ensures
        match statement_headers(bytes@) {
            Ok(h) => r matches Ok(headers) && texts(headers@) == h,
            Err(e) => r matches Err(m) && m@ == e,
        },
{
    let delimiter = detect_delimiter(bytes)?;
    let table = csv_reader(bytes, delimiter)?;
    table.headers
}

/// The name inside a heading cell such as `【Name】`: the trimmed cell must start with `'【'`
/// and end with `'】'`; the name is what lies between, trimmed.
pub open spec fn heading_name(value: Seq<char>) -> Option<Seq<char>> {
    let t = trimmed(value);
    if t.len() >= 1 && t[0] == '【' {
        let u = t.drop_first();
        if u.len() >= 1 && u.last() == '】' {
            Some(trimmed(u.drop_last()))
        } else {
            None
        }
    } else {
        None
    }
}

/// The account name of a heading row's cell, if the cell is a heading.
pub fn account_heading_name(value: &str) -> (r: Option<String>)
    ensures
        r.deep_view() == heading_name(value@),
{
    let raw = chars_of(value);
    let t = trim_chars(raw.as_slice());
    if t.len() >= 2 && t[0] == '【' && t[t.len() - 1] == '】' {
        let mut inner: Vec<char> = Vec::new();
        let mut i: usize = 1;
        while i < t.len() - 1
            invariant
                1 <= i <= t@.len() - 1,
                t@.len() >= 2,
                inner@ == t@.subrange(1, i as int),
            decreases t@.len() - 1 - i,
        {
            inner.push(t[i]);
            i = i + 1;
            assert(inner@ =~= t@.subrange(1, i as int));
        }
        assert(t@.drop_first().drop_last() =~= t@.subrange(1, t@.len() - 1));
        let name = trim_chars(inner.as_slice());
        Some(text_of(name.as_slice()))
    } else {
        proof {
            if t@.len() == 1 && t@[0] == '【' {
                assert(t@.drop_first().len() == 0);
            }
        }
        None
    }
}

/// Whether the cell `value` is a heading that names an account.
pub fn is_account_heading(value: &str) -> (b: bool)
    ensures
        b == heading_name(value@) is Some,
{
    account_heading_name(value).is_some()
}


/// A date order that fits every sampled value of the date column.
#[derive(Debug, Clone)]
pub struct DateFormatOption {
    pub value: String,
    pub label: String,
}

/// How the columns of an uploaded statement probably map onto transactions.
#[derive(Debug)]
pub struct ColumnSuggestions {
    pub date_column: String,
    pub description_column: String,
    pub income_column: String,
    pub expense_column: String,
    pub account_column: String,
    pub category_column: String,
    pub date_formats: Vec<DateFormatOption>,
}

/// The first of `headers` that satisfies `p`, or the empty text.
pub open spec fn first_header_where(headers: Seq<Seq<char>>, p: spec_fn(Seq<char>) -> bool) -> Seq<
    char,
>
    decreases headers.len(),
{
    if headers.len() == 0 {
        Seq::empty()
    } else if p(headers[0]) {
        headers[0]
    } else {
        first_header_where(headers.drop_first(), p)
    }
}

proof fn lemma_first_header_step(
    headers: Seq<Seq<char>>,
    p: spec_fn(Seq<char>) -> bool,
    i: int,
)
    requires
        0 <= i < headers.len(),
    ensures
        first_header_where(headers.subrange(i, headers.len() as int), p) == if p(headers[i]) {
            headers[i]
        } else {
            first_header_where(headers.subrange(i + 1, headers.len() as int), p)
        },
{
    let t = headers.subrange(i, headers.len() as int);
    assert(t[0] == headers[i]);
    assert(t.drop_first() =~= headers.subrange(i + 1, headers.len() as int));
}

/// The lower case of `h` holds one of `words`.
pub open spec fn mentions_any(h: Seq<char>, words: Seq<Seq<char>>) -> bool {
    exists|k: int| 0 <= k < words.len() && contains_text(lowercase(h), #[trigger] words[k])
}

/// The first header whose lower case holds one of `words`, or the empty text.
pub open spec fn header_mentioning(headers: Seq<Seq<char>>, words: Seq<Seq<char>>) -> Seq<char> {
    first_header_where(headers, |h: Seq<char>| mentions_any(h, words))
}

/// The words that mark a category column.
pub open spec fn category_words() -> Seq<Seq<char>> {
    seq!["category"@, "kategori"@]
}

/// The words that mark an expense column.
pub open spec fn expense_words() -> Seq<Seq<char>> {
    seq!["expense"@, "debit"@, "kostnad"@, "withdrawal"@, "ut"@, "金額"@]
}

/// The words that mark an income column.
pub open spec fn income_words() -> Seq<Seq<char>> {
    seq!["income"@, "credit"@, "deposit"@, "inn"@]
}

fn empty_text() -> (r: String)
    ensures
        r@ == Seq::<char>::empty(),
{
    String::new()
}


fn mentions_any_word(h: &String, words: &Vec<Vec<char>>) -> (b: bool)
    ensures
        b == mentions_any(h@, char_runs(words@)),
{
    let lc = to_lowercase(h.as_str());
    let lcv = chars_of(lc.as_str());
    let ghost ws = char_runs(words@);
    let mut k: usize = 0;
    while k < words.len()
        invariant
            k <= words@.len(),
            ws == char_runs(words@),
            lcv@ == lowercase(h@),
            forall|j: int| 0 <= j < k ==> !contains_text(lowercase(h@), #[trigger] ws[j]),
        decreases words@.len() - k,
    {
        if crate::text::contains_chars(lcv.as_slice(), words[k].as_slice()) {
            assert(contains_text(lowercase(h@), ws[k as int]));
            return true;
        }
        k = k + 1;
    }
    false
}

fn header_mentioning_any(headers: &Vec<String>, words: &Vec<Vec<char>>) -> (r: String)
    ensures
        r@ == header_mentioning(texts(headers@), char_runs(words@)),
{
    let ghost hs = texts(headers@);
    let ghost p = |h: Seq<char>| mentions_any(h, char_runs(words@));
    let mut i: usize = 0;
    assert(hs.subrange(0, hs.len() as int) =~= hs);
    while i < headers.len()
        invariant
            i <= headers@.len(),
            hs == texts(headers@),
            p == (|h: Seq<char>| mentions_any(h, char_runs(words@))),
            first_header_where(hs.subrange(i as int, hs.len() as int), p) == first_header_where(
                hs,
                p,
            ),
        decreases headers@.len() - i,
    {
        proof {
            lemma_first_header_step(hs, p, i as int);
        }
        if mentions_any_word(&headers[i], words) {
            return headers[i].clone();
        }
        i = i + 1;
    }
    assert(hs.subrange(hs.len() as int, hs.len() as int) =~= Seq::<Seq<char>>::empty());
    empty_text()
}


fn word_list(words: &[&str]) -> (r: Vec<Vec<char>>)
    ensures
        r@.len() == words@.len(),
        forall|k: int| 0 <= k < words@.len() ==> #[trigger] r@[k]@ == words@[k]@,
{
    let mut r: Vec<Vec<char>> = Vec::new();
    let mut k: usize = 0;
    while k < words.len()
        invariant
            k <= words@.len(),
            r@.len() == k,
            forall|j: int| 0 <= j < k ==> #[trigger] r@[j]@ == words@[j]@,
        decreases words@.len() - k,
    {
        r.push(chars_of(words[k]));
        k = k + 1;
    }
    r
}


/// The index of the longest field of `record` other than field `skip`, the last one when
/// several are equally long (`Iterator::max_by_key`); `None` when there is no other field.
pub open spec fn longest_other(record: Seq<Seq<char>>, skip: int) -> Option<int>
    decreases record.len(),
{
    if record.len() == 0 {
        None
    } else {
        let i = record.len() - 1;
        let prev = longest_other(record.drop_last(), skip);
        if i == skip {
            prev
        } else {
            match prev {
                None => Some(i),
                Some(j) => if record[i].len() >= record[j].len() {
                    Some(i)
                } else {
                    Some(j)
                },
            }
        }
    }
}

proof fn lemma_longest_other_bound(record: Seq<Seq<char>>, skip: int)
    ensures
        longest_other(record, skip) matches Some(j) ==> 0 <= j < record.len() && j != skip,
    decreases record.len(),
{
    if record.len() > 0 {
        lemma_longest_other_bound(record.drop_last(), skip);
    }
}

/// The first field of `record`, from index `from` on, that reads as a date and has some other
/// field beside it, paired with the longest of those other fields.
pub open spec fn date_field_from(record: Seq<Seq<char>>, from: int) -> Option<(int, int)>
    decreases record.len() - from,
{
    if from < 0 || from >= record.len() {
        None
    } else if normalized_date(record[from], None) is Ok && longest_other(record, from) is Some {
        Some((from, longest_other(record, from)->0))
    } else {
        date_field_from(record, from + 1)
    }
}

proof fn lemma_date_field_bound(record: Seq<Seq<char>>, from: int)
    ensures
        date_field_from(record, from) matches Some((d, e)) ==> 0 <= d < record.len() && 0 <= e
            < record.len(),
    decreases record.len() - from,
{
    if 0 <= from < record.len() {
        lemma_date_field_bound(record, from + 1);
        lemma_longest_other_bound(record, from);
    }
}

/// The columns of the first sampled row, from index `from` on, that holds a date and some
/// other field: the date's header and the header of the longest other field.
pub open spec fn date_columns_from(headers: Seq<Seq<char>>, samples: Seq<Seq<Seq<char>>>, from: int) -> (
    Seq<char>,
    Seq<char>,
)
    decreases samples.len() - from,
{
    if from < 0 || from >= samples.len() {
        (Seq::empty(), Seq::empty())
    } else {
        match date_field_from(samples[from], 0) {
            Some((d, e)) => (headers[d], headers[e]),
            None => date_columns_from(headers, samples, from + 1),
        }
    }
}

/// The suggested date and description columns.
pub open spec fn date_columns(headers: Seq<Seq<char>>, samples: Seq<Seq<Seq<char>>>) -> (
    Seq<char>,
    Seq<char>,
) {
    date_columns_from(headers, samples, 0)
}

fn longest_other_field(record: &Vec<String>, skip: usize) -> (r: Option<usize>)
    ensures
        r is None <==> longest_other(texts(record@), skip as int) is None,
        r matches Some(j) ==> longest_other(texts(record@), skip as int) == Some(j as int),
{
    let ghost fs = texts(record@);
    let mut best: Option<usize> = None;
    let mut best_len: usize = 0;
    let mut i: usize = 0;
    while i < record.len()
        invariant
            i <= record@.len(),
            fs == texts(record@),
            match longest_other(fs.subrange(0, i as int), skip as int) {
                Some(j) => best == Some(j as usize) && best_len == fs[j].len(),
                None => best is None,
            },
        decreases record@.len() - i,
    {
        let ghost pre = fs.subrange(0, i as int);
        let ghost next = fs.subrange(0, i + 1);
        assert(next.drop_last() =~= pre);
        proof {
            lemma_longest_other_bound(pre, skip as int);
        }
        if i != skip {
            let n = crate::text::chars_of(record[i].as_str()).len();
            match best {
                None => {
                    best = Some(i);
                    best_len = n;
                },
                Some(j) => {
                    if n >= best_len {
                        best = Some(i);
                        best_len = n;
                    }
                },
            }
        }
        i = i + 1;
    }
    assert(fs.subrange(0, fs.len() as int) =~= fs);
    proof {
        lemma_longest_other_bound(fs, skip as int);
    }
    best
}

fn date_field(record: &Vec<String>) -> (r: Option<(usize, usize)>)
    ensures
        r is None <==> date_field_from(texts(record@), 0) is None,
        r matches Some((d, e)) ==> date_field_from(texts(record@), 0) == Some((d as int, e as int)),
{
    let ghost fs = texts(record@);
    let mut i: usize = 0;
    while i < record.len()
        invariant
            i <= record@.len(),
            fs == texts(record@),
            date_field_from(fs, 0) == date_field_from(fs, i as int),
        decreases record@.len() - i,
    {
        if parse_date(record[i].as_str(), None).is_ok() {
            if let Some(e) = longest_other_field(record, i) {
                return Some((i, e));
            }
        }
        i = i + 1;
    }
    None
}

fn date_and_description(headers: &Vec<String>, samples: &Vec<Vec<String>>) -> (r: (String, String))
    requires
        forall|k: int| 0 <= k < samples@.len() ==> #[trigger] samples@[k]@.len() <= headers@.len(),
    ensures
        (r.0@, r.1@) == date_columns(texts(headers@), rows_texts(samples@)),
{
    let ghost hs = texts(headers@);
    let ghost ss = rows_texts(samples@);
    let mut k: usize = 0;
    while k < samples.len()
        invariant
            k <= samples@.len(),
            hs == texts(headers@),
            ss == rows_texts(samples@),
            forall|j: int| 0 <= j < samples@.len() ==> #[trigger] samples@[j]@.len() <= headers@.len(),
            date_columns(hs, ss) == date_columns_from(hs, ss, k as int),
        decreases samples@.len() - k,
    {
        assert(ss[k as int] == texts(samples@[k as int]@));
        match date_field(&samples[k]) {
            Some((d, e)) => {
                proof {
                    lemma_date_field_bound(ss[k as int], 0);
                }
                assert(e < samples@[k as int]@.len());
                assert(date_field_from(ss[k as int], 0) == Some((d as int, e as int)));
                let a = headers[d].clone();
                let b = headers[e].clone();
                assert(a@ == hs[d as int] && b@ == hs[e as int]);
                assert(date_columns_from(hs, ss, k as int) == (hs[d as int], hs[e as int]));
                return (a, b);
            },
            None => {},
        }
        k = k + 1;
    }
    (empty_text(), empty_text())
}



/// The index of the first of `headers`, from index `from` on, that equals `name`.
pub open spec fn position_from(headers: Seq<Seq<char>>, name: Seq<char>, from: int) -> Option<int>
    decreases headers.len() - from,
{
    if from < 0 || from >= headers.len() {
        None
    } else if headers[from] == name {
        Some(from)
    } else {
        position_from(headers, name, from + 1)
    }
}

fn position_of(headers: &Vec<String>, name: &String) -> (r: Option<usize>)
    ensures
        r is None <==> position_from(texts(headers@), name@, 0) is None,
        r matches Some(i) ==> position_from(texts(headers@), name@, 0) == Some(i as int),
{
    let ghost hs = texts(headers@);
    let mut i: usize = 0;
    while i < headers.len()
        invariant
            i <= headers@.len(),
            hs == texts(headers@),
            position_from(hs, name@, 0) == position_from(hs, name@, i as int),
        decreases headers@.len() - i,
    {
        if crate::text::text_eq(headers[i].as_str(), name.as_str()) {
            return Some(i);
        }
        i = i + 1;
    }
    None
}

/// The values that the sampled rows hold in column `index`, skipping rows too short to have
/// one.
pub open spec fn column_values(samples: Seq<Seq<Seq<char>>>, index: int) -> Seq<Seq<char>>
    decreases samples.len(),
{
    if samples.len() == 0 {
        Seq::empty()
    } else {
        let init = column_values(samples.drop_last(), index);
        if 0 <= index < samples.last().len() {
            init.push(samples.last()[index])
        } else {
            init
        }
    }
}

/// Every one of `values` reads as a date with the order `order`.
pub open spec fn all_read_as(values: Seq<Seq<char>>, order: Seq<char>) -> bool {
    forall|i: int| 0 <= i < values.len() ==> (#[trigger] normalized_date(values[i], Some(order))) is Ok
}

/// The date orders the importer knows, with their labels.
pub open spec fn date_orders() -> Seq<(Seq<char>, Seq<char>)> {
    seq![
        ("ymd"@, "YYYY-MM-DD"@),
        ("ydm"@, "YYYY-DD-MM"@),
        ("dmy"@, "DD.MM.YYYY"@),
        ("mdy"@, "MM.DD.YYYY"@),
    ]
}

/// The orders of `orders` with which every one of `values` reads as a date.
pub open spec fn fitting_orders(orders: Seq<(Seq<char>, Seq<char>)>, values: Seq<Seq<char>>) -> Seq<
    (Seq<char>, Seq<char>),
>
    decreases orders.len(),
{
    if orders.len() == 0 {
        orders
    } else {
        let init = fitting_orders(orders.drop_last(), values);
        if all_read_as(values, orders.last().0) {
            init.push(orders.last())
        } else {
            init
        }
    }
}

/// The date orders to offer for the date column: those every sampled date fits, when more
/// than one does; none otherwise, and none without a date column.
pub open spec fn suggested_formats(
    headers: Seq<Seq<char>>,
    samples: Seq<Seq<Seq<char>>>,
    date_column: Seq<char>,
) -> Seq<(Seq<char>, Seq<char>)> {
    if date_column.len() == 0 {
        Seq::empty()
    } else {
        match position_from(headers, date_column, 0) {
            None => Seq::empty(),
            Some(i) => {
                let fitting = fitting_orders(date_orders(), column_values(samples, i));
                if fitting.len() > 1 {
                    fitting
                } else {
                    Seq::empty()
                }
            },
        }
    }
}

/// The lower case of the header names an account column: it holds `account` or is `konto`,
/// and holds neither `inn ` nor `ut `.
pub open spec fn account_header(h: Seq<char>) -> bool {
    let lc = lowercase(h);
    (contains_text(lc, "account"@) || lc == "konto"@) && !contains_text(lc, "inn "@)
        && !contains_text(lc, "ut "@)
}

/// Some sampled row holds an account heading in column `p`.
pub open spec fn has_heading_rows(samples: Seq<Seq<Seq<char>>>, p: int) -> bool {
    exists|k: int|
        0 <= k < samples.len() && 0 <= p < samples[k].len() && (#[trigger] heading_name(
            samples[k][p],
        )) is Some
}

/// The suggested account column: `ACCOUNT_HEADING` when sampled rows hold account headings in
/// the description column (the first column when there is none), otherwise the first
/// header that names an account, or the empty text.
pub open spec fn suggested_account_column(
    headers: Seq<Seq<char>>,
    samples: Seq<Seq<Seq<char>>>,
    description: Seq<char>,
) -> Seq<char> {
    let p = match position_from(headers, description, 0) {
        Some(i) => i,
        None => 0,
    };
    if has_heading_rows(samples, p) {
        "FROM_HEADING_ROW"@
    } else {
        first_header_where(headers, |h: Seq<char>| account_header(h))
    }
}

/// The date order and label texts of `options`.
pub open spec fn format_options(options: Seq<DateFormatOption>) -> Seq<(Seq<char>, Seq<char>)> {
    options.map_values(|o: DateFormatOption| (o.value@, o.label@))
}

/// `r` holds the suggestions for the header row `headers` and the sampled rows `samples`.
pub open spec fn suggests(r: ColumnSuggestions, headers: Seq<Seq<char>>, samples: Seq<Seq<Seq<char>>>) -> bool {
    let (date, description) = date_columns(headers, samples);
    &&& r.date_column@ == date
    &&& r.description_column@ == description
    &&& r.category_column@ == header_mentioning(headers, category_words())
    &&& r.expense_column@ == header_mentioning(headers, expense_words())
    &&& r.income_column@ == header_mentioning(headers, income_words())
    &&& r.account_column@ == suggested_account_column(headers, samples, description)
    &&& format_options(r.date_formats@) == suggested_formats(headers, samples, date)
}

fn values_in_column(samples: &Vec<Vec<String>>, index: usize) -> (r: Vec<String>)
    ensures
        texts(r@) == column_values(rows_texts(samples@), index as int),
{
    let ghost ss = rows_texts(samples@);
    let mut r: Vec<String> = Vec::new();
    let mut k: usize = 0;
    while k < samples.len()
        invariant
            k <= samples@.len(),
            ss == rows_texts(samples@),
            texts(r@) == column_values(ss.subrange(0, k as int), index as int),
        decreases samples@.len() - k,
    {
        let ghost before = r@;
        assert(ss.subrange(0, k + 1).drop_last() =~= ss.subrange(0, k as int));
        if index < samples[k].len() {
            let v = samples[k][index].clone();
            r.push(v);
            assert(texts(r@) =~= texts(before).push(v@));
        }
        k = k + 1;
    }
    assert(ss.subrange(0, ss.len() as int) =~= ss);
    r
}

fn all_values_read_as(values: &Vec<String>, order: &str) -> (b: bool)
    ensures
        b == all_read_as(texts(values@), order@),
{
    let mut i: usize = 0;
    while i < values.len()
        invariant
            i <= values@.len(),
            forall|j: int|
                0 <= j < i ==> (#[trigger] normalized_date(texts(values@)[j], Some(order@))) is Ok,
        decreases values@.len() - i,
    {
        let r = parse_date(values[i].as_str(), Some(order));
        if r.is_err() {
            assert(!(normalized_date(texts(values@)[i as int], Some(order@)) is Ok));
            return false;
        }
        i = i + 1;
    }
    true
}

fn date_format_options(headers: &Vec<String>, samples: &Vec<Vec<String>>, date_column: &String) -> (r: Vec<
    DateFormatOption,
>)
    ensures
        format_options(r@) == suggested_formats(texts(headers@), rows_texts(samples@), date_column@),
{
    let dc = chars_of(date_column.as_str());
    if dc.len() == 0 {
        let r: Vec<DateFormatOption> = Vec::new();
        assert(format_options(r@) =~= Seq::empty());
        return r;
    }
    let index = match position_of(headers, date_column) {
        Some(i) => i,
        None => {
            let r: Vec<DateFormatOption> = Vec::new();
            assert(format_options(r@) =~= Seq::empty());
            return r;
        },
    };
    let values = values_in_column(samples, index);
    let orders: [&str; 4] = ["ymd", "ydm", "dmy", "mdy"];
    let labels: [&str; 4] = ["YYYY-MM-DD", "YYYY-DD-MM", "DD.MM.YYYY", "MM.DD.YYYY"];
    let ghost all_orders = date_orders();
    let ghost vals = texts(values@);
    let mut matching: Vec<DateFormatOption> = Vec::new();
    let mut k: usize = 0;
    while k < 4
        invariant
            k <= 4,
            all_orders == date_orders(),
            vals == texts(values@),
            orders@.len() == 4,
            labels@.len() == 4,
            forall|j: int| 0 <= j < 4 ==> (#[trigger] orders@[j])@ == all_orders[j].0,
            forall|j: int| 0 <= j < 4 ==> (#[trigger] labels@[j])@ == all_orders[j].1,
            format_options(matching@) == fitting_orders(all_orders.subrange(0, k as int), vals),
        decreases 4 - k,
    {
        let ghost before = matching@;
        assert(all_orders.subrange(0, k + 1).drop_last() =~= all_orders.subrange(0, k as int));
        if all_values_read_as(&values, orders[k]) {
            let option = DateFormatOption { value: owned(orders[k]), label: owned(labels[k]) };
            matching.push(option);
            assert(format_options(matching@) =~= format_options(before).push(all_orders[k as int]));
        }
        k = k + 1;
    }
    assert(all_orders.subrange(0, 4) =~= all_orders);
    if matching.len() > 1 {
        matching
    } else {
        let r: Vec<DateFormatOption> = Vec::new();
        assert(format_options(r@) =~= Seq::empty());
        r
    }
}


fn is_account_header(h: &String) -> (b: bool)
    ensures
        b == account_header(h@),
{
    let lc = to_lowercase(h.as_str());
    (contains(lc.as_str(), "account") || crate::text::text_eq(lc.as_str(), "konto")) && !contains(
        lc.as_str(),
        "inn ",
    ) && !contains(lc.as_str(), "ut ")
}

fn first_account_header(headers: &Vec<String>) -> (r: String)
    ensures
        r@ == first_header_where(texts(headers@), |h: Seq<char>| account_header(h)),
{
    let ghost hs = texts(headers@);
    let ghost p = |h: Seq<char>| account_header(h);
    let mut i: usize = 0;
    assert(hs.subrange(0, hs.len() as int) =~= hs);
    while i < headers.len()
        invariant
            i <= headers@.len(),
            hs == texts(headers@),
            p == (|h: Seq<char>| account_header(h)),
            first_header_where(hs.subrange(i as int, hs.len() as int), p) == first_header_where(
                hs,
                p,
            ),
        decreases headers@.len() - i,
    {
        proof {
            lemma_first_header_step(hs, p, i as int);
        }
        if is_account_header(&headers[i]) {
            return headers[i].clone();
        }
        i = i + 1;
    }
    assert(hs.subrange(hs.len() as int, hs.len() as int) =~= Seq::<Seq<char>>::empty());
    empty_text()
}

fn account_column(headers: &Vec<String>, samples: &Vec<Vec<String>>, description: &String) -> (r: String)
    ensures
        r@ == suggested_account_column(texts(headers@), rows_texts(samples@), description@),
{
    let ghost ss = rows_texts(samples@);
    let p = match position_of(headers, description) {
        Some(i) => i,
        None => 0,
    };
    let mut k: usize = 0;
    while k < samples.len()
        invariant
            k <= samples@.len(),
            ss == rows_texts(samples@),
            p as int == (match position_from(texts(headers@), description@, 0) {
                Some(i) => i,
                None => 0,
            }),
            forall|j: int|
                0 <= j < k ==> !(0 <= p < ss[j].len() && (#[trigger] heading_name(ss[j][p as int]))
                    is Some),
        decreases samples@.len() - k,
    {
        if p < samples[k].len() && is_account_heading(samples[k][p].as_str()) {
            assert(ss[k as int][p as int] == samples@[k as int]@[p as int]@);
            return owned("FROM_HEADING_ROW");
        }
        k = k + 1;
    }
    assert(!has_heading_rows(ss, p as int));
    first_account_header(headers)
}

proof fn lemma_first_header_is(headers: Seq<Seq<char>>, p: spec_fn(Seq<char>) -> bool, j: int)
    requires
        0 <= j < headers.len(),
        p(headers[j]),
        forall|i: int| 0 <= i < j ==> !p(#[trigger] headers[i]),
    ensures
        first_header_where(headers, p) == headers[j],
    decreases j,
{
    if j > 0 {
        assert(!p(headers[0]));
        let t = headers.drop_first();
        assert forall|i: int| 0 <= i < j - 1 implies !p(#[trigger] t[i]) by {
            assert(t[i] == headers[i + 1]);
        }
        lemma_first_header_is(t, p, j - 1);
    }
}

/// The lower case of `h` holds `w`.
pub open spec fn names_word(h: Seq<char>, w: Seq<char>) -> bool {
    contains_text(lowercase(h), w)
}

/// `h` names an income word: income, credit, deposit or inn.
pub open spec fn names_income(h: Seq<char>) -> bool {
    names_word(h, "income"@) || names_word(h, "credit"@) || names_word(h, "deposit"@) || names_word(h, "inn"@)
}

/// `h` names an expense word: expense, debit, kostnad, withdrawal, ut or 金額.
pub open spec fn names_expense(h: Seq<char>) -> bool {
    names_word(h, "expense"@) || names_word(h, "debit"@) || names_word(h, "kostnad"@) || names_word(
        h,
        "withdrawal"@,
    ) || names_word(h, "ut"@) || names_word(h, "金額"@)
}

/// `h` names a category word: category or kategori.
pub open spec fn names_category(h: Seq<char>) -> bool {
    names_word(h, "category"@) || names_word(h, "kategori"@)
}

/// The first header that names an income word (income, credit, deposit, inn, in lower case)
/// is suggested as the income column, the first that names an expense word (expense, debit,
/// kostnad, withdrawal, ut, 金額) as the expense column, and the first that names a category
/// word (category, kategori) as the category column.
pub proof fn lemma_amount_and_category_columns_suggested(
    r: ColumnSuggestions,
    headers: Seq<Seq<char>>,
    samples: Seq<Seq<Seq<char>>>,
    j: int,
)
    requires
        suggests(r, headers, samples),
        0 <= j < headers.len(),
    ensures
        names_income(headers[j]) && (forall|i: int| 0 <= i < j ==> !names_income(#[trigger] headers[i]))
            ==> r.income_column@ == headers[j],
        names_expense(headers[j]) && (forall|i: int| 0 <= i < j ==> !names_expense(#[trigger] headers[i]))
            ==> r.expense_column@ == headers[j],
        names_category(headers[j]) && (forall|i: int| 0 <= i < j ==> !names_category(#[trigger] headers[i]))
            ==> r.category_column@ == headers[j],
{
    let iw = income_words();
    let ew = expense_words();
    let cw = category_words();
    assert forall|h: Seq<char>| #[trigger] mentions_any(h, iw) == names_income(h) by {
        if names_income(h) {
            if names_word(h, "income"@) { assert(contains_text(lowercase(h), iw[0])); }
            else if names_word(h, "credit"@) { assert(contains_text(lowercase(h), iw[1])); }
            else if names_word(h, "deposit"@) { assert(contains_text(lowercase(h), iw[2])); }
            else { assert(contains_text(lowercase(h), iw[3])); }
        }
    }
    assert forall|h: Seq<char>| #[trigger] mentions_any(h, ew) == names_expense(h) by {
        if names_expense(h) {
            if names_word(h, "expense"@) { assert(contains_text(lowercase(h), ew[0])); }
            else if names_word(h, "debit"@) { assert(contains_text(lowercase(h), ew[1])); }
            else if names_word(h, "kostnad"@) { assert(contains_text(lowercase(h), ew[2])); }
            else if names_word(h, "withdrawal"@) { assert(contains_text(lowercase(h), ew[3])); }
            else if names_word(h, "ut"@) { assert(contains_text(lowercase(h), ew[4])); }
            else { assert(contains_text(lowercase(h), ew[5])); }
        }
    }
    assert forall|h: Seq<char>| #[trigger] mentions_any(h, cw) == names_category(h) by {
        if names_category(h) {
            if names_word(h, "category"@) { assert(contains_text(lowercase(h), cw[0])); }
            else { assert(contains_text(lowercase(h), cw[1])); }
        }
    }
    if names_income(headers[j]) && (forall|i: int| 0 <= i < j ==> !names_income(#[trigger] headers[i])) {
        lemma_first_header_is(headers, |h: Seq<char>| mentions_any(h, iw), j);
    }
    if names_expense(headers[j]) && (forall|i: int| 0 <= i < j ==> !names_expense(#[trigger] headers[i])) {
        lemma_first_header_is(headers, |h: Seq<char>| mentions_any(h, ew), j);
    }
    if names_category(headers[j]) && (forall|i: int| 0 <= i < j ==> !names_category(#[trigger] headers[i])) {
        lemma_first_header_is(headers, |h: Seq<char>| mentions_any(h, cw), j);
    }
}

/// Suggests how the columns map onto transactions, from the header row and some sampled rows
/// of a statement (see `suggests`).
pub fn suggest_from_table(headers: &Vec<String>, samples: &Vec<Vec<String>>) -> (r: ColumnSuggestions)
    requires
        forall|k: int| 0 <= k < samples@.len() ==> #[trigger] samples@[k]@.len() <= headers@.len(),
    ensures
        suggests(r, texts(headers@), rows_texts(samples@)),
{
    let category = word_list(&["category", "kategori"]);
    let expense = word_list(&["expense", "debit", "kostnad", "withdrawal", "ut", "金額"]);
    let income = word_list(&["income", "credit", "deposit", "inn"]);
    assert(char_runs(category@) =~= category_words());
    assert(char_runs(expense@) =~= expense_words());
    assert(char_runs(income@) =~= income_words());
    let (date_column, description_column) = date_and_description(headers, samples);
    let date_formats = date_format_options(headers, samples, &date_column);
    let account_column = account_column(headers, samples, &description_column);
    ColumnSuggestions {
        category_column: header_mentioning_any(headers, &category),
        expense_column: header_mentioning_any(headers, &expense),
        income_column: header_mentioning_any(headers, &income),
        account_column,
        date_column,
        date_formats,
        description_column,
    }
}

/// The readable rows of `rows`, in order.
pub open spec fn readable_rows(rows: Seq<Result<Seq<Seq<char>>, Seq<char>>>) -> Seq<Seq<Seq<char>>>
    decreases rows.len(),
{
    if rows.len() == 0 {
        Seq::empty()
    } else {
        let init = readable_rows(rows.drop_last());
        match rows.last() {
            Ok(f) => init.push(f),
            Err(_) => init,
        }
    }
}

/// The rows the suggestions look at: the readable ones among the first 25.
pub open spec fn sample_rows(rows: Seq<Result<Seq<Seq<char>>, Seq<char>>>) -> Seq<Seq<Seq<char>>> {
    readable_rows(rows.subrange(0, if rows.len() < 25 { rows.len() as int } else { 25 }))
}

/// The header row and the sampled rows of the transaction table of the CSV file `bytes`, or
/// the error that stops reading them.
pub open spec fn statement_sample(bytes: Seq<u8>) -> Result<(Seq<Seq<char>>, Seq<Seq<Seq<char>>>), Seq<char>> {
    match crate::model::csv_file::csv_source_text(bytes) {
        Err(e) => Err(e),
        Ok(text) => match statement_table(bytes, detected_delimiter(text)) {
            Err(e) => Err(e),
            Ok((header, rows)) => match header {
                Err(e) => Err(e),
                Ok(h) => Ok((h, sample_rows(rows))),
            },
        },
    }
}

/// Every sampled row is at most as wide as the header row.
pub open spec fn fits_header(headers: Seq<Seq<char>>, samples: Seq<Seq<Seq<char>>>) -> bool {
    forall|k: int| 0 <= k < samples.len() ==> #[trigger] samples[k].len() <= headers.len()
}

fn sample_of(rows: &Vec<Result<Vec<String>, String>>) -> (r: Vec<Vec<String>>)
    ensures
        rows_texts(r@) == sample_rows(rows_view(rows@)),
{
    let ghost all = rows_view(rows@);
    let n: usize = if rows.len() < 25 {
        rows.len()
    } else {
        25
    };
    let mut r: Vec<Vec<String>> = Vec::new();
    let mut i: usize = 0;
    while i < n
        invariant
            i <= n <= rows@.len(),
            n == (if rows@.len() < 25 { rows@.len() as int } else { 25 }),
            all == rows_view(rows@),
            rows_texts(r@) == readable_rows(all.subrange(0, i as int)),
        decreases n - i,
    {
        let ghost before = r@;
        assert(all.subrange(0, i + 1).drop_last() =~= all.subrange(0, i as int));
        match &rows[i] {
            Ok(fields) => {
                let copy = copy_fields(fields);
                r.push(copy);
                assert(rows_texts(r@) =~= rows_texts(before).push(texts(fields@)));
            },
            Err(_) => {},
        }
        i = i + 1;
    }
    r
}

fn copy_fields(v: &Vec<String>) -> (r: Vec<String>)
    ensures
        texts(r@) == texts(v@),
        r@.len() == v@.len(),
{
    let mut r: Vec<String> = Vec::new();
    let mut i: usize = 0;
    while i < v.len()
        invariant
            i <= v@.len(),
            r@.len() == i,
            forall|k: int| 0 <= k < i ==> #[trigger] r@[k]@ == v@[k]@,
        decreases v@.len() - i,
    {
        let c = v[i].clone();
        r.push(c);
        i = i + 1;
    }
    assert(texts(r@) =~= texts(v@));
    r
}

fn rows_fit(samples: &Vec<Vec<String>>, width: usize) -> (b: bool)
    ensures
        b == (forall|k: int| 0 <= k < samples@.len() ==> #[trigger] samples@[k]@.len() <= width),
{
    let mut k: usize = 0;
    while k < samples.len()
        invariant
            k <= samples@.len(),
            forall|j: int| 0 <= j < k ==> #[trigger] samples@[j]@.len() <= width,
        decreases samples@.len() - k,
    {
        if samples[k].len() > width {
            return false;
        }
        k = k + 1;
    }
    true
}

/// Suggests how the columns of the CSV file `bytes` map onto transactions, from its header row
/// and the readable rows among the first 25 of its transaction table (see `suggests`).
pub fn suggest_columns(bytes: &[u8]) -> (r: Result<ColumnSuggestions, String>)
    ensures
        match statement_sample(bytes@) {
            Err(e) => r matches Err(m) && m@ == e,
            Ok((h, samples)) => if fits_header(h, samples) {
                r matches Ok(s) && suggests(s, h, samples)
            } else {
                r matches Err(m) && m@ == "CSV rows are wider than the header row"@
            },
        },
{
    let delimiter = detect_delimiter(bytes)?;
    let table = csv_reader(bytes, delimiter)?;
    let headers = match table.headers {
        Ok(h) => h,
        Err(e) => {
            return Err(e);
        },
    };
    let samples = sample_of(&table.rows);
    if !rows_fit(&samples, headers.len()) {
        proof {
            let k = choose|k: int| 0 <= k < samples@.len() && #[trigger] samples@[k]@.len() > headers@.len();
            assert(rows_texts(samples@)[k].len() > texts(headers@).len());
        }
        return Err(owned("CSV rows are wider than the header row"));
    }
    assert(forall|k: int| 0 <= k < samples@.len() ==> rows_texts(samples@)[k].len() == (
    #[trigger] samples@[k])@.len());
    Ok(suggest_from_table(&headers, &samples))
}


/// How the columns of an uploaded statement map onto transactions, as the user chose it,
/// with the header row of the statement.
#[derive(Debug)]
pub struct ColumnMapping {
    pub csrf_token: String,
    pub file_id: String,
    pub date_column: String,
    pub date_format: Option<String>,
    pub income_column: String,
    pub expense_column: String,
    pub description_column: String,
    pub account_column: Option<String>,
    pub account_fixed_name: Option<String>,
    pub category_column: Option<String>,
    pub currency_multiplier: Option<String>,
    /// The header row of the statement; a column is found by its header, the last one of
    /// that name when several columns share it.
    pub headers: Vec<String>,
}

/// The index of the last of `headers` that equals `name`.
pub open spec fn last_index_of(headers: Seq<Seq<char>>, name: Seq<char>) -> Option<int>
    decreases headers.len(),
{
    if headers.len() == 0 {
        None
    } else if headers.last() == name {
        Some(headers.len() - 1)
    } else {
        last_index_of(headers.drop_last(), name)
    }
}

proof fn lemma_last_index_bound(headers: Seq<Seq<char>>, name: Seq<char>)
    ensures
        last_index_of(headers, name) matches Some(i) ==> 0 <= i < headers.len(),
    decreases headers.len(),
{
    if headers.len() > 0 {
        lemma_last_index_bound(headers.drop_last(), name);
    }
}

/// The value of the column headed `column` (trimmed) in `record`.
pub open spec fn column_value(headers: Seq<Seq<char>>, record: Seq<Seq<char>>, column: Seq<char>) -> Result<
    Seq<char>,
    Seq<char>,
> {
    let c = trimmed(column);
    let not_found = "Column "@ + c + " not found"@;
    if c.len() == 0 {
        Err("No CSV column selected"@)
    } else {
        match last_index_of(headers, c) {
            Some(i) => if i < record.len() {
                Ok(record[i])
            } else {
                Err(not_found)
            },
            None => Err(not_found),
        }
    }
}

/// The trimmed value of the optional column `column` in `record`, when the column is chosen,
/// found and not blank.
pub open spec fn optional_column_value(
    headers: Seq<Seq<char>>,
    record: Seq<Seq<char>>,
    column: Option<Seq<char>>,
) -> Option<Seq<char>> {
    match column {
        None => None,
        Some(c) => match column_value(headers, record, c) {
            Err(_) => None,
            Ok(v) => if trimmed(v).len() == 0 {
                None
            } else {
                Some(trimmed(v))
            },
        },
    }
}

/// The texts of an optional string.
pub open spec fn opt_text(o: Option<String>) -> Option<Seq<char>> {
    match o {
        Some(s) => Some(s@),
        None => None,
    }
}

pub(crate) fn find_last(headers: &Vec<String>, name: &[char]) -> (r: Option<usize>)
    ensures
        r is None <==> last_index_of(texts(headers@), name@) is None,
        r matches Some(i) ==> last_index_of(texts(headers@), name@) == Some(i as int),
{
    let ghost hs = texts(headers@);
    let mut k: usize = headers.len();
    assert(hs.subrange(0, hs.len() as int) =~= hs);
    while k > 0
        invariant
            k <= headers@.len(),
            hs == texts(headers@),
            last_index_of(hs, name@) == last_index_of(hs.subrange(0, k as int), name@),
        decreases k,
    {
        let ghost pre = hs.subrange(0, k as int);
        assert(pre.drop_last() =~= hs.subrange(0, k - 1));
        let h = chars_of(headers[k - 1].as_str());
        if chars_eq(h.as_slice(), name) {
            return Some(k - 1);
        }
        k = k - 1;
    }
    None
}

impl ColumnMapping {
    /// The mapping with the header row `headers` of the statement it applies to.
    pub fn with_header_map(self, headers: Vec<String>) -> (r: Self)
        ensures
            r.headers == headers,
            r.date_column == self.date_column,
            r.date_format == self.date_format,
            r.income_column == self.income_column,
            r.expense_column == self.expense_column,
            r.description_column == self.description_column,
            r.account_column == self.account_column,
            r.account_fixed_name == self.account_fixed_name,
            r.category_column == self.category_column,
            r.currency_multiplier == self.currency_multiplier,
            r.file_id == self.file_id,
            r.csrf_token == self.csrf_token,
    {
        ColumnMapping { headers, ..self }
    }

    /// The value of the column headed `column` in `record` (see `column_value`).
    pub fn value(&self, record: &Vec<String>, column: &str) -> (r: Result<String, String>)
        ensures
            result_text(r) == column_value(texts(self.headers@), texts(record@), column@),
    {
        let raw = chars_of(column);
        let c = trim_chars(raw.as_slice());
        if c.len() == 0 {
            return Err(owned("No CSV column selected"));
        }
        match find_last(&self.headers, c.as_slice()) {
            Some(i) => {
                proof {
                    lemma_last_index_bound(texts(self.headers@), c@);
                }
                if i < record.len() {
                    return Ok(record[i].clone());
                }
            },
            None => {},
        }
        let mut m = chars_of("Column ");
        push_all(&mut m, c.as_slice());
        crate::text::push_str(&mut m, " not found");
        Err(text_of(m.as_slice()))
    }

    /// The trimmed value of an optional column (see `optional_column_value`).
    pub fn optional_value(&self, record: &Vec<String>, column: Option<&str>) -> (r: Option<String>)
        ensures
            opt_text(r) == optional_column_value(texts(self.headers@), texts(record@), column.deep_view()),
    {
        let c = match column {
            Some(c) => c,
            None => {
                return None;
            },
        };
        match self.value(record, c) {
            Err(_) => None,
            Ok(v) => {
                let t = crate::text::trimmed_text(&v);
                if chars_of(t.as_str()).len() == 0 {
                    None
                } else {
                    Some(t)
                }
            },
        }
    }

    /// Checks that a date, a description and at least one amount column are chosen.
    pub fn check_required(&self) -> (r: Result<(), String>)
        ensures
            r is Ok <==> (trimmed(self.date_column@).len() > 0 && trimmed(self.description_column@).len() > 0
                && (trimmed(self.income_column@).len() > 0 || trimmed(self.expense_column@).len() > 0)),
            r matches Err(e) ==> e@ == "Date, description, and at least one amount column are required"@,
    {
        let blank_date = chars_of(crate::text::trimmed_text(&self.date_column).as_str()).len() == 0;
        let blank_description = chars_of(crate::text::trimmed_text(&self.description_column).as_str()).len() == 0;
        let blank_income = chars_of(crate::text::trimmed_text(&self.income_column).as_str()).len() == 0;
        let blank_expense = chars_of(crate::text::trimmed_text(&self.expense_column).as_str()).len() == 0;
        if blank_date || blank_description || (blank_income && blank_expense) {
            return Err(owned("Date, description, and at least one amount column are required"));
        }
        Ok(())
    }
}


/// What a statement row holds for a transaction before accounts and categories are looked
/// up: the date, the description, and the account and category names, if any.
#[derive(Debug)]
pub struct RowPlan {
    pub date: String,
    pub description: String,
    pub account_name: Option<String>,
    pub category_name: Option<String>,
}

/// The explicit date order of a mapping: none when it is unset or empty.
pub open spec fn chosen_order(mapping: ColumnMapping) -> Option<Seq<char>> {
    match mapping.date_format {
        Some(f) => if f@.len() > 0 {
            Some(f@)
        } else {
            None
        },
        None => None,
    }
}

/// The account name of a row: the current account heading, else the account column's value,
/// else the fixed account name of the mapping (trimmed, when not blank).
pub open spec fn row_account_name(
    mapping: ColumnMapping,
    record: Seq<Seq<char>>,
    heading: Option<Seq<char>>,
) -> Option<Seq<char>> {
    match heading {
        Some(h) => Some(h),
        None => match optional_column_value(texts(mapping.headers@), record, opt_text(mapping.account_column)) {
            Some(a) => Some(a),
            None => match mapping.account_fixed_name {
                Some(f) => if trimmed(f@).len() > 0 {
                    Some(trimmed(f@))
                } else {
                    None
                },
                None => None,
            },
        },
    }
}

/// What a statement row holds for a transaction, or why it cannot be imported: the date
/// column must read as a date, and the description must not be blank.
pub open spec fn row_plan(mapping: ColumnMapping, record: Seq<Seq<char>>, heading: Option<Seq<char>>) -> Result<
    (Seq<char>, Seq<char>, Option<Seq<char>>, Option<Seq<char>>),
    Seq<char>,
> {
    let hs = texts(mapping.headers@);
    match column_value(hs, record, mapping.date_column@) {
        Err(e) => Err(e),
        Ok(d) => match normalized_date(d, chosen_order(mapping)) {
            Err(e) => Err(e),
            Ok(date) => match column_value(hs, record, mapping.description_column@) {
                Err(e) => Err(e),
                Ok(desc) => if trimmed(desc).len() == 0 {
                    Err("Description is empty"@)
                } else {
                    Ok(
                        (
                            date,
                            trimmed(desc),
                            row_account_name(mapping, record, heading),
                            optional_column_value(hs, record, opt_text(mapping.category_column)),
                        ),
                    )
                },
            },
        },
    }
}

/// The texts of a row plan.
pub open spec fn plan_view(p: RowPlan) -> (Seq<char>, Seq<char>, Option<Seq<char>>, Option<Seq<char>>) {
    (p.date@, p.description@, opt_text(p.account_name), opt_text(p.category_name))
}

impl ColumnMapping {
    /// What the statement row `record` holds for a transaction (see `row_plan`), with the
    /// account heading in force, if any.
    pub fn plan_row(&self, record: &Vec<String>, account_heading: Option<&str>) -> (r: Result<RowPlan, String>)
        ensures
            match row_plan(*self, texts(record@), account_heading.deep_view()) {
                Ok(p) => r matches Ok(plan) && plan_view(plan) == p,
                Err(e) => r matches Err(m) && m@ == e,
            },
    {
        let date_text = self.value(record, self.date_column.as_str())?;
        let format: Option<&str> = match &self.date_format {
            Some(f) => if chars_of(f.as_str()).len() > 0 {
                Some(f.as_str())
            } else {
                None
            },
            None => None,
        };
        assert(format.deep_view() == chosen_order(*self));
        let date = normalize_date(date_text.as_str(), format)?;
        let description_text = self.value(record, self.description_column.as_str())?;
        let description = crate::text::trimmed_text(&description_text);
        if chars_of(description.as_str()).len() == 0 {
            return Err(owned("Description is empty"));
        }
        let account_name = match account_heading {
            Some(h) => Some(owned(h)),
            None => {
                let column: Option<&str> = match &self.account_column {
                    Some(c) => Some(c.as_str()),
                    None => None,
                };
                match self.optional_value(record, column) {
                    Some(a) => Some(a),
                    None => match &self.account_fixed_name {
                        Some(f) => {
                            let t = crate::text::trimmed_text(f);
                            if chars_of(t.as_str()).len() > 0 {
                                Some(t)
                            } else {
                                None
                            }
                        },
                        None => None,
                    },
                }
            },
        };
        let category_column: Option<&str> = match &self.category_column {
            Some(c) => Some(c.as_str()),
            None => None,
        };
        let category_name = self.optional_value(record, category_column);
        Ok(RowPlan { date, description, account_name, category_name })
    }
}

/// `rule` matches a transaction: its description pattern occurs in the description, or its
/// account pattern occurs in the account name, ignoring case.
pub open spec fn rule_matches(rule: ImportRule, description: Seq<char>, account_name: Option<Seq<char>>) -> bool {
    ||| (match rule.match_description {
        Some(n) => contains_text(lowercase(description), lowercase(n@)),
        None => false,
    })
    ||| (match (rule.match_account, account_name) {
        (Some(n), Some(a)) => contains_text(lowercase(a), lowercase(n@)),
        _ => false,
    })
}

/// The account and category of a transaction after `rules` are applied in order: each
/// matching rule fills in its account when none is set yet (0) and its category when none is
/// set yet.
pub open spec fn ruled_ids(
    rules: Seq<ImportRule>,
    description: Seq<char>,
    account_name: Option<Seq<char>>,
    account_id: i64,
    category_id: Option<i64>,
) -> (i64, Option<i64>)
    decreases rules.len(),
{
    if rules.len() == 0 {
        (account_id, category_id)
    } else {
        let (a, c) = ruled_ids(rules.drop_last(), description, account_name, account_id, category_id);
        let rule = rules.last();
        if rule_matches(rule, description, account_name) {
            (
                if a == 0 {
                    match rule.account_id {
                        Some(x) => x,
                        None => 0,
                    }
                } else {
                    a
                },
                if c is None {
                    rule.category_id
                } else {
                    c
                },
            )
        } else {
            (a, c)
        }
    }
}

/// Rules never replace what the statement itself set: an account or category that a
/// transaction already has stays.
pub proof fn lemma_rules_keep_statement_values(
    rules: Seq<ImportRule>,
    description: Seq<char>,
    account_name: Option<Seq<char>>,
    account_id: i64,
    category_id: Option<i64>,
)
    ensures
        account_id != 0 ==> ruled_ids(rules, description, account_name, account_id, category_id).0 == account_id,
        category_id is Some ==> ruled_ids(rules, description, account_name, account_id, category_id).1 == category_id,
    decreases rules.len(),
{
    if rules.len() > 0 {
        lemma_rules_keep_statement_values(rules.drop_last(), description, account_name, account_id, category_id);
    }
}

/// The pattern `n` occurs in `text`, ignoring case.
pub open spec fn occurs_ignoring_case(text: Seq<char>, n: Seq<char>) -> bool {
    contains_text(lowercase(text), lowercase(n))
}

/// A rule whose description pattern occurs in the description, or whose account pattern
/// occurs in the account name (ignoring case), fills in what the transaction lacks: a
/// transaction without a category gets a category when the rule has one, and one without an
/// account gets an account when the rule names one.
pub proof fn lemma_matching_rule_fills_in(
    rules: Seq<ImportRule>,
    description: Seq<char>,
    account_name: Option<Seq<char>>,
    account_id: i64,
    category_id: Option<i64>,
    k: int,
)
    requires
        0 <= k < rules.len(),
        (rules[k].match_description matches Some(n) && occurs_ignoring_case(description, n@))
            || (rules[k].match_account matches Some(n) && account_name matches Some(a)
            && occurs_ignoring_case(a, n@)),
    ensures
        category_id is None && rules[k].category_id is Some ==> ruled_ids(
            rules,
            description,
            account_name,
            account_id,
            category_id,
        ).1 is Some,
        account_id == 0 && (rules[k].account_id matches Some(x) && x != 0) ==> ruled_ids(
            rules,
            description,
            account_name,
            account_id,
            category_id,
        ).0 != 0,
    decreases rules.len(),
{
    if k < rules.len() - 1 {
        lemma_matching_rule_fills_in(rules.drop_last(), description, account_name, account_id, category_id, k);
        assert(rules.drop_last()[k] == rules[k]);
    } else {
        assert(rule_matches(rules[k], description, account_name));
    }
}

/// A single rule whose account pattern occurs in the account name (ignoring case) gives a
/// transaction without a category the rule's category, whatever the description.
pub proof fn lemma_account_pattern_gives_category(
    rule: ImportRule,
    description: Seq<char>,
    account_name: Seq<char>,
    account_id: i64,
)
    requires
        rule.match_account matches Some(n) && occurs_ignoring_case(account_name, n@),
    ensures
        ruled_ids(seq![rule], description, Some(account_name), account_id, None).1 == rule.category_id,
{
    let e = Seq::<ImportRule>::empty();
    assert(seq![rule].drop_last() =~= e);
    assert(ruled_ids(e, description, Some(account_name), account_id, None) == (account_id, None::<i64>));
    assert(rule_matches(rule, description, Some(account_name)));
}

fn rule_applies(rule: &ImportRule, description: &str, account_name: Option<&str>) -> (b: bool)
    ensures
        b == rule_matches(*rule, description@, account_name.deep_view()),
{
    let by_description = match &rule.match_description {
        Some(n) => {
            let d = to_lowercase(description);
            let l = to_lowercase(n.as_str());
            contains(d.as_str(), l.as_str())
        },
        None => false,
    };
    let by_account = match (&rule.match_account, account_name) {
        (Some(n), Some(a)) => {
            let x = to_lowercase(a);
            let l = to_lowercase(n.as_str());
            contains(x.as_str(), l.as_str())
        },
        _ => false,
    };
    by_description || by_account
}

/// Applies the import rules `rules` to a transaction (see `ruled_ids`).
pub fn apply_import_rules(
    rules: &Vec<ImportRule>,
    description: &str,
    account_name: Option<&str>,
    account_id: i64,
    category_id: Option<i64>,
) -> (r: (i64, Option<i64>))
    ensures
        r == ruled_ids(rules@, description@, account_name.deep_view(), account_id, category_id),
        account_id != 0 ==> r.0 == account_id,
        category_id is Some ==> r.1 == category_id,
{
    proof {
        lemma_rules_keep_statement_values(rules@, description@, account_name.deep_view(), account_id, category_id);
    }
    let mut a = account_id;
    let mut c = category_id;
    let mut k: usize = 0;
    while k < rules.len()
        invariant
            k <= rules@.len(),
            (a, c) == ruled_ids(rules@.subrange(0, k as int), description@, account_name.deep_view(), account_id, category_id),
        decreases rules@.len() - k,
    {
        assert(rules@.subrange(0, k + 1).drop_last() =~= rules@.subrange(0, k as int));
        let rule = &rules[k];
        if rule_applies(rule, description, account_name) {
            if a == 0 {
                a = match rule.account_id {
                    Some(x) => x,
                    None => 0,
                };
            }
            if c.is_none() {
                c = rule.category_id;
            }
        }
        k = k + 1;
    }
    assert(rules@.subrange(0, rules@.len() as int) =~= rules@);
    (a, c)
}

/// The account of a transaction after the import rules: refused when still none.
pub fn require_account(account_id: i64) -> (r: Result<i64, String>)
    ensures
        account_id != 0 ==> r == Ok::<i64, String>(account_id),
        account_id == 0 ==> (r matches Err(e) && e@ == "No account selected or matched by an import rule"@),
{
    if account_id == 0 {
        return Err(owned("No account selected or matched by an import rule"));
    }
    Ok(account_id)
}


/// Whether money comes in or goes out.
#[derive(Debug, Clone, Copy, PartialEq, Eq, Structural)]
pub enum TransactionKind {
    Income,
    Expense,
}

impl TransactionKind {
    /// The text the kind is stored as.
    pub fn as_str(self) -> (r: &'static str)
        ensures
            r@ == match self {
                TransactionKind::Income => "income"@,
                TransactionKind::Expense => "expense"@,
            },
    {
        match self {
            TransactionKind::Income => "income",
            TransactionKind::Expense => "expense",
        }
    }

    /// The kind of a transaction read from a column of this kind: a negative amount turns
    /// income into an expense and an expense into income.
    pub fn for_amount(self, negative: bool) -> (r: TransactionKind)
        ensures
            !negative ==> r == self,
            negative ==> r != self,
    {
        if !negative {
            self
        } else {
            match self {
                TransactionKind::Income => TransactionKind::Expense,
                TransactionKind::Expense => TransactionKind::Income,
            }
        }
    }
}

/// `s` without thousands separators and dollar signs.
pub open spec fn without_separators(s: Seq<char>) -> Seq<char>
    decreases s.len(),
{
    if s.len() == 0 {
        s
    } else {
        let init = without_separators(s.drop_last());
        if s.last() == ',' || s.last() == '$' {
            init
        } else {
            init.push(s.last())
        }
    }
}

/// The number text of an amount cell: trimmed, without `','` and `'$'`; this is what is read
/// as the amount.
pub fn amount_text(value: &str) -> (r: String)
    ensures
        r@ == without_separators(trimmed(value@)),
        r@ == trimmed(value@).filter(|c: char| kept_in_amount(c)),
{
    proof {
        lemma_amount_text_keeps_the_number(trimmed(value@));
    }
    let raw = chars_of(value);
    let t = trim_chars(raw.as_slice());
    let mut r: Vec<char> = Vec::new();
    let mut i: usize = 0;
    while i < t.len()
        invariant
            i <= t@.len(),
            r@ == without_separators(t@.subrange(0, i as int)),
        decreases t@.len() - i,
    {
        assert(t@.subrange(0, i + 1).drop_last() =~= t@.subrange(0, i as int));
        let c = t[i];
        if c != ',' && c != '$' {
            r.push(c);
        }
        i = i + 1;
    }
    assert(t@.subrange(0, t@.len() as int) =~= t@);
    text_of(r.as_slice())
}

/// Not a separator: anything but `','` and `'$'`.
pub open spec fn kept_in_amount(c: char) -> bool {
    c != ',' && c != '$'
}

/// The number text of an amount keeps every character of the cell except `','` and `'$'`,
/// in order: a decimal point, a sign and every digit stay where they were.
pub proof fn lemma_amount_text_keeps_the_number(s: Seq<char>)
    ensures
        without_separators(s) == s.filter(|c: char| kept_in_amount(c)),
        forall|i: int| 0 <= i < s.len() && s[i] == '.' ==> without_separators(s).contains('.'),
    decreases s.len(),
{
    reveal(Seq::filter);
    if s.len() > 0 {
        lemma_amount_text_keeps_the_number(s.drop_last());
    }
    let f = s.filter(|c: char| kept_in_amount(c));
    assert forall|i: int| 0 <= i < s.len() && s[i] == '.' implies without_separators(s).contains('.') by {
        s.lemma_filter_contains(|c: char| kept_in_amount(c), i);
    }
}

/// An amount cell of a statement row: the kind of its column, its trimmed value and the
/// number text read from it.
#[derive(Debug)]
pub struct AmountCell {
    pub kind: TransactionKind,
    pub raw: String,
    pub number: String,
}

/// The amount cells of a row: the income column's, then the expense column's, each when
/// its value is not blank.
pub open spec fn amount_cells(mapping: ColumnMapping, record: Seq<Seq<char>>) -> Seq<(TransactionKind, Seq<char>)> {
    let hs = texts(mapping.headers@);
    let income = match optional_column_value(hs, record, Some(mapping.income_column@)) {
        Some(v) => seq![(TransactionKind::Income, v)],
        None => Seq::empty(),
    };
    let expense = match optional_column_value(hs, record, Some(mapping.expense_column@)) {
        Some(v) => seq![(TransactionKind::Expense, v)],
        None => Seq::empty(),
    };
    income + expense
}

/// The kinds and values of amount cells.
pub open spec fn cells_view(cells: Seq<AmountCell>) -> Seq<(TransactionKind, Seq<char>)> {
    cells.map_values(|c: AmountCell| (c.kind, c.raw@))
}

impl ColumnMapping {
    /// The amount cells of the statement row `record` (see `amount_cells`).
    pub fn amounts(&self, record: &Vec<String>) -> (r: Vec<AmountCell>)
        ensures
            cells_view(r@) == amount_cells(*self, texts(record@)),
            forall|k: int| 0 <= k < r@.len() ==> (#[trigger] r@[k]).number@ == without_separators(trimmed(r@[k].raw@)),
    {
        let mut cells: Vec<AmountCell> = Vec::new();
        if let Some(raw) = self.optional_value(record, Some(self.income_column.as_str())) {
            let number = amount_text(raw.as_str());
            cells.push(AmountCell { kind: TransactionKind::Income, raw, number });
        }
        let ghost after_income = cells@;
        if let Some(raw) = self.optional_value(record, Some(self.expense_column.as_str())) {
            let number = amount_text(raw.as_str());
            cells.push(AmountCell { kind: TransactionKind::Expense, raw, number });
        }
        assert(cells_view(cells@) =~= amount_cells(*self, texts(record@)));
        cells
    }
}

/// What importing a statement row did.
#[derive(Debug, Clone, Copy, PartialEq, Eq, Structural)]
pub enum ImportRow {
    /// At least one transaction was stored.
    Imported,
    /// Every transaction of the row was stored before.
    Skipped,
    /// The row has no amount.
    NoAmount,
}

impl ImportRow {
    /// The outcome of a row after one of its transactions was offered for storing: stored
    /// makes it imported; a duplicate makes a row without amounts so far skipped.
    pub fn after_insert(self, inserted: bool) -> (r: ImportRow)
        ensures
            inserted ==> r == ImportRow::Imported,
            !inserted && self == ImportRow::NoAmount ==> r == ImportRow::Skipped,
            !inserted && self != ImportRow::NoAmount ==> r == self,
    {
        if inserted {
            ImportRow::Imported
        } else if self == ImportRow::NoAmount {
            ImportRow::Skipped
        } else {
            self
        }
    }
}

/// A row that could not be imported: its number in the file (the header row is row 1), its
/// data and why.
#[derive(Debug)]
pub struct ImportError {
    pub row_number: usize,
    pub row_data: String,
    pub error: String,
}

/// What importing a statement did.
#[derive(Debug)]
pub struct ImportResult {
    pub total_rows: usize,
    pub successful: usize,
    pub skipped: usize,
    pub errors: Vec<ImportError>,
}

impl ImportResult {
    /// Every counted row was imported, skipped or reported as an error.
    pub open spec fn balanced(&self) -> bool {
        self.total_rows == self.successful + self.skipped + self.errors@.len()
    }
}

/// The import of a statement in progress: the counts so far, the account heading in force
/// and how many rows of the table have been read.
#[derive(Debug)]
pub struct ImportProgress {
    pub result: ImportResult,
    pub account_heading: Option<String>,
    pub rows_read: usize,
}

/// The heading that the row `record` sets, when the mapping takes accounts from heading rows
/// and the row's description cell is a heading.
pub open spec fn heading_of_row(mapping: ColumnMapping, record: Seq<Seq<char>>) -> Option<Seq<char>> {
    if opt_text(mapping.account_column) == Some("FROM_HEADING_ROW"@) {
        match column_value(texts(mapping.headers@), record, mapping.description_column@) {
            Ok(v) => heading_name(v),
            Err(_) => None,
        }
    } else {
        None
    }
}

/// The number in the file of the row at `index` among the table's rows: the header row is
/// row 1.
pub open spec fn file_row_number(index: int) -> int {
    index + 2
}

impl ImportProgress {
    /// An import that has seen no row yet.
    pub fn new() -> (r: ImportProgress)
        ensures
            r.result.total_rows == 0,
            r.result.successful == 0,
            r.result.skipped == 0,
            r.result.errors@.len() == 0,
            r.result.balanced(),
            r.account_heading is None,
            r.rows_read == 0,
    {
        ImportProgress {
            result: ImportResult { total_rows: 0, successful: 0, skipped: 0, errors: Vec::new() },
            account_heading: None,
            rows_read: 0,
        }
    }

    fn take_heading(&mut self, mapping: &ColumnMapping, record: &Vec<String>) -> (b: bool)
        ensures
            b == heading_of_row(*mapping, texts(record@)) is Some,
            b ==> opt_text(final(self).account_heading) == heading_of_row(*mapping, texts(record@)),
            !b ==> final(self).account_heading == old(self).account_heading,
            final(self).result == old(self).result,
            final(self).rows_read == old(self).rows_read,
    {
        let from_headings = match &mapping.account_column {
            Some(c) => crate::text::text_eq(c.as_str(), ACCOUNT_HEADING),
            None => false,
        };
        proof {
            reveal_strlit("FROM_HEADING_ROW");
        }
        if !from_headings {
            return false;
        }
        match mapping.value(record, mapping.description_column.as_str()) {
            Ok(v) => match account_heading_name(v.as_str()) {
                Some(name) => {
                    self.account_heading = Some(name);
                    true
                },
                None => false,
            },
            Err(_) => false,
        }
    }

    /// Reads the next row of the table. A row that could not be read is counted as an error
    /// under its number in the file; an account heading (see `heading_of_row`) holds for the
    /// following rows and is not counted; any other row is handed back, to be imported and
    /// then counted by `count_row`.
    pub fn read_row(&mut self, mapping: &ColumnMapping, row: Result<Vec<String>, String>) -> (r: Option<Vec<String>>)
        requires
            old(self).result.balanced(),
            old(self).result.total_rows < usize::MAX,
            old(self).rows_read < usize::MAX - 2,
        ensures
            final(self).rows_read == old(self).rows_read + 1,
            final(self).result.successful == old(self).result.successful,
            final(self).result.skipped == old(self).result.skipped,
            final(self).result.balanced(),
            match row {
                Err(e) => r is None
                    && final(self).result.total_rows == old(self).result.total_rows + 1
                    && final(self).result.errors@.len() == old(self).result.errors@.len() + 1
                    && final(self).result.errors@.subrange(0, old(self).result.errors@.len() as int)
                        == old(self).result.errors@
                    && final(self).result.errors@.last().row_number == file_row_number(old(self).rows_read as int)
                    && final(self).result.errors@.last().row_data@ == "Unable to read row"@
                    && final(self).result.errors@.last().error == e
                    && final(self).account_heading == old(self).account_heading,
                Ok(record) => final(self).result.total_rows == old(self).result.total_rows
                    && final(self).result.errors@ == old(self).result.errors@
                    && match heading_of_row(*mapping, texts(record@)) {
                        Some(h) => r is None && opt_text(final(self).account_heading) == Some(h),
                        None => r == Some(record) && final(self).account_heading == old(self).account_heading,
                    },
            },
    {
        let row_number = self.rows_read + 2;
        self.rows_read = self.rows_read + 1;
        match row {
            Err(error) => {
                self.result.total_rows = self.result.total_rows + 1;
                self.result.errors.push(ImportError { row_number, row_data: owned("Unable to read row"), error });
                None
            },
            Ok(record) => {
                if self.take_heading(mapping, &record) {
                    None
                } else {
                    Some(record)
                }
            },
        }
    }

    /// Counts the row that `read_row` handed back last, with what importing it gave: an
    /// imported or skipped row, or an error, under the row's number in the file, for a row
    /// without amount or one that failed.
    pub fn count_row(&mut self, row_data: String, outcome: Result<ImportRow, String>)
        requires
            old(self).result.balanced(),
            old(self).result.total_rows < usize::MAX,
            1 <= old(self).rows_read < usize::MAX,
        ensures
            final(self).result.total_rows == old(self).result.total_rows + 1,
            final(self).account_heading == old(self).account_heading,
            final(self).rows_read == old(self).rows_read,
            outcome == Ok::<ImportRow, String>(ImportRow::Imported) ==> final(self).result.successful
                == old(self).result.successful + 1 && final(self).result.skipped == old(self).result.skipped
                && final(self).result.errors@ == old(self).result.errors@,
            outcome == Ok::<ImportRow, String>(ImportRow::Skipped) ==> final(self).result.skipped
                == old(self).result.skipped + 1 && final(self).result.successful == old(self).result.successful
                && final(self).result.errors@ == old(self).result.errors@,
            outcome == Ok::<ImportRow, String>(ImportRow::NoAmount) || outcome is Err ==> {
                &&& final(self).result.successful == old(self).result.successful
                &&& final(self).result.skipped == old(self).result.skipped
                &&& final(self).result.errors@.len() == old(self).result.errors@.len() + 1
                &&& final(self).result.errors@.subrange(0, old(self).result.errors@.len() as int)
                    == old(self).result.errors@
                &&& final(self).result.errors@.last().row_number == file_row_number(old(self).rows_read - 1)
                &&& final(self).result.errors@.last().row_data == row_data
            },
            outcome == Ok::<ImportRow, String>(ImportRow::NoAmount) ==> final(self).result.errors@.last().error@
                == "No valid amount found"@,
            outcome is Err ==> Err::<ImportRow, String>(final(self).result.errors@.last().error) == outcome,
            final(self).result.balanced(),
    {
        let row_number = self.rows_read + 1;
        self.result.total_rows = self.result.total_rows + 1;
        match outcome {
            Ok(ImportRow::Imported) => {
                self.result.successful = self.result.successful + 1;
            },
            Ok(ImportRow::Skipped) => {
                self.result.skipped = self.result.skipped + 1;
            },
            Ok(ImportRow::NoAmount) => {
                self.result.errors.push(
                    ImportError { row_number, row_data, error: owned("No valid amount found") },
                );
            },
            Err(error) => {
                self.result.errors.push(ImportError { row_number, row_data, error });
            },
        }
    }
}

/// The header row and rows of the CSV file `bytes` read for an import, or why the import
/// cannot start: a required column is not chosen, or the file cannot be read.
pub open spec fn import_source(bytes: Seq<u8>, mapping: ColumnMapping) -> Result<
    (Seq<Seq<char>>, Seq<Result<Seq<Seq<char>>, Seq<char>>>),
    Seq<char>,
> {
    if !(trimmed(mapping.date_column@).len() > 0 && trimmed(mapping.description_column@).len() > 0
        && (trimmed(mapping.income_column@).len() > 0 || trimmed(mapping.expense_column@).len() > 0)) {
        Err("Date, description, and at least one amount column are required"@)
    } else {
        match crate::model::csv_file::csv_source_text(bytes) {
            Err(e) => Err(e),
            Ok(text) => match statement_table(bytes, detected_delimiter(text)) {
                Err(e) => Err(e),
                Ok((header, rows)) => match header {
                    Err(e) => Err(e),
                    Ok(h) => Ok((h, rows)),
                },
            },
        }
    }
}

/// Starts importing the CSV file `bytes` with `mapping`: checks the mapping, reads the
/// transaction table and gives the mapping its header row, with the rows to import.
pub fn open_import(bytes: &[u8], mapping: ColumnMapping) -> (r: Result<
    (ColumnMapping, Vec<Result<Vec<String>, String>>),
    String,
>)
    ensures
        match import_source(bytes@, mapping) {
            Err(e) => r matches Err(m) && m@ == e,
            Ok((h, rows)) => r matches Ok((m, v)) && texts(m.headers@) == h && rows_view(v@) == rows
                && m.date_column == mapping.date_column && m.date_format == mapping.date_format
                && m.income_column == mapping.income_column && m.expense_column == mapping.expense_column
                && m.description_column == mapping.description_column
                && m.account_column == mapping.account_column
                && m.account_fixed_name == mapping.account_fixed_name
                && m.category_column == mapping.category_column
                && m.currency_multiplier == mapping.currency_multiplier
                && m.file_id == mapping.file_id && m.csrf_token == mapping.csrf_token,
        },
{
    mapping.check_required()?;
    let delimiter = detect_delimiter(bytes)?;
    let table = csv_reader(bytes, delimiter)?;
    let headers = match table.headers {
        Ok(h) => h,
        Err(e) => {
            return Err(e);
        },
    };
    Ok((mapping.with_header_map(headers), table.rows))
}

} // verus!
