//! The dashboard of the single-user edition: its query string, its pages and the conditions it
//! puts on the transactions it lists.

use crate::text::{
    chars_of, owned, parse_i64_text, parsed_i64, push_signed_decimal, push_str, signed_decimal,
    text_eq, text_of, texts, trimmed,
};
use vstd::prelude::*;

verus! {

/// The page asked for when the query names none.
pub fn default_page() -> (r: i64)
    ensures
        r == 1,
{
    1
}

/// The page size asked for when the query names none.
pub fn default_per_page() -> (r: i64)
    ensures
        r == 20,
{
    20
}

/// The page a list shows.
#[derive(Debug, Clone, Copy)]
pub struct PaginationParams {
    pub page: i64,
    pub per_page: i64,
}

impl PaginationParams {
    /// The first page, of the default size.
    pub fn first() -> (r: PaginationParams)
        ensures
            r.page == 1,
            r.per_page == 20,
    {
        PaginationParams { page: default_page(), per_page: default_per_page() }
    }
}

/// The dashboard's query string.
#[derive(Debug, Clone)]
pub struct TransactionFilters {
    pub page: i64,
    pub per_page: i64,
    pub search: Option<String>,
    pub transaction_type: Option<String>,
    pub category_id: Option<String>,
    pub account_id: Option<i64>,
    pub account: Option<String>,
    pub date_from: Option<String>,
    pub date_to: Option<String>,
}

/// A blank query value reads as absent.
pub fn empty_string_as_none(s: String) -> (r: Option<String>)
    ensures
        if trimmed(s@).len() == 0 {
            r is None
        } else {
            r == Some(s)
        },
{
    let t = crate::text::trimmed_text(&s);
    if t.as_str().is_empty() {
        None
    } else {
        Some(s)
    }
}

/// A blank query value reads as no id; any other must be an `i64` (`None` where it is not,
/// the query then being refused).
pub fn empty_string_as_none_i64(s: &str) -> (r: Option<Option<i64>>)
    ensures
        if trimmed(s@).len() == 0 {
            r == Some(None::<i64>)
        } else {
            match parsed_i64(s@) {
                Some(v) => r == Some(Some(v)),
                None => r is None,
            }
        },
{
    let t = crate::text::trim(s);
    if t.as_str().is_empty() {
        Some(None)
    } else {
        match parse_i64_text(s) {
            Some(v) => Some(Some(v)),
            None => None,
        }
    }
}

/// The page shown: at least the first.
pub open spec fn shown_page(page: i64) -> int {
    if page < 1 {
        1
    } else {
        page as int
    }
}

/// The page size used: from 10 to 100 rows.
pub open spec fn shown_per_page(per_page: i64) -> int {
    if per_page < 10 {
        10
    } else if per_page > 100 {
        100
    } else {
        per_page as int
    }
}

/// Where a dashboard page starts.
#[derive(Debug, Clone, Copy)]
pub struct PageWindow {
    pub page: i64,
    pub per_page: i64,
    pub offset: i64,
}

/// The page, page size and first row the dashboard shows for `filters`.
pub fn page_window(filters: &TransactionFilters) -> (r: PageWindow)
    requires
        (shown_page(filters.page) - 1) * shown_per_page(filters.per_page) <= i64::MAX,
    ensures
        r.page == shown_page(filters.page),
        r.per_page == shown_per_page(filters.per_page),
        r.offset == (r.page - 1) * r.per_page,
{
    let page = if filters.page < 1 {
        1
    } else {
        filters.page
    };
    let per_page = if filters.per_page < 10 {
        10
    } else if filters.per_page > 100 {
        100
    } else {
        filters.per_page
    };
    let offset = (page - 1) * per_page;
    PageWindow { page, per_page, offset }
}

/// The number of pages `total_items` rows fill, `per_page` to a page.
pub fn total_pages(total_items: i64, per_page: i64) -> (r: i64)
    requires
        0 <= total_items,
        0 < per_page,
        total_items + per_page <= i64::MAX,
    ensures
        r == (total_items + per_page - 1) / (per_page as int),
{
    (total_items + per_page - 1) / per_page
}

/// The texts joined with `sep` between them.
pub open spec fn joined(parts: Seq<Seq<char>>, sep: Seq<char>) -> Seq<char>
    decreases parts.len(),
{
    if parts.len() == 0 {
        Seq::empty()
    } else if parts.len() == 1 {
        parts[0]
    } else {
        joined(parts.drop_last(), sep) + sep + parts.last()
    }
}

/// A present value that is not blank.
pub open spec fn filled(o: Option<String>) -> bool {
    o matches Some(s) && trimmed(s@).len() > 0
}

/// A transaction type that filters: present, not empty and not `"all"`.
pub open spec fn type_filters(o: Option<String>) -> bool {
    o matches Some(t) && t@.len() > 0 && t@ != "all"@
}

/// One condition on the listed transactions and the value it binds, if any.
pub open spec fn condition(clause: Seq<char>, param: Option<Seq<char>>) -> (Seq<Seq<char>>, Seq<Seq<char>>) {
    match param {
        Some(p) => (seq![clause], seq![p]),
        None => (seq![clause], Seq::empty()),
    }
}

/// No condition.
pub open spec fn no_condition() -> (Seq<Seq<char>>, Seq<Seq<char>>) {
    (Seq::empty(), Seq::empty())
}

/// The condition on the description: it holds the search text.
pub open spec fn search_condition(f: TransactionFilters) -> (Seq<Seq<char>>, Seq<Seq<char>>) {
    if filled(f.search) {
        condition("t.description LIKE ?"@, Some("%"@ + f.search->0@ + "%"@))
    } else {
        no_condition()
    }
}

/// The condition on the transaction type.
pub open spec fn type_condition(f: TransactionFilters) -> (Seq<Seq<char>>, Seq<Seq<char>>) {
    if type_filters(f.transaction_type) {
        condition("t.type = ?"@, Some(f.transaction_type->0@))
    } else {
        no_condition()
    }
}

/// The condition on the category: none for `"no_category"`, else the given id.
pub open spec fn category_condition(f: TransactionFilters) -> (Seq<Seq<char>>, Seq<Seq<char>>) {
    match f.category_id {
        Some(c) => if c@ == "no_category"@ {
            condition("t.category_id IS NULL"@, None)
        } else {
            condition("t.category_id = ?"@, Some(c@))
        },
        None => no_condition(),
    }
}

/// The condition on the account id.
pub open spec fn account_id_condition(f: TransactionFilters) -> (Seq<Seq<char>>, Seq<Seq<char>>) {
    match f.account_id {
        Some(a) => condition("t.account_id = ?"@, Some(signed_decimal(a as int))),
        None => no_condition(),
    }
}

/// A condition that a non-blank optional value adds.
pub open spec fn filled_condition(clause: Seq<char>, o: Option<String>) -> (Seq<Seq<char>>, Seq<Seq<char>>) {
    if filled(o) {
        condition(clause, Some(o->0@))
    } else {
        no_condition()
    }
}

/// Two lists of conditions, one after the other.
pub open spec fn then(a: (Seq<Seq<char>>, Seq<Seq<char>>), b: (Seq<Seq<char>>, Seq<Seq<char>>)) -> (Seq<Seq<char>>, Seq<Seq<char>>) {
    (a.0 + b.0, a.1 + b.1)
}

/// The conditions `filters` put on the transactions of user `user_id`, in order, with the
/// values they bind: the user; the description holding the search text; the type; the
/// category (or none, for `"no_category"`); the account id; the account name; the first and
/// the last date.
pub open spec fn conditions(filters: TransactionFilters, user_id: i64) -> (Seq<Seq<char>>, Seq<Seq<char>>) {
    then(then(then(then(then(then(then(
        condition("t.user_id = ?"@, Some(signed_decimal(user_id as int))),
        search_condition(filters)),
        type_condition(filters)),
        category_condition(filters)),
        account_id_condition(filters)),
        filled_condition("t.account = ?"@, filters.account)),
        filled_condition("t.transaction_date >= ?"@, filters.date_from)),
        filled_condition("t.transaction_date <= ?"@, filters.date_to))
}

/// The `WHERE` clause and the values it binds.
#[derive(Debug)]
pub struct TransactionConditions {
    pub where_clause: String,
    pub params: Vec<String>,
}

fn is_filled(o: &Option<String>) -> (b: bool)
    ensures
        b == filled(*o),
{
    match o {
        Some(s) => !crate::text::trimmed_text(s).as_str().is_empty(),
        None => false,
    }
}

fn add_condition(clauses: &mut Vec<String>, params: &mut Vec<String>, clause: &str, param: Option<String>)
    ensures
        texts(final(clauses)@) == texts(old(clauses)@) + condition(clause@, crate::model::csv::opt_text(param)).0,
        texts(final(params)@) == texts(old(params)@) + condition(clause@, crate::model::csv::opt_text(param)).1,
{
    let ghost c0 = old(clauses)@;
    let ghost p0 = old(params)@;
    clauses.push(owned(clause));
    assert(texts(clauses@) =~= texts(c0) + seq![clause@]);
    match param {
        Some(p) => {
            params.push(p);
            assert(texts(params@) =~= texts(p0).push(p@));
        },
        None => {
            assert(texts(params@) =~= texts(p0));
        },
    }
}

fn decimal_text(n: i64) -> (r: String)
    ensures
        r@ == signed_decimal(n as int),
{
    let mut out: Vec<char> = Vec::new();
    push_signed_decimal(&mut out, n);
    text_of(out.as_slice())
}

fn join_with_and(parts: &Vec<String>) -> (r: String)
    ensures
        r@ == joined(texts(parts@), " AND "@),
{
    let ghost ps = texts(parts@);
    let mut out: Vec<char> = Vec::new();
    let mut i: usize = 0;
    while i < parts.len()
        invariant
            i <= parts@.len(),
            ps == texts(parts@),
            out@ == joined(ps.subrange(0, i as int), " AND "@),
        decreases parts@.len() - i,
    {
        let ghost before = out@;
        assert(ps.subrange(0, i + 1).drop_last() =~= ps.subrange(0, i as int));
        if i > 0 {
            push_str(&mut out, " AND ");
        }
        push_str(&mut out, parts[i].as_str());
        i = i + 1;
        if i == 1 {
            assert(out@ =~= ps.subrange(0, 1)[0]);
        }
    }
    assert(ps.subrange(0, parts@.len() as int) =~= ps);
    text_of(out.as_slice())
}

/// The lists of conditions so far.
pub open spec fn listed(clauses: Seq<String>, params: Seq<String>) -> (Seq<Seq<char>>, Seq<Seq<char>>) {
    (texts(clauses), texts(params))
}

fn add_search(clauses: &mut Vec<String>, params: &mut Vec<String>, f: &TransactionFilters)
    ensures
        listed(final(clauses)@, final(params)@) == then(listed(old(clauses)@, old(params)@), search_condition(*f)),
{
    if is_filled(&f.search) {
        let s = f.search.as_ref().unwrap();
        let mut p = chars_of("%");
        push_str(&mut p, s.as_str());
        push_str(&mut p, "%");
        add_condition(clauses, params, "t.description LIKE ?", Some(text_of(p.as_slice())));
    } else {
        assert(texts(clauses@) =~= texts(clauses@) + Seq::<Seq<char>>::empty());
        assert(texts(params@) =~= texts(params@) + Seq::<Seq<char>>::empty());
    }
}

fn add_type(clauses: &mut Vec<String>, params: &mut Vec<String>, f: &TransactionFilters)
    ensures
        listed(final(clauses)@, final(params)@) == then(listed(old(clauses)@, old(params)@), type_condition(*f)),
{
    let filters = match &f.transaction_type {
        Some(t) => !t.as_str().is_empty() && !text_eq(t.as_str(), "all"),
        None => false,
    };
    if filters {
        let t = f.transaction_type.as_ref().unwrap();
        add_condition(clauses, params, "t.type = ?", Some(t.clone()));
    } else {
        assert(texts(clauses@) =~= texts(clauses@) + Seq::<Seq<char>>::empty());
        assert(texts(params@) =~= texts(params@) + Seq::<Seq<char>>::empty());
    }
}

fn add_category(clauses: &mut Vec<String>, params: &mut Vec<String>, f: &TransactionFilters)
    ensures
        listed(final(clauses)@, final(params)@) == then(listed(old(clauses)@, old(params)@), category_condition(*f)),
{
    match &f.category_id {
        Some(c) => {
            if text_eq(c.as_str(), "no_category") {
                add_condition(clauses, params, "t.category_id IS NULL", None);
            } else {
                add_condition(clauses, params, "t.category_id = ?", Some(c.clone()));
            }
        },
        None => {
            assert(texts(clauses@) =~= texts(clauses@) + Seq::<Seq<char>>::empty());
            assert(texts(params@) =~= texts(params@) + Seq::<Seq<char>>::empty());
        },
    }
}

fn add_account_id(clauses: &mut Vec<String>, params: &mut Vec<String>, f: &TransactionFilters)
    ensures
        listed(final(clauses)@, final(params)@) == then(listed(old(clauses)@, old(params)@), account_id_condition(*f)),
{
    match f.account_id {
        Some(a) => add_condition(clauses, params, "t.account_id = ?", Some(decimal_text(a))),
        None => {
            assert(texts(clauses@) =~= texts(clauses@) + Seq::<Seq<char>>::empty());
            assert(texts(params@) =~= texts(params@) + Seq::<Seq<char>>::empty());
        },
    }
}

fn add_filled(clauses: &mut Vec<String>, params: &mut Vec<String>, clause: &str, o: &Option<String>)
    ensures
        listed(final(clauses)@, final(params)@) == then(listed(old(clauses)@, old(params)@), filled_condition(clause@, *o)),
{
    if is_filled(o) {
        add_condition(clauses, params, clause, o.clone());
    } else {
        assert(texts(clauses@) =~= texts(clauses@) + Seq::<Seq<char>>::empty());
        assert(texts(params@) =~= texts(params@) + Seq::<Seq<char>>::empty());
    }
}

/// The conditions that `filters` put on the transactions of user `user_id`, joined with
/// `" AND "` (see `conditions`).
pub fn transaction_conditions(filters: &TransactionFilters, user_id: i64) -> (r: TransactionConditions)
    ensures
        r.where_clause@ == joined(conditions(*filters, user_id).0, " AND "@),
        texts(r.params@) == conditions(*filters, user_id).1,
{
    let mut clauses: Vec<String> = Vec::new();
    let mut params: Vec<String> = Vec::new();
    add_condition(&mut clauses, &mut params, "t.user_id = ?", Some(decimal_text(user_id)));
    assert(texts(clauses@) =~= Seq::<Seq<char>>::empty() + seq!["t.user_id = ?"@]);
    add_search(&mut clauses, &mut params, filters);
    add_type(&mut clauses, &mut params, filters);
    add_category(&mut clauses, &mut params, filters);
    add_account_id(&mut clauses, &mut params, filters);
    add_filled(&mut clauses, &mut params, "t.account = ?", &filters.account);
    add_filled(&mut clauses, &mut params, "t.transaction_date >= ?", &filters.date_from);
    add_filled(&mut clauses, &mut params, "t.transaction_date <= ?", &filters.date_to);
    let where_clause = join_with_and(&clauses);
    TransactionConditions { where_clause, params }
}

} // verus!
