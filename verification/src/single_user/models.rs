//! The records of the single-user edition: users, accounts, categories, import rules and the
//! transaction query, with how a stored record takes over what a lookup brought.

use crate::model::csv::opt_text;
use crate::text::{contains, contains_text, lowercase, owned, text_eq, to_lowercase, trimmed};
use vstd::prelude::*;

verus! {

/// A signed-in user.
#[derive(Debug, Clone)]
pub struct User {
    pub id: i64,
    pub email: String,
    pub name: String,
    pub oauth_provider: String,
    pub oauth_id: String,
}

/// A value kept unless it is empty and the other one is not (the `set_if_empty` rule).
pub open spec fn filled_from(kept: Seq<char>, other: Seq<char>) -> Seq<char> {
    if kept.len() == 0 && other.len() != 0 {
        other
    } else {
        kept
    }
}

fn fill_from(kept: String, other: &String) -> (r: String)
    ensures
        r@ == filled_from(kept@, other@),
{
    if kept.as_str().is_empty() && !other.as_str().is_empty() {
        other.clone()
    } else {
        kept
    }
}

/// An account.
#[derive(Debug, Clone)]
pub struct Account {
    pub id: i64,
    pub user_id: i64,
    pub name: String,
    pub friendly: String,
    pub description: String,
}

impl Account {
    /// The lookup of the account named `name`: nothing else set.
    pub fn named(name: &str) -> (r: Account)
        ensures
            r.id == 0,
            r.user_id == 0,
            r.name@ == name@,
            r.friendly@.len() == 0,
            r.description@.len() == 0,
    {
        Account { id: 0, user_id: 0, name: owned(name), friendly: String::new(), description: String::new() }
    }

    /// The stored account with the name, description and friendly name of `lookup` where its
    /// own are empty.
    pub fn merged_with(self, lookup: &Account) -> (r: Account)
        ensures
            r.id == self.id,
            r.user_id == self.user_id,
            r.name@ == filled_from(self.name@, lookup.name@),
            r.description@ == filled_from(self.description@, lookup.description@),
            r.friendly@ == filled_from(self.friendly@, lookup.friendly@),
    {
        Account {
            id: self.id,
            user_id: self.user_id,
            name: fill_from(self.name, &lookup.name),
            friendly: fill_from(self.friendly, &lookup.friendly),
            description: fill_from(self.description, &lookup.description),
        }
    }
}

/// A category.
#[derive(Debug, Clone)]
pub struct Category {
    pub id: i64,
    pub name: String,
    pub description: String,
}

impl Category {
    /// The lookup of the category named `name`: nothing else set.
    pub fn named(name: &str) -> (r: Category)
        ensures
            r.id == 0,
            r.name@ == name@,
            r.description@.len() == 0,
    {
        Category { id: 0, name: owned(name), description: String::new() }
    }

    /// The stored category with the name and description of `lookup` where its own are empty.
    pub fn merged_with(self, lookup: &Category) -> (r: Category)
        ensures
            r.id == self.id,
            r.name@ == filled_from(self.name@, lookup.name@),
            r.description@ == filled_from(self.description@, lookup.description@),
    {
        Category {
            id: self.id,
            name: fill_from(self.name, &lookup.name),
            description: fill_from(self.description, &lookup.description),
        }
    }
}

/// What an import rule reads and sets of a transaction.
#[derive(Debug, Clone)]
pub struct RuleTarget {
    pub account_id: i64,
    pub category_id: Option<i64>,
    pub description: String,
}

/// An import rule: transactions it matches get its account and category.
#[derive(Debug, Clone)]
pub struct ImportRule {
    pub id: i64,
    pub priority: i64,
    pub match_description: Option<String>,
    pub match_account: Option<String>,
    pub match_category: Option<String>,
    pub account_id: Option<i64>,
    pub account_name: Option<String>,
    pub category_id: Option<i64>,
    pub category_name: Option<String>,
}

/// The rule matches a transaction described `description`: its description pattern occurs
/// in the description, both in lower case; the account and category patterns match only when
/// their lower case reads `"TODO"`.
pub open spec fn rule_fires(rule: ImportRule, description: Seq<char>) -> bool {
    ||| (rule.match_description matches Some(m) && contains_text(lowercase(description), lowercase(m@)))
    ||| (rule.match_account matches Some(m) && lowercase(m@) == "TODO"@)
    ||| (rule.match_category matches Some(m) && lowercase(m@) == "TODO"@)
}

/// A value kept unless it is absent and the other one is not (the `set_if_none` rule).
pub open spec fn some_from<T>(kept: Option<T>, other: Option<T>) -> Option<T> {
    if kept is None && other is Some {
        other
    } else {
        kept
    }
}

fn lower_is_todo(m: &Option<String>) -> (b: bool)
    ensures
        b == (m matches Some(s) && lowercase(s@) == "TODO"@),
{
    match m {
        Some(s) => {
            let l = to_lowercase(s.as_str());
            text_eq(l.as_str(), "TODO")
        },
        None => false,
    }
}

fn keep_or(kept: Option<String>, other: &Option<String>) -> (r: Option<String>)
    ensures
        opt_text(r) == some_from(opt_text(kept), opt_text(*other)),
{
    if kept.is_none() && other.is_some() {
        other.clone()
    } else {
        kept
    }
}

fn keep_or_id(kept: Option<i64>, other: Option<i64>) -> (r: Option<i64>)
    ensures
        r == some_from(kept, other),
{
    if kept.is_none() && other.is_some() {
        other
    } else {
        kept
    }
}

impl ImportRule {
    /// Gives the transaction `t` the rule's account and category when the rule matches it;
    /// tells whether anything was set.
    pub fn apply_to_transaction(&self, t: &mut RuleTarget) -> (updated: bool)
        ensures
            final(t).description == old(t).description,
            rule_fires(*self, old(t).description@) ==> {
                &&& final(t).account_id == (match self.account_id {
                    Some(id) => id,
                    None => old(t).account_id,
                })
                &&& final(t).category_id == (match self.category_id {
                    Some(id) => Some(id),
                    None => old(t).category_id,
                })
                &&& updated == (self.account_id is Some || self.category_id is Some)
            },
            !rule_fires(*self, old(t).description@) ==> *final(t) == *old(t) && !updated,
    {
        let fires = match &self.match_description {
            Some(m) => {
                let d = to_lowercase(t.description.as_str());
                let p = to_lowercase(m.as_str());
                contains(d.as_str(), p.as_str())
            },
            None => false,
        } || lower_is_todo(&self.match_account) || lower_is_todo(&self.match_category);
        let mut updated = false;
        if fires {
            match self.account_id {
                Some(id) => {
                    t.account_id = id;
                    updated = true;
                },
                None => {},
            }
            match self.category_id {
                Some(id) => {
                    t.category_id = Some(id);
                    updated = true;
                },
                None => {},
            }
        }
        updated
    }

    /// The stored rule with what `lookup` brings: its non-zero priority, and its patterns,
    /// account and category where the stored rule has none.
    pub fn merged_with(self, lookup: &ImportRule) -> (r: ImportRule)
        ensures
            r.id == self.id,
            r.priority == (if lookup.priority != 0 { lookup.priority } else { self.priority }),
            opt_text(r.match_description) == some_from(opt_text(self.match_description), opt_text(lookup.match_description)),
            opt_text(r.match_account) == some_from(opt_text(self.match_account), opt_text(lookup.match_account)),
            opt_text(r.match_category) == some_from(opt_text(self.match_category), opt_text(lookup.match_category)),
            r.account_id == some_from(self.account_id, lookup.account_id),
            opt_text(r.account_name) == some_from(opt_text(self.account_name), opt_text(lookup.account_name)),
            r.category_id == some_from(self.category_id, lookup.category_id),
            opt_text(r.category_name) == some_from(opt_text(self.category_name), opt_text(lookup.category_name)),
    {
        ImportRule {
            id: self.id,
            priority: if lookup.priority != 0 { lookup.priority } else { self.priority },
            match_description: keep_or(self.match_description, &lookup.match_description),
            match_account: keep_or(self.match_account, &lookup.match_account),
            match_category: keep_or(self.match_category, &lookup.match_category),
            account_id: keep_or_id(self.account_id, lookup.account_id),
            account_name: keep_or(self.account_name, &lookup.account_name),
            category_id: keep_or_id(self.category_id, lookup.category_id),
            category_name: keep_or(self.category_name, &lookup.category_name),
        }
    }
}

/// The query of the transaction list and charts.
#[derive(Debug, Clone, Default)]
pub struct TransactionQuery {
    pub filtered: bool,
    pub account_id: i64,
    pub category_id: i64,
    pub processed_at: String,
    pub page: i64,
    pub description: String,
    pub transaction_type: String,
}

/// The `LIKE` pattern for the description: empty (no filter) for a blank description or one
/// that holds `'%'`, else the description between two `'%'`.
pub open spec fn like_pattern(description: Seq<char>) -> Seq<char> {
    if trimmed(description).len() == 0 || description.contains('%') {
        Seq::empty()
    } else {
        seq!['%'] + description + seq!['%']
    }
}

impl TransactionQuery {
    /// The `LIKE` pattern for the description (see `like_pattern`).
    pub fn description_like_pattern(&self) -> (r: String)
        ensures
            r@ == like_pattern(self.description@),
    {
        let blank = crate::text::trimmed_text(&self.description).as_str().is_empty();
        let percent = contains(self.description.as_str(), "%");
        proof {
            reveal_strlit("%");
            let d = self.description@;
            assert("%"@ =~= seq!['%']);
            if d.contains('%') {
                let i = choose|i: int| 0 <= i < d.len() && d[i] == '%';
                assert(d.subrange(i, i + 1) =~= "%"@);
                assert(contains_text(d, "%"@));
            }
            if contains_text(d, "%"@) {
                let i = choose|i: int| 0 <= i && i + 1 <= d.len() && #[trigger] d.subrange(i, i + 1) == "%"@;
                assert(d[i] == d.subrange(i, i + 1)[0]);
                assert(d.contains('%'));
            }
        }
        if blank || percent {
            String::new()
        } else {
            let mut out: Vec<char> = Vec::new();
            out.push('%');
            crate::text::push_str(&mut out, self.description.as_str());
            out.push('%');
            crate::text::text_of(out.as_slice())
        }
    }
}

/// Why the sign-in provider could not be set up.
#[derive(Debug, Clone)]
pub enum OauthError {
    /// A setting is missing from the environment.
    Environment(String),
    /// A provider address is malformed.
    Ouath(String),
    /// The provider could not be reached.
    Reqwest(String),
}

impl OauthError {
    /// The reason, as it is shown.
    pub fn message(&self) -> (r: String)
        ensures
            r@ == match self {
                OauthError::Environment(m) => m@,
                OauthError::Ouath(m) => m@,
                OauthError::Reqwest(m) => m@,
            },
    {
        match self {
            OauthError::Environment(m) => m.clone(),
            OauthError::Ouath(m) => m.clone(),
            OauthError::Reqwest(m) => m.clone(),
        }
    }
}

} // verus!
