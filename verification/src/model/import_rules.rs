//! Import rules: patterns that assign an account and a category to imported transactions.

use crate::model::{invalid, InvalidInput};
use vstd::prelude::*;

verus! {

/// A rule of a household: transactions whose description or account name holds the pattern
/// get the rule's account and category.
#[derive(Debug, Clone)]
pub struct ImportRule {
    pub id: i64,
    pub household_id: i64,
    pub match_account: Option<String>,
    pub match_description: Option<String>,
    pub account_id: Option<i64>,
    pub category_id: Option<i64>,
    pub priority: i64,
    pub category_name: String,
}

impl Default for ImportRule {
    /// A new rule: no patterns, no account or category, priority 50.
    fn default() -> (r: Self)
        ensures
            r.id == 0,
            r.household_id == 0,
            r.match_account is None,
            r.match_description is None,
            r.account_id is None,
            r.category_id is None,
            r.priority == 50,
            r.category_name@ == Seq::<char>::empty(),
    {
        ImportRule {
            id: 0,
            household_id: 0,
            match_account: None,
            match_description: None,
            account_id: None,
            category_id: None,
            priority: 50,
            category_name: String::new(),
        }
    }
}

impl ImportRule {
    /// The rule has been stored (it has a database id).
    pub fn in_storage(&self) -> (b: bool)
        ensures
            b == (self.id > 0),
    {
        self.id > 0
    }

    /// Checks that the priority is from 1 to 100 and that the rule has a pattern.
    pub fn validate(&self) -> (r: Result<(), InvalidInput>)
        ensures
            !(1 <= self.priority <= 100) ==> (r matches Err(e) && e.message@
                == "Priority must be between 1 and 100."@),
            (1 <= self.priority <= 100 && self.match_account is None
                && self.match_description is None) ==> (r matches Err(e) && e.message@
                == "At least match account or match description must be provided."@),
            (1 <= self.priority <= 100 && (self.match_account is Some
                || self.match_description is Some)) ==> r is Ok,
    {
        if !(1 <= self.priority && self.priority <= 100) {
            return invalid("Priority must be between 1 and 100.");
        }
        if self.match_account.is_none() && self.match_description.is_none() {
            return invalid("At least match account or match description must be provided.");
        }
        Ok(())
    }

    /// The checks that run before a rule is saved: it must be valid, and the account and the
    /// category it assigns must belong to the household; `accounts_found` and
    /// `categories_found` are how many of the household's accounts and categories carry
    /// those ids (they are not read where the rule assigns none).
    pub fn check_for_save(&self, accounts_found: i64, categories_found: i64) -> (r: Result<(), InvalidInput>)
        ensures
            !(1 <= self.priority <= 100) || (self.match_account is None && self.match_description is None)
                ==> (r matches Err(e) && e.message@ == (if !(1 <= self.priority <= 100) {
                "Priority must be between 1 and 100."@
            } else {
                "At least match account or match description must be provided."@
            })),
            (1 <= self.priority <= 100 && (self.match_account is Some || self.match_description is Some))
                ==> (if self.account_id is Some && accounts_found == 0 {
                r matches Err(e) && e.message@ == "Account is outside the household"@
            } else if self.category_id is Some && categories_found == 0 {
                r matches Err(e) && e.message@ == "Category is outside the household"@
            } else {
                r is Ok
            }),
    {
        self.validate()?;
        if self.account_id.is_some() && accounts_found == 0 {
            return invalid("Account is outside the household");
        }
        if self.category_id.is_some() && categories_found == 0 {
            return invalid("Category is outside the household");
        }
        Ok(())
    }

    /// The rule as stored under `id`.
    pub fn stored_as(self, id: i64) -> (r: ImportRule)
        ensures
            r.id == id,
            r.household_id == self.household_id,
            r.match_account == self.match_account,
            r.match_description == self.match_description,
            r.account_id == self.account_id,
            r.category_id == self.category_id,
            r.priority == self.priority,
            r.category_name == self.category_name,
    {
        let mut r = self;
        r.id = id;
        r
    }
}

} // verus!
