//! The forms the web front end receives, and what each of them asks the model for.

use crate::model::accounts::Account;
use crate::model::categories::Category;
use crate::model::households::{role_of, Role};
use crate::model::import_rules::ImportRule;
use crate::text::{chars_of, parse_i64_text, parsed_i64, text_of};
use vstd::prelude::*;

verus! {

/// The query of the sign-in provider's redirect back to the application.
#[derive(Debug, Clone)]
pub struct AuthRequest {
    /// The authorization code to exchange for a token.
    pub code: String,
    /// The state the provider hands back.
    pub state: String,
}

/// A manager's change of a member's role.
#[derive(Debug, Clone)]
pub struct RoleForm {
    pub user_id: i64,
    pub role: String,
}

impl RoleForm {
    /// The role the form asks for; unknown text reads as a plain member.
    pub fn requested_role(&self) -> (r: Role)
        ensures
            r == role_of(self.role@),
    {
        Role::parse(self.role.as_str())
    }
}

/// The account form of the accounts page.
#[derive(Debug, Clone)]
pub struct AccountForm {
    pub csrf_token: String,
    pub id: i64,
    pub user_id: i64,
    pub name: String,
    pub friendly: String,
    pub description: String,
}

impl AccountForm {
    /// The account the form describes; the owner's name and e-mail are left empty.
    pub fn into_account(self) -> (r: Account)
        ensures
            r.id == self.id,
            r.user_id == self.user_id,
            r.name == self.name,
            r.friendly == self.friendly,
            r.description == self.description,
            r.owner_name@.len() == 0,
            r.owner_email@.len() == 0,
    {
        Account {
            id: self.id,
            user_id: self.user_id,
            name: self.name,
            friendly: self.friendly,
            description: self.description,
            owner_name: String::new(),
            owner_email: String::new(),
        }
    }
}

/// The category form of the categories page.
#[derive(Debug, Clone)]
pub struct CategoryForm {
    pub csrf_token: String,
    pub id: i64,
    pub name: String,
    pub description: String,
}

impl CategoryForm {
    /// The category the form describes; the household is set when it is saved.
    pub fn into_category(self) -> (r: Category)
        ensures
            r.id == self.id,
            r.household_id == 0,
            r.name == self.name,
            r.description == self.description,
    {
        Category { id: self.id, household_id: 0, name: self.name, description: self.description }
    }
}

/// The category a rule form selects: none for an empty field, else the id it holds.
pub open spec fn category_choice_of(value: Seq<char>) -> Result<Option<i64>, Seq<char>> {
    if value.len() == 0 {
        Ok(None)
    } else {
        match parsed_i64(value) {
            Some(v) => Ok(Some(v)),
            None => Err("Invalid category"@),
        }
    }
}

/// The category a rule form selects (see `category_choice_of`).
pub fn category_choice(value: &str) -> (r: Result<Option<i64>, String>)
    ensures
        match (r, category_choice_of(value@)) {
            (Ok(a), Ok(b)) => a == b,
            (Err(e), Err(f)) => e@ == f,
            _ => false,
        },
{
    if value.is_empty() {
        Ok(None)
    } else {
        match parse_i64_text(value) {
            Some(v) => Ok(Some(v)),
            None => Err(text_of(chars_of("Invalid category").as_slice())),
        }
    }
}

/// The import rule form of the rules page.
#[derive(Debug, Clone)]
pub struct ImportRuleForm {
    pub csrf_token: String,
    pub id: i64,
    pub category_id: String,
    pub priority: i64,
    pub match_description: Option<String>,
}

impl ImportRuleForm {
    /// A rule of the household `household_id` made from the form: its id, category,
    /// priority and description pattern, nothing else.
    pub fn new_rule(self, household_id: i64) -> (r: Result<ImportRule, String>)
        ensures
            match category_choice_of(self.category_id@) {
                Ok(c) => r matches Ok(rule) && rule.id == self.id && rule.household_id == household_id
                    && rule.category_id == c && rule.priority == self.priority
                    && rule.match_description == self.match_description && rule.match_account is None
                    && rule.account_id is None && rule.category_name@.len() == 0,
                Err(e) => r matches Err(m) && m@ == e,
            },
    {
        let category_id = category_choice(self.category_id.as_str())?;
        Ok(ImportRule {
            id: self.id,
            household_id,
            match_account: None,
            match_description: self.match_description,
            account_id: None,
            category_id,
            priority: self.priority,
            category_name: String::new(),
        })
    }

    /// The stored rule `rule` with the form's category, priority and description pattern.
    pub fn update_rule(self, rule: ImportRule) -> (r: Result<ImportRule, String>)
        ensures
            match category_choice_of(self.category_id@) {
                Ok(c) => r matches Ok(u) && u.id == rule.id && u.household_id == rule.household_id
                    && u.category_id == c && u.priority == self.priority
                    && u.match_description == self.match_description
                    && u.match_account == rule.match_account && u.account_id == rule.account_id
                    && u.category_name == rule.category_name,
                Err(e) => r matches Err(m) && m@ == e,
            },
    {
        let category_id = category_choice(self.category_id.as_str())?;
        let mut rule = rule;
        rule.category_id = category_id;
        rule.priority = self.priority;
        rule.match_description = self.match_description;
        Ok(rule)
    }
}

} // verus!
