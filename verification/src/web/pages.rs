//! The values each page of the web front end is rendered from.

use crate::model::accounts::Account;
use crate::model::categories::Category;
use crate::model::households::HouseholdMember;
use crate::model::import_rules::ImportRule;
use crate::model::user::User;
use crate::web::request_context::RequestContext;
use vstd::prelude::*;

verus! {

/// The landing page, shown to visitors who are not signed in.
#[derive(Debug, Clone)]
pub struct HomeTemplate {
    pub ctx: RequestContext,
}

/// The form that edits one account, with the members who may own it.
#[derive(Debug, Clone)]
pub struct AccountsFormTemplate {
    pub ctx: RequestContext,
    pub user: User,
    pub form: Account,
    pub owners: Vec<HouseholdMember>,
    pub csrf_token: String,
}

/// The list of the household's accounts.
#[derive(Debug, Clone)]
pub struct AccountsListTemplate {
    pub ctx: RequestContext,
    pub user: User,
    pub accounts: Vec<Account>,
    pub csrf_token: String,
}

/// The form that creates or edits one category.
#[derive(Debug, Clone)]
pub struct CategoriesFormTemplate {
    pub ctx: RequestContext,
    pub user: User,
    pub form: Category,
    pub is_editing: bool,
    pub csrf_token: String,
}

/// The list of the household's categories.
#[derive(Debug, Clone)]
pub struct CategoriesListTemplate {
    pub ctx: RequestContext,
    pub user: User,
    pub categories: Vec<Category>,
    pub csrf_token: String,
}

/// The form that creates or edits one import rule, with how many uncategorized
/// transactions it would categorize.
#[derive(Debug, Clone)]
pub struct ImportRulesFormTemplate {
    pub ctx: RequestContext,
    pub user: User,
    pub form: ImportRule,
    pub categories: Vec<Category>,
    pub is_editing: bool,
    pub uncategorized_matches: i64,
    pub csrf_token: String,
}

/// The list of the household's import rules.
#[derive(Debug, Clone)]
pub struct ImportRulesListTemplate {
    pub ctx: RequestContext,
    pub user: User,
    pub import_rules: Vec<ImportRule>,
    pub csrf_token: String,
}

} // verus!
