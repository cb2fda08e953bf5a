//! The rows of the schema where categories belong to a user.

use vstd::prelude::*;

verus! {

/// A user as first stored, with the time the row was created.
#[derive(Debug, Clone)]
pub struct User {
    pub id: i64,
    pub email: String,
    pub name: String,
    pub oauth_provider: String,
    pub oauth_id: String,
    pub created_at: String,
}

/// A category of one user, with an optional display color.
#[derive(Debug, Clone)]
pub struct Category {
    pub id: i64,
    pub user_id: i64,
    pub name: String,
    pub color: Option<String>,
    pub created_at: String,
}

/// The form that creates a category.
#[derive(Debug, Clone)]
pub struct NewCategory {
    pub name: String,
    pub color: Option<String>,
}

impl NewCategory {
    /// The category of user `user_id` the form creates, before it is stored.
    pub fn for_user(self, user_id: i64) -> (r: Category)
        ensures
            r.id == 0,
            r.user_id == user_id,
            r.name == self.name,
            r.color == self.color,
            r.created_at@.len() == 0,
    {
        Category { id: 0, user_id, name: self.name, color: self.color, created_at: String::new() }
    }
}

} // verus!
