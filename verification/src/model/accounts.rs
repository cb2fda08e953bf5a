//! Accounts: the bank or card accounts that transactions are imported into.

use crate::model::{check_name_length, invalid, name_length_ok, InvalidInput};
use crate::text::trimmed;
use vstd::prelude::*;

verus! {

/// An account of a household, with the name and e-mail of the member who owns it.
#[derive(Debug, Clone, Default)]
pub struct Account {
    pub id: i64,
    pub user_id: i64,
    pub name: String,
    pub friendly: String,
    pub description: String,
    pub owner_name: String,
    pub owner_email: String,
}

/// Why an account cannot be stored, in the order the checks run.
pub open spec fn account_problem(user_id: i64, name: Seq<char>) -> Option<Seq<char>> {
    if user_id <= 0 {
        Some("An account must be connected to a user."@)
    } else if !name_length_ok(name) {
        Some("Name must be between 3 and 64 characters long."@)
    } else {
        None
    }
}

impl Account {
    /// The account has been stored (it has a database id).
    pub fn in_storage(&self) -> (b: bool)
        ensures
            b == (self.id > 0),
    {
        self.id > 0
    }

    /// Checks that the account has an owner and a name of acceptable length.
    pub fn validate(&self) -> (r: Result<(), InvalidInput>)
        ensures
            match account_problem(self.user_id, self.name@) {
                Some(m) => r matches Err(e) && e.message@ == m,
                None => r is Ok,
            },
    {
        if self.user_id <= 0 {
            return invalid("An account must be connected to a user.");
        }
        if !check_name_length(&self.name) {
            return invalid("Name must be between 3 and 64 characters long.");
        }
        Ok(())
    }

    /// The checks that run before an account is saved: it must be valid, it must already be
    /// stored, since accounts are created by importing transactions, and its owner must be a
    /// member of the household; `owners_found` is how many members of the household have the
    /// owner's id.
    pub fn check_for_save(&self, owners_found: i64) -> (r: Result<(), InvalidInput>)
        ensures
            match account_problem(self.user_id, self.name@) {
                Some(m) => r matches Err(e) && e.message@ == m,
                None => if self.id <= 0 {
                    r matches Err(e) && e.message@
                        == "Accounts are created by importing transactions."@
                } else if owners_found == 0 {
                    r matches Err(e) && e.message@ == "Account owner is outside the household."@
                } else {
                    r is Ok
                },
            },
    {
        self.validate()?;
        if !self.in_storage() {
            return invalid("Accounts are created by importing transactions.");
        }
        if owners_found == 0 {
            return invalid("Account owner is outside the household.");
        }
        Ok(())
    }

    /// The name and the friendly name that are stored for the account: both trimmed, the
    /// friendly name falling back to the name when it is blank.
    pub fn stored_names(&self) -> (r: (String, String))
        ensures
            r.0@ == trimmed(self.name@),
            r.1@ == if trimmed(self.friendly@).len() == 0 {
                trimmed(self.name@)
            } else {
                trimmed(self.friendly@)
            },
    {
        let name = crate::text::trimmed_text(&self.name);
        let friendly = crate::text::trimmed_text(&self.friendly);
        let empty = crate::text::chars_of(friendly.as_str()).len() == 0;
        if empty {
            let copy = name.clone();
            (name, copy)
        } else {
            (name, friendly)
        }
    }
}

} // verus!
