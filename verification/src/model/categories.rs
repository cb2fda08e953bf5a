//! Categories that transactions are sorted into.

use crate::model::{check_name_length, invalid, name_length_ok, InvalidInput};
use crate::text::trimmed;
use vstd::prelude::*;

verus! {

/// A category of a household.
#[derive(Debug, Clone, Default)]
pub struct Category {
    pub id: i64,
    pub household_id: i64,
    pub name: String,
    pub description: String,
}

impl Category {
    /// The category has been stored (it has a database id).
    pub fn in_storage(&self) -> (b: bool)
        ensures
            b == (self.id > 0),
    {
        self.id > 0
    }

    /// Checks that the trimmed name has an acceptable length.
    pub fn validate(&self) -> (r: Result<(), InvalidInput>)
        ensures
            name_length_ok(self.name@) ==> r is Ok,
            !name_length_ok(self.name@) ==> (r matches Err(e) && e.message@
                == "Name must be between 3 and 64 characters long."@),
    {
        if !check_name_length(&self.name) {
            return invalid("Name must be between 3 and 64 characters long.");
        }
        Ok(())
    }

    /// The name that is stored for the category: trimmed.
    pub fn stored_name(&self) -> (r: String)
        ensures
            r@ == trimmed(self.name@),
    {
        crate::text::trimmed_text(&self.name)
    }
}

} // verus!
