//! The household budget model: users, households, accounts, categories, import rules and
//! the CSV statement importer.

pub mod accounts;
pub mod categories;
pub mod csv;
pub mod csv_file;
pub mod dates;
pub mod households;
pub mod import_rules;
pub mod transactions;
pub mod user;

use vstd::prelude::*;

verus! {

/// A value the model refuses to store, with the reason to show the user.
#[derive(Debug)]
pub struct InvalidInput {
    pub message: String,
}

/// The refusal carrying `message`.
pub fn invalid(message: &str) -> (r: Result<(), InvalidInput>)
    ensures
        r matches Err(e) && e.message@ == message@,
{
    Err(InvalidInput { message: crate::text::text_of(crate::text::chars_of(message).as_slice()) })
}

/// The trimmed name is from 3 to 64 characters long, the length the models accept.
pub open spec fn name_length_ok(name: Seq<char>) -> bool {
    3 <= crate::text::trimmed(name).len() <= 64
}

/// Whether the trimmed `name` has an acceptable length.
pub fn check_name_length(name: &String) -> (b: bool)
    ensures
        b == name_length_ok(name@),
{
    let t = crate::text::trimmed_text(name);
    let n = crate::text::chars_of(t.as_str()).len();
    3 <= n && n <= 64
}

} // verus!
