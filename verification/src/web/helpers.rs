//! Who may do what in the web front end.

use crate::model::households::{HouseholdMembership, Role};
use vstd::prelude::*;

verus! {

/// The membership is that of a household manager, who may edit accounts, categories and rules.
pub fn is_manager(membership: &HouseholdMembership) -> (b: bool)
    ensures
        b == (membership.role == Role::Manager),
{
    match membership.role {
        Role::Manager => true,
        _ => false,
    }
}

/// The membership may import statements: every role but a plain member.
pub fn can_import(membership: &HouseholdMembership) -> (b: bool)
    ensures
        b == (membership.role != Role::Member),
{
    match membership.role {
        Role::Member => false,
        _ => true,
    }
}

} // verus!
