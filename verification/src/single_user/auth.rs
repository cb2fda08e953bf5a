//! Signing in to the single-user edition.

use crate::single_user::models::User;
use vstd::prelude::*;

verus! {

/// The query of the sign-in provider's redirect back to the application.
#[derive(Debug, Clone)]
pub struct AuthRequest {
    pub code: String,
    pub state: String,
}

/// The user created for a first sign-in: the provider's e-mail and subject, the reported
/// name or else the e-mail, under the provider `"default"`.
pub fn new_signed_in_user(email: String, name: Option<String>, subject: String) -> (r: User)
    ensures
        r.id == 0,
        r.email == email,
        r.name@ == match name {
            Some(n) => n@,
            None => email@,
        },
        r.oauth_provider@ == "default"@,
        r.oauth_id == subject,
{
    let name = match name {
        Some(n) => n,
        None => email.clone(),
    };
    User { id: 0, email, name, oauth_provider: crate::text::owned("default"), oauth_id: subject }
}

} // verus!
