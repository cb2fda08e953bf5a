//! Users: people who sign in with an OpenID Connect provider.

use crate::text::{chars_of, text_of};
use vstd::prelude::*;

verus! {

/// A user, identified by the provider that signed them in and the subject it reports.
#[derive(Debug, Clone, Default)]
pub struct User {
    pub id: i64,
    pub email: String,
    pub name: String,
    pub oauth_provider: String,
    pub oauth_id: String,
}

/// The index of the first `c` in `s` at or after `from`.
pub open spec fn index_of_from(s: Seq<char>, c: char, from: int) -> Option<int>
    decreases s.len() - from,
{
    if from < 0 || from >= s.len() {
        None
    } else if s[from] == c {
        Some(from)
    } else {
        index_of_from(s, c, from + 1)
    }
}

/// What lies before the first `c` in `s` (`str::split_once(c).0`), if `s` holds a `c`.
pub open spec fn before_first(s: Seq<char>, c: char) -> Option<Seq<char>> {
    match index_of_from(s, c, 0) {
        Some(i) => Some(s.subrange(0, i)),
        None => None,
    }
}

/// The short form of a user's name: the first word of the name, or else the part of the
/// e-mail address before `'@'`, or else nothing.
pub open spec fn short_name_of(name: Seq<char>, email: Seq<char>) -> Seq<char> {
    match before_first(name, ' ') {
        Some(s) => s,
        None => match before_first(email, '@') {
            Some(s) => s,
            None => Seq::empty(),
        },
    }
}

proof fn lemma_index_of_bound(s: Seq<char>, c: char, from: int)
    ensures
        index_of_from(s, c, from) matches Some(i) ==> from <= i < s.len() && s[i] == c,
    decreases s.len() - from,
{
    if 0 <= from < s.len() {
        lemma_index_of_bound(s, c, from + 1);
    }
}

fn prefix_before(s: &[char], c: char) -> (r: Option<Vec<char>>)
    ensures
        r is None <==> before_first(s@, c) is None,
        r matches Some(p) ==> before_first(s@, c) == Some(p@),
{
    let mut i: usize = 0;
    while i < s.len()
        invariant
            i <= s@.len(),
            index_of_from(s@, c, 0) == index_of_from(s@, c, i as int),
        decreases s@.len() - i,
    {
        if s[i] == c {
            let mut p: Vec<char> = Vec::new();
            let mut k: usize = 0;
            while k < i
                invariant
                    k <= i < s@.len(),
                    p@ == s@.subrange(0, k as int),
                decreases i - k,
            {
                p.push(s[k]);
                k = k + 1;
                assert(p@ =~= s@.subrange(0, k as int));
            }
            return Some(p);
        }
        i = i + 1;
    }
    None
}

impl User {
    /// The user has been stored (it has a database id).
    pub fn in_storage(&self) -> (b: bool)
        ensures
            b == (self.id > 0),
    {
        self.id > 0
    }

    /// The short form of the user's name (see `short_name_of`).
    pub fn short_name(&self) -> (r: String)
        ensures
            r@ == short_name_of(self.name@, self.email@),
    {
        let name = chars_of(self.name.as_str());
        if let Some(p) = prefix_before(name.as_slice(), ' ') {
            return text_of(p.as_slice());
        }
        let email = chars_of(self.email.as_str());
        if let Some(p) = prefix_before(email.as_slice(), '@') {
            return text_of(p.as_slice());
        }
        String::new()
    }

    /// Users need no checks before they are saved.
    pub fn validate(&self) -> (r: Result<(), crate::model::InvalidInput>)
        ensures
            r is Ok,
    {
        Ok(())
    }

    /// The user record after a sign-in: the stored user found by e-mail, with the provider
    /// and the subject the provider reported, or a new user with the reported e-mail, name
    /// (empty when the provider gave none), provider and subject.
    pub fn signed_in(
        existing: Option<User>,
        email: String,
        name: Option<String>,
        subject: String,
        provider: String,
    ) -> (r: User)
        ensures
            match existing {
                Some(u) => r.id == u.id && r.email == u.email && r.name == u.name
                    && r.oauth_provider == provider && r.oauth_id == subject,
                None => r.id == 0 && r.email == email && r.oauth_provider == provider
                    && r.oauth_id == subject && r.name@ == match name {
                    Some(n) => n@,
                    None => Seq::<char>::empty(),
                },
            },
    {
        match existing {
            Some(mut user) => {
                user.oauth_id = subject;
                user.oauth_provider = provider;
                user
            },
            None => {
                let name = match name {
                    Some(n) => n,
                    None => String::new(),
                };
                User { id: 0, email, name, oauth_provider: provider, oauth_id: subject }
            },
        }
    }
}

} // verus!
