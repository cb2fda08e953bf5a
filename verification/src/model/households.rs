//! Households: the members who share a budget and their roles.

use crate::text::{chars_of, text_eq, text_of};
use vstd::prelude::*;

verus! {

/// What a member of a household may do: managers run the household, assistants import
/// statements, members see their own accounts.
#[derive(Debug, Clone, Copy, PartialEq, Eq, Structural)]
pub enum Role {
    Manager,
    Assistant,
    Member,
}

/// The text a role is stored as.
pub open spec fn role_text(role: Role) -> Seq<char> {
    match role {
        Role::Manager => "manager"@,
        Role::Assistant => "assistant"@,
        Role::Member => "member"@,
    }
}

/// The role stored as `value`; anything unknown reads as a plain member.
pub open spec fn role_of(value: Seq<char>) -> Role {
    if value == "manager"@ {
        Role::Manager
    } else if value == "assistant"@ {
        Role::Assistant
    } else {
        Role::Member
    }
}

impl Role {
    /// The role stored as `value` (see `role_of`).
    pub fn parse(value: &str) -> (r: Role)
        ensures
            r == role_of(value@),
    {
        if text_eq(value, "manager") {
            Role::Manager
        } else if text_eq(value, "assistant") {
            Role::Assistant
        } else {
            Role::Member
        }
    }

    /// The text the role is stored as.
    pub fn as_str(self) -> (r: &'static str)
        ensures
            r@ == role_text(self),
    {
        match self {
            Role::Manager => "manager",
            Role::Assistant => "assistant",
            Role::Member => "member",
        }
    }

    /// The name of the role as it is shown to users.
    pub fn display_name(self) -> (r: String)
        ensures
            r@ == match self {
                Role::Manager => "Manager"@,
                Role::Assistant => "Assistant"@,
                Role::Member => "Member"@,
            },
    {
        let s = match self {
            Role::Manager => "Manager",
            Role::Assistant => "Assistant",
            Role::Member => "Member",
        };
        text_of(chars_of(s).as_slice())
    }
}

/// A role reads back from the text it is stored as.
pub proof fn lemma_role_text_round_trip(role: Role)
    ensures
        role_of(role_text(role)) == role,
{
    reveal_strlit("manager");
    reveal_strlit("assistant");
    reveal_strlit("member");
    assert("manager"@.len() == 7);
    assert("assistant"@.len() == 9);
    assert("member"@.len() == 6);
    assert("assistant"@ != "manager"@);
    assert("member"@ != "manager"@);
    assert("member"@ != "assistant"@);
}

/// A user's membership of a household.
#[derive(Debug, Clone)]
pub struct HouseholdMembership {
    pub household_id: i64,
    pub user_id: i64,
    pub role: Role,
}

impl HouseholdMembership {
    /// The membership stored with the role text `role`.
    pub fn from_row(household_id: i64, user_id: i64, role: &str) -> (r: HouseholdMembership)
        ensures
            r.household_id == household_id,
            r.user_id == user_id,
            r.role == role_of(role@),
    {
        HouseholdMembership { household_id, user_id, role: Role::parse(role) }
    }

    /// The membership of the first member of a new household: its manager.
    pub fn founder(household_id: i64, user_id: i64) -> (r: HouseholdMembership)
        ensures
            r.household_id == household_id,
            r.user_id == user_id,
            r.role == Role::Manager,
    {
        HouseholdMembership { household_id, user_id, role: Role::Manager }
    }
}

/// A member of a household, as the household page lists them.
#[derive(Debug, Clone)]
pub struct HouseholdMember {
    pub user_id: i64,
    pub email: String,
    pub name: String,
    pub role: Role,
}

impl HouseholdMember {
    /// The member stored with the role text `role`.
    pub fn from_row(user_id: i64, email: String, name: String, role: &str) -> (r: HouseholdMember)
        ensures
            r.user_id == user_id,
            r.email == email,
            r.name == name,
            r.role == role_of(role@),
    {
        HouseholdMember { user_id, email, name, role: Role::parse(role) }
    }
}

/// `user_id` is a manager among `members`.
pub open spec fn is_manager_in(members: Seq<HouseholdMember>, user_id: i64) -> bool {
    exists|k: int| 0 <= k < members.len() && #[trigger] members[k].user_id == user_id && members[k].role == Role::Manager
}

/// Someone other than `user_id` is a manager among `members`.
pub open spec fn other_manager(members: Seq<HouseholdMember>, user_id: i64) -> bool {
    exists|k: int| 0 <= k < members.len() && #[trigger] members[k].user_id != user_id && members[k].role == Role::Manager
}

/// Some member is a manager.
pub open spec fn has_manager(members: Seq<HouseholdMember>) -> bool {
    exists|k: int| 0 <= k < members.len() && #[trigger] members[k].role == Role::Manager
}

/// The member `m` of `members` takes `role`: `m` is `user_id`, `actor_id` is a manager, and
/// the change does not take away the last manager.
pub open spec fn member_changes(
    members: Seq<HouseholdMember>,
    m: HouseholdMember,
    actor_id: i64,
    user_id: i64,
    role: Role,
) -> bool {
    &&& m.user_id == user_id
    &&& is_manager_in(members, actor_id)
    &&& (m.role != Role::Manager || role == Role::Manager || other_manager(members, user_id))
}

/// `m` with `role`.
pub open spec fn with_role(m: HouseholdMember, role: Role) -> HouseholdMember {
    HouseholdMember { user_id: m.user_id, email: m.email, name: m.name, role }
}

/// `members` after `actor_id` gives `user_id` the role `role`.
pub open spec fn roles_after(
    members: Seq<HouseholdMember>,
    actor_id: i64,
    user_id: i64,
    role: Role,
) -> Seq<HouseholdMember> {
    members.map_values(
        |m: HouseholdMember|
            if member_changes(members, m, actor_id, user_id, role) {
                with_role(m, role)
            } else {
                m
            },
    )
}

/// Some member takes the new role.
pub open spec fn role_change_applies(
    members: Seq<HouseholdMember>,
    actor_id: i64,
    user_id: i64,
    role: Role,
) -> bool {
    exists|k: int| 0 <= k < members.len() && member_changes(members, #[trigger] members[k], actor_id, user_id, role)
}

fn manager_flags(members: &Vec<HouseholdMember>, actor_id: i64, user_id: i64) -> (r: (bool, bool))
    ensures
        r.0 == is_manager_in(members@, actor_id),
        r.1 == other_manager(members@, user_id),
{
    let mut actor = false;
    let mut other = false;
    let mut k: usize = 0;
    while k < members.len()
        invariant
            k <= members@.len(),
            actor == exists|j: int| 0 <= j < k && #[trigger] members@[j].user_id == actor_id && members@[j].role == Role::Manager,
            other == exists|j: int| 0 <= j < k && #[trigger] members@[j].user_id != user_id && members@[j].role == Role::Manager,
        decreases members@.len() - k,
    {
        let m = &members[k];
        if m.role == Role::Manager {
            if m.user_id == actor_id {
                actor = true;
            }
            if m.user_id != user_id {
                other = true;
            }
        }
        k = k + 1;
    }
    (actor, other)
}

/// `actor_id` gives the member `user_id` the role `role`. Only a manager may change roles,
/// and a household must keep a manager: the change is refused, and nothing changes, when
/// it would take the last manager's role away.
pub fn set_role(members: &mut Vec<HouseholdMember>, actor_id: i64, user_id: i64, role: Role) -> (r: Result<(), String>)
    ensures
        final(members)@ == roles_after(old(members)@, actor_id, user_id, role),
        r is Ok <==> role_change_applies(old(members)@, actor_id, user_id, role),
        r matches Err(e) ==> e@
            == "Only household managers can change roles, and a household must retain a manager"@,
{
    let ghost start = members@;
    let (actor, other) = manager_flags(members, actor_id, user_id);
    let mut changed = false;
    let mut k: usize = 0;
    while k < members.len()
        invariant
            k <= members@.len(),
            members@.len() == start.len(),
            actor == is_manager_in(start, actor_id),
            other == other_manager(start, user_id),
            forall|j: int| 0 <= j < k ==> #[trigger] members@[j] == (if member_changes(start, start[j], actor_id, user_id, role) {
                with_role(start[j], role)
            } else {
                start[j]
            }),
            forall|j: int| k <= j < members@.len() ==> #[trigger] members@[j] == start[j],
            changed == exists|j: int| 0 <= j < k && member_changes(start, #[trigger] start[j], actor_id, user_id, role),
        decreases members@.len() - k,
    {
        let m_user = members[k].user_id;
        let m_role = members[k].role;
        if m_user == user_id && actor && (m_role != Role::Manager || role == Role::Manager || other) {
            let email = members[k].email.clone();
            let name = members[k].name.clone();
            let updated = HouseholdMember { user_id: m_user, email, name, role };
            members.set(k, updated);
            changed = true;
        }
        k = k + 1;
    }
    assert(members@ =~= roles_after(start, actor_id, user_id, role));
    if changed {
        Ok(())
    } else {
        Err(text_of(chars_of("Only household managers can change roles, and a household must retain a manager").as_slice()))
    }
}

/// A household that has a manager keeps one, whatever role change is asked for.
pub proof fn lemma_household_retains_manager(
    members: Seq<HouseholdMember>,
    actor_id: i64,
    user_id: i64,
    role: Role,
)
    requires
        has_manager(members),
    ensures
        has_manager(roles_after(members, actor_id, user_id, role)),
{
    let after = roles_after(members, actor_id, user_id, role);
    let k = choose|k: int| 0 <= k < members.len() && #[trigger] members[k].role == Role::Manager;
    if member_changes(members, members[k], actor_id, user_id, role) && role != Role::Manager {
        let j = choose|j: int| 0 <= j < members.len() && #[trigger] members[j].user_id != user_id && members[j].role == Role::Manager;
        assert(after[j].role == Role::Manager);
    } else {
        assert(after[k].role == Role::Manager);
    }
}

/// Only a manager changes roles: when `actor_id` is no manager, no member's role changes.
pub proof fn lemma_only_managers_change_roles(
    members: Seq<HouseholdMember>,
    actor_id: i64,
    user_id: i64,
    role: Role,
)
    requires
        !is_manager_in(members, actor_id),
    ensures
        roles_after(members, actor_id, user_id, role) == members,
{
    assert(roles_after(members, actor_id, user_id, role) =~= members);
}

/// A manager's role change is carried out whenever it leaves the household a manager: when
/// `actor_id` is a manager and the member `user_id` is no manager, or is given the manager
/// role, or another manager remains, the change succeeds, the member gets `role` and every
/// other member keeps theirs.
pub proof fn lemma_manager_changes_roles(
    members: Seq<HouseholdMember>,
    actor_id: i64,
    user_id: i64,
    role: Role,
    a: int,
    t: int,
)
    requires
        0 <= a < members.len(),
        members[a].user_id == actor_id,
        members[a].role == Role::Manager,
        0 <= t < members.len(),
        members[t].user_id == user_id,
        role == Role::Manager
            || (forall|j: int| 0 <= j < members.len() && #[trigger] members[j].user_id == user_id ==> members[j].role != Role::Manager)
            || (exists|j: int| 0 <= j < members.len() && #[trigger] members[j].user_id != user_id && members[j].role == Role::Manager),
    ensures
        role_change_applies(members, actor_id, user_id, role),
        forall|j: int| 0 <= j < members.len() && #[trigger] members[j].user_id == user_id ==> {
            &&& roles_after(members, actor_id, user_id, role)[j].role == role
            &&& roles_after(members, actor_id, user_id, role)[j].email == members[j].email
            &&& roles_after(members, actor_id, user_id, role)[j].name == members[j].name
        },
        forall|j: int| 0 <= j < members.len() && #[trigger] members[j].user_id != user_id ==> roles_after(
            members,
            actor_id,
            user_id,
            role,
        )[j] == members[j],
        roles_after(members, actor_id, user_id, role).len() == members.len(),
{
    assert(is_manager_in(members, actor_id));
    assert(member_changes(members, members[t], actor_id, user_id, role));
}

/// Whether a household member with `role` and id `viewer_id` sees a transaction imported by
/// `imported_by` on an account owned by `account_owner`: a manager sees every transaction,
/// an assistant those it imported, a member those on its own accounts.
pub open spec fn sees_transaction(role: Role, viewer_id: i64, imported_by: i64, account_owner: i64) -> bool {
    match role {
        Role::Manager => true,
        Role::Assistant => imported_by == viewer_id,
        Role::Member => account_owner == viewer_id,
    }
}

/// Whether a household member with `role` and id `viewer_id` may filter by an account owned
/// by `owner`: a member only by its own accounts, the others by every account.
pub open spec fn sees_account(role: Role, viewer_id: i64, owner: i64) -> bool {
    role != Role::Member || owner == viewer_id
}

/// The part of the household's transactions a member sees, as a condition on the
/// transaction's importer or the owner of its account.
#[derive(Debug, Clone, Copy, PartialEq, Eq, Structural)]
pub enum Visibility {
    /// Every transaction.
    All,
    /// The transactions imported by this user.
    ImportedBy(i64),
    /// The transactions on accounts owned by this user.
    OwnAccounts(i64),
}

impl Visibility {
    /// Whether the transaction imported by `imported_by` on an account owned by
    /// `account_owner` is in this part.
    pub open spec fn admits(self, imported_by: i64, account_owner: i64) -> bool {
        match self {
            Visibility::All => true,
            Visibility::ImportedBy(u) => imported_by == u,
            Visibility::OwnAccounts(u) => account_owner == u,
        }
    }

    /// What a member with `role` and id `viewer_id` sees.
    pub fn of(role: Role, viewer_id: i64) -> (r: Visibility)
        ensures
            forall|imported_by: i64, account_owner: i64|
                #[trigger] r.admits(imported_by, account_owner) == sees_transaction(role, viewer_id, imported_by, account_owner),
            r matches Visibility::OwnAccounts(u) ==> u == viewer_id,
            (r is OwnAccounts) == (role == Role::Member),
    {
        match role {
            Role::Manager => Visibility::All,
            Role::Assistant => Visibility::ImportedBy(viewer_id),
            Role::Member => Visibility::OwnAccounts(viewer_id),
        }
    }

    /// The SQL condition on transactions `t` joined with their accounts `a` that keeps this
    /// part; its one parameter is `bound_user()`, which is null for every transaction.
    pub fn transaction_clause(&self) -> (r: &'static str)
        ensures
            r@ == match *self {
                Visibility::All => "? is null"@,
                Visibility::ImportedBy(_) => "t.imported_by_user_id = ?"@,
                Visibility::OwnAccounts(_) => "a.user_id = ?"@,
            },
    {
        proof {
            reveal_strlit("? is null");
            reveal_strlit("t.imported_by_user_id = ?");
            reveal_strlit("a.user_id = ?");
        }
        match self {
            Visibility::All => "? is null",
            Visibility::ImportedBy(_) => "t.imported_by_user_id = ?",
            Visibility::OwnAccounts(_) => "a.user_id = ?",
        }
    }

    /// The SQL condition on `accounts` that keeps the accounts a member may filter by (see
    /// `sees_account`); its one parameter is `account_user()`.
    pub fn account_clause(&self) -> (r: &'static str)
        ensures
            r@ == match *self {
                Visibility::OwnAccounts(_) => "user_id = ?"@,
                _ => "? is null"@,
            },
    {
        proof {
            reveal_strlit("? is null");
            reveal_strlit("user_id = ?");
        }
        match self {
            Visibility::OwnAccounts(_) => "user_id = ?",
            _ => "? is null",
        }
    }

    /// The user the clauses compare with, none for every transaction.
    pub fn bound_user(&self) -> (r: Option<i64>)
        ensures
            r == match *self {
                Visibility::All => None,
                Visibility::ImportedBy(u) => Some(u),
                Visibility::OwnAccounts(u) => Some(u),
            },
    {
        match self {
            Visibility::All => None,
            Visibility::ImportedBy(u) => Some(*u),
            Visibility::OwnAccounts(u) => Some(*u),
        }
    }

    /// The user the account clause compares with: the member's own id, none for the others.
    pub fn account_user(&self) -> (r: Option<i64>)
        ensures
            r == match *self {
                Visibility::OwnAccounts(u) => Some(u),
                _ => None,
            },
    {
        match self {
            Visibility::OwnAccounts(u) => Some(*u),
            _ => None,
        }
    }
}

/// Whoever sees a transaction may also filter by its account.
pub proof fn lemma_visible_transactions_have_visible_accounts(
    role: Role,
    viewer_id: i64,
    imported_by: i64,
    account_owner: i64,
)
    requires
        sees_transaction(role, viewer_id, imported_by, account_owner),
    ensures
        sees_account(role, viewer_id, account_owner),
{
}

} // verus!
