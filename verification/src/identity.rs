//! Identity and role-based access: the roles every surface shares and how a
//! user's effective role is decided.

use vstd::prelude::*;
use crate::text::str_eq;

verus! {

/// A user's role. Higher rank means more privilege.
#[derive(Clone, Copy, PartialEq, Eq, Debug, Structural)]
pub enum Role {
    Admin,
    User,
    Viewer,
}

/// The role a stored role name stands for; unknown names read as `User`.
pub open spec fn role_of_name(s: Seq<char>) -> Role {
    if s == "admin"@ {
        Role::Admin
    } else if s == "viewer"@ {
        Role::Viewer
    } else {
        Role::User
    }
}

/// The stored name of a role.
pub open spec fn role_name(r: Role) -> Seq<char> {
    match r {
        Role::Admin => "admin"@,
        Role::User => "user"@,
        Role::Viewer => "viewer"@,
    }
}

/// The privilege rank of a role.
pub open spec fn role_rank(r: Role) -> nat {
    match r {
        Role::Viewer => 0,
        Role::User => 1,
        Role::Admin => 2,
    }
}

/// Whether `s` names one of the three roles exactly.
pub open spec fn is_role_name_spec(s: Seq<char>) -> bool {
    s == "admin"@ || s == "user"@ || s == "viewer"@
}

impl Role {
    /// The role a stored name stands for; anything unknown is `User`.
    pub fn parse(s: &str) -> (r: Role)
        ensures
            r == role_of_name(s@),
    {
        if str_eq(s, "admin") {
            Role::Admin
        } else if str_eq(s, "viewer") {
            Role::Viewer
        } else {
            Role::User
        }
    }

    /// The role's stored name.
    pub fn as_str(self) -> (r: &'static str)
        ensures
            r@ == role_name(self),
    {
        match self {
            Role::Admin => "admin",
            Role::User => "user",
            Role::Viewer => "viewer",
        }
    }

    /// Higher rank = more privilege (`Viewer` 0, `User` 1, `Admin` 2).
    pub fn rank(self) -> (r: u8)
        ensures
            r as nat == role_rank(self),
    {
        match self {
            Role::Viewer => 0,
            Role::User => 1,
            Role::Admin => 2,
        }
    }

    /// Whether this is the `Admin` role.
    pub fn is_admin(self) -> (r: bool)
        ensures
            r == (self == Role::Admin),
    {
        self == Role::Admin
    }
}

/// Whether `s` names a role exactly (role edits reject anything else).
pub fn is_role_name(s: &str) -> (r: bool)
    ensures
        r == is_role_name_spec(s@),
{
    str_eq(s, "admin") || str_eq(s, "user") || str_eq(s, "viewer")
}

/// Whether `v` holds `x`.
pub fn contains_u64(v: &Vec<u64>, x: u64) -> (r: bool)
    ensures
        r == v@.contains(x),
{
    let n = v.len();
    let mut i: usize = 0;
    while i < n
        invariant
            n == v@.len(),
            i <= n,
            forall|j: int| 0 <= j < i ==> v@[j] != x,
        decreases n - i,
    {
        if v[i] == x {
            assert(v@[i as int] == x);
            return true;
        }
        i = i + 1;
    }
    false
}

/// The role that needs no lookup: the guild owner and every configured admin
/// id are always `Admin`, so there is always a way in. `None` means the
/// stored role decides.
pub fn bootstrap_role(user_id: u64, guild_owner: Option<u64>, env_admins: &Vec<u64>) -> (r: Option<
    Role,
>)
    ensures
        r == (if guild_owner == Some(user_id) || env_admins@.contains(user_id) {
            Some(Role::Admin)
        } else {
            None
        }),
{
    let owner = match guild_owner {
        Some(o) => o == user_id,
        None => false,
    };
    if owner || contains_u64(env_admins, user_id) {
        Some(Role::Admin)
    } else {
        None
    }
}

/// The role a directory lookup yields: the stored role if a row was found,
/// else `User`.
pub fn stored_role(row: Option<&str>) -> (r: Role)
    ensures
        r == match row {
            Some(s) => role_of_name(s@),
            None => Role::User,
        },
{
    match row {
        Some(s) => Role::parse(s),
        None => Role::User,
    }
}

/// A user's effective role, given the bootstrap admins and (when it was
/// consulted) the stored role.
pub open spec fn effective_role(
    user_id: u64,
    guild_owner: Option<u64>,
    env_admins: Seq<u64>,
    row: Option<Seq<char>>,
) -> Role {
    if guild_owner == Some(user_id) || env_admins.contains(user_id) {
        Role::Admin
    } else {
        match row {
            Some(s) => role_of_name(s),
            None => Role::User,
        }
    }
}

/// The Telegram surface's role name for a user: configured admin ids are
/// `admin`; otherwise the stored role name verbatim, else `user`.
pub fn telegram_role(user_id: i64, admins: &Vec<u64>, row: Option<String>) -> (r: String)
    ensures
        r@ == if admins@.contains(user_id as u64) {
            "admin"@
        } else {
            match row {
                Some(s) => s@,
                None => "user"@,
            }
        },
{
    if contains_u64(admins, user_id as u64) {
        return crate::text::owned("admin");
    }
    match row {
        Some(s) => s,
        None => crate::text::owned("user"),
    }
}

/// Laws of the role names and ranks: every role survives a round trip through
/// its stored name, and ranks order the roles strictly.
pub proof fn role_name_round_trip(r: Role)
    ensures
        role_of_name(role_name(r)) == r,
        is_role_name_spec(role_name(r)),
        (role_rank(r) == 2) == (r == Role::Admin),
        forall|q: Role| role_rank(q) == role_rank(r) ==> q == r,
{
    reveal_strlit("admin");
    reveal_strlit("user");
    reveal_strlit("viewer");
    assert("admin"@.len() != "viewer"@.len());
    assert("user"@.len() != "admin"@.len());
    assert("user"@.len() != "viewer"@.len());
}

/// Law: the guild owner and every configured admin id are `Admin` whatever
/// the role store holds for them.
pub proof fn bootstrap_admins_are_admin(
    user_id: u64,
    guild_owner: Option<u64>,
    env_admins: Seq<u64>,
    row: Option<Seq<char>>,
)
    requires
        guild_owner == Some(user_id) || env_admins.contains(user_id),
    ensures
        effective_role(user_id, guild_owner, env_admins, row) == Role::Admin,
        role_rank(effective_role(user_id, guild_owner, env_admins, row)) == 2,
{
}

/// Law: a stored name reads as `Admin` exactly when it is `admin`, as
/// `Viewer` exactly when it is `viewer`, and as `User` otherwise; ranks go
/// viewer below user below admin.
pub proof fn role_names_are_exact(s: Seq<char>)
    ensures
        (role_of_name(s) == Role::Admin) <==> s == seq!['a', 'd', 'm', 'i', 'n'],
        (role_of_name(s) == Role::Viewer) <==> s == seq!['v', 'i', 'e', 'w', 'e', 'r'],
        (role_of_name(s) == Role::User) <==> (s != seq!['a', 'd', 'm', 'i', 'n'] && s != seq!['v', 'i', 'e', 'w', 'e', 'r']),
        is_role_name_spec(s) <==> (s == seq!['a', 'd', 'm', 'i', 'n'] || s == seq!['u', 's', 'e', 'r'] || s == seq!['v', 'i', 'e', 'w', 'e', 'r']),
        role_rank(Role::Viewer) < role_rank(Role::User),
        role_rank(Role::User) < role_rank(Role::Admin),
{
    reveal_strlit("admin");
    assert("admin"@ =~= seq!['a', 'd', 'm', 'i', 'n']);
    reveal_strlit("user");
    assert("user"@ =~= seq!['u', 's', 'e', 'r']);
    reveal_strlit("viewer");
    assert("viewer"@ =~= seq!['v', 'i', 'e', 'w', 'e', 'r']);
}

} // verus!
