use vstd::prelude::*;

verus! {

use crate::LoadError;

/// Power level of a community moderator; owner outranks moderator, who
/// outranks janitor.  Every level grants the same visibility into deleted
/// content of the community.
#[derive(Debug, Clone, Copy, PartialEq, Eq, Structural)]
pub enum Level {
    Owner,
    Mod,
    Janitor,
}

/// One permission fact attached to an identified principal: site-wide
/// administrator, or moderator of the named community at some level.
#[derive(Debug, Clone, PartialEq, Eq)]
pub enum Role {
    Admin,
    Mod(String, Level),
}

/// The per-request principal: anonymous, or identified with a stable user key
/// and the set of role facts resolved once at request start.  Immutable for
/// the lifetime of the request; every field gate consults it without another
/// store round trip.
#[derive(Debug, Clone, PartialEq, Eq)]
pub enum UserState {
    Anonymous,
    LoggedIn { name: String, id: String, roles: Vec<Role> },
}

/// Some role is site administrator.
pub open spec fn has_admin(roles: Seq<Role>) -> bool {
    exists|i: int| 0 <= i < roles.len() && roles[i] is Admin
}

/// Some role moderates the community `sid`, at any level.
pub open spec fn has_mod(roles: Seq<Role>, sid: Seq<char>) -> bool {
    exists|i: int|
        0 <= i < roles.len() && ((#[trigger] roles[i]) matches Role::Mod(s, _) && s@ == sid)
}

/// The store's moderator power-level code: zero is owner, one is moderator,
/// anything else is janitor.
pub open spec fn spec_level(l: int) -> Level {
    if l == 0 {
        Level::Owner
    } else if l == 1 {
        Level::Mod
    } else {
        Level::Janitor
    }
}

/// Smaller of two lengths, for zipping community and level columns.
pub open spec fn spec_min(a: int, b: int) -> int {
    if a < b {
        a
    } else {
        b
    }
}

fn roles_have_admin(roles: &Vec<Role>) -> (r: bool)
    ensures
        r == has_admin(roles@),
{
    let mut i: usize = 0;
    while i < roles.len()
        invariant
            i <= roles@.len(),
            forall|j: int| 0 <= j < i ==> !(roles@[j] is Admin),
        decreases roles@.len() - i,
    {
        match &roles[i] {
            Role::Admin => {
                return true;
            },
            _ => {},
        }
        i += 1;
    }
    false
}

fn roles_have_mod(roles: &Vec<Role>, sid: &String) -> (r: bool)
    ensures
        r == has_mod(roles@, sid@),
{
    let mut i: usize = 0;
    while i < roles.len()
        invariant
            i <= roles@.len(),
            forall|j: int|
                0 <= j < i ==> !((#[trigger] roles@[j]) matches Role::Mod(s, _) && s@ == sid@),
        decreases roles@.len() - i,
    {
        let role = &roles[i];
        proof {
            assert(*role == roles@[i as int]);
        }
        match role {
            Role::Mod(s, _) => {
                if *s == *sid {
                    proof {
                        assert((roles@[i as int] matches Role::Mod(t, _) && t@ == sid@));
                    }
                    return true;
                }
                proof {
                    assert(!(roles@[i as int] matches Role::Mod(t, _) && t@ == sid@));
                }
            },
            _ => {},
        }
        i += 1;
    }
    false
}

impl UserState {
    /// The principal of a request that carried no usable credential.
    pub fn anonymous() -> (r: UserState)
        ensures
            r == UserState::Anonymous,
    {
        UserState::Anonymous
    }

    /// Whether the principal is anonymous.
    pub fn is_anon(&self) -> (r: bool)
        ensures
            r == (*self is Anonymous),
    {
        match self {
            UserState::Anonymous => true,
            UserState::LoggedIn { .. } => false,
        }
    }

    /// Who may read private fields of the user keyed `check_id`: that user
    /// when identified, or a site administrator.  Anonymous principals never
    /// pass.
    pub open spec fn spec_can_view_private(self, check_id: Seq<char>) -> bool {
        match self {
            UserState::Anonymous => false,
            UserState::LoggedIn { id, roles, .. } => id@ == check_id || has_admin(roles@),
        }
    }

    /// Gate for private fields (email, password metadata, reset counters) of
    /// the user keyed `check_id`: passes exactly for that identified user or
    /// a site administrator, and fails with `Unauthorized` for everyone else.
    pub fn private_user_data(&self, check_id: &str) -> (r: Result<(), LoadError>)
        ensures
            r is Ok <==> self.spec_can_view_private(check_id@),
            r is Err ==> r == Err::<(), LoadError>(LoadError::Unauthorized),
    {
        match self {
            UserState::Anonymous => Err(LoadError::Unauthorized),
            UserState::LoggedIn { id, roles, .. } => {
                if *id == check_id.to_owned() {
                    return Ok(());
                }
                if roles_have_admin(roles) {
                    return Ok(());
                }
                Err(LoadError::Unauthorized)
            },
        }
    }

    /// Who may read soft-deleted content in community `sub_id` written by
    /// `author_id`: the author when identified, a site administrator, or any
    /// moderator of that community.
    pub open spec fn spec_can_view_deleted(self, sub_id: Seq<char>, author_id: Seq<char>) -> bool {
        match self {
            UserState::Anonymous => false,
            UserState::LoggedIn { id, roles, .. } => id@ == author_id || has_admin(roles@)
                || has_mod(roles@, sub_id),
        }
    }

    /// Gate for content of soft-deleted posts and comments: ownership and
    /// moderation both grant visibility, whatever the deletion tier;
    /// anonymous principals never pass.
    pub fn can_view_deleted(&self, sub_id: &str, author_id: &str) -> (r: bool)
        ensures
            r == self.spec_can_view_deleted(sub_id@, author_id@),
    {
        match self {
            UserState::Anonymous => false,
            UserState::LoggedIn { id, roles, .. } => {
                if *id == author_id.to_owned() {
                    true
                } else if roles_have_admin(roles) {
                    true
                } else {
                    roles_have_mod(roles, &sub_id.to_owned())
                }
            },
        }
    }

    /// The identified principal assembled from the one login round trip: the
    /// user's row joined with an admin marker and the communities the user
    /// moderates, column-aligned with their power levels.  A missing display
    /// name becomes the empty string; the admin fact, when present, is the
    /// last role.
    pub fn from_login_row(
        name: Option<String>,
        uid: String,
        subs: Vec<String>,
        levels: Vec<i64>,
        admin: bool,
    ) -> (r: UserState)
        ensures
            ({
                let k = spec_min(subs@.len() as int, levels@.len() as int);
                &&& r matches UserState::LoggedIn { name: rname, id, roles } &&& id@ == uid@
                &&& (match name {
                    Some(n) => rname@ == n@,
                    None => rname@ == Seq::<char>::empty(),
                })
                &&& roles@.len() == k + if admin {
                    1int
                } else {
                    0int
                }
                &&& (forall|i: int|
                    0 <= i < k ==> ((#[trigger] roles@[i]) matches Role::Mod(s, lv) && s@
                        == subs@[i]@ && lv == spec_level(levels@[i] as int)))
                &&& (admin ==> roles@[k] is Admin)
            }),
    {
        let mut roles: Vec<Role> = Vec::new();
        let k = if subs.len() < levels.len() {
            subs.len()
        } else {
            levels.len()
        };
        let mut i: usize = 0;
        while i < k
            invariant
                i <= k,
                k == spec_min(subs@.len() as int, levels@.len() as int),
                roles@.len() == i,
                forall|j: int|
                    0 <= j < i ==> ((#[trigger] roles@[j]) matches Role::Mod(s, lv) && s@
                        == subs@[j]@ && lv == spec_level(levels@[j] as int)),
            decreases k - i,
        {
            let level = levels[i];
            let lv = if level == 0 {
                Level::Owner
            } else if level == 1 {
                Level::Mod
            } else {
                Level::Janitor
            };
            roles.push(Role::Mod(subs[i].clone(), lv));
            i += 1;
        }
        if admin {
            roles.push(Role::Admin);
        }
        let rname = match name {
            Some(n) => n,
            None => String::new(),
        };
        UserState::LoggedIn { name: rname, id: uid, roles }
    }
}

} // verus!
