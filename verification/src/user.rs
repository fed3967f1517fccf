use vstd::prelude::*;

verus! {

use crate::LoadError;
use crate::clone_opt_string;
use crate::LoadResult;
use crate::auth::UserState;
use crate::keys::fold_of;
use crate::keys::fold_key;
use crate::loader::entry_views;

/// How the user's credential is stored.
#[derive(Debug, Clone, Copy, PartialEq, Eq, Structural)]
pub enum Crypto {
    BCrypt,
    KeyCloak,
}

/// Standing of the account.
#[derive(Debug, Clone, Copy, PartialEq, Eq, Structural)]
pub enum UserStatus {
    Active,
    Deleted,
    SiteBan,
}

/// An immutable snapshot of one user.  The join date is seconds.  The
/// private fields -- credential scheme, email, password metadata, reset
/// counter -- sit behind the per-field authorization gate.
#[derive(Debug, PartialEq, Eq)]
pub struct User {
    pub uid: String,
    pub crypto: Crypto,
    pub joindate: Option<i64>,
    pub name: Option<String>,
    pub email: Option<String>,
    pub password: Option<String>,
    pub score: i32,
    pub given: i32,
    pub status: UserStatus,
    pub resets: i32,
}

impl Clone for User {
    fn clone(&self) -> (r: Self)
        ensures
            r == *self,
    {
        User {
            uid: self.uid.clone(),
            crypto: self.crypto,
            joindate: self.joindate,
            name: clone_opt_string(&self.name),
            email: clone_opt_string(&self.email),
            password: clone_opt_string(&self.password),
            score: self.score,
            given: self.given,
            status: self.status,
            resets: self.resets,
        }
    }
}

/// The store's credential-scheme code: one and two are known; anything else
/// is outside the domain.
pub open spec fn spec_crypto(code: i32) -> Option<Crypto> {
    if code == 1 {
        Some(Crypto::BCrypt)
    } else if code == 2 {
        Some(Crypto::KeyCloak)
    } else {
        None
    }
}

/// The store's account-status code: zero, ten and five are known; anything
/// else is outside the domain.
pub open spec fn spec_user_status(code: i32) -> Option<UserStatus> {
    if code == 0 {
        Some(UserStatus::Active)
    } else if code == 10 {
        Some(UserStatus::Deleted)
    } else if code == 5 {
        Some(UserStatus::SiteBan)
    } else {
        None
    }
}

/// One raw user row as the store round trip hands it over, enumerated
/// columns still encoded.
#[derive(Debug, PartialEq, Eq)]
pub struct UserRow {
    pub uid: String,
    pub crypto: i32,
    pub joindate: Option<i64>,
    pub name: Option<String>,
    pub email: Option<String>,
    pub password: Option<String>,
    pub score: i32,
    pub given: i32,
    pub status: i32,
    pub resets: i32,
}

/// The user a row decodes to, or the decode failure when either enumerated
/// column carries an unrecognized code.
pub open spec fn spec_decode_user(row: UserRow) -> LoadResult<User> {
    if spec_crypto(row.crypto) is None || spec_user_status(row.status) is None {
        Err(LoadError::DecodeFailure)
    } else {
        Ok(
            (User {
                uid: row.uid,
                crypto: spec_crypto(row.crypto)->Some_0,
                joindate: row.joindate,
                name: row.name,
                email: row.email,
                password: row.password,
                score: row.score,
                given: row.given,
                status: spec_user_status(row.status)->Some_0,
                resets: row.resets,
            }),
        )
    }
}

/// Assemble one user from its raw row.  A failure concerns this row alone
/// and never its batch siblings.
pub fn decode_user(row: UserRow) -> (r: LoadResult<User>)
    ensures
        r == spec_decode_user(row),
{
    let crypto = if row.crypto == 1 {
        Crypto::BCrypt
    } else if row.crypto == 2 {
        Crypto::KeyCloak
    } else {
        return Err(LoadError::DecodeFailure);
    };
    let status = if row.status == 0 {
        UserStatus::Active
    } else if row.status == 10 {
        UserStatus::Deleted
    } else if row.status == 5 {
        UserStatus::SiteBan
    } else {
        return Err(LoadError::DecodeFailure);
    };
    Ok(
        User {
            uid: row.uid,
            crypto,
            joindate: row.joindate,
            name: row.name,
            email: row.email,
            password: row.password,
            score: row.score,
            given: row.given,
            status,
            resets: row.resets,
        },
    )
}

/// The mapping entries one user row contributes: its result under the
/// case-folded user key, and under the case-folded display name where it
/// has one, so a lookup by either succeeds.
pub open spec fn spec_user_row_entries(row: UserRow) -> Seq<(Seq<char>, LoadResult<User>)> {
    match row.name {
        Some(n) => seq![
            (fold_of(row.uid@), spec_decode_user(row)),
            (fold_of(n@), spec_decode_user(row)),
        ],
        None => seq![(fold_of(row.uid@), spec_decode_user(row))],
    }
}

/// The resolver mapping of one round trip's user rows, row by row.
pub open spec fn spec_user_entries(rows: Seq<UserRow>) -> Seq<(Seq<char>, LoadResult<User>)>
    decreases rows.len(),
{
    if rows.len() == 0 {
        Seq::empty()
    } else {
        spec_user_row_entries(rows[0]) + spec_user_entries(rows.subrange(1, rows.len() as int))
    }
}

fn dup_user_result(r: &LoadResult<User>) -> (d: LoadResult<User>)
    ensures
        d == *r,
{
    match r {
        Ok(u) => Ok(u.clone()),
        Err(e) => Err(*e),
    }
}

/// The batch resolver for users: each row decodes alone and is indexed under
/// both its folded key and its folded display name.
pub struct UserLoader;

impl UserLoader {
    /// Turn one round trip's rows into the resolver's returned mapping.
    /// Missing keys are synthesized by the loader, not here.
    pub fn resolve_rows(rows: Vec<UserRow>) -> (r: Vec<(String, LoadResult<User>)>)
        ensures
            entry_views(r@) == spec_user_entries(rows@),
    {
        let ghost rows0 = rows@;
        let mut rows = rows;
        let mut r: Vec<(String, LoadResult<User>)> = Vec::new();
        while rows.len() > 0
            invariant
                entry_views(r@) + spec_user_entries(rows@) =~= spec_user_entries(rows0),
            decreases rows@.len(),
        {
            let ghost rows_pre = rows@;
            let ghost r_pre = r@;
            let row = rows.remove(0);
            let uid_key = fold_key(row.uid.as_str());
            let name_key = match &row.name {
                Some(n) => Some(fold_key(n.as_str())),
                None => None,
            };
            let res = decode_user(row);
            match name_key {
                Some(nk) => {
                    let copy = dup_user_result(&res);
                    r.push((uid_key, copy));
                    r.push((nk, res));
                },
                None => {
                    r.push((uid_key, res));
                },
            }
            proof {
                assert(rows@ =~= rows_pre.subrange(1, rows_pre.len() as int));
                assert(spec_user_entries(rows_pre) == spec_user_row_entries(rows_pre[0])
                    + spec_user_entries(rows@));
                assert(entry_views(r@) =~= entry_views(r_pre) + spec_user_row_entries(
                    rows_pre[0],
                ));
                assert(entry_views(r@) + spec_user_entries(rows@) =~= spec_user_entries(rows0));
            }
        }
        proof {
            assert(entry_views(r@) =~= spec_user_entries(rows0));
        }
        r
    }
}

impl User {
    /// The key under which this user is loaded: the folded user key.
    pub fn key(&self) -> (r: String)
        ensures
            r@ == fold_of(self.uid@),
    {
        fold_key(self.uid.as_str())
    }

    pub fn uid(&self) -> (r: String)
        ensures
            r == self.uid,
    {
        self.uid.clone()
    }

    pub fn name(&self) -> (r: Option<String>)
        ensures
            r == self.name,
    {
        clone_opt_string(&self.name)
    }

    pub fn joindate(&self) -> (r: Option<i64>)
        ensures
            r == self.joindate,
    {
        self.joindate
    }

    pub fn score(&self) -> (r: i32)
        ensures
            r == self.score,
    {
        self.score
    }

    pub fn given(&self) -> (r: i32)
        ensures
            r == self.given,
    {
        self.given
    }

    pub fn status(&self) -> (r: UserStatus)
        ensures
            r == self.status,
    {
        self.status
    }

    /// The credential scheme, behind the private-field gate: readable by
    /// this user or a site administrator, `Unauthorized` for anyone else.
    pub fn crypto(&self, viewer: &UserState) -> (r: Result<Crypto, LoadError>)
        ensures
            viewer.spec_can_view_private(self.uid@) ==> r == Ok::<Crypto, LoadError>(self.crypto),
            !viewer.spec_can_view_private(self.uid@) ==> r == Err::<Crypto, LoadError>(
                LoadError::Unauthorized,
            ),
    {
        match viewer.private_user_data(self.uid.as_str()) {
            Ok(_) => Ok(self.crypto),
            Err(e) => Err(e),
        }
    }

    /// The email address, behind the private-field gate: readable by this
    /// user or a site administrator, `Unauthorized` for anyone else.
    pub fn email(&self, viewer: &UserState) -> (r: Result<Option<String>, LoadError>)
        ensures
            viewer.spec_can_view_private(self.uid@) ==> (r matches Ok(e) && e == self.email),
            !viewer.spec_can_view_private(self.uid@) ==> r == Err::<Option<String>, LoadError>(
                LoadError::Unauthorized,
            ),
    {
        match viewer.private_user_data(self.uid.as_str()) {
            Ok(_) => Ok(clone_opt_string(&self.email)),
            Err(e) => Err(e),
        }
    }

    /// The password-reset counter, behind the private-field gate: readable
    /// by this user or a site administrator, `Unauthorized` for anyone else.
    pub fn resets(&self, viewer: &UserState) -> (r: Result<i32, LoadError>)
        ensures
            viewer.spec_can_view_private(self.uid@) ==> r == Ok::<i32, LoadError>(self.resets),
            !viewer.spec_can_view_private(self.uid@) ==> r == Err::<i32, LoadError>(
                LoadError::Unauthorized,
            ),
    {
        match viewer.private_user_data(self.uid.as_str()) {
            Ok(_) => Ok(self.resets),
            Err(e) => Err(e),
        }
    }
}

} // verus!
