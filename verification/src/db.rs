//! What the server asks of its database, and what it learns from it.
//!
//! The database itself stands outside: a request that needs it ends in a [`Lookup`] or a
//! [`DbWrite`] to be carried out, and goes on with the outcome.

use vstd::prelude::*;

use crate::auth;
use crate::auth::AuthError;
use crate::text;

verus! {

/// The view of a [`UserRecord`].
pub ghost struct UserRecordView {
    pub username: Seq<char>,
    pub password_hash: Seq<char>,
    pub role: Seq<char>,
    pub banned: i64,
}

/// A stored user.
#[derive(Debug, Clone)]
pub struct UserRecord {
    pub username: String,
    pub password_hash: String,
    pub role: String,
    pub banned: i64,
}

impl View for UserRecord {
    type V = UserRecordView;

    open spec fn view(&self) -> UserRecordView {
        UserRecordView {
            username: self.username@,
            password_hash: self.password_hash@,
            role: self.role@,
            banned: self.banned,
        }
    }
}

impl UserRecord {
    /// Whether the user is banned.
    pub fn is_banned(&self) -> (banned: bool)
        ensures
            banned == (self@.banned != 0),
    {
        self.banned != 0
    }
}

/// The view of a [`Lookup`].
pub ghost enum LookupView {
    Found(UserRecordView),
    Missing,
    Failed,
}

/// The outcome of looking a user up by name.
#[derive(Debug, Clone)]
pub enum Lookup {
    Found(UserRecord),
    Missing,
    /// The database reported an error.
    Failed,
}

impl View for Lookup {
    type V = LookupView;

    open spec fn view(&self) -> LookupView {
        match self {
            Lookup::Found(record) => LookupView::Found(record@),
            Lookup::Missing => LookupView::Missing,
            Lookup::Failed => LookupView::Failed,
        }
    }
}

/// The view of a [`DbWrite`].
pub ghost enum DbWriteView {
    CreateUser { username: Seq<char>, password_hash: Seq<char>, role: Seq<char> },
    SetRole { username: Seq<char>, role: Seq<char> },
    SetPassword { username: Seq<char>, password_hash: Seq<char> },
    SetBanned { username: Seq<char>, banned: bool },
    DeleteUser { username: Seq<char> },
    CreateRoom { name: Seq<char> },
    DeleteRoom { name: Seq<char> },
}

/// A change of the database.
#[derive(Debug, Clone, PartialEq, Eq)]
pub enum DbWrite {
    /// Inserts a user who is not banned.
    CreateUser { username: String, password_hash: String, role: String },
    SetRole { username: String, role: String },
    SetPassword { username: String, password_hash: String },
    SetBanned { username: String, banned: bool },
    DeleteUser { username: String },
    /// Records a room, where it is not recorded yet.
    CreateRoom { name: String },
    DeleteRoom { name: String },
}

impl View for DbWrite {
    type V = DbWriteView;

    open spec fn view(&self) -> DbWriteView {
        match self {
            DbWrite::CreateUser { username, password_hash, role } => DbWriteView::CreateUser {
                username: username@,
                password_hash: password_hash@,
                role: role@,
            },
            DbWrite::SetRole { username, role } => DbWriteView::SetRole {
                username: username@,
                role: role@,
            },
            DbWrite::SetPassword { username, password_hash } => DbWriteView::SetPassword {
                username: username@,
                password_hash: password_hash@,
            },
            DbWrite::SetBanned { username, banned } => DbWriteView::SetBanned {
                username: username@,
                banned: *banned,
            },
            DbWrite::DeleteUser { username } => DbWriteView::DeleteUser { username: username@ },
            DbWrite::CreateRoom { name } => DbWriteView::CreateRoom { name: name@ },
            DbWrite::DeleteRoom { name } => DbWriteView::DeleteRoom { name: name@ },
        }
    }
}

/// The account that is made where no administrator exists yet, given the hash of its password.
pub fn admin_account(password_hash: String) -> (write: DbWrite)
    ensures
        write@ == (DbWriteView::CreateUser {
            username: "admin"@,
            password_hash: password_hash@,
            role: "admin"@,
        }),
{
    DbWrite::CreateUser {
        username: "admin".to_owned(),
        password_hash,
        role: "admin".to_owned(),
    }
}

/// What is to be written to have an administrator, given whether there is one and the outcome of
/// hashing the password.
pub open spec fn seed(has_admin: bool, hash: Result<Seq<char>, AuthError>) -> Result<
    Option<DbWriteView>,
    AuthError,
> {
    if has_admin {
        Ok(None)
    } else {
        match hash {
            Ok(h) => Ok(
                Some(
                    DbWriteView::CreateUser {
                        username: "admin"@,
                        password_hash: h,
                        role: "admin"@,
                    },
                ),
            ),
            Err(err) => Err(err),
        }
    }
}

/// The view of what is to be written.
pub open spec fn seed_view(made: Result<Option<DbWrite>, AuthError>) -> Result<
    Option<DbWriteView>,
    AuthError,
> {
    match made {
        Ok(write) => Ok(text::opt_view(write)),
        Err(err) => Err(err),
    }
}

/// Makes sure that there is an administrator: nothing to do where there is one; otherwise the
/// account `admin` is to be created with the given password.
pub fn ensure_admin(has_admin: bool, password: &str) -> (made: Result<
    Option<DbWrite>,
    AuthError,
>)
    ensures
        has_admin ==> made == Ok::<Option<DbWrite>, AuthError>(None),
        !has_admin ==> exists|hash: Result<Seq<char>, AuthError>| #[trigger]
            auth::may_hash(password@, hash) && seed_view(made) == seed(false, hash),
{
    if has_admin {
        return Ok(None);
    }
    let hash = auth::hash_password(password);
    assert(auth::may_hash(password@, auth::hash_view(hash)));
    match hash {
        Ok(hash) => Ok(Some(admin_account(hash))),
        Err(err) => Err(err),
    }
}

/// The users of a database, by name.
pub type Users = Map<Seq<char>, UserRecordView>;

/// Whether one of the stored users is an administrator.
pub open spec fn admin_stored(users: Users) -> bool {
    exists|name: Seq<char>| #[trigger] users.contains_key(name) && users[name].role == "admin"@
}

/// The stored users once an account has been created; a name that is taken keeps its record.
pub open spec fn with_account(users: Users, write: DbWriteView) -> Users {
    match write {
        DbWriteView::CreateUser { username, password_hash, role } => if users.contains_key(
            username,
        ) {
            users
        } else {
            users.insert(username, UserRecordView { username, password_hash, role, banned: 0 })
        },
        _ => users,
    }
}

/// The stored users once an administrator has been made sure of.
pub open spec fn seeded(users: Users, hash: Result<Seq<char>, AuthError>) -> Users {
    match seed(admin_stored(users), hash) {
        Ok(Some(write)) => with_account(users, write),
        _ => users,
    }
}

/// Making sure of an administrator writes something exactly where none is stored and the password
/// could be hashed. The account `admin` then is an administrator, is not banned, and has the
/// password given. A second time writes nothing, whatever the password, so that the first one
/// stays. A stored user called `admin` who is no administrator is left out.
pub proof fn law_admin_is_made_once(
    users: Users,
    password: Seq<char>,
    hash: Result<Seq<char>, AuthError>,
    later: Result<Seq<char>, AuthError>,
)
    requires
        auth::may_hash(password, hash),
        users.contains_key("admin"@) ==> users["admin"@].role == "admin"@,
    ensures
        seed(admin_stored(users), hash) is Ok && seed(admin_stored(users), hash)->Ok_0 is Some
            <==> !admin_stored(users) && hash is Ok,
        admin_stored(users) ==> seeded(users, hash) == users,
        !admin_stored(users) && hash is Ok ==> ({
            let after = seeded(users, hash);
            &&& after.contains_key("admin"@)
            &&& after["admin"@].role == "admin"@
            &&& after["admin"@].banned == 0
            &&& auth::accepts(password, after["admin"@].password_hash)
        }),
        admin_stored(users) || hash is Ok ==> {
            &&& seed(admin_stored(seeded(users, hash)), later) == Ok::<
                Option<DbWriteView>,
                AuthError,
            >(None)
            &&& seeded(seeded(users, hash), later) == seeded(users, hash)
        },
{
    if !admin_stored(users) && hash is Ok {
        assert(!users.contains_key("admin"@));
        assert(seeded(users, hash).contains_key("admin"@));
    }
}

} // verus!
