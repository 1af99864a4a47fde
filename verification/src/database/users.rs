use vstd::prelude::*;
use crate::database::model::DbView;
use crate::database::password::can_check;
use crate::database::password::checkable;
use crate::database::password::is_salt;
use crate::database::password::lemma_recommended_is_addressable;
use crate::database::password::fresh_salt;
use crate::database::password::hash_password;
use crate::database::password::password_matches;
use crate::database::password::scrypt_hash;
use crate::database::password::verify_password;
use crate::database::Db;
use crate::models::copy_opt_text;
use crate::models::opt_text;
use crate::models::text_eq;
use crate::models::user::User;
use crate::models::user::UserView;

verus! {

/// Name of the unique key on the user name.
pub const USERNAME_KEY: &'static str = "users_username_key";

/// Name of the unique key on the address.
pub const EMAIL_KEY: &'static str = "users_email_key";

/// The values of a user that is about to be stored.
pub struct NewUser<'a> {
    pub username: &'a str,
    pub email: &'a str,
    pub hash: &'a str,
}

/// Why a user was not created.
#[derive(Clone, Copy, Debug, PartialEq, Eq, Structural)]
pub enum UserCreationError {
    /// The address belongs to another user.
    DuplicatedEmail,
    /// The name belongs to another user.
    DuplicatedUsername,
    /// The password could not be hashed, or no identity is left: nothing a
    /// caller can mend.
    Unexpected,
}

/// The characters of an optional borrowed text.
pub open spec fn opt_str(t: Option<&str>) -> Option<Seq<char>> {
    match t {
        Some(s) => Some(s@),
        None => None,
    }
}

/// Whether a constraint is one of the two unique keys of the user table.
pub open spec fn is_unique_key(constraint: Option<Seq<char>>) -> bool {
    constraint == Some(USERNAME_KEY@) || constraint == Some(EMAIL_KEY@)
}

impl UserCreationError {
    /// Decides whether a failed insert violated one of the two unique keys
    /// of the user table, by the name of the constraint.
    pub fn names_unique_key(constraint: Option<&str>) -> (known: bool)
        ensures
            known == is_unique_key(opt_str(constraint)),
    {
        match constraint {
            Some(name) => text_eq(name, USERNAME_KEY) || text_eq(name, EMAIL_KEY),
            None => false,
        }
    }

    /// Classifies a failed insert by the name of the unique key that it
    /// violated: the key on the name stands for the duplicated name, the key
    /// on the address for the duplicated address. Any other failure is
    /// nothing to classify: the caller tests with
    /// [`UserCreationError::names_unique_key`] first.
    pub fn from_constraint(constraint: Option<&str>) -> (e: UserCreationError)
        requires
            is_unique_key(opt_str(constraint)),
        ensures
            e == UserCreationError::DuplicatedUsername <==> opt_str(constraint) == Some(
                USERNAME_KEY@,
            ),
            e == UserCreationError::DuplicatedEmail <==> opt_str(constraint) == Some(EMAIL_KEY@),
    {
        proof {
            lemma_keys_differ();
        }
        match constraint {
            Some(name) => {
                if text_eq(name, USERNAME_KEY) {
                    UserCreationError::DuplicatedUsername
                } else {
                    UserCreationError::DuplicatedEmail
                }
            },
            None => UserCreationError::DuplicatedEmail,
        }
    }
}

/// The two unique keys have different names.
pub proof fn lemma_keys_differ()
    ensures
        USERNAME_KEY@ != EMAIL_KEY@,
{
    reveal_strlit("users_username_key");
    reveal_strlit("users_email_key");
    assert(USERNAME_KEY@.len() == 18);
    assert(EMAIL_KEY@.len() == 15);
}

/// The unique key that a user with this name and address would violate:
/// the address is looked at first.
pub open spec fn violated(db: DbView, username: Seq<char>, email: Seq<char>) -> Option<Seq<char>> {
    if db.has_email(email) {
        Some(EMAIL_KEY@)
    } else if db.has_username(username) {
        Some(USERNAME_KEY@)
    } else {
        None
    }
}

/// Finds the unique key that a user with this name and address would
/// violate.
pub fn violated_key(db: &Db, username: &str, email: &str) -> (key: Option<&'static str>)
    ensures
        opt_str(key) == violated(db@, username@, email@),
{
    if db.email_position(email).is_some() {
        Some(EMAIL_KEY)
    } else if db.username_position(username).is_some() {
        Some(USERNAME_KEY)
    } else {
        None
    }
}

/// The row of a new user in `db`: it gets the next identity and neither
/// biography nor image.
pub open spec fn new_user_row(
    db: DbView,
    username: Seq<char>,
    email: Seq<char>,
    hash: Seq<char>,
) -> UserView {
    UserView { id: db.next_user_id, username, email, bio: None, image: None, hash }
}

/// What a stored user of a result holds.
pub open spec fn user_result(r: Result<User, UserCreationError>) -> Result<
    UserView,
    UserCreationError,
> {
    match r {
        Ok(u) => Ok(u@),
        Err(e) => Err(e),
    }
}

/// How storing a user relates the state before, the state after and the
/// result: a used address and then a used name are refused as duplicates, a
/// table without an identity left is refused as unexpected, and nothing
/// changes; else the user is the newest row and comes back.
pub open spec fn insert_outcome(
    pre: DbView,
    post: DbView,
    r: Result<UserView, UserCreationError>,
    username: Seq<char>,
    email: Seq<char>,
    hash: Seq<char>,
) -> bool {
    if pre.has_email(email) {
        &&& r == Err::<UserView, UserCreationError>(UserCreationError::DuplicatedEmail)
        &&& post == pre
    } else if pre.has_username(username) {
        &&& r == Err::<UserView, UserCreationError>(UserCreationError::DuplicatedUsername)
        &&& post == pre
    } else if pre.next_user_id >= i32::MAX {
        &&& r == Err::<UserView, UserCreationError>(UserCreationError::Unexpected)
        &&& post == pre
    } else {
        &&& r == Ok::<UserView, UserCreationError>(new_user_row(pre, username, email, hash))
        &&& post == pre.with_user(new_user_row(pre, username, email, hash))
    }
}

/// Stores a new user and returns the stored row.
pub fn insert(db: &mut Db, new_user: &NewUser) -> (r: Result<User, UserCreationError>)
    requires
        old(db).wf(),
    ensures
        final(db).wf(),
        insert_outcome(
            old(db)@,
            final(db)@,
            user_result(r),
            new_user.username@,
            new_user.email@,
            new_user.hash@,
        ),
{
    proof {
        lemma_keys_differ();
    }
    match violated_key(db, new_user.username, new_user.email) {
        Some(key) => {
            return Err(UserCreationError::from_constraint(Some(key)));
        },
        None => {},
    }
    if db.next_user_id >= i32::MAX {
        return Err(UserCreationError::Unexpected);
    }
    let ghost pre = db@;
    let user = User {
        id: db.next_user_id,
        username: new_user.username.to_owned(),
        email: new_user.email.to_owned(),
        bio: None,
        image: None,
        hash: new_user.hash.to_owned(),
    };
    let ghost row = new_user_row(pre, new_user.username@, new_user.email@, new_user.hash@);
    assert(user@ == row);
    let stored = user.clone();
    db.users.push(user);
    db.next_user_id = db.next_user_id + 1;
    proof {
        pre.lemma_with_user_wf(row);
        assert(db@.users =~= pre.users.push(row));
        assert(db@ == pre.with_user(row));
    }
    Ok(stored)
}

/// How creating a user under a given salt relates the state before, the
/// state after and the result. Where the password can be hashed under the
/// salt, the user is stored with the hash as by [`insert_outcome`]. Where it
/// cannot, nothing is stored: a used address and then a used name are
/// refused as duplicates all the same, and anything else as unexpected.
pub open spec fn create_outcome(
    pre: DbView,
    post: DbView,
    r: Result<UserView, UserCreationError>,
    username: Seq<char>,
    email: Seq<char>,
    password: Seq<char>,
    salt: Seq<char>,
) -> bool {
    match scrypt_hash(password, salt) {
        Some(hash) => insert_outcome(pre, post, r, username, email, hash),
        None => {
            &&& post == pre
            &&& r == Err::<UserView, UserCreationError>(
                if pre.has_email(email) {
                    UserCreationError::DuplicatedEmail
                } else if pre.has_username(username) {
                    UserCreationError::DuplicatedUsername
                } else {
                    UserCreationError::Unexpected
                },
            )
        },
    }
}

/// Creating a user under an address that is in use yields the
/// duplicate-address error, whatever the name and the password, and stores
/// nothing.
pub proof fn lemma_used_email_is_refused(
    pre: DbView,
    post: DbView,
    r: Result<UserView, UserCreationError>,
    username: Seq<char>,
    email: Seq<char>,
    password: Seq<char>,
    salt: Seq<char>,
)
    requires
        pre.has_email(email),
        create_outcome(pre, post, r, username, email, password, salt),
    ensures
        r == Err::<UserView, UserCreationError>(UserCreationError::DuplicatedEmail),
        post == pre,
        post.users.len() == pre.users.len(),
{
}

/// Stores a new user whose password was hashed under `salt`. A user that
/// was stored can log in with the password.
pub fn create_salted(db: &mut Db, username: &str, email: &str, password: &str, salt: &str) -> (r:
    Result<User, UserCreationError>)
    requires
        old(db).wf(),
    ensures
        final(db).wf(),
        create_outcome(
            old(db)@,
            final(db)@,
            user_result(r),
            username@,
            email@,
            password@,
            salt@,
        ),
        r is Ok ==> can_log_in(final(db)@, email@) && logged_in(final(db)@, email@, password@)
            == Some(r.unwrap()@),
{
    proof {
        lemma_keys_differ();
    }
    match violated_key(db, username, email) {
        Some(key) => {
            return Err(UserCreationError::from_constraint(Some(key)));
        },
        None => {},
    }
    match hash_password(password, salt) {
        Some(hash) => {
            let r = insert(db, &NewUser { username, email, hash: hash.as_str() });
            proof {
                if r is Ok {
                    let n = old(db)@.users.len() as int;
                    assert(db@.users[n] == r.unwrap()@);
                    db@.lemma_email_at(n);
                    lemma_recommended_is_addressable();
                }
            }
            r
        },
        None => Err(UserCreationError::Unexpected),
    }
}

/// Creates a user: hashes the password under a fresh random salt and
/// stores the user with the hash. A user that was stored can log in with
/// the password.
pub fn create(db: &mut Db, username: &str, email: &str, password: &str) -> (r: Result<
    User,
    UserCreationError,
>)
    requires
        old(db).wf(),
    ensures
        final(db).wf(),
        exists|salt: Seq<char>|
            is_salt(salt) && #[trigger] create_outcome(
                old(db)@,
                final(db)@,
                user_result(r),
                username@,
                email@,
                password@,
                salt,
            ),
        r is Ok ==> can_log_in(final(db)@, email@) && logged_in(final(db)@, email@, password@)
            == Some(r.unwrap()@),
{
    let salt = fresh_salt();
    create_salted(db, username, email, password, salt.as_str())
}

/// What a login yields for the user found under the address and the
/// outcome of the password check: the user where the password matched,
/// nothing where it did not.
pub fn authenticated(user: User, password_ok: bool) -> (r: Option<User>)
    ensures
        r == if password_ok {
            Some(user)
        } else {
            None
        },
{
    if password_ok {
        Some(user)
    } else {
        None
    }
}

/// What a user of an optional one holds.
pub open spec fn opt_user(r: Option<User>) -> Option<UserView> {
    match r {
        Some(u) => Some(u@),
        None => None,
    }
}

/// What a login yields: the user with the address `email`, if there is
/// one and the password matches the stored hash.
pub open spec fn logged_in(db: DbView, email: Seq<char>, password: Seq<char>) -> Option<UserView> {
    if db.has_email(email) && password_matches(password, db.users[db.email_index(email)].hash) {
        Some(db.users[db.email_index(email)])
    } else {
        None
    }
}

/// Whether a login under `email` can be checked on this machine: no user
/// has the address, or the stored hash is [`checkable`].
pub open spec fn can_log_in(db: DbView, email: Seq<char>) -> bool {
    db.has_email(email) ==> checkable(db.users[db.email_index(email)].hash)
}

/// Logs in: the user with the address `email`, if there is one and the
/// password matches the stored hash. An unknown address and a wrong
/// password look the same from outside. The stored hash must be one that
/// this machine can check; [`try_login`] tests that.
pub fn login(db: &Db, email: &str, password: &str) -> (r: Option<User>)
    requires
        db.wf(),
        can_log_in(db@, email@),
    ensures
        opt_user(r) == logged_in(db@, email@, password@),
{
    match db.email_position(email) {
        Some(i) => {
            proof {
                db@.lemma_email_at(i as int);
            }
            let user = db.users[i].clone();
            let password_ok = verify_password(password, user.hash.as_str());
            authenticated(user, password_ok)
        },
        None => None,
    }
}

/// Why a login was not tried.
#[derive(Clone, Copy, Debug, PartialEq, Eq, Structural)]
pub enum LoginError {
    /// The stored hash asks for buffers that this machine cannot address.
    UncheckableHash,
}

/// What a user of a login that was tried holds.
pub open spec fn login_result(r: Result<Option<User>, LoginError>) -> Result<
    Option<UserView>,
    LoginError,
> {
    match r {
        Ok(u) => Ok(opt_user(u)),
        Err(e) => Err(e),
    }
}

/// Logs in as [`login`] does where the stored hash can be checked on this
/// machine, and says so where it cannot.
pub fn try_login(db: &Db, email: &str, password: &str) -> (r: Result<Option<User>, LoginError>)
    requires
        db.wf(),
    ensures
        login_result(r) == if can_log_in(db@, email@) {
            Ok::<Option<UserView>, LoginError>(logged_in(db@, email@, password@))
        } else {
            Err::<Option<UserView>, LoginError>(LoginError::UncheckableHash)
        },
{
    match db.email_position(email) {
        Some(i) => {
            proof {
                db@.lemma_email_at(i as int);
            }
            if can_check(db.users[i].hash.as_str()) {
                Ok(login(db, email, password))
            } else {
                Err(LoginError::UncheckableHash)
            }
        },
        None => Ok(login(db, email, password)),
    }
}

/// Looks up the user with the identity `id`.
pub fn find(db: &Db, id: i32) -> (r: Option<User>)
    requires
        db.wf(),
    ensures
        opt_user(r) == if db@.has_user(id as int) {
            Some(db@.user(id as int))
        } else {
            None
        },
{
    match db.user_position(id) {
        Some(i) => {
            proof {
                db@.lemma_user_at(i as int);
            }
            Some(db.users[i].clone())
        },
        None => None,
    }
}

/// The fields of a user that an update rewrites. A field that is `None`
/// stays as it is. The password is carried but never written.
#[derive(Debug, PartialEq, Eq)]
pub struct UpdateUserData {
    pub username: Option<String>,
    pub email: Option<String>,
    pub bio: Option<String>,
    pub image: Option<String>,
    pub password: Option<String>,
}

impl Default for UpdateUserData {
    fn default() -> (r: UpdateUserData)
        ensures
            r.username is None,
            r.email is None,
            r.bio is None,
            r.image is None,
            r.password is None,
    {
        UpdateUserData { username: None, email: None, bio: None, image: None, password: None }
    }
}

impl UpdateUserData {
    /// The user `u` rewritten by this update. The hash stays, whatever the
    /// password field holds.
    pub open spec fn rewrite(&self, u: UserView) -> UserView {
        UserView {
            id: u.id,
            username: match opt_text(self.username) {
                Some(n) => n,
                None => u.username,
            },
            email: match opt_text(self.email) {
                Some(e) => e,
                None => u.email,
            },
            bio: match opt_text(self.bio) {
                Some(b) => Some(b),
                None => u.bio,
            },
            image: match opt_text(self.image) {
                Some(i) => Some(i),
                None => u.image,
            },
            hash: u.hash,
        }
    }
}

/// Whether the user with the identity `id` can be rewritten by `data`: the
/// user exists, and a new name or address belongs to no other user.
pub open spec fn can_update(db: DbView, id: int, data: &UpdateUserData) -> bool {
    &&& db.has_user(id)
    &&& data.username is Some ==> data.username.unwrap()@ == db.user(id).username
        || !db.has_username(data.username.unwrap()@)
    &&& data.email is Some ==> data.email.unwrap()@ == db.user(id).email || !db.has_email(
        data.email.unwrap()@,
    )
}

/// Updates the user with the identity `id` and returns the rewritten row.
/// Nothing changes and nothing comes back where the user does not exist or
/// the new name or address belongs to another user.
pub fn update(db: &mut Db, id: i32, data: &UpdateUserData) -> (r: Option<User>)
    requires
        old(db).wf(),
    ensures
        final(db).wf(),
        can_update(old(db)@, id as int, data) ==> {
            &&& final(db)@ == old(db)@.with_rewritten_user(
                old(db)@.user_index(id as int),
                data.rewrite(old(db)@.user(id as int)),
            )
            &&& opt_user(r) == Some(data.rewrite(old(db)@.user(id as int)))
        },
        !can_update(old(db)@, id as int, data) ==> final(db)@ == old(db)@ && r is None,
{
    let at = db.user_position(id);
    if at.is_none() {
        return None;
    }
    let i: usize = at.unwrap();
    let ghost pre = db@;
    proof {
        pre.lemma_user_at(i as int);
        assert(pre.users[i as int] == db.users[i as int]@);
    }
    match &data.username {
        Some(name) => {
            match db.username_position(name.as_str()) {
                Some(j) => {
                    proof {
                        pre.lemma_username_at(j as int);
                    }
                    if j != i {
                        return None;
                    }
                },
                None => {},
            }
        },
        None => {},
    }
    match &data.email {
        Some(email) => {
            match db.email_position(email.as_str()) {
                Some(j) => {
                    proof {
                        pre.lemma_email_at(j as int);
                    }
                    if j != i {
                        return None;
                    }
                },
                None => {},
            }
        },
        None => {},
    }
    let current = &db.users[i];
    let user = User {
        id: current.id,
        username: match &data.username {
            Some(n) => n.clone(),
            None => current.username.clone(),
        },
        email: match &data.email {
            Some(e) => e.clone(),
            None => current.email.clone(),
        },
        bio: match &data.bio {
            Some(b) => Some(b.clone()),
            None => copy_opt_text(&current.bio),
        },
        image: match &data.image {
            Some(p) => Some(p.clone()),
            None => copy_opt_text(&current.image),
        },
        hash: current.hash.clone(),
    };
    let ghost rewritten = data.rewrite(pre.users[i as int]);
    assert(user@ == rewritten);
    proof {
        assert forall|j: int| 0 <= j < pre.users.len() && j != i implies (
        #[trigger] pre.users[j]).username != rewritten.username && pre.users[j].email
            != rewritten.email by {
            if pre.users[j].username == rewritten.username {
                pre.lemma_username_at(j);
            }
            if pre.users[j].email == rewritten.email {
                pre.lemma_email_at(j);
            }
        }
        pre.lemma_with_rewritten_user_wf(i as int, rewritten);
    }
    let stored = user.clone();
    db.users.set(i, user);
    proof {
        assert(db@.users =~= pre.users.update(i as int, rewritten));
        assert(db@ == pre.with_rewritten_user(i as int, rewritten));
    }
    Some(stored)
}

} // verus!
