use realworld::database::password::{can_check, fits_in_memory, SALT_LEN};
use realworld::database::users::{
    authenticated, create, create_salted, find, insert, login, try_login, update, violated_key,
    LoginError, NewUser, UpdateUserData, UserCreationError, EMAIL_KEY, USERNAME_KEY,
};
use realworld::database::Db;

fn stored(db: &mut Db, name: &str, email: &str) -> i32 {
    match insert(db, &NewUser { username: name, email, hash: "stored-hash" }) {
        Ok(user) => user.id,
        Err(_) => panic!("user was refused"),
    }
}

#[test]
fn insert_stores_user_under_next_identity() {
    let mut db = Db::new(false);
    let user = insert(&mut db, &NewUser { username: "alice", email: "a@x.com", hash: "h1" }).unwrap();
    assert_eq!(user.id, 1);
    assert_eq!(user.username, "alice");
    assert_eq!(user.email, "a@x.com");
    assert_eq!(user.bio, None);
    assert_eq!(user.image, None);
    assert_eq!(user.hash, "h1");
    let other = insert(&mut db, &NewUser { username: "bob", email: "b@x.com", hash: "h2" }).unwrap();
    assert_eq!(other.id, 2);
    assert_eq!(db.users().len(), 2);
    assert_eq!(db.users()[0], user);
    assert_eq!(db.users()[1], other);
}

#[test]
fn used_email_is_a_duplicated_email() {
    let mut db = Db::new(false);
    stored(&mut db, "alice", "a@x.com");
    let r = insert(&mut db, &NewUser { username: "bob", email: "a@x.com", hash: "h" });
    assert_eq!(r, Err(UserCreationError::DuplicatedEmail));
    let r = create(&mut db, "carol", "a@x.com", "secret");
    assert_eq!(r, Err(UserCreationError::DuplicatedEmail));
    let r = create(&mut db, "alice", "a@x.com", "secret");
    assert_eq!(r, Err(UserCreationError::DuplicatedEmail));
    assert_eq!(db.users().len(), 1);
    assert_eq!(db.users()[0].username, "alice");
}

#[test]
fn used_name_is_a_duplicated_username() {
    let mut db = Db::new(false);
    stored(&mut db, "alice", "a@x.com");
    let r = insert(&mut db, &NewUser { username: "alice", email: "other@x.com", hash: "h" });
    assert_eq!(r, Err(UserCreationError::DuplicatedUsername));
    let r = create(&mut db, "alice", "other@x.com", "secret");
    assert_eq!(r, Err(UserCreationError::DuplicatedUsername));
    assert_eq!(db.users().len(), 1);
}

#[test]
fn constraint_names_are_classified() {
    assert_eq!(
        UserCreationError::from_constraint(Some("users_username_key")),
        UserCreationError::DuplicatedUsername
    );
    assert_eq!(
        UserCreationError::from_constraint(Some("users_email_key")),
        UserCreationError::DuplicatedEmail
    );
    assert!(UserCreationError::names_unique_key(Some("users_username_key")));
    assert!(UserCreationError::names_unique_key(Some("users_email_key")));
    assert!(!UserCreationError::names_unique_key(Some("users_pkey")));
    assert!(!UserCreationError::names_unique_key(Some("")));
    assert!(!UserCreationError::names_unique_key(None));
    assert_eq!(USERNAME_KEY, "users_username_key");
    assert_eq!(EMAIL_KEY, "users_email_key");
}

#[test]
fn violated_key_looks_at_the_email_first() {
    let mut db = Db::new(false);
    stored(&mut db, "alice", "a@x.com");
    assert_eq!(violated_key(&db, "alice", "a@x.com"), Some("users_email_key"));
    assert_eq!(violated_key(&db, "bob", "a@x.com"), Some("users_email_key"));
    assert_eq!(violated_key(&db, "alice", "b@x.com"), Some("users_username_key"));
    assert_eq!(violated_key(&db, "bob", "b@x.com"), None);
}

const WEAK_HASH: &str =
    "$scrypt$ln=4,r=8,p=1$AAECAwQFBgcICQoLDA0ODw$FBYrbyejpsRMOOxNjJ4WhxLlIIkIxp/izmMfHJ7w9YU";

#[test]
fn login_checks_the_password_against_the_stored_hash() {
    let mut db = Db::new(false);
    let user =
        insert(&mut db, &NewUser { username: "alice", email: "a@x.com", hash: WEAK_HASH }).unwrap();
    assert_eq!(login(&db, "a@x.com", "secret"), Some(user));
    assert_eq!(login(&db, "a@x.com", "Secret"), None);
    assert_eq!(login(&db, "a@x.com", ""), None);
    assert_eq!(login(&db, "a@x.com", WEAK_HASH), None);
    assert_eq!(login(&db, "b@x.com", "secret"), None);
}

#[test]
fn login_takes_a_hash_with_any_parameters() {
    let mut db = Db::new(false);
    let other =
        "$scrypt$ln=5,r=4,p=2$AAECAwQFBgcICQoLDA0ODw$bsUNyRyewpxQUqTIvV0PQltczqEXsTQ/cS63g2BfmcA";
    let user =
        insert(&mut db, &NewUser { username: "alice", email: "a@x.com", hash: other }).unwrap();
    assert_eq!(login(&db, "a@x.com", "secret"), Some(user.clone()));
    assert_eq!(login(&db, "a@x.com", "other"), None);
    assert_eq!(try_login(&db, "a@x.com", "secret"), Ok(Some(user)));
    assert_eq!(try_login(&db, "a@x.com", "other"), Ok(None));
    assert_eq!(try_login(&db, "b@x.com", "secret"), Ok(None));
}

#[test]
fn try_login_says_where_a_hash_cannot_be_checked() {
    let mut db = Db::new(false);
    let huge = WEAK_HASH.replace("ln=4,", "ln=53,");
    insert(&mut db, &NewUser { username: "alice", email: "a@x.com", hash: &huge }).unwrap();
    insert(&mut db, &NewUser { username: "bob", email: "b@x.com", hash: WEAK_HASH }).unwrap();
    insert(&mut db, &NewUser { username: "carol", email: "c@x.com", hash: "no hash" }).unwrap();
    assert_eq!(try_login(&db, "a@x.com", "secret"), Err(LoginError::UncheckableHash));
    assert_eq!(try_login(&db, "b@x.com", "secret").unwrap().unwrap().username, "bob");
    assert_eq!(try_login(&db, "c@x.com", "secret"), Ok(None));
    assert_eq!(try_login(&db, "d@x.com", "secret"), Ok(None));
}

#[test]
fn buffers_of_a_hash_must_be_addressable() {
    assert!(fits_in_memory(17, 8, 1));
    assert!(fits_in_memory(0, 1, 1));
    assert!(fits_in_memory(63, 0, 0));
    assert!(fits_in_memory(200, 0, 7));
    assert!(!fits_in_memory(64, 1, 1));
    assert!(!fits_in_memory(255, 1, 1));
    assert!(!fits_in_memory(63, 1, 1));
    assert_eq!(fits_in_memory(52, 8, 1), usize::BITS >= 64);
    assert_eq!(fits_in_memory(20, 8, 1), usize::BITS >= 32);
    assert!(!fits_in_memory(53, 8, 1));
    assert!(fits_in_memory(1, 1, 1_000_000));
    assert!(!fits_in_memory(1, u32::MAX, u32::MAX));
    assert!(can_check(WEAK_HASH));
    assert!(can_check("no hash"));
    assert!(can_check(""));
    assert!(!can_check(&WEAK_HASH.replace("ln=4,", "ln=53,")));
    assert_eq!(SALT_LEN, 22);
}

#[test]
fn create_refuses_a_salt_that_is_none() {
    let mut db = Db::new(false);
    stored(&mut db, "alice", "a@x.com");
    let r = create_salted(&mut db, "carol", "c@x.com", "secret", "!");
    assert_eq!(r, Err(UserCreationError::Unexpected));
    let r = create_salted(&mut db, "carol", "c@x.com", "secret", "");
    assert_eq!(r, Err(UserCreationError::Unexpected));
    let r = create_salted(&mut db, "carol", "a@x.com", "secret", "!");
    assert_eq!(r, Err(UserCreationError::DuplicatedEmail));
    let r = create_salted(&mut db, "alice", "c@x.com", "secret", "!");
    assert_eq!(r, Err(UserCreationError::DuplicatedUsername));
    assert_eq!(db.users().len(), 1);
}

#[test]
fn login_refuses_a_hash_that_is_no_hash() {
    let mut db = Db::new(false);
    stored(&mut db, "alice", "a@x.com");
    assert_eq!(login(&db, "a@x.com", "stored-hash"), None);
    assert_eq!(try_login(&db, "a@x.com", "stored-hash"), Ok(None));
}

#[test]
fn authenticated_follows_the_password_check() {
    let mut db = Db::new(false);
    stored(&mut db, "alice", "a@x.com");
    let user = find(&db, 1).unwrap();
    assert_eq!(authenticated(user.clone(), true), Some(user.clone()));
    assert_eq!(authenticated(user, false), None);
}

#[test]
fn find_looks_up_by_identity() {
    let mut db = Db::new(false);
    stored(&mut db, "alice", "a@x.com");
    stored(&mut db, "bob", "b@x.com");
    assert_eq!(find(&db, 2).unwrap().username, "bob");
    assert_eq!(find(&db, 1).unwrap().email, "a@x.com");
    assert_eq!(find(&db, 3), None);
    assert_eq!(find(&db, 0), None);
}

#[test]
fn update_rewrites_named_fields_and_never_the_hash() {
    let mut db = Db::new(false);
    let id = stored(&mut db, "alice", "a@x.com");
    let data = UpdateUserData {
        username: Some("alicia".to_string()),
        bio: Some("hello".to_string()),
        password: Some("new-password".to_string()),
        ..UpdateUserData::default()
    };
    let user = update(&mut db, id, &data).unwrap();
    assert_eq!(user.id, id);
    assert_eq!(user.username, "alicia");
    assert_eq!(user.email, "a@x.com");
    assert_eq!(user.bio, Some("hello".to_string()));
    assert_eq!(user.image, None);
    assert_eq!(user.hash, "stored-hash");
    assert_eq!(db.users()[0], user);
    let data = UpdateUserData { image: Some("pic".to_string()), ..UpdateUserData::default() };
    let user = update(&mut db, id, &data).unwrap();
    assert_eq!(user.bio, Some("hello".to_string()));
    assert_eq!(user.image, Some("pic".to_string()));
}

#[test]
fn update_refuses_unknown_user_and_taken_values() {
    let mut db = Db::new(false);
    let alice = stored(&mut db, "alice", "a@x.com");
    stored(&mut db, "bob", "b@x.com");
    let name = UpdateUserData { username: Some("bob".to_string()), ..UpdateUserData::default() };
    assert_eq!(update(&mut db, alice, &name), None);
    let email = UpdateUserData { email: Some("b@x.com".to_string()), ..UpdateUserData::default() };
    assert_eq!(update(&mut db, alice, &email), None);
    assert_eq!(update(&mut db, 9, &UpdateUserData::default()), None);
    assert_eq!(db.users()[0].username, "alice");
    assert_eq!(db.users()[0].email, "a@x.com");
    let own = UpdateUserData {
        username: Some("alice".to_string()),
        email: Some("a@x.com".to_string()),
        ..UpdateUserData::default()
    };
    assert!(update(&mut db, alice, &own).is_some());
}
