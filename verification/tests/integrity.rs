use realworld::database::model::{Favorite, Follow};
use realworld::database::users::NewUser;
use realworld::database::{articles, comments, profiles, users, Db};
use realworld::models::article::Article;
use realworld::models::comment::Comment;
use realworld::models::timestamp::Timestamp;
use realworld::models::user::User;

fn user(id: i32, name: &str) -> User {
    User {
        id,
        username: name.to_string(),
        email: format!("{}@x.com", name),
        bio: None,
        image: None,
        hash: "h".to_string(),
    }
}

fn article(id: i32, slug: &str, author: i32, favorites_count: i32) -> Article {
    Article {
        id,
        slug: slug.to_string(),
        title: slug.to_string(),
        description: "d".to_string(),
        body: "b".to_string(),
        author,
        tag_list: vec![],
        created_at: Timestamp::epoch(),
        updated_at: Timestamp::epoch(),
        favorites_count,
    }
}

fn comment(id: i32, article: i32, author: i32) -> Comment {
    Comment {
        id,
        body: "c".to_string(),
        article,
        author,
        created_at: Timestamp::epoch(),
        updated_at: Timestamp::epoch(),
    }
}

fn restore(
    users: Vec<User>,
    articles: Vec<Article>,
    comments: Vec<Comment>,
    favorites: Vec<Favorite>,
    follows: Vec<Follow>,
) -> Option<Db> {
    Db::restore(users, articles, comments, favorites, follows, Timestamp::epoch(), false)
}

#[test]
fn session_stays_consistent_through_the_operations() {
    let mut db = Db::new(false);
    assert!(db.is_consistent());
    let a = users::insert(&mut db, &NewUser { username: "a", email: "a@x.com", hash: "h" })
        .unwrap()
        .id;
    let b = users::insert(&mut db, &NewUser { username: "b", email: "b@x.com", hash: "h" })
        .unwrap()
        .id;
    articles::create(&mut db, a, "One", "d", "b", &vec!["t".to_string()]).unwrap();
    articles::create(&mut db, b, "Two", "d", "b", &vec![]).unwrap();
    articles::favorite(&mut db, "one", b).unwrap();
    articles::favorite(&mut db, "two", b).unwrap();
    articles::favorite(&mut db, "two", a).unwrap();
    comments::create(&mut db, b, "one", "hi").unwrap();
    profiles::follow(&mut db, a, b);
    assert!(db.is_consistent());
    articles::unfavorite(&mut db, "two", b).unwrap();
    articles::delete(&mut db, "one", a);
    assert!(db.is_consistent());
    assert_eq!(db.articles()[0].favorites_count, 1);
}

#[test]
fn restore_takes_up_consistent_rows() {
    let db = restore(
        vec![user(2, "a"), user(5, "b")],
        vec![article(3, "one", 2, 1), article(4, "two", 5, 0)],
        vec![comment(7, 3, 5)],
        vec![Favorite { user: 5, article: 3 }],
        vec![Follow { follower: 2, followed: 5 }],
    );
    let mut db = db.unwrap();
    assert!(db.is_consistent());
    assert_eq!(db.users().len(), 2);
    assert_eq!(db.articles()[0].favorites_count, 1);
    assert_eq!(users::insert(&mut db, &NewUser { username: "c", email: "c@x.com", hash: "h" })
        .unwrap()
        .id, 6);
    assert_eq!(articles::create(&mut db, 2, "Three", "d", "b", &vec![]).unwrap().id, 5);
    assert_eq!(comments::create(&mut db, 2, "one", "x").unwrap().id, 8);
    assert!(restore(vec![], vec![], vec![], vec![], vec![]).is_some());
}

#[test]
fn restore_refuses_users_out_of_order_or_twice() {
    assert!(restore(vec![user(2, "a"), user(1, "b")], vec![], vec![], vec![], vec![]).is_none());
    assert!(restore(vec![user(1, "a"), user(1, "b")], vec![], vec![], vec![], vec![]).is_none());
    assert!(restore(vec![user(0, "a")], vec![], vec![], vec![], vec![]).is_none());
    assert!(restore(vec![user(1, "a"), user(2, "a")], vec![], vec![], vec![], vec![]).is_none());
    assert!(restore(vec![user(i32::MAX, "a")], vec![], vec![], vec![], vec![]).is_none());
    let mut twin = user(2, "b");
    twin.email = "a@x.com".to_string();
    assert!(restore(vec![user(1, "a"), twin], vec![], vec![], vec![], vec![]).is_none());
}

#[test]
fn restore_refuses_articles_that_break_a_rule() {
    let people = || vec![user(1, "a"), user(2, "b")];
    let none = |articles: Vec<Article>, favorites: Vec<Favorite>| {
        restore(people(), articles, vec![], favorites, vec![]).is_none()
    };
    assert!(none(vec![article(1, "one", 3, 0)], vec![]));
    assert!(none(vec![article(1, "one", 1, 0), article(2, "one", 2, 0)], vec![]));
    assert!(none(vec![article(2, "one", 1, 0), article(1, "two", 2, 0)], vec![]));
    assert!(none(vec![article(1, "one", 1, 1)], vec![]));
    assert!(none(vec![article(1, "one", 1, -1)], vec![]));
    assert!(none(vec![article(1, "one", 1, 0)], vec![Favorite { user: 1, article: 1 }]));
    assert!(none(
        vec![article(1, "one", 1, 2)],
        vec![Favorite { user: 1, article: 1 }, Favorite { user: 1, article: 1 }]
    ));
    assert!(none(vec![article(1, "one", 1, 0)], vec![Favorite { user: 1, article: 2 }]));
    assert!(none(vec![article(1, "one", 1, 1)], vec![Favorite { user: 3, article: 1 }]));
    assert!(!none(
        vec![article(1, "one", 1, 2)],
        vec![Favorite { user: 1, article: 1 }, Favorite { user: 2, article: 1 }]
    ));
}

#[test]
fn restore_refuses_comments_and_follows_that_break_a_rule() {
    let people = || vec![user(1, "a"), user(2, "b")];
    let posts = || vec![article(1, "one", 1, 0)];
    let with_comments =
        |comments: Vec<Comment>| restore(people(), posts(), comments, vec![], vec![]).is_some();
    assert!(with_comments(vec![comment(1, 1, 2), comment(2, 1, 1)]));
    assert!(!with_comments(vec![comment(1, 2, 2)]));
    assert!(!with_comments(vec![comment(1, 1, 3)]));
    assert!(!with_comments(vec![comment(2, 1, 1), comment(2, 1, 2)]));
    assert!(!with_comments(vec![comment(0, 1, 1)]));
    let with_follows =
        |follows: Vec<Follow>| restore(people(), posts(), vec![], vec![], follows).is_some();
    assert!(with_follows(vec![Follow { follower: 1, followed: 2 }, Follow { follower: 2, followed: 1 }]));
    assert!(!with_follows(vec![Follow { follower: 1, followed: 1 }]));
    assert!(!with_follows(vec![Follow { follower: 1, followed: 3 }]));
    assert!(!with_follows(vec![Follow { follower: 3, followed: 1 }]));
    assert!(!with_follows(vec![
        Follow { follower: 1, followed: 2 },
        Follow { follower: 1, followed: 2 }
    ]));
}
