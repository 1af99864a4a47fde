use realworld::database::articles::{
    create, favorite, feed, find, find_one, unfavorite, FeedArticles, FindArticles,
};
use realworld::database::profiles::{follow, is_following, unfollow};
use realworld::database::users;
use realworld::database::users::NewUser;
use realworld::database::Db;

#[test]
fn article_is_found_by_tag_favorited_and_unfavorited() {
    let mut db = Db::new(false);
    let new_user = NewUser { username: "alice", email: "a@x.com", hash: "stored-hash" };
    let alice = users::insert(&mut db, &new_user).unwrap();
    let article =
        create(&mut db, alice.id, "Hello World", "d", "b", &vec!["intro".to_string()]).unwrap();

    let params = FindArticles { tag: Some("intro".to_string()), ..FindArticles::default() };
    let (page, total) = find(&db, &params, Some(alice.id));
    assert_eq!(total, 1);
    assert_eq!(page.len(), 1);
    assert_eq!(page[0], article);
    assert_eq!(page[0].title, "Hello World");
    assert_eq!(page[0].favorites_count, 0);

    let seen = favorite(&mut db, &article.slug, alice.id).unwrap();
    assert_eq!(seen.favorites_count, 1);
    assert_eq!(find(&db, &params, Some(alice.id)).0[0].favorites_count, 1);

    let seen = unfavorite(&mut db, &article.slug, alice.id).unwrap();
    assert_eq!(seen.favorites_count, 0);
    assert_eq!(find(&db, &params, Some(alice.id)).0[0].favorites_count, 0);
}

#[test]
fn feed_of_follower_holds_the_post_of_the_followed() {
    let mut db = Db::new(false);
    let a = users::insert(&mut db, &NewUser { username: "a", email: "a@x.com", hash: "h" })
        .unwrap()
        .id;
    let b = users::insert(&mut db, &NewUser { username: "b", email: "b@x.com", hash: "h" })
        .unwrap()
        .id;
    assert!(follow(&mut db, b, a));
    create(&mut db, a, "Post1", "d", "b", &vec![]).unwrap();

    let titles: Vec<String> =
        feed(&db, &FeedArticles::default(), b).into_iter().map(|p| p.title).collect();
    assert_eq!(titles, ["Post1"]);
    assert!(feed(&db, &FeedArticles::default(), a).is_empty());
}

#[test]
fn fresh_article_is_favorited_only_after_the_favorite() {
    let mut db = Db::new(true);
    let a = users::insert(&mut db, &NewUser { username: "a", email: "a@x.com", hash: "h" })
        .unwrap()
        .id;
    let b = users::insert(&mut db, &NewUser { username: "b", email: "b@x.com", hash: "h" })
        .unwrap()
        .id;
    let article = create(&mut db, a, "Round Trip", "d", "b", &vec![]).unwrap();
    assert!(!article.favorited);
    assert!(!find_one(&db, &article.slug, Some(b)).unwrap().favorited);
    assert!(!find_one(&db, &article.slug, Some(a)).unwrap().favorited);
    favorite(&mut db, &article.slug, b).unwrap();
    assert!(find_one(&db, &article.slug, Some(b)).unwrap().favorited);
    assert!(!find_one(&db, &article.slug, Some(a)).unwrap().favorited);
}

#[test]
fn follow_is_between_two_users_and_stored_once() {
    let mut db = Db::new(false);
    let a = users::insert(&mut db, &NewUser { username: "a", email: "a@x.com", hash: "h" })
        .unwrap()
        .id;
    let b = users::insert(&mut db, &NewUser { username: "b", email: "b@x.com", hash: "h" })
        .unwrap()
        .id;
    assert!(!follow(&mut db, a, a));
    assert!(!follow(&mut db, a, 9));
    assert!(!follow(&mut db, 9, a));
    assert!(follow(&mut db, a, b));
    assert!(!follow(&mut db, a, b));
    assert!(is_following(&db, a, b));
    assert!(!is_following(&db, b, a));
    assert_eq!(db.follows().len(), 1);
    assert_eq!(db.follows()[0].follower, a);
    assert_eq!(db.follows()[0].followed, b);
    assert!(!unfollow(&mut db, b, a));
    assert!(unfollow(&mut db, a, b));
    assert!(!is_following(&db, a, b));
    assert!(db.follows().is_empty());
}

#[test]
fn new_session_is_empty_and_keeps_its_settings() {
    let mut db = Db::new(true);
    assert!(db.users().is_empty());
    assert!(db.articles().is_empty());
    assert!(db.comments().is_empty());
    assert!(db.favorites().is_empty());
    assert!(db.follows().is_empty());
    assert!(db.random_suffix());
    assert!(!Db::new(false).random_suffix());
    assert_eq!(db.now().secs(), 0);
    let later = realworld::models::timestamp::Timestamp::new(99, 1).unwrap();
    db.set_time(later);
    assert_eq!(db.now(), later);
}
