use realworld::database::articles::{
    create, delete, favorite, feed, find, find_one, generate_suffix, insert, patch, slugify, tags,
    unfavorite, update, FeedArticles, FindArticles, NewArticle, UpdateArticleData,
};
use realworld::database::profiles::follow;
use realworld::database::users;
use realworld::database::users::NewUser;
use realworld::database::{comments, Db};
use realworld::models::timestamp::Timestamp;

fn add_user(db: &mut Db, name: &str) -> i32 {
    let email = format!("{}@x.com", name);
    let new_user = NewUser { username: name, email: &email, hash: "stored-hash" };
    match users::insert(db, &new_user) {
        Ok(user) => user.id,
        Err(_) => panic!("user was refused"),
    }
}

fn words(list: &[&str]) -> Vec<String> {
    list.iter().map(|w| w.to_string()).collect()
}

fn titles(list: &[realworld::models::article::ArticleJson]) -> Vec<String> {
    list.iter().map(|a| a.title.clone()).collect()
}

#[test]
fn test_generate_suffix() {
    for len in 3..9 {
        assert_eq!(generate_suffix(len).len(), len);
    }
}

#[test]
fn suffix_holds_only_letters_and_digits() {
    let suffix = generate_suffix(64);
    assert_eq!(suffix.chars().count(), 64);
    assert!(suffix.chars().all(|c| c.is_ascii_alphanumeric()));
    assert_eq!(generate_suffix(0), "");
}

#[test]
fn slug_without_suffix_is_the_plain_slug() {
    assert_eq!(slugify("Hello World", false), "hello-world");
    assert_eq!(slugify("My Test String!!!1!1", false), "my-test-string-1-1");
    assert_eq!(slugify("You & Me", false), "you-me");
}

#[test]
fn slug_with_suffix_appends_hyphen_and_six_characters() {
    let slug = slugify("Hello World", true);
    assert_eq!(slug.len(), "hello-world".len() + 1 + 6);
    assert!(slug.starts_with("hello-world-"));
    assert!(slug["hello-world-".len()..].chars().all(|c| c.is_ascii_alphanumeric()));
}

#[test]
fn create_stores_article_with_slug_and_clock() {
    let mut db = Db::new(false);
    db.set_time(Timestamp::new(1_431_648_000, 123_000_000).unwrap());
    let alice = add_user(&mut db, "alice");
    let article =
        create(&mut db, alice, "Hello World", "about", "text", &words(&["intro", "rust"])).unwrap();
    assert_eq!(article.id, 1);
    assert_eq!(article.slug, "hello-world");
    assert_eq!(article.title, "Hello World");
    assert_eq!(article.description, "about");
    assert_eq!(article.body, "text");
    assert_eq!(article.tag_list, words(&["intro", "rust"]));
    assert_eq!(article.author.id, alice);
    assert_eq!(article.author.username, "alice");
    assert_eq!(article.created_at, "2015-05-15T00:00:00.123Z");
    assert_eq!(article.updated_at, "2015-05-15T00:00:00.123Z");
    assert_eq!(article.favorites_count, 0);
    assert!(!article.favorited);
    assert_eq!(db.articles().len(), 1);
    assert_eq!(db.articles()[0].slug, "hello-world");
}

#[test]
fn create_with_random_suffix_keeps_equal_titles_apart() {
    let mut db = Db::new(true);
    let alice = add_user(&mut db, "alice");
    let first = create(&mut db, alice, "Same", "d", "b", &words(&[])).unwrap();
    let second = create(&mut db, alice, "Same", "d", "b", &words(&[])).unwrap();
    assert!(first.slug.starts_with("same-"));
    assert_eq!(first.slug.len(), 11);
    assert!(second.slug.starts_with("same-"));
    assert_ne!(first.slug, second.slug);
    assert_eq!(second.id, 2);
    let data = UpdateArticleData { title: Some("Same".to_string()), ..UpdateArticleData::default() };
    let moved = update(&mut db, &second.slug, alice, data).unwrap();
    assert!(moved.slug.starts_with("same-"));
    assert_ne!(moved.slug, first.slug);
    assert_eq!(db.articles().len(), 2);
}

#[test]
fn create_refuses_unknown_author_and_taken_slug() {
    let mut db = Db::new(false);
    assert!(create(&mut db, 7, "Title", "d", "b", &words(&[])).is_none());
    assert!(db.articles().is_empty());
    let alice = add_user(&mut db, "alice");
    assert!(create(&mut db, alice, "Title", "d", "b", &words(&[])).is_some());
    assert!(create(&mut db, alice, "Title", "other", "other", &words(&[])).is_none());
    assert_eq!(db.articles().len(), 1);
    assert_eq!(db.articles()[0].description, "d");
}

#[test]
fn insert_takes_the_given_slug() {
    let mut db = Db::new(true);
    let alice = add_user(&mut db, "alice");
    let no_tags = words(&[]);
    let new_article = NewArticle {
        title: "T",
        description: "d",
        body: "b",
        slug: "given",
        author: alice,
        tag_list: &no_tags,
    };
    let article = insert(&mut db, &new_article).unwrap();
    assert_eq!(article.slug, "given");
    assert!(insert(&mut db, &new_article).is_none());
}

fn sample_db() -> (Db, i32, i32) {
    let mut db = Db::new(false);
    let alice = add_user(&mut db, "alice");
    let bob = add_user(&mut db, "bob");
    create(&mut db, alice, "One", "d", "b", &words(&["intro", "rust"])).unwrap();
    create(&mut db, bob, "Two", "d", "b", &words(&["rust"])).unwrap();
    create(&mut db, alice, "Three", "d", "b", &words(&[])).unwrap();
    create(&mut db, bob, "Four", "d", "b", &words(&["intro"])).unwrap();
    (db, alice, bob)
}

#[test]
fn find_without_clauses_returns_all_in_stored_order() {
    let (db, _, _) = sample_db();
    let (page, total) = find(&db, &FindArticles::default(), None);
    assert_eq!(titles(&page), ["One", "Two", "Three", "Four"]);
    assert_eq!(total, 4);
}

#[test]
fn find_filters_by_tag_author_and_favorited() {
    let (mut db, alice, _) = sample_db();
    let by_tag = FindArticles { tag: Some("intro".to_string()), ..FindArticles::default() };
    let (page, total) = find(&db, &by_tag, None);
    assert_eq!(titles(&page), ["One", "Four"]);
    assert_eq!(total, 2);

    let by_author = FindArticles { author: Some("bob".to_string()), ..FindArticles::default() };
    let (page, total) = find(&db, &by_author, None);
    assert_eq!(titles(&page), ["Two", "Four"]);
    assert_eq!(total, 2);

    let both = FindArticles {
        author: Some("bob".to_string()),
        tag: Some("intro".to_string()),
        ..FindArticles::default()
    };
    let (page, total) = find(&db, &both, None);
    assert_eq!(titles(&page), ["Four"]);
    assert_eq!(total, 1);

    favorite(&mut db, "two", alice).unwrap();
    favorite(&mut db, "three", alice).unwrap();
    let liked = FindArticles { favorited: Some("alice".to_string()), ..FindArticles::default() };
    let (page, total) = find(&db, &liked, Some(alice));
    assert_eq!(titles(&page), ["Two", "Three"]);
    assert_eq!(total, 2);
    assert!(page.iter().all(|a| a.favorited));
    let (page, _) = find(&db, &liked, None);
    assert!(page.iter().all(|a| !a.favorited));
}

#[test]
fn find_tag_is_matched_whole() {
    let (db, _, _) = sample_db();
    let part = FindArticles { tag: Some("intr".to_string()), ..FindArticles::default() };
    assert_eq!(find(&db, &part, None), (vec![], 0));
}

#[test]
fn find_favorited_by_unknown_user_is_empty() {
    let (db, _, _) = sample_db();
    let params = FindArticles { favorited: Some("nobody".to_string()), ..FindArticles::default() };
    let (page, total) = find(&db, &params, None);
    assert!(page.is_empty());
    assert_eq!(total, 0);
}

#[test]
fn find_total_is_the_same_for_every_window() {
    let (db, _, _) = sample_db();
    for offset in 0..7 {
        for limit in 0..7 {
            let params = FindArticles {
                offset: Some(offset),
                limit: Some(limit),
                ..FindArticles::default()
            };
            let (page, total) = find(&db, &params, None);
            assert_eq!(total, 4);
            let start = std::cmp::min(offset, 4);
            let end = std::cmp::min(offset + limit, 4);
            assert_eq!(page.len() as i64, end - start);
            if let Some(first) = page.first() {
                assert_eq!(first.id as i64, offset + 1);
            }
        }
    }
}

#[test]
fn find_empty_page_keeps_the_total() {
    let (db, _, _) = sample_db();
    let beyond = FindArticles { offset: Some(4), ..FindArticles::default() };
    assert_eq!(find(&db, &beyond, None), (vec![], 4));
    let far = FindArticles { offset: Some(i64::MAX), limit: Some(i64::MAX), ..FindArticles::default() };
    assert_eq!(find(&db, &far, None), (vec![], 4));
    let none = FindArticles { limit: Some(0), ..FindArticles::default() };
    assert_eq!(find(&db, &none, None), (vec![], 4));
    let tagged = FindArticles {
        tag: Some("intro".to_string()),
        offset: Some(9),
        ..FindArticles::default()
    };
    assert_eq!(find(&db, &tagged, None), (vec![], 2));
    assert_eq!(find(&Db::new(false), &FindArticles::default(), None), (vec![], 0));
}

#[test]
fn find_default_limit_is_twenty() {
    let mut db = Db::new(false);
    let alice = add_user(&mut db, "alice");
    for n in 0..25 {
        create(&mut db, alice, &format!("Title {}", n), "d", "b", &words(&[])).unwrap();
    }
    let (page, total) = find(&db, &FindArticles::default(), None);
    assert_eq!(page.len(), 20);
    assert_eq!(total, 25);
    let rest = FindArticles { offset: Some(20), ..FindArticles::default() };
    let (page, total) = find(&db, &rest, None);
    assert_eq!(page.len(), 5);
    assert_eq!(total, 25);
    assert_eq!(feed(&db, &FeedArticles::default(), alice).len(), 0);
}

#[test]
fn find_one_flags_favorite_for_the_reader_only() {
    let (mut db, alice, bob) = sample_db();
    assert!(find_one(&db, "missing", None).is_none());
    let seen = find_one(&db, "one", Some(bob)).unwrap();
    assert_eq!(seen.title, "One");
    assert_eq!(seen.author.username, "alice");
    assert!(!seen.favorited);
    let liked = favorite(&mut db, "one", bob).unwrap();
    assert!(liked.favorited);
    assert_eq!(liked.favorites_count, 1);
    assert!(find_one(&db, "one", Some(bob)).unwrap().favorited);
    assert!(!find_one(&db, "one", Some(alice)).unwrap().favorited);
    assert!(!find_one(&db, "one", None).unwrap().favorited);
    assert_eq!(find_one(&db, "one", None).unwrap().favorites_count, 1);
}

#[test]
fn favorite_twice_counts_once() {
    let (mut db, _, bob) = sample_db();
    assert_eq!(favorite(&mut db, "one", bob).unwrap().favorites_count, 1);
    assert!(favorite(&mut db, "one", bob).is_none());
    assert_eq!(db.articles()[0].favorites_count, 1);
    assert_eq!(db.favorites().len(), 1);
    assert_eq!(db.favorites()[0].user, bob);
    assert_eq!(db.favorites()[0].article, 1);
}

#[test]
fn favorite_needs_article_and_user() {
    let (mut db, alice, _) = sample_db();
    assert!(favorite(&mut db, "missing", alice).is_none());
    assert!(favorite(&mut db, "one", 99).is_none());
    assert!(db.favorites().is_empty());
    assert_eq!(db.articles()[0].favorites_count, 0);
}

#[test]
fn favorites_of_several_users_add_up() {
    let (mut db, alice, bob) = sample_db();
    favorite(&mut db, "two", alice).unwrap();
    let seen = favorite(&mut db, "two", bob).unwrap();
    assert_eq!(seen.favorites_count, 2);
    assert_eq!(db.articles()[1].favorites_count, 2);
    assert_eq!(db.articles()[0].favorites_count, 0);
    let seen = unfavorite(&mut db, "two", alice).unwrap();
    assert_eq!(seen.favorites_count, 1);
    assert!(!seen.favorited);
    assert!(find_one(&db, "two", Some(bob)).unwrap().favorited);
}

#[test]
fn unfavorite_without_favorite_changes_nothing() {
    let (mut db, alice, bob) = sample_db();
    assert!(unfavorite(&mut db, "one", alice).is_none());
    assert!(unfavorite(&mut db, "missing", alice).is_none());
    assert_eq!(db.articles()[0].favorites_count, 0);
    favorite(&mut db, "one", bob).unwrap();
    assert!(unfavorite(&mut db, "one", alice).is_none());
    assert_eq!(db.articles()[0].favorites_count, 1);
    assert_eq!(db.favorites().len(), 1);
}

#[test]
fn feed_holds_only_followed_authors() {
    let (mut db, alice, bob) = sample_db();
    let carol = add_user(&mut db, "carol");
    assert!(feed(&db, &FeedArticles::default(), carol).is_empty());
    assert!(follow(&mut db, carol, bob));
    let page = feed(&db, &FeedArticles::default(), carol);
    assert_eq!(titles(&page), ["Two", "Four"]);
    assert!(page.iter().all(|a| a.author.id == bob));
    assert!(follow(&mut db, carol, alice));
    favorite(&mut db, "three", carol).unwrap();
    let page = feed(&db, &FeedArticles::default(), carol);
    assert_eq!(titles(&page), ["One", "Two", "Three", "Four"]);
    let flags: Vec<bool> = page.iter().map(|a| a.favorited).collect();
    assert_eq!(flags, [false, false, true, false]);
    let window = FeedArticles { limit: Some(2), offset: Some(1) };
    assert_eq!(titles(&feed(&db, &window, carol)), ["Two", "Three"]);
    let beyond = FeedArticles { limit: Some(2), offset: Some(9) };
    assert!(feed(&db, &beyond, carol).is_empty());
    assert!(feed(&db, &FeedArticles::default(), alice).is_empty());
}

#[test]
fn update_rewrites_named_fields_and_moves_the_slug() {
    let (mut db, alice, _) = sample_db();
    db.set_time(Timestamp::new(86_400, 0).unwrap());
    let data = UpdateArticleData {
        title: Some("Renamed Post".to_string()),
        body: Some("new body".to_string()),
        ..UpdateArticleData::default()
    };
    let seen = update(&mut db, "one", alice, data).unwrap();
    assert_eq!(seen.id, 1);
    assert_eq!(seen.slug, "renamed-post");
    assert_eq!(seen.title, "Renamed Post");
    assert_eq!(seen.description, "d");
    assert_eq!(seen.body, "new body");
    assert_eq!(seen.tag_list, words(&["intro", "rust"]));
    assert_eq!(seen.created_at, "1970-01-01T00:00:00.000Z");
    assert_eq!(seen.updated_at, "1970-01-02T00:00:00.000Z");
    assert!(find_one(&db, "one", None).is_none());
    assert_eq!(find_one(&db, "renamed-post", None).unwrap().title, "Renamed Post");

    let tags_only = UpdateArticleData { tag_list: Some(words(&["x"])), ..UpdateArticleData::default() };
    let seen = update(&mut db, "renamed-post", alice, tags_only).unwrap();
    assert_eq!(seen.slug, "renamed-post");
    assert_eq!(seen.tag_list, words(&["x"]));
}

#[test]
fn update_is_for_the_author_and_a_free_slug() {
    let (mut db, alice, bob) = sample_db();
    let rename = |title: &str| UpdateArticleData {
        title: Some(title.to_string()),
        ..UpdateArticleData::default()
    };
    assert!(update(&mut db, "one", bob, rename("Mine Now")).is_none());
    assert!(update(&mut db, "missing", alice, rename("Mine Now")).is_none());
    assert!(update(&mut db, "one", alice, rename("Two")).is_none());
    assert_eq!(db.articles()[0].title, "One");
    assert_eq!(db.articles()[0].slug, "one");
    let same = update(&mut db, "one", alice, rename("One")).unwrap();
    assert_eq!(same.slug, "one");
}

#[test]
fn update_keeps_favorite_flag_and_counter() {
    let (mut db, alice, bob) = sample_db();
    favorite(&mut db, "one", alice).unwrap();
    favorite(&mut db, "one", bob).unwrap();
    let data = UpdateArticleData { description: Some("n".to_string()), ..UpdateArticleData::default() };
    let seen = update(&mut db, "one", alice, data).unwrap();
    assert!(seen.favorited);
    assert_eq!(seen.favorites_count, 2);
}

#[test]
fn patch_takes_the_given_slug() {
    let (mut db, alice, _) = sample_db();
    let data = UpdateArticleData::default();
    let seen = patch(&mut db, "one", alice, &data, Some("chosen".to_string())).unwrap();
    assert_eq!(seen.slug, "chosen");
    assert_eq!(seen.title, "One");
    assert!(patch(&mut db, "chosen", alice, &data, Some("two".to_string())).is_none());
    assert!(patch(&mut db, "chosen", alice, &data, None).is_some());
}

#[test]
fn delete_is_for_the_author_and_takes_rows_along() {
    let (mut db, alice, bob) = sample_db();
    favorite(&mut db, "one", bob).unwrap();
    favorite(&mut db, "two", alice).unwrap();
    comments::create(&mut db, bob, "one", "first").unwrap();
    comments::create(&mut db, alice, "two", "second").unwrap();

    delete(&mut db, "one", bob);
    delete(&mut db, "missing", alice);
    assert_eq!(db.articles().len(), 4);
    assert_eq!(db.favorites().len(), 2);

    delete(&mut db, "one", alice);
    let left: Vec<&str> = db.articles().iter().map(|a| a.slug.as_str()).collect();
    assert_eq!(left, ["two", "three", "four"]);
    assert_eq!(db.favorites().len(), 1);
    assert_eq!(db.favorites()[0].article, 2);
    assert_eq!(db.comments().len(), 1);
    assert_eq!(db.comments()[0].body, "second");
    assert_eq!(db.articles()[0].favorites_count, 1);
    assert!(find_one(&db, "one", None).is_none());

    let again = create(&mut db, alice, "One", "d", "b", &words(&[])).unwrap();
    assert_eq!(again.id, 5);
    assert_eq!(again.favorites_count, 0);
    assert!(!find_one(&db, "one", Some(bob)).unwrap().favorited);
}

#[test]
fn tags_are_distinct_in_order_of_first_use() {
    let (db, _, _) = sample_db();
    assert_eq!(tags(&db), words(&["intro", "rust"]));
    assert!(tags(&Db::new(false)).is_empty());
    let mut db = Db::new(false);
    let alice = add_user(&mut db, "alice");
    create(&mut db, alice, "A", "d", "b", &words(&["b", "a", "b"])).unwrap();
    create(&mut db, alice, "B", "d", "b", &words(&["c", "a"])).unwrap();
    assert_eq!(tags(&db), words(&["b", "a", "c"]));
}
