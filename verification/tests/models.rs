use realworld::config::{DATE_FORMAT, DEFAULT_LIMIT, SLUG_ATTEMPTS, SUFFIX_LEN};
use realworld::models::article::Article;
use realworld::models::comment::Comment;
use realworld::models::timestamp::{Timestamp, MAX_SECS, MIN_SECS};
use realworld::models::user::User;
use realworld::models::{copy_opt_text, copy_texts, has_text};

fn author() -> User {
    User {
        id: 4,
        username: "dora".to_string(),
        email: "d@x.com".to_string(),
        bio: Some("bio".to_string()),
        image: None,
        hash: "h".to_string(),
    }
}

#[test]
fn constants_have_their_values() {
    assert_eq!(DATE_FORMAT, "%Y-%m-%dT%H:%M:%S%.3fZ");
    assert_eq!(SUFFIX_LEN, 6);
    assert_eq!(DEFAULT_LIMIT, 20);
    assert_eq!(SLUG_ATTEMPTS, 5);
}

#[test]
fn timestamp_is_rendered_with_milliseconds_and_z() {
    assert_eq!(Timestamp::epoch().render(), "1970-01-01T00:00:00.000Z");
    assert_eq!(Timestamp::new(1_431_648_000, 0).unwrap().render(), "2015-05-15T00:00:00.000Z");
    assert_eq!(
        Timestamp::new(951_782_399, 999_999_999).unwrap().render(),
        "2000-02-28T23:59:59.999Z"
    );
    assert_eq!(Timestamp::new(MAX_SECS, 1_000_000).unwrap().render(), "9999-12-31T23:59:59.001Z");
    assert_eq!(Timestamp::new(-1, 500_000_000).unwrap().render(), "1969-12-31T23:59:59.500Z");
    assert_eq!(Timestamp::new(MIN_SECS, 0).unwrap().render(), "0000-01-01T00:00:00.000Z");
    assert_eq!(Timestamp::new(-62_135_596_800, 0).unwrap().render(), "0001-01-01T00:00:00.000Z");
}

#[test]
fn timestamp_holds_only_moments_in_range() {
    assert_eq!(Timestamp::new(0, 0), Some(Timestamp::epoch()));
    assert!(Timestamp::new(-1, 0).is_some());
    assert!(Timestamp::new(MIN_SECS, 999_999_999).is_some());
    assert!(Timestamp::new(MIN_SECS - 1, 0).is_none());
    assert_eq!(MIN_SECS, -62_167_219_200);
    assert_eq!(MAX_SECS, 253_402_300_799);
    assert!(Timestamp::new(MAX_SECS + 1, 0).is_none());
    assert!(Timestamp::new(0, 1_000_000_000).is_none());
    let t = Timestamp::new(12, 34).unwrap();
    assert_eq!(t.secs(), 12);
    assert_eq!(t.nanos(), 34);
}

#[test]
fn article_attach_joins_author_and_flag() {
    let article = Article {
        id: 3,
        slug: "a-title".to_string(),
        title: "A Title".to_string(),
        description: "about".to_string(),
        body: "text".to_string(),
        author: 4,
        tag_list: vec!["x".to_string(), "y".to_string()],
        created_at: Timestamp::new(60, 0).unwrap(),
        updated_at: Timestamp::new(3_600, 250_000_000).unwrap(),
        favorites_count: 2,
    };
    let json = article.clone().attach(author(), true);
    assert_eq!(json.id, 3);
    assert_eq!(json.slug, "a-title");
    assert_eq!(json.title, "A Title");
    assert_eq!(json.description, "about");
    assert_eq!(json.body, "text");
    assert_eq!(json.author, author());
    assert_eq!(json.tag_list, ["x", "y"]);
    assert_eq!(json.created_at, "1970-01-01T00:01:00.000Z");
    assert_eq!(json.updated_at, "1970-01-01T01:00:00.250Z");
    assert_eq!(json.favorites_count, 2);
    assert!(json.favorited);
    assert!(!article.attach(author(), false).favorited);
}

#[test]
fn comment_attach_joins_author() {
    let comment = Comment {
        id: 8,
        body: "well said".to_string(),
        article: 3,
        author: 4,
        created_at: Timestamp::new(86_399, 0).unwrap(),
        updated_at: Timestamp::new(86_400, 0).unwrap(),
    };
    assert_eq!(comment.clone(), comment);
    let json = comment.attach(author());
    assert_eq!(json.id, 8);
    assert_eq!(json.body, "well said");
    assert_eq!(json.author, author());
    assert_eq!(json.created_at, "1970-01-01T23:59:59.000Z");
    assert_eq!(json.updated_at, "1970-01-02T00:00:00.000Z");
}

#[test]
fn texts_are_copied_and_found() {
    let list = vec!["a".to_string(), "bc".to_string()];
    assert_eq!(copy_texts(&list), list);
    assert_eq!(copy_opt_text(&Some("x".to_string())), Some("x".to_string()));
    assert_eq!(copy_opt_text(&None), None);
    assert!(has_text(&list, "bc"));
    assert!(!has_text(&list, "b"));
    assert!(!has_text(&vec![], "a"));
    assert_eq!(author().clone(), author());
}
