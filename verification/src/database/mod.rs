use vstd::prelude::*;
use crate::database::model::DbView;
use crate::database::model::Favorite;
use crate::database::model::Follow;
use crate::models::article::article_views;
use crate::models::article::Article;
use crate::models::comment::comment_views;
use crate::models::comment::Comment;
use crate::models::text_eq;
use crate::models::timestamp::Timestamp;
use crate::models::user::user_views;
use crate::models::user::User;

pub mod articles;
pub mod comments;
pub mod integrity;
pub mod model;
pub mod pagination;
pub mod password;
pub mod profiles;
pub mod slug;
pub mod users;

pub use crate::database::pagination::OffsetLimit;
pub use crate::database::pagination::OffsetLimited;

verus! {

/// The database session: the five relations, the next identity of each
/// table that issues identities, the session clock and the slug setting.
pub struct Db {
    users: Vec<User>,
    articles: Vec<Article>,
    comments: Vec<Comment>,
    favorites: Vec<Favorite>,
    follows: Vec<Follow>,
    next_user_id: i32,
    next_article_id: i32,
    next_comment_id: i32,
    now: Timestamp,
    random_suffix: bool,
}

impl View for Db {
    type V = DbView;

    closed spec fn view(&self) -> DbView {
        DbView {
            users: user_views(self.users@),
            articles: article_views(self.articles@),
            comments: comment_views(self.comments@),
            favorites: self.favorites@,
            follows: self.follows@,
            next_user_id: self.next_user_id as int,
            next_article_id: self.next_article_id as int,
            next_comment_id: self.next_comment_id as int,
            now: self.now,
            random_suffix: self.random_suffix,
        }
    }
}

impl Db {
    /// The relations are consistent with each other.
    pub open spec fn wf(&self) -> bool {
        self@.wf()
    }

    /// An empty database whose clock stands at the start of 1970.
    /// `random_suffix` says whether slugs get a random suffix.
    pub fn new(random_suffix: bool) -> (db: Db)
        ensures
            db.wf(),
            db@.users.len() == 0,
            db@.articles.len() == 0,
            db@.comments.len() == 0,
            db@.favorites.len() == 0,
            db@.follows.len() == 0,
            db@.next_user_id == 1,
            db@.next_article_id == 1,
            db@.next_comment_id == 1,
            db@.now@ == (0int, 0int),
            db@.random_suffix == random_suffix,
    {
        Db {
            users: Vec::new(),
            articles: Vec::new(),
            comments: Vec::new(),
            favorites: Vec::new(),
            follows: Vec::new(),
            next_user_id: 1,
            next_article_id: 1,
            next_comment_id: 1,
            now: Timestamp::epoch(),
            random_suffix,
        }
    }

    /// Sets the session clock: rows written from now on carry `now`.
    pub fn set_time(&mut self, now: Timestamp)
        ensures
            final(self)@ == (DbView { now, ..old(self)@ }),
    {
        self.now = now;
    }

    /// The session clock.
    pub fn now(&self) -> (now: Timestamp)
        ensures
            now == self@.now,
    {
        self.now
    }

    /// Whether slugs get a random suffix.
    pub fn random_suffix(&self) -> (flag: bool)
        ensures
            flag == self@.random_suffix,
    {
        self.random_suffix
    }

    /// The stored users, in insertion order.
    pub fn users(&self) -> (rows: &Vec<User>)
        ensures
            user_views(rows@) == self@.users,
    {
        &self.users
    }

    /// The stored articles, in insertion order.
    pub fn articles(&self) -> (rows: &Vec<Article>)
        ensures
            article_views(rows@) == self@.articles,
    {
        &self.articles
    }

    /// The stored comments, in insertion order.
    pub fn comments(&self) -> (rows: &Vec<Comment>)
        ensures
            comment_views(rows@) == self@.comments,
    {
        &self.comments
    }

    /// The favorite rows, in insertion order.
    pub fn favorites(&self) -> (rows: &Vec<Favorite>)
        ensures
            rows@ == self@.favorites,
    {
        &self.favorites
    }

    /// The follow rows, in insertion order.
    pub fn follows(&self) -> (rows: &Vec<Follow>)
        ensures
            rows@ == self@.follows,
    {
        &self.follows
    }

    /// Position of the user with the identity `id`.
    pub(crate) fn user_position(&self, id: i32) -> (r: Option<usize>)
        ensures
            r is Some <==> self@.has_user(id as int),
            r is Some ==> r.unwrap() < self@.users.len() && self@.users[r.unwrap() as int].id == id,
    {
        let mut i: usize = 0;
        while i < self.users.len()
            invariant
                i <= self.users.len(),
                forall|j: int| 0 <= j < i ==> (#[trigger] self@.users[j]).id != id,
            decreases self.users.len() - i,
        {
            if self.users[i].id == id {
                return Some(i);
            }
            i += 1;
        }
        None
    }

    /// Position of the user with the name `name`.
    pub(crate) fn username_position(&self, name: &str) -> (r: Option<usize>)
        ensures
            r is Some <==> self@.has_username(name@),
            r is Some ==> r.unwrap() < self@.users.len() && self@.users[r.unwrap() as int].username
                == name@,
    {
        let mut i: usize = 0;
        while i < self.users.len()
            invariant
                i <= self.users.len(),
                forall|j: int| 0 <= j < i ==> (#[trigger] self@.users[j]).username != name@,
            decreases self.users.len() - i,
        {
            if text_eq(self.users[i].username.as_str(), name) {
                return Some(i);
            }
            i += 1;
        }
        None
    }

    /// Position of the user with the address `email`.
    pub(crate) fn email_position(&self, email: &str) -> (r: Option<usize>)
        ensures
            r is Some <==> self@.has_email(email@),
            r is Some ==> r.unwrap() < self@.users.len() && self@.users[r.unwrap() as int].email
                == email@,
    {
        let mut i: usize = 0;
        while i < self.users.len()
            invariant
                i <= self.users.len(),
                forall|j: int| 0 <= j < i ==> (#[trigger] self@.users[j]).email != email@,
            decreases self.users.len() - i,
        {
            if text_eq(self.users[i].email.as_str(), email) {
                return Some(i);
            }
            i += 1;
        }
        None
    }

    /// Position of the article with the slug `slug`.
    pub(crate) fn slug_position(&self, slug: &str) -> (r: Option<usize>)
        ensures
            r is Some <==> self@.has_slug(slug@),
            r is Some ==> r.unwrap() < self@.articles.len() && self@.articles[r.unwrap() as int].slug
                == slug@,
    {
        let mut i: usize = 0;
        while i < self.articles.len()
            invariant
                i <= self.articles.len(),
                forall|j: int| 0 <= j < i ==> (#[trigger] self@.articles[j]).slug != slug@,
            decreases self.articles.len() - i,
        {
            if text_eq(self.articles[i].slug.as_str(), slug) {
                assert(self@.articles[i as int].slug == slug@);
                return Some(i);
            }
            i += 1;
        }
        None
    }

    /// Whether some article has the identity `id`.
    pub(crate) fn article_exists(&self, id: i32) -> (found: bool)
        ensures
            found == self@.has_article(id as int),
    {
        let mut i: usize = 0;
        while i < self.articles.len()
            invariant
                i <= self.articles.len(),
                forall|j: int| 0 <= j < i ==> (#[trigger] self@.articles[j]).id != id,
            decreases self.articles.len() - i,
        {
            if self.articles[i].id == id {
                assert(self@.articles[i as int].id == id);
                return true;
            }
            i += 1;
        }
        false
    }

    /// Position of the comment with the identity `id`.
    pub(crate) fn comment_position(&self, id: i32) -> (r: Option<usize>)
        ensures
            r is Some <==> self@.has_comment(id as int),
            r is Some ==> r.unwrap() < self@.comments.len() && self@.comments[r.unwrap() as int].id
                == id,
    {
        let mut i: usize = 0;
        while i < self.comments.len()
            invariant
                i <= self.comments.len(),
                forall|j: int| 0 <= j < i ==> (#[trigger] self@.comments[j]).id != id,
            decreases self.comments.len() - i,
        {
            if self.comments[i].id == id {
                assert(self@.comments[i as int].id == id);
                return Some(i);
            }
            i += 1;
        }
        None
    }

    /// Position of the favorite row for `user` and `article`.
    pub(crate) fn favorite_position(&self, user: i32, article: i32) -> (r: Option<usize>)
        ensures
            r is Some <==> self@.is_favorite(user as int, article as int),
            r is Some ==> r.unwrap() < self@.favorites.len() && self@.favorites[r.unwrap() as int]
                == (Favorite { user, article }),
    {
        let mut k: usize = 0;
        while k < self.favorites.len()
            invariant
                k <= self.favorites.len(),
                forall|j: int|
                    0 <= j < k ==> !((#[trigger] self@.favorites[j]).user == user
                        && self@.favorites[j].article == article),
            decreases self.favorites.len() - k,
        {
            if self.favorites[k].user == user && self.favorites[k].article == article {
                assert(self@.favorites[k as int].user == user);
                return Some(k);
            }
            k += 1;
        }
        None
    }

    /// Position of the follow row from `follower` to `followed`.
    pub(crate) fn follow_position(&self, follower: i32, followed: i32) -> (r: Option<usize>)
        ensures
            r is Some <==> self@.is_following(follower as int, followed as int),
            r is Some ==> r.unwrap() < self@.follows.len() && self@.follows[r.unwrap() as int] == (
            Follow { follower, followed }),
    {
        let mut k: usize = 0;
        while k < self.follows.len()
            invariant
                k <= self.follows.len(),
                forall|j: int|
                    0 <= j < k ==> !((#[trigger] self@.follows[j]).follower == follower
                        && self@.follows[j].followed == followed),
            decreases self.follows.len() - k,
        {
            if self.follows[k].follower == follower && self.follows[k].followed == followed {
                assert(self@.follows[k as int].follower == follower);
                return Some(k);
            }
            k += 1;
        }
        None
    }
}

} // verus!
