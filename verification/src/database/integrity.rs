use vstd::prelude::*;
use crate::database::model::count_for;
use crate::database::model::DbView;
use crate::database::model::Favorite;
use crate::database::model::Follow;
use crate::database::Db;
use crate::models::article::article_views;
use crate::models::article::Article;
use crate::models::comment::comment_views;
use crate::models::comment::Comment;
use crate::models::text_eq;
use crate::models::timestamp::Timestamp;
use crate::models::user::user_views;
use crate::models::user::User;

verus! {

/// The identity that follows the last of `ids`, which rise with the
/// position: one above the last, or one for an empty table.
pub open spec fn next_after(last: Option<int>) -> int {
    match last {
        Some(id) => id + 1,
        None => 1,
    }
}

/// The state that rows read from storage stand for: the rows as they are,
/// and as the next identity of each table the one after its last row.
pub open spec fn restored(
    users: Seq<User>,
    articles: Seq<Article>,
    comments: Seq<Comment>,
    favorites: Seq<Favorite>,
    follows: Seq<Follow>,
    now: Timestamp,
    random_suffix: bool,
) -> DbView {
    DbView {
        users: user_views(users),
        articles: article_views(articles),
        comments: comment_views(comments),
        favorites,
        follows,
        next_user_id: next_after(
            if users.len() > 0 {
                Some(users.last().id as int)
            } else {
                None
            },
        ),
        next_article_id: next_after(
            if articles.len() > 0 {
                Some(articles.last().id as int)
            } else {
                None
            },
        ),
        next_comment_id: next_after(
            if comments.len() > 0 {
                Some(comments.last().id as int)
            } else {
                None
            },
        ),
        now,
        random_suffix,
    }
}

impl Db {
    /// Counts the favorite rows that refer to `article`.
    fn count_favorites(&self, article: i32) -> (n: usize)
        ensures
            n == self@.favorite_count(article as int),
    {
        let mut n: usize = 0;
        let mut k: usize = 0;
        assert(self.favorites@.take(0) =~= Seq::empty());
        while k < self.favorites.len()
            invariant
                k <= self.favorites.len(),
                n <= k,
                n == count_for(self.favorites@.take(k as int), article as int),
            decreases self.favorites.len() - k,
        {
            assert(self.favorites@.take(k + 1).drop_last() =~= self.favorites@.take(k as int));
            if self.favorites[k].article == article {
                n += 1;
            }
            k += 1;
        }
        assert(self.favorites@.take(k as int) =~= self.favorites@);
        n
    }

    /// Decides whether the users are consistent.
    fn users_consistent(&self) -> (ok: bool)
        ensures
            ok == self@.users_wf(),
    {
        if self.next_user_id < 1 {
            return false;
        }
        let n: usize = self.users.len();
        let mut i: usize = 0;
        while i < n
            invariant
                i <= n,
                n == self.users@.len(),
                1 <= self.next_user_id,
                forall|a: int| 0 <= a < i ==> 1 <= (#[trigger] self@.users[a]).id < self@.next_user_id,
                forall|a: int, b: int|
                    0 <= a < i && a < b < n ==> (#[trigger] self@.users[a]).id < (
                    #[trigger] self@.users[b]).id && self@.users[a].username
                        != self@.users[b].username && self@.users[a].email != self@.users[b].email,
            decreases n - i,
        {
            let u = &self.users[i];
            assert(self@.users[i as int] == u@);
            if u.id < 1 || u.id >= self.next_user_id {
                return false;
            }
            let mut j: usize = i + 1;
            while j < n
                invariant
                    i < j <= n,
                    n == self.users@.len(),
                    self@.users[i as int] == u@,
                    forall|b: int|
                        i < b < j ==> u@.id < (#[trigger] self@.users[b]).id && u@.username
                            != self@.users[b].username && u@.email != self@.users[b].email,
                decreases n - j,
            {
                let v = &self.users[j];
                assert(self@.users[j as int] == v@);
                if u.id >= v.id || text_eq(u.username.as_str(), v.username.as_str()) || text_eq(
                    u.email.as_str(),
                    v.email.as_str(),
                ) {
                    return false;
                }
                j += 1;
            }
            i += 1;
        }
        true
    }

    /// Decides whether the articles are consistent.
    fn articles_consistent(&self) -> (ok: bool)
        ensures
            ok == self@.articles_wf(),
    {
        if self.next_article_id < 1 {
            return false;
        }
        let n: usize = self.articles.len();
        let mut i: usize = 0;
        while i < n
            invariant
                i <= n,
                n == self.articles@.len(),
                1 <= self.next_article_id,
                forall|a: int|
                    0 <= a < i ==> 1 <= (#[trigger] self@.articles[a]).id < self@.next_article_id
                        && self@.has_user(self@.articles[a].author)
                        && self@.articles[a].favorites_count == self@.favorite_count(
                        self@.articles[a].id,
                    ),
                forall|a: int, b: int|
                    0 <= a < i && a < b < n ==> (#[trigger] self@.articles[a]).id < (
                    #[trigger] self@.articles[b]).id && self@.articles[a].slug
                        != self@.articles[b].slug,
            decreases n - i,
        {
            let x = &self.articles[i];
            assert(self@.articles[i as int] == x@);
            if x.id < 1 || x.id >= self.next_article_id {
                return false;
            }
            if self.user_position(x.author).is_none() {
                return false;
            }
            if x.favorites_count < 0 || self.count_favorites(x.id) != x.favorites_count as usize {
                return false;
            }
            let mut j: usize = i + 1;
            while j < n
                invariant
                    i < j <= n,
                    n == self.articles@.len(),
                    self@.articles[i as int] == x@,
                    forall|b: int|
                        i < b < j ==> x@.id < (#[trigger] self@.articles[b]).id && x@.slug
                            != self@.articles[b].slug,
                decreases n - j,
            {
                let y = &self.articles[j];
                assert(self@.articles[j as int] == y@);
                if x.id >= y.id || text_eq(x.slug.as_str(), y.slug.as_str()) {
                    return false;
                }
                j += 1;
            }
            i += 1;
        }
        true
    }

    /// Decides whether the comments are consistent.
    fn comments_consistent(&self) -> (ok: bool)
        ensures
            ok == self@.comments_wf(),
    {
        if self.next_comment_id < 1 {
            return false;
        }
        let n: usize = self.comments.len();
        let mut i: usize = 0;
        while i < n
            invariant
                i <= n,
                n == self.comments@.len(),
                1 <= self.next_comment_id,
                forall|a: int|
                    0 <= a < i ==> 1 <= (#[trigger] self@.comments[a]).id < self@.next_comment_id
                        && self@.has_article(self@.comments[a].article) && self@.has_user(
                        self@.comments[a].author,
                    ),
                forall|a: int, b: int|
                    0 <= a < i && a < b < n ==> (#[trigger] self@.comments[a]).id < (
                    #[trigger] self@.comments[b]).id,
            decreases n - i,
        {
            let x = &self.comments[i];
            assert(self@.comments[i as int] == x@);
            if x.id < 1 || x.id >= self.next_comment_id {
                return false;
            }
            if !self.article_exists(x.article) || self.user_position(x.author).is_none() {
                return false;
            }
            let mut j: usize = i + 1;
            while j < n
                invariant
                    i < j <= n,
                    n == self.comments@.len(),
                    self@.comments[i as int] == x@,
                    forall|b: int| i < b < j ==> x@.id < (#[trigger] self@.comments[b]).id,
                decreases n - j,
            {
                let y = &self.comments[j];
                assert(self@.comments[j as int] == y@);
                if x.id >= y.id {
                    return false;
                }
                j += 1;
            }
            i += 1;
        }
        true
    }

    /// Decides whether the favorite rows are consistent.
    fn favorites_consistent(&self) -> (ok: bool)
        ensures
            ok == self@.favorites_wf(),
    {
        let n: usize = self.favorites.len();
        let mut i: usize = 0;
        while i < n
            invariant
                i <= n,
                n == self.favorites@.len(),
                forall|a: int|
                    0 <= a < i ==> self@.has_user((#[trigger] self@.favorites[a]).user as int)
                        && self@.has_article(self@.favorites[a].article as int),
                forall|a: int, b: int|
                    0 <= a < i && a < b < n ==> (#[trigger] self@.favorites[a]) != (
                    #[trigger] self@.favorites[b]),
            decreases n - i,
        {
            let x = self.favorites[i];
            assert(self@.favorites[i as int] == x);
            if self.user_position(x.user).is_none() || !self.article_exists(x.article) {
                return false;
            }
            let mut j: usize = i + 1;
            while j < n
                invariant
                    i < j <= n,
                    n == self.favorites@.len(),
                    self@.favorites[i as int] == x,
                    forall|b: int| i < b < j ==> x != (#[trigger] self@.favorites[b]),
                decreases n - j,
            {
                let y = self.favorites[j];
                assert(self@.favorites[j as int] == y);
                if x.user == y.user && x.article == y.article {
                    return false;
                }
                j += 1;
            }
            i += 1;
        }
        true
    }

    /// Decides whether the follow rows are consistent.
    fn follows_consistent(&self) -> (ok: bool)
        ensures
            ok == self@.follows_wf(),
    {
        let n: usize = self.follows.len();
        let mut i: usize = 0;
        while i < n
            invariant
                i <= n,
                n == self.follows@.len(),
                forall|a: int|
                    0 <= a < i ==> (#[trigger] self@.follows[a]).follower
                        != self@.follows[a].followed && self@.has_user(
                        self@.follows[a].follower as int,
                    ) && self@.has_user(self@.follows[a].followed as int),
                forall|a: int, b: int|
                    0 <= a < i && a < b < n ==> (#[trigger] self@.follows[a]) != (
                    #[trigger] self@.follows[b]),
            decreases n - i,
        {
            let x = self.follows[i];
            assert(self@.follows[i as int] == x);
            if x.follower == x.followed || self.user_position(x.follower).is_none()
                || self.user_position(x.followed).is_none() {
                return false;
            }
            let mut j: usize = i + 1;
            while j < n
                invariant
                    i < j <= n,
                    n == self.follows@.len(),
                    self@.follows[i as int] == x,
                    forall|b: int| i < b < j ==> x != (#[trigger] self@.follows[b]),
                decreases n - j,
            {
                let y = self.follows[j];
                assert(self@.follows[j as int] == y);
                if x.follower == y.follower && x.followed == y.followed {
                    return false;
                }
                j += 1;
            }
            i += 1;
        }
        true
    }

    /// Decides whether the relations are consistent with each other.
    pub fn is_consistent(&self) -> (ok: bool)
        ensures
            ok == self.wf(),
    {
        self.users_consistent() && self.articles_consistent() && self.comments_consistent()
            && self.favorites_consistent() && self.follows_consistent()
    }

    /// Takes up rows that were read from storage, each table in the order
    /// of its identities, if they are consistent with each other. The next
    /// identity of a table is the one after its last row.
    pub fn restore(
        users: Vec<User>,
        articles: Vec<Article>,
        comments: Vec<Comment>,
        favorites: Vec<Favorite>,
        follows: Vec<Follow>,
        now: Timestamp,
        random_suffix: bool,
    ) -> (r: Option<Db>)
        ensures
            r is Some <==> restored(
                users@,
                articles@,
                comments@,
                favorites@,
                follows@,
                now,
                random_suffix,
            ).wf(),
            r is Some ==> r.unwrap().wf() && r.unwrap()@ == restored(
                users@,
                articles@,
                comments@,
                favorites@,
                follows@,
                now,
                random_suffix,
            ),
    {
        let next_user_id: i32 = if users.len() > 0 {
            let last: i32 = users[users.len() - 1].id;
            if last == i32::MAX {
                return None;
            }
            last + 1
        } else {
            1
        };
        let next_article_id: i32 = if articles.len() > 0 {
            let last: i32 = articles[articles.len() - 1].id;
            if last == i32::MAX {
                return None;
            }
            last + 1
        } else {
            1
        };
        let next_comment_id: i32 = if comments.len() > 0 {
            let last: i32 = comments[comments.len() - 1].id;
            if last == i32::MAX {
                return None;
            }
            last + 1
        } else {
            1
        };
        let db = Db {
            users,
            articles,
            comments,
            favorites,
            follows,
            next_user_id,
            next_article_id,
            next_comment_id,
            now,
            random_suffix,
        };
        if db.is_consistent() {
            Some(db)
        } else {
            None
        }
    }
}

} // verus!
