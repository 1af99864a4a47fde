use vstd::prelude::*;
use crate::models::article::ArticleView;
use crate::models::comment::CommentView;
use crate::models::timestamp::Timestamp;
use crate::models::user::UserView;

verus! {

/// A favorite row: `user` has favorited `article`.
#[derive(Clone, Copy, Debug, PartialEq, Eq, Structural)]
pub struct Favorite {
    pub user: i32,
    pub article: i32,
}

/// A follow row: `follower` follows `followed`.
#[derive(Clone, Copy, Debug, PartialEq, Eq, Structural)]
pub struct Follow {
    pub follower: i32,
    pub followed: i32,
}

/// The five relations as sequences of rows in insertion order, the next
/// identity of each table that issues identities, the session clock and the
/// slug setting.
pub struct DbView {
    pub users: Seq<UserView>,
    pub articles: Seq<ArticleView>,
    pub comments: Seq<CommentView>,
    pub favorites: Seq<Favorite>,
    pub follows: Seq<Follow>,
    pub next_user_id: int,
    pub next_article_id: int,
    pub next_comment_id: int,
    pub now: Timestamp,
    pub random_suffix: bool,
}

/// Some row of `users` has the identity `id`.
pub open spec fn user_listed(users: Seq<UserView>, id: int) -> bool {
    exists|i: int| 0 <= i < users.len() && (#[trigger] users[i]).id == id
}

/// Position of the row of `users` with the identity `id`.
pub open spec fn user_place(users: Seq<UserView>, id: int) -> int {
    choose|i: int| 0 <= i < users.len() && (#[trigger] users[i]).id == id
}

/// Some row of `users` has the name `name`.
pub open spec fn username_listed(users: Seq<UserView>, name: Seq<char>) -> bool {
    exists|i: int| 0 <= i < users.len() && (#[trigger] users[i]).username == name
}

/// Position of the row of `users` with the name `name`.
pub open spec fn username_place(users: Seq<UserView>, name: Seq<char>) -> int {
    choose|i: int| 0 <= i < users.len() && (#[trigger] users[i]).username == name
}

/// Some row of `users` has the address `email`.
pub open spec fn email_listed(users: Seq<UserView>, email: Seq<char>) -> bool {
    exists|i: int| 0 <= i < users.len() && (#[trigger] users[i]).email == email
}

/// Position of the row of `users` with the address `email`.
pub open spec fn email_place(users: Seq<UserView>, email: Seq<char>) -> int {
    choose|i: int| 0 <= i < users.len() && (#[trigger] users[i]).email == email
}

/// Some row of `articles` has the identity `id`.
pub open spec fn article_listed(articles: Seq<ArticleView>, id: int) -> bool {
    exists|i: int| 0 <= i < articles.len() && (#[trigger] articles[i]).id == id
}

/// Some row of `articles` has the slug `slug`.
pub open spec fn slug_listed(articles: Seq<ArticleView>, slug: Seq<char>) -> bool {
    exists|i: int| 0 <= i < articles.len() && (#[trigger] articles[i]).slug == slug
}

/// Position of the row of `articles` with the slug `slug`.
pub open spec fn slug_place(articles: Seq<ArticleView>, slug: Seq<char>) -> int {
    choose|i: int| 0 <= i < articles.len() && (#[trigger] articles[i]).slug == slug
}

/// Some row of `comments` has the identity `id`.
pub open spec fn comment_listed(comments: Seq<CommentView>, id: int) -> bool {
    exists|i: int| 0 <= i < comments.len() && (#[trigger] comments[i]).id == id
}

/// Position of the row of `comments` with the identity `id`.
pub open spec fn comment_place(comments: Seq<CommentView>, id: int) -> int {
    choose|i: int| 0 <= i < comments.len() && (#[trigger] comments[i]).id == id
}

/// Some row of `favorites` holds the pair of `user` and `article`.
pub open spec fn favorite_listed(favorites: Seq<Favorite>, user: int, article: int) -> bool {
    exists|k: int|
        0 <= k < favorites.len() && (#[trigger] favorites[k]).user == user && favorites[k].article
            == article
}

/// Position of the row of `favorites` with the pair of `user` and
/// `article`.
pub open spec fn favorite_place(favorites: Seq<Favorite>, user: int, article: int) -> int {
    choose|k: int|
        0 <= k < favorites.len() && (#[trigger] favorites[k]).user == user && favorites[k].article
            == article
}

/// Some row of `follows` holds the pair of `follower` and `followed`.
pub open spec fn follow_listed(follows: Seq<Follow>, follower: int, followed: int) -> bool {
    exists|k: int|
        0 <= k < follows.len() && (#[trigger] follows[k]).follower == follower
            && follows[k].followed == followed
}

/// Position of the row of `follows` with the pair of `follower` and
/// `followed`.
pub open spec fn follow_place(follows: Seq<Follow>, follower: int, followed: int) -> int {
    choose|k: int|
        0 <= k < follows.len() && (#[trigger] follows[k]).follower == follower
            && follows[k].followed == followed
}

impl DbView {
    /// Some user has the identity `id`.
    pub open spec fn has_user(self, id: int) -> bool {
        user_listed(self.users, id)
    }

    /// Position of the user with the identity `id`.
    pub open spec fn user_index(self, id: int) -> int {
        user_place(self.users, id)
    }

    /// The user with the identity `id`.
    pub open spec fn user(self, id: int) -> UserView {
        self.users[self.user_index(id)]
    }

    /// Some user has the name `name`.
    pub open spec fn has_username(self, name: Seq<char>) -> bool {
        username_listed(self.users, name)
    }

    /// Position of the user with the name `name`.
    pub open spec fn username_index(self, name: Seq<char>) -> int {
        username_place(self.users, name)
    }

    /// Some user has the address `email`.
    pub open spec fn has_email(self, email: Seq<char>) -> bool {
        email_listed(self.users, email)
    }

    /// Position of the user with the address `email`.
    pub open spec fn email_index(self, email: Seq<char>) -> int {
        email_place(self.users, email)
    }

    /// Some article has the identity `id`.
    pub open spec fn has_article(self, id: int) -> bool {
        article_listed(self.articles, id)
    }

    /// Some article has the slug `slug`.
    pub open spec fn has_slug(self, slug: Seq<char>) -> bool {
        slug_listed(self.articles, slug)
    }

    /// Position of the article with the slug `slug`.
    pub open spec fn slug_index(self, slug: Seq<char>) -> int {
        slug_place(self.articles, slug)
    }

    /// The article with the slug `slug`.
    pub open spec fn article(self, slug: Seq<char>) -> ArticleView {
        self.articles[self.slug_index(slug)]
    }

    /// Some comment has the identity `id`.
    pub open spec fn has_comment(self, id: int) -> bool {
        comment_listed(self.comments, id)
    }

    /// Position of the comment with the identity `id`.
    pub open spec fn comment_index(self, id: int) -> int {
        comment_place(self.comments, id)
    }

    /// A favorite row for `user` and `article` exists.
    pub open spec fn is_favorite(self, user: int, article: int) -> bool {
        favorite_listed(self.favorites, user, article)
    }

    /// Position of the favorite row for `user` and `article`.
    pub open spec fn favorite_index(self, user: int, article: int) -> int {
        favorite_place(self.favorites, user, article)
    }

    /// A follow row from `follower` to `followed` exists.
    pub open spec fn is_following(self, follower: int, followed: int) -> bool {
        follow_listed(self.follows, follower, followed)
    }

    /// Position of the follow row from `follower` to `followed`.
    pub open spec fn follow_index(self, follower: int, followed: int) -> int {
        follow_place(self.follows, follower, followed)
    }

    /// Number of favorite rows that refer to `article`.
    pub open spec fn favorite_count(self, article: int) -> nat {
        count_for(self.favorites, article)
    }

    /// Identities are positive, below the next identity and rise with the
    /// position; no two users share a name or an address.
    pub open spec fn users_wf(self) -> bool {
        &&& 1 <= self.next_user_id <= i32::MAX
        &&& forall|i: int|
            0 <= i < self.users.len() ==> 1 <= (#[trigger] self.users[i]).id < self.next_user_id
        &&& forall|i: int, j: int|
            0 <= i < j < self.users.len() ==> (#[trigger] self.users[i]).id < (
            #[trigger] self.users[j]).id
        &&& forall|i: int, j: int|
            0 <= i < j < self.users.len() ==> (#[trigger] self.users[i]).username != (
            #[trigger] self.users[j]).username
        &&& forall|i: int, j: int|
            0 <= i < j < self.users.len() ==> (#[trigger] self.users[i]).email != (
            #[trigger] self.users[j]).email
    }

    /// Identities are positive, below the next identity and rise with the
    /// position; no two articles share a slug; every author exists; every
    /// counter equals the number of favorite rows of its article.
    pub open spec fn articles_wf(self) -> bool {
        &&& 1 <= self.next_article_id <= i32::MAX
        &&& forall|i: int|
            0 <= i < self.articles.len() ==> 1 <= (#[trigger] self.articles[i]).id
                < self.next_article_id
        &&& forall|i: int, j: int|
            0 <= i < j < self.articles.len() ==> (#[trigger] self.articles[i]).id < (
            #[trigger] self.articles[j]).id
        &&& forall|i: int, j: int|
            0 <= i < j < self.articles.len() ==> (#[trigger] self.articles[i]).slug != (
            #[trigger] self.articles[j]).slug
        &&& forall|i: int|
            0 <= i < self.articles.len() ==> self.has_user((#[trigger] self.articles[i]).author)
        &&& forall|i: int|
            0 <= i < self.articles.len() ==> (#[trigger] self.articles[i]).favorites_count
                == self.favorite_count(self.articles[i].id)
    }

    /// Identities are positive, below the next identity and rise with the
    /// position; every comment belongs to an article and an author that
    /// exist.
    pub open spec fn comments_wf(self) -> bool {
        &&& 1 <= self.next_comment_id <= i32::MAX
        &&& forall|i: int|
            0 <= i < self.comments.len() ==> 1 <= (#[trigger] self.comments[i]).id
                < self.next_comment_id
        &&& forall|i: int, j: int|
            0 <= i < j < self.comments.len() ==> (#[trigger] self.comments[i]).id < (
            #[trigger] self.comments[j]).id
        &&& forall|i: int|
            0 <= i < self.comments.len() ==> self.has_article((#[trigger] self.comments[i]).article)
        &&& forall|i: int|
            0 <= i < self.comments.len() ==> self.has_user((#[trigger] self.comments[i]).author)
    }

    /// No pair occurs twice; every row refers to a user and an article that
    /// exist.
    pub open spec fn favorites_wf(self) -> bool {
        &&& forall|k: int, l: int|
            0 <= k < l < self.favorites.len() ==> (#[trigger] self.favorites[k]) != (
            #[trigger] self.favorites[l])
        &&& forall|k: int|
            0 <= k < self.favorites.len() ==> self.has_user((#[trigger] self.favorites[k]).user as int)
        &&& forall|k: int|
            0 <= k < self.favorites.len() ==> self.has_article(
                (#[trigger] self.favorites[k]).article as int,
            )
    }

    /// No pair occurs twice; every row refers to two users that exist; no
    /// user follows itself.
    pub open spec fn follows_wf(self) -> bool {
        &&& forall|k: int|
            0 <= k < self.follows.len() ==> (#[trigger] self.follows[k]).follower
                != self.follows[k].followed
        &&& forall|k: int, l: int|
            0 <= k < l < self.follows.len() ==> (#[trigger] self.follows[k]) != (
            #[trigger] self.follows[l])
        &&& forall|k: int|
            0 <= k < self.follows.len() ==> self.has_user((#[trigger] self.follows[k]).follower as int)
        &&& forall|k: int|
            0 <= k < self.follows.len() ==> self.has_user((#[trigger] self.follows[k]).followed as int)
    }

    /// The relations are consistent with each other.
    pub open spec fn wf(self) -> bool {
        &&& self.users_wf()
        &&& self.articles_wf()
        &&& self.comments_wf()
        &&& self.favorites_wf()
        &&& self.follows_wf()
    }
}

impl DbView {
    /// The user at a position is the one user with its identity.
    pub proof fn lemma_user_at(self, i: int)
        requires
            self.users_wf(),
            0 <= i < self.users.len(),
        ensures
            self.has_user(self.users[i].id),
            self.user_index(self.users[i].id) == i,
    {
        let j = self.user_index(self.users[i].id);
        assert(0 <= j < self.users.len() && self.users[j].id == self.users[i].id);
    }

    /// The user at a position is the one user with its name.
    pub proof fn lemma_username_at(self, i: int)
        requires
            self.users_wf(),
            0 <= i < self.users.len(),
        ensures
            self.has_username(self.users[i].username),
            self.username_index(self.users[i].username) == i,
    {
        let j = self.username_index(self.users[i].username);
        assert(0 <= j < self.users.len() && self.users[j].username == self.users[i].username);
    }

    /// The user at a position is the one user with its address.
    pub proof fn lemma_email_at(self, i: int)
        requires
            self.users_wf(),
            0 <= i < self.users.len(),
        ensures
            self.has_email(self.users[i].email),
            self.email_index(self.users[i].email) == i,
    {
        let j = self.email_index(self.users[i].email);
        assert(0 <= j < self.users.len() && self.users[j].email == self.users[i].email);
    }

    /// The article at a position is the one article with its slug.
    pub proof fn lemma_slug_at(self, i: int)
        requires
            self.articles_wf(),
            0 <= i < self.articles.len(),
        ensures
            self.has_slug(self.articles[i].slug),
            self.slug_index(self.articles[i].slug) == i,
            self.has_article(self.articles[i].id),
    {
        let j = self.slug_index(self.articles[i].slug);
        assert(0 <= j < self.articles.len() && self.articles[j].slug == self.articles[i].slug);
    }

    /// The comment at a position is the one comment with its identity.
    pub proof fn lemma_comment_at(self, i: int)
        requires
            self.comments_wf(),
            0 <= i < self.comments.len(),
        ensures
            self.has_comment(self.comments[i].id),
            self.comment_index(self.comments[i].id) == i,
    {
        let j = self.comment_index(self.comments[i].id);
        assert(0 <= j < self.comments.len() && self.comments[j].id == self.comments[i].id);
    }

    /// The favorite row at a position is the one row with its pair.
    pub proof fn lemma_favorite_at(self, k: int)
        requires
            self.favorites_wf(),
            0 <= k < self.favorites.len(),
        ensures
            self.is_favorite(self.favorites[k].user as int, self.favorites[k].article as int),
            self.favorite_index(self.favorites[k].user as int, self.favorites[k].article as int)
                == k,
    {
        let f = self.favorites[k];
        let l = self.favorite_index(f.user as int, f.article as int);
        assert(0 <= l < self.favorites.len() && self.favorites[l].user == f.user
            && self.favorites[l].article == f.article);
        assert(self.favorites[l] == f);
    }

    /// The follow row at a position is the one row with its pair.
    pub proof fn lemma_follow_at(self, k: int)
        requires
            self.follows_wf(),
            0 <= k < self.follows.len(),
        ensures
            self.is_following(self.follows[k].follower as int, self.follows[k].followed as int),
            self.follow_index(self.follows[k].follower as int, self.follows[k].followed as int)
                == k,
    {
        let f = self.follows[k];
        let l = self.follow_index(f.follower as int, f.followed as int);
        assert(0 <= l < self.follows.len() && self.follows[l].follower == f.follower
            && self.follows[l].followed == f.followed);
        assert(self.follows[l] == f);
    }

    /// An article's identity is above its position.
    pub proof fn lemma_article_id_above(self, i: int)
        requires
            self.articles_wf(),
            0 <= i < self.articles.len(),
        ensures
            self.articles[i].id >= i + 1,
        decreases i,
    {
        if i > 0 {
            self.lemma_article_id_above(i - 1);
        }
    }

    /// There are fewer articles than identities to give.
    pub proof fn lemma_articles_bounded(self)
        requires
            self.articles_wf(),
        ensures
            self.articles.len() < i32::MAX,
    {
        if self.articles.len() > 0 {
            self.lemma_article_id_above(self.articles.len() - 1);
        }
    }
}

impl DbView {
    /// The state after `a` was stored as the newest article.
    pub open spec fn with_article(self, a: ArticleView) -> DbView {
        DbView {
            articles: self.articles.push(a),
            next_article_id: self.next_article_id + 1,
            ..self
        }
    }

    /// An article that exists still exists after another was stored.
    pub proof fn lemma_has_article_after_push(self, a: ArticleView, id: int)
        requires
            self.has_article(id),
        ensures
            self.with_article(a).has_article(id),
    {
        let j = choose|j: int| 0 <= j < self.articles.len() && (#[trigger] self.articles[j]).id == id;
        assert(self.with_article(a).articles[j] == self.articles[j]);
    }

    /// No favorite row refers to an identity that was not given out yet.
    pub proof fn lemma_no_favorite_of_unused(self, id: int)
        requires
            self.wf(),
            id >= self.next_article_id,
        ensures
            self.favorite_count(id) == 0,
            forall|user: int| !self.is_favorite(user, id),
    {
        assert forall|k: int| 0 <= k < self.favorites.len() implies (
        #[trigger] self.favorites[k]).article != id by {
            assert(self.has_article(self.favorites[k].article as int));
        }
        lemma_count_none(self.favorites, id);
    }

    /// Storing a fresh article under the next identity, with a slug that is
    /// free, an author that exists and a counter of zero keeps the relations
    /// consistent.
    pub proof fn lemma_with_article_wf(self, a: ArticleView)
        requires
            self.wf(),
            a.id == self.next_article_id,
            self.next_article_id < i32::MAX,
            !self.has_slug(a.slug),
            self.has_user(a.author),
            a.favorites_count == 0,
        ensures
            self.with_article(a).wf(),
    {
        let post = self.with_article(a);
        let n = self.articles.len() as int;
        self.lemma_no_favorite_of_unused(a.id);
        assert forall|i: int| 0 <= i < post.articles.len() implies 1 <= (
        #[trigger] post.articles[i]).id < post.next_article_id by {
            if i < n {
                assert(post.articles[i] == self.articles[i]);
            }
        }
        assert forall|i: int, j: int| 0 <= i < j < post.articles.len() implies (
        #[trigger] post.articles[i]).id < (#[trigger] post.articles[j]).id by {
            assert(post.articles[i] == self.articles[i]);
            if j < n {
                assert(post.articles[j] == self.articles[j]);
            }
        }
        assert forall|i: int, j: int| 0 <= i < j < post.articles.len() implies (
        #[trigger] post.articles[i]).slug != (#[trigger] post.articles[j]).slug by {
            assert(post.articles[i] == self.articles[i]);
            if j < n {
                assert(post.articles[j] == self.articles[j]);
            }
        }
        assert forall|i: int| 0 <= i < post.articles.len() implies post.has_user(
            (#[trigger] post.articles[i]).author,
        ) by {
            if i < n {
                assert(post.articles[i] == self.articles[i]);
            }
        }
        assert forall|i: int| 0 <= i < post.articles.len() implies (
        #[trigger] post.articles[i]).favorites_count == post.favorite_count(post.articles[i].id) by {
            if i < n {
                assert(post.articles[i] == self.articles[i]);
            }
        }
        assert forall|i: int| 0 <= i < post.comments.len() implies post.has_article(
            (#[trigger] post.comments[i]).article,
        ) by {
            self.lemma_has_article_after_push(a, self.comments[i].article);
        }
        assert forall|k: int| 0 <= k < post.favorites.len() implies post.has_article(
            (#[trigger] post.favorites[k]).article as int,
        ) by {
            self.lemma_has_article_after_push(a, self.favorites[k].article as int);
        }
    }
}

impl DbView {
    /// The state after `user` favorited the article at position `i`: its
    /// counter is one higher and the favorite row is the newest.
    pub open spec fn with_favorite(self, i: int, user: i32) -> DbView {
        let a = self.articles[i];
        DbView {
            articles: self.articles.update(
                i,
                ArticleView { favorites_count: a.favorites_count + 1, ..a },
            ),
            favorites: self.favorites.push(Favorite { user, article: a.id as i32 }),
            ..self
        }
    }

    /// The state after the favorite row at position `k`, which refers to
    /// the article at position `i`, was taken away: the counter is one lower
    /// and the row is gone.
    pub open spec fn without_favorite(self, i: int, k: int) -> DbView {
        let a = self.articles[i];
        DbView {
            articles: self.articles.update(
                i,
                ArticleView { favorites_count: a.favorites_count - 1, ..a },
            ),
            favorites: self.favorites.remove(k),
            ..self
        }
    }

    /// Favoriting an article that the user has not favorited keeps the
    /// relations consistent.
    pub proof fn lemma_with_favorite_wf(self, i: int, user: i32)
        requires
            self.wf(),
            0 <= i < self.articles.len(),
            self.has_user(user as int),
            !self.is_favorite(user as int, self.articles[i].id),
        ensures
            self.with_favorite(i, user).wf(),
            self.with_favorite(i, user).is_favorite(user as int, self.articles[i].id),
    {
        let post = self.with_favorite(i, user);
        let a = self.articles[i];
        let f = Favorite { user, article: a.id as i32 };
        let n = self.favorites.len() as int;
        assert(post.favorites[n] == f);
        assert forall|j: int| 0 <= j < post.articles.len() implies post.has_user(
            (#[trigger] post.articles[j]).author,
        ) by {
            assert(post.articles[j].author == self.articles[j].author);
        }
        assert forall|j: int| 0 <= j < post.articles.len() implies (
        #[trigger] post.articles[j]).favorites_count == post.favorite_count(post.articles[j].id) by {
            lemma_count_push(self.favorites, f, self.articles[j].id);
            assert(self.articles[j].favorites_count == self.favorite_count(self.articles[j].id));
        }
        assert forall|j: int, l: int| 0 <= j < l < post.articles.len() implies (
        #[trigger] post.articles[j]).id < (#[trigger] post.articles[l]).id by {
            assert(post.articles[j].id == self.articles[j].id);
            assert(post.articles[l].id == self.articles[l].id);
        }
        assert forall|j: int, l: int| 0 <= j < l < post.articles.len() implies (
        #[trigger] post.articles[j]).slug != (#[trigger] post.articles[l]).slug by {
            assert(post.articles[j].slug == self.articles[j].slug);
            assert(post.articles[l].slug == self.articles[l].slug);
        }
        assert forall|j: int| 0 <= j < post.articles.len() implies 1 <= (
        #[trigger] post.articles[j]).id < post.next_article_id by {
            assert(post.articles[j].id == self.articles[j].id);
        }
        assert forall|id: int| self.has_article(id) implies post.has_article(id) by {
            let j = choose|j: int|
                0 <= j < self.articles.len() && (#[trigger] self.articles[j]).id == id;
            assert(post.articles[j].id == id);
        }
        assert(self.has_article(a.id));
        assert forall|c: int| 0 <= c < post.comments.len() implies post.has_article(
            (#[trigger] post.comments[c]).article,
        ) by {
            assert(self.has_article(self.comments[c].article));
        }
        assert forall|k: int| 0 <= k < post.favorites.len() implies post.has_article(
            (#[trigger] post.favorites[k]).article as int,
        ) by {
            if k < n {
                assert(post.favorites[k] == self.favorites[k]);
                assert(self.has_article(self.favorites[k].article as int));
            }
        }
        assert forall|k: int| 0 <= k < post.favorites.len() implies post.has_user(
            (#[trigger] post.favorites[k]).user as int,
        ) by {
            if k < n {
                assert(post.favorites[k] == self.favorites[k]);
            }
        }
        assert forall|k: int, l: int| 0 <= k < l < post.favorites.len() implies (
        #[trigger] post.favorites[k]) != (#[trigger] post.favorites[l]) by {
            assert(post.favorites[k] == self.favorites[k]);
            if l < n {
                assert(post.favorites[l] == self.favorites[l]);
            }
        }
    }

    /// Taking away a favorite row together with one count of its article
    /// keeps the relations consistent, and the pair is then not a favorite.
    pub proof fn lemma_without_favorite_wf(self, i: int, k: int)
        requires
            self.wf(),
            0 <= i < self.articles.len(),
            0 <= k < self.favorites.len(),
            self.favorites[k].article == self.articles[i].id,
        ensures
            self.without_favorite(i, k).wf(),
            !self.without_favorite(i, k).is_favorite(
                self.favorites[k].user as int,
                self.articles[i].id,
            ),
            self.articles[i].favorites_count >= 1,
    {
        let post = self.without_favorite(i, k);
        let a = self.articles[i];
        let f = self.favorites[k];
        lemma_count_remove(self.favorites, k, a.id);
        assert forall|j: int| 0 <= j < post.articles.len() implies post.has_user(
            (#[trigger] post.articles[j]).author,
        ) by {
            assert(post.articles[j].author == self.articles[j].author);
        }
        assert forall|j: int| 0 <= j < post.articles.len() implies (
        #[trigger] post.articles[j]).favorites_count == post.favorite_count(post.articles[j].id) by {
            lemma_count_remove(self.favorites, k, self.articles[j].id);
            assert(self.articles[j].favorites_count == self.favorite_count(self.articles[j].id));
        }
        assert forall|j: int, l: int| 0 <= j < l < post.articles.len() implies (
        #[trigger] post.articles[j]).id < (#[trigger] post.articles[l]).id by {
            assert(post.articles[j].id == self.articles[j].id);
            assert(post.articles[l].id == self.articles[l].id);
        }
        assert forall|j: int, l: int| 0 <= j < l < post.articles.len() implies (
        #[trigger] post.articles[j]).slug != (#[trigger] post.articles[l]).slug by {
            assert(post.articles[j].slug == self.articles[j].slug);
            assert(post.articles[l].slug == self.articles[l].slug);
        }
        assert forall|j: int| 0 <= j < post.articles.len() implies 1 <= (
        #[trigger] post.articles[j]).id < post.next_article_id by {
            assert(post.articles[j].id == self.articles[j].id);
        }
        assert forall|id: int| self.has_article(id) implies post.has_article(id) by {
            let j = choose|j: int|
                0 <= j < self.articles.len() && (#[trigger] self.articles[j]).id == id;
            assert(post.articles[j].id == id);
        }
        assert forall|c: int| 0 <= c < post.comments.len() implies post.has_article(
            (#[trigger] post.comments[c]).article,
        ) by {
            assert(self.has_article(self.comments[c].article));
        }
        assert forall|l: int| 0 <= l < post.favorites.len() implies {
            &&& post.has_article((#[trigger] post.favorites[l]).article as int)
            &&& post.has_user(post.favorites[l].user as int)
            &&& post.favorites[l] != f
        } by {
            let m = if l < k {
                l
            } else {
                l + 1
            };
            assert(post.favorites[l] == self.favorites[m]);
            assert(self.has_article(self.favorites[m].article as int));
        }
        assert forall|l: int, m: int| 0 <= l < m < post.favorites.len() implies (
        #[trigger] post.favorites[l]) != (#[trigger] post.favorites[m]) by {
            let l0 = if l < k {
                l
            } else {
                l + 1
            };
            let m0 = if m < k {
                m
            } else {
                m + 1
            };
            assert(post.favorites[l] == self.favorites[l0]);
            assert(post.favorites[m] == self.favorites[m0]);
        }
    }
}

impl DbView {
    /// The state after the article at position `i` was rewritten as `a`.
    pub open spec fn with_rewritten_article(self, i: int, a: ArticleView) -> DbView {
        DbView { articles: self.articles.update(i, a), ..self }
    }

    /// Rewriting an article keeps the relations consistent where it keeps
    /// its identity, its author and its counter, and its slug is that of no
    /// other article.
    pub proof fn lemma_with_rewritten_article_wf(self, i: int, a: ArticleView)
        requires
            self.wf(),
            0 <= i < self.articles.len(),
            a.id == self.articles[i].id,
            a.author == self.articles[i].author,
            a.favorites_count == self.articles[i].favorites_count,
            forall|j: int|
                0 <= j < self.articles.len() && j != i ==> (#[trigger] self.articles[j]).slug
                    != a.slug,
        ensures
            self.with_rewritten_article(i, a).wf(),
    {
        let post = self.with_rewritten_article(i, a);
        assert forall|j: int| 0 <= j < post.articles.len() implies post.has_user(
            (#[trigger] post.articles[j]).author,
        ) by {
            assert(post.articles[j].author == self.articles[j].author);
        }
        assert forall|j: int| 0 <= j < post.articles.len() implies (
        #[trigger] post.articles[j]).favorites_count == post.favorite_count(post.articles[j].id) by {
            assert(self.articles[j].favorites_count == self.favorite_count(self.articles[j].id));
        }
        assert forall|j: int, l: int| 0 <= j < l < post.articles.len() implies (
        #[trigger] post.articles[j]).id < (#[trigger] post.articles[l]).id by {
            assert(post.articles[j].id == self.articles[j].id);
            assert(post.articles[l].id == self.articles[l].id);
        }
        assert forall|j: int, l: int| 0 <= j < l < post.articles.len() implies (
        #[trigger] post.articles[j]).slug != (#[trigger] post.articles[l]).slug by {
            if j != i {
                assert(post.articles[j].slug == self.articles[j].slug);
            }
            if l != i {
                assert(post.articles[l].slug == self.articles[l].slug);
            }
        }
        assert forall|j: int| 0 <= j < post.articles.len() implies 1 <= (
        #[trigger] post.articles[j]).id < post.next_article_id by {
            assert(post.articles[j].id == self.articles[j].id);
        }
        assert forall|id: int| self.has_article(id) implies post.has_article(id) by {
            let j = choose|j: int|
                0 <= j < self.articles.len() && (#[trigger] self.articles[j]).id == id;
            assert(post.articles[j].id == id);
        }
        assert forall|c: int| 0 <= c < post.comments.len() implies post.has_article(
            (#[trigger] post.comments[c]).article,
        ) by {
            assert(self.has_article(self.comments[c].article));
        }
        assert forall|k: int| 0 <= k < post.favorites.len() implies post.has_article(
            (#[trigger] post.favorites[k]).article as int,
        ) by {
            assert(self.has_article(self.favorites[k].article as int));
        }
    }
}

impl DbView {
    /// The state after `u` was stored as the newest user.
    pub open spec fn with_user(self, u: UserView) -> DbView {
        DbView { users: self.users.push(u), next_user_id: self.next_user_id + 1, ..self }
    }

    /// The state after the user at position `i` was rewritten as `u`.
    pub open spec fn with_rewritten_user(self, i: int, u: UserView) -> DbView {
        DbView { users: self.users.update(i, u), ..self }
    }

    /// Rows that refer to users still do so in a state that has every user
    /// identity of this one and the same other relations.
    pub proof fn lemma_users_replaced(self, post: DbView)
        requires
            self.wf(),
            post.users_wf(),
            forall|id: int| self.has_user(id) ==> post.has_user(id),
            post.articles == self.articles,
            post.comments == self.comments,
            post.favorites == self.favorites,
            post.follows == self.follows,
            post.next_article_id == self.next_article_id,
            post.next_comment_id == self.next_comment_id,
        ensures
            post.wf(),
    {
        assert forall|i: int| 0 <= i < post.articles.len() implies post.has_user(
            (#[trigger] post.articles[i]).author,
        ) by {
            assert(self.has_user(self.articles[i].author));
        }
        assert forall|i: int| 0 <= i < post.articles.len() implies (
        #[trigger] post.articles[i]).favorites_count == post.favorite_count(post.articles[i].id) by {
            assert(self.articles[i].favorites_count == self.favorite_count(self.articles[i].id));
        }
        assert forall|i: int| 0 <= i < post.comments.len() implies post.has_user(
            (#[trigger] post.comments[i]).author,
        ) by {
            assert(self.has_user(self.comments[i].author));
        }
        assert forall|i: int| 0 <= i < post.comments.len() implies post.has_article(
            (#[trigger] post.comments[i]).article,
        ) by {
            assert(self.has_article(self.comments[i].article));
        }
        assert forall|k: int| 0 <= k < post.favorites.len() implies post.has_user(
            (#[trigger] post.favorites[k]).user as int,
        ) by {
            assert(self.has_user(self.favorites[k].user as int));
        }
        assert forall|k: int| 0 <= k < post.favorites.len() implies post.has_article(
            (#[trigger] post.favorites[k]).article as int,
        ) by {
            assert(self.has_article(self.favorites[k].article as int));
        }
        assert forall|k: int| 0 <= k < post.follows.len() implies post.has_user(
            (#[trigger] post.follows[k]).follower as int,
        ) by {
            assert(self.has_user(self.follows[k].follower as int));
        }
        assert forall|k: int| 0 <= k < post.follows.len() implies post.has_user(
            (#[trigger] post.follows[k]).followed as int,
        ) by {
            assert(self.has_user(self.follows[k].followed as int));
        }
    }

    /// Storing a fresh user under the next identity, with a name and an
    /// address that are free, keeps the relations consistent.
    pub proof fn lemma_with_user_wf(self, u: UserView)
        requires
            self.wf(),
            u.id == self.next_user_id,
            self.next_user_id < i32::MAX,
            !self.has_username(u.username),
            !self.has_email(u.email),
        ensures
            self.with_user(u).wf(),
    {
        let post = self.with_user(u);
        let n = self.users.len() as int;
        assert forall|i: int| 0 <= i < post.users.len() implies 1 <= (#[trigger] post.users[i]).id
            < post.next_user_id by {
            if i < n {
                assert(post.users[i] == self.users[i]);
            }
        }
        assert forall|i: int, j: int| 0 <= i < j < post.users.len() implies {
            &&& (#[trigger] post.users[i]).id < (#[trigger] post.users[j]).id
            &&& post.users[i].username != post.users[j].username
            &&& post.users[i].email != post.users[j].email
        } by {
            assert(post.users[i] == self.users[i]);
            if j < n {
                assert(post.users[j] == self.users[j]);
            }
        }
        assert forall|id: int| self.has_user(id) implies post.has_user(id) by {
            let j = choose|j: int| 0 <= j < self.users.len() && (#[trigger] self.users[j]).id == id;
            assert(post.users[j].id == id);
        }
        self.lemma_users_replaced(post);
    }

    /// Rewriting a user keeps the relations consistent where it keeps the
    /// identity, and the name and the address are those of no other user.
    pub proof fn lemma_with_rewritten_user_wf(self, i: int, u: UserView)
        requires
            self.wf(),
            0 <= i < self.users.len(),
            u.id == self.users[i].id,
            forall|j: int|
                0 <= j < self.users.len() && j != i ==> (#[trigger] self.users[j]).username
                    != u.username && self.users[j].email != u.email,
        ensures
            self.with_rewritten_user(i, u).wf(),
    {
        let post = self.with_rewritten_user(i, u);
        assert forall|j: int| 0 <= j < post.users.len() implies 1 <= (#[trigger] post.users[j]).id
            < post.next_user_id by {
            assert(post.users[j].id == self.users[j].id);
        }
        assert forall|j: int, l: int| 0 <= j < l < post.users.len() implies {
            &&& (#[trigger] post.users[j]).id < (#[trigger] post.users[l]).id
            &&& post.users[j].username != post.users[l].username
            &&& post.users[j].email != post.users[l].email
        } by {
            assert(post.users[j].id == self.users[j].id);
            assert(post.users[l].id == self.users[l].id);
            if j != i {
                assert(post.users[j] == self.users[j]);
            }
            if l != i {
                assert(post.users[l] == self.users[l]);
            }
        }
        assert forall|id: int| self.has_user(id) implies post.has_user(id) by {
            let j = choose|j: int| 0 <= j < self.users.len() && (#[trigger] self.users[j]).id == id;
            assert(post.users[j].id == id);
        }
        self.lemma_users_replaced(post);
    }
}

/// The predicate on comments that holds of those on `article`.
pub open spec fn comment_on(article: int) -> spec_fn(CommentView) -> bool {
    |c: CommentView| c.article == article
}

impl DbView {
    /// The state after `c` was stored as the newest comment.
    pub open spec fn with_comment(self, c: CommentView) -> DbView {
        DbView {
            comments: self.comments.push(c),
            next_comment_id: self.next_comment_id + 1,
            ..self
        }
    }

    /// The state after the comment at position `k` was deleted.
    pub open spec fn without_comment(self, k: int) -> DbView {
        DbView { comments: self.comments.remove(k), ..self }
    }

    /// The state after the follow row `f` was stored as the newest.
    pub open spec fn with_follow(self, f: Follow) -> DbView {
        DbView { follows: self.follows.push(f), ..self }
    }

    /// The state after the follow row at position `k` was deleted.
    pub open spec fn without_follow(self, k: int) -> DbView {
        DbView { follows: self.follows.remove(k), ..self }
    }

    /// An article that exists also exists in a state with the same
    /// articles.
    pub proof fn lemma_same_articles(self, post: DbView, id: int)
        requires
            self.has_article(id),
            post.articles == self.articles,
        ensures
            post.has_article(id),
    {
        let j = choose|j: int| 0 <= j < self.articles.len() && (#[trigger] self.articles[j]).id == id;
        assert(post.articles[j].id == id);
    }

    /// Storing a comment under the next identity, on an article and by an
    /// author that exist, keeps the relations consistent.
    pub proof fn lemma_with_comment_wf(self, c: CommentView)
        requires
            self.wf(),
            c.id == self.next_comment_id,
            self.next_comment_id < i32::MAX,
            self.has_article(c.article),
            self.has_user(c.author),
        ensures
            self.with_comment(c).wf(),
    {
        let post = self.with_comment(c);
        let n = self.comments.len() as int;
        assert forall|i: int| 0 <= i < post.comments.len() implies {
            &&& 1 <= (#[trigger] post.comments[i]).id < post.next_comment_id
            &&& post.has_article(post.comments[i].article)
            &&& post.has_user(post.comments[i].author)
        } by {
            if i < n {
                assert(post.comments[i] == self.comments[i]);
                assert(self.has_user(self.comments[i].author));
            }
            self.lemma_same_articles(post, post.comments[i].article);
        }
        assert forall|i: int, j: int| 0 <= i < j < post.comments.len() implies (
        #[trigger] post.comments[i]).id < (#[trigger] post.comments[j]).id by {
            assert(post.comments[i] == self.comments[i]);
            if j < n {
                assert(post.comments[j] == self.comments[j]);
            }
        }
        assert forall|k: int| 0 <= k < post.favorites.len() implies post.has_article(
            (#[trigger] post.favorites[k]).article as int,
        ) by {
            self.lemma_same_articles(post, self.favorites[k].article as int);
        }
    }

    /// Deleting a comment keeps the relations consistent.
    pub proof fn lemma_without_comment_wf(self, k: int)
        requires
            self.wf(),
            0 <= k < self.comments.len(),
        ensures
            self.without_comment(k).wf(),
            !self.without_comment(k).has_comment(self.comments[k].id),
    {
        let post = self.without_comment(k);
        assert forall|i: int| 0 <= i < post.comments.len() implies {
            &&& 1 <= (#[trigger] post.comments[i]).id < post.next_comment_id
            &&& post.has_article(post.comments[i].article)
            &&& post.has_user(post.comments[i].author)
            &&& post.comments[i].id != self.comments[k].id
        } by {
            let i0 = if i < k {
                i
            } else {
                i + 1
            };
            assert(post.comments[i] == self.comments[i0]);
            assert(self.has_user(self.comments[i0].author));
            self.lemma_same_articles(post, self.comments[i0].article);
        }
        assert forall|i: int, j: int| 0 <= i < j < post.comments.len() implies (
        #[trigger] post.comments[i]).id < (#[trigger] post.comments[j]).id by {
            let i0 = if i < k {
                i
            } else {
                i + 1
            };
            let j0 = if j < k {
                j
            } else {
                j + 1
            };
            assert(post.comments[i] == self.comments[i0]);
            assert(post.comments[j] == self.comments[j0]);
        }
        assert forall|l: int| 0 <= l < post.favorites.len() implies post.has_article(
            (#[trigger] post.favorites[l]).article as int,
        ) by {
            self.lemma_same_articles(post, self.favorites[l].article as int);
        }
    }

    /// Storing a follow row between two different users that exist, where
    /// none was, keeps the relations consistent.
    pub proof fn lemma_with_follow_wf(self, f: Follow)
        requires
            self.wf(),
            f.follower != f.followed,
            self.has_user(f.follower as int),
            self.has_user(f.followed as int),
            !self.is_following(f.follower as int, f.followed as int),
        ensures
            self.with_follow(f).wf(),
            self.with_follow(f).is_following(f.follower as int, f.followed as int),
    {
        let post = self.with_follow(f);
        let n = self.follows.len() as int;
        assert(post.follows[n] == f);
        assert forall|k: int| 0 <= k < post.follows.len() implies {
            &&& (#[trigger] post.follows[k]).follower != post.follows[k].followed
            &&& post.has_user(post.follows[k].follower as int)
            &&& post.has_user(post.follows[k].followed as int)
        } by {
            if k < n {
                assert(post.follows[k] == self.follows[k]);
            }
        }
        assert forall|k: int, l: int| 0 <= k < l < post.follows.len() implies (
        #[trigger] post.follows[k]) != (#[trigger] post.follows[l]) by {
            assert(post.follows[k] == self.follows[k]);
            if l < n {
                assert(post.follows[l] == self.follows[l]);
            }
        }
    }

    /// Deleting a follow row keeps the relations consistent, and the pair
    /// is then not following.
    pub proof fn lemma_without_follow_wf(self, k: int)
        requires
            self.wf(),
            0 <= k < self.follows.len(),
        ensures
            self.without_follow(k).wf(),
            !self.without_follow(k).is_following(
                self.follows[k].follower as int,
                self.follows[k].followed as int,
            ),
    {
        let post = self.without_follow(k);
        assert forall|l: int| 0 <= l < post.follows.len() implies {
            &&& (#[trigger] post.follows[l]).follower != post.follows[l].followed
            &&& post.has_user(post.follows[l].follower as int)
            &&& post.has_user(post.follows[l].followed as int)
            &&& post.follows[l] != self.follows[k]
        } by {
            let l0 = if l < k {
                l
            } else {
                l + 1
            };
            assert(post.follows[l] == self.follows[l0]);
        }
        assert forall|l: int, m: int| 0 <= l < m < post.follows.len() implies (
        #[trigger] post.follows[l]) != (#[trigger] post.follows[m]) by {
            let l0 = if l < k {
                l
            } else {
                l + 1
            };
            let m0 = if m < k {
                m
            } else {
                m + 1
            };
            assert(post.follows[l] == self.follows[l0]);
            assert(post.follows[m] == self.follows[m0]);
        }
    }
}

/// The predicate on favorite rows that holds of those of other articles
/// than `article`.
pub open spec fn favorite_elsewhere(article: int) -> spec_fn(Favorite) -> bool {
    |f: Favorite| f.article != article
}

/// The predicate on comments that holds of those on other articles than
/// `article`.
pub open spec fn comment_elsewhere(article: int) -> spec_fn(CommentView) -> bool {
    |c: CommentView| c.article != article
}

impl DbView {
    /// The state after the article at position `i` was deleted, and with
    /// it its favorite rows and its comments.
    pub open spec fn without_article(self, i: int) -> DbView {
        let id = self.articles[i].id;
        DbView {
            articles: self.articles.remove(i),
            comments: self.comments.filter(comment_elsewhere(id)),
            favorites: self.favorites.filter(favorite_elsewhere(id)),
            ..self
        }
    }

    /// Deleting an article with its favorite rows and comments keeps the
    /// relations consistent.
    pub proof fn lemma_without_article_wf(self, i: int)
        requires
            self.wf(),
            0 <= i < self.articles.len(),
        ensures
            self.without_article(i).wf(),
            !self.without_article(i).has_article(self.articles[i].id),
            !self.without_article(i).has_slug(self.articles[i].slug),
    {
        let post = self.without_article(i);
        let id = self.articles[i].id;
        let fp = favorite_elsewhere(id);
        let cp = comment_elsewhere(id);
        assert forall|j: int| 0 <= j < post.articles.len() implies (#[trigger] post.articles[j])
            == self.articles[if j < i {
            j
        } else {
            j + 1
        }] by {}
        assert forall|j: int| 0 <= j < post.articles.len() implies {
            &&& 1 <= (#[trigger] post.articles[j]).id < post.next_article_id
            &&& post.has_user(post.articles[j].author)
            &&& post.articles[j].id != id
            &&& post.articles[j].slug != self.articles[i].slug
        } by {
            let j0 = if j < i {
                j
            } else {
                j + 1
            };
            assert(post.articles[j] == self.articles[j0]);
        }
        assert forall|j: int, l: int| 0 <= j < l < post.articles.len() implies {
            &&& (#[trigger] post.articles[j]).id < (#[trigger] post.articles[l]).id
            &&& post.articles[j].slug != post.articles[l].slug
        } by {
            let j0 = if j < i {
                j
            } else {
                j + 1
            };
            let l0 = if l < i {
                l
            } else {
                l + 1
            };
            assert(post.articles[j] == self.articles[j0]);
            assert(post.articles[l] == self.articles[l0]);
        }
        assert forall|j: int| 0 <= j < post.articles.len() implies (
        #[trigger] post.articles[j]).favorites_count == post.favorite_count(post.articles[j].id) by {
            let j0 = if j < i {
                j
            } else {
                j + 1
            };
            assert(post.articles[j] == self.articles[j0]);
            lemma_count_elsewhere(self.favorites, id, self.articles[j0].id);
        }
        assert forall|x: int| x != id && self.has_article(x) implies post.has_article(x) by {
            let j0 = choose|j: int|
                0 <= j < self.articles.len() && (#[trigger] self.articles[j]).id == x;
            let j = if j0 < i {
                j0
            } else {
                j0 - 1
            };
            assert(post.articles[j] == self.articles[j0]);
        }
        broadcast use vstd::seq_lib::group_filter_ensures;

        assert forall|k: int| 0 <= k < post.favorites.len() implies {
            &&& post.has_user((#[trigger] post.favorites[k]).user as int)
            &&& post.has_article(post.favorites[k].article as int)
        } by {
            let f = post.favorites[k];
            assert(fp(f));
            assert(post.favorites.contains(f));
            self.favorites.lemma_filter_contains_rev(fp, f);
            let k0 = choose|k0: int| 0 <= k0 < self.favorites.len() && self.favorites[k0] == f;
            assert(self.has_article(self.favorites[k0].article as int));
        }
        assert forall|k: int, l: int| 0 <= k < l < post.favorites.len() implies (
        #[trigger] post.favorites[k]) != (#[trigger] post.favorites[l]) by {
            lemma_filter_order(self.favorites, fp, k, l);
        }
        assert forall|c: int| 0 <= c < post.comments.len() implies {
            &&& 1 <= (#[trigger] post.comments[c]).id < post.next_comment_id
            &&& post.has_user(post.comments[c].author)
            &&& post.has_article(post.comments[c].article)
        } by {
            let row = post.comments[c];
            assert(cp(row));
            assert(post.comments.contains(row));
            self.comments.lemma_filter_contains_rev(cp, row);
            let c0 = choose|c0: int| 0 <= c0 < self.comments.len() && self.comments[c0] == row;
            assert(self.has_article(self.comments[c0].article));
        }
        assert forall|c: int, l: int| 0 <= c < l < post.comments.len() implies (
        #[trigger] post.comments[c]).id < (#[trigger] post.comments[l]).id by {
            lemma_filter_order(self.comments, cp, c, l);
        }
    }
}

/// Two rows that a filter keeps stood in the same order before.
pub proof fn lemma_filter_order<A>(s: Seq<A>, p: spec_fn(A) -> bool, l: int, m: int)
    requires
        0 <= l < m < s.filter(p).len(),
    ensures
        exists|a: int, b: int|
            0 <= a < b < s.len() && (#[trigger] s[a]) == s.filter(p)[l] && (#[trigger] s[b])
                == s.filter(p)[m],
    decreases s.len(),
{
    reveal(Seq::filter);
    let rest = s.drop_last();
    let kept = rest.filter(p);
    if s.len() > 0 {
        if p(s.last()) && m == kept.len() {
            assert(kept.contains(kept[l]));
            rest.lemma_filter_contains_rev(p, kept[l]);
            let a = choose|a: int| 0 <= a < rest.len() && rest[a] == kept[l];
            let b = s.len() - 1;
            assert(s[a] == s.filter(p)[l] && s[b] == s.filter(p)[m]);
        } else {
            lemma_filter_order(rest, p, l, m);
            let (a, b) = choose|a: int, b: int|
                0 <= a < b < rest.len() && (#[trigger] rest[a]) == kept[l] && (#[trigger] rest[b])
                    == kept[m];
            assert(s[a] == s.filter(p)[l] && s[b] == s.filter(p)[m]);
        }
    }
}

/// Dropping the rows of one article leaves the count of every other.
pub proof fn lemma_count_elsewhere(favorites: Seq<Favorite>, article: int, other: int)
    requires
        other != article,
    ensures
        count_for(favorites.filter(favorite_elsewhere(article)), other) == count_for(
            favorites,
            other,
        ),
    decreases favorites.len(),
{
    reveal(Seq::filter);
    if favorites.len() > 0 {
        let rest = favorites.drop_last();
        lemma_count_elsewhere(rest, article, other);
        if favorites.last().article != article {
            lemma_count_push(rest.filter(favorite_elsewhere(article)), favorites.last(), other);
        }
    }
}

/// One more row counts for its article and for no other.
pub proof fn lemma_count_push(favorites: Seq<Favorite>, f: Favorite, article: int)
    ensures
        count_for(favorites.push(f), article) == count_for(favorites, article) + if f.article
            == article {
            1nat
        } else {
            0nat
        },
{
    assert(favorites.push(f).drop_last() =~= favorites);
}

/// One row less counts for its article and for no other.
pub proof fn lemma_count_remove(favorites: Seq<Favorite>, k: int, article: int)
    requires
        0 <= k < favorites.len(),
    ensures
        count_for(favorites, article) == count_for(favorites.remove(k), article) + if favorites[k].article
            == article {
            1nat
        } else {
            0nat
        },
    decreases favorites.len(),
{
    if k == favorites.len() - 1 {
        assert(favorites.remove(k) =~= favorites.drop_last());
    } else {
        assert(favorites.remove(k).drop_last() =~= favorites.drop_last().remove(k));
        assert(favorites.remove(k).last() == favorites.last());
        lemma_count_remove(favorites.drop_last(), k, article);
    }
}

/// A list without a row for `article` counts none for it.
pub proof fn lemma_count_none(favorites: Seq<Favorite>, article: int)
    requires
        forall|k: int| 0 <= k < favorites.len() ==> (#[trigger] favorites[k]).article != article,
    ensures
        count_for(favorites, article) == 0,
    decreases favorites.len(),
{
    if favorites.len() > 0 {
        assert forall|k: int| 0 <= k < favorites.drop_last().len() implies (
        #[trigger] favorites.drop_last()[k]).article != article by {
            assert(favorites.drop_last()[k] == favorites[k]);
        }
        lemma_count_none(favorites.drop_last(), article);
    }
}

/// Number of rows of `favorites` that refer to `article`.
pub open spec fn count_for(favorites: Seq<Favorite>, article: int) -> nat
    decreases favorites.len(),
{
    if favorites.len() == 0 {
        0
    } else {
        let rest = count_for(favorites.drop_last(), article);
        if favorites.last().article == article {
            rest + 1
        } else {
            rest
        }
    }
}

} // verus!
