use vstd::prelude::*;
use crate::config::DEFAULT_LIMIT;
use crate::config::SLUG_ATTEMPTS;
use crate::database::model::comment_elsewhere;
use crate::database::model::favorite_elsewhere;
use crate::database::model::DbView;
use crate::database::model::Favorite;
use crate::database::pagination::window;
use crate::database::pagination::OffsetLimit;
use crate::database::slug::is_slug_for;
use crate::database::Db;
use crate::models::article::article_jsons;
use crate::models::article::Article;
use crate::models::article::ArticleJson;
use crate::models::article::ArticleJsonView;
use crate::models::article::ArticleView;
use crate::models::comment::comment_views;
use crate::models::comment::Comment;
use crate::models::copy_texts;
use crate::models::has_text;
use crate::models::opt_int;
use crate::models::opt_text;
use crate::models::text_eq;
use crate::models::texts;
use crate::models::timestamp::Timestamp;

pub use crate::database::slug::generate_suffix;
pub use crate::database::slug::slugify;

verus! {

/// The outward form of a stored article for a reader: the article joined
/// with its author's row, and favorited exactly when the reader is known and
/// has a favorite row for it.
pub open spec fn article_json(db: DbView, a: ArticleView, viewer: Option<int>) -> ArticleJsonView {
    a.attach(db.user(a.author), viewer is Some && db.is_favorite(viewer.unwrap(), a.id))
}

/// Whether a search selects an article. Every clause that is given must
/// hold: the author has the given name, the tag is one of the article's
/// tags, the given user has favorited the article.
pub open spec fn selects(
    db: DbView,
    tag: Option<Seq<char>>,
    author: Option<Seq<char>>,
    favorited_by: Option<int>,
    a: ArticleView,
) -> bool {
    &&& author is Some ==> db.user(a.author).username == author.unwrap()
    &&& tag is Some ==> a.tag_list.contains(tag.unwrap())
    &&& favorited_by is Some ==> db.is_favorite(favorited_by.unwrap(), a.id)
}

/// [`selects`] as a predicate on articles.
pub open spec fn selector(
    db: DbView,
    tag: Option<Seq<char>>,
    author: Option<Seq<char>>,
    favorited_by: Option<int>,
) -> spec_fn(ArticleView) -> bool {
    |a: ArticleView| selects(db, tag, author, favorited_by, a)
}

/// [`article_json`] as a function on articles.
pub open spec fn projector(db: DbView, viewer: Option<int>) -> spec_fn(ArticleView) -> ArticleJsonView {
    |a: ArticleView| article_json(db, a, viewer)
}

/// All articles that a search selects, in stored order, in their outward
/// form for the reader.
pub open spec fn matching(
    db: DbView,
    tag: Option<Seq<char>>,
    author: Option<Seq<char>>,
    favorited_by: Option<int>,
    viewer: Option<int>,
) -> Seq<ArticleJsonView> {
    db.articles.filter(selector(db, tag, author, favorited_by)).map_values(projector(db, viewer))
}

/// What a search asks for. A clause that is `None` selects nothing out.
#[derive(Debug, PartialEq, Eq)]
pub struct FindArticles {
    pub tag: Option<String>,
    pub author: Option<String>,
    /// favorited by user
    pub favorited: Option<String>,
    pub limit: Option<i64>,
    pub offset: Option<i64>,
}

impl Default for FindArticles {
    fn default() -> (r: FindArticles)
        ensures
            r.tag is None,
            r.author is None,
            r.favorited is None,
            r.limit is None,
            r.offset is None,
    {
        FindArticles { tag: None, author: None, favorited: None, limit: None, offset: None }
    }
}

impl FindArticles {
    /// The page size asked for, or the default.
    pub open spec fn resolved_limit(&self) -> int {
        match self.limit {
            Some(l) => l as int,
            None => DEFAULT_LIMIT as int,
        }
    }

    /// The offset asked for, or zero.
    pub open spec fn resolved_offset(&self) -> int {
        match self.offset {
            Some(o) => o as int,
            None => 0,
        }
    }
}

/// All articles that a search selects, in stored order, in their outward
/// form for the reader. A search for the favorites of a name that no user
/// has selects nothing.
pub open spec fn selected(db: DbView, params: &FindArticles, viewer: Option<int>) -> Seq<
    ArticleJsonView,
> {
    let favorited = opt_text(params.favorited);
    if favorited is Some && !db.has_username(favorited.unwrap()) {
        Seq::empty()
    } else {
        let favorited_by = if favorited is Some {
            Some(db.users[db.username_index(favorited.unwrap())].id)
        } else {
            None
        };
        matching(db, opt_text(params.tag), opt_text(params.author), favorited_by, viewer)
    }
}

/// The page and the total of a search: the window of the selected
/// articles, and the number of all of them.
pub open spec fn found(db: DbView, params: &FindArticles, viewer: Option<int>) -> (
    Seq<ArticleJsonView>,
    int,
) {
    let rows = selected(db, params, viewer);
    (window(rows, params.resolved_offset(), params.resolved_limit()), rows.len() as int)
}

/// The total of a search does not depend on the window: two searches with
/// the same clauses have the same total, whatever offset and limit each
/// asks for, also where a page is empty.
pub proof fn lemma_total_independent_of_window(
    db: DbView,
    params: &FindArticles,
    other: &FindArticles,
    viewer: Option<int>,
)
    requires
        opt_text(params.tag) == opt_text(other.tag),
        opt_text(params.author) == opt_text(other.author),
        opt_text(params.favorited) == opt_text(other.favorited),
    ensures
        found(db, params, viewer).1 == found(db, other, viewer).1,
        found(db, params, viewer).1 == selected(db, params, viewer).len(),
{
}

/// A window that starts behind the selected articles, or that has the
/// limit zero, gives an empty page, and still the number of all selected
/// articles as the total.
pub proof fn lemma_empty_page_keeps_total(db: DbView, params: &FindArticles, viewer: Option<int>)
    requires
        0 <= params.resolved_offset(),
        0 <= params.resolved_limit(),
        params.resolved_offset() >= selected(db, params, viewer).len() || params.resolved_limit()
            == 0,
    ensures
        found(db, params, viewer).0.len() == 0,
        found(db, params, viewer).1 == selected(db, params, viewer).len(),
{
}

/// Whether `user_id` has a favorite row for `article`.
fn is_favorite(db: &Db, article: &Article, user_id: i32) -> (favorited: bool)
    ensures
        favorited == db@.is_favorite(user_id as int, article.id as int),
{
    db.favorite_position(user_id, article.id).is_some()
}

/// Joins `article` with its author's row.
fn populate(db: &Db, article: Article, favorited: bool) -> (json: ArticleJson)
    requires
        db.wf(),
        db@.has_user(article.author as int),
    ensures
        json@ == article@.attach(db@.user(article.author as int), favorited),
{
    let at = db.user_position(article.author);
    let j: usize = at.unwrap();
    proof {
        db@.lemma_user_at(j as int);
    }
    let author = db.users[j].clone();
    article.attach(author, favorited)
}

/// The outward form of the article at position `i` for the reader.
fn json_at(db: &Db, i: usize, user_id: Option<i32>) -> (json: ArticleJson)
    requires
        db.wf(),
        i < db@.articles.len(),
    ensures
        json@ == article_json(db@, db@.articles[i as int], opt_int(user_id)),
{
    let article = &db.articles[i];
    assert(db@.articles[i as int] == article@);
    let favorited = match user_id {
        Some(u) => is_favorite(db, article, u),
        None => false,
    };
    populate(db, article.clone(), favorited)
}

/// Whether the search clauses select the article at position `i`.
fn selected_at(
    db: &Db,
    i: usize,
    tag: &Option<String>,
    author: &Option<String>,
    favorited_by: Option<i32>,
) -> (selected: bool)
    requires
        db.wf(),
        i < db@.articles.len(),
    ensures
        selected == selects(
            db@,
            opt_text(*tag),
            opt_text(*author),
            opt_int(favorited_by),
            db@.articles[i as int],
        ),
{
    let article = &db.articles[i];
    assert(db@.articles[i as int] == article@);
    let by_author = match author {
        Some(name) => {
            let at = db.user_position(article.author);
            let j: usize = at.unwrap();
            proof {
                db@.lemma_user_at(j as int);
            }
            text_eq(db.users[j].username.as_str(), name.as_str())
        },
        None => true,
    };
    let by_tag = match tag {
        Some(t) => has_text(&article.tag_list, t.as_str()),
        None => true,
    };
    let by_favorite = match favorited_by {
        Some(u) => is_favorite(db, article, u),
        None => true,
    };
    by_author && by_tag && by_favorite
}

/// Searches the articles: the page that `params` asks for among the
/// articles it selects, in stored order, and the total that comes with it.
pub fn find(db: &Db, params: &FindArticles, user_id: Option<i32>) -> (r: (Vec<ArticleJson>, i64))
    requires
        db.wf(),
        params.resolved_offset() >= 0,
        params.resolved_limit() >= 0,
    ensures
        article_jsons(r.0@) == found(db@, params, opt_int(user_id)).0,
        r.1 == found(db@, params, opt_int(user_id)).1,
{
    let favorited_by: Option<i32> = match &params.favorited {
        Some(name) => {
            match db.username_position(name.as_str()) {
                Some(j) => {
                    proof {
                        db@.lemma_username_at(j as int);
                    }
                    Some(db.users[j].id)
                },
                None => {
                    assert(article_jsons(Seq::<ArticleJson>::empty()) =~= Seq::empty());
                    assert(window(
                        Seq::<ArticleJsonView>::empty(),
                        params.resolved_offset(),
                        params.resolved_limit(),
                    ) =~= Seq::empty());
                    assert(selected(db@, params, opt_int(user_id)) =~= Seq::empty());
                    return (Vec::new(), 0);
                },
            }
        },
        None => None,
    };
    let ghost sel = selector(
        db@,
        opt_text(params.tag),
        opt_text(params.author),
        opt_int(favorited_by),
    );
    let ghost proj = projector(db@, opt_int(user_id));
    let mut rows: Vec<ArticleJson> = Vec::new();
    let mut i: usize = 0;
    proof {
        reveal(Seq::filter);
        assert(db@.articles.take(0) =~= Seq::empty());
        assert(article_jsons(rows@) =~= db@.articles.take(0).filter(sel).map_values(proj));
    }
    while i < db.articles.len()
        invariant
            db.wf(),
            i <= db@.articles.len(),
            db@.articles.len() == db.articles@.len(),
            rows@.len() <= i,
            sel == selector(
                db@,
                opt_text(params.tag),
                opt_text(params.author),
                opt_int(favorited_by),
            ),
            proj == projector(db@, opt_int(user_id)),
            article_jsons(rows@) == db@.articles.take(i as int).filter(sel).map_values(proj),
        decreases db.articles.len() - i,
    {
        let ghost before = article_jsons(rows@);
        let selected = selected_at(db, i, &params.tag, &params.author, favorited_by);
        proof {
            reveal(Seq::filter);
            assert(db@.articles.take(i + 1).drop_last() =~= db@.articles.take(i as int));
            assert(db@.articles.take(i + 1).last() == db@.articles[i as int]);
        }
        if selected {
            let json = json_at(db, i, user_id);
            rows.push(json);
            assert(article_jsons(rows@) =~= before.push(json@));
            assert(db@.articles.take(i + 1).filter(sel).map_values(proj) =~= db@.articles.take(
                i as int,
            ).filter(sel).map_values(proj).push(proj(db@.articles[i as int])));
        }
        i += 1;
    }
    proof {
        assert(db@.articles.take(i as int) =~= db@.articles);
        db@.lemma_articles_bounded();
    }
    let offset: i64 = match params.offset {
        Some(o) => o,
        None => 0,
    };
    let limit: i64 = match params.limit {
        Some(l) => l,
        None => DEFAULT_LIMIT,
    };
    let ghost all = rows@;
    let paged = rows.offset_and_limit(offset, limit).load_and_count();
    match paged {
        Ok(r) => {
            assert(article_jsons(r.0@) =~= window(article_jsons(all), offset as int, limit as int));
            r
        },
        Err(_) => (Vec::new(), 0),
    }
}

/// What a feed asks for.
#[derive(Debug, PartialEq, Eq)]
pub struct FeedArticles {
    pub limit: Option<i64>,
    pub offset: Option<i64>,
}

impl Default for FeedArticles {
    fn default() -> (r: FeedArticles)
        ensures
            r.limit is None,
            r.offset is None,
    {
        FeedArticles { limit: None, offset: None }
    }
}

impl FeedArticles {
    /// The page size asked for, or the default.
    pub open spec fn resolved_limit(&self) -> int {
        match self.limit {
            Some(l) => l as int,
            None => DEFAULT_LIMIT as int,
        }
    }

    /// The offset asked for, or zero.
    pub open spec fn resolved_offset(&self) -> int {
        match self.offset {
            Some(o) => o as int,
            None => 0,
        }
    }
}

/// The predicate on articles that holds where `user` follows the author.
pub open spec fn by_followed(db: DbView, user: int) -> spec_fn(ArticleView) -> bool {
    |a: ArticleView| db.is_following(user, a.author)
}

/// All articles whose author `user` follows, in stored order, in their
/// outward form for `user`.
pub open spec fn followed_articles(db: DbView, user: int) -> Seq<ArticleJsonView> {
    db.articles.filter(by_followed(db, user)).map_values(projector(db, Some(user)))
}

/// The feed of `user_id`: the window that `params` asks for among the
/// articles whose author `user_id` follows, in stored order. No total comes
/// with it.
pub fn feed(db: &Db, params: &FeedArticles, user_id: i32) -> (r: Vec<ArticleJson>)
    requires
        db.wf(),
        params.resolved_offset() >= 0,
        params.resolved_limit() >= 0,
    ensures
        article_jsons(r@) == window(
            followed_articles(db@, user_id as int),
            params.resolved_offset(),
            params.resolved_limit(),
        ),
{
    let ghost sel = by_followed(db@, user_id as int);
    let ghost proj = projector(db@, Some(user_id as int));
    let mut rows: Vec<ArticleJson> = Vec::new();
    let mut i: usize = 0;
    proof {
        reveal(Seq::filter);
        assert(db@.articles.take(0) =~= Seq::empty());
        assert(article_jsons(rows@) =~= db@.articles.take(0).filter(sel).map_values(proj));
    }
    while i < db.articles.len()
        invariant
            db.wf(),
            i <= db@.articles.len(),
            db@.articles.len() == db.articles@.len(),
            rows@.len() <= i,
            sel == by_followed(db@, user_id as int),
            proj == projector(db@, Some(user_id as int)),
            article_jsons(rows@) == db@.articles.take(i as int).filter(sel).map_values(proj),
        decreases db.articles.len() - i,
    {
        let ghost before = article_jsons(rows@);
        assert(db@.articles[i as int] == db.articles[i as int]@);
        let selected = db.follow_position(user_id, db.articles[i].author).is_some();
        proof {
            reveal(Seq::filter);
            assert(db@.articles.take(i + 1).drop_last() =~= db@.articles.take(i as int));
            assert(db@.articles.take(i + 1).last() == db@.articles[i as int]);
        }
        if selected {
            let json = json_at(db, i, Some(user_id));
            rows.push(json);
            assert(article_jsons(rows@) =~= before.push(json@));
            assert(db@.articles.take(i + 1).filter(sel).map_values(proj) =~= db@.articles.take(
                i as int,
            ).filter(sel).map_values(proj).push(proj(db@.articles[i as int])));
        }
        i += 1;
    }
    proof {
        assert(db@.articles.take(i as int) =~= db@.articles);
        db@.lemma_articles_bounded();
    }
    let offset: i64 = match params.offset {
        Some(o) => o,
        None => 0,
    };
    let limit: i64 = match params.limit {
        Some(l) => l,
        None => DEFAULT_LIMIT,
    };
    let ghost all = rows@;
    let paged = rows.offset_and_limit(offset, limit).load_and_count();
    match paged {
        Ok(r) => {
            assert(article_jsons(r.0@) =~= window(article_jsons(all), offset as int, limit as int));
            r.0
        },
        Err(_) => Vec::new(),
    }
}

/// The row that the given values become in `db`: it gets the next identity,
/// the time of the session clock and a counter of zero.
pub open spec fn new_row(
    db: DbView,
    author: int,
    title: Seq<char>,
    description: Seq<char>,
    body: Seq<char>,
    tag_list: Seq<Seq<char>>,
    slug: Seq<char>,
) -> ArticleView {
    ArticleView {
        id: db.next_article_id,
        slug,
        title,
        description,
        body,
        author,
        tag_list,
        created_at: db.now,
        updated_at: db.now,
        favorites_count: 0,
    }
}

/// The values of an article that is about to be stored.
pub struct NewArticle<'a> {
    pub title: &'a str,
    pub description: &'a str,
    pub body: &'a str,
    pub slug: &'a str,
    pub author: i32,
    pub tag_list: &'a Vec<String>,
}

impl<'a> NewArticle<'a> {
    /// The row that these values become in `db`: it gets the next identity,
    /// the time of the session clock and a counter of zero.
    pub open spec fn row(&self, db: DbView) -> ArticleView {
        new_row(
            db,
            self.author as int,
            self.title@,
            self.description@,
            self.body@,
            texts(self.tag_list@),
            self.slug@,
        )
    }
}

/// Whether an article by `author` under `slug` can be stored: the author
/// exists, the slug is free and an identity is left.
pub open spec fn insertable(db: DbView, author: int, slug: Seq<char>) -> bool {
    &&& db.has_user(author)
    &&& !db.has_slug(slug)
    &&& db.next_article_id < i32::MAX
}

/// What each outward article of an optional one holds.
pub open spec fn opt_json(r: Option<ArticleJson>) -> Option<ArticleJsonView> {
    match r {
        Some(json) => Some(json@),
        None => None,
    }
}

/// How storing `row` relates the state before, the state after and the
/// result: where it can be stored it is the newest article and comes back
/// joined with its author and not favorited; else nothing changes and
/// nothing comes back.
pub open spec fn insert_outcome(
    pre: DbView,
    post: DbView,
    r: Option<ArticleJsonView>,
    row: ArticleView,
) -> bool {
    if insertable(pre, row.author, row.slug) {
        &&& post == pre.with_article(row)
        &&& r == Some(row.attach(pre.user(row.author), false))
    } else {
        &&& post == pre
        &&& r is None
    }
}

/// Stores a new article and returns it in its outward form.
pub fn insert(db: &mut Db, new_article: &NewArticle) -> (r: Option<ArticleJson>)
    requires
        old(db).wf(),
    ensures
        final(db).wf(),
        insert_outcome(old(db)@, final(db)@, opt_json(r), new_article.row(old(db)@)),
{
    let at = db.user_position(new_article.author);
    if at.is_none() {
        return None;
    }
    let j: usize = at.unwrap();
    if db.slug_position(new_article.slug).is_some() {
        return None;
    }
    if db.next_article_id >= i32::MAX {
        return None;
    }
    let ghost pre = db@;
    let ghost row = new_article.row(pre);
    proof {
        pre.lemma_user_at(j as int);
        pre.lemma_with_article_wf(row);
    }
    let article = Article {
        id: db.next_article_id,
        slug: new_article.slug.to_owned(),
        title: new_article.title.to_owned(),
        description: new_article.description.to_owned(),
        body: new_article.body.to_owned(),
        author: new_article.author,
        tag_list: copy_texts(new_article.tag_list),
        created_at: db.now,
        updated_at: db.now,
        favorites_count: 0,
    };
    assert(article@ == row);
    let json = article.clone().attach(db.users[j].clone(), false);
    db.articles.push(article);
    db.next_article_id = db.next_article_id + 1;
    assert(db@.articles =~= pre.articles.push(row));
    assert(db@ == pre.with_article(row));
    Some(json)
}

/// Creates an article by `author`: makes a slug for the title and stores
/// the article under it. Where slugs get a random suffix and the slug is
/// taken, another is made, up to [`SLUG_ATTEMPTS`] in all. Nothing is stored
/// where the author does not exist, the last slug is taken or no identity is
/// left.
pub fn create(
    db: &mut Db,
    author: i32,
    title: &str,
    description: &str,
    body: &str,
    tag_list: &Vec<String>,
) -> (r: Option<ArticleJson>)
    requires
        old(db).wf(),
    ensures
        final(db).wf(),
        exists|slug: Seq<char>|
            #[trigger] is_slug_for(slug, title@, old(db)@.random_suffix) && insert_outcome(
                old(db)@,
                final(db)@,
                opt_json(r),
                new_row(
                    old(db)@,
                    author as int,
                    title@,
                    description@,
                    body@,
                    texts(tag_list@),
                    slug,
                ),
            ),
{
    let mut slug = slugify(title, db.random_suffix);
    let mut attempts: usize = 1;
    while db.random_suffix && attempts < SLUG_ATTEMPTS && db.slug_position(slug.as_str()).is_some()
        invariant
            db@ == old(db)@,
            db.wf(),
            attempts <= SLUG_ATTEMPTS,
            is_slug_for(slug@, title@, db@.random_suffix),
        decreases SLUG_ATTEMPTS - attempts,
    {
        slug = slugify(title, db.random_suffix);
        attempts += 1;
    }
    let new_article = NewArticle {
        title,
        description,
        body,
        author,
        tag_list,
        slug: slug.as_str(),
    };
    let r = insert(db, &new_article);
    assert(is_slug_for(slug@, title@, old(db)@.random_suffix));
    r
}

/// Whether `user` can favorite the article under `slug`: the article and
/// the user exist, the user has not favorited it yet, and its counter can
/// still rise.
pub open spec fn can_favorite(db: DbView, slug: Seq<char>, user: int) -> bool {
    &&& db.has_slug(slug)
    &&& db.has_user(user)
    &&& !db.is_favorite(user, db.article(slug).id)
    &&& db.article(slug).favorites_count < i32::MAX
}

/// How favoriting relates the state before, the state after and the
/// result: where it can be done, the counter rises by one, the favorite row
/// is stored and the article comes back as the user now sees it; else
/// nothing changes and nothing comes back.
pub open spec fn favorite_outcome(
    pre: DbView,
    post: DbView,
    r: Option<ArticleJsonView>,
    slug: Seq<char>,
    user: i32,
) -> bool {
    if can_favorite(pre, slug, user as int) {
        &&& post == pre.with_favorite(pre.slug_index(slug), user)
        &&& r == Some(article_json(post, post.article(slug), Some(user as int)))
        &&& r.unwrap().favorited
    } else {
        &&& post == pre
        &&& r is None
    }
}

/// Favorites the article under `slug` for `user_id`, as one step: the
/// counter and the favorite row change together or not at all.
pub fn favorite(db: &mut Db, slug: &str, user_id: i32) -> (r: Option<ArticleJson>)
    requires
        old(db).wf(),
    ensures
        final(db).wf(),
        favorite_outcome(old(db)@, final(db)@, opt_json(r), slug@, user_id),
{
    let at = db.slug_position(slug);
    if at.is_none() {
        return None;
    }
    let i: usize = at.unwrap();
    if db.user_position(user_id).is_none() {
        return None;
    }
    let ghost pre = db@;
    proof {
        pre.lemma_slug_at(i as int);
        assert(pre.articles[i as int] == db.articles[i as int]@);
    }
    let article_id: i32 = db.articles[i].id;
    if db.favorite_position(user_id, article_id).is_some() {
        return None;
    }
    if db.articles[i].favorites_count >= i32::MAX {
        return None;
    }
    let mut article = db.articles[i].clone();
    article.favorites_count = article.favorites_count + 1;
    db.articles.set(i, article);
    db.favorites.push(Favorite { user: user_id, article: article_id });
    proof {
        pre.lemma_with_favorite_wf(i as int, user_id);
        assert(db@.articles =~= pre.with_favorite(i as int, user_id).articles);
        assert(db@ == pre.with_favorite(i as int, user_id));
        db@.lemma_slug_at(i as int);
    }
    Some(json_at(db, i, Some(user_id)))
}

/// Whether `user` can unfavorite the article under `slug`: the article
/// exists and the user has favorited it.
pub open spec fn can_unfavorite(db: DbView, slug: Seq<char>, user: int) -> bool {
    &&& db.has_slug(slug)
    &&& db.is_favorite(user, db.article(slug).id)
}

/// How unfavoriting relates the state before, the state after and the
/// result: where it can be done, the counter falls by one, the favorite row
/// is gone and the article comes back as the user now sees it; else nothing
/// changes and nothing comes back.
pub open spec fn unfavorite_outcome(
    pre: DbView,
    post: DbView,
    r: Option<ArticleJsonView>,
    slug: Seq<char>,
    user: i32,
) -> bool {
    if can_unfavorite(pre, slug, user as int) {
        &&& post == pre.without_favorite(
            pre.slug_index(slug),
            pre.favorite_index(user as int, pre.article(slug).id),
        )
        &&& r == Some(article_json(post, post.article(slug), Some(user as int)))
        &&& !r.unwrap().favorited
    } else {
        &&& post == pre
        &&& r is None
    }
}

/// Takes back the favorite of `user_id` for the article under `slug`, as
/// one step. An article that the user has not favorited is left as it is.
pub fn unfavorite(db: &mut Db, slug: &str, user_id: i32) -> (r: Option<ArticleJson>)
    requires
        old(db).wf(),
    ensures
        final(db).wf(),
        unfavorite_outcome(old(db)@, final(db)@, opt_json(r), slug@, user_id),
{
    let at = db.slug_position(slug);
    if at.is_none() {
        return None;
    }
    let i: usize = at.unwrap();
    let ghost pre = db@;
    proof {
        pre.lemma_slug_at(i as int);
        assert(pre.articles[i as int] == db.articles[i as int]@);
    }
    let article_id: i32 = db.articles[i].id;
    let row = db.favorite_position(user_id, article_id);
    if row.is_none() {
        return None;
    }
    let k: usize = row.unwrap();
    proof {
        pre.lemma_favorite_at(k as int);
        pre.lemma_without_favorite_wf(i as int, k as int);
    }
    let mut article = db.articles[i].clone();
    article.favorites_count = article.favorites_count - 1;
    db.articles.set(i, article);
    db.favorites.remove(k);
    proof {
        assert(db@.articles =~= pre.without_favorite(i as int, k as int).articles);
        assert(db@ == pre.without_favorite(i as int, k as int));
        db@.lemma_slug_at(i as int);
    }
    Some(json_at(db, i, Some(user_id)))
}

/// Favoriting twice: where the first attempt of a user on an article
/// succeeds, the second fails and changes nothing, and the counter stands
/// exactly one above where it stood before the first.
pub proof fn lemma_favorite_twice(
    db: DbView,
    slug: Seq<char>,
    user: i32,
    once: DbView,
    first: Option<ArticleJsonView>,
    twice: DbView,
    second: Option<ArticleJsonView>,
)
    requires
        db.wf(),
        favorite_outcome(db, once, first, slug, user),
        first is Some,
        favorite_outcome(once, twice, second, slug, user),
    ensures
        second is None,
        twice == once,
        twice.wf(),
        twice.has_slug(slug),
        twice.article(slug).favorites_count == db.article(slug).favorites_count + 1,
        twice.favorite_count(twice.article(slug).id) == db.favorite_count(db.article(slug).id) + 1,
{
    let i = db.slug_index(slug);
    assert(0 <= i < db.articles.len() && db.articles[i].slug == slug);
    db.lemma_with_favorite_wf(i, user);
    once.lemma_slug_at(i);
}

/// Favoriting and then unfavoriting leaves everything as it was: where a
/// user can favorite an article, the user can unfavorite it afterwards, and
/// that brings back the state before the favorite.
pub proof fn lemma_favorite_then_unfavorite(db: DbView, slug: Seq<char>, user: i32)
    requires
        db.wf(),
        can_favorite(db, slug, user as int),
    ensures
        ({
            let once = db.with_favorite(db.slug_index(slug), user);
            &&& can_unfavorite(once, slug, user as int)
            &&& once.without_favorite(
                once.slug_index(slug),
                once.favorite_index(user as int, once.article(slug).id),
            ) == db
        }),
{
    let i = db.slug_index(slug);
    assert(0 <= i < db.articles.len() && db.articles[i].slug == slug);
    let once = db.with_favorite(i, user);
    let n = db.favorites.len() as int;
    db.lemma_with_favorite_wf(i, user);
    once.lemma_slug_at(i);
    assert(once.favorites[n] == (Favorite { user, article: db.articles[i].id as i32 }));
    once.lemma_favorite_at(n);
    let back = once.without_favorite(i, n);
    assert(back.favorites =~= db.favorites);
    assert(back.articles =~= db.articles);
}

/// Unfavoriting an article that the user has not favorited fails and
/// changes nothing: every counter still equals the number of favorite rows
/// of its article.
pub proof fn lemma_unfavorite_without_favorite(
    db: DbView,
    slug: Seq<char>,
    user: i32,
    post: DbView,
    r: Option<ArticleJsonView>,
)
    requires
        db.wf(),
        !(db.has_slug(slug) && db.is_favorite(user as int, db.article(slug).id)),
        unfavorite_outcome(db, post, r, slug, user),
    ensures
        r is None,
        post == db,
        forall|i: int|
            0 <= i < post.articles.len() ==> (#[trigger] post.articles[i]).favorites_count
                == post.favorite_count(post.articles[i].id),
{
}

/// A fresh article is favorited by nobody, and by a user as soon as that
/// user favorites it: looked up for `user`, the article that was just
/// stored shows as not favorited, the user can favorite it, and looked up
/// after that it shows as favorited.
pub proof fn lemma_fresh_article_then_favorite(db: DbView, row: ArticleView, user: i32)
    requires
        db.wf(),
        insertable(db, row.author, row.slug),
        row.id == db.next_article_id,
        row.favorites_count == 0,
        db.has_user(user as int),
    ensures
        ({
            let created = db.with_article(row);
            let favorited = created.with_favorite(created.slug_index(row.slug), user);
            &&& created.wf()
            &&& created.has_slug(row.slug)
            &&& created.article(row.slug) == row
            &&& !article_json(created, created.article(row.slug), Some(user as int)).favorited
            &&& can_favorite(created, row.slug, user as int)
            &&& favorited.wf()
            &&& favorited.has_slug(row.slug)
            &&& article_json(favorited, favorited.article(row.slug), Some(user as int)).favorited
        }),
{
    let created = db.with_article(row);
    let n = db.articles.len() as int;
    db.lemma_with_article_wf(row);
    db.lemma_no_favorite_of_unused(row.id);
    assert(created.articles[n] == row);
    created.lemma_slug_at(n);
    let j = choose|j: int| 0 <= j < db.users.len() && (#[trigger] db.users[j]).id == user;
    assert(created.users[j].id == user);
    created.lemma_with_favorite_wf(n, user);
    let favorited = created.with_favorite(n, user);
    favorited.lemma_slug_at(n);
}

/// A feed holds only articles by authors that the user follows, and never
/// an article of the user's own.
pub proof fn lemma_feed_only_followed(db: DbView, user: int, offset: int, limit: int)
    requires
        db.wf(),
        0 <= offset,
        0 <= limit,
    ensures
        forall|k: int|
            0 <= k < window(followed_articles(db, user), offset, limit).len() ==> {
                let json = #[trigger] window(followed_articles(db, user), offset, limit)[k];
                &&& db.is_following(user, json.author.id)
                &&& json.author.id != user
                &&& exists|i: int|
                    0 <= i < db.articles.len() && (#[trigger] db.articles[i]).id == json.id
                        && db.articles[i].author == json.author.id
            },
{
    broadcast use vstd::seq_lib::group_filter_ensures;

    let kept = db.articles.filter(by_followed(db, user));
    let all = followed_articles(db, user);
    let page = window(all, offset, limit);
    assert forall|k: int| 0 <= k < page.len() implies {
        let json = #[trigger] page[k];
        &&& db.is_following(user, json.author.id)
        &&& json.author.id != user
        &&& exists|i: int|
            0 <= i < db.articles.len() && (#[trigger] db.articles[i]).id == json.id
                && db.articles[i].author == json.author.id
    } by {
        let start = if offset < all.len() {
            offset
        } else {
            all.len() as int
        };
        let m = start + k;
        assert(page[k] == all[m]);
        let a = kept[m];
        assert(by_followed(db, user)(a));
        assert(kept.contains(a));
        db.articles.lemma_filter_contains_rev(by_followed(db, user), a);
        let i = choose|i: int| 0 <= i < db.articles.len() && db.articles[i] == a;
        assert(db.has_user(db.articles[i].author));
        let j = db.user_index(a.author);
        assert(0 <= j < db.users.len() && db.users[j].id == a.author);
        assert(all[m] == article_json(db, a, Some(user)));
        if a.author == user {
            let f = db.follow_index(user, user);
            assert(db.follows[f].follower == db.follows[f].followed);
        }
        assert(db.articles[i].id == page[k].id);
    }
}

/// Looks up the article under `slug` in its outward form for the reader.
pub fn find_one(db: &Db, slug: &str, user_id: Option<i32>) -> (r: Option<ArticleJson>)
    requires
        db.wf(),
    ensures
        r is Some <==> db@.has_slug(slug@),
        r is Some ==> r.unwrap()@ == article_json(db@, db@.article(slug@), opt_int(user_id)),
{
    match db.slug_position(slug) {
        Some(i) => {
            proof {
                db@.lemma_slug_at(i as int);
            }
            Some(json_at(db, i, user_id))
        },
        None => None,
    }
}

/// The fields of an article that an update rewrites. A field that is
/// `None` stays as it is.
#[derive(Debug, PartialEq, Eq)]
pub struct UpdateArticleData {
    pub title: Option<String>,
    pub description: Option<String>,
    pub body: Option<String>,
    pub tag_list: Option<Vec<String>>,
}

impl Default for UpdateArticleData {
    fn default() -> (r: UpdateArticleData)
        ensures
            r.title is None,
            r.description is None,
            r.body is None,
            r.tag_list is None,
    {
        UpdateArticleData { title: None, description: None, body: None, tag_list: None }
    }
}

/// The tags of an optional tag list.
pub open spec fn opt_texts(list: Option<Vec<String>>) -> Option<Seq<Seq<char>>> {
    match list {
        Some(l) => Some(texts(l@)),
        None => None,
    }
}

impl UpdateArticleData {
    /// The article `a` rewritten by this update at the time `now`, under
    /// the slug `slug` where one is given.
    pub open spec fn rewrite(&self, a: ArticleView, slug: Option<Seq<char>>, now: Timestamp) -> ArticleView {
        ArticleView {
            id: a.id,
            slug: match slug {
                Some(s) => s,
                None => a.slug,
            },
            title: match opt_text(self.title) {
                Some(t) => t,
                None => a.title,
            },
            description: match opt_text(self.description) {
                Some(d) => d,
                None => a.description,
            },
            body: match opt_text(self.body) {
                Some(b) => b,
                None => a.body,
            },
            author: a.author,
            tag_list: match opt_texts(self.tag_list) {
                Some(l) => l,
                None => a.tag_list,
            },
            created_at: a.created_at,
            updated_at: now,
            favorites_count: a.favorites_count,
        }
    }
}

/// Whether `user` can rewrite the article under `slug`, giving it the slug
/// `new_slug` where one is given: the article exists, `user` is its author,
/// and no other article has the new slug.
pub open spec fn can_update(
    db: DbView,
    slug: Seq<char>,
    user: int,
    new_slug: Option<Seq<char>>,
) -> bool {
    &&& db.has_slug(slug)
    &&& db.article(slug).author == user
    &&& new_slug is Some ==> new_slug.unwrap() == slug || !db.has_slug(new_slug.unwrap())
}

/// How an update relates the state before, the state after and the result:
/// where it can be done, the article is rewritten in place and comes back as
/// the user now sees it; else nothing changes and nothing comes back.
pub open spec fn update_outcome(
    pre: DbView,
    post: DbView,
    r: Option<ArticleJsonView>,
    slug: Seq<char>,
    user: int,
    data: &UpdateArticleData,
    new_slug: Option<Seq<char>>,
) -> bool {
    if can_update(pre, slug, user, new_slug) {
        let i = pre.slug_index(slug);
        &&& post == pre.with_rewritten_article(i, data.rewrite(pre.articles[i], new_slug, pre.now))
        &&& r == Some(article_json(post, post.articles[i], Some(user)))
    } else {
        &&& post == pre
        &&& r is None
    }
}

/// Rewrites the article under `slug` on behalf of `user_id`, and gives it
/// the slug `new_slug` where one is given.
pub fn patch(
    db: &mut Db,
    slug: &str,
    user_id: i32,
    data: &UpdateArticleData,
    new_slug: Option<String>,
) -> (r: Option<ArticleJson>)
    requires
        old(db).wf(),
    ensures
        final(db).wf(),
        update_outcome(
            old(db)@,
            final(db)@,
            opt_json(r),
            slug@,
            user_id as int,
            data,
            opt_text(new_slug),
        ),
{
    let at = db.slug_position(slug);
    if at.is_none() {
        return None;
    }
    let i: usize = at.unwrap();
    let ghost pre = db@;
    proof {
        pre.lemma_slug_at(i as int);
        assert(pre.articles[i as int] == db.articles[i as int]@);
    }
    if db.articles[i].author != user_id {
        return None;
    }
    match &new_slug {
        Some(s) => {
            match db.slug_position(s.as_str()) {
                Some(j) => {
                    proof {
                        pre.lemma_slug_at(j as int);
                    }
                    if j != i {
                        return None;
                    }
                },
                None => {},
            }
        },
        None => {},
    }
    let current = &db.articles[i];
    let article = Article {
        id: current.id,
        slug: match new_slug {
            Some(s) => s,
            None => current.slug.clone(),
        },
        title: match &data.title {
            Some(t) => t.clone(),
            None => current.title.clone(),
        },
        description: match &data.description {
            Some(d) => d.clone(),
            None => current.description.clone(),
        },
        body: match &data.body {
            Some(b) => b.clone(),
            None => current.body.clone(),
        },
        author: current.author,
        tag_list: match &data.tag_list {
            Some(l) => copy_texts(l),
            None => copy_texts(&current.tag_list),
        },
        created_at: current.created_at,
        updated_at: db.now,
        favorites_count: current.favorites_count,
    };
    let ghost rewritten = data.rewrite(pre.articles[i as int], opt_text(new_slug), pre.now);
    assert(article@ == rewritten);
    proof {
        assert forall|j: int| 0 <= j < pre.articles.len() && j != i implies (
        #[trigger] pre.articles[j]).slug != rewritten.slug by {
            if pre.articles[j].slug == rewritten.slug {
                pre.lemma_slug_at(j);
            }
        }
        pre.lemma_with_rewritten_article_wf(i as int, rewritten);
    }
    db.articles.set(i, article);
    proof {
        assert(db@.articles =~= pre.articles.update(i as int, rewritten));
        assert(db@ == pre.with_rewritten_article(i as int, rewritten));
    }
    Some(json_at(db, i, Some(user_id)))
}

/// Updates the article under `slug` on behalf of `user_id`. Where the
/// update names a title, a slug is made for it and the article moves there;
/// where slugs get a random suffix and the slug is taken, another is made,
/// up to [`SLUG_ATTEMPTS`] in all. Only the author may update, and the new
/// slug must be free.
pub fn update(db: &mut Db, slug: &str, user_id: i32, data: UpdateArticleData) -> (r: Option<
    ArticleJson,
>)
    requires
        old(db).wf(),
    ensures
        final(db).wf(),
        data.title is None ==> update_outcome(
            old(db)@,
            final(db)@,
            opt_json(r),
            slug@,
            user_id as int,
            &data,
            None,
        ),
        data.title is Some ==> exists|new_slug: Seq<char>|
            #[trigger] is_slug_for(new_slug, data.title.unwrap()@, old(db)@.random_suffix)
                && update_outcome(
                old(db)@,
                final(db)@,
                opt_json(r),
                slug@,
                user_id as int,
                &data,
                Some(new_slug),
            ),
{
    let new_slug = match &data.title {
        Some(t) => {
            let mut made = slugify(t.as_str(), db.random_suffix);
            let mut attempts: usize = 1;
            while db.random_suffix && attempts < SLUG_ATTEMPTS && db.slug_position(
                made.as_str(),
            ).is_some()
                invariant
                    db@ == old(db)@,
                    db.wf(),
                    attempts <= SLUG_ATTEMPTS,
                    is_slug_for(made@, t@, db@.random_suffix),
                decreases SLUG_ATTEMPTS - attempts,
            {
                made = slugify(t.as_str(), db.random_suffix);
                attempts += 1;
            }
            Some(made)
        },
        None => None,
    };
    let ghost made = opt_text(new_slug);
    let r = patch(db, slug, user_id, &data, new_slug);
    proof {
        if data.title is Some {
            assert(is_slug_for(made.unwrap(), data.title.unwrap()@, old(db)@.random_suffix));
        }
    }
    r
}

/// Whether `user` can delete the article under `slug`: the article exists
/// and `user` is its author.
pub open spec fn can_delete(db: DbView, slug: Seq<char>, user: int) -> bool {
    &&& db.has_slug(slug)
    &&& db.article(slug).author == user
}

/// Deletes the article under `slug` if `user_id` is its author, and with it
/// its favorite rows and its comments. Otherwise nothing changes.
pub fn delete(db: &mut Db, slug: &str, user_id: i32)
    requires
        old(db).wf(),
    ensures
        final(db).wf(),
        final(db)@ == if can_delete(old(db)@, slug@, user_id as int) {
            old(db)@.without_article(old(db)@.slug_index(slug@))
        } else {
            old(db)@
        },
{
    let at = db.slug_position(slug);
    if at.is_none() {
        return ;
    }
    let i: usize = at.unwrap();
    let ghost pre = db@;
    proof {
        pre.lemma_slug_at(i as int);
        assert(pre.articles[i as int] == db.articles[i as int]@);
    }
    if db.articles[i].author != user_id {
        return ;
    }
    let id: i32 = db.articles[i].id;
    let ghost fp = favorite_elsewhere(id as int);
    let ghost cp = comment_elsewhere(id as int);
    let mut favorites: Vec<Favorite> = Vec::new();
    let mut k: usize = 0;
    proof {
        reveal(Seq::filter);
        assert(pre.favorites.take(0) =~= Seq::empty());
    }
    while k < db.favorites.len()
        invariant
            k <= db.favorites.len(),
            db@ == pre,
            db.favorites@ == pre.favorites,
            fp == favorite_elsewhere(id as int),
            favorites@ == pre.favorites.take(k as int).filter(fp),
        decreases db.favorites.len() - k,
    {
        proof {
            reveal(Seq::filter);
            assert(pre.favorites.take(k + 1).drop_last() =~= pre.favorites.take(k as int));
        }
        if db.favorites[k].article != id {
            favorites.push(db.favorites[k]);
        }
        k += 1;
    }
    let mut comments: Vec<Comment> = Vec::new();
    let mut c: usize = 0;
    proof {
        reveal(Seq::filter);
        assert(pre.favorites.take(k as int) =~= pre.favorites);
        assert(pre.comments.take(0) =~= Seq::empty());
        assert(comment_views(comments@) =~= pre.comments.take(0).filter(cp));
    }
    while c < db.comments.len()
        invariant
            c <= db.comments.len(),
            db@ == pre,
            db.comments@.len() == pre.comments.len(),
            cp == comment_elsewhere(id as int),
            comment_views(comments@) == pre.comments.take(c as int).filter(cp),
        decreases db.comments.len() - c,
    {
        let ghost before = comment_views(comments@);
        proof {
            reveal(Seq::filter);
            assert(pre.comments.take(c + 1).drop_last() =~= pre.comments.take(c as int));
            assert(pre.comments[c as int] == db.comments[c as int]@);
        }
        if db.comments[c].article != id {
            let row = db.comments[c].clone();
            comments.push(row);
            assert(comment_views(comments@) =~= before.push(row@));
        }
        c += 1;
    }
    proof {
        assert(pre.comments.take(c as int) =~= pre.comments);
        pre.lemma_without_article_wf(i as int);
    }
    db.articles.remove(i);
    db.favorites = favorites;
    db.comments = comments;
    proof {
        assert(db@.articles =~= pre.articles.remove(i as int));
        assert(db@ == pre.without_article(i as int));
    }
}

/// Deleting an article leaves no row behind that refers to it: the
/// relations stay consistent, the slug is free again, and no favorite row
/// and no comment names the article.
pub proof fn lemma_delete_leaves_no_orphans(db: DbView, slug: Seq<char>, user: int)
    requires
        db.wf(),
        can_delete(db, slug, user),
    ensures
        ({
            let post = db.without_article(db.slug_index(slug));
            let id = db.article(slug).id;
            &&& post.wf()
            &&& !post.has_slug(slug)
            &&& !post.has_article(id)
            &&& forall|k: int|
                0 <= k < post.favorites.len() ==> (#[trigger] post.favorites[k]).article != id
            &&& forall|k: int|
                0 <= k < post.comments.len() ==> (#[trigger] post.comments[k]).article != id
        }),
{
    let i = db.slug_index(slug);
    assert(0 <= i < db.articles.len() && db.articles[i].slug == slug);
    db.lemma_without_article_wf(i);
    let post = db.without_article(i);
    let id = db.articles[i].id;
    assert forall|k: int| 0 <= k < post.favorites.len() implies (#[trigger] post.favorites[k]).article
        != id by {
        assert(post.has_article(post.favorites[k].article as int));
    }
    assert forall|k: int| 0 <= k < post.comments.len() implies (#[trigger] post.comments[k]).article
        != id by {
        assert(post.has_article(post.comments[k].article));
    }
}

/// All tags of the given articles, article by article.
pub open spec fn all_tags(articles: Seq<ArticleView>) -> Seq<Seq<char>>
    decreases articles.len(),
{
    if articles.len() == 0 {
        Seq::empty()
    } else {
        all_tags(articles.drop_last()) + articles.last().tag_list
    }
}

/// The texts of `list` without repetition: each at its first place.
pub open spec fn distinct(list: Seq<Seq<char>>) -> Seq<Seq<char>>
    decreases list.len(),
{
    if list.len() == 0 {
        Seq::empty()
    } else {
        let rest = distinct(list.drop_last());
        if rest.contains(list.last()) {
            rest
        } else {
            rest.push(list.last())
        }
    }
}

/// [`distinct`] holds no text twice, and holds exactly the texts of the
/// list.
pub proof fn lemma_distinct(list: Seq<Seq<char>>)
    ensures
        distinct(list).no_duplicates(),
        forall|t: Seq<char>| distinct(list).contains(t) <==> list.contains(t),
    decreases list.len(),
{
    if list.len() > 0 {
        let rest = list.drop_last();
        let last = list.last();
        lemma_distinct(rest);
        let d = distinct(list);
        let dr = distinct(rest);
        assert forall|t: Seq<char>| d.contains(t) implies list.contains(t) by {
            let j = choose|j: int| 0 <= j < d.len() && d[j] == t;
            if j < dr.len() {
                assert(dr[j] == t);
                assert(dr.contains(t));
                assert(rest.contains(t));
                let i = choose|i: int| 0 <= i < rest.len() && rest[i] == t;
                assert(list[i] == t);
            } else {
                assert(list[list.len() - 1] == t);
            }
        }
        assert forall|t: Seq<char>| list.contains(t) implies d.contains(t) by {
            let i = choose|i: int| 0 <= i < list.len() && list[i] == t;
            if i < rest.len() {
                assert(rest[i] == t);
                assert(rest.contains(t));
                assert(dr.contains(t));
                let j = choose|j: int| 0 <= j < dr.len() && dr[j] == t;
                assert(d[j] == t);
            } else if dr.contains(last) {
                let j = choose|j: int| 0 <= j < dr.len() && dr[j] == last;
                assert(d[j] == t);
            } else {
                assert(d[dr.len() as int] == t);
            }
        }
    }
}

/// The distinct tags of all articles, each at the place of its first use.
pub fn tags(db: &Db) -> (r: Vec<String>)
    ensures
        texts(r@) == distinct(all_tags(db@.articles)),
        texts(r@).no_duplicates(),
        forall|t: Seq<char>| texts(r@).contains(t) <==> all_tags(db@.articles).contains(t),
{
    let mut out: Vec<String> = Vec::new();
    let mut i: usize = 0;
    assert(db@.articles.take(0) =~= Seq::empty());
    assert(texts(out@) =~= Seq::empty());
    while i < db.articles.len()
        invariant
            i <= db.articles.len(),
            db@.articles.len() == db.articles@.len(),
            texts(out@) == distinct(all_tags(db@.articles.take(i as int))),
        decreases db.articles.len() - i,
    {
        let list = &db.articles[i].tag_list;
        let ghost done = all_tags(db@.articles.take(i as int));
        let ghost these = db@.articles[i as int].tag_list;
        assert(these == texts(list@));
        let mut j: usize = 0;
        assert(done + these.take(0) =~= done);
        while j < list.len()
            invariant
                j <= list.len(),
                these == texts(list@),
                texts(out@) == distinct(done + these.take(j as int)),
            decreases list.len() - j,
        {
            let ghost seen = texts(out@);
            proof {
                assert((done + these.take(j + 1)).drop_last() =~= done + these.take(j as int));
                assert((done + these.take(j + 1)).last() == these[j as int]);
                assert(these[j as int] == list@[j as int]@);
            }
            if !has_text(&out, list[j].as_str()) {
                out.push(list[j].clone());
                assert(texts(out@) =~= seen.push(these[j as int]));
            }
            j += 1;
        }
        proof {
            assert(these.take(j as int) =~= these);
            assert(db@.articles.take(i + 1).drop_last() =~= db@.articles.take(i as int));
            assert(db@.articles.take(i + 1).last() == db@.articles[i as int]);
        }
        i += 1;
    }
    proof {
        assert(db@.articles.take(i as int) =~= db@.articles);
        lemma_distinct(all_tags(db@.articles));
    }
    out
}

} // verus!
