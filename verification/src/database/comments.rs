use vstd::prelude::*;
use crate::database::model::comment_on;
use crate::database::model::DbView;
use crate::database::Db;
use crate::models::comment::comment_jsons;
use crate::models::comment::Comment;
use crate::models::comment::CommentJson;
use crate::models::comment::CommentJsonView;
use crate::models::comment::CommentView;

verus! {

/// The values of a comment that is about to be stored.
pub struct NewComment<'a> {
    pub body: &'a str,
    pub author: i32,
    pub article: i32,
}

impl<'a> NewComment<'a> {
    /// The row that these values become in `db`: it gets the next identity
    /// and the time of the session clock.
    pub open spec fn row(&self, db: DbView) -> CommentView {
        CommentView {
            id: db.next_comment_id,
            body: self.body@,
            article: self.article as int,
            author: self.author as int,
            created_at: db.now,
            updated_at: db.now,
        }
    }
}

/// Whether a comment by `author` on `article` can be stored: both exist and
/// an identity is left.
pub open spec fn insertable(db: DbView, author: int, article: int) -> bool {
    &&& db.has_article(article)
    &&& db.has_user(author)
    &&& db.next_comment_id < i32::MAX
}

/// What a comment of an optional one holds.
pub open spec fn opt_comment(r: Option<Comment>) -> Option<CommentView> {
    match r {
        Some(c) => Some(c@),
        None => None,
    }
}

/// What an outward comment of an optional one holds.
pub open spec fn opt_json(r: Option<CommentJson>) -> Option<CommentJsonView> {
    match r {
        Some(c) => Some(c@),
        None => None,
    }
}

/// Stores a new comment and returns the stored row. Nothing is stored
/// where the article or the author does not exist or no identity is left.
pub fn insert(db: &mut Db, new_comment: &NewComment) -> (r: Option<Comment>)
    requires
        old(db).wf(),
    ensures
        final(db).wf(),
        insertable(old(db)@, new_comment.author as int, new_comment.article as int) ==> {
            &&& final(db)@ == old(db)@.with_comment(new_comment.row(old(db)@))
            &&& opt_comment(r) == Some(new_comment.row(old(db)@))
        },
        !insertable(old(db)@, new_comment.author as int, new_comment.article as int) ==> {
            &&& final(db)@ == old(db)@
            &&& r is None
        },
{
    if !db.article_exists(new_comment.article) {
        return None;
    }
    if db.user_position(new_comment.author).is_none() {
        return None;
    }
    if db.next_comment_id >= i32::MAX {
        return None;
    }
    let ghost pre = db@;
    let ghost row = new_comment.row(pre);
    let comment = Comment {
        id: db.next_comment_id,
        body: new_comment.body.to_owned(),
        article: new_comment.article,
        author: new_comment.author,
        created_at: db.now,
        updated_at: db.now,
    };
    assert(comment@ == row);
    let stored = comment.clone();
    db.comments.push(comment);
    db.next_comment_id = db.next_comment_id + 1;
    proof {
        pre.lemma_with_comment_wf(row);
        assert(db@.comments =~= pre.comments.push(row));
        assert(db@ == pre.with_comment(row));
    }
    Some(stored)
}

/// The row of a new comment by `author` on the article under `slug`.
pub open spec fn new_row(db: DbView, author: int, slug: Seq<char>, body: Seq<char>) -> CommentView {
    CommentView {
        id: db.next_comment_id,
        body,
        article: db.article(slug).id,
        author,
        created_at: db.now,
        updated_at: db.now,
    }
}

/// Whether `author` can comment on the article under `slug`: both exist
/// and an identity is left.
pub open spec fn can_create(db: DbView, author: int, slug: Seq<char>) -> bool {
    &&& db.has_slug(slug)
    &&& db.has_user(author)
    &&& db.next_comment_id < i32::MAX
}

/// Creates a comment by `author` on the article under `slug` and returns
/// it joined with its author.
pub fn create(db: &mut Db, author: i32, slug: &str, body: &str) -> (r: Option<CommentJson>)
    requires
        old(db).wf(),
    ensures
        final(db).wf(),
        can_create(old(db)@, author as int, slug@) ==> {
            &&& final(db)@ == old(db)@.with_comment(new_row(old(db)@, author as int, slug@, body@))
            &&& opt_json(r) == Some(
                new_row(old(db)@, author as int, slug@, body@).attach(old(db)@.user(author as int)),
            )
        },
        !can_create(old(db)@, author as int, slug@) ==> final(db)@ == old(db)@ && r is None,
{
    let at = db.slug_position(slug);
    if at.is_none() {
        return None;
    }
    let i: usize = at.unwrap();
    proof {
        db@.lemma_slug_at(i as int);
        assert(db@.articles[i as int] == db.articles[i as int]@);
    }
    let who = db.user_position(author);
    if who.is_none() {
        return None;
    }
    let j: usize = who.unwrap();
    proof {
        db@.lemma_user_at(j as int);
    }
    let writer = db.users[j].clone();
    let new_comment = NewComment { body, author, article: db.articles[i].id };
    match insert(db, &new_comment) {
        Some(comment) => Some(comment.attach(writer)),
        None => None,
    }
}

/// The outward form of a stored comment: the comment joined with its
/// author's row.
pub open spec fn comment_json(db: DbView) -> spec_fn(CommentView) -> CommentJsonView {
    |c: CommentView| c.attach(db.user(c.author))
}

/// The comments on the article under `slug`, in stored order and joined
/// with their authors; none where no article has the slug.
pub open spec fn comments_of(db: DbView, slug: Seq<char>) -> Seq<CommentJsonView> {
    if db.has_slug(slug) {
        db.comments.filter(comment_on(db.article(slug).id)).map_values(comment_json(db))
    } else {
        Seq::empty()
    }
}

/// Lists the comments on the article under `slug`.
pub fn find_by_slug(db: &Db, slug: &str) -> (r: Vec<CommentJson>)
    requires
        db.wf(),
    ensures
        comment_jsons(r@) == comments_of(db@, slug@),
{
    let mut rows: Vec<CommentJson> = Vec::new();
    let at = db.slug_position(slug);
    if at.is_none() {
        assert(comment_jsons(rows@) =~= Seq::empty());
        return rows;
    }
    let i: usize = at.unwrap();
    proof {
        db@.lemma_slug_at(i as int);
        assert(db@.articles[i as int] == db.articles[i as int]@);
    }
    let id: i32 = db.articles[i].id;
    let ghost sel = comment_on(id as int);
    let ghost proj = comment_json(db@);
    let mut c: usize = 0;
    proof {
        reveal(Seq::filter);
        assert(db@.comments.take(0) =~= Seq::empty());
        assert(comment_jsons(rows@) =~= db@.comments.take(0).filter(sel).map_values(proj));
    }
    while c < db.comments.len()
        invariant
            db.wf(),
            c <= db.comments.len(),
            db@.comments.len() == db.comments@.len(),
            sel == comment_on(id as int),
            proj == comment_json(db@),
            comment_jsons(rows@) == db@.comments.take(c as int).filter(sel).map_values(proj),
        decreases db.comments.len() - c,
    {
        let ghost before = comment_jsons(rows@);
        let comment = &db.comments[c];
        proof {
            reveal(Seq::filter);
            assert(db@.comments.take(c + 1).drop_last() =~= db@.comments.take(c as int));
            assert(db@.comments.take(c + 1).last() == db@.comments[c as int]);
            assert(db@.comments[c as int] == comment@);
        }
        if comment.article == id {
            let who = db.user_position(comment.author);
            let j: usize = who.unwrap();
            proof {
                db@.lemma_user_at(j as int);
            }
            let json = comment.clone().attach(db.users[j].clone());
            rows.push(json);
            assert(comment_jsons(rows@) =~= before.push(json@));
            assert(db@.comments.take(c + 1).filter(sel).map_values(proj) =~= db@.comments.take(
                c as int,
            ).filter(sel).map_values(proj).push(proj(db@.comments[c as int])));
        }
        c += 1;
    }
    proof {
        assert(db@.comments.take(c as int) =~= db@.comments);
    }
    rows
}

/// Whether `author` can delete the comment `comment_id` under `slug`: the
/// article under `slug` exists and `author` wrote the article, and the
/// comment exists and stands on that article. Who wrote the comment does
/// not matter.
pub open spec fn can_delete(db: DbView, author: int, slug: Seq<char>, comment_id: int) -> bool {
    &&& db.has_slug(slug)
    &&& db.article(slug).author == author
    &&& db.has_comment(comment_id)
    &&& db.comments[db.comment_index(comment_id)].article == db.article(slug).id
}

/// Deletes the comment `comment_id` on the article under `slug` if
/// `author` wrote that article. Otherwise nothing changes.
pub fn delete(db: &mut Db, author: i32, slug: &str, comment_id: i32)
    requires
        old(db).wf(),
    ensures
        final(db).wf(),
        final(db)@ == if can_delete(old(db)@, author as int, slug@, comment_id as int) {
            old(db)@.without_comment(old(db)@.comment_index(comment_id as int))
        } else {
            old(db)@
        },
{
    let at = db.slug_position(slug);
    if at.is_none() {
        return ;
    }
    let i: usize = at.unwrap();
    let ghost pre = db@;
    proof {
        pre.lemma_slug_at(i as int);
        assert(pre.articles[i as int] == db.articles[i as int]@);
    }
    if db.articles[i].author != author {
        return ;
    }
    let id: i32 = db.articles[i].id;
    let found = db.comment_position(comment_id);
    if found.is_none() {
        return ;
    }
    let c: usize = found.unwrap();
    proof {
        pre.lemma_comment_at(c as int);
        assert(pre.comments[c as int] == db.comments[c as int]@);
    }
    if db.comments[c].article != id {
        return ;
    }
    proof {
        pre.lemma_without_comment_wf(c as int);
    }
    db.comments.remove(c);
    proof {
        assert(db@.comments =~= pre.comments.remove(c as int));
        assert(db@ == pre.without_comment(c as int));
    }
}

} // verus!
