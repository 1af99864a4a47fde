use vstd::prelude::*;
use crate::models::copy_texts;
use crate::models::texts;
use crate::models::timestamp::Timestamp;
use crate::models::user::User;
use crate::models::user::UserView;

verus! {

/// A stored article.
#[derive(Debug, PartialEq, Eq)]
pub struct Article {
    pub id: i32,
    pub slug: String,
    pub title: String,
    pub description: String,
    pub body: String,
    pub author: i32,
    pub tag_list: Vec<String>,
    pub created_at: Timestamp,
    pub updated_at: Timestamp,
    pub favorites_count: i32,
}

/// What an [`Article`] holds, as mathematical values.
pub struct ArticleView {
    pub id: int,
    pub slug: Seq<char>,
    pub title: Seq<char>,
    pub description: Seq<char>,
    pub body: Seq<char>,
    pub author: int,
    pub tag_list: Seq<Seq<char>>,
    pub created_at: Timestamp,
    pub updated_at: Timestamp,
    pub favorites_count: int,
}

impl View for Article {
    type V = ArticleView;

    open spec fn view(&self) -> ArticleView {
        ArticleView {
            id: self.id as int,
            slug: self.slug@,
            title: self.title@,
            description: self.description@,
            body: self.body@,
            author: self.author as int,
            tag_list: texts(self.tag_list@),
            created_at: self.created_at,
            updated_at: self.updated_at,
            favorites_count: self.favorites_count as int,
        }
    }
}

impl ArticleView {
    /// The outward form of this article, given its author's row and whether
    /// the reader has favorited it.
    pub open spec fn attach(self, author: UserView, favorited: bool) -> ArticleJsonView {
        ArticleJsonView {
            id: self.id,
            slug: self.slug,
            title: self.title,
            description: self.description,
            body: self.body,
            author,
            tag_list: self.tag_list,
            created_at: self.created_at.rendered(),
            updated_at: self.updated_at.rendered(),
            favorites_count: self.favorites_count,
            favorited,
        }
    }
}

impl Clone for Article {
    fn clone(&self) -> (r: Article)
        ensures
            r@ == self@,
    {
        Article {
            id: self.id,
            slug: self.slug.clone(),
            title: self.title.clone(),
            description: self.description.clone(),
            body: self.body.clone(),
            author: self.author,
            tag_list: copy_texts(&self.tag_list),
            created_at: self.created_at,
            updated_at: self.updated_at,
            favorites_count: self.favorites_count,
        }
    }
}

impl Article {
    /// Joins the article with its author's row and the reader's favorite
    /// flag, and renders the two timestamps.
    pub fn attach(self, author: User, favorited: bool) -> (json: ArticleJson)
        ensures
            json@ == self@.attach(author@, favorited),
    {
        ArticleJson {
            id: self.id,
            slug: self.slug,
            title: self.title,
            description: self.description,
            body: self.body,
            author,
            tag_list: self.tag_list,
            created_at: self.created_at.render(),
            updated_at: self.updated_at.render(),
            favorites_count: self.favorites_count,
            favorited,
        }
    }
}

/// The outward form of an article.
#[derive(Debug, PartialEq, Eq)]
pub struct ArticleJson {
    pub id: i32,
    pub slug: String,
    pub title: String,
    pub description: String,
    pub body: String,
    pub author: User,
    pub tag_list: Vec<String>,
    pub created_at: String,
    pub updated_at: String,
    pub favorites_count: i32,
    pub favorited: bool,
}

/// What an [`ArticleJson`] holds, as mathematical values.
pub struct ArticleJsonView {
    pub id: int,
    pub slug: Seq<char>,
    pub title: Seq<char>,
    pub description: Seq<char>,
    pub body: Seq<char>,
    pub author: UserView,
    pub tag_list: Seq<Seq<char>>,
    pub created_at: Seq<char>,
    pub updated_at: Seq<char>,
    pub favorites_count: int,
    pub favorited: bool,
}

impl View for ArticleJson {
    type V = ArticleJsonView;

    open spec fn view(&self) -> ArticleJsonView {
        ArticleJsonView {
            id: self.id as int,
            slug: self.slug@,
            title: self.title@,
            description: self.description@,
            body: self.body@,
            author: self.author@,
            tag_list: texts(self.tag_list@),
            created_at: self.created_at@,
            updated_at: self.updated_at@,
            favorites_count: self.favorites_count as int,
            favorited: self.favorited,
        }
    }
}

/// What each of a list of outward articles holds, in order.
pub open spec fn article_jsons(list: Seq<ArticleJson>) -> Seq<ArticleJsonView> {
    list.map_values(|j: ArticleJson| j@)
}

/// What each of a list of stored articles holds, in order.
pub open spec fn article_views(list: Seq<Article>) -> Seq<ArticleView> {
    list.map_values(|r: Article| r@)
}

} // verus!
