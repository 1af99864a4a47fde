use vstd::prelude::*;
use crate::models::timestamp::Timestamp;
use crate::models::user::User;
use crate::models::user::UserView;

verus! {

/// A stored comment.
#[derive(Debug, PartialEq, Eq)]
pub struct Comment {
    pub id: i32,
    pub body: String,
    pub article: i32,
    pub author: i32,
    pub created_at: Timestamp,
    pub updated_at: Timestamp,
}

/// What a [`Comment`] holds, as mathematical values.
pub struct CommentView {
    pub id: int,
    pub body: Seq<char>,
    pub article: int,
    pub author: int,
    pub created_at: Timestamp,
    pub updated_at: Timestamp,
}

impl View for Comment {
    type V = CommentView;

    open spec fn view(&self) -> CommentView {
        CommentView {
            id: self.id as int,
            body: self.body@,
            article: self.article as int,
            author: self.author as int,
            created_at: self.created_at,
            updated_at: self.updated_at,
        }
    }
}

impl CommentView {
    /// The outward form of this comment, given its author's row.
    pub open spec fn attach(self, author: UserView) -> CommentJsonView {
        CommentJsonView {
            id: self.id,
            body: self.body,
            author,
            created_at: self.created_at.rendered(),
            updated_at: self.updated_at.rendered(),
        }
    }
}

impl Clone for Comment {
    fn clone(&self) -> (r: Comment)
        ensures
            r@ == self@,
    {
        Comment {
            id: self.id,
            body: self.body.clone(),
            article: self.article,
            author: self.author,
            created_at: self.created_at,
            updated_at: self.updated_at,
        }
    }
}

impl Comment {
    /// Joins the comment with its author's row and renders the two
    /// timestamps.
    pub fn attach(self, author: User) -> (json: CommentJson)
        ensures
            json@ == self@.attach(author@),
    {
        CommentJson {
            id: self.id,
            body: self.body,
            author,
            created_at: self.created_at.render(),
            updated_at: self.updated_at.render(),
        }
    }
}

/// The outward form of a comment.
#[derive(Debug, PartialEq, Eq)]
pub struct CommentJson {
    pub id: i32,
    pub body: String,
    pub author: User,
    pub created_at: String,
    pub updated_at: String,
}

/// What a [`CommentJson`] holds, as mathematical values.
pub struct CommentJsonView {
    pub id: int,
    pub body: Seq<char>,
    pub author: UserView,
    pub created_at: Seq<char>,
    pub updated_at: Seq<char>,
}

impl View for CommentJson {
    type V = CommentJsonView;

    open spec fn view(&self) -> CommentJsonView {
        CommentJsonView {
            id: self.id as int,
            body: self.body@,
            author: self.author@,
            created_at: self.created_at@,
            updated_at: self.updated_at@,
        }
    }
}

/// What each of a list of outward comments holds, in order.
pub open spec fn comment_jsons(list: Seq<CommentJson>) -> Seq<CommentJsonView> {
    list.map_values(|j: CommentJson| j@)
}

/// What each of a list of stored comments holds, in order.
pub open spec fn comment_views(list: Seq<Comment>) -> Seq<CommentView> {
    list.map_values(|r: Comment| r@)
}

} // verus!
